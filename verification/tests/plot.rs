use dressed_trajectory_fields::plot::{esc, AxisScale};

#[test]
fn escapes_markup_characters() {
    assert_eq!(esc("a<b & c>d"), "a&lt;b &amp; c&gt;d");
    assert_eq!(esc("Inverse two-point G^-1"), "Inverse two-point G^-1");
    assert_eq!(esc("&&"), "&amp;&amp;");
    assert_eq!(esc(""), "");
    assert_eq!(esc("λ<μ"), "λ&lt;μ");
}

#[test]
fn escaped_text_has_no_angle_brackets() {
    let e = esc("<svg>x</svg>");
    assert_eq!(e, "&lt;svg&gt;x&lt;/svg&gt;");
    assert!(!e.contains('<') && !e.contains('>'));
}

#[test]
fn axis_scales_compare() {
    assert_eq!(AxisScale::Linear, AxisScale::Linear);
    assert_ne!(AxisScale::Linear, AxisScale::Log10);
}
