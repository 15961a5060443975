//! Plot-level choices that do not involve floating point: the axis scales and
//! the escaping of text placed inside SVG markup.

use vstd::prelude::*;
use vstd::string::*;

verus! {

/// How an axis maps data values to positions.
#[derive(Clone, Copy, Debug, PartialEq, Eq, Structural)]
pub enum AxisScale {
    Linear,
    Log10,
}

/// The markup that stands for one character of plot text.
pub open spec fn escape_char(c: char) -> Seq<char> {
    if c == '&' {
        seq!['&', 'a', 'm', 'p', ';']
    } else if c == '<' {
        seq!['&', 'l', 't', ';']
    } else if c == '>' {
        seq!['&', 'g', 't', ';']
    } else {
        seq![c]
    }
}

/// Plot text with every `&`, `<` and `>` replaced by its character entity.
pub open spec fn escaped(s: Seq<char>) -> Seq<char>
    decreases s.len(),
{
    if s.len() == 0 {
        Seq::empty()
    } else {
        escaped(s.drop_last()) + escape_char(s.last())
    }
}

/// Escapes `&`, `<` and `>` so that `s` can stand as SVG text.
pub fn esc(s: &str) -> (res: String)
    ensures
        res@ == escaped(s@),
{
    let n = s.unicode_len();
    let mut out = String::new();
    let mut i: usize = 0;
    while i < n
        invariant
            n == s@.len(),
            i <= n,
            out@ == escaped(s@.subrange(0, i as int)),
        decreases n - i,
    {
        let c = s.get_char(i);
        proof {
            assert(s@.subrange(0, i + 1).drop_last() =~= s@.subrange(0, i as int));
        }
        if c == '&' {
            proof { reveal_strlit("&amp;"); }
            out.append("&amp;");
        } else if c == '<' {
            proof { reveal_strlit("&lt;"); }
            out.append("&lt;");
        } else if c == '>' {
            proof { reveal_strlit("&gt;"); }
            out.append("&gt;");
        } else {
            out.append(s.substring_char(i, i + 1));
        }
        i = i + 1;
    }
    proof {
        assert(s@.subrange(0, n as int) =~= s@);
    }
    out
}

/// Escaped text holds no `<` and no `>`, so it cannot open or close markup.
pub proof fn lemma_escaped_has_no_angle_brackets(s: Seq<char>)
    ensures
        forall|i: int| 0 <= i < escaped(s).len() ==> #[trigger] escaped(s)[i] != '<' && escaped(s)[i] != '>',
    decreases s.len(),
{
    if s.len() > 0 {
        lemma_escaped_has_no_angle_brackets(s.drop_last());
        let e = escaped(s.drop_last());
        let x = escape_char(s.last());
        assert forall|i: int| 0 <= i < escaped(s).len() implies #[trigger] escaped(s)[i] != '<' && escaped(s)[i]
            != '>' by {
            if i >= e.len() {
                assert(escaped(s)[i] == x[i - e.len()]);
            } else {
                assert(escaped(s)[i] == e[i]);
            }
        }
    }
}

/// Text without `&`, `<` and `>` is left as it is.
pub proof fn lemma_plain_text_unchanged(s: Seq<char>)
    requires
        forall|i: int| 0 <= i < s.len() ==> #[trigger] s[i] != '&' && s[i] != '<' && s[i] != '>',
    ensures
        escaped(s) == s,
    decreases s.len(),
{
    if s.len() > 0 {
        let p = s.drop_last();
        assert forall|i: int| 0 <= i < p.len() implies #[trigger] p[i] != '&' && p[i] != '<' && p[i] != '>' by {
            assert(p[i] == s[i]);
        }
        lemma_plain_text_unchanged(p);
        assert(s.last() == s[s.len() - 1]);
        assert(escaped(s) =~= s);
    }
}


/// Escaping goes character by character: the empty text stays empty, and
/// appending a character appends `&amp;` for `&`, `&lt;` for `<`, `&gt;` for
/// `>`, and the character itself otherwise.
pub proof fn lemma_escaping_is_per_character(s: Seq<char>, c: char)
    ensures
        escaped(Seq::empty()) == Seq::<char>::empty(),
        escaped(s.push(c)) == escaped(s) + (if c == '&' {
            seq!['&', 'a', 'm', 'p', ';']
        } else if c == '<' {
            seq!['&', 'l', 't', ';']
        } else if c == '>' {
            seq!['&', 'g', 't', ';']
        } else {
            seq![c]
        }),
{
    assert(s.push(c).drop_last() =~= s);
}

} // verus!
