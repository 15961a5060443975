use dressed_trajectory_fields::experiment::{
    render_computed_figures, render_reference_figures, reproduce_all, run_baselines, run_native,
    tables_comparable, Action, Event, OutputDir, Rendering, Task,
};

fn drive(step: fn(usize, Event) -> (usize, Action), fail_at: Option<usize>) -> (Vec<Task>, Action) {
    let mut tasks = Vec::new();
    let (mut done, mut action) = step(0, Event::Begin);
    loop {
        match action {
            Action::Perform(task) => {
                let index = tasks.len();
                tasks.push(task);
                let event = if Some(index) == fail_at { Event::Failed } else { Event::Succeeded };
                let (next, next_action) = step(done, event);
                done = next;
                action = next_action;
            }
            other => return (tasks, other),
        }
    }
}

fn native_tasks() -> Vec<Task> {
    vec![
        Task::LocateRepoRoot,
        Task::CreateDir(OutputDir::Data),
        Task::LoadModel { horizon: 30 },
        Task::NativeFigure(1),
        Task::NativeFigure(2),
        Task::NativeFigure(3),
        Task::NativeFigure(4),
        Task::NativeFigure(5),
        Task::NativeFigure(6),
    ]
}

fn baseline_tasks() -> Vec<Task> {
    vec![
        Task::LocateRepoRoot,
        Task::CreateDir(OutputDir::Data),
        Task::LoadModel { horizon: 10 },
        Task::CompareBaselines,
        Task::WriteBaselineErrors,
        Task::WriteCovarianceProfiles,
        Task::SamplingBudgetCurves,
    ]
}

fn render_tasks() -> Vec<Task> {
    vec![
        Task::CreateDir(OutputDir::Figures),
        Task::Render(Rendering::Figure1),
        Task::Render(Rendering::Figure2),
        Task::Render(Rendering::Figure3),
        Task::Render(Rendering::Figure4),
        Task::Render(Rendering::Figure5),
        Task::Render(Rendering::Figure6),
        Task::Render(Rendering::Figures7And8),
        Task::Render(Rendering::Figure9),
        Task::Render(Rendering::Figures10And11),
    ]
}

#[test]
fn native_run_performs_its_plan() {
    let (tasks, last) = drive(run_native, None);
    assert_eq!(tasks, native_tasks());
    assert_eq!(last, Action::Finish);
}

#[test]
fn baselines_run_performs_its_plan() {
    let (tasks, last) = drive(run_baselines, None);
    assert_eq!(tasks, baseline_tasks());
    assert_eq!(last, Action::Finish);
}

#[test]
fn render_run_performs_its_plan() {
    let (tasks, last) = drive(render_computed_figures, None);
    assert_eq!(tasks, render_tasks());
    assert_eq!(last, Action::Finish);
}

#[test]
fn reference_figures_run_locates_root_then_copies() {
    let (tasks, last) = drive(render_reference_figures, None);
    assert_eq!(tasks, vec![Task::LocateRepoRoot, Task::CopyReferenceFigures]);
    assert_eq!(last, Action::Finish);
}

#[test]
fn reproduction_chains_native_baselines_render_validate() {
    let (tasks, last) = drive(reproduce_all, None);
    let mut expected = native_tasks();
    expected.extend(baseline_tasks());
    expected.extend(render_tasks());
    expected.push(Task::ValidateAgainstPaper);
    assert_eq!(tasks, expected);
    assert_eq!(last, Action::Finish);
}

#[test]
fn first_failure_stops_the_run() {
    let (tasks, last) = drive(run_native, Some(3));
    assert_eq!(tasks, native_tasks()[..4].to_vec());
    assert_eq!(last, Action::Abort);

    let (tasks, last) = drive(reproduce_all, Some(0));
    assert_eq!(tasks, vec![Task::LocateRepoRoot]);
    assert_eq!(last, Action::Abort);
}

#[test]
fn failure_keeps_the_count() {
    assert_eq!(run_baselines(4, Event::Failed), (4, Action::Abort));
}

#[test]
fn begin_hands_out_the_first_task() {
    assert_eq!(render_computed_figures(0, Event::Begin), (0, Action::Perform(Task::CreateDir(OutputDir::Figures))));
    assert_eq!(run_native(2, Event::Succeeded), (3, Action::Perform(Task::NativeFigure(1))));
}

#[test]
fn tables_compare_by_header_and_row_count() {
    let h1 = vec!["run".to_string(), "lag".to_string()];
    let h2 = vec!["run".to_string(), "lag".to_string()];
    let h3 = vec!["run".to_string(), "range".to_string()];
    assert!(tables_comparable(&h1, &h2, 310, 310));
    assert!(!tables_comparable(&h1, &h2, 310, 300));
    assert!(!tables_comparable(&h1, &h3, 310, 310));
    assert!(!tables_comparable(&h1, &vec!["run".to_string()], 5, 5));
}
