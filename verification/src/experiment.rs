//! The experiment driver's decisions. Each command of the reproduction runs a
//! fixed plan of tasks; the caller performs a task and reports whether it
//! succeeded, and the driver answers with the next task, the end of the plan,
//! or an abort on the first failure.

use vstd::prelude::*;

verus! {

/// The directories that the experiments create under the output directory.
#[derive(Clone, Copy, Debug, PartialEq, Eq, Structural)]
pub enum OutputDir {
    /// `<out>/data`, where the numerical tables go.
    Data,
    /// `<out>/figures`, where the rendered figures go.
    Figures,
}

/// A rendering step of the computed figures.
#[derive(Clone, Copy, Debug, PartialEq, Eq, Structural)]
pub enum Rendering {
    Figure1,
    Figure2,
    Figure3,
    Figure4,
    Figure5,
    Figure6,
    Figures7And8,
    Figure9,
    Figures10And11,
}

/// One unit of outside work in a plan.
#[derive(Clone, Copy, Debug, PartialEq, Eq, Structural)]
pub enum Task {
    /// Check that the process runs at the repository root.
    LocateRepoRoot,
    /// Create an output directory.
    CreateDir(OutputDir),
    /// Load the pinned model with the given horizon `T`.
    LoadModel { horizon: usize },
    /// Compute and write the table of a native figure (`1..=6`).
    NativeFigure(usize),
    /// Run the baseline methods over all runs and the baseline grid.
    CompareBaselines,
    /// Write the mean and covariance errors of the baselines (figures 7 and 8).
    WriteBaselineErrors,
    /// Write the temporal covariance profiles (figure 9).
    WriteCovarianceProfiles,
    /// Draw the finite-sample budget curves (figures 10 and 11).
    SamplingBudgetCurves,
    /// Render figures from the written tables.
    Render(Rendering),
    /// Compare the written tables with the arrays published with the paper.
    ValidateAgainstPaper,
    /// Copy the published figures of the paper into the output directory.
    CopyReferenceFigures,
}

/// What the caller reports to the driver.
#[derive(Clone, Copy, Debug, PartialEq, Eq, Structural)]
pub enum Event {
    /// The command starts.
    Begin,
    /// The task last handed out succeeded.
    Succeeded,
    /// The task last handed out failed.
    Failed,
}

/// What the driver asks of the caller.
#[derive(Clone, Copy, Debug, PartialEq, Eq, Structural)]
pub enum Action {
    /// Carry out the given task, then send the matching event.
    Perform(Task),
    /// Every task of the plan succeeded.
    Finish,
    /// A task failed; nothing more is done.
    Abort,
}

/// Horizon of the native trajectory-field experiments.
pub const NATIVE_HORIZON: usize = 30;

/// Horizon of the baseline comparison.
pub const BASELINE_HORIZON: usize = 10;

/// Tasks of the native experiments (figures 1 to 6).
pub open spec fn native_plan() -> Seq<Task> {
    seq![
        Task::LocateRepoRoot,
        Task::CreateDir(OutputDir::Data),
        Task::LoadModel { horizon: NATIVE_HORIZON },
        Task::NativeFigure(1),
        Task::NativeFigure(2),
        Task::NativeFigure(3),
        Task::NativeFigure(4),
        Task::NativeFigure(5),
        Task::NativeFigure(6),
    ]
}

/// Tasks of the baseline experiments (figures 7 to 11).
pub open spec fn baselines_plan() -> Seq<Task> {
    seq![
        Task::LocateRepoRoot,
        Task::CreateDir(OutputDir::Data),
        Task::LoadModel { horizon: BASELINE_HORIZON },
        Task::CompareBaselines,
        Task::WriteBaselineErrors,
        Task::WriteCovarianceProfiles,
        Task::SamplingBudgetCurves,
    ]
}

/// Tasks that render the computed figures.
pub open spec fn render_plan() -> Seq<Task> {
    seq![
        Task::CreateDir(OutputDir::Figures),
        Task::Render(Rendering::Figure1),
        Task::Render(Rendering::Figure2),
        Task::Render(Rendering::Figure3),
        Task::Render(Rendering::Figure4),
        Task::Render(Rendering::Figure5),
        Task::Render(Rendering::Figure6),
        Task::Render(Rendering::Figures7And8),
        Task::Render(Rendering::Figure9),
        Task::Render(Rendering::Figures10And11),
    ]
}

/// Tasks that copy the published figures of the paper.
pub open spec fn reference_figures_plan() -> Seq<Task> {
    seq![Task::LocateRepoRoot, Task::CopyReferenceFigures]
}

/// Tasks of the full reproduction.
pub open spec fn reproduce_plan() -> Seq<Task> {
    seq![
        Task::LocateRepoRoot,
        Task::CreateDir(OutputDir::Data),
        Task::LoadModel { horizon: NATIVE_HORIZON },
        Task::NativeFigure(1),
        Task::NativeFigure(2),
        Task::NativeFigure(3),
        Task::NativeFigure(4),
        Task::NativeFigure(5),
        Task::NativeFigure(6),
        Task::LocateRepoRoot,
        Task::CreateDir(OutputDir::Data),
        Task::LoadModel { horizon: BASELINE_HORIZON },
        Task::CompareBaselines,
        Task::WriteBaselineErrors,
        Task::WriteCovarianceProfiles,
        Task::SamplingBudgetCurves,
        Task::CreateDir(OutputDir::Figures),
        Task::Render(Rendering::Figure1),
        Task::Render(Rendering::Figure2),
        Task::Render(Rendering::Figure3),
        Task::Render(Rendering::Figure4),
        Task::Render(Rendering::Figure5),
        Task::Render(Rendering::Figure6),
        Task::Render(Rendering::Figures7And8),
        Task::Render(Rendering::Figure9),
        Task::Render(Rendering::Figures10And11),
        Task::ValidateAgainstPaper,
    ]
}

/// One step of a plan. The state is the number of tasks that have succeeded.
/// `Begin` hands out the first task; `Succeeded` counts the task handed out and
/// hands out the next one or finishes; `Failed` aborts and keeps the count.
pub open spec fn plan_step(plan: Seq<Task>, done: nat, event: Event) -> (nat, Action) {
    match event {
        Event::Begin => if plan.len() == 0 {
            (0, Action::Finish)
        } else {
            (0, Action::Perform(plan[0]))
        },
        Event::Succeeded => if done + 1 < plan.len() {
            (done + 1, Action::Perform(plan[(done + 1) as int]))
        } else {
            (done + 1, Action::Finish)
        },
        Event::Failed => (done, Action::Abort),
    }
}

/// Executable form of `plan_step`.
fn step_through(plan: &Vec<Task>, done: usize, event: Event) -> (res: (usize, Action))
    requires
        event == Event::Succeeded ==> done < usize::MAX,
    ensures
        res.0 as nat == plan_step(plan@, done as nat, event).0,
        res.1 == plan_step(plan@, done as nat, event).1,
{
    match event {
        Event::Begin => {
            if plan.len() == 0 {
                (0, Action::Finish)
            } else {
                (0, Action::Perform(plan[0]))
            }
        },
        Event::Succeeded => {
            let next = done + 1;
            if next < plan.len() {
                (next, Action::Perform(plan[next]))
            } else {
                (next, Action::Finish)
            }
        },
        Event::Failed => (done, Action::Abort),
    }
}

fn native_tasks() -> (plan: Vec<Task>)
    ensures
        plan@ == native_plan(),
{
    let plan = vec![
        Task::LocateRepoRoot,
        Task::CreateDir(OutputDir::Data),
        Task::LoadModel { horizon: NATIVE_HORIZON },
        Task::NativeFigure(1),
        Task::NativeFigure(2),
        Task::NativeFigure(3),
        Task::NativeFigure(4),
        Task::NativeFigure(5),
        Task::NativeFigure(6),
    ];
    assert(plan@ =~= native_plan());
    plan
}

fn baselines_tasks() -> (plan: Vec<Task>)
    ensures
        plan@ == baselines_plan(),
{
    let plan = vec![
        Task::LocateRepoRoot,
        Task::CreateDir(OutputDir::Data),
        Task::LoadModel { horizon: BASELINE_HORIZON },
        Task::CompareBaselines,
        Task::WriteBaselineErrors,
        Task::WriteCovarianceProfiles,
        Task::SamplingBudgetCurves,
    ];
    assert(plan@ =~= baselines_plan());
    plan
}

fn render_tasks() -> (plan: Vec<Task>)
    ensures
        plan@ == render_plan(),
{
    let plan = vec![
        Task::CreateDir(OutputDir::Figures),
        Task::Render(Rendering::Figure1),
        Task::Render(Rendering::Figure2),
        Task::Render(Rendering::Figure3),
        Task::Render(Rendering::Figure4),
        Task::Render(Rendering::Figure5),
        Task::Render(Rendering::Figure6),
        Task::Render(Rendering::Figures7And8),
        Task::Render(Rendering::Figure9),
        Task::Render(Rendering::Figures10And11),
    ];
    assert(plan@ =~= render_plan());
    plan
}

/// Decides the next step of the native experiments (figures 1 to 6): locate the
/// repository, create the data directory, load the model with `T = 30`, then
/// compute the six native figures in order, stopping at the first failure.
pub fn run_native(done: usize, event: Event) -> (res: (usize, Action))
    requires
        event == Event::Succeeded ==> done < usize::MAX,
    ensures
        res.0 as nat == plan_step(native_plan(), done as nat, event).0,
        res.1 == plan_step(native_plan(), done as nat, event).1,
        event == Event::Failed ==> res.0 == done && res.1 == Action::Abort,
        event == Event::Begin ==> res.0 == 0 && res.1 == Action::Perform(Task::LocateRepoRoot),
        event == Event::Succeeded && done + 1 < 9 ==> res.0 == done + 1 && res.1 == Action::Perform(
            seq![
                Task::LocateRepoRoot,
                Task::CreateDir(OutputDir::Data),
                (Task::LoadModel { horizon: 30 }),
                Task::NativeFigure(1),
                Task::NativeFigure(2),
                Task::NativeFigure(3),
                Task::NativeFigure(4),
                Task::NativeFigure(5),
                Task::NativeFigure(6),
            ][done + 1],
        ),
        event == Event::Succeeded && done + 1 == 9 ==> res.0 == 9 && res.1 == Action::Finish,
        res.1 == Action::Finish ==> event == Event::Succeeded && res.0 >= 9,
{
    let plan = native_tasks();
    step_through(&plan, done, event)
}

/// Decides the next step of the baseline experiments (figures 7 to 11): locate
/// the repository, create the data directory, load the model with `T = 10`,
/// compare the baselines, write their error and profile tables, then draw the
/// sampling-budget curves, stopping at the first failure.
pub fn run_baselines(done: usize, event: Event) -> (res: (usize, Action))
    requires
        event == Event::Succeeded ==> done < usize::MAX,
    ensures
        res.0 as nat == plan_step(baselines_plan(), done as nat, event).0,
        res.1 == plan_step(baselines_plan(), done as nat, event).1,
        event == Event::Failed ==> res.0 == done && res.1 == Action::Abort,
        event == Event::Begin ==> res.0 == 0 && res.1 == Action::Perform(Task::LocateRepoRoot),
        event == Event::Succeeded && done + 1 < 7 ==> res.0 == done + 1 && res.1 == Action::Perform(
            seq![
                Task::LocateRepoRoot,
                Task::CreateDir(OutputDir::Data),
                (Task::LoadModel { horizon: 10 }),
                Task::CompareBaselines,
                Task::WriteBaselineErrors,
                Task::WriteCovarianceProfiles,
                Task::SamplingBudgetCurves,
            ][done + 1],
        ),
        event == Event::Succeeded && done + 1 == 7 ==> res.0 == 7 && res.1 == Action::Finish,
        res.1 == Action::Finish ==> event == Event::Succeeded && res.0 >= 7,
{
    let plan = baselines_tasks();
    step_through(&plan, done, event)
}

/// Decides the next step of rendering: create the figure directory, then render
/// the computed figures in order, stopping at the first failure.
pub fn render_computed_figures(done: usize, event: Event) -> (res: (usize, Action))
    requires
        event == Event::Succeeded ==> done < usize::MAX,
    ensures
        res.0 as nat == plan_step(render_plan(), done as nat, event).0,
        res.1 == plan_step(render_plan(), done as nat, event).1,
        event == Event::Failed ==> res.0 == done && res.1 == Action::Abort,
        event == Event::Begin ==> res.0 == 0 && res.1 == Action::Perform(Task::CreateDir(OutputDir::Figures)),
        event == Event::Succeeded && done + 1 < 10 ==> res.0 == done + 1 && res.1 == Action::Perform(
            seq![
                Task::CreateDir(OutputDir::Figures),
                Task::Render(Rendering::Figure1),
                Task::Render(Rendering::Figure2),
                Task::Render(Rendering::Figure3),
                Task::Render(Rendering::Figure4),
                Task::Render(Rendering::Figure5),
                Task::Render(Rendering::Figure6),
                Task::Render(Rendering::Figures7And8),
                Task::Render(Rendering::Figure9),
                Task::Render(Rendering::Figures10And11),
            ][done + 1],
        ),
        event == Event::Succeeded && done + 1 == 10 ==> res.0 == 10 && res.1 == Action::Finish,
        res.1 == Action::Finish ==> event == Event::Succeeded && res.0 >= 10,
{
    let plan = render_tasks();
    step_through(&plan, done, event)
}

/// Decides the next step of copying the published figures of the paper: locate the
/// repository, then copy the figure tree.
pub fn render_reference_figures(done: usize, event: Event) -> (res: (usize, Action))
    requires
        event == Event::Succeeded ==> done < usize::MAX,
    ensures
        res.0 as nat == plan_step(reference_figures_plan(), done as nat, event).0,
        res.1 == plan_step(reference_figures_plan(), done as nat, event).1,
        event == Event::Failed ==> res.0 == done && res.1 == Action::Abort,
        event == Event::Begin ==> res.0 == 0 && res.1 == Action::Perform(Task::LocateRepoRoot),
        event == Event::Succeeded && done + 1 < 2 ==> res.0 == done + 1 && res.1 == Action::Perform(
            seq![
                Task::LocateRepoRoot,
                Task::CopyReferenceFigures,
            ][done + 1],
        ),
        event == Event::Succeeded && done + 1 == 2 ==> res.0 == 2 && res.1 == Action::Finish,
        res.1 == Action::Finish ==> event == Event::Succeeded && res.0 >= 2,
{
    let plan = vec![Task::LocateRepoRoot, Task::CopyReferenceFigures];
    assert(plan@ =~= reference_figures_plan());
    step_through(&plan, done, event)
}

/// Decides the next step of the full reproduction: the native experiments, the
/// baselines, the rendering, then the validation against the paper, stopping
/// at the first failure.
pub fn reproduce_all(done: usize, event: Event) -> (res: (usize, Action))
    requires
        event == Event::Succeeded ==> done < usize::MAX,
    ensures
        res.0 as nat == plan_step(reproduce_plan(), done as nat, event).0,
        res.1 == plan_step(reproduce_plan(), done as nat, event).1,
        event == Event::Failed ==> res.0 == done && res.1 == Action::Abort,
        event == Event::Begin ==> res.0 == 0 && res.1 == Action::Perform(Task::LocateRepoRoot),
        event == Event::Succeeded && done + 1 < 27 ==> res.0 == done + 1 && res.1 == Action::Perform(
            seq![
                Task::LocateRepoRoot,
                Task::CreateDir(OutputDir::Data),
                (Task::LoadModel { horizon: 30 }),
                Task::NativeFigure(1),
                Task::NativeFigure(2),
                Task::NativeFigure(3),
                Task::NativeFigure(4),
                Task::NativeFigure(5),
                Task::NativeFigure(6),
                Task::LocateRepoRoot,
                Task::CreateDir(OutputDir::Data),
                (Task::LoadModel { horizon: 10 }),
                Task::CompareBaselines,
                Task::WriteBaselineErrors,
                Task::WriteCovarianceProfiles,
                Task::SamplingBudgetCurves,
                Task::CreateDir(OutputDir::Figures),
                Task::Render(Rendering::Figure1),
                Task::Render(Rendering::Figure2),
                Task::Render(Rendering::Figure3),
                Task::Render(Rendering::Figure4),
                Task::Render(Rendering::Figure5),
                Task::Render(Rendering::Figure6),
                Task::Render(Rendering::Figures7And8),
                Task::Render(Rendering::Figure9),
                Task::Render(Rendering::Figures10And11),
                Task::ValidateAgainstPaper,
            ][done + 1],
        ),
        event == Event::Succeeded && done + 1 == 27 ==> res.0 == 27 && res.1 == Action::Finish,
        res.1 == Action::Finish ==> event == Event::Succeeded && res.0 >= 27,
{
    let mut plan = native_tasks();
    let mut rest = baselines_tasks();
    plan.append(&mut rest);
    let mut rest = render_tasks();
    plan.append(&mut rest);
    plan.push(Task::ValidateAgainstPaper);
    assert(plan@ =~= reproduce_plan());
    step_through(&plan, done, event)
}

/// The tasks that a caller performs when it reports `outcomes[k]` (`true` for
/// success) for the k-th task handed out, starting from `done` and `event`.
pub open spec fn performed_after(plan: Seq<Task>, done: nat, event: Event, outcomes: Seq<bool>) -> Seq<Task>
    decreases outcomes.len(),
{
    let (next, action) = plan_step(plan, done, event);
    match action {
        Action::Perform(task) => if outcomes.len() == 0 {
            seq![task]
        } else {
            seq![task] + performed_after(
                plan,
                next,
                if outcomes[0] { Event::Succeeded } else { Event::Failed },
                outcomes.drop_first(),
            )
        },
        _ => Seq::empty(),
    }
}

/// The tasks performed by a whole command run with the given outcomes.
pub open spec fn performed(plan: Seq<Task>, outcomes: Seq<bool>) -> Seq<Task> {
    performed_after(plan, 0, Event::Begin, outcomes)
}

proof fn lemma_performed_from(plan: Seq<Task>, done: nat, event: Event, j: nat, outcomes: Seq<bool>)
    requires
        j < plan.len(),
        plan_step(plan, done, event) == (j, Action::Perform(plan[j as int])),
    ensures
        outcomes.len() >= plan.len() - j && (forall|i: int| 0 <= i < plan.len() - j ==> outcomes[i])
            ==> performed_after(plan, done, event, outcomes) == plan.subrange(j as int, plan.len() as int),
        forall|k: int|
            #![trigger outcomes[k]]
            0 <= k < outcomes.len() && j + k < plan.len() && !outcomes[k]
                && (forall|i: int| 0 <= i < k ==> outcomes[i])
                ==> performed_after(plan, done, event, outcomes) == plan.subrange(j as int, j + k + 1),
    decreases plan.len() - j,
{
    if outcomes.len() == 0 {
        assert(performed_after(plan, done, event, outcomes) =~= plan.subrange(j as int, j + 1 as int));
    } else {
        let ev = if outcomes[0] { Event::Succeeded } else { Event::Failed };
        let rest = outcomes.drop_first();
        let tail = performed_after(plan, j, ev, rest);
        assert(performed_after(plan, done, event, outcomes) == seq![plan[j as int]] + tail);
        if outcomes[0] {
            if j + 1 < plan.len() {
                lemma_performed_from(plan, j, Event::Succeeded, j + 1, rest);
                if outcomes.len() >= plan.len() - j && (forall|i: int| 0 <= i < plan.len() - j ==> outcomes[i]) {
                    assert forall|i: int| 0 <= i < plan.len() - (j + 1) implies rest[i] by {
                        assert(outcomes[i + 1]);
                    }
                    assert(seq![plan[j as int]] + plan.subrange(j + 1 as int, plan.len() as int)
                        =~= plan.subrange(j as int, plan.len() as int));
                }
                assert forall|k: int|
                    #![trigger outcomes[k]]
                    0 <= k < outcomes.len() && j + k < plan.len() && !outcomes[k]
                        && (forall|i: int| 0 <= i < k ==> outcomes[i])
                    implies performed_after(plan, done, event, outcomes) == plan.subrange(j as int, j + k + 1) by {
                    assert(k >= 1);
                    assert(!rest[k - 1]);
                    assert forall|i: int| 0 <= i < k - 1 implies rest[i] by {
                        assert(outcomes[i + 1]);
                    }
                    assert(seq![plan[j as int]] + plan.subrange(j + 1 as int, j + 1 + (k - 1) + 1)
                        =~= plan.subrange(j as int, j + k + 1));
                }
            } else {
                assert(plan_step(plan, j, Event::Succeeded).1 == Action::Finish);
                assert(tail =~= Seq::<Task>::empty());
                assert(performed_after(plan, done, event, outcomes) =~= plan.subrange(j as int, plan.len() as int));
            }
        } else {
            assert(tail =~= Seq::<Task>::empty());
            assert(performed_after(plan, done, event, outcomes) =~= plan.subrange(j as int, j + 1 as int));
        }
    }
}

/// When every task succeeds, a command performs exactly the tasks of its plan,
/// in order.
pub proof fn lemma_successful_run_performs_plan(plan: Seq<Task>, outcomes: Seq<bool>)
    requires
        outcomes.len() >= plan.len(),
        forall|i: int| 0 <= i < plan.len() ==> outcomes[i],
    ensures
        performed(plan, outcomes) == plan,
{
    if plan.len() == 0 {
        assert(performed(plan, outcomes) =~= plan);
    } else {
        lemma_performed_from(plan, 0, Event::Begin, 0, outcomes);
        assert(plan.subrange(0, plan.len() as int) =~= plan);
    }
}

/// When the task at position `k` of a plan fails after the earlier ones
/// succeeded, the command performs the first `k + 1` tasks and nothing after.
pub proof fn lemma_first_failure_stops_run(plan: Seq<Task>, outcomes: Seq<bool>, k: nat)
    requires
        k < plan.len(),
        k < outcomes.len(),
        !outcomes[k as int],
        forall|i: int| 0 <= i < k ==> outcomes[i],
    ensures
        performed(plan, outcomes) == plan.take(k + 1 as int),
{
    lemma_performed_from(plan, 0, Event::Begin, 0, outcomes);
    assert(!outcomes[k as int]);
}

/// The full reproduction is the native experiments, then the baselines, then
/// the rendering, then the validation against the paper.
pub proof fn lemma_reproduction_chains_the_commands()
    ensures
        reproduce_plan() == native_plan() + baselines_plan() + render_plan()
            + seq![Task::ValidateAgainstPaper],
{
    assert(reproduce_plan() =~= native_plan() + baselines_plan() + render_plan()
        + seq![Task::ValidateAgainstPaper]);
}

/// Whether a computed table can be compared entry by entry with the published
/// table of the paper: the same header, column by column, and the same number of
/// rows. The validation reports a shape/header mismatch otherwise.
pub fn tables_comparable(
    computed_header: &Vec<String>,
    reference_header: &Vec<String>,
    computed_rows: usize,
    reference_rows: usize,
) -> (res: bool)
    ensures
        res == (computed_header@.len() == reference_header@.len() && (forall|k: int|
            0 <= k < computed_header@.len() ==> #[trigger] computed_header@[k]@ == reference_header@[k]@)
            && computed_rows == reference_rows),
{
    if computed_header.len() != reference_header.len() || computed_rows != reference_rows {
        return false;
    }
    let mut k: usize = 0;
    while k < computed_header.len()
        invariant
            computed_header@.len() == reference_header@.len(),
            k <= computed_header@.len(),
            forall|l: int| 0 <= l < k ==> #[trigger] computed_header@[l]@ == reference_header@[l]@,
        decreases computed_header@.len() - k,
    {
        if computed_header[k] != reference_header[k] {
            return false;
        }
        k = k + 1;
    }
    true
}


/// A failed task always aborts the command, whatever the plan and however many
/// tasks succeeded before it, and keeps the count of successes.
pub proof fn lemma_failure_always_aborts(plan: Seq<Task>, done: nat)
    ensures
        plan_step(plan, done, Event::Failed) == (done, Action::Abort),
{
}

/// A command finishes only when the plan is empty at the start, or when a task
/// succeeds and the count of successes reaches the length of the plan; while
/// tasks remain, a success hands out the next task of the plan.
pub proof fn lemma_finish_only_after_whole_plan(plan: Seq<Task>, done: nat, event: Event)
    ensures
        plan_step(plan, done, event).1 == Action::Finish ==> (event == Event::Begin && plan.len() == 0) || (
        event == Event::Succeeded && plan_step(plan, done, event).0 == done + 1 && done + 1 >= plan.len()),
        event == Event::Succeeded && done + 1 < plan.len() ==> plan_step(plan, done, event) == (
        done + 1,
        Action::Perform(plan[done + 1 as int]),
        ),
{
}

} // verus!
