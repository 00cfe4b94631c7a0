//! Pipeline stage classification based on current labels.
use crate::config::{DagenticConfig, LabelConfig};
use crate::gh::{label_names, Issue, IssueView, LabelRef, PullRequest, PullRequestView};
use crate::text::{
    chars_eq, contains_chars, contains_seq, decimal_digits, push_decimal, to_chars,
};
use vstd::prelude::*;

verus! {

// -- Steps & Flows --
/// One step of a dagentic flow.
#[derive(Debug, Clone, Copy, PartialEq, Eq, Hash, Structural)]
pub enum Step {
    Assess,
    Spec,
    Plan,
    Implement,
    Review,
    Fixup,
}

/// The name under which a step is shown.
pub open spec fn step_name(s: Step) -> Seq<char> {
    match s {
        Step::Assess => "assess"@,
        Step::Spec => "spec"@,
        Step::Plan => "plan"@,
        Step::Implement => "implement"@,
        Step::Review => "review"@,
        Step::Fixup => "fixup"@,
    }
}

impl Step {
    pub fn display(&self) -> (r: &'static str)
        ensures
            r@ == step_name(*self),
    {
        match self {
            Step::Assess => "assess",
            Step::Spec => "spec",
            Step::Plan => "plan",
            Step::Implement => "implement",
            Step::Review => "review",
            Step::Fixup => "fixup",
        }
    }
}

/// Where a step stands.
#[derive(Debug, Clone, Copy, PartialEq, Eq, Structural)]
pub enum StepStatus {
    Pending,
    InProgress,
    Ready,
    Approved,
    Skipped,
}

/// The name under which a step status is shown.
pub open spec fn step_status_name(s: StepStatus) -> Seq<char> {
    match s {
        StepStatus::Pending => "pending"@,
        StepStatus::InProgress => "in progress"@,
        StepStatus::Ready => "ready"@,
        StepStatus::Approved => "approved"@,
        StepStatus::Skipped => "skipped"@,
    }
}

impl StepStatus {
    pub fn display(&self) -> (r: &'static str)
        ensures
            r@ == step_status_name(*self),
    {
        match self {
            StepStatus::Pending => "pending",
            StepStatus::InProgress => "in progress",
            StepStatus::Ready => "ready",
            StepStatus::Approved => "approved",
            StepStatus::Skipped => "skipped",
        }
    }
}

/// A step together with where it stands.
#[derive(Debug, Clone, Copy, PartialEq, Eq, Structural)]
pub struct StepState {
    pub step: Step,
    pub status: StepStatus,
}

/// Which steps a task goes through.
#[derive(Debug, Clone, Copy, PartialEq, Eq, Structural)]
pub enum Flow {
    Assess,
    Spec,
    Full,
    Implement,
}

/// The steps of each flow, in order.
pub open spec fn flow_steps(f: Flow) -> Seq<Step> {
    match f {
        Flow::Assess => seq![Step::Assess],
        Flow::Spec => seq![Step::Assess, Step::Spec],
        Flow::Full => seq![
            Step::Assess,
            Step::Spec,
            Step::Plan,
            Step::Implement,
            Step::Review,
            Step::Fixup,
        ],
        Flow::Implement => seq![Step::Implement, Step::Review, Step::Fixup],
    }
}

/// Each flow runs a contiguous part of the full flow: the assess flow its first
/// step, the spec flow its first two, the implement flow its last three.
pub proof fn lemma_flow_steps_nested()
    ensures
        flow_steps(Flow::Assess) == flow_steps(Flow::Full).take(1),
        flow_steps(Flow::Spec) == flow_steps(Flow::Full).take(2),
        flow_steps(Flow::Implement) == flow_steps(Flow::Full).skip(3),
{
    assert(flow_steps(Flow::Assess) =~= flow_steps(Flow::Full).take(1));
    assert(flow_steps(Flow::Spec) =~= flow_steps(Flow::Full).take(2));
    assert(flow_steps(Flow::Implement) =~= flow_steps(Flow::Full).skip(3));
}

/// The name under which a flow is shown.
pub open spec fn flow_name(f: Flow) -> Seq<char> {
    match f {
        Flow::Assess => "assess"@,
        Flow::Spec => "spec"@,
        Flow::Full => "full"@,
        Flow::Implement => "implement"@,
    }
}

/// A label named `name` is among `names`.
pub open spec fn has_label(names: Seq<Seq<char>>, name: Seq<char>) -> bool {
    exists|i: int| 0 <= i < names.len() && #[trigger] names[i] == name
}

/// The flow that a task's labels select: the assess, spec and implement flow
/// labels are looked for in that order, and without any of them the flow is full.
pub open spec fn flow_of(names: Seq<Seq<char>>, c: LabelConfig) -> Flow {
    if has_label(names, c.flow_assess@) {
        Flow::Assess
    } else if has_label(names, c.flow_spec@) {
        Flow::Spec
    } else if has_label(names, c.flow_implement@) {
        Flow::Implement
    } else {
        Flow::Full
    }
}

/// Whether one of `labels` is named `name`.
pub fn label_present(labels: &[LabelRef], name: &String) -> (r: bool)
    ensures
        r == has_label(label_names(labels@), name@),
{
    let mut i: usize = 0;
    while i < labels.len()
        invariant
            i <= labels.len(),
            forall|k: int| 0 <= k < i ==> labels@[k]@ != name@,
        decreases labels.len() - i,
    {
        if labels[i].name == *name {
            assert(label_names(labels@)[i as int] == name@);
            return true;
        }
        i = i + 1;
    }
    false
}

impl Flow {
    pub fn steps(&self) -> (r: &'static [Step])
        ensures
            r@ == flow_steps(*self),
    {
        match self {
            Flow::Assess => {
                let r: &'static [Step] = &[Step::Assess];
                assert(r@ =~= flow_steps(*self));
                r
            },
            Flow::Spec => {
                let r: &'static [Step] = &[Step::Assess, Step::Spec];
                assert(r@ =~= flow_steps(*self));
                r
            },
            Flow::Full => {
                let r: &'static [Step] = &[
                    Step::Assess,
                    Step::Spec,
                    Step::Plan,
                    Step::Implement,
                    Step::Review,
                    Step::Fixup,
                ];
                assert(r@ =~= flow_steps(*self));
                r
            },
            Flow::Implement => {
                let r: &'static [Step] = &[Step::Implement, Step::Review, Step::Fixup];
                assert(r@ =~= flow_steps(*self));
                r
            },
        }
    }

    pub fn display(&self) -> (r: &'static str)
        ensures
            r@ == flow_name(*self),
    {
        match self {
            Flow::Assess => "assess",
            Flow::Spec => "spec",
            Flow::Full => "full",
            Flow::Implement => "implement",
        }
    }

    pub fn from_labels(labels: &[LabelRef], config: &DagenticConfig) -> (r: Flow)
        ensures
            r == flow_of(label_names(labels@), config.labels),
    {
        if label_present(labels, &config.labels.flow_assess) {
            Flow::Assess
        } else if label_present(labels, &config.labels.flow_spec) {
            Flow::Spec
        } else if label_present(labels, &config.labels.flow_implement) {
            Flow::Implement
        } else {
            Flow::Full
        }
    }
}

/// Something a step has produced.
#[derive(Debug, Clone)]
pub struct Deliverable {
    pub step: Step,
    pub filename: String,
    pub comment_url: Option<String>,
}

// -- Stages (backward-compatible display type) --
/// Where a task stands, as shown to the user.
#[derive(Debug, Clone, Copy, PartialEq, Eq, Structural)]
pub enum Stage {
    Planning,
    Planned,
    Approved,
    Coding,
    Review,
    ReviewAddressed,
    Done,
    Abandoned,
}

/// The name under which a stage is shown.
pub open spec fn stage_name(s: Stage) -> Seq<char> {
    match s {
        Stage::Planning => "Planning"@,
        Stage::Planned => "Planned (awaiting approval)"@,
        Stage::Approved => "Approved (awaiting implementation)"@,
        Stage::Coding => "Coding"@,
        Stage::Review => "In review"@,
        Stage::ReviewAddressed => "Review addressed"@,
        Stage::Done => "Done"@,
        Stage::Abandoned => "Abandoned"@,
    }
}

impl Stage {
    pub fn display(&self) -> (r: &'static str)
        ensures
            r@ == stage_name(*self),
    {
        match self {
            Stage::Planning => "Planning",
            Stage::Planned => "Planned (awaiting approval)",
            Stage::Approved => "Approved (awaiting implementation)",
            Stage::Coding => "Coding",
            Stage::Review => "In review",
            Stage::ReviewAddressed => "Review addressed",
            Stage::Done => "Done",
            Stage::Abandoned => "Abandoned",
        }
    }

    /// A stage is open unless the task is done or abandoned.
    pub fn is_open(&self) -> (r: bool)
        ensures
            r == !(*self == Stage::Done || *self == Stage::Abandoned),
    {
        !matches!(self, Stage::Done | Stage::Abandoned)
    }
}

/// Whether a state reads `CLOSED`.
pub fn is_closed(state: &String) -> (r: bool)
    ensures
        r == (state@ == "CLOSED"@),
{
    let s = to_chars(state.as_str());
    let closed = to_chars("CLOSED");
    chars_eq(&s, &closed)
}

/// The stage of an issue, told by its labels (most advanced plan label first),
/// then by whether it is closed.
pub open spec fn issue_stage(issue: IssueView, c: LabelConfig) -> Stage {
    if has_label(issue.labels, c.plan_approved@) {
        Stage::Approved
    } else if has_label(issue.labels, c.plan_ready@) {
        Stage::Planned
    } else if has_label(issue.labels, c.needs_plan@) {
        Stage::Planning
    } else if issue.state == "CLOSED"@ {
        Stage::Abandoned
    } else {
        Stage::Planning
    }
}

/// The stage of a pull request: merged, closed, then by its review labels.
pub open spec fn pr_stage(pr: PullRequestView, c: LabelConfig) -> Stage {
    if pr.merged_at is Some {
        Stage::Done
    } else if pr.state == "CLOSED"@ {
        Stage::Abandoned
    } else if has_label(pr.labels, c.review_addressed@) {
        Stage::ReviewAddressed
    } else if has_label(pr.labels, c.review_pending@) {
        Stage::Review
    } else {
        Stage::Coding
    }
}

pub fn classify_issue(issue: &Issue, config: &DagenticConfig) -> (r: Stage)
    ensures
        r == issue_stage(issue@, config.labels),
{
    let labels = issue.labels.as_slice();
    if label_present(labels, &config.labels.plan_approved) {
        Stage::Approved
    } else if label_present(labels, &config.labels.plan_ready) {
        Stage::Planned
    } else if label_present(labels, &config.labels.needs_plan) {
        Stage::Planning
    } else if is_closed(&issue.state) {
        Stage::Abandoned
    } else {
        Stage::Planning
    }
}

pub fn classify_pr(pr: &PullRequest, config: &DagenticConfig) -> (r: Stage)
    ensures
        r == pr_stage(pr@, config.labels),
{
    let labels = pr.labels.as_slice();
    if pr.merged_at.is_some() {
        Stage::Done
    } else if is_closed(&pr.state) {
        Stage::Abandoned
    } else if label_present(labels, &config.labels.review_addressed) {
        Stage::ReviewAddressed
    } else if label_present(labels, &config.labels.review_pending) {
        Stage::Review
    } else {
        Stage::Coding
    }
}

/// The current step of an issue: the labels of the assess step come first, then
/// those of the spec step, then those of the plan step; within a step approved
/// comes before ready, and ready before in progress. Without any of them the plan
/// step is pending.
pub open spec fn issue_step(issue: IssueView, c: LabelConfig) -> StepState {
    let l = issue.labels;
    if has_label(l, c.assess_approved@) {
        StepState { step: Step::Assess, status: StepStatus::Approved }
    } else if has_label(l, c.assess_ready@) {
        StepState { step: Step::Assess, status: StepStatus::Ready }
    } else if has_label(l, c.needs_assess@) {
        StepState { step: Step::Assess, status: StepStatus::InProgress }
    } else if has_label(l, c.spec_approved@) {
        StepState { step: Step::Spec, status: StepStatus::Approved }
    } else if has_label(l, c.spec_ready@) {
        StepState { step: Step::Spec, status: StepStatus::Ready }
    } else if has_label(l, c.needs_spec@) {
        StepState { step: Step::Spec, status: StepStatus::InProgress }
    } else if has_label(l, c.plan_approved@) {
        StepState { step: Step::Plan, status: StepStatus::Approved }
    } else if has_label(l, c.plan_ready@) {
        StepState { step: Step::Plan, status: StepStatus::Ready }
    } else if has_label(l, c.needs_plan@) {
        StepState { step: Step::Plan, status: StepStatus::InProgress }
    } else {
        StepState { step: Step::Plan, status: StepStatus::Pending }
    }
}

/// The current step of an open pull request, told by its review labels.
pub open spec fn pr_step(pr: PullRequestView, c: LabelConfig) -> StepState {
    if has_label(pr.labels, c.review_addressed@) {
        StepState { step: Step::Fixup, status: StepStatus::Approved }
    } else if has_label(pr.labels, c.review_pending@) {
        StepState { step: Step::Review, status: StepStatus::InProgress }
    } else {
        StepState { step: Step::Implement, status: StepStatus::InProgress }
    }
}

pub fn classify_issue_step(issue: &Issue, config: &DagenticConfig) -> (r: StepState)
    ensures
        r == issue_step(issue@, config.labels),
{
    let l = issue.labels.as_slice();
    let c = &config.labels;
    if label_present(l, &c.assess_approved) {
        StepState { step: Step::Assess, status: StepStatus::Approved }
    } else if label_present(l, &c.assess_ready) {
        StepState { step: Step::Assess, status: StepStatus::Ready }
    } else if label_present(l, &c.needs_assess) {
        StepState { step: Step::Assess, status: StepStatus::InProgress }
    } else if label_present(l, &c.spec_approved) {
        StepState { step: Step::Spec, status: StepStatus::Approved }
    } else if label_present(l, &c.spec_ready) {
        StepState { step: Step::Spec, status: StepStatus::Ready }
    } else if label_present(l, &c.needs_spec) {
        StepState { step: Step::Spec, status: StepStatus::InProgress }
    } else if label_present(l, &c.plan_approved) {
        StepState { step: Step::Plan, status: StepStatus::Approved }
    } else if label_present(l, &c.plan_ready) {
        StepState { step: Step::Plan, status: StepStatus::Ready }
    } else if label_present(l, &c.needs_plan) {
        StepState { step: Step::Plan, status: StepStatus::InProgress }
    } else {
        StepState { step: Step::Plan, status: StepStatus::Pending }
    }
}

pub fn classify_pr_step(pr: &PullRequest, config: &DagenticConfig) -> (r: StepState)
    ensures
        r == pr_step(pr@, config.labels),
{
    let l = pr.labels.as_slice();
    if label_present(l, &config.labels.review_addressed) {
        StepState { step: Step::Fixup, status: StepStatus::Approved }
    } else if label_present(l, &config.labels.review_pending) {
        StepState { step: Step::Review, status: StepStatus::InProgress }
    } else {
        StepState { step: Step::Implement, status: StepStatus::InProgress }
    }
}

/// A unified view of a dagentic task: an issue optionally linked to a PR.
#[derive(Debug, Clone)]
pub struct Task {
    pub issue: Issue,
    pub pr: Option<PullRequest>,
    pub stage: Stage,
    pub flow: Flow,
    pub current_step: StepState,
    pub deliverables: Vec<Deliverable>,
}

/// A pull request refers to issue `number` when its title holds `#` and the
/// number's decimal digits.
pub open spec fn refers_to(pr: PullRequestView, number: u64) -> bool {
    contains_seq(pr.title, seq!['#'] + decimal_digits(number as nat))
}

/// The index of the first pull request that refers to issue `number`.
pub open spec fn linked_pr_index(prs: Seq<PullRequestView>, number: u64) -> Option<int>
    decreases prs.len(),
{
    if prs.len() == 0 {
        None
    } else if refers_to(prs[0], number) {
        Some(0)
    } else {
        match linked_pr_index(prs.drop_first(), number) {
            Some(i) => Some(i + 1),
            None => None,
        }
    }
}

/// The views of `prs`.
pub open spec fn pr_views(prs: Seq<PullRequest>) -> Seq<PullRequestView> {
    prs.map_values(|p: PullRequest| p@)
}

/// The pull request linked to issue `number`, if any.
pub open spec fn linked_pr(prs: Seq<PullRequestView>, number: u64) -> Option<PullRequestView> {
    match linked_pr_index(prs, number) {
        Some(j) => Some(prs[j]),
        None => None,
    }
}

pub open spec fn opt_pr_view(o: Option<PullRequest>) -> Option<PullRequestView> {
    match o {
        Some(p) => Some(p@),
        None => None,
    }
}

/// The stage of a task: that of its linked pull request, else that of its issue.
pub open spec fn task_stage(
    issue: IssueView,
    pr: Option<PullRequestView>,
    c: LabelConfig,
) -> Stage {
    match pr {
        Some(p) => pr_stage(p, c),
        None => issue_stage(issue, c),
    }
}

/// The current step of a task: that of its linked pull request while it is open
/// and unmerged, else that of its issue.
pub open spec fn task_step(
    issue: IssueView,
    pr: Option<PullRequestView>,
    c: LabelConfig,
) -> StepState {
    match pr {
        Some(p) => if p.merged_at is Some || p.state == "CLOSED"@ {
            issue_step(issue, c)
        } else {
            pr_step(p, c)
        },
        None => issue_step(issue, c),
    }
}

/// Where the first pull request referring to `number` is, told by the index of
/// the first one found.
pub proof fn lemma_linked_pr_index(prs: Seq<PullRequestView>, number: u64, i: int)
    requires
        0 <= i <= prs.len(),
        forall|k: int| 0 <= k < i ==> !refers_to(#[trigger] prs[k], number),
    ensures
        i < prs.len() && refers_to(prs[i], number) ==> linked_pr_index(prs, number) == Some(i),
        i == prs.len() ==> linked_pr_index(prs, number) is None,
    decreases i,
{
    if i > 0 {
        let rest = prs.drop_first();
        assert forall|k: int| 0 <= k < i - 1 implies !refers_to(#[trigger] rest[k], number) by {
            assert(rest[k] == prs[k + 1]);
        }
        lemma_linked_pr_index(rest, number, i - 1);
    }
}

/// The index of the first pull request whose title refers to issue `number`.
pub fn find_linked_pr(prs: &Vec<PullRequest>, number: u64) -> (r: Option<usize>)
    ensures
        match r {
            Some(j) => j < prs.len() && linked_pr_index(pr_views(prs@), number) == Some(j as int),
            None => linked_pr_index(pr_views(prs@), number) is None,
        },
{
    let mut pattern: Vec<char> = vec!['#'];
    push_decimal(number, &mut pattern);
    let ghost views = pr_views(prs@);
    let mut j: usize = 0;
    while j < prs.len()
        invariant
            j <= prs.len(),
            views == pr_views(prs@),
            pattern@ == seq!['#'] + decimal_digits(number as nat),
            forall|k: int| 0 <= k < j ==> !refers_to(#[trigger] views[k], number),
        decreases prs.len() - j,
    {
        let title = to_chars(prs[j].title.as_str());
        if contains_chars(&title, &pattern) {
            assert(refers_to(views[j as int], number));
            proof {
                lemma_linked_pr_index(views, number, j as int);
            }
            return Some(j);
        }
        assert(!refers_to(views[j as int], number));
        j = j + 1;
    }
    proof {
        lemma_linked_pr_index(views, number, j as int);
    }
    None
}

/// What `build_tasks` makes of one issue.
pub open spec fn is_task_of(
    t: Task,
    issue: Issue,
    prs: Seq<PullRequestView>,
    c: LabelConfig,
) -> bool {
    let pr = linked_pr(prs, issue.number);
    &&& t.issue@ == issue@
    &&& opt_pr_view(t.pr) == pr
    &&& t.stage == task_stage(issue@, pr, c)
    &&& t.flow == flow_of(issue@.labels, c)
    &&& t.current_step == task_step(issue@, pr, c)
    &&& t.deliverables@.len() == 0
}

/// Build tasks by matching issues to PRs: one task per issue, in order, linked to
/// the first PR whose title refers to the issue's number.
pub fn build_tasks(issues: Vec<Issue>, prs: Vec<PullRequest>, config: &DagenticConfig) -> (r: Vec<
    Task,
>)
    ensures
        r.len() == issues.len(),
        forall|i: int|
            0 <= i < r.len() ==> is_task_of(
                #[trigger] r@[i],
                issues@[i],
                pr_views(prs@),
                config.labels,
            ),
{
    let mut tasks: Vec<Task> = Vec::new();
    let ghost views = pr_views(prs@);
    let mut i: usize = 0;
    while i < issues.len()
        invariant
            i <= issues.len(),
            views == pr_views(prs@),
            tasks.len() == i,
            forall|k: int|
                0 <= k < i ==> is_task_of(#[trigger] tasks@[k], issues@[k], views, config.labels),
        decreases issues.len() - i,
    {
        let issue = &issues[i];
        let linked = find_linked_pr(&prs, issue.number);
        let (stage, current_step, pr) = match linked {
            Some(j) => {
                let p = &prs[j];
                assert(views[j as int] == p@);
                let stage = classify_pr(p, config);
                let step = if p.merged_at.is_some() || is_closed(&p.state) {
                    classify_issue_step(issue, config)
                } else {
                    classify_pr_step(p, config)
                };
                (stage, step, Some(p.clone()))
            },
            None => (classify_issue(issue, config), classify_issue_step(issue, config), None),
        };
        let flow = Flow::from_labels(issue.labels.as_slice(), config);
        let task = Task {
            issue: issue.clone(),
            pr,
            stage,
            flow,
            current_step,
            deliverables: Vec::new(),
        };
        assert(is_task_of(task, issues@[i as int], views, config.labels));
        tasks.push(task);
        i = i + 1;
    }
    tasks
}


// -- Laws of classification --
/// Carrying a label is being among the label names.
proof fn lemma_has_label_is_contains(names: Seq<Seq<char>>, name: Seq<char>)
    ensures
        has_label(names, name) == names.contains(name),
{
    if names.contains(name) {
        let i = choose|i: int| 0 <= i < names.len() && names[i] == name;
        assert(names[i] == name);
    }
}

/// An issue's stage: one that carries the plan-approved label is approved,
/// whatever else it carries and whatever its state; otherwise plan-ready makes it
/// planned, and needs-plan makes it planning. Without any of the three, a closed
/// issue is abandoned and an open one is planning.
pub proof fn lemma_issue_stage_by_labels(issue: IssueView, c: LabelConfig)
    ensures
        issue.labels.contains(c.plan_approved@) ==> issue_stage(issue, c) == Stage::Approved,
        !issue.labels.contains(c.plan_approved@) && issue.labels.contains(c.plan_ready@)
            ==> issue_stage(issue, c) == Stage::Planned,
        !issue.labels.contains(c.plan_approved@) && !issue.labels.contains(c.plan_ready@)
            && issue.labels.contains(c.needs_plan@) ==> issue_stage(issue, c) == Stage::Planning,
        !issue.labels.contains(c.plan_approved@) && !issue.labels.contains(c.plan_ready@)
            && !issue.labels.contains(c.needs_plan@) ==> issue_stage(issue, c) == if issue.state
            == "CLOSED"@ {
            Stage::Abandoned
        } else {
            Stage::Planning
        },
        issue_stage(issue, c) == Stage::Approved <==> issue.labels.contains(c.plan_approved@),
{
    lemma_has_label_is_contains(issue.labels, c.plan_approved@);
    lemma_has_label_is_contains(issue.labels, c.plan_ready@);
    lemma_has_label_is_contains(issue.labels, c.needs_plan@);
}

/// A pull request's stage: merged is done, closed unmerged is abandoned; an open,
/// unmerged one that carries the review-addressed label has its review addressed,
/// whatever its other labels; one that carries only review-pending of the two is
/// in review, and one with neither is being coded.
pub proof fn lemma_pr_stage_by_labels(pr: PullRequestView, c: LabelConfig)
    ensures
        pr.merged_at is Some ==> pr_stage(pr, c) == Stage::Done,
        pr.merged_at is None && pr.state == "CLOSED"@ ==> pr_stage(pr, c) == Stage::Abandoned,
        pr.merged_at is None && pr.state != "CLOSED"@ && pr.labels.contains(c.review_addressed@)
            ==> pr_stage(pr, c) == Stage::ReviewAddressed,
        pr.merged_at is None && pr.state != "CLOSED"@ && !pr.labels.contains(c.review_addressed@)
            && pr.labels.contains(c.review_pending@) ==> pr_stage(pr, c) == Stage::Review,
        pr.merged_at is None && pr.state != "CLOSED"@ && !pr.labels.contains(c.review_addressed@)
            && !pr.labels.contains(c.review_pending@) ==> pr_stage(pr, c) == Stage::Coding,
{
    lemma_has_label_is_contains(pr.labels, c.review_addressed@);
    lemma_has_label_is_contains(pr.labels, c.review_pending@);
}

/// An open pull request's step: review-addressed means the fixup is approved,
/// whatever its other labels; review-pending alone means the review is in
/// progress; with neither, the implementation is in progress.
pub proof fn lemma_pr_step_by_labels(pr: PullRequestView, c: LabelConfig)
    ensures
        pr.labels.contains(c.review_addressed@) ==> pr_step(pr, c) == (StepState {
            step: Step::Fixup,
            status: StepStatus::Approved,
        }),
        !pr.labels.contains(c.review_addressed@) && pr.labels.contains(c.review_pending@)
            ==> pr_step(pr, c) == (StepState { step: Step::Review, status: StepStatus::InProgress }),
        !pr.labels.contains(c.review_addressed@) && !pr.labels.contains(c.review_pending@)
            ==> pr_step(pr, c) == (StepState {
            step: Step::Implement,
            status: StepStatus::InProgress,
        }),
{
    lemma_has_label_is_contains(pr.labels, c.review_addressed@);
    lemma_has_label_is_contains(pr.labels, c.review_pending@);
}

/// The step labels in order of precedence, each with the step and status it
/// tells: the assess step before the spec step before the plan step, and within
/// each step its approved label, then its ready label, then its needs- label.
pub open spec fn step_labels(c: LabelConfig) -> Seq<(Seq<char>, StepState)> {
    seq![
        (c.assess_approved@, StepState { step: Step::Assess, status: StepStatus::Approved }),
        (c.assess_ready@, StepState { step: Step::Assess, status: StepStatus::Ready }),
        (c.needs_assess@, StepState { step: Step::Assess, status: StepStatus::InProgress }),
        (c.spec_approved@, StepState { step: Step::Spec, status: StepStatus::Approved }),
        (c.spec_ready@, StepState { step: Step::Spec, status: StepStatus::Ready }),
        (c.needs_spec@, StepState { step: Step::Spec, status: StepStatus::InProgress }),
        (c.plan_approved@, StepState { step: Step::Plan, status: StepStatus::Approved }),
        (c.plan_ready@, StepState { step: Step::Plan, status: StepStatus::Ready }),
        (c.needs_plan@, StepState { step: Step::Plan, status: StepStatus::InProgress }),
    ]
}

/// An issue's current step is the one told by the first step label it carries in
/// order of precedence (so an approved label always gives `Approved`, a ready one
/// `Ready` and a needs- one `InProgress`).
pub proof fn lemma_issue_step_first_label(issue: IssueView, c: LabelConfig, k: int)
    requires
        0 <= k < step_labels(c).len(),
        issue.labels.contains(step_labels(c)[k].0),
        forall|j: int| 0 <= j < k ==> !issue.labels.contains(#[trigger] step_labels(c)[j].0),
    ensures
        issue_step(issue, c) == step_labels(c)[k].1,
{
    let t = step_labels(c);
    let l = issue.labels;
    assert(t.len() == 9);
    assert forall|j: int| 0 <= j < 9 implies has_label(l, #[trigger] t[j].0) == l.contains(t[j].0) by {
        lemma_has_label_is_contains(l, t[j].0);
    }
    assert(t[0].0 == c.assess_approved@);
    assert(t[1].0 == c.assess_ready@);
    assert(t[2].0 == c.needs_assess@);
    assert(t[3].0 == c.spec_approved@);
    assert(t[4].0 == c.spec_ready@);
    assert(t[5].0 == c.needs_spec@);
    assert(t[6].0 == c.plan_approved@);
    assert(t[7].0 == c.plan_ready@);
    assert(t[8].0 == c.needs_plan@);
    if k > 0 { assert(!l.contains(t[0].0)); }
    if k > 1 { assert(!l.contains(t[1].0)); }
    if k > 2 { assert(!l.contains(t[2].0)); }
    if k > 3 { assert(!l.contains(t[3].0)); }
    if k > 4 { assert(!l.contains(t[4].0)); }
    if k > 5 { assert(!l.contains(t[5].0)); }
    if k > 6 { assert(!l.contains(t[6].0)); }
    if k > 7 { assert(!l.contains(t[7].0)); }
}

/// An issue that carries none of the step labels is waiting for its plan.
pub proof fn lemma_issue_step_without_labels(issue: IssueView, c: LabelConfig)
    requires
        forall|j: int|
            0 <= j < step_labels(c).len() ==> !issue.labels.contains(#[trigger] step_labels(c)[j].0),
    ensures
        issue_step(issue, c) == (StepState { step: Step::Plan, status: StepStatus::Pending }),
{
    let t = step_labels(c);
    let l = issue.labels;
    assert(t.len() == 9);
    assert forall|j: int| 0 <= j < 9 implies has_label(l, #[trigger] t[j].0) == l.contains(t[j].0) by {
        lemma_has_label_is_contains(l, t[j].0);
    }
    assert(!l.contains(t[0].0));
    assert(!l.contains(t[1].0));
    assert(!l.contains(t[2].0));
    assert(!l.contains(t[3].0));
    assert(!l.contains(t[4].0));
    assert(!l.contains(t[5].0));
    assert(!l.contains(t[6].0));
    assert(!l.contains(t[7].0));
    assert(!l.contains(t[8].0));
}

/// What a task built for an issue holds: the pull request, if any, is the first
/// one whose title refers to the issue; the stage is the pull request's, else the
/// issue's; and the current step comes from the pull request only while it is
/// open and unmerged. Once it is closed or merged, or where there is none, the
/// step is the one that the issue's own labels give.
pub proof fn lemma_task_of_issue(t: Task, issue: Issue, prs: Seq<PullRequestView>, c: LabelConfig)
    requires
        is_task_of(t, issue, prs, c),
    ensures
        t.pr matches Some(p) ==> exists|j: int|
            0 <= j < prs.len() && prs[j] == p@ && refers_to(p@, issue.number) && forall|k: int|
                0 <= k < j ==> !refers_to(#[trigger] prs[k], issue.number),
        t.pr is None ==> forall|k: int| 0 <= k < prs.len() ==> !refers_to(#[trigger] prs[k], issue.number),
        t.pr matches Some(p) ==> t.stage == pr_stage(p@, c),
        t.pr is None ==> t.stage == issue_stage(issue@, c),
        t.pr matches Some(p) ==> ((p@.state == "CLOSED"@ || p@.merged_at is Some) ==> t.current_step
            == issue_step(issue@, c)),
        t.pr matches Some(p) ==> ((p@.state != "CLOSED"@ && p@.merged_at is None) ==> t.current_step
            == pr_step(p@, c)),
        t.pr is None ==> t.current_step == issue_step(issue@, c),
{
    lemma_linked_pr_index_first(prs, issue.number);
}

/// The linked index is that of the first pull request that refers to the issue;
/// where there is none, no pull request refers to it.
proof fn lemma_linked_pr_index_first(prs: Seq<PullRequestView>, number: u64)
    ensures
        linked_pr_index(prs, number) matches Some(j) ==> 0 <= j < prs.len() && refers_to(
            prs[j],
            number,
        ) && forall|k: int| 0 <= k < j ==> !refers_to(#[trigger] prs[k], number),
        linked_pr_index(prs, number) is None ==> forall|k: int|
            0 <= k < prs.len() ==> !refers_to(#[trigger] prs[k], number),
    decreases prs.len(),
{
    if prs.len() > 0 {
        let rest = prs.drop_first();
        lemma_linked_pr_index_first(rest, number);
        assert forall|k: int| 0 < k < prs.len() implies prs[k] == rest[k - 1] by {}
        if !refers_to(prs[0], number) {
            if let Some(j) = linked_pr_index(rest, number) {
                assert forall|k: int| 0 <= k < j + 1 implies !refers_to(#[trigger] prs[k], number) by {
                    if k > 0 {
                        assert(prs[k] == rest[k - 1]);
                    }
                }
            } else {
                assert forall|k: int| 0 <= k < prs.len() implies !refers_to(#[trigger] prs[k], number) by {
                    if k > 0 {
                        assert(prs[k] == rest[k - 1]);
                    }
                }
            }
        }
    }
}

} // verus!
