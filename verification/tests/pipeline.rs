use dagentic::config::DagenticConfig;
use dagentic::gh::{Issue, LabelRef, PullRequest};
use dagentic::pipeline::{
    build_tasks, classify_issue, classify_issue_step, classify_pr, classify_pr_step, Flow, Stage,
    Step, StepStatus,
};

fn label(name: &str) -> LabelRef {
    LabelRef {
        name: name.to_string(),
    }
}

fn issue(number: u64, labels: Vec<LabelRef>, state: &str) -> Issue {
    Issue {
        number,
        title: format!("Issue {number}"),
        url: String::new(),
        state: state.to_string(),
        labels,
        created_at: "2026-01-01T00:00:00Z".to_string(),
    }
}

fn pr(title: &str, state: &str, labels: Vec<LabelRef>, merged_at: Option<&str>) -> PullRequest {
    PullRequest {
        number: 10,
        title: title.to_string(),
        url: String::new(),
        state: state.to_string(),
        labels,
        created_at: "2026-01-01T00:00:00Z".to_string(),
        merged_at: merged_at.map(|s| s.to_string()),
    }
}

#[test]
fn classify_planning_issue() {
    let config = DagenticConfig::default();
    let i = issue(1, vec![label("needs-plan")], "OPEN");
    assert_eq!(classify_issue(&i, &config), Stage::Planning);
}

#[test]
fn classify_planned_issue() {
    let config = DagenticConfig::default();
    let i = issue(1, vec![label("plan-ready")], "OPEN");
    assert_eq!(classify_issue(&i, &config), Stage::Planned);
}

#[test]
fn classify_approved_issue() {
    let config = DagenticConfig::default();
    let i = issue(1, vec![label("plan-approved")], "OPEN");
    assert_eq!(classify_issue(&i, &config), Stage::Approved);
}

#[test]
fn classify_closed_issue_as_abandoned() {
    let config = DagenticConfig::default();
    let i = issue(1, vec![], "CLOSED");
    assert_eq!(classify_issue(&i, &config), Stage::Abandoned);
}

#[test]
fn classify_merged_pr() {
    let config = DagenticConfig::default();
    let pr = PullRequest {
        number: 10,
        title: "Fix #1".to_string(),
        url: String::new(),
        state: "MERGED".to_string(),
        labels: vec![],
        created_at: "2026-01-01T00:00:00Z".to_string(),
        merged_at: Some("2026-01-02T00:00:00Z".to_string()),
    };
    assert_eq!(classify_pr(&pr, &config), Stage::Done);
}

#[test]
fn classify_pr_in_review() {
    let config = DagenticConfig::default();
    let pr = PullRequest {
        number: 10,
        title: "Fix #1".to_string(),
        url: String::new(),
        state: "OPEN".to_string(),
        labels: vec![label("review-pending")],
        created_at: "2026-01-01T00:00:00Z".to_string(),
        merged_at: None,
    };
    assert_eq!(classify_pr(&pr, &config), Stage::Review);
}

#[test]
fn build_tasks_links_issue_to_pr() {
    let config = DagenticConfig::default();
    let issues = vec![issue(5, vec![label("plan-approved")], "OPEN")];
    let prs = vec![PullRequest {
        number: 10,
        title: "Implement #5".to_string(),
        url: String::new(),
        state: "OPEN".to_string(),
        labels: vec![label("review-pending")],
        created_at: "2026-01-01T00:00:00Z".to_string(),
        merged_at: None,
    }];

    let tasks = build_tasks(issues, prs, &config);
    assert_eq!(tasks.len(), 1);
    assert_eq!(tasks[0].stage, Stage::Review);
    assert!(tasks[0].pr.is_some());
}

// -- Step classification tests --

#[test]
fn classify_planning_issue_step() {
    let config = DagenticConfig::default();
    let i = issue(1, vec![label("needs-plan")], "OPEN");
    let s = classify_issue_step(&i, &config);
    assert_eq!(s.step, Step::Plan);
    assert_eq!(s.status, StepStatus::InProgress);
}

#[test]
fn classify_planned_issue_step() {
    let config = DagenticConfig::default();
    let i = issue(1, vec![label("plan-ready")], "OPEN");
    let s = classify_issue_step(&i, &config);
    assert_eq!(s.step, Step::Plan);
    assert_eq!(s.status, StepStatus::Ready);
}

#[test]
fn classify_approved_issue_step() {
    let config = DagenticConfig::default();
    let i = issue(1, vec![label("plan-approved")], "OPEN");
    let s = classify_issue_step(&i, &config);
    assert_eq!(s.step, Step::Plan);
    assert_eq!(s.status, StepStatus::Approved);
}

#[test]
fn classify_assess_issue_step() {
    let config = DagenticConfig::default();
    let i = issue(1, vec![label("needs-assess")], "OPEN");
    let s = classify_issue_step(&i, &config);
    assert_eq!(s.step, Step::Assess);
    assert_eq!(s.status, StepStatus::InProgress);
}

#[test]
fn classify_spec_ready_issue_step() {
    let config = DagenticConfig::default();
    let i = issue(1, vec![label("spec-ready")], "OPEN");
    let s = classify_issue_step(&i, &config);
    assert_eq!(s.step, Step::Spec);
    assert_eq!(s.status, StepStatus::Ready);
}

#[test]
fn classify_pr_review_step() {
    let config = DagenticConfig::default();
    let pr = PullRequest {
        number: 10,
        title: "Fix #1".to_string(),
        url: String::new(),
        state: "OPEN".to_string(),
        labels: vec![label("review-pending")],
        created_at: "2026-01-01T00:00:00Z".to_string(),
        merged_at: None,
    };
    let s = classify_pr_step(&pr, &config);
    assert_eq!(s.step, Step::Review);
    assert_eq!(s.status, StepStatus::InProgress);
}

#[test]
fn classify_pr_fixup_step() {
    let config = DagenticConfig::default();
    let pr = PullRequest {
        number: 10,
        title: "Fix #1".to_string(),
        url: String::new(),
        state: "OPEN".to_string(),
        labels: vec![label("review-addressed")],
        created_at: "2026-01-01T00:00:00Z".to_string(),
        merged_at: None,
    };
    let s = classify_pr_step(&pr, &config);
    assert_eq!(s.step, Step::Fixup);
    assert_eq!(s.status, StepStatus::Approved);
}

#[test]
fn classify_pr_implement_step() {
    let config = DagenticConfig::default();
    let pr = PullRequest {
        number: 10,
        title: "Fix #1".to_string(),
        url: String::new(),
        state: "OPEN".to_string(),
        labels: vec![],
        created_at: "2026-01-01T00:00:00Z".to_string(),
        merged_at: None,
    };
    let s = classify_pr_step(&pr, &config);
    assert_eq!(s.step, Step::Implement);
    assert_eq!(s.status, StepStatus::InProgress);
}

// -- Flow detection tests --

#[test]
fn flow_defaults_to_full() {
    let config = DagenticConfig::default();
    let labels = vec![label("needs-plan")];
    assert_eq!(Flow::from_labels(&labels, &config), Flow::Full);
}

#[test]
fn flow_detect_assess() {
    let config = DagenticConfig::default();
    let labels = vec![label("flow:assess"), label("needs-assess")];
    assert_eq!(Flow::from_labels(&labels, &config), Flow::Assess);
}

#[test]
fn flow_detect_spec() {
    let config = DagenticConfig::default();
    let labels = vec![label("flow:spec")];
    assert_eq!(Flow::from_labels(&labels, &config), Flow::Spec);
}

#[test]
fn flow_detect_implement() {
    let config = DagenticConfig::default();
    let labels = vec![label("flow:implement")];
    assert_eq!(Flow::from_labels(&labels, &config), Flow::Implement);
}

#[test]
fn flow_steps_full() {
    assert_eq!(
        Flow::Full.steps(),
        &[
            Step::Assess,
            Step::Spec,
            Step::Plan,
            Step::Implement,
            Step::Review,
            Step::Fixup
        ]
    );
}

#[test]
fn flow_steps_assess() {
    assert_eq!(Flow::Assess.steps(), &[Step::Assess]);
}

// -- Build tasks with flow/step --

#[test]
fn build_tasks_populates_flow_and_step() {
    let config = DagenticConfig::default();
    let issues = vec![issue(5, vec![label("plan-approved")], "OPEN")];
    let prs = vec![PullRequest {
        number: 10,
        title: "Implement #5".to_string(),
        url: String::new(),
        state: "OPEN".to_string(),
        labels: vec![label("review-pending")],
        created_at: "2026-01-01T00:00:00Z".to_string(),
        merged_at: None,
    }];

    let tasks = build_tasks(issues, prs, &config);
    assert_eq!(tasks[0].flow, Flow::Full);
    assert_eq!(tasks[0].current_step.step, Step::Review);
    assert_eq!(tasks[0].current_step.status, StepStatus::InProgress);
    assert!(tasks[0].deliverables.is_empty());
}

// -- Further cases --

#[test]
fn classify_closed_pr_as_abandoned_and_open_pr_as_coding() {
    let config = DagenticConfig::default();
    let closed = pr("Fix #1", "CLOSED", vec![label("review-pending")], None);
    assert_eq!(classify_pr(&closed, &config), Stage::Abandoned);
    let open = pr("Fix #1", "OPEN", vec![], None);
    assert_eq!(classify_pr(&open, &config), Stage::Coding);
    let addressed = pr("Fix #1", "OPEN", vec![label("review-pending"), label("review-addressed")], None);
    assert_eq!(classify_pr(&addressed, &config), Stage::ReviewAddressed);
}

#[test]
fn plan_label_outranks_closed_state() {
    let config = DagenticConfig::default();
    let i = issue(1, vec![label("plan-ready"), label("needs-plan")], "CLOSED");
    assert_eq!(classify_issue(&i, &config), Stage::Planned);
    let unlabelled_open = issue(2, vec![], "OPEN");
    assert_eq!(classify_issue(&unlabelled_open, &config), Stage::Planning);
}

#[test]
fn issue_step_precedence_and_pending_default() {
    let config = DagenticConfig::default();
    let i = issue(1, vec![label("plan-approved"), label("spec-approved"), label("needs-assess")], "OPEN");
    let s = classify_issue_step(&i, &config);
    assert_eq!((s.step, s.status), (Step::Assess, StepStatus::InProgress));
    let i = issue(1, vec![label("needs-spec"), label("plan-approved")], "OPEN");
    let s = classify_issue_step(&i, &config);
    assert_eq!((s.step, s.status), (Step::Spec, StepStatus::InProgress));
    let i = issue(1, vec![label("feature")], "OPEN");
    let s = classify_issue_step(&i, &config);
    assert_eq!((s.step, s.status), (Step::Plan, StepStatus::Pending));
}

#[test]
fn flow_label_precedence() {
    let config = DagenticConfig::default();
    let labels = vec![label("flow:implement"), label("flow:spec"), label("flow:assess")];
    assert_eq!(Flow::from_labels(&labels, &config), Flow::Assess);
    let labels = vec![label("flow:implement"), label("flow:spec")];
    assert_eq!(Flow::from_labels(&labels, &config), Flow::Spec);
    let labels = vec![label("flow:full"), label("flow:implement")];
    assert_eq!(Flow::from_labels(&labels, &config), Flow::Implement);
}

#[test]
fn build_tasks_without_linked_pr_uses_issue() {
    let config = DagenticConfig::default();
    let issues = vec![issue(7, vec![label("plan-ready"), label("flow:spec")], "OPEN")];
    let prs = vec![pr("Fix #8", "OPEN", vec![label("review-pending")], None)];
    let tasks = build_tasks(issues, prs, &config);
    assert_eq!(tasks.len(), 1);
    assert!(tasks[0].pr.is_none());
    assert_eq!(tasks[0].stage, Stage::Planned);
    assert_eq!(tasks[0].flow, Flow::Spec);
    assert_eq!(tasks[0].current_step.step, Step::Plan);
    assert_eq!(tasks[0].current_step.status, StepStatus::Ready);
    assert_eq!(tasks[0].issue.number, 7);
}

#[test]
fn build_tasks_merged_pr_takes_step_from_issue() {
    let config = DagenticConfig::default();
    let issues = vec![issue(3, vec![label("plan-approved")], "OPEN")];
    let prs = vec![pr("Closes #3", "MERGED", vec![label("review-pending")], Some("2026-01-02T00:00:00Z"))];
    let tasks = build_tasks(issues, prs, &config);
    assert_eq!(tasks[0].stage, Stage::Done);
    assert_eq!(tasks[0].current_step.step, Step::Plan);
    assert_eq!(tasks[0].current_step.status, StepStatus::Approved);
}

#[test]
fn build_tasks_links_first_referring_pr_by_text() {
    let config = DagenticConfig::default();
    let issues = vec![
        issue(5, vec![], "OPEN"),
        issue(12, vec![], "OPEN"),
    ];
    let prs = vec![
        pr("Refactor for #50", "OPEN", vec![], None),
        pr("Second for #5", "OPEN", vec![label("review-addressed")], None),
    ];
    let tasks = build_tasks(issues, prs, &config);
    assert_eq!(tasks.len(), 2);
    // "#5" occurs in "#50": the first PR is taken
    assert_eq!(tasks[0].pr.as_ref().unwrap().title, "Refactor for #50");
    assert_eq!(tasks[0].stage, Stage::Coding);
    assert!(tasks[1].pr.is_none());
}

#[test]
fn displays() {
    assert_eq!(Step::Implement.display(), "implement");
    assert_eq!(StepStatus::InProgress.display(), "in progress");
    assert_eq!(Flow::Full.display(), "full");
    assert_eq!(Stage::Planned.display(), "Planned (awaiting approval)");
    assert_eq!(Stage::Review.display(), "In review");
    assert!(Stage::Coding.is_open());
    assert!(!Stage::Done.is_open());
    assert!(!Stage::Abandoned.is_open());
}

#[test]
fn flows_are_parts_of_the_full_flow() {
    let full = Flow::Full.steps();
    assert_eq!(Flow::Assess.steps(), full[..1].to_vec());
    assert_eq!(Flow::Spec.steps(), full[..2].to_vec());
    assert_eq!(Flow::Implement.steps(), full[3..].to_vec());
}
