//! Label names used by the pipeline, with their defaults.
use vstd::prelude::*;

verus! {

/// The names of the labels that drive the pipeline.
pub struct LabelConfig {
    /// Label that triggers the planning agent
    pub needs_plan: String,
    /// Label set when plan is posted and awaiting review
    pub plan_ready: String,
    /// Label that triggers implementation
    pub plan_approved: String,
    /// Label that triggers side agent review
    pub review_pending: String,
    /// Label set when review comments are addressed
    pub review_addressed: String,
    /// Label for feature issues
    pub feature: String,
    /// Label for bug issues
    pub bug: String,
    /// Label for epic issues
    pub epic: String,
    /// Label that triggers the assess agent
    pub needs_assess: String,
    /// Label set when assessment is posted and awaiting review
    pub assess_ready: String,
    /// Label set when assessment is approved
    pub assess_approved: String,
    /// Label that triggers the spec agent
    pub needs_spec: String,
    /// Label set when spec is posted and awaiting review
    pub spec_ready: String,
    /// Label set when spec is approved
    pub spec_approved: String,
    /// Label marking a task as assess-only flow
    pub flow_assess: String,
    /// Label marking a task as assess+spec flow
    pub flow_spec: String,
    /// Label marking a task as full pipeline flow
    pub flow_full: String,
    /// Label marking a task as implement + review + fixup flow
    pub flow_implement: String,
}

/// Every label name of `c` is its default.
pub open spec fn is_default_labels(c: LabelConfig) -> bool {
    &&& c.needs_plan@ == "needs-plan"@
    &&& c.plan_ready@ == "plan-ready"@
    &&& c.plan_approved@ == "plan-approved"@
    &&& c.review_pending@ == "review-pending"@
    &&& c.review_addressed@ == "review-addressed"@
    &&& c.feature@ == "feature"@
    &&& c.bug@ == "bug"@
    &&& c.epic@ == "epic"@
    &&& c.needs_assess@ == "needs-assess"@
    &&& c.assess_ready@ == "assess-ready"@
    &&& c.assess_approved@ == "assess-approved"@
    &&& c.needs_spec@ == "needs-spec"@
    &&& c.spec_ready@ == "spec-ready"@
    &&& c.spec_approved@ == "spec-approved"@
    &&& c.flow_assess@ == "flow:assess"@
    &&& c.flow_spec@ == "flow:spec"@
    &&& c.flow_full@ == "flow:full"@
    &&& c.flow_implement@ == "flow:implement"@
}

impl Default for LabelConfig {
    fn default() -> (r: Self)
        ensures
            is_default_labels(r),
    {
        LabelConfig {
            needs_plan: "needs-plan".to_owned(),
            plan_ready: "plan-ready".to_owned(),
            plan_approved: "plan-approved".to_owned(),
            review_pending: "review-pending".to_owned(),
            review_addressed: "review-addressed".to_owned(),
            feature: "feature".to_owned(),
            bug: "bug".to_owned(),
            epic: "epic".to_owned(),
            needs_assess: "needs-assess".to_owned(),
            assess_ready: "assess-ready".to_owned(),
            assess_approved: "assess-approved".to_owned(),
            needs_spec: "needs-spec".to_owned(),
            spec_ready: "spec-ready".to_owned(),
            spec_approved: "spec-approved".to_owned(),
            flow_assess: "flow:assess".to_owned(),
            flow_spec: "flow:spec".to_owned(),
            flow_full: "flow:full".to_owned(),
            flow_implement: "flow:implement".to_owned(),
        }
    }
}

/// The configuration of dagentic.
pub struct DagenticConfig {
    /// Label names used by the pipeline
    pub labels: LabelConfig,
}

impl Default for DagenticConfig {
    fn default() -> (r: Self)
        ensures
            is_default_labels(r.labels),
    {
        DagenticConfig { labels: LabelConfig::default() }
    }
}

} // verus!
