//! The labels that the pipeline uses, and their creation on the git host.
use crate::config::{DagenticConfig, LabelConfig};
use crate::gh::GitHost;
use vstd::prelude::*;

verus! {

/// A label to create: its name, color (six hex digits) and description.
pub struct LabelDef {
    pub name: String,
    pub color: &'static str,
    pub description: &'static str,
}

/// The names of the pipeline's labels, in the order they are created.
pub open spec fn label_def_names(c: LabelConfig) -> Seq<Seq<char>> {
    seq![
        c.needs_plan@,
        c.plan_ready@,
        c.plan_approved@,
        c.review_pending@,
        c.review_addressed@,
        c.feature@,
        c.bug@,
        c.epic@,
        c.needs_assess@,
        c.assess_ready@,
        c.assess_approved@,
        c.needs_spec@,
        c.spec_ready@,
        c.spec_approved@,
        c.flow_assess@,
        c.flow_spec@,
        c.flow_full@,
        c.flow_implement@,
    ]
}

/// The colors of the pipeline's labels, in the same order.
pub open spec fn label_def_colors() -> Seq<Seq<char>> {
    seq![
        "c5def5"@,
        "0e8a16"@,
        "5319e7"@,
        "fbca04"@,
        "0e8a16"@,
        "a2eeef"@,
        "d73a4a"@,
        "f9d0c4"@,
        "c5def5"@,
        "0e8a16"@,
        "5319e7"@,
        "c5def5"@,
        "0e8a16"@,
        "5319e7"@,
        "d4c5f9"@,
        "d4c5f9"@,
        "d4c5f9"@,
        "d4c5f9"@,
    ]
}

/// The descriptions of the pipeline's labels, in the same order.
pub open spec fn label_def_descriptions() -> Seq<Seq<char>> {
    seq![
        "Triggers the planning agent"@,
        "Plan posted, awaiting human review"@,
        "Plan approved, triggers implementation"@,
        "Draft PR opened, triggers side agent review"@,
        "Review comments addressed"@,
        "Feature request"@,
        "Bug report"@,
        "Multi-PR epic"@,
        "Triggers the assess agent"@,
        "Assessment posted, awaiting review"@,
        "Assessment approved"@,
        "Triggers the spec agent"@,
        "Spec posted, awaiting review"@,
        "Spec approved"@,
        "Flow: assess only"@,
        "Flow: assess + spec"@,
        "Flow: full pipeline"@,
        "Flow: implement + review + fixup"@,
    ]
}

/// The label definitions, one for each label name of `config`.
pub fn label_defs(config: &DagenticConfig) -> (r: Vec<LabelDef>)
    ensures
        r.len() == 18,
        forall|i: int|
            0 <= i < 18 ==> {
                &&& (#[trigger] r@[i]).name@ == label_def_names(config.labels)[i]
                &&& r@[i].color@ == label_def_colors()[i]
                &&& r@[i].description@ == label_def_descriptions()[i]
            },
{
    let c = &config.labels;
    let mut r: Vec<LabelDef> = Vec::new();
    r.push(LabelDef { name: c.needs_plan.clone(), color: "c5def5", description: "Triggers the planning agent" });
    r.push(LabelDef { name: c.plan_ready.clone(), color: "0e8a16", description: "Plan posted, awaiting human review" });
    r.push(LabelDef { name: c.plan_approved.clone(), color: "5319e7", description: "Plan approved, triggers implementation" });
    r.push(LabelDef { name: c.review_pending.clone(), color: "fbca04", description: "Draft PR opened, triggers side agent review" });
    r.push(LabelDef { name: c.review_addressed.clone(), color: "0e8a16", description: "Review comments addressed" });
    r.push(LabelDef { name: c.feature.clone(), color: "a2eeef", description: "Feature request" });
    r.push(LabelDef { name: c.bug.clone(), color: "d73a4a", description: "Bug report" });
    r.push(LabelDef { name: c.epic.clone(), color: "f9d0c4", description: "Multi-PR epic" });
    r.push(LabelDef { name: c.needs_assess.clone(), color: "c5def5", description: "Triggers the assess agent" });
    r.push(LabelDef { name: c.assess_ready.clone(), color: "0e8a16", description: "Assessment posted, awaiting review" });
    r.push(LabelDef { name: c.assess_approved.clone(), color: "5319e7", description: "Assessment approved" });
    r.push(LabelDef { name: c.needs_spec.clone(), color: "c5def5", description: "Triggers the spec agent" });
    r.push(LabelDef { name: c.spec_ready.clone(), color: "0e8a16", description: "Spec posted, awaiting review" });
    r.push(LabelDef { name: c.spec_approved.clone(), color: "5319e7", description: "Spec approved" });
    r.push(LabelDef { name: c.flow_assess.clone(), color: "d4c5f9", description: "Flow: assess only" });
    r.push(LabelDef { name: c.flow_spec.clone(), color: "d4c5f9", description: "Flow: assess + spec" });
    r.push(LabelDef { name: c.flow_full.clone(), color: "d4c5f9", description: "Flow: full pipeline" });
    r.push(LabelDef { name: c.flow_implement.clone(), color: "d4c5f9", description: "Flow: implement + review + fixup" });
    r
}

/// Creates every label of `config` on `host`, in order; each label's name comes
/// back with what the host answered for it.
pub fn create_all(host: &dyn GitHost, config: &DagenticConfig) -> (r: Vec<(String, Result<(), String>)>)
    ensures
        r.len() == 18,
        forall|i: int| 0 <= i < 18 ==> (#[trigger] r@[i]).0@ == label_def_names(config.labels)[i],
{
    let defs = label_defs(config);
    let mut r: Vec<(String, Result<(), String>)> = Vec::new();
    let mut i: usize = 0;
    while i < defs.len()
        invariant
            i <= defs.len(),
            defs.len() == 18,
            r.len() == i,
            forall|k: int| 0 <= k < i ==> (#[trigger] r@[k]).0@ == defs@[k].name@,
        decreases defs.len() - i,
    {
        let l = &defs[i];
        let result = host.create_label(l.name.as_str(), l.color, l.description);
        r.push((l.name.clone(), result));
        i = i + 1;
    }
    r
}

/// A hex digit: `0`-`9`, `a`-`f` or `A`-`F`.
pub open spec fn is_hex_digit(c: char) -> bool {
    let u = c as u32;
    (48 <= u <= 57) || (97 <= u <= 102) || (65 <= u <= 70)
}

/// Every label color is six hex digits.
pub proof fn lemma_label_colors_are_hex()
    ensures
        forall|i: int|
            0 <= i < 18 ==> (#[trigger] label_def_colors()[i]).len() == 6 && forall|k: int|
                0 <= k < 6 ==> is_hex_digit(label_def_colors()[i][k]),
{
    reveal_strlit("0e8a16");
    reveal_strlit("5319e7");
    reveal_strlit("a2eeef");
    reveal_strlit("c5def5");
    reveal_strlit("d4c5f9");
    reveal_strlit("d73a4a");
    reveal_strlit("f9d0c4");
    reveal_strlit("fbca04");
}

/// A few features of a name: its length, its first character and its seventh (a
/// space for shorter names).
pub open spec fn name_key(s: Seq<char>) -> (nat, char, char) {
    (s.len(), s[0], if s.len() > 6 { s[6] } else { ' ' })
}

/// The features of the default name of label `i`.
pub open spec fn default_name_key(i: int) -> (nat, char, char) {
    if i == 0 {
        (10, 'n', 'p')
    } else if i == 1 {
        (10, 'p', 'e')
    } else if i == 2 {
        (13, 'p', 'p')
    } else if i == 3 {
        (14, 'r', '-')
    } else if i == 4 {
        (16, 'r', '-')
    } else if i == 5 {
        (7, 'f', 'e')
    } else if i == 6 {
        (3, 'b', ' ')
    } else if i == 7 {
        (4, 'e', ' ')
    } else if i == 8 {
        (12, 'n', 'a')
    } else if i == 9 {
        (12, 'a', '-')
    } else if i == 10 {
        (15, 'a', '-')
    } else if i == 11 {
        (10, 'n', 's')
    } else if i == 12 {
        (10, 's', 'e')
    } else if i == 13 {
        (13, 's', 'p')
    } else if i == 14 {
        (11, 'f', 's')
    } else if i == 15 {
        (9, 'f', 'p')
    } else if i == 16 {
        (9, 'f', 'u')
    } else {
        (14, 'f', 'm')
    }
}

proof fn lemma_default_name_key(c: LabelConfig, i: int)
    requires
        crate::config::is_default_labels(c),
        0 <= i < 18,
    ensures
        name_key(label_def_names(c)[i]) == default_name_key(i),
{
    if i == 0 {
        reveal_strlit("needs-plan");
    } else if i == 1 {
        reveal_strlit("plan-ready");
    } else if i == 2 {
        reveal_strlit("plan-approved");
    } else if i == 3 {
        reveal_strlit("review-pending");
    } else if i == 4 {
        reveal_strlit("review-addressed");
    } else if i == 5 {
        reveal_strlit("feature");
    } else if i == 6 {
        reveal_strlit("bug");
    } else if i == 7 {
        reveal_strlit("epic");
    } else if i == 8 {
        reveal_strlit("needs-assess");
    } else if i == 9 {
        reveal_strlit("assess-ready");
    } else if i == 10 {
        reveal_strlit("assess-approved");
    } else if i == 11 {
        reveal_strlit("needs-spec");
    } else if i == 12 {
        reveal_strlit("spec-ready");
    } else if i == 13 {
        reveal_strlit("spec-approved");
    } else if i == 14 {
        reveal_strlit("flow:assess");
    } else if i == 15 {
        reveal_strlit("flow:spec");
    } else if i == 16 {
        reveal_strlit("flow:full");
    } else if i == 17 {
        reveal_strlit("flow:implement");
    }
}

/// With the default configuration, no two labels share a name.
pub proof fn lemma_default_label_names_distinct(c: LabelConfig)
    requires
        crate::config::is_default_labels(c),
    ensures
        forall|i: int, j: int|
            0 <= i < 18 && 0 <= j < 18 && i != j ==> #[trigger] label_def_names(c)[i]
                != #[trigger] label_def_names(c)[j],
{
    assert forall|i: int, j: int|
        0 <= i < 18 && 0 <= j < 18 && i != j implies #[trigger] label_def_names(c)[i]
            != #[trigger] label_def_names(c)[j] by {
        lemma_default_name_key(c, i);
        lemma_default_name_key(c, j);
    }
}

} // verus!
