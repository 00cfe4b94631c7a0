//! What the pipeline reads of the git host: issues, pull requests and their
//! labels, and the one request it makes of the host (creating a label).
use vstd::prelude::*;

verus! {

/// A label attached to an issue or a pull request.
#[derive(Debug)]
pub struct LabelRef {
    pub name: String,
}

impl View for LabelRef {
    type V = Seq<char>;

    open spec fn view(&self) -> Seq<char> {
        self.name@
    }
}

impl Clone for LabelRef {
    fn clone(&self) -> (r: Self)
        ensures
            r@ == self@,
    {
        LabelRef { name: self.name.clone() }
    }
}

/// The names of `labels`, in order.
pub open spec fn label_names(labels: Seq<LabelRef>) -> Seq<Seq<char>> {
    labels.map_values(|l: LabelRef| l@)
}

/// An issue of the repository.
#[derive(Debug)]
pub struct Issue {
    pub number: u64,
    pub title: String,
    pub url: String,
    pub state: String,
    pub labels: Vec<LabelRef>,
    pub created_at: String,
}

/// `Issue` with its strings taken as character sequences and its labels as names.
pub struct IssueView {
    pub number: u64,
    pub title: Seq<char>,
    pub url: Seq<char>,
    pub state: Seq<char>,
    pub labels: Seq<Seq<char>>,
    pub created_at: Seq<char>,
}

impl View for Issue {
    type V = IssueView;

    open spec fn view(&self) -> IssueView {
        IssueView {
            number: self.number,
            title: self.title@,
            url: self.url@,
            state: self.state@,
            labels: label_names(self.labels@),
            created_at: self.created_at@,
        }
    }
}

/// A copy of `labels`, label by label.
pub fn clone_labels(labels: &Vec<LabelRef>) -> (r: Vec<LabelRef>)
    ensures
        label_names(r@) == label_names(labels@),
{
    let mut r: Vec<LabelRef> = Vec::new();
    let mut i: usize = 0;
    while i < labels.len()
        invariant
            i <= labels.len(),
            r.len() == i,
            forall|k: int| 0 <= k < i ==> (#[trigger] r@[k])@ == labels@[k]@,
        decreases labels.len() - i,
    {
        r.push(labels[i].clone());
        i = i + 1;
    }
    assert(label_names(r@) =~= label_names(labels@));
    r
}

pub open spec fn opt_string_view(o: Option<String>) -> Option<Seq<char>> {
    match o {
        Some(s) => Some(s@),
        None => None,
    }
}

fn clone_opt_string(s: &Option<String>) -> (r: Option<String>)
    ensures
        opt_string_view(r) == opt_string_view(*s),
{
    match s {
        Some(x) => Some(x.clone()),
        None => None,
    }
}

impl Clone for Issue {
    fn clone(&self) -> (r: Self)
        ensures
            r@ == self@,
    {
        Issue {
            number: self.number,
            title: self.title.clone(),
            url: self.url.clone(),
            state: self.state.clone(),
            labels: clone_labels(&self.labels),
            created_at: self.created_at.clone(),
        }
    }
}

/// A pull request of the repository.
#[derive(Debug)]
pub struct PullRequest {
    pub number: u64,
    pub title: String,
    pub url: String,
    pub state: String,
    pub labels: Vec<LabelRef>,
    pub created_at: String,
    pub merged_at: Option<String>,
}

/// `PullRequest` with its strings taken as character sequences and its labels as names.
pub struct PullRequestView {
    pub number: u64,
    pub title: Seq<char>,
    pub url: Seq<char>,
    pub state: Seq<char>,
    pub labels: Seq<Seq<char>>,
    pub created_at: Seq<char>,
    pub merged_at: Option<Seq<char>>,
}

impl View for PullRequest {
    type V = PullRequestView;

    open spec fn view(&self) -> PullRequestView {
        PullRequestView {
            number: self.number,
            title: self.title@,
            url: self.url@,
            state: self.state@,
            labels: label_names(self.labels@),
            created_at: self.created_at@,
            merged_at: opt_string_view(self.merged_at),
        }
    }
}

impl Clone for PullRequest {
    fn clone(&self) -> (r: Self)
        ensures
            r@ == self@,
    {
        PullRequest {
            number: self.number,
            title: self.title.clone(),
            url: self.url.clone(),
            state: self.state.clone(),
            labels: clone_labels(&self.labels),
            created_at: self.created_at.clone(),
            merged_at: clone_opt_string(&self.merged_at),
        }
    }
}

/// The git host, as the pipeline uses it. Implementations talk to a real
/// host; nothing is promised of what they answer.
pub trait GitHost {
    /// Creates (or updates) the label `name` with the given color and description;
    /// an error carries the host's message.
    fn create_label(&self, name: &str, color: &str, description: &str) -> Result<(), String>;
}

} // verus!
