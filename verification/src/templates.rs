//! Installation of the workflow and issue templates into a repository, with the
//! configured label names put in place of their placeholders.
use crate::config::{DagenticConfig, LabelConfig};
use crate::fs::Filesystem;
use crate::text::{
    append_chars, contains_seq, lemma_replace_absent, replace_all, replace_chars, string_from_chars,
    to_chars,
};
use vstd::prelude::*;
use vstd::utf8::{decode_utf8, encode_utf8, valid_utf8};

verus! {

/// A set of templates that ships with dagentic.
pub enum TemplateSet {
    Caller,
    Issue,
}

/// Where, below the repository root, a template set goes.
pub open spec fn dest_subdir_name(set: TemplateSet) -> Seq<char> {
    match set {
        TemplateSet::Caller => ".github/workflows"@,
        TemplateSet::Issue => ".github/ISSUE_TEMPLATE"@,
    }
}

impl TemplateSet {
    pub fn dest_subdir(&self) -> (r: &'static str)
        ensures
            r@ == dest_subdir_name(*self),
    {
        match self {
            TemplateSet::Caller => ".github/workflows",
            TemplateSet::Issue => ".github/ISSUE_TEMPLATE",
        }
    }
}

/// One template of a set: its file name and its raw contents.
pub struct TemplateFile {
    pub name: String,
    pub contents: Vec<u8>,
}

/// The file names that an installation created, updated, or found unchanged.
pub struct InstallResult {
    pub created: Vec<String>,
    pub updated: Vec<String>,
    pub unchanged: Vec<String>,
}

impl InstallResult {
    /// How many files the installation wrote.
    pub fn changed_count(&self) -> (r: usize)
        requires
            self.created.len() + self.updated.len() <= usize::MAX,
        ensures
            r == self.created.len() + self.updated.len(),
    {
        self.created.len() + self.updated.len()
    }
}

/// Why an installation stopped.
#[derive(Debug)]
pub enum InstallError {
    /// The destination directory `path` could not be created.
    CreateDir { path: String, message: String },
    /// The template `name` is not valid UTF-8.
    NotUtf8 { name: String },
    /// Reading or writing a file failed.
    Io { message: String },
}

/// `template` with each label placeholder replaced by the configured name, one
/// placeholder after the other.
pub open spec fn substituted(template: Seq<char>, c: LabelConfig) -> Seq<char> {
    let t1 = replace_all(template, "{{needs_plan}}"@, c.needs_plan@);
    let t2 = replace_all(t1, "{{plan_ready}}"@, c.plan_ready@);
    let t3 = replace_all(t2, "{{plan_approved}}"@, c.plan_approved@);
    let t4 = replace_all(t3, "{{review_pending}}"@, c.review_pending@);
    let t5 = replace_all(t4, "{{review_addressed}}"@, c.review_addressed@);
    let t6 = replace_all(t5, "{{feature}}"@, c.feature@);
    let t7 = replace_all(t6, "{{bug}}"@, c.bug@);
    replace_all(t7, "{{epic}}"@, c.epic@)
}

/// A template that holds no placeholder comes out unchanged.
pub proof fn lemma_substitute_without_placeholders(template: Seq<char>, c: LabelConfig)
    requires
        !contains_seq(template, "{{needs_plan}}"@),
        !contains_seq(template, "{{plan_ready}}"@),
        !contains_seq(template, "{{plan_approved}}"@),
        !contains_seq(template, "{{review_pending}}"@),
        !contains_seq(template, "{{review_addressed}}"@),
        !contains_seq(template, "{{feature}}"@),
        !contains_seq(template, "{{bug}}"@),
        !contains_seq(template, "{{epic}}"@),
    ensures
        substituted(template, c) == template,
{
    reveal_strlit("{{needs_plan}}");
    reveal_strlit("{{plan_ready}}");
    reveal_strlit("{{plan_approved}}");
    reveal_strlit("{{review_pending}}");
    reveal_strlit("{{review_addressed}}");
    reveal_strlit("{{feature}}");
    reveal_strlit("{{bug}}");
    reveal_strlit("{{epic}}");
    lemma_replace_absent(template, "{{needs_plan}}"@, c.needs_plan@);
    lemma_replace_absent(template, "{{plan_ready}}"@, c.plan_ready@);
    lemma_replace_absent(template, "{{plan_approved}}"@, c.plan_approved@);
    lemma_replace_absent(template, "{{review_pending}}"@, c.review_pending@);
    lemma_replace_absent(template, "{{review_addressed}}"@, c.review_addressed@);
    lemma_replace_absent(template, "{{feature}}"@, c.feature@);
    lemma_replace_absent(template, "{{bug}}"@, c.bug@);
    lemma_replace_absent(template, "{{epic}}"@, c.epic@);
}

/// `s` with every `from` replaced by `to`.
fn replace_str(s: &[char], from: &str, to: &String) -> (r: Vec<char>)
    requires
        from@.len() > 0,
    ensures
        r@ == replace_all(s@, from@, to@),
{
    let f = to_chars(from);
    let t = to_chars(to.as_str());
    replace_chars(s, &f, &t)
}

fn substitute_chars(template: &[char], config: &DagenticConfig) -> (r: Vec<char>)
    ensures
        r@ == substituted(template@, config.labels),
{
    let l = &config.labels;
    proof {
        reveal_strlit("{{needs_plan}}");
        reveal_strlit("{{plan_ready}}");
        reveal_strlit("{{plan_approved}}");
        reveal_strlit("{{review_pending}}");
        reveal_strlit("{{review_addressed}}");
        reveal_strlit("{{feature}}");
        reveal_strlit("{{bug}}");
        reveal_strlit("{{epic}}");
    }
    let t1 = replace_str(template, "{{needs_plan}}", &l.needs_plan);
    let t2 = replace_str(&t1, "{{plan_ready}}", &l.plan_ready);
    let t3 = replace_str(&t2, "{{plan_approved}}", &l.plan_approved);
    let t4 = replace_str(&t3, "{{review_pending}}", &l.review_pending);
    let t5 = replace_str(&t4, "{{review_addressed}}", &l.review_addressed);
    let t6 = replace_str(&t5, "{{feature}}", &l.feature);
    let t7 = replace_str(&t6, "{{bug}}", &l.bug);
    replace_str(&t7, "{{epic}}", &l.epic)
}

/// `template` with the configured label names in place of their placeholders.
pub fn substitute(template: &str, config: &DagenticConfig) -> (r: String)
    ensures
        r@ == substituted(template@, config.labels),
{
    let chars = to_chars(template);
    let out = substitute_chars(&chars, config);
    string_from_chars(&out)
}

/// The text of `bytes`, by `std::str::from_utf8`. Trusted, not proved: the
/// contract claims what its documentation says, that it succeeds exactly on valid
/// UTF-8 (taken as vstd's `valid_utf8`) and then gives the characters the bytes
/// encode (vstd's `decode_utf8`).
#[verifier::external_body]
fn utf8_text(bytes: &[u8]) -> (r: Option<String>)
    ensures
        r is Some <==> valid_utf8(bytes@),
        r matches Some(s) ==> s@ == decode_utf8(bytes@),
{
    match std::str::from_utf8(bytes) {
        Ok(s) => Some(s.to_owned()),
        Err(_) => None,
    }
}

/// The bytes that a template with raw contents `raw` is installed as.
pub open spec fn rendered_bytes(raw: Seq<u8>, c: LabelConfig) -> Seq<u8> {
    encode_utf8(substituted(decode_utf8(raw), c))
}

/// The bytes that a template is installed as, or `None` when it is not valid UTF-8.
pub fn render(raw: &[u8], config: &DagenticConfig) -> (r: Option<Vec<u8>>)
    ensures
        r is Some <==> valid_utf8(raw@),
        r matches Some(b) ==> b@ == rendered_bytes(raw@, config.labels),
{
    match utf8_text(raw) {
        None => None,
        Some(text) => {
            let s = substitute(text.as_str(), config);
            let bytes = s.as_str().as_bytes();
            Some(vstd::slice::slice_to_vec(bytes))
        },
    }
}

/// `base` and `rel` joined as `Path::join` joins them on Unix: an absolute `rel`
/// replaces `base`, and a `/` is put between them unless `base` is empty or
/// already ends with one.
pub open spec fn path_join(base: Seq<char>, rel: Seq<char>) -> Seq<char> {
    if rel.len() > 0 && rel[0] == '/' {
        rel
    } else if base.len() == 0 {
        rel
    } else if base.last() == '/' {
        base + rel
    } else {
        base + seq!['/'] + rel
    }
}

pub fn join_path(base: &str, rel: &str) -> (r: String)
    ensures
        r@ == path_join(base@, rel@),
{
    let b = to_chars(base);
    let r = to_chars(rel);
    if r.len() > 0 && r[0] == '/' {
        return string_from_chars(&r);
    }
    if b.len() == 0 {
        return string_from_chars(&r);
    }
    let mut out = b.clone();
    if b[b.len() - 1] != '/' {
        out.push('/');
    }
    append_chars(&mut out, &r);
    assert(out@ =~= path_join(base@, rel@));
    string_from_chars(&out)
}

/// What installing one file does.
#[derive(Debug, Clone, Copy, PartialEq, Eq, Structural)]
pub enum FileAction {
    Create,
    Update,
    Unchanged,
}

/// A file that is missing is created; one that holds other bytes is updated; one
/// that holds the rendered bytes is left unchanged.
pub open spec fn action_for(existing: Option<Seq<u8>>, rendered: Seq<u8>) -> FileAction {
    match existing {
        None => FileAction::Create,
        Some(e) => if e == rendered {
            FileAction::Unchanged
        } else {
            FileAction::Update
        },
    }
}

/// A file that already holds what its template renders to is left unchanged, so
/// installing the same templates again changes nothing.
pub proof fn lemma_rendered_file_unchanged(raw: Seq<u8>, c: LabelConfig)
    ensures
        action_for(Some(rendered_bytes(raw, c)), rendered_bytes(raw, c)) == FileAction::Unchanged,
{
}

/// Whether `a` and `b` hold the same bytes.
pub fn bytes_eq(a: &[u8], b: &[u8]) -> (r: bool)
    ensures
        r == (a@ == b@),
{
    if a.len() != b.len() {
        return false;
    }
    let mut i: usize = 0;
    while i < a.len()
        invariant
            a.len() == b.len(),
            i <= a.len(),
            forall|k: int| 0 <= k < i ==> a@[k] == b@[k],
        decreases a.len() - i,
    {
        if a[i] != b[i] {
            return false;
        }
        i = i + 1;
    }
    assert(a@ =~= b@);
    true
}

/// What to do with a file, given its current bytes (`None` when it is missing).
pub fn file_action(existing: Option<&[u8]>, rendered: &[u8]) -> (r: FileAction)
    ensures
        r == action_for(
            match existing {
                Some(e) => Some(e@),
                None => None,
            },
            rendered@,
        ),
{
    match existing {
        None => FileAction::Create,
        Some(e) => if bytes_eq(e, rendered) {
            FileAction::Unchanged
        } else {
            FileAction::Update
        },
    }
}

/// The views of a sequence of strings.
pub open spec fn string_views(v: Seq<String>) -> Seq<Seq<char>> {
    v.map_values(|s: String| s@)
}

/// The names of the templates whose action is `k`, in order.
pub open spec fn names_with(
    ts: Seq<TemplateFile>,
    kinds: Seq<FileAction>,
    k: FileAction,
) -> Seq<Seq<char>>
    decreases ts.len(),
{
    if ts.len() == 0 || kinds.len() == 0 {
        seq![]
    } else {
        let prev = names_with(ts.drop_last(), kinds.drop_last(), k);
        if kinds.last() == k {
            prev.push(ts.last().name@)
        } else {
            prev
        }
    }
}

/// `r` holds the names of `ts`, in order, split by the actions `kinds`: those
/// created, those updated and those left unchanged.
pub open spec fn install_outcome(
    r: InstallResult,
    ts: Seq<TemplateFile>,
    kinds: Seq<FileAction>,
) -> bool {
    &&& kinds.len() == ts.len()
    &&& string_views(r.created@) == names_with(ts, kinds, FileAction::Create)
    &&& string_views(r.updated@) == names_with(ts, kinds, FileAction::Update)
    &&& string_views(r.unchanged@) == names_with(ts, kinds, FileAction::Unchanged)
}

/// Where a template is installed, and the bytes it is installed as.
pub struct FileTarget {
    pub path: String,
    pub bytes: Vec<u8>,
}

/// The target of `file` in the directory `dest`: the path is `dest` joined with
/// the file's name, the bytes are the rendered template; `None` when the template
/// is not valid UTF-8.
pub fn file_target(dest: &str, file: &TemplateFile, config: &DagenticConfig) -> (r: Option<
    FileTarget,
>)
    ensures
        r is Some <==> valid_utf8(file.contents@),
        r matches Some(t) ==> t.path@ == path_join(dest@, file.name@) && t.bytes@
            == rendered_bytes(file.contents@, config.labels),
{
    match render(file.contents.as_slice(), config) {
        None => None,
        Some(bytes) => Some(FileTarget { path: join_path(dest, file.name.as_str()), bytes }),
    }
}

/// The first template that is not valid UTF-8 is `ts[i]`.
pub open spec fn first_invalid_template(ts: Seq<TemplateFile>, i: int) -> bool {
    &&& 0 <= i < ts.len()
    &&& !valid_utf8(ts[i].contents@)
    &&& forall|k: int| 0 <= k < i ==> valid_utf8(#[trigger] ts[k].contents@)
}

/// What was found at a template's path, by its view: `None` where there is no file.
pub open spec fn found_view(e: Option<Vec<u8>>) -> Option<Seq<u8>> {
    match e {
        Some(v) => Some(v@),
        None => None,
    }
}

/// What was found at each template's path, by their views.
pub open spec fn found_views(existing: Seq<Option<Vec<u8>>>) -> Seq<Option<Seq<u8>>> {
    existing.map_values(|e: Option<Vec<u8>>| found_view(e))
}

/// The action for each of `ts`, given what was found at its path (`found[i]`) and
/// the labels `c` that its placeholders are replaced by.
pub open spec fn plan_kinds(
    ts: Seq<TemplateFile>,
    found: Seq<Option<Seq<u8>>>,
    c: LabelConfig,
) -> Seq<FileAction> {
    Seq::new(ts.len(), |i: int| action_for(found[i], rendered_bytes(ts[i].contents@, c)))
}

/// The actions of a plan, in order.
pub open spec fn plan_actions(p: Seq<(FileTarget, FileAction)>) -> Seq<FileAction> {
    p.map_values(|e: (FileTarget, FileAction)| e.1)
}

/// `result` records the name of `file` under `action`, after the names of `ts`.
fn record(
    result: &mut InstallResult,
    file: &TemplateFile,
    action: FileAction,
    Ghost(ts): Ghost<Seq<TemplateFile>>,
    Ghost(kinds): Ghost<Seq<FileAction>>,
)
    requires
        install_outcome(*old(result), ts, kinds),
    ensures
        install_outcome(*final(result), ts.push(*file), kinds.push(action)),
{
    let ghost before = *result;
    match action {
        FileAction::Create => result.created.push(file.name.clone()),
        FileAction::Update => result.updated.push(file.name.clone()),
        FileAction::Unchanged => result.unchanged.push(file.name.clone()),
    }
    let ghost ts2 = ts.push(*file);
    let ghost kinds2 = kinds.push(action);
    assert(ts2.drop_last() =~= ts);
    assert(kinds2.drop_last() =~= kinds);
    if action == FileAction::Create {
        assert(string_views(result.created@) =~= string_views(before.created@).push(file.name@));
    } else if action == FileAction::Update {
        assert(string_views(result.updated@) =~= string_views(before.updated@).push(file.name@));
    } else {
        assert(string_views(result.unchanged@) =~= string_views(before.unchanged@).push(
            file.name@,
        ));
    }
}

/// Plans the installation of `templates` into the directory `dest`, given what
/// holds each template's path now (`existing[i]`, `None` where there is no file).
/// Each entry gives a template's path, its rendered bytes and what to do with it:
/// the entries marked `Create` or `Update` are those to be written. The names are
/// split as an installation reports them. Fails on the first template that is not
/// valid UTF-8.
pub fn plan_install(
    dest: &str,
    templates: &[TemplateFile],
    existing: &[Option<Vec<u8>>],
    config: &DagenticConfig,
) -> (r: Result<(Vec<(FileTarget, FileAction)>, InstallResult), InstallError>)
    requires
        existing.len() == templates.len(),
    ensures
        r is Ok <==> forall|i: int|
            0 <= i < templates.len() ==> valid_utf8(#[trigger] templates@[i].contents@),
        r matches Err(e) ==> (e matches InstallError::NotUtf8 { name } && exists|i: int|
            first_invalid_template(templates@, i) && name@ == templates@[i].name@),
        r matches Ok((p, res)) ==> {
            &&& p.len() == templates.len()
            &&& forall|i: int|
                0 <= i < p.len() ==> (#[trigger] p@[i]).0.path@ == path_join(
                    dest@,
                    templates@[i].name@,
                ) && p@[i].0.bytes@ == rendered_bytes(templates@[i].contents@, config.labels)
            &&& plan_actions(p@) == plan_kinds(templates@, found_views(existing@), config.labels)
            &&& install_outcome(
                res,
                templates@,
                plan_kinds(templates@, found_views(existing@), config.labels),
            )
        },
{
    let ghost kinds = plan_kinds(templates@, found_views(existing@), config.labels);
    let mut plan: Vec<(FileTarget, FileAction)> = Vec::new();
    let mut result = InstallResult { created: Vec::new(), updated: Vec::new(), unchanged: Vec::new() };
    let mut i: usize = 0;
    assert(templates@.take(0) =~= Seq::<TemplateFile>::empty());
    assert(kinds.take(0) =~= Seq::<FileAction>::empty());
    assert(string_views(result.created@) =~= Seq::<Seq<char>>::empty());
    assert(string_views(result.updated@) =~= Seq::<Seq<char>>::empty());
    assert(string_views(result.unchanged@) =~= Seq::<Seq<char>>::empty());
    while i < templates.len()
        invariant
            existing.len() == templates.len(),
            kinds == plan_kinds(templates@, found_views(existing@), config.labels),
            i <= templates.len(),
            plan.len() == i,
            forall|k: int| 0 <= k < i ==> valid_utf8(#[trigger] templates@[k].contents@),
            forall|k: int|
                0 <= k < i ==> (#[trigger] plan@[k]).0.path@ == path_join(
                    dest@,
                    templates@[k].name@,
                ) && plan@[k].0.bytes@ == rendered_bytes(templates@[k].contents@, config.labels),
            plan_actions(plan@) == kinds.take(i as int),
            install_outcome(result, templates@.take(i as int), kinds.take(i as int)),
        decreases templates.len() - i,
    {
        let file = &templates[i];
        let target = match file_target(dest, file, config) {
            Some(t) => t,
            None => {
                assert(first_invalid_template(templates@, i as int));
                return Err(InstallError::NotUtf8 { name: file.name.clone() });
            },
        };
        let found = match &existing[i] {
            Some(v) => Some(v.as_slice()),
            None => None,
        };
        let action = file_action(found, target.bytes.as_slice());
        assert(found_views(existing@)[i as int] == found_view(existing@[i as int]));
        assert(action == kinds[i as int]);
        record(&mut result, file, action, Ghost(templates@.take(i as int)), Ghost(kinds.take(i as int)));
        assert(templates@.take(i as int).push(*file) =~= templates@.take(i + 1));
        assert(kinds.take(i as int).push(action) =~= kinds.take(i + 1));
        let ghost before = plan@;
        plan.push((target, action));
        assert(plan_actions(plan@) =~= kinds.take(i + 1)) by {
            assert(plan@ == before.push(plan@[i as int]));
        }
        i = i + 1;
    }
    assert(templates@.take(i as int) =~= templates@);
    assert(kinds.take(i as int) =~= kinds);
    Ok((plan, result))
}

/// The names of `ts`, in order.
pub open spec fn template_names(ts: Seq<TemplateFile>) -> Seq<Seq<char>> {
    ts.map_values(|t: TemplateFile| t.name@)
}

/// Where every action is `k`, the names under `k` are all the names, in order, and
/// those under any other action are none.
proof fn lemma_names_with_uniform(ts: Seq<TemplateFile>, kinds: Seq<FileAction>, k: FileAction)
    requires
        kinds.len() == ts.len(),
        forall|i: int| 0 <= i < kinds.len() ==> kinds[i] == k,
    ensures
        names_with(ts, kinds, k) == template_names(ts),
        forall|k2: FileAction| k2 != k ==> #[trigger] names_with(ts, kinds, k2) == Seq::<
            Seq<char>,
        >::empty(),
    decreases ts.len(),
{
    if ts.len() == 0 {
        assert(template_names(ts) =~= Seq::<Seq<char>>::empty());
    } else {
        lemma_names_with_uniform(ts.drop_last(), kinds.drop_last(), k);
        assert(kinds.last() == kinds[kinds.len() - 1]);
        assert(template_names(ts) =~= template_names(ts.drop_last()).push(ts.last().name@));
        assert forall|k2: FileAction| k2 != k implies #[trigger] names_with(ts, kinds, k2)
            == Seq::<Seq<char>>::empty() by {
            assert(names_with(ts.drop_last(), kinds.drop_last(), k2) == Seq::<Seq<char>>::empty());
        }
    }
}

/// Installing into a directory where none of the files exists creates them all:
/// every name is reported created, in order, and none updated or unchanged.
pub proof fn lemma_fresh_install_creates_all(
    res: InstallResult,
    ts: Seq<TemplateFile>,
    found: Seq<Option<Seq<u8>>>,
    c: LabelConfig,
)
    requires
        found.len() == ts.len(),
        forall|i: int| 0 <= i < found.len() ==> found[i] is None,
        install_outcome(res, ts, plan_kinds(ts, found, c)),
    ensures
        string_views(res.created@) == template_names(ts),
        res.updated@.len() == 0,
        res.unchanged@.len() == 0,
{
    let kinds = plan_kinds(ts, found, c);
    lemma_names_with_uniform(ts, kinds, FileAction::Create);
    assert(names_with(ts, kinds, FileAction::Update).len() == 0);
    assert(names_with(ts, kinds, FileAction::Unchanged).len() == 0);
}

/// What is found at the path of each of `ts` in the directory `dest`, among the
/// files `m` (by path).
pub open spec fn found_in(
    m: Map<Seq<char>, Seq<u8>>,
    dest: Seq<char>,
    ts: Seq<TemplateFile>,
) -> Seq<Option<Seq<u8>>> {
    Seq::new(
        ts.len(),
        |i: int|
            if m.contains_key(path_join(dest, ts[i].name@)) {
                Some(m[path_join(dest, ts[i].name@)])
            } else {
                None
            },
    )
}

/// The files `m` after each of `ts` whose action in `kinds` is `Create` or
/// `Update` is written, with its rendered bytes, at its path in `dest`.
pub open spec fn written(
    m: Map<Seq<char>, Seq<u8>>,
    dest: Seq<char>,
    ts: Seq<TemplateFile>,
    kinds: Seq<FileAction>,
    c: LabelConfig,
) -> Map<Seq<char>, Seq<u8>>
    decreases ts.len(),
{
    if ts.len() == 0 || kinds.len() == 0 {
        m
    } else {
        let before = written(m, dest, ts.drop_last(), kinds.drop_last(), c);
        if kinds.last() == FileAction::Unchanged {
            before
        } else {
            before.insert(
                path_join(dest, ts.last().name@),
                rendered_bytes(ts.last().contents@, c),
            )
        }
    }
}

/// The names of `ts` are distinct file names: none begins with `/`.
pub open spec fn distinct_file_names(ts: Seq<TemplateFile>) -> bool {
    &&& forall|i: int| 0 <= i < ts.len() ==> !(#[trigger] ts[i].name@.len() > 0 && ts[i].name@[0]
        == '/')
    &&& forall|i: int, j: int|
        0 <= i < j < ts.len() ==> #[trigger] ts[i].name@ != #[trigger] ts[j].name@
}

/// Two names that do not begin with `/` have the same path in a directory only
/// when they are the same.
proof fn lemma_path_join_injective(base: Seq<char>, a: Seq<char>, b: Seq<char>)
    requires
        !(a.len() > 0 && a[0] == '/'),
        !(b.len() > 0 && b[0] == '/'),
        path_join(base, a) == path_join(base, b),
    ensures
        a == b,
{
    if base.len() == 0 {
    } else if base.last() == '/' {
        assert(a =~= path_join(base, a).subrange(base.len() as int, path_join(base, a).len() as int));
        assert(b =~= path_join(base, b).subrange(base.len() as int, path_join(base, b).len() as int));
    } else {
        let n: int = base.len() as int + 1;
        assert(a =~= path_join(base, a).subrange(n, path_join(base, a).len() as int));
        assert(b =~= path_join(base, b).subrange(n, path_join(base, b).len() as int));
    }
}

/// Writing leaves every path that is not one of the templates' as it was.
proof fn lemma_written_frame(
    m: Map<Seq<char>, Seq<u8>>,
    dest: Seq<char>,
    ts: Seq<TemplateFile>,
    kinds: Seq<FileAction>,
    c: LabelConfig,
    key: Seq<char>,
)
    requires
        forall|j: int| 0 <= j < ts.len() ==> key != path_join(dest, #[trigger] ts[j].name@),
    ensures
        written(m, dest, ts, kinds, c).contains_key(key) == m.contains_key(key),
        m.contains_key(key) ==> written(m, dest, ts, kinds, c)[key] == m[key],
    decreases ts.len(),
{
    if ts.len() == 0 || kinds.len() == 0 {
    } else {
        let p = ts.drop_last();
        assert forall|j: int| 0 <= j < p.len() implies key != path_join(dest, #[trigger] p[j].name@) by {
            assert(p[j] == ts[j]);
        }
        assert(ts.last() == ts[ts.len() - 1]);
        lemma_written_frame(m, dest, p, kinds.drop_last(), c, key);
    }
}

/// Where each template marked `Unchanged` already holds its rendered bytes, every
/// template's path holds its rendered bytes once the others are written.
proof fn lemma_written_holds_rendered(
    m: Map<Seq<char>, Seq<u8>>,
    dest: Seq<char>,
    ts: Seq<TemplateFile>,
    kinds: Seq<FileAction>,
    c: LabelConfig,
)
    requires
        kinds.len() == ts.len(),
        distinct_file_names(ts),
        forall|i: int|
            0 <= i < ts.len() && kinds[i] == FileAction::Unchanged ==> m.contains_key(
                path_join(dest, ts[i].name@),
            ) && m[path_join(dest, ts[i].name@)] == rendered_bytes(ts[i].contents@, c),
    ensures
        forall|i: int|
            0 <= i < ts.len() ==> written(m, dest, ts, kinds, c).contains_key(
                path_join(dest, #[trigger] ts[i].name@),
            ) && written(m, dest, ts, kinds, c)[path_join(dest, ts[i].name@)] == rendered_bytes(
                ts[i].contents@,
                c,
            ),
    decreases ts.len(),
{
    if ts.len() > 0 {
        let p = ts.drop_last();
        let pk = kinds.drop_last();
        let n = ts.len() - 1;
        assert forall|i: int| 0 <= i < p.len() implies !(#[trigger] p[i].name@.len() > 0
            && p[i].name@[0] == '/') by {
            assert(p[i] == ts[i]);
        }
        assert forall|i: int, j: int| 0 <= i < j < p.len() implies #[trigger] p[i].name@
            != #[trigger] p[j].name@ by {
            assert(p[i] == ts[i] && p[j] == ts[j]);
        }
        assert forall|i: int|
            0 <= i < p.len() && pk[i] == FileAction::Unchanged implies m.contains_key(
                path_join(dest, p[i].name@),
            ) && m[path_join(dest, p[i].name@)] == rendered_bytes(p[i].contents@, c) by {
            assert(p[i] == ts[i] && pk[i] == kinds[i]);
        }
        lemma_written_holds_rendered(m, dest, p, pk, c);
        let last_path = path_join(dest, ts[n].name@);
        assert forall|j: int| 0 <= j < p.len() implies last_path != path_join(dest, #[trigger] p[j].name@) by {
            assert(p[j] == ts[j]);
            assert(ts[n].name@ != ts[j].name@);
            if last_path == path_join(dest, p[j].name@) {
                lemma_path_join_injective(dest, ts[n].name@, ts[j].name@);
            }
        }
        lemma_written_frame(m, dest, p, pk, c, last_path);
        assert(ts.last() == ts[n]);
        assert forall|i: int| 0 <= i < ts.len() implies written(m, dest, ts, kinds, c).contains_key(
            path_join(dest, #[trigger] ts[i].name@),
        ) && written(m, dest, ts, kinds, c)[path_join(dest, ts[i].name@)] == rendered_bytes(
            ts[i].contents@,
            c,
        ) by {
            if i < n {
                assert(p[i] == ts[i]);
                assert(ts[n].name@ != ts[i].name@);
                if last_path == path_join(dest, ts[i].name@) {
                    lemma_path_join_injective(dest, ts[n].name@, ts[i].name@);
                }
            }
        }
    }
}

/// Installing twice changes nothing the second time: once the files that a plan
/// marks `Create` or `Update` are written, each template's path holds its rendered
/// bytes, no other path has changed, and a new plan marks every template
/// `Unchanged`, reporting every name unchanged and none created or updated.
pub proof fn lemma_install_twice_changes_nothing(
    m: Map<Seq<char>, Seq<u8>>,
    dest: Seq<char>,
    ts: Seq<TemplateFile>,
    c: LabelConfig,
    res: InstallResult,
)
    requires
        distinct_file_names(ts),
        install_outcome(
            res,
            ts,
            plan_kinds(
                ts,
                found_in(
                    written(m, dest, ts, plan_kinds(ts, found_in(m, dest, ts), c), c),
                    dest,
                    ts,
                ),
                c,
            ),
        ),
    ensures
        ({
            let after = written(m, dest, ts, plan_kinds(ts, found_in(m, dest, ts), c), c);
            &&& forall|i: int|
                0 <= i < ts.len() ==> after.contains_key(path_join(dest, #[trigger] ts[i].name@))
                    && after[path_join(dest, ts[i].name@)] == rendered_bytes(ts[i].contents@, c)
            &&& forall|key: Seq<char>|
                (forall|j: int| 0 <= j < ts.len() ==> key != path_join(dest, #[trigger] ts[j].name@))
                    ==> (#[trigger] after.contains_key(key) == m.contains_key(key) && (
                m.contains_key(key) ==> after[key] == m[key]))
            &&& plan_kinds(ts, found_in(after, dest, ts), c) == Seq::new(
                ts.len(),
                |i: int| FileAction::Unchanged,
            )
            &&& string_views(res.unchanged@) == template_names(ts)
            &&& res.created@.len() == 0
            &&& res.updated@.len() == 0
        }),
{
    let kinds = plan_kinds(ts, found_in(m, dest, ts), c);
    let after = written(m, dest, ts, kinds, c);
    assert forall|i: int| 0 <= i < ts.len() && kinds[i] == FileAction::Unchanged implies m.contains_key(
        path_join(dest, ts[i].name@),
    ) && m[path_join(dest, ts[i].name@)] == rendered_bytes(ts[i].contents@, c) by {
        assert(found_in(m, dest, ts)[i] == Some(rendered_bytes(ts[i].contents@, c)));
    }
    lemma_written_holds_rendered(m, dest, ts, kinds, c);
    assert forall|key: Seq<char>|
        (forall|j: int| 0 <= j < ts.len() ==> key != path_join(dest, #[trigger] ts[j].name@))
            implies (#[trigger] after.contains_key(key) == m.contains_key(key) && (
        m.contains_key(key) ==> after[key] == m[key])) by {
        lemma_written_frame(m, dest, ts, kinds, c, key);
    }
    let again = plan_kinds(ts, found_in(after, dest, ts), c);
    assert forall|i: int| 0 <= i < ts.len() implies again[i] == FileAction::Unchanged by {
        assert(after.contains_key(path_join(dest, ts[i].name@)));
    }
    assert(again =~= Seq::new(ts.len(), |i: int| FileAction::Unchanged));
    lemma_names_with_uniform(ts, again, FileAction::Unchanged);
    assert(names_with(ts, again, FileAction::Create).len() == 0);
    assert(names_with(ts, again, FileAction::Update).len() == 0);
}

/// `res` splits the names of `ts` as planned for some contents found at their
/// paths, with the labels `c`.
pub open spec fn split_as_planned(res: InstallResult, ts: Seq<TemplateFile>, c: LabelConfig) -> bool {
    exists|seen: Seq<Option<Seq<u8>>>|
        seen.len() == ts.len() && #[trigger] install_outcome(res, ts, plan_kinds(ts, seen, c))
}

/// Installs the templates of `set` (`templates`, its files) into their directory
/// below `repo_root`: each file is rendered, then created when missing, rewritten
/// when it holds other bytes, and left alone when it holds the rendered ones. The
/// path and bytes of each file are those of `file_target`, its action that of
/// `file_action`, as `plan_install` plans them. On success the names are split as
/// planned for what the file system showed at each path; what it showed, and
/// which calls of it were made, are not stated here.
pub fn install(
    fs: &dyn Filesystem,
    set: &TemplateSet,
    templates: &[TemplateFile],
    repo_root: &str,
    config: &DagenticConfig,
) -> (r: Result<InstallResult, InstallError>)
    ensures
        r matches Ok(res) ==> forall|i: int|
            0 <= i < templates.len() ==> valid_utf8(#[trigger] templates@[i].contents@),
        r matches Ok(res) ==> split_as_planned(res, templates@, config.labels),
        r matches Err(InstallError::CreateDir { path, message }) ==> path@ == path_join(
            repo_root@,
            dest_subdir_name(*set),
        ),
        r matches Err(InstallError::NotUtf8 { name }) ==> exists|i: int|
            first_invalid_template(templates@, i) && name@ == templates@[i].name@,
{
    let dest = join_path(repo_root, set.dest_subdir());
    match fs.create_dir_all(dest.as_str()) {
        Ok(()) => {},
        Err(message) => {
            return Err(InstallError::CreateDir { path: dest, message });
        },
    }
    let mut result = InstallResult { created: Vec::new(), updated: Vec::new(), unchanged: Vec::new() };
    let ghost mut found: Seq<Option<Seq<u8>>> = seq![];
    let mut i: usize = 0;
    assert(templates@.take(0) =~= Seq::<TemplateFile>::empty());
    assert(plan_kinds(templates@.take(0), found, config.labels) =~= Seq::<FileAction>::empty());
    assert(string_views(result.created@) =~= Seq::<Seq<char>>::empty());
    assert(string_views(result.updated@) =~= Seq::<Seq<char>>::empty());
    assert(string_views(result.unchanged@) =~= Seq::<Seq<char>>::empty());
    while i < templates.len()
        invariant
            i <= templates.len(),
            found.len() == i,
            forall|k: int| 0 <= k < i ==> valid_utf8(#[trigger] templates@[k].contents@),
            install_outcome(
                result,
                templates@.take(i as int),
                plan_kinds(templates@.take(i as int), found, config.labels),
            ),
        decreases templates.len() - i,
    {
        let file = &templates[i];
        let target = match file_target(dest.as_str(), file, config) {
            Some(t) => t,
            None => {
                assert(first_invalid_template(templates@, i as int));
                return Err(InstallError::NotUtf8 { name: file.name.clone() });
            },
        };
        let action;
        let ghost seen: Option<Seq<u8>>;
        if fs.file_exists(target.path.as_str()) {
            let existing = match fs.read_file(target.path.as_str()) {
                Ok(e) => e,
                Err(message) => {
                    return Err(InstallError::Io { message });
                },
            };
            action = file_action(Some(existing.as_slice()), target.bytes.as_slice());
            proof {
                seen = Some(existing@);
            }
        } else {
            action = file_action(None, target.bytes.as_slice());
            proof {
                seen = None;
            }
        }
        if action != FileAction::Unchanged {
            match fs.write_file(target.path.as_str(), target.bytes.as_slice()) {
                Ok(()) => {},
                Err(message) => {
                    return Err(InstallError::Io { message });
                },
            }
        }
        let ghost ts = templates@.take(i as int);
        let ghost kinds = plan_kinds(ts, found, config.labels);
        record(&mut result, file, action, Ghost(ts), Ghost(kinds));
        proof {
            let found2 = found.push(seen);
            assert(ts.push(*file) =~= templates@.take(i + 1));
            assert(kinds.push(action) =~= plan_kinds(
                templates@.take(i + 1),
                found2,
                config.labels,
            ));
            found = found2;
        }
        i = i + 1;
    }
    assert(templates@.take(i as int) =~= templates@);
    assert(install_outcome(result, templates@, plan_kinds(templates@, found, config.labels)));
    assert(split_as_planned(result, templates@, config.labels));
    Ok(result)
}

} // verus!
