use dagentic::config::DagenticConfig;
use dagentic::fs::Filesystem;
use dagentic::templates::{
    file_action, file_target, install, plan_install, join_path, render, substitute, FileAction, InstallError, InstallResult,
    TemplateFile, TemplateSet,
};
use std::cell::RefCell;
use std::collections::HashMap;

/// An in-memory file system.
struct FakeFs {
    files: RefCell<HashMap<String, Vec<u8>>>,
    dirs: RefCell<Vec<String>>,
    fail_dirs: bool,
}

impl FakeFs {
    fn new() -> Self {
        FakeFs { files: RefCell::new(HashMap::new()), dirs: RefCell::new(Vec::new()), fail_dirs: false }
    }
}

impl Filesystem for FakeFs {
    fn create_dir_all(&self, path: &str) -> Result<(), String> {
        if self.fail_dirs {
            return Err("permission denied".to_string());
        }
        self.dirs.borrow_mut().push(path.to_string());
        Ok(())
    }

    fn file_exists(&self, path: &str) -> bool {
        self.files.borrow().contains_key(path)
    }

    fn read_file(&self, path: &str) -> Result<Vec<u8>, String> {
        self.files.borrow().get(path).cloned().ok_or_else(|| format!("no such file: {path}"))
    }

    fn write_file(&self, path: &str, contents: &[u8]) -> Result<(), String> {
        self.files.borrow_mut().insert(path.to_string(), contents.to_vec());
        Ok(())
    }
}

fn file(name: &str, contents: &str) -> TemplateFile {
    TemplateFile { name: name.to_string(), contents: contents.as_bytes().to_vec() }
}

/// Stand-ins for the four workflow caller templates.
fn caller_templates() -> Vec<TemplateFile> {
    vec![
        file("dagentic-plan.yml", "on: issues\nif: label == '{{needs_plan}}'\nready: '{{plan_ready}}'\n"),
        file("dagentic-implement.yml", "if: label == '{{plan_approved}}'\nthen: '{{review_pending}}'\n"),
        file("dagentic-copilot-review.yml", "if: label == '{{review_pending}}'\n"),
        file("dagentic-review-fixup.yml", "done: '{{review_addressed}}'\n"),
    ]
}

/// Stand-ins for the three issue templates.
fn issue_templates() -> Vec<TemplateFile> {
    vec![
        file("feature.yml", "labels: ['{{feature}}', '{{needs_plan}}']\n"),
        file("bug.yml", "labels: ['{{bug}}', '{{needs_plan}}']\n"),
        file("epic.yml", "labels: ['{{epic}}']\n"),
    ]
}

fn templates_of(set: &TemplateSet) -> Vec<TemplateFile> {
    match set {
        TemplateSet::Caller => caller_templates(),
        TemplateSet::Issue => issue_templates(),
    }
}

fn root() -> String {
    "/repo".to_string()
}

fn run(fs: &FakeFs, set: &TemplateSet, config: &DagenticConfig) -> InstallResult {
    install(fs, set, &templates_of(set), &root(), config).unwrap()
}

#[test]
fn install_creates_files_in_correct_directory() {
    let fs = FakeFs::new();
    let config = DagenticConfig::default();
    let result = run(&fs, &TemplateSet::Caller, &config);

    assert_eq!(result.created.len(), 4, "should create 4 caller templates");
    assert_eq!(result.updated.len(), 0);
    assert_eq!(result.unchanged.len(), 0);

    for name in &result.created {
        let path = format!("{}/{}/{}", root(), ".github/workflows", name);
        assert!(fs.file_exists(&path), "missing: {}", path);
    }
}

#[test]
fn install_issue_templates() {
    let fs = FakeFs::new();
    let config = DagenticConfig::default();
    let result = run(&fs, &TemplateSet::Issue, &config);

    assert_eq!(result.created.len(), 3, "should create 3 issue templates");
    for name in &result.created {
        let path = format!("{}/{}/{}", root(), ".github/ISSUE_TEMPLATE", name);
        assert!(fs.file_exists(&path), "missing: {}", path);
    }
}

#[test]
fn install_detects_unchanged() {
    let fs = FakeFs::new();
    let config = DagenticConfig::default();
    run(&fs, &TemplateSet::Caller, &config);

    let result = run(&fs, &TemplateSet::Caller, &config);
    assert_eq!(result.unchanged.len(), 4);
    assert_eq!(result.changed_count(), 0);
}

#[test]
fn install_detects_updated() {
    let fs = FakeFs::new();
    let config = DagenticConfig::default();
    run(&fs, &TemplateSet::Caller, &config);

    // Tamper with one file
    let path = format!("{}/{}", root(), ".github/workflows/dagentic-plan.yml");
    fs.write_file(&path, b"modified").unwrap();

    let result = run(&fs, &TemplateSet::Caller, &config);
    assert_eq!(result.updated.len(), 1);
    assert_eq!(result.unchanged.len(), 3);
    assert!(result.updated.contains(&"dagentic-plan.yml".to_string()));
}

#[test]
fn substitution_replaces_placeholders() {
    let mut config = DagenticConfig::default();
    config.labels.needs_plan = "custom-needs-plan".into();

    let input = "label == '{{needs_plan}}'";
    let output = substitute(input, &config);
    assert_eq!(output, "label == 'custom-needs-plan'");
}

#[test]
fn install_with_custom_config_writes_substituted_content() {
    let fs = FakeFs::new();
    let mut config = DagenticConfig::default();
    config.labels.needs_plan = "my-needs-plan".into();

    run(&fs, &TemplateSet::Caller, &config);

    let path = format!("{}/{}", root(), ".github/workflows/dagentic-plan.yml");
    let content = String::from_utf8(fs.read_file(&path).unwrap()).unwrap();
    assert!(
        content.contains("my-needs-plan"),
        "should contain custom label"
    );
    assert!(
        !content.contains("{{needs_plan}}"),
        "should not contain placeholder"
    );
}

// -- Further cases --

#[test]
fn install_creates_the_destination_directory() {
    let fs = FakeFs::new();
    let config = DagenticConfig::default();
    run(&fs, &TemplateSet::Issue, &config);
    assert_eq!(fs.dirs.borrow().as_slice(), &["/repo/.github/ISSUE_TEMPLATE".to_string()]);
}

#[test]
fn install_reports_directory_failure() {
    let mut fs = FakeFs::new();
    fs.fail_dirs = true;
    let config = DagenticConfig::default();
    match install(&fs, &TemplateSet::Caller, &caller_templates(), "/repo/", &config) {
        Err(InstallError::CreateDir { path, message }) => {
            assert_eq!(path, "/repo/.github/workflows");
            assert_eq!(message, "permission denied");
        }
        _ => panic!("expected a directory error"),
    }
    assert!(fs.files.borrow().is_empty());
}

#[test]
fn install_reports_first_non_utf8_template() {
    let fs = FakeFs::new();
    let config = DagenticConfig::default();
    let templates = vec![
        file("a.yml", "fine"),
        TemplateFile { name: "b.yml".to_string(), contents: vec![0x66, 0xff, 0x66] },
        TemplateFile { name: "c.yml".to_string(), contents: vec![0xc3] },
    ];
    match install(&fs, &TemplateSet::Caller, &templates, "/repo", &config) {
        Err(InstallError::NotUtf8 { name }) => assert_eq!(name, "b.yml"),
        _ => panic!("expected a UTF-8 error"),
    }
}

#[test]
fn install_sorts_created_updated_unchanged_in_order() {
    let fs = FakeFs::new();
    let config = DagenticConfig::default();
    let rendered_plan = render(caller_templates()[0].contents.as_slice(), &config).unwrap();
    fs.write_file("/repo/.github/workflows/dagentic-plan.yml", &rendered_plan).unwrap();
    fs.write_file("/repo/.github/workflows/dagentic-copilot-review.yml", b"old").unwrap();
    let result = run(&fs, &TemplateSet::Caller, &config);
    assert_eq!(result.unchanged, vec!["dagentic-plan.yml".to_string()]);
    assert_eq!(result.updated, vec!["dagentic-copilot-review.yml".to_string()]);
    assert_eq!(
        result.created,
        vec!["dagentic-implement.yml".to_string(), "dagentic-review-fixup.yml".to_string()]
    );
    assert_eq!(result.changed_count(), 3);
}

#[test]
fn substitution_covers_every_placeholder_and_keeps_other_text() {
    let mut config = DagenticConfig::default();
    config.labels.bug = "kind/bug".into();
    let out = substitute(
        "{{needs_plan}} {{plan_ready}} {{plan_approved}} {{review_pending}} {{review_addressed}} {{feature}} {{bug}} {{epic}} {{needs_spec}} {{{bug}}}",
        &config,
    );
    assert_eq!(
        out,
        "needs-plan plan-ready plan-approved review-pending review-addressed feature kind/bug epic {{needs_spec}} {kind/bug}"
    );
    assert_eq!(substitute("nothing to see", &config), "nothing to see");
    assert_eq!(substitute("", &config), "");
}

#[test]
fn render_decodes_substitutes_and_encodes() {
    let config = DagenticConfig::default();
    assert_eq!(render("é {{epic}}".as_bytes(), &config), Some("é epic".as_bytes().to_vec()));
    assert_eq!(render(&[0xe2, 0x82], &config), None);
}

#[test]
fn join_path_follows_path_join() {
    assert_eq!(join_path("/repo", ".github/workflows"), "/repo/.github/workflows");
    assert_eq!(join_path("/repo/", "x.yml"), "/repo/x.yml");
    assert_eq!(join_path("", "x.yml"), "x.yml");
    assert_eq!(join_path("/repo", "/etc/x"), "/etc/x");
    assert_eq!(
        join_path("/repo", ".github/workflows"),
        std::path::Path::new("/repo").join(".github/workflows").to_string_lossy()
    );
}

#[test]
fn file_action_compares_bytes() {
    assert_eq!(file_action(None, b"a"), FileAction::Create);
    assert_eq!(file_action(Some(&b"a"[..]), b"a"), FileAction::Unchanged);
    assert_eq!(file_action(Some(&b"ab"[..]), b"a"), FileAction::Update);
    assert_eq!(TemplateSet::Caller.dest_subdir(), ".github/workflows");
    assert_eq!(TemplateSet::Issue.dest_subdir(), ".github/ISSUE_TEMPLATE");
}

#[test]
fn file_target_joins_path_and_renders() {
    let config = DagenticConfig::default();
    let f = file("epic.yml", "labels: ['{{epic}}']\n");
    let t = file_target("/repo/.github/ISSUE_TEMPLATE", &f, &config).unwrap();
    assert_eq!(t.path, "/repo/.github/ISSUE_TEMPLATE/epic.yml");
    assert_eq!(t.bytes, b"labels: ['epic']\n".to_vec());
}

#[test]
fn file_target_refuses_invalid_utf8() {
    let config = DagenticConfig::default();
    let f = TemplateFile { name: "bad.yml".to_string(), contents: vec![0x66, 0xff, 0x0a] };
    assert!(file_target("/repo", &f, &config).is_none());
}

fn plan_of(existing: &[Option<Vec<u8>>], config: &DagenticConfig) -> (Vec<(String, Vec<u8>, FileAction)>, InstallResult) {
    let (plan, result) =
        plan_install("/repo/.github/workflows", &caller_templates(), existing, config).unwrap();
    (plan.into_iter().map(|(t, a)| (t.path, t.bytes, a)).collect(), result)
}

#[test]
fn plan_install_creates_everything_when_nothing_exists() {
    let config = DagenticConfig::default();
    let (plan, result) = plan_of(&[None, None, None, None], &config);
    assert_eq!(plan.len(), 4);
    assert_eq!(plan[0].0, "/repo/.github/workflows/dagentic-plan.yml");
    assert_eq!(plan[0].1, b"on: issues\nif: label == 'needs-plan'\nready: 'plan-ready'\n".to_vec());
    assert!(plan.iter().all(|e| e.2 == FileAction::Create));
    assert_eq!(result.created.len(), 4);
    assert!(result.updated.is_empty() && result.unchanged.is_empty());
}

#[test]
fn plan_install_leaves_rendered_files_and_updates_tampered_ones() {
    let config = DagenticConfig::default();
    let (first, _) = plan_of(&[None, None, None, None], &config);
    let mut existing: Vec<Option<Vec<u8>>> = first.iter().map(|e| Some(e.1.clone())).collect();
    let (again, result) = plan_of(&existing, &config);
    assert!(again.iter().all(|e| e.2 == FileAction::Unchanged));
    assert_eq!(result.unchanged.len(), 4);
    assert_eq!(result.changed_count(), 0);

    existing[0] = Some(b"modified".to_vec());
    let (tampered, result) = plan_of(&existing, &config);
    assert_eq!(tampered[0].2, FileAction::Update);
    assert_eq!(result.updated, vec!["dagentic-plan.yml".to_string()]);
    assert_eq!(result.unchanged.len(), 3);
}

#[test]
fn plan_install_renders_the_configured_labels() {
    let mut config = DagenticConfig::default();
    config.labels.needs_plan = "my-needs-plan".into();
    let (plan, _) = plan_of(&[None, None, None, None], &config);
    let text = String::from_utf8(plan[0].1.clone()).unwrap();
    assert!(text.contains("my-needs-plan"));
    assert!(!text.contains("{{needs_plan}}"));
}

#[test]
fn plan_install_refuses_the_first_invalid_template() {
    let config = DagenticConfig::default();
    let templates = vec![
        file("a.yml", "fine"),
        TemplateFile { name: "b.yml".to_string(), contents: vec![0xff] },
    ];
    match plan_install("/repo", &templates, &[None, None], &config) {
        Err(InstallError::NotUtf8 { name }) => assert_eq!(name, "b.yml"),
        _ => panic!("expected a UTF-8 error"),
    }
}

/// A file system on which every file exists and none can be read.
struct UnreadableFs;

impl Filesystem for UnreadableFs {
    fn create_dir_all(&self, _path: &str) -> Result<(), String> {
        Ok(())
    }

    fn file_exists(&self, _path: &str) -> bool {
        true
    }

    fn read_file(&self, path: &str) -> Result<Vec<u8>, String> {
        Err(format!("cannot read {path}"))
    }

    fn write_file(&self, _path: &str, _contents: &[u8]) -> Result<(), String> {
        Ok(())
    }
}

#[test]
fn install_reports_read_failure() {
    let config = DagenticConfig::default();
    match install(&UnreadableFs, &TemplateSet::Issue, &issue_templates(), "/repo", &config) {
        Err(InstallError::Io { message }) => {
            assert_eq!(message, "cannot read /repo/.github/ISSUE_TEMPLATE/feature.yml")
        }
        _ => panic!("expected an I/O error"),
    }
}
