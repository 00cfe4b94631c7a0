use dagentic::config::DagenticConfig;
use dagentic::gh::GitHost;
use dagentic::labels::{create_all, label_defs};
use std::cell::RefCell;

#[test]
fn all_labels_have_valid_hex_colors() {
    let config = DagenticConfig::default();
    for label in label_defs(&config) {
        assert_eq!(label.color.len(), 6, "bad color for '{}'", label.name);
        assert!(
            u32::from_str_radix(label.color, 16).is_ok(),
            "non-hex color for '{}'",
            label.name
        );
    }
}

#[test]
fn no_duplicate_labels() {
    let config = DagenticConfig::default();
    let names: Vec<_> = label_defs(&config).iter().map(|l| l.name.clone()).collect();
    for (i, name) in names.iter().enumerate() {
        assert!(!names[i + 1..].contains(name), "duplicate label: {}", name);
    }
}

#[test]
fn expected_label_count() {
    let config = DagenticConfig::default();
    assert_eq!(label_defs(&config).len(), 18);
}

struct RecordingHost {
    calls: RefCell<Vec<(String, String, String)>>,
}

impl GitHost for RecordingHost {
    fn create_label(&self, name: &str, color: &str, description: &str) -> Result<(), String> {
        self.calls
            .borrow_mut()
            .push((name.to_string(), color.to_string(), description.to_string()));
        if name == "bug" {
            Err("already exists".to_string())
        } else {
            Ok(())
        }
    }
}

#[test]
fn create_all_creates_every_label_in_order() {
    let config = DagenticConfig::default();
    let host = RecordingHost { calls: RefCell::new(Vec::new()) };
    let results = create_all(&host, &config);
    assert_eq!(results.len(), 18);
    let calls = host.calls.borrow();
    assert_eq!(calls.len(), 18);
    assert_eq!(results[0].0, "needs-plan");
    assert_eq!(calls[0], ("needs-plan".to_string(), "c5def5".to_string(), "Triggers the planning agent".to_string()));
    assert_eq!(results[17].0, "flow:implement");
    assert_eq!(calls[17].1, "d4c5f9");
    assert_eq!(results[6].0, "bug");
    assert_eq!(results[6].1, Err("already exists".to_string()));
    assert!(results[5].1.is_ok());
}

#[test]
fn label_defs_follow_custom_names() {
    let mut config = DagenticConfig::default();
    config.labels.needs_plan = "todo:plan".to_string();
    config.labels.flow_full = "everything".to_string();
    let defs = label_defs(&config);
    assert_eq!(defs[0].name, "todo:plan");
    assert_eq!(defs[16].name, "everything");
    assert_eq!(defs[16].description, "Flow: full pipeline");
    assert_eq!(defs[7].color, "f9d0c4");
}
