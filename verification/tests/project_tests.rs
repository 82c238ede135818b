use yuuskel::messages::{Language, MsgKey};
use yuuskel::provenance::{prefix_label, provenance_to_write, render_provenance, ProvenanceRecord};
use yuuskel::scaffold::{plan_scaffold, scaffold_dirs};
use yuuskel::template::{fill_template, template_to_write};
use yuuskel::validate::validate_project_name;

#[test]
fn scaffold_dir_list_fixed_order() {
    let dirs = scaffold_dirs();
    let got: Vec<&str> = dirs.iter().map(|s| s.as_str()).collect();
    assert_eq!(
        got,
        vec!["input", "output", "assets/temp", "src", "scripts", "configs", "docs", "notebooks"]
    );
}

#[test]
fn scaffold_plan_reports_created_or_found() {
    let existing = vec![true, false, false, true, false, false, false, false];
    let plan = plan_scaffold(&existing);
    assert_eq!(plan.len(), 8);
    for (i, entry) in plan.iter().enumerate() {
        assert_eq!(entry.created, !existing[i]);
    }
    assert_eq!(plan[0].rel_path, "input");
    assert!(!plan[0].created);
    assert_eq!(plan[2].rel_path, "assets/temp");
    assert!(plan[2].created);
}

#[test]
fn scaffold_plan_already_populated_root_creates_nothing() {
    let existing = vec![true; 8];
    let plan = plan_scaffold(&existing);
    assert!(plan.iter().all(|e| !e.created));
}

fn sample_record() -> ProvenanceRecord {
    ProvenanceRecord {
        version: "0.1.0".to_string(),
        prefix: Some("DEMO".to_string()),
        git_initialized: true,
        license: None,
        dirs: vec!["input".to_string(), "output".to_string()],
    }
}

#[test]
fn provenance_rendered_exactly() {
    let text = render_provenance(&sample_record());
    let expected = "# yuuskel provenance record; do not edit by hand\n\n\
        [yuuskel]\n\
        version = \"0.1.0\"\n\
        prefix = \"DEMO\"\n\
        git_initialized = true\n\
        license = false\n\
        dirs = [\"input\", \"output\"]\n";
    assert_eq!(text, expected);
}

#[test]
fn provenance_absent_fields_render_false() {
    let rec = ProvenanceRecord {
        version: "9".to_string(),
        prefix: None,
        git_initialized: false,
        license: Some("MIT".to_string()),
        dirs: vec!["src".to_string()],
    };
    let text = render_provenance(&rec);
    assert!(text.contains("\nprefix = false\n"));
    assert!(text.contains("\ngit_initialized = false\n"));
    assert!(text.contains("\nlicense = \"MIT\"\n"));
    assert!(text.contains("\ndirs = [\"src\"]\n"));
}

#[test]
fn provenance_written_once_only() {
    let first = provenance_to_write(false, &sample_record());
    assert!(first.is_some());
    let other = ProvenanceRecord {
        version: "2.0".to_string(),
        prefix: None,
        git_initialized: false,
        license: Some("MIT".to_string()),
        dirs: Vec::new(),
    };
    let second = provenance_to_write(true, &other);
    assert!(second.is_none());
}

#[test]
fn prefix_label_strips_separators() {
    assert_eq!(prefix_label("MY_PROJ_"), "MY_PROJ");
    assert_eq!(prefix_label("A__"), "A");
    assert_eq!(prefix_label(""), "");
    assert_eq!(prefix_label("NO_TRAIL"), "NO_TRAIL");
}

#[test]
fn template_placeholder_substituted() {
    let out = fill_template("Results land in {{output_dir}}.", "/p/output");
    assert_eq!(out, "Results land in /p/output.");
}

#[test]
fn template_every_occurrence_substituted() {
    let out = fill_template("{{output_dir}} and {{output_dir}}", "/o");
    assert_eq!(out, "/o and /o");
}

#[test]
fn template_without_placeholder_unchanged() {
    let out = fill_template("plain text\nwith lines\n", "/o");
    assert_eq!(out, "plain text\nwith lines\n");
}

#[test]
fn template_partial_token_untouched() {
    let out = fill_template("{{output_dir} {{output_dir}}", "/o");
    assert_eq!(out, "{{output_dir} /o");
}

#[test]
fn artifact_written_only_when_absent() {
    let w = template_to_write(false, "out: {{output_dir}}\n", "/p/output");
    assert_eq!(w, Some("out: /p/output\n".to_string()));
    let again = template_to_write(true, "out: {{output_dir}}\n", "/p/output");
    assert_eq!(again, None);
}

#[test]
fn message_lookup_fixed_texts() {
    assert_eq!(Language::En.msg(MsgKey::Yes), "Yes");
    assert_eq!(Language::Zh.msg(MsgKey::Yes), "是");
    assert_eq!(
        Language::En.msg(MsgKey::UsageHelp),
        Language::Zh.msg(MsgKey::UsageHelp)
    );
    let langs = Language::all();
    assert_eq!(langs.len(), 2);
    assert_eq!(langs[0].0, "English");
    assert!(matches!(langs[0].1, Language::En));
    assert_eq!(langs[1].0, "中文");
    assert!(matches!(langs[1].1, Language::Zh));
}

#[test]
fn project_name_validation() {
    assert!(validate_project_name("my_project"));
    assert!(validate_project_name("proj.2024"));
    assert!(validate_project_name("my project"));
    assert!(!validate_project_name(""));
    assert!(!validate_project_name("a/b"));
    assert!(!validate_project_name("a\\b"));
    assert!(!validate_project_name("."));
    assert!(!validate_project_name(".."));
}
