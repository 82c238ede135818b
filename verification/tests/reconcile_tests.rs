use yuuskel::env::reconcile_env;
use yuuskel::ledger::{generated_lines, normalize_prefix, owned_keys};
use yuuskel::reconcile::reconcile;

fn keys_of(v: &[&str]) -> Vec<String> {
    v.iter().map(|s| s.to_string()).collect()
}

#[test]
fn empty_config_two_categories_exact() {
    let keys = keys_of(&["PROJECT_ROOT", "APP_INPUT_DIR", "APP_OUTPUT_DIR"]);
    let gen = keys_of(&[
        "PROJECT_ROOT=\"/p\"",
        "APP_INPUT_DIR=\"/p/input\"",
        "APP_OUTPUT_DIR=\"/p/output\"",
    ]);
    let out = reconcile("", &keys, &gen);
    assert_eq!(
        out,
        "PROJECT_ROOT=\"/p\"\nAPP_INPUT_DIR=\"/p/input\"\nAPP_OUTPUT_DIR=\"/p/output\"\n"
    );
}

#[test]
fn prefix_change_orphans_old_keys() {
    let out = reconcile_env("FOO=bar\nOLD_INPUT_DIR=\"/x\"\n", "", "/p");
    let expected = "FOO=bar\n\
        OLD_INPUT_DIR=\"/x\"\n\
        PROJECT_ROOT=\"/p\"\n\
        INPUT_DIR=\"/p/input\"\n\
        OUTPUT_DIR=\"/p/output\"\n\
        TEMP_ASSETS_DIR=\"/p/assets/temp\"\n\
        SRC_DIR=\"/p/src\"\n\
        SCRIPTS_DIR=\"/p/scripts\"\n\
        CONFIGS_DIR=\"/p/configs\"\n\
        DOCS_DIR=\"/p/docs\"\n\
        NOTEBOOKS_DIR=\"/p/notebooks\"\n";
    assert_eq!(out, expected);
}

#[test]
fn reconcile_env_is_idempotent() {
    let first = reconcile_env("# settings\nFOO=1\nAPP_INPUT_DIR=old\n", "app", "/home/me/proj");
    let second = reconcile_env(&first, "app", "/home/me/proj");
    assert_eq!(first, second);
}

#[test]
fn duplicate_owned_keys_all_dropped() {
    let keys = keys_of(&["K"]);
    let gen = keys_of(&["K=\"new\""]);
    let out = reconcile("K=1\nother=2\nK=3\nK=4\n", &keys, &gen);
    assert_eq!(out, "other=2\nK=\"new\"\n");
    assert_eq!(out.matches("K=").count(), 1);
}

#[test]
fn comments_blanks_and_odd_lines_preserved() {
    let keys = keys_of(&["OWNED"]);
    let gen = keys_of(&["OWNED=\"x\""]);
    let text = "# comment\n\nnot an assignment\n   \nFOO=keep\nOWNED=drop\n";
    let out = reconcile(text, &keys, &gen);
    assert_eq!(
        out,
        "# comment\n\nnot an assignment\n   \nFOO=keep\nOWNED=\"x\"\n"
    );
}

#[test]
fn indented_owned_assignment_is_replaced() {
    let keys = keys_of(&["OWNED"]);
    let gen = keys_of(&["OWNED=\"x\""]);
    let out = reconcile("  OWNED=old\n", &keys, &gen);
    assert_eq!(out, "OWNED=\"x\"\n");
}

#[test]
fn commented_owned_key_is_preserved() {
    let keys = keys_of(&["OWNED"]);
    let gen = keys_of(&["OWNED=\"x\""]);
    let out = reconcile("# OWNED=old\n", &keys, &gen);
    assert_eq!(out, "# OWNED=old\nOWNED=\"x\"\n");
}

#[test]
fn missing_file_behaves_as_empty() {
    let out_absent = reconcile_env("", "demo", "/r");
    let out_after = reconcile_env(&out_absent, "demo", "/r");
    assert_eq!(out_absent, out_after);
    assert!(out_absent.starts_with("PROJECT_ROOT=\"/r\"\n"));
    assert!(out_absent.ends_with("\n"));
    assert!(!out_absent.ends_with("\n\n"));
}

#[test]
fn generated_lines_canonical_order() {
    let gen = generated_lines("demo", "/r");
    let expected = vec![
        "PROJECT_ROOT=\"/r\"",
        "DEMO_INPUT_DIR=\"/r/input\"",
        "DEMO_OUTPUT_DIR=\"/r/output\"",
        "DEMO_TEMP_ASSETS_DIR=\"/r/assets/temp\"",
        "DEMO_SRC_DIR=\"/r/src\"",
        "DEMO_SCRIPTS_DIR=\"/r/scripts\"",
        "DEMO_CONFIGS_DIR=\"/r/configs\"",
        "DEMO_DOCS_DIR=\"/r/docs\"",
        "DEMO_NOTEBOOKS_DIR=\"/r/notebooks\"",
    ];
    let got: Vec<&str> = gen.iter().map(|s| s.as_str()).collect();
    assert_eq!(got, expected);
}

#[test]
fn owned_keys_with_and_without_prefix() {
    let unprefixed = owned_keys("");
    let got: Vec<&str> = unprefixed.iter().map(|s| s.as_str()).collect();
    assert_eq!(
        got,
        vec![
            "PROJECT_ROOT",
            "INPUT_DIR",
            "OUTPUT_DIR",
            "TEMP_ASSETS_DIR",
            "SRC_DIR",
            "SCRIPTS_DIR",
            "CONFIGS_DIR",
            "DOCS_DIR",
            "NOTEBOOKS_DIR",
        ]
    );
    let prefixed = owned_keys("tool");
    assert_eq!(prefixed.len(), 9);
    assert_eq!(prefixed[0], "PROJECT_ROOT");
    assert_eq!(prefixed[1], "TOOL_INPUT_DIR");
    assert_eq!(prefixed[8], "TOOL_NOTEBOOKS_DIR");
}

#[test]
fn ancestor_dir_key_is_not_owned() {
    // "assets" is only an ancestor of the temp-assets category, not a
    // category of its own, so a user's ASSETS_DIR line is foreign.
    let out = reconcile_env("ASSETS_DIR=\"/custom\"\n", "", "/p");
    assert!(out.starts_with("ASSETS_DIR=\"/custom\"\n"));
    assert_eq!(out.matches("ASSETS_DIR=").count(), 2);
    assert_eq!(out.matches("TEMP_ASSETS_DIR=").count(), 1);
}

#[test]
fn normalize_prefix_cases() {
    assert_eq!(normalize_prefix(""), "");
    assert_eq!(normalize_prefix("myproj"), "MYPROJ_");
    assert_eq!(normalize_prefix("my-proj1"), "MY_PROJ1_");
    assert_eq!(normalize_prefix("ALREADY"), "ALREADY_");
    assert_eq!(normalize_prefix("a b"), "A_B_");
}

#[test]
fn reconcile_empty_key_set_appends_only() {
    let keys: Vec<String> = Vec::new();
    let gen = keys_of(&["X=\"1\""]);
    let out = reconcile("FOO=bar", &keys, &gen);
    assert_eq!(out, "FOO=bar\nX=\"1\"\n");
}

#[test]
fn empty_key_line_is_foreign() {
    let keys = keys_of(&["OWNED"]);
    let gen = keys_of(&["OWNED=\"x\""]);
    let out = reconcile("=value\nOWNED=old\n", &keys, &gen);
    assert_eq!(out, "=value\nOWNED=\"x\"\n");
}

#[test]
fn key_match_is_case_sensitive() {
    let keys = keys_of(&["OWNED"]);
    let gen = keys_of(&["OWNED=\"x\""]);
    let out = reconcile("owned=keep\nOWNED=drop\n", &keys, &gen);
    assert_eq!(out, "owned=keep\nOWNED=\"x\"\n");
}

#[test]
fn unicode_whitespace_trimmed_for_classification() {
    let keys = keys_of(&["OWNED"]);
    let gen = keys_of(&["OWNED=\"x\""]);
    let out = reconcile("\u{A0}OWNED=old\n", &keys, &gen);
    assert_eq!(out, "OWNED=\"x\"\n");
}

#[test]
fn crlf_content_kept_inside_lines() {
    let keys = keys_of(&["OWNED"]);
    let gen = keys_of(&["OWNED=\"x\""]);
    let out = reconcile("FOO=bar\r\nOWNED=old\n", &keys, &gen);
    assert_eq!(out, "FOO=bar\r\nOWNED=\"x\"\n");
}
