use anchorscope::label::{alias_defined, alias_name, io_error_message, label_assignment};
use anchorscope::read;
use anchorscope::tree::{alias_for_true_id, tree_line};
use anchorscope::pipe::{require_tool, select_mode, select_target, tool_arguments, PipeMode, PipeTarget};

#[test]
fn pipe_targets() {
    assert_eq!(select_target(Some("lbl"), None).unwrap(), PipeTarget::Label("lbl".to_string()));
    assert_eq!(select_target(None, Some("tid")).unwrap(), PipeTarget::TrueId("tid".to_string()));
    assert_eq!(
        select_target(Some("a"), Some("b")).unwrap_err(),
        "IO_ERROR: mutually exclusive options: --label and --true-id"
    );
    assert_eq!(
        select_target(None, None).unwrap_err(),
        "IO_ERROR: either --label or --true-id must be provided"
    );
}

#[test]
fn pipe_modes() {
    assert_eq!(require_tool(false, None).unwrap(), None);
    assert_eq!(require_tool(false, Some("sed")).unwrap(), None);
    assert_eq!(require_tool(true, Some("sed")).unwrap(), Some("sed".to_string()));
    assert_eq!(require_tool(true, None).unwrap_err(), "IO_ERROR: --tool required for --file-io mode");
    assert_eq!(select_mode(Some("cat".to_string()), true, true).unwrap(), PipeMode::FileIo("cat".to_string()));
    assert_eq!(select_mode(None, true, true).unwrap(), PipeMode::Out);
    assert_eq!(select_mode(None, false, true).unwrap(), PipeMode::In);
    assert_eq!(select_mode(None, false, false).unwrap_err(), "IO_ERROR: either --out or --in must be specified");
}

#[test]
fn tool_argument_words() {
    assert_eq!(tool_arguments("-e  s/a/b/ \t-n"), vec!["-e", "s/a/b/", "-n"]);
    assert_eq!(tool_arguments(""), Vec::<String>::new());
    assert_eq!(tool_arguments("   "), Vec::<String>::new());
    assert_eq!(tool_arguments(" .\n"), vec!["."]);
    assert_eq!(tool_arguments("x"), vec!["x"]);
}

#[test]
fn label_assignments() {
    assert!(label_assignment("f", "tid", true, Err("IO_ERROR: file not found".to_string())).is_ok());
    assert!(label_assignment("f", "tid", true, Ok("tid".to_string())).is_ok());
    assert_eq!(label_assignment("f", "tid", true, Ok("other".to_string())).unwrap_err(), "LABEL_EXISTS");
    assert_eq!(
        label_assignment("f", "tid", false, Ok("tid".to_string())).unwrap_err(),
        "IO_ERROR: buffer metadata for true_id 'tid' not found"
    );
    assert_eq!(
        label_assignment("", "tid", true, Ok("other".to_string())).unwrap_err(),
        "IO_ERROR: label name must not be empty"
    );
    assert_eq!(
        label_assignment("f", "", true, Ok("other".to_string())).unwrap_err(),
        "IO_ERROR: true_id must not be empty"
    );
    assert_eq!(
        label_assignment("f", "t", true, Err("IO_ERROR: permission denied".to_string())).unwrap_err(),
        "IO_ERROR: permission denied"
    );
    assert_eq!(
        label_assignment("f", "t", true, Err("corrupted".to_string())).unwrap_err(),
        "IO_ERROR: corrupted"
    );
    assert_eq!(alias_defined("main_function", "0123"), "OK: alias 'main_function' defined for true_id '0123'");
}

#[test]
fn test_label_name_collision() {
    let content = "fn main() {\n    println!(\"Hello\");\n}\nfn foo() {\n    println!(\"World\");\n}\n";
    let label1 = read(content.as_bytes(), "fn main() {\n    println!(\"Hello\");\n}".as_bytes()).unwrap().scope_hash;
    assert!(label_assignment("func", &label1, true, Err("IO_ERROR: file not found".to_string())).is_ok());
    let label2 = read(content.as_bytes(), "fn foo() {\n    println!(\"World\");\n}".as_bytes()).unwrap().scope_hash;
    let err = label_assignment("func", &label2, true, Ok(label1.clone())).unwrap_err();
    assert!(err.contains("LABEL_EXISTS"));
}

#[test]
fn tree_lines() {
    assert_eq!(tree_line(&[], true, "abc", "lbl"), "└── abc  [lbl]");
    assert_eq!(tree_line(&[], false, "abc", "abc"), "├── abc  [abc]");
    assert_eq!(tree_line(&[false, true], true, "x", "y"), "│       └── x  [y]");
    assert_eq!(tree_line(&[true, false], false, "x", "y"), "    │   ├── x  [y]");
}

#[test]
fn tree_aliases() {
    let labels = vec![
        ("a.json".to_string(), "t1".to_string()),
        ("b.json".to_string(), "t2".to_string()),
        ("c.json.json".to_string(), "t2".to_string()),
    ];
    assert_eq!(alias_for_true_id("t2", &labels), "b");
    assert_eq!(alias_for_true_id("t1", &labels), "a");
    assert_eq!(alias_for_true_id("t3", &labels), "t3");
    assert_eq!(alias_for_true_id("t3", &Vec::new()), "t3");
    let labels = vec![("c.json.json".to_string(), "t2".to_string())];
    assert_eq!(alias_for_true_id("t2", &labels), "c");
}

#[test]
fn io_error_messages() {
    assert_eq!(io_error_message("IO_ERROR: x".to_string()), "IO_ERROR: x");
    assert_eq!(io_error_message("x".to_string()), "IO_ERROR: x");
    assert_eq!(io_error_message("IO_ERROR".to_string()), "IO_ERROR: IO_ERROR");
}

#[test]
fn alias_names() {
    assert_eq!(alias_name("greeting.json"), "greeting");
    assert_eq!(alias_name("a.json.json"), "a");
    assert_eq!(alias_name("plain"), "plain");
    assert_eq!(alias_name(".json"), "");
    assert_eq!(alias_name("json"), "json");
    assert_eq!(alias_name("b.jsonx"), "b.jsonx");
}
