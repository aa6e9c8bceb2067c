//! One-line descriptions of tool calls.

use stemcell_tui::tool_description::{describe_tool_call, format_tool_description, get_input_ci, InputValue, ToolInput};

fn input(fields: &[(&str, InputValue)]) -> ToolInput {
    ToolInput {
        fields: fields.iter().map(|(k, v)| (k.to_string(), v.clone())).collect(),
    }
}

fn s(v: &str) -> InputValue {
    InputValue::Str(v.to_string())
}

#[test]
fn bash_and_file_tools() {
    assert_eq!(format_tool_description("bash", &input(&[("command", s("ls -la"))])), "bash: ls -la");
    assert_eq!(format_tool_description("bash", &input(&[])), "bash: ?");
    assert_eq!(format_tool_description("read_file", &input(&[("path", s("/a.txt"))])), "Read /a.txt");
    assert_eq!(format_tool_description("read", &input(&[("file_path", s("/b"))])), "Read /b");
    assert_eq!(format_tool_description("write", &input(&[("filePath", s("/c"))])), "Write /c");
    assert_eq!(format_tool_description("edit_file", &input(&[("FILE_PATH", s("/d"))])), "Edit /d");
    assert_eq!(format_tool_description("ls", &input(&[])), "ls .");
}

#[test]
fn non_string_path_does_not_fall_back() {
    // `path` is present but not a string: the later keys are not consulted.
    let i = input(&[("file_path", s("/x")), ("path", InputValue::UInt(3))]);
    assert_eq!(format_tool_description("read_file", &i), "Read ?");
}

#[test]
fn case_insensitive_lookup_prefers_exact_key() {
    let i = input(&[("Command", s("first")), ("command", s("second"))]);
    assert_eq!(get_input_ci(&i, "command"), Some(1));
    assert_eq!(get_input_ci(&i, "COMMAND"), Some(0));
    assert_eq!(get_input_ci(&i, "missing"), None);
    assert_eq!(format_tool_description("bash", &i), "bash: second");
}

#[test]
fn search_and_pattern_tools() {
    assert_eq!(format_tool_description("glob", &input(&[("pattern", s("*.rs"))])), "Glob *.rs");
    assert_eq!(format_tool_description("grep", &input(&[("pattern", s("fn"))])), "Grep 'fn'");
    assert_eq!(
        format_tool_description("grep", &input(&[("pattern", s("fn")), ("path", s("src"))])),
        "Grep 'fn' in src"
    );
    assert_eq!(format_tool_description("grep", &input(&[("path", s(""))])), "Grep '?'");
    assert_eq!(format_tool_description("web_search", &input(&[("query", s("rust"))])), "Search: rust");
    assert_eq!(format_tool_description("exa_search", &input(&[])), "EXA search: ?");
    assert_eq!(format_tool_description("brave_search", &input(&[("query", s("q"))])), "Brave search: q");
    assert_eq!(format_tool_description("lsp", &input(&[("operation", s("hover"))])), "LSP hover");
}

#[test]
fn http_request_defaults_to_get() {
    assert_eq!(format_tool_description("http_request", &input(&[("url", s("https://x"))])), "GET https://x");
    assert_eq!(
        format_tool_description("http_request", &input(&[("url", s("u")), ("method", s("POST"))])),
        "POST u"
    );
}

#[test]
fn execute_code_shows_first_line() {
    assert_eq!(format_tool_description("execute_code", &input(&[("language", s("python"))])), "Execute python");
    assert_eq!(
        format_tool_description("execute_code", &input(&[("language", s("py")), ("code", s("print(1)\r\nprint(2)"))])),
        "py: print(1)"
    );
    let long = "x".repeat(100);
    let expected = format!("?: {}…", "x".repeat(80));
    assert_eq!(format_tool_description("execute_code", &input(&[("code", s(&long))])), expected);
}

#[test]
fn plan_operations() {
    let plan = |fields: &[(&str, InputValue)]| format_tool_description("plan", &input(fields));
    assert_eq!(plan(&[("operation", s("create")), ("title", s("T"))]), "Plan: create 'T'");
    assert_eq!(plan(&[("operation", s("create")), ("name", s("N"))]), "Plan: create 'N'");
    assert_eq!(plan(&[("operation", s("create"))]), "Plan: create 'plan'");
    assert_eq!(plan(&[("operation", s("add_task"))]), "Plan: add task 'task'");
    assert_eq!(plan(&[("operation", s("finalize"))]), "Plan: finalize — awaiting approval");
    assert_eq!(plan(&[("operation", s("start_task")), ("task_id", InputValue::UInt(42))]), "Plan: start task #42");
    assert_eq!(plan(&[("operation", s("complete_task")), ("task_id", InputValue::UInt(0))]), "Plan: complete task #0");
    assert_eq!(plan(&[("operation", s("update_task")), ("task_id", s("7"))]), "Plan: update task #?");
    assert_eq!(plan(&[("operation", s("summary"))]), "Plan: summary");
    assert_eq!(plan(&[("operation", s("get_status"))]), "Plan: status");
    assert_eq!(plan(&[("operation", s("other"))]), "Plan: other");
    assert_eq!(plan(&[]), "Plan: ?");
}

#[test]
fn misc_tools_and_unknown_names() {
    assert_eq!(format_tool_description("session_context", &input(&[])), "Session context");
    assert_eq!(format_tool_description("agent", &input(&[("description", s("scan"))])), "Agent: scan");
    // The agent description uses the exact key only.
    assert_eq!(format_tool_description("Agent", &input(&[("Description", s("scan"))])), "Agent: agent task");
    assert_eq!(format_tool_description("notebook_edit", &input(&[("notebook_path", s("n.ipynb"))])), "Notebook n.ipynb");
    assert_eq!(format_tool_description("parse_document", &input(&[("path", s("a.pdf"))])), "Parse a.pdf");
    assert_eq!(format_tool_description("task_manager", &input(&[("operation", s("list"))])), "Task: list");
    assert_eq!(format_tool_description("my_custom_tool", &input(&[("x", s("y"))])), "my_custom_tool");
}

#[test]
fn describe_refuses_a_cut_inside_a_char() {
    let ok = input(&[("language", s("py")), ("code", s("print(1)"))]);
    assert_eq!(describe_tool_call("execute_code", &ok), Some(format_tool_description("execute_code", &ok)));
    let long = format!("{}é{}", "x".repeat(79), "y".repeat(10));
    let bad = input(&[("language", s("py")), ("code", s(&long))]);
    assert_eq!(describe_tool_call("execute_code", &bad), None);
    assert_eq!(describe_tool_call("custom_tool", &bad), Some("custom_tool".to_string()));
}
