//! One-line, human-readable descriptions of tool calls for the chat view,
//! built from the tool's name and the fields of its JSON input.

use vstd::prelude::*;
use vstd::string::StringSliceAdditionalSpecFns;
use vstd::utf8::*;
use crate::input_edit::{char_index_at_byte, char_index_of, lemma_boundary_char_offset};
use crate::text::{chars_eq, str_chars, string_from_chars, sub_chars};
use crate::unicode::{str_to_lowercase, unicode_lowercase};

verus! {

/// A JSON value as far as the descriptions read it: a string, a number that
/// fits a `u64`, or anything else.
#[derive(Clone, Debug, PartialEq, Eq)]
pub enum InputValue {
    Str(String),
    UInt(u64),
    Other,
}

/// The fields of a tool's JSON input object, in the order the object lists
/// them. A non-object input has no fields.
#[derive(Clone, Debug)]
pub struct ToolInput {
    pub fields: Vec<(String, InputValue)>,
}

/// Index of the first field named exactly `key`, from index `i` on.
pub open spec fn find_exact(f: Seq<(String, InputValue)>, key: Seq<char>, i: int) -> Option<int>
    decreases f.len() - i,
{
    if i < 0 || i >= f.len() {
        None
    } else if f[i].0@ == key {
        Some(i)
    } else {
        find_exact(f, key, i + 1)
    }
}

/// Index of the first field whose lowercased name equals the lowercased
/// `key`, from index `i` on.
pub open spec fn find_folded(f: Seq<(String, InputValue)>, key: Seq<char>, i: int) -> Option<int>
    decreases f.len() - i,
{
    if i < 0 || i >= f.len() {
        None
    } else if unicode_lowercase(f[i].0@) == unicode_lowercase(key) {
        Some(i)
    } else {
        find_folded(f, key, i + 1)
    }
}

/// Field lookup that tolerates the model's casing: the exact key first,
/// else the first key equal to it ignoring case.
pub open spec fn find_ci(f: Seq<(String, InputValue)>, key: Seq<char>) -> Option<int> {
    match find_exact(f, key, 0) {
        Some(i) => Some(i),
        None => find_folded(f, key, 0),
    }
}

/// The string held by the field at `idx`, if there is one and it holds a
/// string.
pub open spec fn str_at(f: Seq<(String, InputValue)>, idx: Option<int>) -> Option<Seq<char>> {
    match idx {
        Some(i) => match f[i].1 {
            InputValue::Str(s) => Some(s@),
            _ => None,
        },
        None => None,
    }
}

/// The number held by the field at `idx`, if there is one and it holds an
/// unsigned integer.
pub open spec fn u64_at(f: Seq<(String, InputValue)>, idx: Option<int>) -> Option<u64> {
    match idx {
        Some(i) => match f[i].1 {
            InputValue::UInt(n) => Some(n),
            _ => None,
        },
        None => None,
    }
}

/// The string of field `key` (case-tolerant lookup).
pub open spec fn ci_str(f: Seq<(String, InputValue)>, key: Seq<char>) -> Option<Seq<char>> {
    str_at(f, find_ci(f, key))
}

/// `o`, or `d` when absent.
pub open spec fn or_default(o: Option<Seq<char>>, d: Seq<char>) -> Seq<char> {
    match o {
        Some(s) => s,
        None => d,
    }
}

/// The first present of three lookups.
pub open spec fn first_some(a: Option<int>, b: Option<int>, c: Option<int>) -> Option<int> {
    if a is Some {
        a
    } else if b is Some {
        b
    } else {
        c
    }
}

/// The file path of a file tool: the first present of `path`, `file_path`
/// and `filePath`, if it holds a string.
pub open spec fn file_path_str(f: Seq<(String, InputValue)>) -> Option<Seq<char>> {
    str_at(
        f,
        first_some(find_ci(f, "path"@), find_ci(f, "file_path"@), find_ci(f, "filePath"@)),
    )
}

/// The decimal digit char of `d < 10`.
pub open spec fn digit_char(d: int) -> char {
    if d == 0 {
        '0'
    } else if d == 1 {
        '1'
    } else if d == 2 {
        '2'
    } else if d == 3 {
        '3'
    } else if d == 4 {
        '4'
    } else if d == 5 {
        '5'
    } else if d == 6 {
        '6'
    } else if d == 7 {
        '7'
    } else if d == 8 {
        '8'
    } else {
        '9'
    }
}

/// Decimal representation of `n`, without leading zeros.
pub open spec fn decimal(n: nat) -> Seq<char>
    decreases n,
{
    if n < 10 {
        seq![digit_char(n as int)]
    } else {
        decimal(n / 10) + seq![digit_char((n % 10) as int)]
    }
}

/// First line of `code` as `str::lines` yields it: up to the first `\n`,
/// without one trailing `\r`.
pub open spec fn first_line(code: Seq<char>) -> Seq<char> {
    let end = first_newline(code, 0);
    let line = code.take(end);
    if line.len() > 0 && line.last() == '\r' {
        line.drop_last()
    } else {
        line
    }
}

/// Index of the first `\n` in `s` from `i` on, or `s.len()`.
pub open spec fn first_newline(s: Seq<char>, i: int) -> int
    decreases s.len() - i,
{
    if i < 0 || i >= s.len() {
        s.len() as int
    } else if s[i] == '\n' {
        i
    } else {
        first_newline(s, i + 1)
    }
}

/// The first line of a code snippet as shown: cut after its first 80 bytes
/// and marked with an ellipsis when longer.
pub open spec fn shown_line(line: Seq<char>) -> Seq<char> {
    if encode_utf8(line).len() > 80 {
        line.take(char_index_of(line, 80)) + "…"@
    } else {
        line
    }
}

/// The first line of a code snippet can be cut after 80 bytes: it is
/// shorter, or byte 80 starts a char.
pub open spec fn cut_ok(line: Seq<char>) -> bool {
    encode_utf8(line).len() > 80 ==> is_char_boundary(encode_utf8(line), 80)
}

/// Description of an `execute_code` call.
pub open spec fn execute_code_description(f: Seq<(String, InputValue)>) -> Seq<char> {
    let lang = or_default(ci_str(f, "language"@), "?"@);
    let code = or_default(ci_str(f, "code"@), Seq::empty());
    if code.len() == 0 {
        "Execute "@ + lang
    } else {
        lang + ": "@ + shown_line(first_line(code))
    }
}

/// The task id of a plan call as text, `?` when absent.
pub open spec fn task_id_text(f: Seq<(String, InputValue)>) -> Seq<char> {
    match u64_at(f, find_ci(f, "task_id"@)) {
        Some(n) => decimal(n as nat),
        None => "?"@,
    }
}

/// Description of a `plan` call, by its operation.
pub open spec fn plan_description(f: Seq<(String, InputValue)>) -> Seq<char> {
    let op = or_default(ci_str(f, "operation"@), "?"@);
    if op == "create"@ {
        let name = or_default(
            str_at(f, first_some(find_ci(f, "title"@), find_ci(f, "name"@), None)),
            "plan"@,
        );
        "Plan: create '"@ + name + "'"@
    } else if op == "add_task"@ {
        "Plan: add task '"@ + or_default(ci_str(f, "title"@), "task"@) + "'"@
    } else if op == "finalize"@ {
        "Plan: finalize — awaiting approval"@
    } else if op == "start_task"@ {
        "Plan: start task #"@ + task_id_text(f)
    } else if op == "complete_task"@ {
        "Plan: complete task #"@ + task_id_text(f)
    } else if op == "update_task"@ {
        "Plan: update task #"@ + task_id_text(f)
    } else if op == "summary"@ {
        "Plan: summary"@
    } else if op == "get_status"@ {
        "Plan: status"@
    } else {
        "Plan: "@ + op
    }
}

/// Description of a `grep` call.
pub open spec fn grep_description(f: Seq<(String, InputValue)>) -> Seq<char> {
    let pattern = or_default(ci_str(f, "pattern"@), "?"@);
    let path = or_default(ci_str(f, "path"@), Seq::empty());
    if path.len() == 0 {
        "Grep '"@ + pattern + "'"@
    } else {
        "Grep '"@ + pattern + "' in "@ + path
    }
}

/// Description of a call of a tool without a dedicated format for a name
/// in the first group (search tools and single-field tools).
pub open spec fn simple_description(name: Seq<char>, f: Seq<(String, InputValue)>) -> Option<
    Seq<char>,
> {
    if name == "bash"@ {
        Some("bash: "@ + or_default(ci_str(f, "command"@), "?"@))
    } else if name == "read_file"@ || name == "read"@ {
        Some("Read "@ + or_default(file_path_str(f), "?"@))
    } else if name == "write_file"@ || name == "write"@ {
        Some("Write "@ + or_default(file_path_str(f), "?"@))
    } else if name == "edit_file"@ || name == "edit"@ {
        Some("Edit "@ + or_default(file_path_str(f), "?"@))
    } else if name == "ls"@ {
        Some("ls "@ + or_default(ci_str(f, "path"@), "."@))
    } else if name == "glob"@ {
        Some("Glob "@ + or_default(ci_str(f, "pattern"@), "?"@))
    } else if name == "lsp"@ {
        Some("LSP "@ + or_default(ci_str(f, "operation"@), "?"@))
    } else if name == "web_search"@ {
        Some("Search: "@ + or_default(ci_str(f, "query"@), "?"@))
    } else if name == "exa_search"@ {
        Some("EXA search: "@ + or_default(ci_str(f, "query"@), "?"@))
    } else if name == "brave_search"@ {
        Some("Brave search: "@ + or_default(ci_str(f, "query"@), "?"@))
    } else if name == "notebook_edit"@ {
        Some("Notebook "@ + or_default(ci_str(f, "notebook_path"@), "?"@))
    } else if name == "parse_document"@ {
        Some("Parse "@ + or_default(ci_str(f, "path"@), "?"@))
    } else if name == "task_manager"@ {
        Some("Task: "@ + or_default(ci_str(f, "operation"@), "?"@))
    } else {
        None
    }
}

/// The description of a call of tool `name` with input fields `f`.
pub open spec fn tool_description_spec(name: Seq<char>, f: Seq<(String, InputValue)>) -> Seq<char> {
    match simple_description(name, f) {
        Some(d) => d,
        None => if name == "grep"@ {
            grep_description(f)
        } else if name == "http_request"@ {
            or_default(ci_str(f, "method"@), "GET"@) + " "@ + or_default(ci_str(f, "url"@), "?"@)
        } else if name == "execute_code"@ {
            execute_code_description(f)
        } else if name == "plan"@ {
            plan_description(f)
        } else if name == "session_context"@ {
            "Session context"@
        } else if name == "Agent"@ || name == "agent"@ {
            "Agent: "@ + or_default(str_at(f, find_exact(f, "description"@, 0)), "agent task"@)
        } else {
            name
        },
    }
}

/// The file tools name the file they act on: a read is described as
/// `Read <path>`, a write as `Write <path>`, an edit as `Edit <path>`
/// (the path taken from `path`, `file_path` or `filePath`, `?` when none
/// holds one); a shell call as `bash: <command>`.
pub proof fn law_file_tool_descriptions(f: Seq<(String, InputValue)>)
    ensures
        tool_description_spec("read_file"@, f) == "Read "@ + or_default(file_path_str(f), "?"@),
        tool_description_spec("read"@, f) == "Read "@ + or_default(file_path_str(f), "?"@),
        tool_description_spec("write_file"@, f) == "Write "@ + or_default(file_path_str(f), "?"@),
        tool_description_spec("write"@, f) == "Write "@ + or_default(file_path_str(f), "?"@),
        tool_description_spec("edit_file"@, f) == "Edit "@ + or_default(file_path_str(f), "?"@),
        tool_description_spec("edit"@, f) == "Edit "@ + or_default(file_path_str(f), "?"@),
        tool_description_spec("bash"@, f) == "bash: "@ + or_default(ci_str(f, "command"@), "?"@),
{
    reveal_strlit("bash");
    reveal_strlit("read_file");
    reveal_strlit("read");
    reveal_strlit("write_file");
    reveal_strlit("write");
    reveal_strlit("edit_file");
    reveal_strlit("edit");
    assert("read"@[0] != "bash"@[0]);
    assert("edit"@[0] != "bash"@[0]);
    assert("edit"@[0] != "read"@[0]);
    assert("edit_file"@[0] != "read_file"@[0]);
}

/// The other tools with a one-field format name that field after a short
/// label (a placeholder when it is missing); `session_context` calls are
/// described by a fixed text and HTTP requests by method and URL.
pub proof fn law_other_tool_descriptions(f: Seq<(String, InputValue)>)
    ensures
        tool_description_spec("ls"@, f) == "ls "@ + or_default(ci_str(f, "path"@), "."@),
        tool_description_spec("glob"@, f) == "Glob "@ + or_default(ci_str(f, "pattern"@), "?"@),
        tool_description_spec("lsp"@, f) == "LSP "@ + or_default(ci_str(f, "operation"@), "?"@),
        tool_description_spec("web_search"@, f) == "Search: "@ + or_default(ci_str(f, "query"@), "?"@),
        tool_description_spec("exa_search"@, f) == "EXA search: "@ + or_default(ci_str(f, "query"@), "?"@),
        tool_description_spec("brave_search"@, f) == "Brave search: "@ + or_default(
            ci_str(f, "query"@),
            "?"@,
        ),
        tool_description_spec("notebook_edit"@, f) == "Notebook "@ + or_default(
            ci_str(f, "notebook_path"@),
            "?"@,
        ),
        tool_description_spec("parse_document"@, f) == "Parse "@ + or_default(ci_str(f, "path"@), "?"@),
        tool_description_spec("task_manager"@, f) == "Task: "@ + or_default(
            ci_str(f, "operation"@),
            "?"@,
        ),
        tool_description_spec("session_context"@, f) == "Session context"@,
        tool_description_spec("http_request"@, f) == or_default(ci_str(f, "method"@), "GET"@) + " "@
            + or_default(ci_str(f, "url"@), "?"@),
{
    reveal_strlit("bash");
    reveal_strlit("read_file");
    reveal_strlit("read");
    reveal_strlit("write_file");
    reveal_strlit("write");
    reveal_strlit("edit_file");
    reveal_strlit("edit");
    reveal_strlit("ls");
    reveal_strlit("glob");
    reveal_strlit("lsp");
    reveal_strlit("web_search");
    reveal_strlit("exa_search");
    reveal_strlit("brave_search");
    reveal_strlit("notebook_edit");
    reveal_strlit("parse_document");
    reveal_strlit("task_manager");
    reveal_strlit("session_context");
    reveal_strlit("http_request");
    reveal_strlit("grep");
    reveal_strlit("execute_code");
    reveal_strlit("plan");
    assert("ls"@.len() == 2 && "bash"@.len() == 4 && "read"@.len() == 4 && "edit"@.len() == 4);
    assert("write"@.len() == 5 && "read_file"@.len() == 9 && "write_file"@.len() == 10);
    assert("edit_file"@.len() == 9 && "glob"@.len() == 4 && "lsp"@.len() == 3);
    assert("web_search"@.len() == 10 && "exa_search"@.len() == 10 && "brave_search"@.len() == 12);
    assert("notebook_edit"@.len() == 13 && "parse_document"@.len() == 14);
    assert("task_manager"@.len() == 12 && "session_context"@.len() == 15);
    assert("http_request"@.len() == 12 && "grep"@.len() == 4 && "execute_code"@.len() == 12);
    assert("plan"@.len() == 4);
    assert("glob"@[0] != "bash"@[0] && "glob"@[0] != "read"@[0] && "glob"@[0] != "edit"@[0]);
    assert("web_search"@[1] != "write_file"@[1] && "exa_search"@[0] != "write_file"@[0]);
    assert("exa_search"@[0] != "web_search"@[0]);
    assert("task_manager"@[0] != "brave_search"@[0]);
    assert("http_request"@[0] != "brave_search"@[0] && "http_request"@[0] != "task_manager"@[0]);
}

/// With a `path` field first holding the text `p`, a file tool's
/// description names `p`.
pub proof fn law_file_tool_names_its_path(f: Seq<(String, InputValue)>, p: Seq<char>)
    requires
        f.len() > 0,
        f[0].0@ == "path"@,
        f[0].1 matches InputValue::Str(x) && x@ == p,
    ensures
        tool_description_spec("read_file"@, f) == "Read "@ + p,
        tool_description_spec("write_file"@, f) == "Write "@ + p,
        tool_description_spec("edit_file"@, f) == "Edit "@ + p,
{
    law_file_tool_descriptions(f);
    assert(find_exact(f, "path"@, 0) == Some(0int));
    assert(file_path_str(f) == Some(p));
}

/// Inputs on which describing a call does not fail: the first line of an
/// `execute_code` snippet longer than 80 bytes must have a char boundary at
/// byte 80.
pub open spec fn description_ok(name: Seq<char>, f: Seq<(String, InputValue)>) -> bool {
    name == "execute_code"@ ==> cut_ok(first_line(or_default(ci_str(f, "code"@), Seq::empty())))
}

/// Appends the chars of `s`.
fn push_str(out: &mut Vec<char>, s: &str)
    ensures
        final(out)@ == old(out)@ + s@,
{
    let mut c = str_chars(s);
    out.append(&mut c);
}

/// Whether `a` spells `b`.
fn same(a: &[char], b: &str) -> (r: bool)
    ensures
        r == (a@ == b@),
{
    let bc = str_chars(b);
    chars_eq(a, &bc)
}

/// Index of the input field for `key`: the exact key, else the first key
/// equal to it ignoring case.
pub fn get_input_ci(input: &ToolInput, key: &str) -> (r: Option<usize>)
    ensures
        match r {
            Some(i) => find_ci(input.fields@, key@) == Some(i as int),
            None => find_ci(input.fields@, key@) is None,
        },
{
    let f = &input.fields;
    assert(f@ == input.fields@);
    let kc = str_chars(key);
    let mut i: usize = 0;
    while i < f.len()
        invariant
            kc@ == key@,
            i <= f@.len(),
            find_exact(f@, key@, 0) == find_exact(f@, key@, i as int),
            f@ == input.fields@,
        decreases f@.len() - i,
    {
        let name = str_chars(f[i].0.as_str());
        if chars_eq(&name, &kc) {
            assert(f@[i as int].0@ == key@);
            assert(find_exact(f@, key@, i as int) == Some(i as int));
            return Some(i);
        }
        i += 1;
    }
    let lower_key = str_to_lowercase(key);
    let lk = str_chars(lower_key.as_str());
    let mut j: usize = 0;
    while j < f.len()
        invariant
            lk@ == unicode_lowercase(key@),
            j <= f@.len(),
            find_exact(f@, key@, 0) is None,
            find_folded(f@, key@, 0) == find_folded(f@, key@, j as int),
            f@ == input.fields@,
        decreases f@.len() - j,
    {
        let lower = str_to_lowercase(f[j].0.as_str());
        let lc = str_chars(lower.as_str());
        if chars_eq(&lc, &lk) {
            return Some(j);
        }
        j += 1;
    }
    None
}

/// The string of the field at `idx`, if it holds one.
fn str_field<'a>(input: &'a ToolInput, idx: Option<usize>) -> (r: Option<&'a str>)
    requires
        idx matches Some(i) ==> i < input.fields@.len(),
    ensures
        match r {
            Some(s) => str_at(input.fields@, match idx {
                Some(i) => Some(i as int),
                None => None,
            }) == Some(s@),
            None => str_at(input.fields@, match idx {
                Some(i) => Some(i as int),
                None => None,
            }) is None,
        },
{
    match idx {
        Some(i) => match &input.fields[i].1 {
            InputValue::Str(s) => Some(s.as_str()),
            _ => None,
        },
        None => None,
    }
}

proof fn lemma_find_bounds(f: Seq<(String, InputValue)>, key: Seq<char>, i: int)
    requires
        0 <= i,
    ensures
        find_exact(f, key, i) matches Some(j) ==> i <= j < f.len(),
        find_folded(f, key, i) matches Some(j) ==> i <= j < f.len(),
    decreases f.len() - i,
{
    if i < f.len() {
        lemma_find_bounds(f, key, i + 1);
    }
}

/// The string of field `key`, looked up case-tolerantly.
fn ci_field<'a>(input: &'a ToolInput, key: &str) -> (r: Option<&'a str>)
    ensures
        match r {
            Some(s) => ci_str(input.fields@, key@) == Some(s@),
            None => ci_str(input.fields@, key@) is None,
        },
{
    let idx = get_input_ci(input, key);
    proof {
        lemma_find_bounds(input.fields@, key@, 0);
    }
    str_field(input, idx)
}

/// Appends `o`, or `d` when absent.
fn push_or(out: &mut Vec<char>, o: Option<&str>, d: &str)
    ensures
        final(out)@ == old(out)@ + or_default(
            match o {
                Some(s) => Some(s@),
                None => None,
            },
            d@,
        ),
{
    match o {
        Some(s) => push_str(out, s),
        None => push_str(out, d),
    }
}

/// Appends the decimal digits of `n`.
fn push_decimal(out: &mut Vec<char>, n: u64)
    ensures
        final(out)@ == old(out)@ + decimal(n as nat),
    decreases n,
{
    if n >= 10 {
        push_decimal(out, n / 10);
    }
    let d = n % 10;
    let c = if d == 0 {
        '0'
    } else if d == 1 {
        '1'
    } else if d == 2 {
        '2'
    } else if d == 3 {
        '3'
    } else if d == 4 {
        '4'
    } else if d == 5 {
        '5'
    } else if d == 6 {
        '6'
    } else if d == 7 {
        '7'
    } else if d == 8 {
        '8'
    } else {
        '9'
    };
    out.push(c);
    assert(out@ =~= old(out)@ + decimal(n as nat));
}

/// The string of the field at the first present of three lookups.
fn first_str<'a>(input: &'a ToolInput, a: &str, b: &str, c: &str) -> (r: Option<&'a str>)
    ensures
        match r {
            Some(s) => str_at(
                input.fields@,
                first_some(find_ci(input.fields@, a@), find_ci(input.fields@, b@), find_ci(input.fields@, c@)),
            ) == Some(s@),
            None => str_at(
                input.fields@,
                first_some(find_ci(input.fields@, a@), find_ci(input.fields@, b@), find_ci(input.fields@, c@)),
            ) is None,
        },
{
    proof {
        lemma_find_bounds(input.fields@, a@, 0);
        lemma_find_bounds(input.fields@, b@, 0);
        lemma_find_bounds(input.fields@, c@, 0);
    }
    let ia = get_input_ci(input, a);
    let idx = if ia.is_some() {
        ia
    } else {
        let ib = get_input_ci(input, b);
        if ib.is_some() {
            ib
        } else {
            get_input_ci(input, c)
        }
    };
    str_field(input, idx)
}

/// `"<prefix><field or default>"`.
fn prefixed(prefix: &str, value: Option<&str>, default: &str) -> (r: Vec<char>)
    ensures
        r@ == prefix@ + or_default(
            match value {
                Some(s) => Some(s@),
                None => None,
            },
            default@,
        ),
{
    let mut out: Vec<char> = Vec::new();
    push_str(&mut out, prefix);
    push_or(&mut out, value, default);
    out
}

/// Descriptions of the tools with a one-field format.
fn simple_desc(name: &[char], input: &ToolInput) -> (r: Option<Vec<char>>)
    ensures
        match r {
            Some(v) => simple_description(name@, input.fields@) == Some(v@),
            None => simple_description(name@, input.fields@) is None,
        },
{
    if same(name, "bash") {
        Some(prefixed("bash: ", ci_field(input, "command"), "?"))
    } else if same(name, "read_file") || same(name, "read") {
        Some(prefixed("Read ", first_str(input, "path", "file_path", "filePath"), "?"))
    } else if same(name, "write_file") || same(name, "write") {
        Some(prefixed("Write ", first_str(input, "path", "file_path", "filePath"), "?"))
    } else if same(name, "edit_file") || same(name, "edit") {
        Some(prefixed("Edit ", first_str(input, "path", "file_path", "filePath"), "?"))
    } else if same(name, "ls") {
        Some(prefixed("ls ", ci_field(input, "path"), "."))
    } else if same(name, "glob") {
        Some(prefixed("Glob ", ci_field(input, "pattern"), "?"))
    } else if same(name, "lsp") {
        Some(prefixed("LSP ", ci_field(input, "operation"), "?"))
    } else if same(name, "web_search") {
        Some(prefixed("Search: ", ci_field(input, "query"), "?"))
    } else if same(name, "exa_search") {
        Some(prefixed("EXA search: ", ci_field(input, "query"), "?"))
    } else if same(name, "brave_search") {
        Some(prefixed("Brave search: ", ci_field(input, "query"), "?"))
    } else if same(name, "notebook_edit") {
        Some(prefixed("Notebook ", ci_field(input, "notebook_path"), "?"))
    } else if same(name, "parse_document") {
        Some(prefixed("Parse ", ci_field(input, "path"), "?"))
    } else if same(name, "task_manager") {
        Some(prefixed("Task: ", ci_field(input, "operation"), "?"))
    } else {
        None
    }
}

/// Description of a `grep` call.
fn grep_desc(input: &ToolInput) -> (r: Vec<char>)
    ensures
        r@ == grep_description(input.fields@),
{
    let mut out: Vec<char> = Vec::new();
    push_str(&mut out, "Grep '");
    push_or(&mut out, ci_field(input, "pattern"), "?");
    match ci_field(input, "path") {
        Some(p) => {
            if p.unicode_len() > 0 {
                push_str(&mut out, "' in ");
                push_str(&mut out, p);
            } else {
                push_str(&mut out, "'");
            }
        },
        None => {
            push_str(&mut out, "'");
        },
    }
    out
}

/// Description of an `http_request` call.
fn http_desc(input: &ToolInput) -> (r: Vec<char>)
    ensures
        r@ == or_default(ci_str(input.fields@, "method"@), "GET"@) + " "@ + or_default(
            ci_str(input.fields@, "url"@),
            "?"@,
        ),
{
    let mut out: Vec<char> = Vec::new();
    push_or(&mut out, ci_field(input, "method"), "GET");
    push_str(&mut out, " ");
    push_or(&mut out, ci_field(input, "url"), "?");
    out
}

/// The first line of a code snippet.
fn first_line_of(code: &[char]) -> (r: Vec<char>)
    ensures
        r@ == first_line(code@),
{
    let mut e: usize = 0;
    while e < code.len() && code[e] != '\n'
        invariant
            e <= code@.len(),
            first_newline(code@, 0) == first_newline(code@, e as int),
        decreases code@.len() - e,
    {
        e += 1;
    }
    let line = sub_chars(code, 0, e);
    assert(line@ =~= code@.take(e as int));
    if line.len() > 0 && line[line.len() - 1] == '\r' {
        let r = sub_chars(&line, 0, line.len() - 1);
        assert(r@ =~= line@.drop_last());
        r
    } else {
        line
    }
}

/// Description of an `execute_code` call.
fn execute_code_desc(input: &ToolInput) -> (r: Vec<char>)
    requires
        cut_ok(first_line(or_default(ci_str(input.fields@, "code"@), Seq::empty()))),
    ensures
        r@ == execute_code_description(input.fields@),
{
    let lang = ci_field(input, "language");
    let code = ci_field(input, "code");
    let code_chars = match code {
        Some(c) => str_chars(c),
        None => Vec::new(),
    };
    assert(code_chars@ == or_default(ci_str(input.fields@, "code"@), Seq::empty()));
    let mut out: Vec<char> = Vec::new();
    if code_chars.len() == 0 {
        push_str(&mut out, "Execute ");
        push_or(&mut out, lang, "?");
        return out;
    }
    push_or(&mut out, lang, "?");
    push_str(&mut out, ": ");
    let line = first_line_of(&code_chars);
    let line_str = string_from_chars(&line);
    let nbytes = line_str.as_str().as_bytes().len();
    if nbytes > 80 {
        proof {
            lemma_boundary_char_offset(line@, 80);
        }
        let k = char_index_at_byte(&line, 80);
        let mut head = sub_chars(&line, 0, k);
        assert(head@ =~= line@.take(k as int));
        out.append(&mut head);
        push_str(&mut out, "…");
    } else {
        let mut all = line;
        out.append(&mut all);
    }
    out
}

/// Appends the task id of a plan call, `?` when absent.
fn push_task_id(out: &mut Vec<char>, input: &ToolInput)
    ensures
        final(out)@ == old(out)@ + task_id_text(input.fields@),
{
    let idx = get_input_ci(input, "task_id");
    proof {
        lemma_find_bounds(input.fields@, "task_id"@, 0);
    }
    match idx {
        Some(i) => match &input.fields[i].1 {
            InputValue::UInt(n) => push_decimal(out, *n),
            _ => push_str(out, "?"),
        },
        None => push_str(out, "?"),
    }
}

/// Description of a `plan` call.
fn plan_desc(input: &ToolInput) -> (r: Vec<char>)
    ensures
        r@ == plan_description(input.fields@),
{
    let op = match ci_field(input, "operation") {
        Some(s) => str_chars(s),
        None => str_chars("?"),
    };
    assert(op@ == or_default(ci_str(input.fields@, "operation"@), "?"@));
    let mut out: Vec<char> = Vec::new();
    if same(&op, "create") {
        push_str(&mut out, "Plan: create '");
        proof {
            lemma_find_bounds(input.fields@, "title"@, 0);
            lemma_find_bounds(input.fields@, "name"@, 0);
        }
        let t = get_input_ci(input, "title");
        let idx = if t.is_some() {
            t
        } else {
            get_input_ci(input, "name")
        };
        let name = str_field(input, idx);
        push_or(&mut out, name, "plan");
        push_str(&mut out, "'");
    } else if same(&op, "add_task") {
        push_str(&mut out, "Plan: add task '");
        push_or(&mut out, ci_field(input, "title"), "task");
        push_str(&mut out, "'");
    } else if same(&op, "finalize") {
        push_str(&mut out, "Plan: finalize — awaiting approval");
    } else if same(&op, "start_task") {
        push_str(&mut out, "Plan: start task #");
        push_task_id(&mut out, input);
    } else if same(&op, "complete_task") {
        push_str(&mut out, "Plan: complete task #");
        push_task_id(&mut out, input);
    } else if same(&op, "update_task") {
        push_str(&mut out, "Plan: update task #");
        push_task_id(&mut out, input);
    } else if same(&op, "summary") {
        push_str(&mut out, "Plan: summary");
    } else if same(&op, "get_status") {
        push_str(&mut out, "Plan: status");
    } else {
        push_str(&mut out, "Plan: ");
        let mut o = op;
        out.append(&mut o);
    }
    out
}

/// Description of an agent call: its `description` field (exact key only).
fn agent_desc(input: &ToolInput) -> (r: Vec<char>)
    ensures
        r@ == "Agent: "@ + or_default(
            str_at(input.fields@, find_exact(input.fields@, "description"@, 0)),
            "agent task"@,
        ),
{
    let f = &input.fields;
    let key = str_chars("description");
    let mut i: usize = 0;
    let mut found: Option<usize> = None;
    proof {
        lemma_find_bounds(input.fields@, "description"@, 0);
    }
    while i < f.len()
        invariant
            key@ == "description"@,
            f@ == input.fields@,
            i <= f@.len(),
            found is None ==> find_exact(f@, "description"@, 0) == find_exact(
                f@,
                "description"@,
                i as int,
            ),
            found matches Some(j) ==> find_exact(f@, "description"@, 0) == Some(j as int),
        decreases f@.len() - i,
    {
        if found.is_none() {
            let n = str_chars(f[i].0.as_str());
            if chars_eq(&n, &key) {
                found = Some(i);
            }
        }
        i += 1;
    }
    let mut out: Vec<char> = Vec::new();
    push_str(&mut out, "Agent: ");
    push_or(&mut out, str_field(input, found), "agent task");
    out
}

/// A one-line description of a call of tool `tool_name` with input
/// `tool_input`, as shown in the chat's tool-call groups: the tool's key
/// argument (command, path, pattern, query, ...) after a short label, the
/// plan operation for `plan` calls, and the tool's own name for tools
/// without a format. Field names are matched exactly first, then ignoring
/// case; a missing or non-string argument shows as a placeholder.
pub fn format_tool_description(tool_name: &str, tool_input: &ToolInput) -> (r: String)
    requires
        description_ok(tool_name@, tool_input.fields@),
    ensures
        r@ == tool_description_spec(tool_name@, tool_input.fields@),
{
    let name = str_chars(tool_name);
    let out = match simple_desc(&name, tool_input) {
        Some(v) => v,
        None => if same(&name, "grep") {
            grep_desc(tool_input)
        } else if same(&name, "http_request") {
            http_desc(tool_input)
        } else if same(&name, "execute_code") {
            execute_code_desc(tool_input)
        } else if same(&name, "plan") {
            plan_desc(tool_input)
        } else if same(&name, "session_context") {
            str_chars("Session context")
        } else if same(&name, "Agent") || same(&name, "agent") {
            agent_desc(tool_input)
        } else {
            name
        },
    };
    string_from_chars(&out)
}

/// The description of a call of tool `tool_name` with input `tool_input`
/// (see `format_tool_description`), or `None` when it cannot be made: for
/// an `execute_code` call whose code's first line is longer than 80 bytes
/// and byte 80 falls inside a char, where the cut would split the char.
pub fn describe_tool_call(tool_name: &str, tool_input: &ToolInput) -> (r: Option<String>)
    ensures
        r is Some <==> description_ok(tool_name@, tool_input.fields@),
        r matches Some(d) ==> d@ == tool_description_spec(tool_name@, tool_input.fields@),
{
    let name = str_chars(tool_name);
    if same(&name, "execute_code") {
        let code = ci_field(tool_input, "code");
        let code_chars = match code {
            Some(c) => str_chars(c),
            None => Vec::new(),
        };
        assert(code_chars@ == or_default(ci_str(tool_input.fields@, "code"@), Seq::empty()));
        let line = first_line_of(&code_chars);
        let line_str = string_from_chars(&line);
        let nbytes = line_str.as_str().as_bytes().len();
        if nbytes > 80 && !line_str.as_str().is_char_boundary(80) {
            return None;
        }
    }
    Some(format_tool_description(tool_name, tool_input))
}

} // verus!
