//! The tools offered to the model, and how a tool call becomes a piece of code
//! for one of the executors.
use vstd::prelude::*;
use crate::text::{append, same_text};
use crate::types::{ToolCall, ToolCallView};

verus! {

/// A tool offered to the model: a function with one required string parameter.
pub struct ToolSpec {
    pub name: String,
    pub description: String,
    pub parameter: String,
    pub parameter_description: String,
}

pub struct ToolSpecView {
    pub name: Seq<char>,
    pub description: Seq<char>,
    pub parameter: Seq<char>,
    pub parameter_description: Seq<char>,
}

impl View for ToolSpec {
    type V = ToolSpecView;

    open spec fn view(&self) -> ToolSpecView {
        ToolSpecView {
            name: self.name@,
            description: self.description@,
            parameter: self.parameter@,
            parameter_description: self.parameter_description@,
        }
    }
}

pub open spec fn tool_spec(name: Seq<char>, description: Seq<char>, parameter: Seq<char>, parameter_description: Seq<char>) -> ToolSpecView {
    ToolSpecView { name, description, parameter, parameter_description }
}

/// The tools the interpreter offers, in order.
pub open spec fn offered_tools() -> Seq<ToolSpecView> {
    seq![
        tool_spec(
            "execute_bash"@,
            "Execute a bash command on the host system."@,
            "command"@,
            "The bash command to execute."@,
        ),
        tool_spec(
            "execute_python"@,
            "Execute Python code in an interactive session."@,
            "code"@,
            "The Python code to execute."@,
        ),
        tool_spec("web_search"@, "Search the web for information."@, "query"@, "The search query."@),
    ]
}

fn make_spec(name: &str, description: &str, parameter: &str, parameter_description: &str) -> (t: ToolSpec)
    ensures
        t@ == tool_spec(name@, description@, parameter@, parameter_description@),
{
    ToolSpec {
        name: String::from_str(name),
        description: String::from_str(description),
        parameter: String::from_str(parameter),
        parameter_description: String::from_str(parameter_description),
    }
}

/// The tools the interpreter offers to the model.
pub fn tool_specs() -> (r: Vec<ToolSpec>)
    ensures
        r@.map_values(|t: ToolSpec| t@) == offered_tools(),
{
    let mut r: Vec<ToolSpec> = Vec::new();
    r.push(
        make_spec(
            "execute_bash",
            "Execute a bash command on the host system.",
            "command",
            "The bash command to execute.",
        ),
    );
    r.push(
        make_spec(
            "execute_python",
            "Execute Python code in an interactive session.",
            "code",
            "The Python code to execute.",
        ),
    );
    r.push(make_spec("web_search", "Search the web for information.", "query", "The search query."));
    assert(r@.map_values(|t: ToolSpec| t@) =~= offered_tools());
    r
}

/// The string value of member `key` of the JSON object `json`, as serde_json reads it;
/// empty when `json` does not parse, is not an object, or the member is absent or not a string.
pub uninterp spec fn json_string_member(json: Seq<char>, key: Seq<char>) -> Seq<char>;

/// Reads one string member of a JSON object with `serde_json::from_str::<Value>`,
/// `Value::get` and `Value::as_str`. Claimed: the result is `json_string_member`
/// of the two arguments (empty on a parse error or a missing or non-string member).
#[verifier::external_body]
fn string_member(json: &str, key: &str) -> (r: String)
    ensures
        r@ == json_string_member(json@, key@),
{
    match serde_json::from_str::<serde_json::Value>(json) {
        Ok(v) => v.get(key).and_then(|x| x.as_str()).unwrap_or("").to_string(),
        Err(_) => String::new(),
    }
}

/// The executor language and the code that a tool call runs. A web search is handed
/// to the web executor as its `search <query>` command.
pub open spec fn tool_invocation(call: ToolCallView) -> (Seq<char>, Seq<char>) {
    if call.name == "execute_bash"@ {
        ("bash"@, json_string_member(call.arguments, "command"@))
    } else if call.name == "execute_python"@ {
        ("python"@, json_string_member(call.arguments, "code"@))
    } else if call.name == "web_search"@ {
        ("web"@, "search "@ + json_string_member(call.arguments, "query"@))
    } else {
        ("unknown"@, Seq::empty())
    }
}

/// The executor language and the code that `call` runs.
pub fn invocation_of(call: &ToolCall) -> (r: (String, String))
    ensures
        (r.0@, r.1@) == tool_invocation(call@),
{
    let name = call.name.as_str();
    if same_text(name, "execute_bash") {
        (String::from_str("bash"), string_member(call.arguments.as_str(), "command"))
    } else if same_text(name, "execute_python") {
        (String::from_str("python"), string_member(call.arguments.as_str(), "code"))
    } else if same_text(name, "web_search") {
        let mut code = String::from_str("search ");
        let query = string_member(call.arguments.as_str(), "query");
        append(&mut code, query.as_str());
        (String::from_str("web"), code)
    } else {
        (String::from_str("unknown"), String::new())
    }
}

} // verus!
