//! The command-line front: what a line typed at the prompt means, and how the
//! settings from the command line and the configuration file combine.
use vstd::prelude::*;
use crate::text::{same_text, trim, trim_str};

verus! {

/// What a line typed at the prompt asks for.
pub enum InputCommand {
    /// A blank line: prompt again.
    Skip,
    /// `exit` or `quit`: leave.
    Quit,
    /// Anything else: chat with this (trimmed) text.
    Chat(String),
}

#[verifier::ext_equal]
pub enum InputView {
    Skip,
    Quit,
    Chat(Seq<char>),
}

impl View for InputCommand {
    type V = InputView;

    open spec fn view(&self) -> InputView {
        match self {
            InputCommand::Skip => InputView::Skip,
            InputCommand::Quit => InputView::Quit,
            InputCommand::Chat(t) => InputView::Chat(t@),
        }
    }
}

pub open spec fn input_meaning(line: Seq<char>) -> InputView {
    let t = trim(line);
    if t.len() == 0 {
        InputView::Skip
    } else if t == "exit"@ || t == "quit"@ {
        InputView::Quit
    } else {
        InputView::Chat(t)
    }
}

/// Reads a line typed at the prompt.
pub fn classify_input(line: &str) -> (r: InputCommand)
    ensures
        r@ == input_meaning(line@),
{
    let t = trim_str(line);
    if t.unicode_len() == 0 {
        InputCommand::Skip
    } else if same_text(t.as_str(), "exit") || same_text(t.as_str(), "quit") {
        InputCommand::Quit
    } else {
        InputCommand::Chat(t)
    }
}

pub open spec fn first_given(cli: Option<Seq<char>>, config: Option<Seq<char>>, default: Seq<char>) -> Seq<char> {
    match cli {
        Some(v) => v,
        None => match config {
            Some(v) => v,
            None => default,
        },
    }
}

/// A setting: the command-line value if given, else the configuration value if
/// present, else the default.
pub fn resolve_setting(cli: Option<String>, config: Option<String>, default: &str) -> (r: String)
    ensures
        r@ == first_given(
            crate::types::opt_str_view(cli),
            crate::types::opt_str_view(config),
            default@,
        ),
{
    match cli {
        Some(v) => v,
        None => match config {
            Some(v) => v,
            None => String::from_str(default),
        },
    }
}

/// The system prompt used when none is configured.
pub open spec fn default_prompt() -> Seq<char> {
    "You are a helpful assistant."@
}

/// The system prompt: from the command line, else the configuration, else the default.
pub fn resolve_system_prompt(cli: Option<String>, config: Option<String>) -> (r: String)
    ensures
        r@ == first_given(
            crate::types::opt_str_view(cli),
            crate::types::opt_str_view(config),
            default_prompt(),
        ),
{
    resolve_setting(cli, config, "You are a helpful assistant.")
}

/// The language-model backends.
#[derive(PartialEq, Eq, Structural, Clone, Copy)]
pub enum BackendKind {
    OpenAICompatible,
    Mock,
}

/// The backend a configured `type` selects: `openai_compatible`, else the mock.
pub fn select_backend(llm_type: &str) -> (r: BackendKind)
    ensures
        r == (if llm_type@ == "openai_compatible"@ {
            BackendKind::OpenAICompatible
        } else {
            BackendKind::Mock
        }),
{
    if same_text(llm_type, "openai_compatible") {
        BackendKind::OpenAICompatible
    } else {
        BackendKind::Mock
    }
}

} // verus!
