//! The stateful Bash and Python sessions: how a piece of code is framed so that
//! the end of its output can be recognised, and how the output is collected.
use vstd::prelude::*;
use crate::text::{
    append, chars_of, decimal, decimal_string, has_prefix, same_text, starts_with, string_of_range,
    trim, trim_str,
};

verus! {

/// The marker that ends the output of one command: a prefix, the process id, the
/// time in microseconds, and `__`.
pub open spec fn marker(prefix: Seq<char>, pid: nat, micros: nat) -> Seq<char> {
    prefix + decimal(pid) + "_"@ + decimal(micros) + "__"@
}

fn build_marker(prefix: &str, pid: u32, micros: u128) -> (r: String)
    ensures
        r@ == marker(prefix@, pid as nat, micros as nat),
{
    let mut r = String::from_str(prefix);
    let p = decimal_string(pid as u128);
    append(&mut r, p.as_str());
    append(&mut r, "_");
    let t = decimal_string(micros);
    append(&mut r, t.as_str());
    append(&mut r, "__");
    r
}

/// The text sent to bash: the trimmed code, then an `echo` of the marker and the exit status.
pub open spec fn bash_input(code: Seq<char>, delimiter: Seq<char>) -> Seq<char> {
    trim(code) + "\necho \""@ + delimiter + ":$?\"\n"@
}

/// The text sent to Python: the trimmed code, then a `print` of the marker and `:0`.
pub open spec fn python_input(code: Seq<char>, delimiter: Seq<char>) -> Seq<char> {
    trim(code) + "\nprint(f\""@ + delimiter + ":0\")\n"@
}

/// The whole code goes to the shell: the framed input is the trimmed code followed by
/// the marker's `echo`, so code without surrounding whitespace is sent as it is,
/// every line of it.
pub proof fn law_framing_sends_whole_code(code: Seq<char>, delimiter: Seq<char>)
    ensures
        bash_input(code, delimiter) == trim(code) + "\necho \""@ + delimiter + ":$?\"\n"@,
        python_input(code, delimiter) == trim(code) + "\nprint(f\""@ + delimiter + ":0\")\n"@,
        code.len() > 0 && !crate::text::is_white_space(code[0]) && !crate::text::is_white_space(
            code.last(),
        ) ==> bash_input(code, delimiter).subrange(0, code.len() as int) == code
            && python_input(code, delimiter).subrange(0, code.len() as int) == code,
{
    if code.len() > 0 && !crate::text::is_white_space(code[0]) && !crate::text::is_white_space(
        code.last(),
    ) {
        crate::text::lemma_trim_start(code, 0);
        assert(code.subrange(0, code.len() as int) =~= code);
        crate::text::lemma_trim_end(code, code.len() as int);
        assert(trim(code) == code);
        assert(bash_input(code, delimiter).subrange(0, code.len() as int) =~= code);
        assert(python_input(code, delimiter).subrange(0, code.len() as int) =~= code);
    }
}

/// The marker for a bash command run by process `pid` at `micros` microseconds.
pub fn bash_delimiter(pid: u32, micros: u128) -> (r: String)
    ensures
        r@ == marker("__LASADA_END_"@, pid as nat, micros as nat),
{
    build_marker("__LASADA_END_", pid, micros)
}

/// The text to write to the shell for `code`.
pub fn frame_bash(code: &str, delimiter: &str) -> (r: String)
    ensures
        r@ == bash_input(code@, delimiter@),
{
    let mut r = trim_str(code);
    append(&mut r, "\necho \"");
    append(&mut r, delimiter);
    append(&mut r, ":$?\"\n");
    r
}

/// The marker for Python code run by process `pid` at `micros` microseconds.
pub fn python_delimiter(pid: u32, micros: u128) -> (r: String)
    ensures
        r@ == marker("__LASADA_PY_END_"@, pid as nat, micros as nat),
{
    build_marker("__LASADA_PY_END_", pid, micros)
}

/// The text to write to the Python interpreter for `code`.
pub fn frame_python(code: &str, delimiter: &str) -> (r: String)
    ensures
        r@ == python_input(code@, delimiter@),
{
    let mut r = trim_str(code);
    append(&mut r, "\nprint(f\"");
    append(&mut r, delimiter);
    append(&mut r, ":0\")\n");
    r
}

/// The exit status a marker line reports: what follows the marker and a colon,
/// or `0` when no colon follows.
pub open spec fn reported_status(line: Seq<char>, delimiter: Seq<char>) -> Seq<char> {
    let rest = line.subrange(delimiter.len() as int, line.len() as int);
    if rest.len() > 0 && rest[0] == ':' {
        rest.drop_first()
    } else {
        "0"@
    }
}

/// What a marker line adds to the output: an exit-code note when the status is not `0`.
pub open spec fn status_note(line: Seq<char>, delimiter: Seq<char>) -> Seq<char> {
    if reported_status(line, delimiter) == "0"@ {
        Seq::empty()
    } else {
        "\n[Exit Code: "@ + reported_status(line, delimiter) + "]"@
    }
}

/// The output of one command, collected line by line until its marker shows up.
pub struct CommandOutput {
    text: String,
    delimiter: Vec<char>,
}

impl View for CommandOutput {
    type V = (Seq<char>, Seq<char>);

    closed spec fn view(&self) -> (Seq<char>, Seq<char>) {
        (self.text@, self.delimiter@)
    }
}

impl CommandOutput {
    /// Starts collecting the output of a command that ends with `delimiter`.
    pub fn new(delimiter: &str) -> (r: CommandOutput)
        ensures
            r@ == (Seq::<char>::empty(), delimiter@),
    {
        CommandOutput { text: String::new(), delimiter: chars_of(delimiter) }
    }

    /// A line of the shell's standard output. Returns `true` when it is the marker
    /// line, after noting a non-zero exit status; any other line is kept.
    pub fn shell_line(&mut self, line: &str) -> (done: bool)
        ensures
            done == has_prefix(line@, old(self)@.1),
            final(self)@.1 == old(self)@.1,
            done ==> final(self)@.0 == old(self)@.0 + status_note(line@, old(self)@.1),
            !done ==> final(self)@.0 == old(self)@.0 + line@ + "\n"@,
    {
        let v = chars_of(line);
        if starts_with(&v, &self.delimiter) {
            let d = self.delimiter.len();
            let n = v.len();
            let ghost rest = line@.subrange(d as int, n as int);
            let status = if d < n && v[d] == ':' {
                string_of_range(&v, d + 1, n)
            } else {
                String::from_str("0")
            };
            proof {
                if d < n && v@[d as int] == ':' {
                    assert(rest.drop_first() =~= line@.subrange(d + 1, n as int));
                }
            }
            assert(status@ == reported_status(line@, self.delimiter@));
            if !same_text(status.as_str(), "0") {
                append(&mut self.text, "\n[Exit Code: ");
                append(&mut self.text, status.as_str());
                append(&mut self.text, "]");
            } else {
                assert(self.text@ =~= self.text@ + Seq::<char>::empty());
            }
            true
        } else {
            append(&mut self.text, line);
            append(&mut self.text, "\n");
            false
        }
    }

    /// A line of Python's standard output. Returns `true` when it is the marker line;
    /// any other line is kept.
    pub fn python_line(&mut self, line: &str) -> (done: bool)
        ensures
            done == has_prefix(line@, old(self)@.1),
            final(self)@.1 == old(self)@.1,
            done ==> final(self)@.0 == old(self)@.0,
            !done ==> final(self)@.0 == old(self)@.0 + line@ + "\n"@,
    {
        let v = chars_of(line);
        if starts_with(&v, &self.delimiter) {
            true
        } else {
            append(&mut self.text, line);
            append(&mut self.text, "\n");
            false
        }
    }

    /// A line of the standard error stream: kept as it is.
    pub fn error_line(&mut self, line: &str)
        ensures
            final(self)@ == (old(self)@.0 + line@ + "\n"@, old(self)@.1),
    {
        append(&mut self.text, line);
        append(&mut self.text, "\n");
    }

    /// The collected output, trimmed.
    pub fn finish(&self) -> (r: String)
        ensures
            r@ == trim(self@.0),
    {
        trim_str(self.text.as_str())
    }
}

} // verus!
