//! GUI automation: how a script of `xdotool` commands and `screenshot` requests is
//! read, and how the outcome of each step is reported.
use vstd::prelude::*;
use crate::text::{append, nonblank_lines, nonblank_lines_of, same_text, trim, trim_str, words, words_of};
use crate::types::AppError;

verus! {

/// The GUI automation executor (the commands themselves are run by the caller).
pub struct ComputerExecutor;

impl ComputerExecutor {
    pub fn new() -> (r: ComputerExecutor) {
        ComputerExecutor
    }
}

/// One step of a GUI script.
pub enum ComputerStep {
    /// Take a screenshot.
    Screenshot,
    /// Run `xdotool` with the words of `line` as arguments.
    Xdotool { line: String, args: Vec<String> },
}

#[verifier::ext_equal]
pub enum StepView {
    Screenshot,
    Xdotool { line: Seq<char>, args: Seq<Seq<char>> },
}

impl View for ComputerStep {
    type V = StepView;

    open spec fn view(&self) -> StepView {
        match self {
            ComputerStep::Screenshot => StepView::Screenshot,
            ComputerStep::Xdotool { line, args } => StepView::Xdotool {
                line: line@,
                args: args@.map_values(|a: String| a@),
            },
        }
    }
}

/// The step a (trimmed, non-blank) line asks for.
pub open spec fn step_of(line: Seq<char>) -> StepView {
    if line == "screenshot"@ {
        StepView::Screenshot
    } else {
        StepView::Xdotool { line, args: words(line) }
    }
}

/// The steps of a script: one per non-blank line, trimmed.
pub open spec fn script_steps(code: Seq<char>) -> Seq<StepView> {
    nonblank_lines(code).map_values(|l: Seq<char>| step_of(l))
}

/// Reads a GUI script into its steps.
pub fn plan_steps(code: &str) -> (r: Vec<ComputerStep>)
    ensures
        r@.map_values(|s: ComputerStep| s@) == script_steps(code@),
{
    let lines = nonblank_lines_of(code);
    let ghost ls = lines@.map_values(|x: String| x@);
    let mut r: Vec<ComputerStep> = Vec::new();
    let mut i: usize = 0;
    while i < lines.len()
        invariant
            i <= lines@.len(),
            ls == lines@.map_values(|x: String| x@),
            ls == nonblank_lines(code@),
            r@.map_values(|s: ComputerStep| s@) == ls.subrange(0, i as int).map_values(
                |l: Seq<char>| step_of(l),
            ),
        decreases lines@.len() - i,
    {
        let line = lines[i].as_str();
        let step = if same_text(line, "screenshot") {
            ComputerStep::Screenshot
        } else {
            ComputerStep::Xdotool { line: String::from_str(line), args: words_of(line) }
        };
        proof {
            assert(ls[i as int] == line@);
        }
        let ghost before = r@;
        r.push(step);
        proof {
            assert(r@.map_values(|s: ComputerStep| s@) =~= before.map_values(|s: ComputerStep| s@).push(step@));
            assert(ls.subrange(0, i + 1).map_values(|l: Seq<char>| step_of(l)) =~= ls.subrange(
                0,
                i as int,
            ).map_values(|l: Seq<char>| step_of(l)).push(step_of(ls[i as int])));
        }
        i = i + 1;
    }
    proof {
        assert(ls.subrange(0, i as int) =~= ls);
    }
    r
}

/// Where screenshots are saved.
pub open spec fn screenshot_path() -> Seq<char> {
    "/tmp/lasada_screenshot.jpg"@
}

/// A program to run with its arguments.
pub struct ProgramCall {
    pub program: String,
    pub args: Vec<String>,
}

/// The screenshot tools to try, in order, each writing to `screenshot_path`:
/// `scrot -o <path>`, then `gnome-screenshot -f <path>`.
pub fn screenshot_attempts() -> (r: Vec<ProgramCall>)
    ensures
        r@.len() == 2,
        r@[0].program@ == "scrot"@,
        r@[0].args@.map_values(|a: String| a@) == seq!["-o"@, screenshot_path()],
        r@[1].program@ == "gnome-screenshot"@,
        r@[1].args@.map_values(|a: String| a@) == seq!["-f"@, screenshot_path()],
{
    let mut a: Vec<String> = Vec::new();
    a.push(String::from_str("-o"));
    a.push(String::from_str("/tmp/lasada_screenshot.jpg"));
    let mut b: Vec<String> = Vec::new();
    b.push(String::from_str("-f"));
    b.push(String::from_str("/tmp/lasada_screenshot.jpg"));
    assert(a@.map_values(|x: String| x@) =~= seq!["-o"@, screenshot_path()]);
    assert(b@.map_values(|x: String| x@) =~= seq!["-f"@, screenshot_path()]);
    let mut r: Vec<ProgramCall> = Vec::new();
    r.push(ProgramCall { program: String::from_str("scrot"), args: a });
    r.push(ProgramCall { program: String::from_str("gnome-screenshot"), args: b });
    r
}

/// The report of a GUI script, one line per step.
pub struct ComputerReport {
    text: String,
}

impl View for ComputerReport {
    type V = Seq<char>;

    closed spec fn view(&self) -> Seq<char> {
        self.text@
    }
}

pub open spec fn screenshot_saved_line() -> Seq<char> {
    "SCREENSHOT_SAVED: "@ + screenshot_path() + "\n"@
}

pub open spec fn screenshot_failed_line() -> Seq<char> {
    "Error: Failed to take screenshot. Make sure 'scrot' or 'gnome-screenshot' is installed.\n"@
}

pub open spec fn executed_line(line: Seq<char>) -> Seq<char> {
    "Executed: "@ + line + "\n"@
}

pub open spec fn failed_line(line: Seq<char>, stderr: Seq<char>) -> Seq<char> {
    "Error executing '"@ + line + "': "@ + stderr + "\n"@
}

impl ComputerReport {
    pub fn new() -> (r: ComputerReport)
        ensures
            r@ == Seq::<char>::empty(),
    {
        ComputerReport { text: String::new() }
    }

    /// A screenshot was saved.
    pub fn screenshot_saved(&mut self)
        ensures
            final(self)@ == old(self)@ + screenshot_saved_line(),
    {
        append(&mut self.text, "SCREENSHOT_SAVED: ");
        append(&mut self.text, "/tmp/lasada_screenshot.jpg");
        append(&mut self.text, "\n");
    }

    /// No screenshot tool succeeded.
    pub fn screenshot_failed(&mut self)
        ensures
            final(self)@ == old(self)@ + screenshot_failed_line(),
    {
        append(
            &mut self.text,
            "Error: Failed to take screenshot. Make sure 'scrot' or 'gnome-screenshot' is installed.\n",
        );
    }

    /// `xdotool` ran `line` successfully, or failed with `stderr`.
    pub fn xdotool_done(&mut self, line: &str, success: bool, stderr: &str)
        ensures
            success ==> final(self)@ == old(self)@ + executed_line(line@),
            !success ==> final(self)@ == old(self)@ + failed_line(line@, stderr@),
    {
        if success {
            append(&mut self.text, "Executed: ");
            append(&mut self.text, line);
            append(&mut self.text, "\n");
        } else {
            append(&mut self.text, "Error executing '");
            append(&mut self.text, line);
            append(&mut self.text, "': ");
            append(&mut self.text, stderr);
            append(&mut self.text, "\n");
        }
    }

    /// The report, trimmed.
    pub fn finish(&self) -> (r: String)
        ensures
            r@ == trim(self@),
    {
        trim_str(self.text.as_str())
    }
}

/// The error for an `xdotool` that could not be started.
pub fn xdotool_error(detail: &str) -> (e: AppError)
    ensures
        e matches AppError::ExecutionError(m) && m@ == "xdotool error: "@ + detail@,
{
    let mut m = String::from_str("xdotool error: ");
    append(&mut m, detail);
    AppError::ExecutionError(m)
}

} // verus!
