//! Selected text on Linux, through command line tools: which tool to run
//! next, and what to make of what it returned.

use crate::text::{
    contains_chars, crlf_to_lf, lowercase_of, normalize_newlines, occurs_in, to_chars,
};
use vstd::prelude::*;

verus! {

broadcast use vstd::string::group_string_axioms;

/// What became of running a command: it could not be started, for the
/// reason given, or it ran to its end, with or without success, and wrote
/// the given text to its standard output.
#[derive(Debug, Clone, PartialEq, Eq)]
pub enum CommandOutcome {
    NotStarted { reason: String },
    Exited { success: bool, stdout: String },
}

/// A way of asking the system for the selected text.
#[derive(Debug, Clone, Copy, PartialEq, Eq, Structural)]
pub enum SelectionSource {
    /// The Windows clipboard, from inside the Windows Subsystem for Linux.
    PowerShellClipboard,
    /// The primary selection of Wayland.
    WlPastePrimary,
    /// The clipboard of Wayland.
    WlPasteClipboard,
    /// The primary selection of X11, through `xclip`.
    XclipPrimary,
    /// The clipboard of X11, through `xclip`.
    XclipClipboard,
    /// The primary selection of X11, through `xsel`.
    XselPrimary,
    /// The clipboard of X11, through `xsel`.
    XselClipboard,
}

/// What to do next to get the selected text: ask a source, or stop with
/// the text found, if any.
#[derive(Debug, Clone, PartialEq, Eq)]
pub enum SelectionStep {
    Ask(SelectionSource),
    Done(Option<String>),
}

/// Whether the system is the Windows Subsystem for Linux: one of its two
/// environment variables is set, or the kernel release, in lower case,
/// names Microsoft.
pub open spec fn spec_is_wsl(
    interop_set: bool,
    distro_name_set: bool,
    kernel_release: Option<Seq<char>>,
) -> bool {
    ||| interop_set
    ||| distro_name_set
    ||| (kernel_release matches Some(release) && occurs_in("microsoft"@, lowercase_of(release)))
}

/// The source to ask first.
pub open spec fn spec_first_source(is_wsl: bool) -> SelectionSource {
    if is_wsl {
        SelectionSource::PowerShellClipboard
    } else {
        SelectionSource::WlPastePrimary
    }
}

/// The source to ask after `source` has given nothing, if one is left.
pub open spec fn next_source(source: SelectionSource) -> Option<SelectionSource> {
    match source {
        SelectionSource::PowerShellClipboard => Some(SelectionSource::WlPastePrimary),
        SelectionSource::WlPastePrimary => Some(SelectionSource::WlPasteClipboard),
        SelectionSource::WlPasteClipboard => Some(SelectionSource::XclipPrimary),
        SelectionSource::XclipPrimary => Some(SelectionSource::XclipClipboard),
        SelectionSource::XclipClipboard => Some(SelectionSource::XselPrimary),
        SelectionSource::XselPrimary => Some(SelectionSource::XselClipboard),
        SelectionSource::XselClipboard => None,
    }
}

/// How many sources are left to ask after `source`.
pub open spec fn sources_left(source: SelectionSource) -> nat {
    match source {
        SelectionSource::PowerShellClipboard => 6,
        SelectionSource::WlPastePrimary => 5,
        SelectionSource::WlPasteClipboard => 4,
        SelectionSource::XclipPrimary => 3,
        SelectionSource::XclipClipboard => 2,
        SelectionSource::XselPrimary => 1,
        SelectionSource::XselClipboard => 0,
    }
}

/// What a selection step is, with the text found as a sequence of
/// characters.
pub enum SelectionStepView {
    Ask(SelectionSource),
    Done(Option<Seq<char>>),
}

impl View for SelectionStep {
    type V = SelectionStepView;

    open spec fn view(&self) -> SelectionStepView {
        match *self {
            SelectionStep::Ask(source) => SelectionStepView::Ask(source),
            SelectionStep::Done(Some(text)) => SelectionStepView::Done(Some(text@)),
            SelectionStep::Done(None) => SelectionStepView::Done(None),
        }
    }
}

/// The text that a source has given: what its command wrote, if the command
/// succeeded and wrote anything. What the Windows clipboard gives has its
/// line ends turned into line feeds.
pub open spec fn selection_given(source: SelectionSource, outcome: CommandOutcome) -> Option<
    Seq<char>,
> {
    match outcome {
        CommandOutcome::Exited { success, stdout } => if success && stdout@.len() > 0 {
            if source == SelectionSource::PowerShellClipboard {
                Some(crlf_to_lf(stdout@))
            } else {
                Some(stdout@)
            }
        } else {
            None
        },
        CommandOutcome::NotStarted { .. } => None,
    }
}

/// The step after `asked` has been asked with the given outcome: stop with
/// the text if the source gave any; else ask the next source; else, with
/// no source left, stop without text.
pub open spec fn spec_selection_step(
    asked: SelectionSource,
    outcome: CommandOutcome,
) -> SelectionStepView {
    match selection_given(asked, outcome) {
        Some(text) => SelectionStepView::Done(Some(text)),
        None => match next_source(asked) {
            Some(next) => SelectionStepView::Ask(next),
            None => SelectionStepView::Done(None),
        },
    }
}

/// Whether the system is the Windows Subsystem for Linux. `interop_set`
/// and `distro_name_set` say whether the environment variables
/// `WSL_INTEROP` and `WSL_DISTRO_NAME` are set; `kernel_release` is the
/// kernel release, where it could be read.
pub fn is_wsl(interop_set: bool, distro_name_set: bool, kernel_release: Option<&str>) -> (wsl:
    bool)
    ensures
        wsl == spec_is_wsl(
            interop_set,
            distro_name_set,
            match kernel_release {
                Some(release) => Some(release@),
                None => None,
            },
        ),
{
    if interop_set || distro_name_set {
        return true;
    }
    match kernel_release {
        Some(release) => {
            let lowered = release.to_lowercase();
            let lowered_chars = to_chars(lowered.as_str());
            let needle = to_chars("microsoft");
            contains_chars(needle.as_slice(), lowered_chars.as_slice())
        },
        None => false,
    }
}

/// The program and arguments of the command that asks a source.
pub fn selection_command(source: SelectionSource) -> (command: Vec<&'static str>)
    ensures
        command@ == spec_selection_command(source),
{
    match source {
        SelectionSource::PowerShellClipboard => vec![
            "powershell.exe",
            "-NoProfile",
            "-Command",
            "Get-Clipboard",
        ],
        SelectionSource::WlPastePrimary => vec!["wl-paste", "-p"],
        SelectionSource::WlPasteClipboard => vec!["wl-paste"],
        SelectionSource::XclipPrimary => vec!["xclip", "-o", "-selection", "primary"],
        SelectionSource::XclipClipboard => vec!["xclip", "-o"],
        SelectionSource::XselPrimary => vec!["xsel", "-o"],
        SelectionSource::XselClipboard => vec!["xsel", "-o", "-b"],
    }
}

/// The program and arguments of the command that asks a source.
pub open spec fn spec_selection_command(source: SelectionSource) -> Seq<&'static str> {
    match source {
        SelectionSource::PowerShellClipboard => seq![
            "powershell.exe",
            "-NoProfile",
            "-Command",
            "Get-Clipboard",
        ],
        SelectionSource::WlPastePrimary => seq!["wl-paste", "-p"],
        SelectionSource::WlPasteClipboard => seq!["wl-paste"],
        SelectionSource::XclipPrimary => seq!["xclip", "-o", "-selection", "primary"],
        SelectionSource::XclipClipboard => seq!["xclip", "-o"],
        SelectionSource::XselPrimary => seq!["xsel", "-o"],
        SelectionSource::XselClipboard => seq!["xsel", "-o", "-b"],
    }
}

/// The source to ask first: the Windows clipboard inside the Windows
/// Subsystem for Linux, else the primary selection of Wayland.
pub fn first_selection_source(is_wsl: bool) -> (source: SelectionSource)
    ensures
        source == spec_first_source(is_wsl),
{
    if is_wsl {
        SelectionSource::PowerShellClipboard
    } else {
        SelectionSource::WlPastePrimary
    }
}

/// Decides what follows after `asked` has been asked: the selected text is
/// what the first source gives that gives anything. A source gives what its
/// command wrote if the command succeeded and wrote anything. After a
/// source that gave nothing the next one is asked, Wayland before X11, and
/// the primary selection before the clipboard; after the last, there is no
/// selected text.
pub fn get_highlighted_text(asked: SelectionSource, outcome: &CommandOutcome) -> (step:
    SelectionStep)
    ensures
        step@ == spec_selection_step(asked, *outcome),
        step matches SelectionStep::Ask(next) ==> sources_left(next) < sources_left(asked),
{
    match outcome {
        CommandOutcome::Exited { success, stdout } => {
            if *success && !stdout.as_str().is_empty() {
                let text = match asked {
                    SelectionSource::PowerShellClipboard => normalize_newlines(stdout.as_str()),
                    _ => stdout.clone(),
                };
                return SelectionStep::Done(Some(text));
            }
        },
        CommandOutcome::NotStarted { .. } => {},
    }
    match asked {
        SelectionSource::PowerShellClipboard => SelectionStep::Ask(SelectionSource::WlPastePrimary),
        SelectionSource::WlPastePrimary => SelectionStep::Ask(SelectionSource::WlPasteClipboard),
        SelectionSource::WlPasteClipboard => SelectionStep::Ask(SelectionSource::XclipPrimary),
        SelectionSource::XclipPrimary => SelectionStep::Ask(SelectionSource::XclipClipboard),
        SelectionSource::XclipClipboard => SelectionStep::Ask(SelectionSource::XselPrimary),
        SelectionSource::XselPrimary => SelectionStep::Ask(SelectionSource::XselClipboard),
        SelectionSource::XselClipboard => SelectionStep::Done(None),
    }
}

/// A stage of typing text in place of the selection: finding out whether a
/// typing tool is there, or typing with it.
#[derive(Debug, Clone, Copy, PartialEq, Eq, Structural)]
pub enum TypingStage {
    /// Finding out whether `wtype` can be started.
    ProbeWtype,
    /// Typing with `wtype`.
    TypeWithWtype,
    /// Finding out whether `xdotool` runs.
    ProbeXdotool,
    /// Typing with `xdotool`.
    TypeWithXdotool,
}

/// What to do next to type the text: run the command of a stage, or stop
/// with success or with an error message.
#[derive(Debug, PartialEq, Eq)]
pub enum TypingStep {
    Run(TypingStage),
    Done(Result<(), String>),
}

/// What a typing step is, with an error message as a sequence of
/// characters.
pub enum TypingStepView {
    Run(TypingStage),
    Typed,
    Failed(Seq<char>),
}

impl View for TypingStep {
    type V = TypingStepView;

    open spec fn view(&self) -> TypingStepView {
        match *self {
            TypingStep::Run(stage) => TypingStepView::Run(stage),
            TypingStep::Done(Ok(_)) => TypingStepView::Typed,
            TypingStep::Done(Err(message)) => TypingStepView::Failed(message@),
        }
    }
}

/// How many stages can follow `stage` at most.
pub open spec fn stages_left(stage: TypingStage) -> nat {
    match stage {
        TypingStage::ProbeWtype => 3,
        TypingStage::TypeWithWtype => 2,
        TypingStage::ProbeXdotool => 1,
        TypingStage::TypeWithXdotool => 0,
    }
}

/// What ends typing with a tool: success if the tool succeeded; the reason
/// if it could not be started; else the message given.
pub open spec fn typing_result(outcome: CommandOutcome, failure: Seq<char>) -> TypingStepView {
    match outcome {
        CommandOutcome::NotStarted { reason } => TypingStepView::Failed(reason@),
        CommandOutcome::Exited { success, .. } => if success {
            TypingStepView::Typed
        } else {
            TypingStepView::Failed(failure)
        },
    }
}

/// The step after the command of `stage` has been run with the given
/// outcome. `wtype` is used if it can be started at all; else `xdotool`, if
/// it runs with success; else there is no tool to type with.
pub open spec fn spec_typing_step(
    stage: TypingStage,
    outcome: CommandOutcome,
    is_wsl: bool,
) -> TypingStepView {
    match stage {
        TypingStage::ProbeWtype => match outcome {
            CommandOutcome::Exited { .. } => TypingStepView::Run(TypingStage::TypeWithWtype),
            CommandOutcome::NotStarted { .. } => TypingStepView::Run(TypingStage::ProbeXdotool),
        },
        TypingStage::TypeWithWtype => typing_result(outcome, "wtype failed"@),
        TypingStage::ProbeXdotool => match outcome {
            CommandOutcome::Exited { success: true, .. } => TypingStepView::Run(
                TypingStage::TypeWithXdotool,
            ),
            _ => if is_wsl {
                TypingStepView::Failed(
                    "WSL typing not supported without GUI input tool (wtype/xdotool)"@,
                )
            } else {
                TypingStepView::Failed("no typing tool available (wtype or xdotool)"@)
            },
        },
        TypingStage::TypeWithXdotool => typing_result(outcome, "xdotool failed"@),
    }
}

/// The program and arguments of the command of a typing stage.
pub open spec fn spec_typing_command(stage: TypingStage, new_text: Seq<char>) -> Seq<Seq<char>> {
    match stage {
        TypingStage::ProbeWtype => seq!["wtype"@, "--"@],
        TypingStage::TypeWithWtype => seq!["wtype"@, "--"@, new_text],
        TypingStage::ProbeXdotool => seq!["xdotool"@, "version"@],
        TypingStage::TypeWithXdotool => seq![
            "xdotool"@,
            "type"@,
            "--clearmodifiers"@,
            "--"@,
            new_text,
        ],
    }
}

/// The program and arguments of the command of a typing stage, for typing
/// `new_text`.
pub fn typing_command(stage: TypingStage, new_text: &str) -> (command: Vec<String>)
    ensures
        command@.map_values(|part: String| part@) == spec_typing_command(stage, new_text@),
{
    let command = match stage {
        TypingStage::ProbeWtype => vec!["wtype".to_owned(), "--".to_owned()],
        TypingStage::TypeWithWtype => vec![
            "wtype".to_owned(),
            "--".to_owned(),
            new_text.to_owned(),
        ],
        TypingStage::ProbeXdotool => vec!["xdotool".to_owned(), "version".to_owned()],
        TypingStage::TypeWithXdotool => vec![
            "xdotool".to_owned(),
            "type".to_owned(),
            "--clearmodifiers".to_owned(),
            "--".to_owned(),
            new_text.to_owned(),
        ],
    };
    assert(command@.map_values(|part: String| part@) =~= spec_typing_command(stage, new_text@));
    command
}

/// The stage that typing starts with.
pub fn first_typing_stage() -> (stage: TypingStage)
    ensures
        stage == TypingStage::ProbeWtype,
{
    TypingStage::ProbeWtype
}

/// Ends typing with a tool.
fn finish_typing(outcome: &CommandOutcome, failure: &str) -> (step: TypingStep)
    ensures
        step@ == typing_result(*outcome, failure@),
{
    match outcome {
        CommandOutcome::NotStarted { reason } => TypingStep::Done(Err(reason.clone())),
        CommandOutcome::Exited { success, .. } => {
            if *success {
                TypingStep::Done(Ok(()))
            } else {
                TypingStep::Done(Err(failure.to_owned()))
            }
        },
    }
}

/// Decides what follows after the command of `stage` has been run, in
/// typing text in place of the selection. `wtype` types the text if it can
/// be started at all; else `xdotool`, if it reports its version with
/// success. Typing succeeds if the tool does; it fails with the reason for
/// which the tool could not be started, or with a message that names the
/// tool. Without a tool it fails with a message that says so, another one
/// inside the Windows Subsystem for Linux.
pub fn replace_highlighted_text(
    stage: TypingStage,
    outcome: &CommandOutcome,
    is_wsl: bool,
) -> (step: TypingStep)
    ensures
        step@ == spec_typing_step(stage, *outcome, is_wsl),
        step matches TypingStep::Run(next) ==> stages_left(next) < stages_left(stage),
{
    match stage {
        TypingStage::ProbeWtype => {
            match outcome {
                CommandOutcome::Exited { .. } => TypingStep::Run(TypingStage::TypeWithWtype),
                CommandOutcome::NotStarted { .. } => TypingStep::Run(TypingStage::ProbeXdotool),
            }
        },
        TypingStage::TypeWithWtype => finish_typing(outcome, "wtype failed"),
        TypingStage::ProbeXdotool => {
            let runs = match outcome {
                CommandOutcome::Exited { success, .. } => *success,
                CommandOutcome::NotStarted { .. } => false,
            };
            if runs {
                TypingStep::Run(TypingStage::TypeWithXdotool)
            } else if is_wsl {
                let message = "WSL typing not supported without GUI input tool (wtype/xdotool)";
                TypingStep::Done(Err(message.to_owned()))
            } else {
                let message = "no typing tool available (wtype or xdotool)";
                TypingStep::Done(Err(message.to_owned()))
            }
        },
        TypingStage::TypeWithXdotool => finish_typing(outcome, "xdotool failed"),
    }
}

} // verus!
