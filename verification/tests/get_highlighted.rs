use layout_lib::get_highlighted::linux::{
    first_selection_source, first_typing_stage, get_highlighted_text, is_wsl,
    replace_highlighted_text, selection_command, typing_command, CommandOutcome, SelectionSource,
    SelectionStep, TypingStage, TypingStep,
};
use layout_lib::get_highlighted::windows::{
    encode_utf16, find_selected_text_in_tree, try_get_text_from_element,
    try_uia_get_selection_text, type_unicode_text, KeyEvent, UiElement, KEYEVENTF_KEYUP,
    KEYEVENTF_UNICODE,
};

fn exited(success: bool, stdout: &str) -> CommandOutcome {
    CommandOutcome::Exited { success, stdout: stdout.to_string() }
}

fn not_started(reason: &str) -> CommandOutcome {
    CommandOutcome::NotStarted { reason: reason.to_string() }
}

const SOURCES: [SelectionSource; 7] = [
    SelectionSource::PowerShellClipboard,
    SelectionSource::WlPastePrimary,
    SelectionSource::WlPasteClipboard,
    SelectionSource::XclipPrimary,
    SelectionSource::XclipClipboard,
    SelectionSource::XselPrimary,
    SelectionSource::XselClipboard,
];

/// Asks the sources in turn; `answers` gives the outcome for each.
fn run_selection(
    wsl: bool,
    answers: &dyn Fn(SelectionSource) -> CommandOutcome,
) -> (Option<String>, Vec<SelectionSource>) {
    let mut asked = Vec::new();
    let mut source = first_selection_source(wsl);
    loop {
        asked.push(source);
        match get_highlighted_text(source, &answers(source)) {
            SelectionStep::Ask(next) => source = next,
            SelectionStep::Done(text) => return (text, asked),
        }
    }
}

#[test]
fn selection_commands_are_those_of_the_tools() {
    let commands: Vec<Vec<&str>> = SOURCES.iter().map(|s| selection_command(*s)).collect();
    assert_eq!(
        commands,
        vec![
            vec!["powershell.exe", "-NoProfile", "-Command", "Get-Clipboard"],
            vec!["wl-paste", "-p"],
            vec!["wl-paste"],
            vec!["xclip", "-o", "-selection", "primary"],
            vec!["xclip", "-o"],
            vec!["xsel", "-o"],
            vec!["xsel", "-o", "-b"],
        ]
    );
}

#[test]
fn selection_starts_with_powershell_only_in_wsl() {
    assert_eq!(first_selection_source(true), SelectionSource::PowerShellClipboard);
    assert_eq!(first_selection_source(false), SelectionSource::WlPastePrimary);
}

#[test]
fn selection_asks_every_source_in_order_until_one_gives_text() {
    let (text, asked) = run_selection(true, &|_| not_started("missing"));
    assert_eq!(text, None);
    assert_eq!(asked, SOURCES.to_vec());
    let (text, asked) = run_selection(false, &|_| exited(true, ""));
    assert_eq!(text, None);
    assert_eq!(asked, SOURCES[1..].to_vec());
    let (text, asked) = run_selection(false, &|_| exited(false, "ignored"));
    assert_eq!(text, None);
    assert_eq!(asked.len(), 6);
    let (text, asked) = run_selection(false, &|source| match source {
        SelectionSource::XclipPrimary => exited(true, "picked\r\n"),
        SelectionSource::XselClipboard => exited(true, "late"),
        _ => exited(false, "failed"),
    });
    assert_eq!(text, Some("picked\r\n".to_string()));
    assert_eq!(asked, SOURCES[1..4].to_vec());
}

#[test]
fn selection_from_powershell_has_its_line_ends_normalized() {
    let step = get_highlighted_text(
        SelectionSource::PowerShellClipboard,
        &exited(true, "one\r\ntwo\rthree\n\r\n\r\r\nend\r"),
    );
    assert_eq!(step, SelectionStep::Done(Some("one\ntwo\rthree\n\n\r\nend\r".to_string())));
    let step = get_highlighted_text(SelectionSource::WlPastePrimary, &exited(true, "one\r\ntwo"));
    assert_eq!(step, SelectionStep::Done(Some("one\r\ntwo".to_string())));
    let step = get_highlighted_text(SelectionSource::PowerShellClipboard, &exited(true, ""));
    assert_eq!(step, SelectionStep::Ask(SelectionSource::WlPastePrimary));
    let step = get_highlighted_text(SelectionSource::XselClipboard, &exited(true, ""));
    assert_eq!(step, SelectionStep::Done(None));
}

#[test]
fn wsl_is_told_by_environment_or_kernel_release() {
    assert!(is_wsl(true, false, None));
    assert!(is_wsl(false, true, None));
    assert!(is_wsl(true, true, Some("6.1.0-generic")));
    assert!(!is_wsl(false, false, None));
    assert!(!is_wsl(false, false, Some("6.1.0-generic")));
    assert!(!is_wsl(false, false, Some("")));
    assert!(!is_wsl(false, false, Some("microsof")));
    assert!(is_wsl(false, false, Some("5.15.90.1-microsoft-standard-WSL2")));
    assert!(is_wsl(false, false, Some("4.4.0-19041-Microsoft")));
    assert!(is_wsl(false, false, Some("MICROSOFT")));
    assert!(is_wsl(false, false, Some("xmicrosoft")));
}

#[test]
fn typing_commands_are_those_of_the_tools() {
    assert_eq!(first_typing_stage(), TypingStage::ProbeWtype);
    assert_eq!(typing_command(TypingStage::ProbeWtype, "text"), vec!["wtype", "--"]);
    assert_eq!(typing_command(TypingStage::TypeWithWtype, "text"), vec!["wtype", "--", "text"]);
    assert_eq!(typing_command(TypingStage::ProbeXdotool, "text"), vec!["xdotool", "version"]);
    assert_eq!(
        typing_command(TypingStage::TypeWithXdotool, "-x y"),
        vec!["xdotool", "type", "--clearmodifiers", "--", "-x y"]
    );
}

#[test]
fn typing_uses_wtype_if_it_can_be_started() {
    for wsl in [false, true] {
        for outcome in [exited(true, ""), exited(false, "")] {
            assert_eq!(
                replace_highlighted_text(TypingStage::ProbeWtype, &outcome, wsl),
                TypingStep::Run(TypingStage::TypeWithWtype)
            );
        }
        assert_eq!(
            replace_highlighted_text(TypingStage::ProbeWtype, &not_started("no wtype"), wsl),
            TypingStep::Run(TypingStage::ProbeXdotool)
        );
        assert_eq!(
            replace_highlighted_text(TypingStage::TypeWithWtype, &exited(true, ""), wsl),
            TypingStep::Done(Ok(()))
        );
        assert_eq!(
            replace_highlighted_text(TypingStage::TypeWithWtype, &exited(false, ""), wsl),
            TypingStep::Done(Err("wtype failed".to_string()))
        );
        assert_eq!(
            replace_highlighted_text(TypingStage::TypeWithWtype, &not_started("gone"), wsl),
            TypingStep::Done(Err("gone".to_string()))
        );
    }
}

#[test]
fn typing_uses_xdotool_if_it_runs() {
    for wsl in [false, true] {
        assert_eq!(
            replace_highlighted_text(TypingStage::ProbeXdotool, &exited(true, ""), wsl),
            TypingStep::Run(TypingStage::TypeWithXdotool)
        );
        assert_eq!(
            replace_highlighted_text(TypingStage::TypeWithXdotool, &exited(true, ""), wsl),
            TypingStep::Done(Ok(()))
        );
        assert_eq!(
            replace_highlighted_text(TypingStage::TypeWithXdotool, &exited(false, ""), wsl),
            TypingStep::Done(Err("xdotool failed".to_string()))
        );
        assert_eq!(
            replace_highlighted_text(TypingStage::TypeWithXdotool, &not_started("why"), wsl),
            TypingStep::Done(Err("why".to_string()))
        );
    }
}

#[test]
fn typing_without_a_tool_fails_with_a_message() {
    for outcome in [exited(false, ""), not_started("no xdotool")] {
        assert_eq!(
            replace_highlighted_text(TypingStage::ProbeXdotool, &outcome, false),
            TypingStep::Done(Err("no typing tool available (wtype or xdotool)".to_string()))
        );
        assert_eq!(
            replace_highlighted_text(TypingStage::ProbeXdotool, &outcome, true),
            TypingStep::Done(Err(
                "WSL typing not supported without GUI input tool (wtype/xdotool)".to_string()
            ))
        );
    }
}

fn element(selection: Vec<&str>, value: Option<&str>, children: Vec<UiElement>) -> UiElement {
    UiElement {
        selection: selection.into_iter().map(|range| range.to_string()).collect(),
        value: value.map(|text| text.to_string()),
        children,
    }
}

#[test]
fn element_text_is_the_selection_or_else_the_value() {
    let text = |selection, value| try_get_text_from_element(&element(selection, value, vec![]));
    assert_eq!(text(vec![], None), None);
    assert_eq!(text(vec![""], Some("")), None);
    assert_eq!(text(vec!["", ""], Some("value")), Some("value".to_string()));
    assert_eq!(text(vec!["a", "", "bc"], Some("value")), Some("abc".to_string()));
    assert_eq!(text(vec!["a"], None), Some("a".to_string()));
    assert_eq!(text(vec![], Some("v")), Some("v".to_string()));
}

#[test]
fn tree_text_is_that_of_the_first_element_in_document_order() {
    let leaf = |value| element(vec![], Some(value), vec![]);
    let nothing = || element(vec![], None, vec![]);
    assert_eq!(find_selected_text_in_tree(&nothing()), None);
    let tree = element(
        vec![],
        None,
        vec![
            nothing(),
            element(vec![""], Some(""), vec![nothing(), element(vec![], None, vec![leaf("deep")])]),
            leaf("second"),
        ],
    );
    assert_eq!(find_selected_text_in_tree(&tree), Some("deep".to_string()));
    let tree = element(vec!["top"], None, vec![leaf("child")]);
    assert_eq!(find_selected_text_in_tree(&tree), Some("top".to_string()));
    let tree = element(vec![], None, vec![nothing(), nothing(), leaf("last")]);
    assert_eq!(find_selected_text_in_tree(&tree), Some("last".to_string()));
    let tree = element(vec![], None, vec![nothing(), element(vec![], None, vec![nothing()])]);
    assert_eq!(find_selected_text_in_tree(&tree), None);
}

#[test]
fn selection_text_prefers_the_focused_element() {
    let focused = element(vec!["focused"], None, vec![]);
    let silent = element(vec![], None, vec![element(vec!["below focus"], None, vec![])]);
    let root = element(vec![], None, vec![element(vec![], Some("in tree"), vec![])]);
    assert_eq!(
        try_uia_get_selection_text(Some(&focused), Some(&root)),
        Some("focused".to_string())
    );
    // Only the focused element itself is read, not what is below it.
    assert_eq!(
        try_uia_get_selection_text(Some(&silent), Some(&root)),
        Some("in tree".to_string())
    );
    assert_eq!(try_uia_get_selection_text(None, Some(&root)), Some("in tree".to_string()));
    assert_eq!(try_uia_get_selection_text(Some(&silent), None), None);
    assert_eq!(try_uia_get_selection_text(None, None), None);
    assert_eq!(
        layout_lib::get_highlighted::windows::get_highlighted_text(Some(&focused), None),
        Some("focused".to_string())
    );
}

#[test]
fn utf16_units_are_those_of_the_standard_encoding() {
    let texts =
        ["", "abc", "שלום", "中文", "😀", "a😀b\u{10000}\u{10FFFF}\u{FFFF}\u{D7FF}\u{E000}"];
    for text in texts {
        let expected: Vec<u16> = text.encode_utf16().collect();
        assert_eq!(encode_utf16(text), expected);
    }
    assert_eq!(encode_utf16("\u{1F600}"), vec![0xD83D, 0xDE00]);
}

#[test]
fn typing_events_press_and_release_every_unit() {
    assert_eq!(KEYEVENTF_UNICODE, 0x0004);
    assert_eq!(KEYEVENTF_KEYUP, 0x0002);
    assert!(type_unicode_text("").is_empty());
    assert_eq!(
        type_unicode_text("a😀"),
        vec![
            KeyEvent { unit: 0x61, flags: 0x0004 },
            KeyEvent { unit: 0x61, flags: 0x0006 },
            KeyEvent { unit: 0xD83D, flags: 0x0004 },
            KeyEvent { unit: 0xD83D, flags: 0x0006 },
            KeyEvent { unit: 0xDE00, flags: 0x0004 },
            KeyEvent { unit: 0xDE00, flags: 0x0006 },
        ]
    );
    assert_eq!(
        layout_lib::get_highlighted::windows::replace_highlighted_text("ab"),
        type_unicode_text("ab")
    );
}
