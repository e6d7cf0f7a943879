//! Identifiers of the UI commands that objects of a UI definition bind to,
//! and the classifications of object types, screen identifiers and commands.

use vstd::prelude::*;
use crate::text::{
    chars_equal, chars_of, contains, contains_chars, ends_with, ends_with_chars, is_whitespace,
    lower, lower_chars, starts_with, starts_with_chars, trim, trim_chars, trim_end, trim_start,
};

verus! {

pub const STATUS_MESSAGE: &'static str = "status.message";
pub const UI_EDIT_LOCKED_HINT: &'static str = "ui.edit.locked_hint";
pub const MODE_PROJECT_DEBUG_RUN: &'static str = "mode.project_debug_run";
pub const MODE_PROJECT_TARGET_MOVE: &'static str = "mode.project_target_move";
pub const INPUT_SEND: &'static str = "input.send";
pub const INPUT_VOICE_TOGGLE: &'static str = "input.voice_toggle";
pub const UI_SETTINGS: &'static str = "ui.settings";
pub const NAV_BACK_MAIN: &'static str = "nav.back_main";
pub const UI_EDIT_TOGGLE: &'static str = "ui.edit.toggle";
pub const REASONING_LOW: &'static str = "reasoning.low";
pub const REASONING_MEDIUM: &'static str = "reasoning.medium";
pub const REASONING_HIGH: &'static str = "reasoning.high";
pub const REASONING_XHIGH: &'static str = "reasoning.xhigh";
pub const CONFIG_MODEL: &'static str = "config.model";
pub const CONFIG_MODEL_REASONING_EFFORT: &'static str = "config.model_reasoning_effort";
pub const CONFIG_WORKING_DIR: &'static str = "config.working_dir";
pub const CONFIG_WORKING_DIR_BROWSE: &'static str = "config.working_dir.browse";
pub const CONFIG_AUTO_START_EXE_1: &'static str = "config.auto_start_exe.1";
pub const CONFIG_AUTO_START_EXE_2: &'static str = "config.auto_start_exe.2";
pub const CONFIG_AUTO_START_EXE_3: &'static str = "config.auto_start_exe.3";
pub const CONFIG_AUTO_START_EXE_4: &'static str = "config.auto_start_exe.4";
pub const CONFIG_AUTO_START_EXE_1_BROWSE: &'static str = "config.auto_start_exe.1.browse";
pub const CONFIG_AUTO_START_EXE_2_BROWSE: &'static str = "config.auto_start_exe.2.browse";
pub const CONFIG_AUTO_START_EXE_3_BROWSE: &'static str = "config.auto_start_exe.3.browse";
pub const CONFIG_AUTO_START_EXE_4_BROWSE: &'static str = "config.auto_start_exe.4.browse";
pub const CONFIG_CODEX_OUTPUT_LOG_DIR_OPEN: &'static str = "config.codex_output_log_dir.open";
pub const CONFIG_SAVE: &'static str = "config.save";

/// Identifier of the main screen.
pub const UI_MAIN_SCREEN_ID: &'static str = "main";
/// Identifier of the settings screen.
pub const UI_SETTINGS_SCREEN_ID: &'static str = "settings";

/// Every command identifier the UI knows, in declaration order.
pub open spec fn all_ui_commands() -> Seq<Seq<char>> {
    seq![
        STATUS_MESSAGE@,
        UI_EDIT_LOCKED_HINT@,
        MODE_PROJECT_DEBUG_RUN@,
        MODE_PROJECT_TARGET_MOVE@,
        INPUT_SEND@,
        INPUT_VOICE_TOGGLE@,
        UI_SETTINGS@,
        NAV_BACK_MAIN@,
        UI_EDIT_TOGGLE@,
        REASONING_LOW@,
        REASONING_MEDIUM@,
        REASONING_HIGH@,
        REASONING_XHIGH@,
        CONFIG_MODEL@,
        CONFIG_MODEL_REASONING_EFFORT@,
        CONFIG_WORKING_DIR@,
        CONFIG_WORKING_DIR_BROWSE@,
        CONFIG_AUTO_START_EXE_1@,
        CONFIG_AUTO_START_EXE_2@,
        CONFIG_AUTO_START_EXE_3@,
        CONFIG_AUTO_START_EXE_4@,
        CONFIG_AUTO_START_EXE_1_BROWSE@,
        CONFIG_AUTO_START_EXE_2_BROWSE@,
        CONFIG_AUTO_START_EXE_3_BROWSE@,
        CONFIG_AUTO_START_EXE_4_BROWSE@,
        CONFIG_CODEX_OUTPUT_LOG_DIR_OPEN@,
        CONFIG_SAVE@,
    ]
}

/// The command identifiers, in the order of `all_ui_commands`.
pub fn ui_command_list() -> (r: Vec<&'static str>)
    ensures
        r@.len() == all_ui_commands().len(),
        forall|i: int| 0 <= i < r@.len() ==> #[trigger] r@[i]@ == all_ui_commands()[i],
{
    let r = vec![
        STATUS_MESSAGE,
        UI_EDIT_LOCKED_HINT,
        MODE_PROJECT_DEBUG_RUN,
        MODE_PROJECT_TARGET_MOVE,
        INPUT_SEND,
        INPUT_VOICE_TOGGLE,
        UI_SETTINGS,
        NAV_BACK_MAIN,
        UI_EDIT_TOGGLE,
        REASONING_LOW,
        REASONING_MEDIUM,
        REASONING_HIGH,
        REASONING_XHIGH,
        CONFIG_MODEL,
        CONFIG_MODEL_REASONING_EFFORT,
        CONFIG_WORKING_DIR,
        CONFIG_WORKING_DIR_BROWSE,
        CONFIG_AUTO_START_EXE_1,
        CONFIG_AUTO_START_EXE_2,
        CONFIG_AUTO_START_EXE_3,
        CONFIG_AUTO_START_EXE_4,
        CONFIG_AUTO_START_EXE_1_BROWSE,
        CONFIG_AUTO_START_EXE_2_BROWSE,
        CONFIG_AUTO_START_EXE_3_BROWSE,
        CONFIG_AUTO_START_EXE_4_BROWSE,
        CONFIG_CODEX_OUTPUT_LOG_DIR_OPEN,
        CONFIG_SAVE,
    ];
    assert forall|i: int| 0 <= i < r@.len() implies #[trigger] r@[i]@ == all_ui_commands()[i] by {}
    r
}

/// Whether `command` is, exactly (no trimming), one of the known command identifiers.
pub fn is_known_ui_command(command: &str) -> (r: bool)
    ensures
        r == all_ui_commands().contains(command@),
{
    let list = ui_command_list();
    let target = chars_of(command);
    let mut i: usize = 0;
    while i < list.len()
        invariant
            list@.len() == all_ui_commands().len(),
            forall|k: int| 0 <= k < list@.len() ==> #[trigger] list@[k]@ == all_ui_commands()[k],
            target@ == command@,
            i <= list@.len(),
            forall|k: int| 0 <= k < i ==> all_ui_commands()[k] != command@,
        decreases list.len() - i,
    {
        let candidate = chars_of(list[i]);
        if chars_equal(candidate.as_slice(), target.as_slice()) {
            assert(all_ui_commands()[i as int] == command@);
            return true;
        }
        i += 1;
    }
    false
}

/// Every identifier declared above is known to `is_known_ui_command`.
pub proof fn lemma_declared_commands_are_known(i: int)
    requires
        0 <= i < all_ui_commands().len(),
    ensures
        all_ui_commands().contains(all_ui_commands()[i]),
{
}

/// Object types drawn as radio buttons: `"radio"` or `"radio_button"` after trimming.
pub open spec fn radio_type(object_type: Seq<char>) -> bool {
    trim(object_type) == "radio"@ || trim(object_type) == "radio_button"@
}

/// Object types that carry a check state: check boxes and radio buttons.
pub open spec fn checkable_type(object_type: Seq<char>) -> bool {
    trim(object_type) == "checkbox"@ || radio_type(object_type)
}

/// A screen shown as a window of its own: its trimmed, lower-cased identifier
/// is not empty, contains `window` or starts with `win_` or ends with `_win`,
/// and does not contain `modal`.
pub open spec fn custom_windows_screen(screen_id: Seq<char>) -> bool {
    let n = lower(trim(screen_id));
    &&& n.len() > 0
    &&& (contains(n, "window"@) || starts_with(n, "win_"@) || ends_with(n, "_win"@))
    &&& !contains(n, "modal"@)
}

/// A screen drawn as a modal over the main window: any screen other than the
/// main one that is not a window of its own.
pub open spec fn modal_screen(screen_id: Seq<char>) -> bool {
    trim(screen_id) != UI_MAIN_SCREEN_ID@ && !custom_windows_screen(trim(screen_id))
}

/// The command that launches the selected project's debug executable.
pub open spec fn project_launch_command(command: Seq<char>) -> bool {
    trim(command) == MODE_PROJECT_DEBUG_RUN@
}

fn trimmed_equals(s: &str, lit: &str) -> (r: bool)
    ensures
        r == (trim(s@) == lit@),
{
    let v = chars_of(s);
    let t = trim_chars(v.as_slice());
    let l = chars_of(lit);
    chars_equal(t.as_slice(), l.as_slice())
}

pub fn is_radio_object_type(object_type: &str) -> (r: bool)
    ensures
        r == radio_type(object_type@),
{
    trimmed_equals(object_type, "radio") || trimmed_equals(object_type, "radio_button")
}

pub fn is_checkable_object_type(object_type: &str) -> (r: bool)
    ensures
        r == checkable_type(object_type@),
{
    trimmed_equals(object_type, "checkbox") || is_radio_object_type(object_type)
}

pub fn is_custom_windows_screen(screen_id: &str) -> (r: bool)
    ensures
        r == custom_windows_screen(screen_id@),
{
    let v = chars_of(screen_id);
    let t = trim_chars(v.as_slice());
    let n = lower_chars(t.as_slice());
    if n.len() == 0 {
        return false;
    }
    let window = chars_of("window");
    let win_prefix = chars_of("win_");
    let win_suffix = chars_of("_win");
    let modal = chars_of("modal");
    let looks_like_window = contains_chars(n.as_slice(), window.as_slice())
        || starts_with_chars(n.as_slice(), win_prefix.as_slice())
        || ends_with_chars(n.as_slice(), win_suffix.as_slice());
    looks_like_window && !contains_chars(n.as_slice(), modal.as_slice())
}

pub fn is_modal_screen(screen_id: &str) -> (r: bool)
    ensures
        r == modal_screen(screen_id@),
{
    let v = chars_of(screen_id);
    let t = trim_chars(v.as_slice());
    let main = chars_of(UI_MAIN_SCREEN_ID);
    if chars_equal(t.as_slice(), main.as_slice()) {
        return false;
    }
    let n = lower_chars(t.as_slice());
    let custom = if n.len() == 0 {
        false
    } else {
        let window = chars_of("window");
        let win_prefix = chars_of("win_");
        let win_suffix = chars_of("_win");
        let modal = chars_of("modal");
        (contains_chars(n.as_slice(), window.as_slice())
            || starts_with_chars(n.as_slice(), win_prefix.as_slice())
            || ends_with_chars(n.as_slice(), win_suffix.as_slice()))
            && !contains_chars(n.as_slice(), modal.as_slice())
    };
    proof {
        lemma_trim_idempotent(screen_id@);
    }
    !custom
}

pub fn is_project_launch_command(command: &str) -> (r: bool)
    ensures
        r == project_launch_command(command@),
{
    trimmed_equals(command, MODE_PROJECT_DEBUG_RUN)
}

proof fn lemma_trim_start_result(s: Seq<char>)
    ensures
        trim_start(s).len() == 0 || !is_whitespace(trim_start(s)[0]),
    decreases s.len(),
{
    if s.len() > 0 && is_whitespace(s[0]) {
        lemma_trim_start_result(s.drop_first());
    }
}

proof fn lemma_trim_end_keeps_start(s: Seq<char>)
    requires
        s.len() == 0 || !is_whitespace(s[0]),
    ensures
        trim_end(s).len() == 0 || !is_whitespace(trim_end(s)[0]),
        trim_end(s).len() == 0 || !is_whitespace(trim_end(s).last()),
        trim_end(s).len() <= s.len(),
        trim_end(s) == s.take(trim_end(s).len() as int),
    decreases s.len(),
{
    if s.len() > 0 && is_whitespace(s.last()) {
        if s.len() == 1 {
            assert(trim_end(s.drop_last()) =~= s.drop_last());
        } else {
            assert(s.drop_last()[0] == s[0]);
            lemma_trim_end_keeps_start(s.drop_last());
            assert(s.drop_last().take(trim_end(s.drop_last()).len() as int)
                =~= s.take(trim_end(s.drop_last()).len() as int));
        }
    } else {
        assert(s.take(s.len() as int) =~= s);
    }
}

/// Trimming twice is trimming once.
pub proof fn lemma_trim_idempotent(s: Seq<char>)
    ensures
        trim(trim(s)) == trim(s),
{
    let t = trim(s);
    lemma_trim_start_result(s);
    lemma_trim_end_keeps_start(trim_start(s));
    if t.len() > 0 {
        assert(!is_whitespace(t[0]));
        assert(trim_start(t) == t);
        assert(!is_whitespace(t.last()));
        assert(trim_end(t) == t);
    } else {
        assert(trim_start(t) == t);
        assert(trim_end(t) == t);
    }
}

} // verus!
