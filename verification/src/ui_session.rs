//! The UI session: which action a command of a UI object triggers, and the
//! screen navigation and edit-mode state with the editor's selection.

use vstd::prelude::*;
use crate::command::{
    all_ui_commands, is_known_ui_command, CONFIG_AUTO_START_EXE_1_BROWSE, CONFIG_AUTO_START_EXE_2_BROWSE,
    CONFIG_AUTO_START_EXE_3_BROWSE, CONFIG_AUTO_START_EXE_4_BROWSE, CONFIG_CODEX_OUTPUT_LOG_DIR_OPEN,
    CONFIG_SAVE, CONFIG_WORKING_DIR_BROWSE, INPUT_SEND, INPUT_VOICE_TOGGLE, MODE_PROJECT_DEBUG_RUN,
    MODE_PROJECT_TARGET_MOVE, NAV_BACK_MAIN, REASONING_HIGH, REASONING_LOW, REASONING_MEDIUM,
    REASONING_XHIGH, UI_EDIT_TOGGLE, UI_MAIN_SCREEN_ID, UI_SETTINGS, UI_SETTINGS_SCREEN_ID,
};
use crate::selection::{ensure_selected_objects_valid, holds, texts, validated_selection};
use crate::text::{chars_equal, chars_of, string_of, trim, trim_chars};

verus! {

/// A reasoning depth offered by the radio buttons.
#[derive(PartialEq, Eq, Structural, Clone, Copy, Debug)]
pub enum ReasoningLevel {
    Low,
    Medium,
    High,
    XHigh,
}

impl ReasoningLevel {
    pub open spec fn spec_text(self) -> Seq<char> {
        match self {
            ReasoningLevel::Low => seq!['l', 'o', 'w'],
            ReasoningLevel::Medium => seq!['m', 'e', 'd', 'i', 'u', 'm'],
            ReasoningLevel::High => seq!['h', 'i', 'g', 'h'],
            ReasoningLevel::XHigh => seq!['x', 'h', 'i', 'g', 'h'],
        }
    }

    /// The value written for this depth to the Codex configuration.
    pub fn text(self) -> (r: &'static str)
        ensures
            r@ == self.spec_text(),
    {
        let r = match self {
            ReasoningLevel::Low => "low",
            ReasoningLevel::Medium => "medium",
            ReasoningLevel::High => "high",
            ReasoningLevel::XHigh => "xhigh",
        };
        proof {
            reveal_strlit("low");
            reveal_strlit("medium");
            reveal_strlit("high");
            reveal_strlit("xhigh");
        }
        r
    }
}

/// What a command of a UI object asks the shell to do.
pub enum UiCommandAction {
    /// An empty command: nothing.
    Nothing,
    ProjectDebugRun,
    ProjectTargetMove,
    InputSend,
    InputVoiceToggle,
    OpenSettings,
    BackToMain,
    SaveConfig,
    BrowseWorkingDir,
    /// Browse for the executable of an auto-start slot (0 to 3).
    BrowseAutoStartExe(usize),
    OpenCodexOutputLogDir,
    SetReasoningEffort(ReasoningLevel),
    ToggleUiEdit,
    /// A command the shell does not handle (reported to the user).
    Unknown(String),
}

/// The commands the shell acts on.
pub open spec fn dispatched(c: Seq<char>) -> bool {
    ||| c.len() == 0
    ||| c == MODE_PROJECT_DEBUG_RUN@
    ||| c == MODE_PROJECT_TARGET_MOVE@
    ||| c == INPUT_SEND@
    ||| c == INPUT_VOICE_TOGGLE@
    ||| c == UI_SETTINGS@
    ||| c == NAV_BACK_MAIN@
    ||| c == CONFIG_SAVE@
    ||| c == CONFIG_WORKING_DIR_BROWSE@
    ||| c == CONFIG_AUTO_START_EXE_1_BROWSE@
    ||| c == CONFIG_AUTO_START_EXE_2_BROWSE@
    ||| c == CONFIG_AUTO_START_EXE_3_BROWSE@
    ||| c == CONFIG_AUTO_START_EXE_4_BROWSE@
    ||| c == CONFIG_CODEX_OUTPUT_LOG_DIR_OPEN@
    ||| c == REASONING_LOW@
    ||| c == REASONING_MEDIUM@
    ||| c == REASONING_HIGH@
    ||| c == REASONING_XHIGH@
    ||| c == UI_EDIT_TOGGLE@
}

impl UiCommandAction {
    /// This action is the one for the (trimmed) command `c`.
    pub open spec fn is_action_for(&self, c: Seq<char>) -> bool {
        match self {
            UiCommandAction::Nothing => c.len() == 0,
            UiCommandAction::ProjectDebugRun => c == MODE_PROJECT_DEBUG_RUN@,
            UiCommandAction::ProjectTargetMove => c == MODE_PROJECT_TARGET_MOVE@,
            UiCommandAction::InputSend => c == INPUT_SEND@,
            UiCommandAction::InputVoiceToggle => c == INPUT_VOICE_TOGGLE@,
            UiCommandAction::OpenSettings => c == UI_SETTINGS@,
            UiCommandAction::BackToMain => c == NAV_BACK_MAIN@,
            UiCommandAction::SaveConfig => c == CONFIG_SAVE@,
            UiCommandAction::BrowseWorkingDir => c == CONFIG_WORKING_DIR_BROWSE@,
            UiCommandAction::BrowseAutoStartExe(slot) => {
                ||| (*slot == 0 && c == CONFIG_AUTO_START_EXE_1_BROWSE@)
                ||| (*slot == 1 && c == CONFIG_AUTO_START_EXE_2_BROWSE@)
                ||| (*slot == 2 && c == CONFIG_AUTO_START_EXE_3_BROWSE@)
                ||| (*slot == 3 && c == CONFIG_AUTO_START_EXE_4_BROWSE@)
            },
            UiCommandAction::OpenCodexOutputLogDir => c == CONFIG_CODEX_OUTPUT_LOG_DIR_OPEN@,
            UiCommandAction::SetReasoningEffort(level) => {
                ||| (*level == ReasoningLevel::Low && c == REASONING_LOW@)
                ||| (*level == ReasoningLevel::Medium && c == REASONING_MEDIUM@)
                ||| (*level == ReasoningLevel::High && c == REASONING_HIGH@)
                ||| (*level == ReasoningLevel::XHigh && c == REASONING_XHIGH@)
            },
            UiCommandAction::ToggleUiEdit => c == UI_EDIT_TOGGLE@,
            UiCommandAction::Unknown(s) => s@ == c && !dispatched(c),
        }
    }
}

fn text_is(c: &Vec<char>, name: &str) -> (r: bool)
    ensures
        r == (c@ == name@),
{
    chars_equal(c.as_slice(), chars_of(name).as_slice())
}

/// The action for a command (trimmed first), and whether the command is not
/// one the UI declares (`is_known_ui_command` of the trimmed, non-empty
/// command fails).
pub fn ui_command_action(command: &str) -> (r: (UiCommandAction, bool))
    ensures
        r.0.is_action_for(trim(command@)),
        r.1 == (trim(command@).len() > 0 && !all_ui_commands().contains(trim(command@))),
{
    let c = trim_chars(chars_of(command).as_slice());
    let text = string_of(c.as_slice());
    let undeclared = c.len() > 0 && !is_known_ui_command(text.as_str());
    let action = if c.len() == 0 {
        UiCommandAction::Nothing
    } else if text_is(&c, MODE_PROJECT_DEBUG_RUN) {
        UiCommandAction::ProjectDebugRun
    } else if text_is(&c, MODE_PROJECT_TARGET_MOVE) {
        UiCommandAction::ProjectTargetMove
    } else if text_is(&c, INPUT_SEND) {
        UiCommandAction::InputSend
    } else if text_is(&c, INPUT_VOICE_TOGGLE) {
        UiCommandAction::InputVoiceToggle
    } else if text_is(&c, UI_SETTINGS) {
        UiCommandAction::OpenSettings
    } else if text_is(&c, NAV_BACK_MAIN) {
        UiCommandAction::BackToMain
    } else if text_is(&c, CONFIG_SAVE) {
        UiCommandAction::SaveConfig
    } else if text_is(&c, CONFIG_WORKING_DIR_BROWSE) {
        UiCommandAction::BrowseWorkingDir
    } else if text_is(&c, CONFIG_AUTO_START_EXE_1_BROWSE) {
        UiCommandAction::BrowseAutoStartExe(0)
    } else if text_is(&c, CONFIG_AUTO_START_EXE_2_BROWSE) {
        UiCommandAction::BrowseAutoStartExe(1)
    } else if text_is(&c, CONFIG_AUTO_START_EXE_3_BROWSE) {
        UiCommandAction::BrowseAutoStartExe(2)
    } else if text_is(&c, CONFIG_AUTO_START_EXE_4_BROWSE) {
        UiCommandAction::BrowseAutoStartExe(3)
    } else if text_is(&c, CONFIG_CODEX_OUTPUT_LOG_DIR_OPEN) {
        UiCommandAction::OpenCodexOutputLogDir
    } else if text_is(&c, REASONING_LOW) {
        UiCommandAction::SetReasoningEffort(ReasoningLevel::Low)
    } else if text_is(&c, REASONING_MEDIUM) {
        UiCommandAction::SetReasoningEffort(ReasoningLevel::Medium)
    } else if text_is(&c, REASONING_HIGH) {
        UiCommandAction::SetReasoningEffort(ReasoningLevel::High)
    } else if text_is(&c, REASONING_XHIGH) {
        UiCommandAction::SetReasoningEffort(ReasoningLevel::XHigh)
    } else if text_is(&c, UI_EDIT_TOGGLE) {
        UiCommandAction::ToggleUiEdit
    } else {
        UiCommandAction::Unknown(text)
    };
    (action, undeclared)
}

/// The status line after the edit mode was switched.
pub const UI_EDIT_ENABLED_MESSAGE: &'static str = "UI編集モードを有効化しました";

pub const UI_EDIT_DISABLED_MESSAGE: &'static str = "UI編集モードを無効化しました";

/// The screen shown, the screen and objects selected in the editor, and the
/// edit mode.
pub struct UiSession {
    pub ui_edit_mode: bool,
    pub current_screen_id: String,
    pub selected_screen_id: String,
    pub selected_object_id: String,
    pub selected_object_ids: Vec<String>,
    /// A resize lock set when the window size was saved; lifted when editing
    /// starts.
    pub resize_locked_by_save: bool,
}

/// The primary object when editing starts: kept when it is an object of the
/// screen, else the screen's first object, else none.
pub open spec fn editing_primary(primary: Seq<char>, objects: Option<Seq<Seq<char>>>) -> Seq<char> {
    match objects {
        Some(o) => if primary.len() == 0 || !holds(o, primary) {
            if o.len() > 0 {
                o[0]
            } else {
                Seq::empty()
            }
        } else {
            primary
        },
        None => Seq::empty(),
    }
}

pub open spec fn opt_texts(objects: Option<&Vec<String>>) -> Option<Seq<Seq<char>>> {
    match objects {
        Some(o) => Some(texts(o@)),
        None => None,
    }
}

impl UiSession {
    /// The session at start: the main screen, not editing, nothing selected.
    pub fn new() -> (r: Self)
        ensures
            !r.ui_edit_mode,
            r.current_screen_id@ == UI_MAIN_SCREEN_ID@,
            r.selected_screen_id@ == UI_MAIN_SCREEN_ID@,
            r.selected_object_id@.len() == 0,
            r.selected_object_ids@.len() == 0,
            !r.resize_locked_by_save,
    {
        UiSession {
            ui_edit_mode: false,
            current_screen_id: String::from_str(UI_MAIN_SCREEN_ID),
            selected_screen_id: String::from_str(UI_MAIN_SCREEN_ID),
            selected_object_id: String::new(),
            selected_object_ids: Vec::new(),
            resize_locked_by_save: false,
        }
    }

    /// Whether the main window may be resized: while editing, unless the size
    /// was saved.
    pub fn window_resize_allowed(&self) -> (r: bool)
        ensures
            r == (self.ui_edit_mode && !self.resize_locked_by_save),
    {
        self.ui_edit_mode && !self.resize_locked_by_save
    }

    /// Shows `screen_id`; outside the edit mode the editor follows it.
    fn show_screen(&mut self, screen_id: &str)
        ensures
            final(self).current_screen_id@ == screen_id@,
            final(self).selected_screen_id@ == if old(self).ui_edit_mode {
                old(self).selected_screen_id@
            } else {
                screen_id@
            },
            final(self).ui_edit_mode == old(self).ui_edit_mode,
            final(self).selected_object_id == old(self).selected_object_id,
            final(self).selected_object_ids == old(self).selected_object_ids,
            final(self).resize_locked_by_save == old(self).resize_locked_by_save,
    {
        self.current_screen_id = String::from_str(screen_id);
        if !self.ui_edit_mode {
            self.selected_screen_id = String::from_str(screen_id);
        }
    }

    /// Shows the settings screen.
    pub fn handle_ui_settings(&mut self)
        ensures
            final(self).current_screen_id@ == UI_SETTINGS_SCREEN_ID@,
            final(self).selected_screen_id@ == if old(self).ui_edit_mode {
                old(self).selected_screen_id@
            } else {
                UI_SETTINGS_SCREEN_ID@
            },
            final(self).ui_edit_mode == old(self).ui_edit_mode,
            final(self).selected_object_id == old(self).selected_object_id,
            final(self).selected_object_ids == old(self).selected_object_ids,
            final(self).resize_locked_by_save == old(self).resize_locked_by_save,
    {
        self.show_screen(UI_SETTINGS_SCREEN_ID);
    }

    /// Shows the main screen (the caller then refreshes the project list).
    pub fn handle_nav_back_main(&mut self)
        ensures
            final(self).current_screen_id@ == UI_MAIN_SCREEN_ID@,
            final(self).selected_screen_id@ == if old(self).ui_edit_mode {
                old(self).selected_screen_id@
            } else {
                UI_MAIN_SCREEN_ID@
            },
            final(self).ui_edit_mode == old(self).ui_edit_mode,
            final(self).selected_object_id == old(self).selected_object_id,
            final(self).selected_object_ids == old(self).selected_object_ids,
            final(self).resize_locked_by_save == old(self).resize_locked_by_save,
    {
        self.show_screen(UI_MAIN_SCREEN_ID);
    }

    /// Switches the edit mode. Editing starts on the shown screen, whose
    /// object identifiers are `current_objects` (`None` when the screen does
    /// not exist): the resize lock is lifted and the selection made
    /// consistent with the screen; leaving the edit mode clears the list of
    /// selected objects. Returns the status line.
    pub fn handle_ui_edit_toggle(&mut self, current_objects: Option<&Vec<String>>) -> (message: &'static str)
        ensures
            final(self).ui_edit_mode == !old(self).ui_edit_mode,
            final(self).current_screen_id == old(self).current_screen_id,
            final(self).ui_edit_mode ==> {
                &&& final(self).selected_screen_id@ == old(self).current_screen_id@
                &&& !final(self).resize_locked_by_save
                &&& (final(self).selected_object_id@, texts(final(self).selected_object_ids@)) == validated_selection(
                    editing_primary(old(self).selected_object_id@, opt_texts(current_objects)),
                    texts(old(self).selected_object_ids@),
                    opt_texts(current_objects),
                )
                &&& message@ == UI_EDIT_ENABLED_MESSAGE@
            },
            !final(self).ui_edit_mode ==> {
                &&& final(self).selected_screen_id == old(self).selected_screen_id
                &&& final(self).resize_locked_by_save == old(self).resize_locked_by_save
                &&& final(self).selected_object_id == old(self).selected_object_id
                &&& final(self).selected_object_ids@.len() == 0
                &&& message@ == UI_EDIT_DISABLED_MESSAGE@
            },
    {
        self.ui_edit_mode = !self.ui_edit_mode;
        if !self.ui_edit_mode {
            self.selected_object_ids = Vec::new();
            return UI_EDIT_DISABLED_MESSAGE;
        }
        self.selected_screen_id = self.current_screen_id.clone();
        self.resize_locked_by_save = false;
        let primary_listed = match current_objects {
            Some(o) => crate::selection::contains_text(o, self.selected_object_id.as_str()),
            None => false,
        };
        if chars_of(self.selected_object_id.as_str()).len() == 0 || !primary_listed {
            self.selected_object_id = match current_objects {
                Some(o) => if o.len() > 0 {
                    o[0].clone()
                } else {
                    String::new()
                },
                None => String::new(),
            };
        }
        assert(self.selected_object_id@ == editing_primary(
            old(self).selected_object_id@,
            opt_texts(current_objects),
        )) by {
            match current_objects {
                Some(o) => {
                    if o@.len() > 0 {
                        assert(texts(o@)[0] == o@[0]@);
                    }
                },
                None => {},
            }
        }
        ensure_selected_objects_valid(&mut self.selected_object_id, &mut self.selected_object_ids, current_objects);
        UI_EDIT_ENABLED_MESSAGE
    }
}

/// The lengths of the command identifiers the shell acts on, and where
/// those of equal length differ.
proof fn lemma_dispatched_texts()
    ensures
        MODE_PROJECT_DEBUG_RUN@.len() == 22,
        MODE_PROJECT_TARGET_MOVE@.len() == 24,
        INPUT_SEND@.len() == 10,
        INPUT_VOICE_TOGGLE@.len() == 18,
        UI_SETTINGS@.len() == 11,
        NAV_BACK_MAIN@.len() == 13,
        CONFIG_SAVE@.len() == 11,
        CONFIG_WORKING_DIR_BROWSE@.len() == 25,
        CONFIG_AUTO_START_EXE_1_BROWSE@.len() == 30,
        CONFIG_AUTO_START_EXE_2_BROWSE@.len() == 30,
        CONFIG_AUTO_START_EXE_3_BROWSE@.len() == 30,
        CONFIG_AUTO_START_EXE_4_BROWSE@.len() == 30,
        CONFIG_CODEX_OUTPUT_LOG_DIR_OPEN@.len() == 32,
        REASONING_LOW@.len() == 13,
        REASONING_MEDIUM@.len() == 16,
        REASONING_HIGH@.len() == 14,
        REASONING_XHIGH@.len() == 15,
        UI_EDIT_TOGGLE@.len() == 14,
        UI_SETTINGS@[0] != CONFIG_SAVE@[0],
        NAV_BACK_MAIN@[0] != REASONING_LOW@[0],
        REASONING_HIGH@[0] != UI_EDIT_TOGGLE@[0],
        CONFIG_AUTO_START_EXE_1_BROWSE@[22] == '1',
        CONFIG_AUTO_START_EXE_2_BROWSE@[22] == '2',
        CONFIG_AUTO_START_EXE_3_BROWSE@[22] == '3',
        CONFIG_AUTO_START_EXE_4_BROWSE@[22] == '4',
{
    reveal_strlit("mode.project_debug_run");
    assert(MODE_PROJECT_DEBUG_RUN@ == "mode.project_debug_run"@);
    reveal_strlit("mode.project_target_move");
    assert(MODE_PROJECT_TARGET_MOVE@ == "mode.project_target_move"@);
    reveal_strlit("input.send");
    assert(INPUT_SEND@ == "input.send"@);
    reveal_strlit("input.voice_toggle");
    assert(INPUT_VOICE_TOGGLE@ == "input.voice_toggle"@);
    reveal_strlit("ui.settings");
    assert(UI_SETTINGS@ == "ui.settings"@);
    reveal_strlit("nav.back_main");
    assert(NAV_BACK_MAIN@ == "nav.back_main"@);
    reveal_strlit("config.save");
    assert(CONFIG_SAVE@ == "config.save"@);
    reveal_strlit("config.working_dir.browse");
    assert(CONFIG_WORKING_DIR_BROWSE@ == "config.working_dir.browse"@);
    reveal_strlit("config.auto_start_exe.1.browse");
    assert(CONFIG_AUTO_START_EXE_1_BROWSE@ == "config.auto_start_exe.1.browse"@);
    reveal_strlit("config.auto_start_exe.2.browse");
    assert(CONFIG_AUTO_START_EXE_2_BROWSE@ == "config.auto_start_exe.2.browse"@);
    reveal_strlit("config.auto_start_exe.3.browse");
    assert(CONFIG_AUTO_START_EXE_3_BROWSE@ == "config.auto_start_exe.3.browse"@);
    reveal_strlit("config.auto_start_exe.4.browse");
    assert(CONFIG_AUTO_START_EXE_4_BROWSE@ == "config.auto_start_exe.4.browse"@);
    reveal_strlit("config.codex_output_log_dir.open");
    assert(CONFIG_CODEX_OUTPUT_LOG_DIR_OPEN@ == "config.codex_output_log_dir.open"@);
    reveal_strlit("reasoning.low");
    assert(REASONING_LOW@ == "reasoning.low"@);
    reveal_strlit("reasoning.medium");
    assert(REASONING_MEDIUM@ == "reasoning.medium"@);
    reveal_strlit("reasoning.high");
    assert(REASONING_HIGH@ == "reasoning.high"@);
    reveal_strlit("reasoning.xhigh");
    assert(REASONING_XHIGH@ == "reasoning.xhigh"@);
    reveal_strlit("ui.edit.toggle");
    assert(UI_EDIT_TOGGLE@ == "ui.edit.toggle"@);
}

/// Every command has one action: two actions for the same command are the
/// same, and a command the shell does not act on has only the `Unknown`
/// action.
pub proof fn lemma_command_action_unique(c: Seq<char>, a: UiCommandAction, b: UiCommandAction)
    requires
        a.is_action_for(c),
        b.is_action_for(c),
    ensures
        (a is Unknown) == (b is Unknown),
        !(a is Unknown) ==> a == b,
{
    lemma_dispatched_texts();
}

} // verus!
