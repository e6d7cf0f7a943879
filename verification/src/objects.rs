//! Per-object decisions of the runtime screen: drawing order, radio groups,
//! check states bound to runtime settings, visibility, displayed text and
//! whether a bound command is enabled.

use vstd::prelude::*;
use crate::command::{
    radio_type, is_radio_object_type, CONFIG_MODEL, CONFIG_MODEL_REASONING_EFFORT, INPUT_SEND,
    INPUT_VOICE_TOGGLE, MODE_PROJECT_DEBUG_RUN, MODE_PROJECT_TARGET_MOVE, REASONING_HIGH,
    REASONING_LOW, REASONING_MEDIUM, REASONING_XHIGH, STATUS_MESSAGE, UI_EDIT_LOCKED_HINT,
    UI_EDIT_TOGGLE,
};
use crate::text::{chars_equal, chars_of, string_of, trim, trim_chars};

verus! {

/// What the runtime decisions read of a UI object.
pub struct ObjectSummary {
    pub id: String,
    pub object_type: String,
    pub z_index: i32,
    pub checked: bool,
    pub visible: bool,
    pub enabled: bool,
    pub command: String,
    pub group: String,
    pub text: String,
}

/// `a` is drawn before `b`: lower z index first, then lower position.
pub open spec fn drawn_before(z: Seq<i32>, a: int, b: int) -> bool {
    z[a] < z[b] || (z[a] == z[b] && a < b)
}

/// `order` lists every position of `z` once, in drawing order.
pub open spec fn drawing_order(z: Seq<i32>, order: Seq<usize>) -> bool {
    &&& order.len() == z.len()
    &&& forall|k: int| 0 <= k < order.len() ==> #[trigger] order[k] < z.len()
    &&& forall|i: int| 0 <= i < z.len() ==> #[trigger] order.contains(i as usize)
    &&& forall|a: int, b: int|
        0 <= a < b < order.len() ==> drawn_before(z, #[trigger] order[a] as int, #[trigger] order[b] as int)
}

/// The positions of the objects with z indices `z`, in drawing order.
pub fn ordered_indices(z: &Vec<i32>) -> (r: Vec<usize>)
    ensures
        drawing_order(z@, r@),
{
    let n = z.len();
    let mut r: Vec<usize> = Vec::new();
    let mut i: usize = 0;
    while i < n
        invariant
            i <= n == z@.len(),
            r@.len() == i,
            forall|k: int| 0 <= k < r@.len() ==> #[trigger] r@[k] < i,
            forall|j: int| 0 <= j < i ==> #[trigger] r@.contains(j as usize),
            forall|a: int, b: int|
                0 <= a < b < r@.len() ==> drawn_before(z@, #[trigger] r@[a] as int, #[trigger] r@[b] as int),
        decreases n - i,
    {
        let zi = z[i];
        let mut p: usize = 0;
        while p < r.len() && z[r[p]] <= zi
            invariant
                p <= r@.len(),
                r@.len() == i,
                i < n == z@.len(),
                zi == z@[i as int],
                forall|k: int| 0 <= k < r@.len() ==> #[trigger] r@[k] < i,
                forall|k: int| 0 <= k < p ==> z@[#[trigger] r@[k] as int] <= zi,
            decreases r.len() - p,
        {
            p += 1;
        }
        let ghost old_r = r@;
        r.insert(p, i);
        proof {
            assert(r@ == old_r.insert(p as int, i));
            assert forall|k: int| 0 <= k < r@.len() implies #[trigger] r@[k] < i + 1 by {
                if k < p {
                    assert(r@[k] == old_r[k]);
                } else if k > p {
                    assert(r@[k] == old_r[k - 1]);
                }
            }
            assert forall|j: int| 0 <= j < i + 1 implies #[trigger] r@.contains(j as usize) by {
                if j == i {
                    assert(r@[p as int] == i);
                } else {
                    assert(old_r.contains(j as usize));
                    let k = choose|k: int| 0 <= k < old_r.len() && old_r[k] == j as usize;
                    if k < p {
                        assert(r@[k] == old_r[k]);
                    } else {
                        assert(r@[k + 1] == old_r[k]);
                    }
                }
            }
            assert forall|a: int, b: int| 0 <= a < b < r@.len() implies drawn_before(
                z@,
                #[trigger] r@[a] as int,
                #[trigger] r@[b] as int,
            ) by {
                if b < p {
                    assert(r@[a] == old_r[a] && r@[b] == old_r[b]);
                } else if b == p {
                    assert(r@[a] == old_r[a]);
                    assert(z@[old_r[a] as int] <= zi);
                } else if a == p {
                    assert(r@[b] == old_r[b - 1]);
                    assert(z@[old_r[p as int] as int] > zi);
                    if b - 1 > p {
                        assert(drawn_before(z@, old_r[p as int] as int, old_r[b - 1] as int));
                    }
                } else if a < p {
                    assert(r@[a] == old_r[a] && r@[b] == old_r[b - 1]);
                } else {
                    assert(r@[a] == old_r[a - 1] && r@[b] == old_r[b - 1]);
                }
            }
        }
        i += 1;
    }
    r
}

/// The z indices of the objects.
pub fn z_indices(objects: &Vec<ObjectSummary>) -> (r: Vec<i32>)
    ensures
        r@.len() == objects@.len(),
        forall|k: int| 0 <= k < r@.len() ==> #[trigger] r@[k] == objects@[k].z_index,
{
    let mut r: Vec<i32> = Vec::new();
    let mut i: usize = 0;
    while i < objects.len()
        invariant
            i <= objects@.len(),
            r@.len() == i,
            forall|k: int| 0 <= k < i ==> #[trigger] r@[k] == objects@[k].z_index,
        decreases objects.len() - i,
    {
        r.push(objects[i].z_index);
        i += 1;
    }
    r
}

/// The radio group of an object: its trimmed group name, or its identifier
/// when it names none.
pub open spec fn group_key(group: Seq<char>, id: Seq<char>) -> Seq<char> {
    if trim(group).len() == 0 {
        id
    } else {
        trim(group)
    }
}

pub fn radio_group_key(object: &ObjectSummary) -> (r: String)
    ensures
        r@ == group_key(object.group@, object.id@),
{
    let g = chars_of(object.group.as_str());
    let t = trim_chars(g.as_slice());
    if t.len() == 0 {
        object.id.clone()
    } else {
        string_of(t.as_slice())
    }
}

/// The check states after the radio button at `index` was chosen: every radio
/// button of its group is checked exactly when it is the chosen one; other
/// objects keep their state.
pub open spec fn radio_checked(objects: Seq<ObjectSummary>, index: int, k: int) -> bool {
    if radio_type(objects[k].object_type@) && group_key(objects[k].group@, objects[k].id@)
        == group_key(objects[index].group@, objects[index].id@) {
        k == index
    } else {
        objects[k].checked
    }
}

pub fn radio_checked_after(objects: &Vec<ObjectSummary>, index: usize) -> (r: Vec<bool>)
    requires
        index < objects@.len(),
    ensures
        r@.len() == objects@.len(),
        forall|k: int| 0 <= k < r@.len() ==> #[trigger] r@[k] == radio_checked(objects@, index as int, k),
{
    let key = radio_group_key(&objects[index]);
    let kv = chars_of(key.as_str());
    let mut r: Vec<bool> = Vec::new();
    let mut k: usize = 0;
    while k < objects.len()
        invariant
            index < objects@.len(),
            k <= objects@.len(),
            r@.len() == k,
            kv@ == group_key(objects@[index as int].group@, objects@[index as int].id@),
            forall|j: int| 0 <= j < k ==> #[trigger] r@[j] == radio_checked(objects@, index as int, j),
        decreases objects.len() - k,
    {
        let other = &objects[k];
        let in_group = if is_radio_object_type(other.object_type.as_str()) {
            let ok = radio_group_key(other);
            let okv = chars_of(ok.as_str());
            chars_equal(okv.as_slice(), kv.as_slice())
        } else {
            false
        };
        if in_group {
            r.push(k == index);
        } else {
            r.push(other.checked);
        }
        k += 1;
    }
    r
}

/// The check state a bound command takes from the runtime: the edit mode for
/// the edit toggle, the selected reasoning effort for the effort radios;
/// `None` for other commands.
pub open spec fn runtime_checked(command: Seq<char>, ui_edit_mode: bool, effort: Seq<char>) -> Option<bool> {
    let c = trim(command);
    if c == UI_EDIT_TOGGLE@ {
        Some(ui_edit_mode)
    } else if c == REASONING_LOW@ {
        Some(effort == "low"@)
    } else if c == REASONING_MEDIUM@ {
        Some(effort == "medium"@)
    } else if c == REASONING_HIGH@ {
        Some(effort == "high"@)
    } else if c == REASONING_XHIGH@ {
        Some(effort == "xhigh"@)
    } else {
        None
    }
}

fn eq_lit(v: &Vec<char>, lit: &str) -> (r: bool)
    ensures
        r == (v@ == lit@),
{
    let l = chars_of(lit);
    chars_equal(v.as_slice(), l.as_slice())
}

pub fn runtime_checked_for_command(command: &str, ui_edit_mode: bool, effort: &str) -> (r: Option<bool>)
    ensures
        r == runtime_checked(command@, ui_edit_mode, effort@),
{
    let v = chars_of(command);
    let c = trim_chars(v.as_slice());
    let e = chars_of(effort);
    if eq_lit(&c, UI_EDIT_TOGGLE) {
        Some(ui_edit_mode)
    } else if eq_lit(&c, REASONING_LOW) {
        Some(eq_lit(&e, "low"))
    } else if eq_lit(&c, REASONING_MEDIUM) {
        Some(eq_lit(&e, "medium"))
    } else if eq_lit(&c, REASONING_HIGH) {
        Some(eq_lit(&e, "high"))
    } else if eq_lit(&c, REASONING_XHIGH) {
        Some(eq_lit(&e, "xhigh"))
    } else {
        None
    }
}

/// The check state of every object after taking the runtime settings.
pub open spec fn synced_checked(o: ObjectSummary, ui_edit_mode: bool, effort: Seq<char>) -> bool {
    match runtime_checked(o.command@, ui_edit_mode, effort) {
        Some(b) => b,
        None => o.checked,
    }
}

/// The check states of the objects after taking the runtime settings, and
/// whether any changed.
pub fn sync_runtime_bound_states(objects: &Vec<ObjectSummary>, ui_edit_mode: bool, effort: &str) -> (r: (Vec<bool>, bool))
    ensures
        r.0@.len() == objects@.len(),
        forall|k: int| 0 <= k < objects@.len() ==> #[trigger] r.0@[k] == synced_checked(objects@[k], ui_edit_mode, effort@),
        r.1 == exists|k: int| 0 <= k < objects@.len() && synced_checked(objects@[k], ui_edit_mode, effort@) != objects@[k].checked,
{
    let mut states: Vec<bool> = Vec::new();
    let mut changed = false;
    let mut k: usize = 0;
    while k < objects.len()
        invariant
            k <= objects@.len(),
            states@.len() == k,
            forall|j: int| 0 <= j < k ==> #[trigger] states@[j] == synced_checked(objects@[j], ui_edit_mode, effort@),
            changed == exists|j: int| 0 <= j < k && synced_checked(objects@[j], ui_edit_mode, effort@) != objects@[j].checked,
        decreases objects.len() - k,
    {
        let o = &objects[k];
        let next = match runtime_checked_for_command(o.command.as_str(), ui_edit_mode, effort) {
            Some(b) => b,
            None => o.checked,
        };
        if next != o.checked {
            changed = true;
        }
        states.push(next);
        k += 1;
    }
    (states, changed)
}

/// An object is shown at run time when it is visible; the edit-lock hint only
/// in edit mode.
pub open spec fn runtime_visible(visible: bool, command: Seq<char>, ui_edit_mode: bool) -> bool {
    visible && (trim(command) == UI_EDIT_LOCKED_HINT@ ==> ui_edit_mode)
}

pub fn is_object_runtime_visible(object: &ObjectSummary, ui_edit_mode: bool) -> (r: bool)
    ensures
        r == runtime_visible(object.visible, object.command@, ui_edit_mode),
{
    if !object.visible {
        return false;
    }
    let v = chars_of(object.command.as_str());
    let c = trim_chars(v.as_slice());
    if eq_lit(&c, UI_EDIT_LOCKED_HINT) {
        ui_edit_mode
    } else {
        true
    }
}

/// The text an object shows: the status line for the status command, a fixed
/// hint for the edit-lock hint, the recording label for the voice toggle
/// while recording (its own text, or a default label, otherwise); any other
/// object shows its text, or its identifier, or its type.
pub open spec fn object_text(
    command: Seq<char>,
    text: Seq<char>,
    id: Seq<char>,
    object_type: Seq<char>,
    status_message: Seq<char>,
    voice_input_active: bool,
) -> Seq<char> {
    let c = trim(command);
    if c == STATUS_MESSAGE@ {
        "状態: "@ + status_message
    } else if c == UI_EDIT_LOCKED_HINT@ {
        "編集モード中のため操作は無効"@
    } else if c == INPUT_VOICE_TOGGLE@ {
        if voice_input_active {
            "読み取り中"@
        } else if trim(text).len() == 0 {
            "音声入力"@
        } else {
            text
        }
    } else if trim(text).len() == 0 {
        if trim(id).len() == 0 {
            object_type
        } else {
            id
        }
    } else {
        text
    }
}

pub fn resolve_object_text(object: &ObjectSummary, status_message: &str, voice_input_active: bool) -> (r: String)
    ensures
        r@ == object_text(
            object.command@,
            object.text@,
            object.id@,
            object.object_type@,
            status_message@,
            voice_input_active,
        ),
{
    let v = chars_of(object.command.as_str());
    let c = trim_chars(v.as_slice());
    let tv = chars_of(object.text.as_str());
    let text_empty = trim_chars(tv.as_slice()).len() == 0;
    if eq_lit(&c, STATUS_MESSAGE) {
        let mut s = String::from_str("状態: ");
        s.append(status_message);
        s
    } else if eq_lit(&c, UI_EDIT_LOCKED_HINT) {
        String::from_str("編集モード中のため操作は無効")
    } else if eq_lit(&c, INPUT_VOICE_TOGGLE) {
        if voice_input_active {
            String::from_str("読み取り中")
        } else if text_empty {
            String::from_str("音声入力")
        } else {
            object.text.clone()
        }
    } else if text_empty {
        let iv = chars_of(object.id.as_str());
        if trim_chars(iv.as_slice()).len() == 0 {
            object.object_type.clone()
        } else {
            object.id.clone()
        }
    } else {
        object.text.clone()
    }
}

/// Whether a bound command can be used, as far as the runtime state decides.
pub enum CommandAvailability {
    Enabled,
    Disabled,
    /// Enabled exactly when the selected project's debug executable resolves
    /// (which takes reading the declaration file).
    IfDebugExecutableResolves,
}

/// Availability of a bound command: while Codex runs, sending, launching,
/// moving and changing the model or effort are off; launching needs the
/// highlighted project; sending needs the highlighted project; moving needs a
/// target folder.
pub open spec fn availability(
    command: Seq<char>,
    codex_running: bool,
    project_highlighted: bool,
    target_dir_set: bool,
) -> CommandAvailability {
    let c = trim(command);
    if codex_running && (c == INPUT_SEND@ || c == MODE_PROJECT_DEBUG_RUN@ || c == MODE_PROJECT_TARGET_MOVE@
        || c == CONFIG_MODEL@ || c == CONFIG_MODEL_REASONING_EFFORT@) {
        CommandAvailability::Disabled
    } else if c == MODE_PROJECT_DEBUG_RUN@ && !project_highlighted {
        CommandAvailability::Disabled
    } else if c == INPUT_SEND@ {
        if project_highlighted && !codex_running {
            CommandAvailability::Enabled
        } else {
            CommandAvailability::Disabled
        }
    } else if c == MODE_PROJECT_DEBUG_RUN@ {
        CommandAvailability::IfDebugExecutableResolves
    } else if c == MODE_PROJECT_TARGET_MOVE@ {
        if target_dir_set {
            CommandAvailability::Enabled
        } else {
            CommandAvailability::Disabled
        }
    } else {
        CommandAvailability::Enabled
    }
}

pub fn bind_command_availability(
    command: &str,
    codex_running: bool,
    project_highlighted: bool,
    target_dir_set: bool,
) -> (r: CommandAvailability)
    ensures
        r == availability(command@, codex_running, project_highlighted, target_dir_set),
{
    let v = chars_of(command);
    let c = trim_chars(v.as_slice());
    let send = eq_lit(&c, INPUT_SEND);
    let run = eq_lit(&c, MODE_PROJECT_DEBUG_RUN);
    let mv = eq_lit(&c, MODE_PROJECT_TARGET_MOVE);
    if codex_running && (send || run || mv || eq_lit(&c, CONFIG_MODEL) || eq_lit(
        &c,
        CONFIG_MODEL_REASONING_EFFORT,
    )) {
        CommandAvailability::Disabled
    } else if run && !project_highlighted {
        CommandAvailability::Disabled
    } else if send {
        if project_highlighted && !codex_running {
            CommandAvailability::Enabled
        } else {
            CommandAvailability::Disabled
        }
    } else if run {
        CommandAvailability::IfDebugExecutableResolves
    } else if mv {
        if target_dir_set {
            CommandAvailability::Enabled
        } else {
            CommandAvailability::Disabled
        }
    } else {
        CommandAvailability::Enabled
    }
}

/// Whether a bound command is enabled, given whether the selected project's
/// debug executable resolves.
pub open spec fn command_enabled(
    command: Seq<char>,
    codex_running: bool,
    project_highlighted: bool,
    target_dir_set: bool,
    debug_exe_resolves: bool,
) -> bool {
    match availability(command, codex_running, project_highlighted, target_dir_set) {
        CommandAvailability::Enabled => true,
        CommandAvailability::Disabled => false,
        CommandAvailability::IfDebugExecutableResolves => debug_exe_resolves,
    }
}

/// Whether a bound command is enabled; `debug_exe_resolves` says whether the
/// selected project's debug executable resolves, and only matters for the
/// launch command.
pub fn is_bind_command_enabled(
    command: &str,
    codex_running: bool,
    project_highlighted: bool,
    target_dir_set: bool,
    debug_exe_resolves: bool,
) -> (r: bool)
    ensures
        r == command_enabled(command@, codex_running, project_highlighted, target_dir_set, debug_exe_resolves),
{
    match bind_command_availability(command, codex_running, project_highlighted, target_dir_set) {
        CommandAvailability::Enabled => true,
        CommandAvailability::Disabled => false,
        CommandAvailability::IfDebugExecutableResolves => debug_exe_resolves,
    }
}

/// When a bound command is enabled, in full: not while Codex runs for
/// sending, launching, moving and the model and effort settings; launching
/// when the selected project is highlighted and its debug executable
/// resolves; sending when the selected project is highlighted; moving when a
/// target folder is set; any other command always.
pub proof fn lemma_command_enabled(
    command: Seq<char>,
    codex_running: bool,
    project_highlighted: bool,
    target_dir_set: bool,
    debug_exe_resolves: bool,
)
    ensures
        ({
            let c = trim(command);
            command_enabled(command, codex_running, project_highlighted, target_dir_set, debug_exe_resolves) <==> {
                &&& !(codex_running && (c == INPUT_SEND@ || c == MODE_PROJECT_DEBUG_RUN@ || c
                    == MODE_PROJECT_TARGET_MOVE@ || c == CONFIG_MODEL@ || c == CONFIG_MODEL_REASONING_EFFORT@))
                &&& c == MODE_PROJECT_DEBUG_RUN@ ==> project_highlighted && debug_exe_resolves
                &&& c == INPUT_SEND@ ==> project_highlighted
                &&& c == MODE_PROJECT_TARGET_MOVE@ ==> target_dir_set
            }
        }),
{
    reveal_strlit("mode.project_debug_run");
    reveal_strlit("mode.project_target_move");
    reveal_strlit("input.send");
    assert(MODE_PROJECT_DEBUG_RUN@ != INPUT_SEND@) by {
        assert(MODE_PROJECT_DEBUG_RUN@.len() != INPUT_SEND@.len());
    }
    assert(MODE_PROJECT_TARGET_MOVE@ != INPUT_SEND@) by {
        assert(MODE_PROJECT_TARGET_MOVE@.len() != INPUT_SEND@.len());
    }
    assert(MODE_PROJECT_TARGET_MOVE@ != MODE_PROJECT_DEBUG_RUN@) by {
        assert(MODE_PROJECT_TARGET_MOVE@[13] != MODE_PROJECT_DEBUG_RUN@[13]);
    }
}

/// The identifier of the button that moves the session to the project folder.
pub const PROJECT_TARGET_MOVE_BUTTON_ID: &'static str = "btn_project_target_move";

/// A button is enabled when controls are enabled, the object is enabled, its
/// command is available, and it is not the move button of an already
/// highlighted project.
pub open spec fn button_enabled(
    controls_enabled: bool,
    object_enabled: bool,
    command_available: bool,
    object_id: Seq<char>,
    project_highlighted: bool,
) -> bool {
    controls_enabled && object_enabled && command_available && !(object_id
        == PROJECT_TARGET_MOVE_BUTTON_ID@ && project_highlighted)
}

pub fn is_button_enabled(
    controls_enabled: bool,
    object_enabled: bool,
    command_available: bool,
    object_id: &str,
    project_highlighted: bool,
) -> (r: bool)
    ensures
        r == button_enabled(controls_enabled, object_enabled, command_available, object_id@, project_highlighted),
{
    let v = chars_of(object_id);
    let is_move = eq_lit(&v, PROJECT_TARGET_MOVE_BUTTON_ID);
    controls_enabled && object_enabled && command_available && !(is_move && project_highlighted)
}

/// How an object is drawn, by its (trimmed) type; any other type is a button.
#[derive(PartialEq, Eq, Structural, Clone, Copy, Debug)]
pub enum WidgetKind {
    Panel,
    Label,
    Input,
    Image,
    ComboBox,
    Checkbox,
    Radio,
    Button,
}

pub open spec fn widget_kind_of(object_type: Seq<char>) -> WidgetKind {
    let t = trim(object_type);
    if t == "panel"@ {
        WidgetKind::Panel
    } else if t == "label"@ {
        WidgetKind::Label
    } else if t == "input"@ {
        WidgetKind::Input
    } else if t == "image"@ {
        WidgetKind::Image
    } else if t == "combo_box"@ || t == "combobox"@ || t == "project_dropdown"@ || t == "dropdown"@ {
        WidgetKind::ComboBox
    } else if t == "checkbox"@ {
        WidgetKind::Checkbox
    } else if radio_type(object_type) {
        WidgetKind::Radio
    } else {
        WidgetKind::Button
    }
}

/// The widget an object of type `object_type` is drawn as.
pub fn widget_kind(object_type: &str) -> (r: WidgetKind)
    ensures
        r == widget_kind_of(object_type@),
{
    let t = trim_chars(chars_of(object_type).as_slice());
    if eq_lit(&t, "panel") {
        WidgetKind::Panel
    } else if eq_lit(&t, "label") {
        WidgetKind::Label
    } else if eq_lit(&t, "input") {
        WidgetKind::Input
    } else if eq_lit(&t, "image") {
        WidgetKind::Image
    } else if eq_lit(&t, "combo_box") || eq_lit(&t, "combobox") || eq_lit(&t, "project_dropdown") || eq_lit(
        &t,
        "dropdown",
    ) {
        WidgetKind::ComboBox
    } else if eq_lit(&t, "checkbox") {
        WidgetKind::Checkbox
    } else if is_radio_object_type(object_type) {
        WidgetKind::Radio
    } else {
        WidgetKind::Button
    }
}

/// Which list a combo box offers, by its (trimmed) command.
#[derive(PartialEq, Eq, Structural, Clone, Copy, Debug)]
pub enum ComboKind {
    Model,
    ReasoningEffort,
    Project,
}

pub fn combo_kind(command: &str) -> (r: ComboKind)
    ensures
        r == if trim(command@) == CONFIG_MODEL@ {
            ComboKind::Model
        } else if trim(command@) == CONFIG_MODEL_REASONING_EFFORT@ {
            ComboKind::ReasoningEffort
        } else {
            ComboKind::Project
        },
{
    let c = trim_chars(chars_of(command).as_slice());
    if eq_lit(&c, CONFIG_MODEL) {
        ComboKind::Model
    } else if eq_lit(&c, CONFIG_MODEL_REASONING_EFFORT) {
        ComboKind::ReasoningEffort
    } else {
        ComboKind::Project
    }
}

/// Where a label's text sits along its width.
#[derive(PartialEq, Eq, Structural, Clone, Copy, Debug)]
pub enum TextAlign {
    Left,
    Center,
    Right,
}

/// The alignment named by a label's (trimmed) `align`: `left`, `right`, or
/// centered for anything else.
pub fn text_align(align: &str) -> (r: TextAlign)
    ensures
        r == if trim(align@) == "left"@ {
            TextAlign::Left
        } else if trim(align@) == "right"@ {
            TextAlign::Right
        } else {
            TextAlign::Center
        },
{
    let a = trim_chars(chars_of(align).as_slice());
    if eq_lit(&a, "left") {
        TextAlign::Left
    } else if eq_lit(&a, "right") {
        TextAlign::Right
    } else {
        TextAlign::Center
    }
}

/// The text shown in place of an image: `image`, with its trimmed key after
/// `image: ` when it has one.
pub fn image_placeholder_text(image_key: &str) -> (r: String)
    ensures
        r@ == if trim(image_key@).len() == 0 {
            "image"@
        } else {
            "image: "@ + trim(image_key@)
        },
{
    let k = trim_chars(chars_of(image_key).as_slice());
    if k.len() == 0 {
        String::from_str("image")
    } else {
        let mut v = chars_of("image: ");
        let mut kk = k;
        v.append(&mut kk);
        string_of(v.as_slice())
    }
}

/// Choosing a radio button leaves exactly that button checked in its group
/// (the radio buttons with its group key); every other object keeps its state.
pub proof fn lemma_radio_exclusive(objects: Seq<ObjectSummary>, index: int)
    requires
        0 <= index < objects.len(),
        radio_type(objects[index].object_type@),
    ensures
        radio_checked(objects, index, index),
        forall|k: int|
            0 <= k < objects.len() && radio_type(objects[k].object_type@) && group_key(objects[k].group@, objects[k].id@)
                == group_key(objects[index].group@, objects[index].id@) ==> (#[trigger] radio_checked(objects, index, k)
                <==> k == index),
        forall|k: int|
            0 <= k < objects.len() && !(radio_type(objects[k].object_type@) && group_key(
                objects[k].group@,
                objects[k].id@,
            ) == group_key(objects[index].group@, objects[index].id@)) ==> #[trigger] radio_checked(objects, index, k)
                == objects[k].checked,
{
}

/// Taking the runtime settings a second time changes nothing: the states after
/// one sync are those that a sync of the synced objects gives, so that sync
/// reports no change.
pub proof fn lemma_sync_idempotent(
    objects: Seq<ObjectSummary>,
    synced: Seq<ObjectSummary>,
    ui_edit_mode: bool,
    effort: Seq<char>,
)
    requires
        synced.len() == objects.len(),
        forall|k: int|
            0 <= k < objects.len() ==> (#[trigger] synced[k]).command == objects[k].command && synced[k].checked
                == synced_checked(objects[k], ui_edit_mode, effort),
    ensures
        forall|k: int|
            0 <= k < synced.len() ==> #[trigger] synced_checked(synced[k], ui_edit_mode, effort) == synced[k].checked,
        !exists|k: int| 0 <= k < synced.len() && synced_checked(synced[k], ui_edit_mode, effort) != synced[k].checked,
{
    assert forall|k: int| 0 <= k < synced.len() implies #[trigger] synced_checked(synced[k], ui_edit_mode, effort)
        == synced[k].checked by {
        assert(synced[k].command == objects[k].command);
    }
}

/// The clicked commands that a frame runs: all of them, in order, when the
/// controls are enabled; none in edit mode, where the controls are not.
pub fn commands_to_dispatch(controls_enabled: bool, clicked: Vec<String>) -> (r: Vec<String>)
    ensures
        controls_enabled ==> r@ == clicked@,
        !controls_enabled ==> r@.len() == 0,
{
    if controls_enabled {
        clicked
    } else {
        Vec::new()
    }
}

/// The reasoning effort levels that a radio button can be bound to.
pub open spec fn effort_levels() -> Seq<Seq<char>> {
    seq!["low"@, "medium"@, "high"@, "xhigh"@]
}

/// An object bound to `reasoning.<level>` takes, from the runtime, the check
/// state "the selected effort is `<level>`", whatever the edit mode.
pub proof fn lemma_effort_radio_follows_effort(command: Seq<char>, ui_edit_mode: bool, effort: Seq<char>, level: Seq<char>)
    requires
        effort_levels().contains(level),
        trim(command) == "reasoning."@ + level,
    ensures
        runtime_checked(command, ui_edit_mode, effort) == Some(effort == level),
{
    reveal_strlit("reasoning.");
    reveal_strlit("low");
    reveal_strlit("medium");
    reveal_strlit("high");
    reveal_strlit("xhigh");
    reveal_strlit("reasoning.low");
    reveal_strlit("reasoning.medium");
    reveal_strlit("reasoning.high");
    reveal_strlit("reasoning.xhigh");
    reveal_strlit("ui.edit.toggle");
    let c = trim(command);
    let k = choose|k: int| 0 <= k < 4 && effort_levels()[k] == level;
    assert(c[0] == 'r');
    assert(UI_EDIT_TOGGLE@[0] == 'u');
    if k == 0 {
        assert(c =~= REASONING_LOW@);
    } else if k == 1 {
        assert(c =~= REASONING_MEDIUM@);
        assert(c.len() != REASONING_LOW@.len());
    } else if k == 2 {
        assert(c =~= REASONING_HIGH@);
        assert(c.len() != REASONING_LOW@.len());
        assert(c.len() != REASONING_MEDIUM@.len());
    } else {
        assert(c =~= REASONING_XHIGH@);
        assert(c.len() != REASONING_LOW@.len());
        assert(c.len() != REASONING_MEDIUM@.len());
        assert(c.len() != REASONING_HIGH@.len());
    }
}

/// After a sync, an object bound to `reasoning.<level>` is checked exactly
/// when the selected effort is `<level>`.
pub proof fn lemma_synced_effort_radio(o: ObjectSummary, ui_edit_mode: bool, effort: Seq<char>, level: Seq<char>)
    requires
        effort_levels().contains(level),
        trim(o.command@) == "reasoning."@ + level,
    ensures
        synced_checked(o, ui_edit_mode, effort) == (effort == level),
{
    lemma_effort_radio_follows_effort(o.command@, ui_edit_mode, effort, level);
}

/// An object bound to the edit toggle is checked exactly in edit mode,
/// whatever the selected effort.
pub proof fn lemma_edit_toggle_follows_mode(command: Seq<char>, ui_edit_mode: bool, effort: Seq<char>)
    requires
        trim(command) == "ui.edit.toggle"@,
    ensures
        runtime_checked(command, ui_edit_mode, effort) == Some(ui_edit_mode),
{
    reveal_strlit("ui.edit.toggle");
    assert(trim(command) =~= UI_EDIT_TOGGLE@);
}

} // verus!
