//! Decisions of the UI editor panel: which screen and objects it edits, how
//! the object list is labelled and ordered, and which window size its size
//! overlay shows.

use vstd::prelude::*;
use crate::command::{custom_windows_screen, is_custom_windows_screen, UI_MAIN_SCREEN_ID};
use crate::objects::{drawing_order, ordered_indices, z_indices, ObjectSummary};
use crate::selection::{contains_text, holds, texts};
use crate::text::{
    chars_equal, chars_of, decimal, decimal_chars, signed_decimal, signed_decimal_chars, string_of, trim,
    trim_chars,
};

verus! {

/// Makes the edited screen one that exists: when it is empty or unknown,
/// the first screen is taken and the object selection cleared. Returns
/// `false`, changing nothing, when there is no screen.
pub fn ensure_editor_screen(
    screen_id: &mut String,
    primary: &mut String,
    selected: &mut Vec<String>,
    screen_ids: &Vec<String>,
) -> (r: bool)
    ensures
        r == (screen_ids@.len() > 0),
        !r ==> *final(screen_id) == *old(screen_id) && *final(primary) == *old(primary) && *final(selected) == *old(selected),
        r && old(screen_id)@.len() > 0 && holds(texts(screen_ids@), old(screen_id)@) ==> *final(screen_id) == *old(
            screen_id,
        ) && *final(primary) == *old(primary) && *final(selected) == *old(selected),
        r && (old(screen_id)@.len() == 0 || !holds(texts(screen_ids@), old(screen_id)@)) ==> final(screen_id)@
            == screen_ids@[0]@ && final(primary)@.len() == 0 && final(selected)@.len() == 0,
        r ==> holds(texts(screen_ids@), final(screen_id)@),
{
    if screen_ids.len() == 0 {
        return false;
    }
    assert(texts(screen_ids@)[0] == screen_ids@[0]@);
    if chars_of(screen_id.as_str()).len() == 0 || !contains_text(screen_ids, screen_id.as_str()) {
        *screen_id = screen_ids[0].clone();
        *primary = String::new();
        *selected = Vec::new();
    }
    true
}

/// Makes the edited object one of the screen's objects (`object_ids`, not
/// empty): when it is empty or unknown, the first object becomes the only
/// selected one; otherwise it is put first in the selection when missing
/// from it.
pub fn ensure_editor_object(primary: &mut String, selected: &mut Vec<String>, object_ids: &Vec<String>)
    requires
        object_ids@.len() > 0,
    ensures
        (old(primary)@.len() == 0 || !holds(texts(object_ids@), old(primary)@)) ==> final(primary)@ == object_ids@[0]@
            && texts(final(selected)@) == seq![object_ids@[0]@],
        !(old(primary)@.len() == 0 || !holds(texts(object_ids@), old(primary)@)) ==> *final(primary) == *old(primary)
            && texts(final(selected)@) == if holds(texts(old(selected)@), old(primary)@) {
            texts(old(selected)@)
        } else {
            texts(old(selected)@).insert(0, old(primary)@)
        },
        holds(texts(object_ids@), final(primary)@),
        holds(texts(final(selected)@), final(primary)@),
{
    assert(texts(object_ids@)[0] == object_ids@[0]@);
    if chars_of(primary.as_str()).len() == 0 || !contains_text(object_ids, primary.as_str()) {
        *primary = object_ids[0].clone();
        let mut v: Vec<String> = Vec::new();
        v.push(primary.clone());
        *selected = v;
        assert(texts(selected@) =~= seq![object_ids@[0]@]);
        assert(texts(selected@)[0] == primary@);
    } else if !contains_text(selected, primary.as_str()) {
        let ghost before = texts(selected@);
        selected.insert(0, primary.clone());
        assert(texts(selected@) =~= before.insert(0, primary@));
        assert(texts(selected@)[0] == primary@);
    }
}

/// After the object combo box: when the edited object is not in the
/// selection, it becomes the only selected one.
pub fn keep_editor_object_selected(primary: &String, selected: &mut Vec<String>)
    ensures
        holds(texts(old(selected)@), primary@) ==> *final(selected) == *old(selected),
        !holds(texts(old(selected)@), primary@) ==> texts(final(selected)@) == seq![primary@],
        holds(texts(final(selected)@), primary@),
{
    if !contains_text(selected, primary.as_str()) {
        let mut v: Vec<String> = Vec::new();
        v.push(primary.clone());
        *selected = v;
        assert(texts(selected@) =~= seq![primary@]);
        assert(texts(selected@)[0] == primary@);
    }
}

/// The label of an object in the editor's list: its text when not blank,
/// else `<position + 1>: <id> (z=<z index>)`.
pub open spec fn object_list_label(index: nat, o: ObjectSummary) -> Seq<char> {
    if trim(o.text@).len() > 0 {
        o.text@
    } else {
        decimal(index + 1) + seq![':', ' '] + o.id@ + seq![' ', '(', 'z', '='] + signed_decimal(o.z_index as int)
            + seq![')']
    }
}

/// One row of the editor's object list.
pub struct ObjectListEntry {
    pub index: usize,
    pub id: String,
    pub label: String,
}

fn object_label(index: usize, o: &ObjectSummary) -> (r: String)
    requires
        index < usize::MAX,
    ensures
        r@ == object_list_label(index as nat, *o),
{
    if trim_chars(chars_of(o.text.as_str()).as_slice()).len() > 0 {
        return o.text.clone();
    }
    let mut v = decimal_chars(index as u64 + 1);
    v.push(':');
    v.push(' ');
    let mut id = chars_of(o.id.as_str());
    v.append(&mut id);
    v.push(' ');
    v.push('(');
    v.push('z');
    v.push('=');
    let mut z = signed_decimal_chars(o.z_index);
    v.append(&mut z);
    v.push(')');
    let r = string_of(v.as_slice());
    assert(r@ =~= object_list_label(index as nat, *o));
    r
}

pub open spec fn zs(objects: Seq<ObjectSummary>) -> Seq<i32> {
    objects.map_values(|o: ObjectSummary| o.z_index)
}

/// The rows of the editor's object list: every object once, by z index and
/// then position, labelled.
pub fn editor_object_entries(objects: &Vec<ObjectSummary>) -> (r: Vec<ObjectListEntry>)
    ensures
        exists|order: Seq<usize>|
            #![trigger drawing_order(zs(objects@), order)]
            drawing_order(zs(objects@), order) && r@.len() == order.len() && forall|k: int|
                0 <= k < r@.len() ==> #[trigger] r@[k].index == order[k] && r@[k].id@ == objects@[order[k] as int].id@
                    && r@[k].label@ == object_list_label(order[k] as nat, objects@[order[k] as int]),
{
    let z = z_indices(objects);
    assert(z@ =~= zs(objects@));
    let order = ordered_indices(&z);
    let mut r: Vec<ObjectListEntry> = Vec::new();
    let mut k: usize = 0;
    while k < order.len()
        invariant
            drawing_order(zs(objects@), order@),
            k <= order@.len(),
            r@.len() == k,
            forall|j: int|
                0 <= j < k ==> #[trigger] r@[j].index == order@[j] && r@[j].id@ == objects@[order@[j] as int].id@
                    && r@[j].label@ == object_list_label(order@[j] as nat, objects@[order@[j] as int]),
        decreases order.len() - k,
    {
        let i = order[k];
        assert(zs(objects@).len() == objects@.len());
        let label = object_label(i, &objects[i]);
        let entry = ObjectListEntry { index: i, id: objects[i].id.clone(), label };
        let ghost before = r@;
        r.push(entry);
        assert forall|j: int| 0 <= j < k + 1 implies #[trigger] r@[j].index == order@[j] && r@[j].id@
            == objects@[order@[j] as int].id@ && r@[j].label@ == object_list_label(
            order@[j] as nat,
            objects@[order@[j] as int],
        ) by {
            if j < k {
                assert(r@[j] == before[j]);
            }
        }
        k += 1;
    }
    r
}

/// The text of the object combo box: the label of the edited object, or its
/// identifier when no row has it.
pub fn editor_selected_object_text(entries: &Vec<ObjectListEntry>, primary: &str) -> (r: String)
    ensures
        (exists|k: int| 0 <= k < entries@.len() && entries@[k].id@ == primary@) ==> exists|k: int|
            0 <= k < entries@.len() && entries@[k].id@ == primary@ && r@ == entries@[k].label@ && forall|j: int|
                0 <= j < k ==> entries@[j].id@ != primary@,
        !(exists|k: int| 0 <= k < entries@.len() && entries@[k].id@ == primary@) ==> r@ == primary@,
{
    let p = chars_of(primary);
    let mut k: usize = 0;
    while k < entries.len()
        invariant
            k <= entries@.len(),
            p@ == primary@,
            forall|j: int| 0 <= j < k ==> entries@[j].id@ != primary@,
        decreases entries.len() - k,
    {
        if chars_equal(chars_of(entries[k].id.as_str()).as_slice(), p.as_slice()) {
            return entries[k].label.clone();
        }
        k += 1;
    }
    String::from_str(primary)
}

/// Where the size overlay takes the window size from.
#[derive(PartialEq, Eq, Structural, Clone, Copy, Debug)]
pub enum WindowSizeSource {
    /// The main window's size.
    MainWindow,
    /// The size of the window created for the screen.
    CreatedWindow,
    /// The size of the screen's modal panel (or of its visible objects),
    /// falling back to the created window's size.
    ModalContent,
}

/// The size source for the edited screen.
pub fn target_window_size_source(screen_id: &str) -> (r: WindowSizeSource)
    ensures
        r == if trim(screen_id@) == UI_MAIN_SCREEN_ID@ {
            WindowSizeSource::MainWindow
        } else if custom_windows_screen(screen_id@) {
            WindowSizeSource::CreatedWindow
        } else {
            WindowSizeSource::ModalContent
        },
{
    let t = trim_chars(chars_of(screen_id).as_slice());
    if chars_equal(t.as_slice(), chars_of(UI_MAIN_SCREEN_ID).as_slice()) {
        WindowSizeSource::MainWindow
    } else if is_custom_windows_screen(screen_id) {
        WindowSizeSource::CreatedWindow
    } else {
        WindowSizeSource::ModalContent
    }
}

} // verus!
