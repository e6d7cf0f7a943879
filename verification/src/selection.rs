//! Object selection in the UI editor: the primary object and the list of
//! selected objects, kept consistent with the objects of a screen.

use vstd::prelude::*;
use crate::text::{chars_equal, chars_of};

verus! {

/// Whether `list` holds the text `s`.
pub open spec fn holds(list: Seq<Seq<char>>, s: Seq<char>) -> bool {
    exists|i: int| 0 <= i < list.len() && list[i] == s
}

/// The texts of a list of strings.
pub open spec fn texts(v: Seq<String>) -> Seq<Seq<char>> {
    v.map_values(|s: String| s@)
}

/// The selection list after dropping the identifiers that are not objects of
/// the screen, keeping the order.
pub open spec fn retained(selected: Seq<Seq<char>>, objects: Seq<Seq<char>>) -> Seq<Seq<char>>
    decreases selected.len(),
{
    if selected.len() == 0 {
        Seq::empty()
    } else {
        let rest = retained(selected.drop_last(), objects);
        if holds(objects, selected.last()) {
            rest.push(selected.last())
        } else {
            rest
        }
    }
}

/// The primary object after validation: kept when it is a (non-empty)
/// object of the screen, else the first retained selection, else the first
/// object of the screen, else empty.
pub open spec fn valid_primary(primary: Seq<char>, kept: Seq<Seq<char>>, objects: Seq<Seq<char>>) -> Seq<char> {
    if primary.len() == 0 || !holds(objects, primary) {
        if kept.len() > 0 {
            kept[0]
        } else if objects.len() > 0 {
            objects[0]
        } else {
            Seq::empty()
        }
    } else {
        primary
    }
}

/// The first position of `s` in `list`.
pub open spec fn first_pos(list: Seq<Seq<char>>, s: Seq<char>, i: int) -> bool {
    0 <= i < list.len() && list[i] == s && forall|j: int| 0 <= j < i ==> list[j] != s
}

/// The selection list with `primary` at its front: moved there from its first
/// position, or inserted when absent; empty when `primary` is empty.
pub open spec fn with_primary_first(kept: Seq<Seq<char>>, primary: Seq<char>) -> Seq<Seq<char>> {
    if primary.len() == 0 {
        Seq::empty()
    } else if holds(kept, primary) {
        let p = choose|p: int| first_pos(kept, primary, p);
        if p == 0 {
            kept
        } else {
            kept.remove(p).insert(0, primary)
        }
    } else {
        kept.insert(0, primary)
    }
}

/// The selection after validation against the object identifiers of the
/// screen (`None` when the screen does not exist).
pub open spec fn validated_selection(
    primary: Seq<char>,
    selected: Seq<Seq<char>>,
    objects: Option<Seq<Seq<char>>>,
) -> (Seq<char>, Seq<Seq<char>>) {
    match objects {
        None => (Seq::empty(), Seq::empty()),
        Some(objs) => {
            let kept = retained(selected, objs);
            let p = valid_primary(primary, kept, objs);
            (p, with_primary_first(kept, p))
        },
    }
}

/// Whether `s` is one of the strings of `v`.
pub fn contains_text(v: &Vec<String>, s: &str) -> (r: bool)
    ensures
        r == holds(texts(v@), s@),
{
    let target = chars_of(s);
    let mut i: usize = 0;
    while i < v.len()
        invariant
            i <= v@.len(),
            target@ == s@,
            forall|j: int| 0 <= j < i ==> v@[j]@ != s@,
        decreases v.len() - i,
    {
        let c = chars_of(v[i].as_str());
        if chars_equal(c.as_slice(), target.as_slice()) {
            assert(texts(v@)[i as int] == s@);
            return true;
        }
        i += 1;
    }
    assert(!holds(texts(v@), s@)) by {
        if holds(texts(v@), s@) {
            let k = choose|k: int| 0 <= k < texts(v@).len() && texts(v@)[k] == s@;
            assert(v@[k]@ == s@);
        }
    }
    false
}

fn first_position(v: &Vec<String>, s: &str) -> (r: Option<usize>)
    ensures
        match r {
            Some(p) => first_pos(texts(v@), s@, p as int),
            None => !holds(texts(v@), s@),
        },
{
    let target = chars_of(s);
    let mut i: usize = 0;
    while i < v.len()
        invariant
            i <= v@.len(),
            target@ == s@,
            forall|j: int| 0 <= j < i ==> v@[j]@ != s@,
        decreases v.len() - i,
    {
        let c = chars_of(v[i].as_str());
        if chars_equal(c.as_slice(), target.as_slice()) {
            assert(first_pos(texts(v@), s@, i as int)) by {
                assert forall|j: int| 0 <= j < i implies texts(v@)[j] != s@ by {
                    assert(v@[j]@ != s@);
                }
            }
            return Some(i);
        }
        i += 1;
    }
    assert(!holds(texts(v@), s@)) by {
        if holds(texts(v@), s@) {
            let k = choose|k: int| 0 <= k < texts(v@).len() && texts(v@)[k] == s@;
            assert(v@[k]@ == s@);
        }
    }
    None
}

proof fn lemma_first_pos_unique(list: Seq<Seq<char>>, s: Seq<char>, i: int, j: int)
    requires
        first_pos(list, s, i),
        first_pos(list, s, j),
    ensures
        i == j,
{
    if i < j {
        assert(list[i] != s);
    }
    if j < i {
        assert(list[j] != s);
    }
}

/// Keeps the selection consistent with the screen's objects (`None` when the
/// screen does not exist): drops identifiers that are not objects of the
/// screen, picks a primary object, and puts it first in the list.
pub fn ensure_selected_objects_valid(
    primary: &mut String,
    selected: &mut Vec<String>,
    objects: Option<&Vec<String>>,
)
    ensures
        ({
            let objs = match objects {
                Some(o) => Some(texts(o@)),
                None => None,
            };
            (final(primary)@, texts(final(selected)@)) == validated_selection(
                old(primary)@,
                texts(old(selected)@),
                objs,
            )
        }),
{
    let objs = match objects {
        Some(o) => o,
        None => {
            *primary = String::new();
            *selected = Vec::new();
            assert(texts(selected@) =~= Seq::<Seq<char>>::empty());
            return;
        },
    };
    let ghost objt = texts(objs@);
    let ghost sel0 = texts(selected@);
    let mut kept: Vec<String> = Vec::new();
    let mut i: usize = 0;
    while i < selected.len()
        invariant
            i <= selected@.len(),
            sel0 == texts(selected@),
            objt == texts(objs@),
            texts(kept@) == retained(sel0.take(i as int), objt),
        decreases selected.len() - i,
    {
        assert(sel0.take(i + 1).drop_last() =~= sel0.take(i as int));
        if contains_text(objs, selected[i].as_str()) {
            kept.push(selected[i].clone());
            assert(texts(kept@) =~= retained(sel0.take(i as int), objt).push(sel0[i as int]));
        }
        i += 1;
    }
    assert(sel0.take(selected@.len() as int) =~= sel0);
    let ghost kt = texts(kept@);
    let p0 = chars_of(primary.as_str());
    if p0.len() == 0 || !contains_text(objs, primary.as_str()) {
        if kept.len() > 0 {
            *primary = kept[0].clone();
        } else if objs.len() > 0 {
            *primary = objs[0].clone();
        } else {
            *primary = String::new();
        }
    }
    assert(primary@ == valid_primary(p0@, kt, objt));
    let pv = chars_of(primary.as_str());
    if pv.len() == 0 {
        *selected = Vec::new();
        assert(texts(selected@) =~= Seq::<Seq<char>>::empty());
        return;
    }
    match first_position(&kept, primary.as_str()) {
        Some(pos) => {
            proof {
                let q = choose|q: int| first_pos(kt, primary@, q);
                lemma_first_pos_unique(kt, primary@, pos as int, q);
            }
            if pos != 0 {
                let id = kept.remove(pos);
                kept.insert(0, id);
                assert(texts(kept@) =~= kt.remove(pos as int).insert(0, primary@));
            }
        },
        None => {
            kept.insert(0, primary.clone());
            assert(texts(kept@) =~= kt.insert(0, primary@));
        },
    }
    *selected = kept;
}

/// Makes `object_id` the primary object and the only selected one (nothing
/// selected for an empty identifier).
pub fn set_primary_selected_object(primary: &mut String, selected: &mut Vec<String>, object_id: String)
    ensures
        final(primary)@ == object_id@,
        object_id@.len() == 0 ==> texts(final(selected)@) == Seq::<Seq<char>>::empty(),
        object_id@.len() > 0 ==> texts(final(selected)@) == seq![object_id@],
{
    *primary = object_id.clone();
    let mut list: Vec<String> = Vec::new();
    let v = chars_of(object_id.as_str());
    if v.len() > 0 {
        list.push(object_id);
    }
    *selected = list;
    assert(texts(selected@) =~= if v@.len() == 0 { Seq::<Seq<char>>::empty() } else { seq![v@] });
}

/// The selection after a click on `object_id` in edit mode: with a modifier
/// (`additive`) the object is added to the list (the primary one first, when
/// the list was empty) and becomes primary if there was none; without, it
/// becomes the only selected object.
pub open spec fn clicked_selection(
    primary: Seq<char>,
    selected: Seq<Seq<char>>,
    object_id: Seq<char>,
    additive: bool,
) -> (Seq<char>, Seq<Seq<char>>) {
    if additive {
        let s1 = if selected.len() == 0 && primary.len() > 0 {
            seq![primary]
        } else {
            selected
        };
        let s2 = if holds(s1, object_id) {
            s1
        } else {
            s1.push(object_id)
        };
        let p = if primary.len() == 0 {
            object_id
        } else {
            primary
        };
        (p, s2)
    } else {
        (object_id, if object_id.len() == 0 { Seq::empty() } else { seq![object_id] })
    }
}

pub fn select_object_on_click(
    primary: &mut String,
    selected: &mut Vec<String>,
    object_id: &str,
    additive: bool,
)
    ensures
        (final(primary)@, texts(final(selected)@)) == clicked_selection(
            old(primary)@,
            texts(old(selected)@),
            object_id@,
            additive,
        ),
{
    if !additive {
        set_primary_selected_object(primary, selected, String::from_str(object_id));
        return;
    }
    let pv = chars_of(primary.as_str());
    if selected.len() == 0 && pv.len() > 0 {
        selected.push(primary.clone());
        assert(texts(selected@) =~= seq![primary@]);
    }
    if !contains_text(selected, object_id) {
        let ghost before = texts(selected@);
        selected.push(String::from_str(object_id));
        assert(texts(selected@) =~= before.push(object_id@));
    }
    if pv.len() == 0 {
        *primary = String::from_str(object_id);
    }
}

/// After validation every selected identifier is an object of the screen and
/// the list starts with the primary object.
pub proof fn lemma_validated_selection_consistent(
    primary: Seq<char>,
    selected: Seq<Seq<char>>,
    objects: Seq<Seq<char>>,
)
    ensures
        ({
            let (p, list) = validated_selection(primary, selected, Some(objects));
            &&& forall|i: int| 0 <= i < list.len() ==> holds(objects, #[trigger] list[i])
            &&& p.len() > 0 ==> list.len() > 0 && list[0] == p
            &&& p.len() == 0 ==> list.len() == 0
            &&& p.len() > 0 ==> holds(objects, p)
        }),
{
    let kept = retained(selected, objects);
    lemma_retained_in(selected, objects);
    let p = valid_primary(primary, kept, objects);
    if p.len() > 0 {
        if primary.len() == 0 || !holds(objects, primary) {
            if kept.len() > 0 {
                assert(holds(objects, kept[0]));
            } else {
                assert(objects[0] == p);
            }
        }
        let list = with_primary_first(kept, p);
        if holds(kept, p) {
            let q = choose|q: int| first_pos(kept, p, q);
            lemma_first_pos_exists(kept, p);
            assert forall|i: int| 0 <= i < list.len() implies holds(objects, #[trigger] list[i]) by {
                if q != 0 && i > 0 {
                    let r = kept.remove(q);
                    if i - 1 < q {
                        assert(list[i] == kept[i - 1]);
                    } else {
                        assert(list[i] == kept[i]);
                    }
                }
            }
        } else {
            assert forall|i: int| 0 <= i < list.len() implies holds(objects, #[trigger] list[i]) by {
                if i > 0 {
                    assert(list[i] == kept[i - 1]);
                }
            }
        }
    }
}

proof fn lemma_first_pos_exists(list: Seq<Seq<char>>, s: Seq<char>)
    requires
        holds(list, s),
    ensures
        exists|q: int| first_pos(list, s, q),
    decreases list.len(),
{
    if list[0] == s {
        assert(first_pos(list, s, 0));
    } else {
        let t = list.drop_first();
        let k = choose|k: int| 0 <= k < list.len() && list[k] == s;
        assert(t[k - 1] == s);
        lemma_first_pos_exists(t, s);
        let j = choose|j: int| first_pos(t, s, j);
        assert(first_pos(list, s, j + 1)) by {
            assert forall|m: int| 0 <= m < j + 1 implies list[m] != s by {
                if m > 0 {
                    assert(list[m] == t[m - 1]);
                }
            }
        }
    }
}

proof fn lemma_retained_in(selected: Seq<Seq<char>>, objects: Seq<Seq<char>>)
    ensures
        forall|i: int| 0 <= i < retained(selected, objects).len() ==> holds(
            objects,
            #[trigger] retained(selected, objects)[i],
        ),
    decreases selected.len(),
{
    if selected.len() > 0 {
        let rest = retained(selected.drop_last(), objects);
        lemma_retained_in(selected.drop_last(), objects);
        let r = retained(selected, objects);
        assert forall|i: int| 0 <= i < r.len() implies holds(objects, #[trigger] r[i]) by {
            if i < rest.len() {
                assert(r[i] == rest[i]);
            }
        }
    }
}

proof fn lemma_retained_all(selected: Seq<Seq<char>>, objects: Seq<Seq<char>>)
    requires
        forall|i: int| 0 <= i < selected.len() ==> holds(objects, #[trigger] selected[i]),
    ensures
        retained(selected, objects) == selected,
    decreases selected.len(),
{
    if selected.len() > 0 {
        let d = selected.drop_last();
        assert forall|i: int| 0 <= i < d.len() implies holds(objects, #[trigger] d[i]) by {
            assert(d[i] == selected[i]);
        }
        lemma_retained_all(d, objects);
        assert(holds(objects, selected[selected.len() - 1]));
        assert(d.push(selected.last()) =~= selected);
    }
}

/// Validating an already validated selection against the same objects
/// changes nothing, except when the first validation left nothing selected
/// while the screen's first object has a non-empty identifier (which happens
/// only when some selected object has an empty identifier).
pub proof fn lemma_validation_idempotent(primary: Seq<char>, selected: Seq<Seq<char>>, objects: Option<Seq<Seq<char>>>)
    requires
        validated_selection(primary, selected, objects).0.len() == 0 ==> (objects matches Some(o) ==> (o.len()
            == 0 || o[0].len() == 0)),
    ensures
        ({
            let (p, list) = validated_selection(primary, selected, objects);
            validated_selection(p, list, objects) == (p, list)
        }),
{
    match objects {
        None => {},
        Some(objs) => {
            let (p, list) = validated_selection(primary, selected, objects);
            lemma_validated_selection_consistent(primary, selected, objs);
            lemma_retained_all(list, objs);
            if p.len() > 0 {
                assert(valid_primary(p, list, objs) == p);
                assert(first_pos(list, p, 0));
                assert(holds(list, p));
                let q = choose|q: int| first_pos(list, p, q);
                lemma_first_pos_unique(list, p, q, 0);
            } else {
                assert(list =~= Seq::<Seq<char>>::empty());
                if objs.len() > 0 {
                    assert(objs[0].len() == 0);
                    assert(objs[0] =~= p);
                }
                assert(valid_primary(p, list, objs) == p);
            }
        },
    }
}

} // verus!
