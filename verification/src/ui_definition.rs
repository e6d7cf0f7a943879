//! The screen structure of a UI definition: screens looked up by identifier,
//! and the normalization that moves objects of the older single-screen layout
//! onto the main screen. The objects themselves are carried as they are.

use vstd::prelude::*;
use crate::command::UI_MAIN_SCREEN_ID;
use crate::text::{chars_equal, chars_of};

verus! {

/// A screen: an identifier and its objects.
pub struct UiScreen<O> {
    pub id: String,
    pub objects: Vec<O>,
}

/// A UI definition: its format version, objects of the older single-screen
/// layout, and its screens.
pub struct UiDefinition<O> {
    pub version: u32,
    pub objects: Vec<O>,
    pub screens: Vec<UiScreen<O>>,
}

/// A screen as a value: identifier and objects.
pub struct ScreenModel<O> {
    pub id: Seq<char>,
    pub objects: Seq<O>,
}

pub open spec fn screen_model<O>(s: UiScreen<O>) -> ScreenModel<O> {
    ScreenModel { id: s.id@, objects: s.objects@ }
}

pub open spec fn screens_model<O>(v: Seq<UiScreen<O>>) -> Seq<ScreenModel<O>> {
    v.map_values(|s: UiScreen<O>| screen_model(s))
}

/// `i` is the first position of a screen with identifier `id`.
pub open spec fn is_first_screen<O>(screens: Seq<ScreenModel<O>>, id: Seq<char>, i: int) -> bool {
    0 <= i < screens.len() && screens[i].id == id && forall|j: int| 0 <= j < i ==> screens[j].id != id
}

/// Whether some screen has identifier `id`.
pub open spec fn has_screen<O>(screens: Seq<ScreenModel<O>>, id: Seq<char>) -> bool {
    exists|i: int| 0 <= i < screens.len() && screens[i].id == id
}

/// The screens after normalization: objects of the older layout `legacy` go
/// to a new main screen when there are no screens, to the first main screen
/// when that one has no objects, to a new main screen when there is no main
/// screen, and are dropped when the main screen has objects already; then a
/// main screen without objects is added if there is still none.
pub open spec fn normalized_screens<O>(screens: Seq<ScreenModel<O>>, legacy: Seq<O>) -> Seq<ScreenModel<O>> {
    let main = UI_MAIN_SCREEN_ID@;
    let placed = if screens.len() == 0 {
        seq![ScreenModel { id: main, objects: legacy }]
    } else if legacy.len() == 0 {
        screens
    } else if has_screen(screens, main) {
        let i = choose|i: int| is_first_screen(screens, main, i);
        if screens[i].objects.len() == 0 {
            screens.update(i, ScreenModel { id: main, objects: legacy })
        } else {
            screens
        }
    } else {
        screens.push(ScreenModel { id: main, objects: legacy })
    };
    if has_screen(placed, main) {
        placed
    } else {
        placed.push(ScreenModel { id: main, objects: Seq::empty() })
    }
}

proof fn lemma_first_screen_unique<O>(screens: Seq<ScreenModel<O>>, id: Seq<char>, i: int, j: int)
    requires
        is_first_screen(screens, id, i),
        is_first_screen(screens, id, j),
    ensures
        i == j,
{
    if i < j {
        assert(screens[i].id != id);
    }
    if j < i {
        assert(screens[j].id != id);
    }
}

proof fn lemma_has_first_screen<O>(screens: Seq<ScreenModel<O>>, id: Seq<char>)
    requires
        has_screen(screens, id),
    ensures
        exists|i: int| is_first_screen(screens, id, i),
    decreases screens.len(),
{
    if screens[0].id == id {
        assert(is_first_screen(screens, id, 0));
    } else {
        let t = screens.drop_first();
        let k = choose|k: int| 0 <= k < screens.len() && screens[k].id == id;
        assert(t[k - 1].id == id);
        lemma_has_first_screen(t, id);
        let j = choose|j: int| is_first_screen(t, id, j);
        assert(is_first_screen(screens, id, j + 1)) by {
            assert forall|m: int| 0 <= m < j + 1 implies screens[m].id != id by {
                if m > 0 {
                    assert(screens[m] == t[m - 1]);
                }
            }
        }
    }
}

impl<O> UiScreen<O> {
    pub open spec fn model(&self) -> ScreenModel<O> {
        screen_model(*self)
    }
}

impl<O> UiDefinition<O> {
    pub open spec fn screens_model(&self) -> Seq<ScreenModel<O>> {
        screens_model(self.screens@)
    }

    /// Position of the first screen with identifier `screen_id`.
    pub fn screen_index(&self, screen_id: &str) -> (r: Option<usize>)
        ensures
            match r {
                Some(i) => is_first_screen(self.screens_model(), screen_id@, i as int),
                None => !has_screen(self.screens_model(), screen_id@),
            },
    {
        let target = chars_of(screen_id);
        let mut i: usize = 0;
        while i < self.screens.len()
            invariant
                i <= self.screens@.len(),
                target@ == screen_id@,
                forall|j: int| 0 <= j < i ==> #[trigger] self.screens@[j].id@ != screen_id@,
            decreases self.screens.len() - i,
        {
            let id = chars_of(self.screens[i].id.as_str());
            if chars_equal(id.as_slice(), target.as_slice()) {
                assert(is_first_screen(self.screens_model(), screen_id@, i as int)) by {
                    assert forall|j: int| 0 <= j < i implies self.screens_model()[j].id != screen_id@ by {
                        assert(self.screens@[j].id@ != screen_id@);
                    }
                }
                return Some(i);
            }
            i += 1;
        }
        assert(!has_screen(self.screens_model(), screen_id@)) by {
            if has_screen(self.screens_model(), screen_id@) {
                let k = choose|k: int| 0 <= k < self.screens_model().len() && self.screens_model()[k].id == screen_id@;
                assert(self.screens@[k].id@ != screen_id@);
            }
        }
        None
    }

    /// The first screen with identifier `screen_id`.
    pub fn screen(&self, screen_id: &str) -> (r: Option<&UiScreen<O>>)
        ensures
            match r {
                Some(s) => exists|i: int| is_first_screen(self.screens_model(), screen_id@, i) && *s == self.screens@[i],
                None => !has_screen(self.screens_model(), screen_id@),
            },
    {
        match self.screen_index(screen_id) {
            Some(i) => Some(&self.screens[i]),
            None => None,
        }
    }

    /// The identifiers of the screens, in order.
    pub fn screen_ids(&self) -> (r: Vec<String>)
        ensures
            r@.len() == self.screens@.len(),
            forall|i: int| 0 <= i < r@.len() ==> #[trigger] r@[i]@ == self.screens@[i].id@,
    {
        let mut r: Vec<String> = Vec::new();
        let mut i: usize = 0;
        while i < self.screens.len()
            invariant
                i <= self.screens@.len(),
                r@.len() == i,
                forall|k: int| 0 <= k < i ==> #[trigger] r@[k]@ == self.screens@[k].id@,
            decreases self.screens.len() - i,
        {
            r.push(self.screens[i].id.clone());
            i += 1;
        }
        r
    }

    /// Moves objects of the older single-screen layout onto the main screen
    /// and makes sure a main screen exists.
    pub fn normalize_screens(&mut self)
        ensures
            final(self).screens_model() == normalized_screens(old(self).screens_model(), old(self).objects@),
            final(self).objects@.len() == 0,
            final(self).version == old(self).version,
    {
        let ghost s0 = self.screens_model();
        let ghost l0 = self.objects@;
        let mut legacy: Vec<O> = Vec::new();
        std::mem::swap(&mut legacy, &mut self.objects);
        let ghost placed: Seq<ScreenModel<O>>;
        if self.screens.len() == 0 {
            self.screens.push(UiScreen { id: String::from_str(UI_MAIN_SCREEN_ID), objects: legacy });
            proof {
                placed = seq![ScreenModel { id: UI_MAIN_SCREEN_ID@, objects: l0 }];
                assert(self.screens_model() =~= placed);
            }
        } else if legacy.len() > 0 {
            match self.screen_index(UI_MAIN_SCREEN_ID) {
                Some(i) => {
                    proof {
                        let k = choose|k: int| is_first_screen(s0, UI_MAIN_SCREEN_ID@, k);
                        lemma_first_screen_unique(s0, UI_MAIN_SCREEN_ID@, i as int, k);
                    }
                    if self.screens[i].objects.len() == 0 {
                        let mut screen = self.screens.remove(i);
                        screen.objects = legacy;
                        self.screens.insert(i, screen);
                        proof {
                            placed = s0.update(i as int, ScreenModel { id: UI_MAIN_SCREEN_ID@, objects: l0 });
                            assert(self.screens_model() =~= placed);
                        }
                    } else {
                        proof {
                            placed = s0;
                        }
                    }
                },
                None => {
                    self.screens.push(UiScreen { id: String::from_str(UI_MAIN_SCREEN_ID), objects: legacy });
                    proof {
                        placed = s0.push(ScreenModel { id: UI_MAIN_SCREEN_ID@, objects: l0 });
                        assert(self.screens_model() =~= placed);
                    }
                },
            }
        } else {
            proof {
                placed = s0;
            }
        }
        assert(self.screens_model() == placed);
        match self.screen_index(UI_MAIN_SCREEN_ID) {
            Some(_) => {},
            None => {
                self.screens.push(UiScreen { id: String::from_str(UI_MAIN_SCREEN_ID), objects: Vec::new() });
                assert(self.screens_model() =~= placed.push(ScreenModel { id: UI_MAIN_SCREEN_ID@, objects: Seq::empty() }));
            },
        }
        self.objects = Vec::new();
    }
}

/// Position of the first identifier equal to `id`.
pub fn position_of(ids: &Vec<String>, id: &str) -> (r: Option<usize>)
    ensures
        match r {
            Some(i) => i < ids@.len() && ids@[i as int]@ == id@ && forall|j: int| 0 <= j < i ==> ids@[j]@ != id@,
            None => forall|j: int| 0 <= j < ids@.len() ==> ids@[j]@ != id@,
        },
{
    let target = chars_of(id);
    let mut i: usize = 0;
    while i < ids.len()
        invariant
            i <= ids@.len(),
            target@ == id@,
            forall|j: int| 0 <= j < i ==> ids@[j]@ != id@,
        decreases ids.len() - i,
    {
        let c = chars_of(ids[i].as_str());
        if chars_equal(c.as_slice(), target.as_slice()) {
            return Some(i);
        }
        i += 1;
    }
    None
}

/// Normalization leaves a main screen in place.
pub proof fn lemma_normalized_has_main<O>(screens: Seq<ScreenModel<O>>, legacy: Seq<O>)
    ensures
        has_screen(normalized_screens(screens, legacy), UI_MAIN_SCREEN_ID@),
{
    let main = UI_MAIN_SCREEN_ID@;
    let r = normalized_screens(screens, legacy);
    if !has_screen(r, main) {
        assert(r[r.len() - 1].id == main);
    }
}

/// Normalizing the normalized screens (with no objects of the older layout
/// left) changes nothing.
pub proof fn lemma_normalize_idempotent<O>(screens: Seq<ScreenModel<O>>, legacy: Seq<O>)
    ensures
        normalized_screens(normalized_screens(screens, legacy), Seq::empty()) == normalized_screens(
            screens,
            legacy,
        ),
{
    lemma_normalized_has_main(screens, legacy);
}

/// When the first main screen has no objects, normalization puts exactly the
/// objects of the older layout on it and leaves every other screen as it was.
pub proof fn lemma_empty_main_receives_legacy<O>(screens: Seq<ScreenModel<O>>, legacy: Seq<O>, i: int)
    requires
        is_first_screen(screens, UI_MAIN_SCREEN_ID@, i),
        screens[i].objects.len() == 0,
        legacy.len() > 0,
    ensures
        normalized_screens(screens, legacy).len() == screens.len(),
        normalized_screens(screens, legacy)[i].id == UI_MAIN_SCREEN_ID@,
        normalized_screens(screens, legacy)[i].objects == legacy,
        forall|j: int|
            0 <= j < screens.len() && j != i ==> #[trigger] normalized_screens(screens, legacy)[j] == screens[j],
{
    let main = UI_MAIN_SCREEN_ID@;
    assert(has_screen(screens, main));
    let k = choose|k: int| is_first_screen(screens, main, k);
    lemma_first_screen_unique(screens, main, i, k);
    let placed = screens.update(i, ScreenModel { id: main, objects: legacy });
    assert(placed[i].id == main);
    assert(has_screen(placed, main));
}

/// No object of the older layout is lost unless the main screen holds
/// objects already: when there is no main screen, or the first one is empty,
/// some main screen holds exactly those objects after normalization.
pub proof fn lemma_legacy_objects_kept<O>(screens: Seq<ScreenModel<O>>, legacy: Seq<O>)
    requires
        legacy.len() > 0,
        forall|i: int| is_first_screen(screens, UI_MAIN_SCREEN_ID@, i) ==> screens[i].objects.len() == 0,
    ensures
        exists|k: int|
            0 <= k < normalized_screens(screens, legacy).len() && normalized_screens(screens, legacy)[k].id
                == UI_MAIN_SCREEN_ID@ && normalized_screens(screens, legacy)[k].objects == legacy,
{
    let main = UI_MAIN_SCREEN_ID@;
    let r = normalized_screens(screens, legacy);
    if screens.len() == 0 {
        assert(r[0].id == main && r[0].objects == legacy);
    } else if has_screen(screens, main) {
        lemma_has_first_screen(screens, main);
        let i = choose|i: int| is_first_screen(screens, main, i);
        lemma_empty_main_receives_legacy(screens, legacy, i);
    } else {
        let placed = screens.push(ScreenModel { id: main, objects: legacy });
        assert(placed[screens.len() as int].id == main);
        assert(has_screen(placed, main));
        assert(r[screens.len() as int].objects == legacy);
    }
}

} // verus!
