//! Project declarations: which files declare a project, what a declaration
//! names (the project, its debug executable), the list of declared projects
//! with its selection, and the key by which the selected project is
//! recognised as the one the shells were moved to.

use vstd::prelude::*;
use crate::paths::{parent_dir, parent_path};
use crate::sorting::{stable_key_order, stable_text_order, views};
use crate::text::{
    chars_equal, chars_of, ends_with, ends_with_chars, lines, lower, lower_chars, replace_char,
    replace_char_chars, split_lines, starts_with, starts_with_chars, string_of, strip_char,
    strip_char_chars, trim, trim_chars,
};

verus! {

/// The file name prefix of a project declaration.
pub const PROJECT_DECLARATION_PREFIX: &'static str = "プロジェクト宣言_";

/// The file name suffix of a project declaration.
pub const PROJECT_DECLARATION_SUFFIX: &'static str = ".md";

/// The combo box text when no project is selected and no placeholder is set.
pub const PROJECT_COMBO_DEFAULT_TEXT: &'static str = "プロジェクトを選択";

/// The name of a project whose declaration names none and whose file name
/// has no readable stem.
pub const UNNAMED_PROJECT: &'static str = "Unnamed Project";

/// Whether a file name is that of a project declaration.
pub fn is_project_declaration_file_name(name: &str) -> (r: bool)
    ensures
        r == (starts_with(name@, PROJECT_DECLARATION_PREFIX@) && ends_with(name@, PROJECT_DECLARATION_SUFFIX@)),
{
    let n = chars_of(name);
    let p = chars_of(PROJECT_DECLARATION_PREFIX);
    let s = chars_of(PROJECT_DECLARATION_SUFFIX);
    starts_with_chars(n.as_slice(), p.as_slice()) && ends_with_chars(n.as_slice(), s.as_slice())
}

/// The project name a declaration gives: its first line, trimmed, when that
/// is not empty.
pub open spec fn declared_name(body: Seq<char>) -> Option<Seq<char>> {
    if lines(body).len() > 0 && trim(lines(body)[0]).len() > 0 {
        Some(trim(lines(body)[0]))
    } else {
        None
    }
}

/// The project name in a declaration's text.
pub fn project_name_from_declaration(body: &str) -> (r: Option<String>)
    ensures
        r.is_some() == declared_name(body@).is_some(),
        r.is_some() ==> r.unwrap()@ == declared_name(body@).unwrap(),
{
    let ls = split_lines(chars_of(body).as_slice());
    if ls.len() == 0 {
        return None;
    }
    let t = trim_chars(ls[0].as_slice());
    if t.len() == 0 {
        None
    } else {
        Some(string_of(t.as_slice()))
    }
}

/// The name of a project entry: the declared name, else the declaration
/// file's stem, else `UNNAMED_PROJECT`.
pub fn project_entry_name(declared: Option<String>, file_stem: Option<String>) -> (r: String)
    ensures
        r@ == match declared {
            Some(d) => d@,
            None => match file_stem {
                Some(s) => s@,
                None => UNNAMED_PROJECT@,
            },
        },
{
    match declared {
        Some(d) => d,
        None => match file_stem {
            Some(s) => s,
            None => String::from_str(UNNAMED_PROJECT),
        },
    }
}

/// Why a declaration names no debug executable.
#[derive(PartialEq, Eq, Structural, Clone, Copy, Debug)]
pub enum DebugExecutableError {
    /// The declaration has fewer than four lines.
    MissingLine,
    /// The fourth line is blank.
    EmptyLine,
}

/// The debug executable a declaration names: its fourth line, trimmed, with
/// the surrounding double quotes removed.
pub open spec fn declared_executable(body: Seq<char>) -> Result<Seq<char>, DebugExecutableError> {
    if lines(body).len() < 4 {
        Err(DebugExecutableError::MissingLine)
    } else if trim(lines(body)[3]).len() == 0 {
        Err(DebugExecutableError::EmptyLine)
    } else {
        Ok(strip_char(trim(lines(body)[3]), '"'))
    }
}

/// The debug executable path text in a declaration's text.
pub fn debug_executable_from_declaration(body: &str) -> (r: Result<String, DebugExecutableError>)
    ensures
        match (r, declared_executable(body@)) {
            (Ok(p), Ok(q)) => p@ == q,
            (Err(e), Err(f)) => e == f,
            _ => false,
        },
{
    let ls = split_lines(chars_of(body).as_slice());
    if ls.len() < 4 {
        return Err(DebugExecutableError::MissingLine);
    }
    let t = trim_chars(ls[3].as_slice());
    if t.len() == 0 {
        return Err(DebugExecutableError::EmptyLine);
    }
    let p = strip_char_chars(t.as_slice(), '"');
    Ok(string_of(p.as_slice()))
}

/// The key under which two paths of one file compare equal: separators
/// unified to `\` and ASCII letters lower-cased.
pub open spec fn path_key(path: Seq<char>) -> Seq<char> {
    lower(replace_char(path, '/', '\\'))
}

/// The comparison key of a path, computed from its canonical form when the
/// file system gave one and from the path itself otherwise.
pub fn path_dedup_key(path: &str, canonical: Option<&str>) -> (r: String)
    ensures
        r@ == path_key(
            match canonical {
                Some(c) => c@,
                None => path@,
            },
        ),
{
    let src = match canonical {
        Some(c) => chars_of(c),
        None => chars_of(path),
    };
    let replaced = replace_char_chars(src.as_slice(), '/', '\\');
    let l = lower_chars(replaced.as_slice());
    string_of(l.as_slice())
}

/// A declared project: its name and the path of its declaration file.
pub struct ProjectEntry {
    pub name: String,
    pub path: Option<String>,
}

pub open spec fn opt_text(o: Option<String>) -> Option<Seq<char>> {
    match o {
        Some(s) => Some(s@),
        None => None,
    }
}

/// The highlight key of a project entry: the path key of its declaration
/// (from `canonical`, the canonical form of that path, when there is one), or
/// its trimmed, lower-cased name when it has no path.
pub open spec fn entry_key(name: Seq<char>, path: Option<Seq<char>>, canonical: Option<Seq<char>>) -> Seq<char> {
    match path {
        Some(p) => path_key(
            match canonical {
                Some(c) => c,
                None => p,
            },
        ),
        None => lower(trim(name)),
    }
}

impl ProjectEntry {
    pub fn highlight_key(&self, canonical: Option<&str>) -> (r: String)
        ensures
            r@ == entry_key(
                self.name@,
                opt_text(self.path),
                match canonical {
                    Some(c) => Some(c@),
                    None => None,
                },
            ),
    {
        match &self.path {
            Some(p) => path_dedup_key(p.as_str(), canonical),
            None => {
                let t = trim_chars(chars_of(self.name.as_str()).as_slice());
                let l = lower_chars(t.as_slice());
                string_of(l.as_slice())
            },
        }
    }

    fn duplicate(&self) -> (r: ProjectEntry)
        ensures
            r.name@ == self.name@,
            opt_text(r.path) == opt_text(self.path),
    {
        ProjectEntry {
            name: self.name.clone(),
            path: match &self.path {
                Some(p) => Some(p.clone()),
                None => None,
            },
        }
    }
}

pub open spec fn names(entries: Seq<ProjectEntry>) -> Seq<Seq<char>> {
    entries.map_values(|e: ProjectEntry| e.name@)
}

/// `sorted` is `input` in a stable order by name (the order of a sort by name
/// and path, for entries that arrive in path order).
pub open spec fn sorted_by_name(input: Seq<ProjectEntry>, sorted: Seq<ProjectEntry>) -> bool {
    exists|order: Seq<usize>|
        #![trigger stable_key_order(names(input), order)]
        stable_key_order(names(input), order) && sorted.len() == order.len() && forall|k: int|
            0 <= k < sorted.len() ==> #[trigger] sorted[k].name@ == input[order[k] as int].name@ && opt_text(
                sorted[k].path,
            ) == opt_text(input[order[k] as int].path)
}

/// The entries in a stable order by name.
pub fn sort_entries_by_name(entries: &Vec<ProjectEntry>) -> (r: Vec<ProjectEntry>)
    ensures
        sorted_by_name(entries@, r@),
{
    let mut keys: Vec<Vec<char>> = Vec::new();
    let mut i: usize = 0;
    while i < entries.len()
        invariant
            i <= entries@.len(),
            keys@.len() == i,
            forall|k: int| 0 <= k < i ==> #[trigger] keys@[k]@ == entries@[k].name@,
        decreases entries.len() - i,
    {
        keys.push(chars_of(entries[i].name.as_str()));
        i += 1;
    }
    assert(views(keys@) =~= names(entries@));
    let order = stable_text_order(&keys);
    let mut r: Vec<ProjectEntry> = Vec::new();
    let mut k: usize = 0;
    while k < order.len()
        invariant
            stable_key_order(names(entries@), order@),
            k <= order@.len(),
            r@.len() == k,
            forall|j: int|
                0 <= j < k ==> #[trigger] r@[j].name@ == entries@[order@[j] as int].name@ && opt_text(r@[j].path)
                    == opt_text(entries@[order@[j] as int].path),
        decreases order.len() - k,
    {
        let e = entries[order[k]].duplicate();
        r.push(e);
        k += 1;
    }
    r
}

/// The projects found under the root folder, the selected one, and the key
/// of the project the shells were last moved to.
pub struct ProjectList {
    pub entries: Vec<ProjectEntry>,
    pub selected: Option<usize>,
    pub moved_highlight_key: Option<String>,
}

/// The selection after the list was rebuilt: the entry with the previously
/// selected path, else the first entry, else none.
pub open spec fn reselected(entries: Seq<ProjectEntry>, previous: Option<Option<Seq<char>>>) -> Option<usize> {
    match previous {
        Some(p) if exists|k: int| 0 <= k < entries.len() && opt_text(#[trigger] entries[k].path) == p => Some(
            (choose|k: int|
                0 <= k < entries.len() && opt_text(#[trigger] entries[k].path) == p && forall|j: int|
                    0 <= j < k ==> opt_text(entries[j].path) != p) as usize,
        ),
        _ => if entries.len() > 0 {
            Some(0usize)
        } else {
            None
        },
    }
}

fn same_path(a: &Option<String>, b: &Option<String>) -> (r: bool)
    ensures
        r == (opt_text(*a) == opt_text(*b)),
{
    match (a, b) {
        (Some(x), Some(y)) => chars_equal(chars_of(x.as_str()).as_slice(), chars_of(y.as_str()).as_slice()),
        (None, None) => true,
        _ => false,
    }
}

/// The first position of an entry with path `p`.
fn position_of_path(entries: &Vec<ProjectEntry>, p: &Option<String>) -> (r: Option<usize>)
    ensures
        match r {
            Some(k) => k < entries@.len() && opt_text(entries@[k as int].path) == opt_text(*p) && forall|j: int|
                0 <= j < k ==> opt_text(#[trigger] entries@[j].path) != opt_text(*p),
            None => forall|j: int| 0 <= j < entries@.len() ==> opt_text(#[trigger] entries@[j].path) != opt_text(*p),
        },
{
    let mut k: usize = 0;
    while k < entries.len()
        invariant
            k <= entries@.len(),
            forall|j: int| 0 <= j < k ==> opt_text(#[trigger] entries@[j].path) != opt_text(*p),
        decreases entries.len() - k,
    {
        if same_path(&entries[k].path, p) {
            return Some(k);
        }
        k += 1;
    }
    None
}

impl ProjectList {
    pub fn new() -> (r: Self)
        ensures
            r.entries@.len() == 0,
            r.selected.is_none(),
            r.moved_highlight_key.is_none(),
            r.wf(),
    {
        ProjectList { entries: Vec::new(), selected: None, moved_highlight_key: None }
    }

    /// The selected entry, when the selection points at one.
    pub fn selected_entry(&self) -> (r: Option<&ProjectEntry>)
        ensures
            match self.selected {
                Some(i) if i < self.entries@.len() => r == Some(&self.entries@[i as int]),
                _ => r.is_none(),
            },
    {
        match self.selected {
            Some(i) => {
                if i < self.entries.len() {
                    Some(&self.entries[i])
                } else {
                    None
                }
            },
            None => None,
        }
    }

    /// The declaration path of the selected entry.
    pub fn selected_declaration_path(&self) -> (r: Option<String>)
        ensures
            opt_text(r) == match self.selected {
                Some(i) if i < self.entries@.len() => opt_text(self.entries@[i as int].path),
                _ => None,
            },
    {
        match self.selected_entry() {
            Some(e) => match &e.path {
                Some(p) => Some(p.clone()),
                None => None,
            },
            None => None,
        }
    }

    /// The selection points at an entry, when there is one.
    pub open spec fn wf(&self) -> bool {
        self.selected matches Some(i) ==> i < self.entries@.len()
    }

    /// The folder of the selected declaration: the target project folder.
    pub open spec fn target_dir_spec(&self) -> Option<Seq<char>> {
        match self.selected {
            Some(i) if i < self.entries@.len() => match opt_text(self.entries@[i as int].path) {
                Some(p) => parent_path(p),
                None => None,
            },
            _ => None,
        }
    }

    /// The target project folder: the folder of the selected declaration.
    pub fn target_dir(&self) -> (r: Option<String>)
        ensures
            opt_text(r) == self.target_dir_spec(),
    {
        match self.selected_declaration_path() {
            Some(p) => parent_dir(p.as_str()),
            None => None,
        }
    }

    /// Empties the list and the selection.
    pub fn clear(&mut self)
        ensures
            final(self).entries@.len() == 0,
            final(self).selected.is_none(),
            final(self).moved_highlight_key == old(self).moved_highlight_key,
            final(self).wf(),
    {
        self.entries = Vec::new();
        self.selected = None;
    }

    /// Replaces the list by `found` (declarations in path order) sorted by
    /// name, and selects again the entry with the previously selected path.
    pub fn replace_entries(&mut self, found: Vec<ProjectEntry>)
        ensures
            sorted_by_name(found@, final(self).entries@),
            final(self).selected == reselected(
                final(self).entries@,
                match old(self).selected {
                    Some(i) if i < old(self).entries@.len() => Some(opt_text(old(self).entries@[i as int].path)),
                    _ => None,
                },
            ),
            final(self).moved_highlight_key == old(self).moved_highlight_key,
            final(self).wf(),
            final(self).selected is Some <==> final(self).entries@.len() > 0,
            match old(self).selected {
                Some(i) if i < old(self).entries@.len() => (exists|k: int|
                    0 <= k < final(self).entries@.len() && opt_text(#[trigger] final(self).entries@[k].path)
                        == opt_text(old(self).entries@[i as int].path)) ==> (final(self).selected matches Some(j)
                    && opt_text(final(self).entries@[j as int].path) == opt_text(old(self).entries@[i as int].path)),
                _ => true,
            },
    {
        let previous: Option<Option<String>> = match self.selected_entry() {
            Some(e) => Some(
                match &e.path {
                    Some(p) => Some(p.clone()),
                    None => None,
                },
            ),
            None => None,
        };
        let ghost prev_text = match &previous {
            Some(p) => Some(opt_text(*p)),
            None => None,
        };
        let sorted = sort_entries_by_name(&found);
        let mut selected: Option<usize> = if sorted.len() > 0 {
            Some(0)
        } else {
            None
        };
        match &previous {
            Some(p) => match position_of_path(&sorted, p) {
                Some(k) => {
                    selected = Some(k);
                    proof {
                        let w = choose|w: int|
                            0 <= w < sorted@.len() && opt_text(#[trigger] sorted@[w].path) == opt_text(*p)
                                && forall|j: int| 0 <= j < w ==> opt_text(sorted@[j].path) != opt_text(*p);
                        if w < k {
                            assert(opt_text(sorted@[w].path) != opt_text(*p));
                        }
                        if w > k {
                            assert(opt_text(sorted@[k as int].path) != opt_text(*p));
                        }
                    }
                },
                None => {},
            },
            None => {},
        }
        assert(selected == reselected(sorted@, prev_text));
        proof {
            lemma_reselection(sorted@, prev_text);
        }
        self.entries = sorted;
        self.selected = selected;
    }

    /// Selects the entry at `index` (or nothing).
    pub fn select(&mut self, index: Option<usize>)
        ensures
            final(self).selected == index,
            final(self).entries == old(self).entries,
            final(self).moved_highlight_key == old(self).moved_highlight_key,
            final(self).wf() == (index matches Some(i) ==> i < old(self).entries@.len()),
    {
        self.selected = index;
    }

    /// Whether the selected project is the one the shells were moved to,
    /// given the highlight key of the selected entry.
    pub fn is_selected_highlighted(&self, selected_key: Option<&str>) -> (r: bool)
        ensures
            r == (selected_key.is_some() && self.moved_highlight_key.is_some()
                && self.moved_highlight_key.unwrap()@ == selected_key.unwrap()@),
    {
        match (selected_key, &self.moved_highlight_key) {
            (Some(k), Some(m)) => chars_equal(chars_of(k).as_slice(), chars_of(m.as_str()).as_slice()),
            _ => false,
        }
    }

    /// Records where the shells were moved: the selected entry's key after a
    /// successful move, nothing after a failed one.
    pub fn record_move(&mut self, moved: bool, selected_key: Option<String>)
        ensures
            opt_text(final(self).moved_highlight_key) == if moved {
                opt_text(selected_key)
            } else {
                None
            },
            final(self).entries == old(self).entries,
            final(self).selected == old(self).selected,
            final(self).wf() == old(self).wf(),
    {
        if moved {
            self.moved_highlight_key = selected_key;
        } else {
            self.moved_highlight_key = None;
        }
    }

    /// The text the project combo box shows: the selected project's name,
    /// else the trimmed placeholder, else `PROJECT_COMBO_DEFAULT_TEXT`.
    pub fn combo_text(&self, placeholder: &str) -> (r: String)
        ensures
            r@ == match self.selected {
                Some(i) if i < self.entries@.len() => self.entries@[i as int].name@,
                _ => if trim(placeholder@).len() > 0 {
                    trim(placeholder@)
                } else {
                    PROJECT_COMBO_DEFAULT_TEXT@
                },
            },
    {
        match self.selected_entry() {
            Some(e) => e.name.clone(),
            None => {
                let t = trim_chars(chars_of(placeholder).as_slice());
                if t.len() > 0 {
                    string_of(t.as_slice())
                } else {
                    String::from_str(PROJECT_COMBO_DEFAULT_TEXT)
                }
            },
        }
    }
}

/// After the list is rebuilt the selection points at an entry whenever there
/// is one, and at the previously selected declaration while it is still
/// listed.
pub proof fn lemma_reselection(entries: Seq<ProjectEntry>, previous: Option<Option<Seq<char>>>)
    requires
        entries.len() <= usize::MAX,
    ensures
        reselected(entries, previous) is Some <==> entries.len() > 0,
        reselected(entries, previous) matches Some(i) ==> i < entries.len(),
        previous matches Some(p) ==> ((exists|k: int| 0 <= k < entries.len() && opt_text(#[trigger] entries[k].path)
            == p) ==> (reselected(entries, previous) matches Some(i) && opt_text(entries[i as int].path) == p)),
{
    match previous {
        Some(p) => {
            if exists|k: int| 0 <= k < entries.len() && opt_text(#[trigger] entries[k].path) == p {
                let w = choose|k: int| 0 <= k < entries.len() && opt_text(#[trigger] entries[k].path) == p;
                lemma_first_listed(entries, p, w);
            }
        },
        None => {},
    }
}

proof fn lemma_first_listed(entries: Seq<ProjectEntry>, p: Option<Seq<char>>, w: int)
    requires
        0 <= w < entries.len(),
        opt_text(entries[w].path) == p,
    ensures
        exists|k: int|
            0 <= k < entries.len() && opt_text(#[trigger] entries[k].path) == p && forall|j: int|
                0 <= j < k ==> opt_text(entries[j].path) != p,
    decreases w,
{
    if exists|j: int| 0 <= j < w && opt_text(#[trigger] entries[j].path) == p {
        let j = choose|j: int| 0 <= j < w && opt_text(#[trigger] entries[j].path) == p;
        lemma_first_listed(entries, p, j);
    } else {
        assert(forall|j: int| 0 <= j < w ==> opt_text(#[trigger] entries[j].path) != p);
    }
}

/// A path key is its own key: keys compare as the paths they come from.
pub proof fn lemma_path_key_idempotent(path: Seq<char>)
    ensures
        path_key(path_key(path)) == path_key(path),
{
    let k = path_key(path);
    assert forall|i: int| 0 <= i < k.len() implies #[trigger] path_key(k)[i] == k[i] by {
        let c = path[i];
        let r = if c == '/' { '\\' } else { c };
        assert(k[i] == crate::text::ascii_lower(r));
    }
    assert(path_key(k) =~= k);
}

} // verus!
