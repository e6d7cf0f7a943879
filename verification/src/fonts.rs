//! Which font files are loaded and under which family names: files with a
//! TrueType/OpenType extension, named by their stem with spaces replaced,
//! the bundled default font added when no file provides it, each name
//! registered once, in sorted order.

use vstd::prelude::*;
use crate::sorting::{distinct_key_order, distinct_text_order, key_listed, views};
use crate::text::text_lt;
use crate::text::{chars_equal, chars_of, lower, lower_chars, replace_char, replace_char_chars, string_of, trim};

verus! {

/// The family name of the bundled default font.
pub const DEFAULT_FONT_NAME: &'static str = "noto_sans_jp";

pub open spec fn font_extension(ext: Seq<char>) -> bool {
    let l = lower(ext);
    l == seq!['t', 't', 'f'] || l == seq!['o', 't', 'f'] || l == seq!['t', 't', 'c']
}

/// Whether a file extension is that of a font file (`ttf`, `otf`, `ttc`, in
/// any ASCII case).
pub fn is_font_extension(ext: &str) -> (r: bool)
    ensures
        r == font_extension(ext@),
{
    let l = lower_chars(chars_of(ext).as_slice());
    let mut ttf: Vec<char> = Vec::new();
    ttf.push('t');
    ttf.push('t');
    ttf.push('f');
    let mut otf: Vec<char> = Vec::new();
    otf.push('o');
    otf.push('t');
    otf.push('f');
    let mut ttc: Vec<char> = Vec::new();
    ttc.push('t');
    ttc.push('t');
    ttc.push('c');
    assert(ttf@ =~= seq!['t', 't', 'f']);
    assert(otf@ =~= seq!['o', 't', 'f']);
    assert(ttc@ =~= seq!['t', 't', 'c']);
    chars_equal(l.as_slice(), ttf.as_slice()) || chars_equal(l.as_slice(), otf.as_slice()) || chars_equal(
        l.as_slice(),
        ttc.as_slice(),
    )
}

/// The family name of a font file: its stem with spaces replaced by `_`.
pub fn font_key(stem: &str) -> (r: String)
    ensures
        r@ == replace_char(stem@, ' ', '_'),
{
    let v = replace_char_chars(chars_of(stem).as_slice(), ' ', '_');
    string_of(v.as_slice())
}

pub open spec fn texts(v: Seq<String>) -> Seq<Seq<char>> {
    v.map_values(|s: String| s@)
}

/// Whether none of the loaded fonts is named `DEFAULT_FONT_NAME`, so that the
/// bundled default font has to be added.
pub fn needs_default_font(keys: &Vec<String>) -> (r: bool)
    ensures
        r == !texts(keys@).contains(DEFAULT_FONT_NAME@),
{
    let d = chars_of(DEFAULT_FONT_NAME);
    let mut i: usize = 0;
    while i < keys.len()
        invariant
            i <= keys@.len(),
            d@ == DEFAULT_FONT_NAME@,
            forall|k: int| 0 <= k < i ==> keys@[k]@ != DEFAULT_FONT_NAME@,
        decreases keys.len() - i,
    {
        if chars_equal(chars_of(keys[i].as_str()).as_slice(), d.as_slice()) {
            assert(texts(keys@)[i as int] == DEFAULT_FONT_NAME@);
            return false;
        }
        i += 1;
    }
    assert forall|k: int| 0 <= k < texts(keys@).len() implies texts(keys@)[k] != DEFAULT_FONT_NAME@ by {
        assert(texts(keys@)[k] == keys@[k]@);
    }
    true
}

/// The loaded fonts to register, as positions in `keys`, in registration
/// order: one per distinct name (its first occurrence), sorted by name.
pub fn font_registration_order(keys: &Vec<String>) -> (r: Vec<usize>)
    ensures
        distinct_key_order(texts(keys@), r@),
{
    let mut ks: Vec<Vec<char>> = Vec::new();
    let mut i: usize = 0;
    while i < keys.len()
        invariant
            i <= keys@.len(),
            ks@.len() == i,
            forall|k: int| 0 <= k < i ==> #[trigger] ks@[k]@ == keys@[k]@,
        decreases keys.len() - i,
    {
        ks.push(chars_of(keys[i].as_str()));
        i += 1;
    }
    assert(views(ks@) =~= texts(keys@));
    distinct_text_order(&ks)
}

/// The family an object's text uses: its requested family, trimmed, when it
/// is not blank and is one of the registered fonts; `None` for the default
/// proportional family.
pub fn font_family_for(requested: &str, font_names: &Vec<String>) -> (r: Option<String>)
    ensures
        match r {
            Some(f) => f@ == trim(requested@) && f@.len() > 0 && texts(font_names@).contains(f@),
            None => trim(requested@).len() == 0 || !texts(font_names@).contains(trim(requested@)),
        },
{
    let t = crate::text::trim_chars(chars_of(requested).as_slice());
    if t.len() == 0 {
        return None;
    }
    let mut i: usize = 0;
    while i < font_names.len()
        invariant
            i <= font_names@.len(),
            t@ == trim(requested@),
            t@.len() > 0,
            forall|k: int| 0 <= k < i ==> font_names@[k]@ != t@,
        decreases font_names.len() - i,
    {
        if chars_equal(chars_of(font_names[i].as_str()).as_slice(), t.as_slice()) {
            assert(texts(font_names@)[i as int] == t@);
            assert(texts(font_names@).contains(t@));
            return Some(string_of(t.as_slice()));
        }
        i += 1;
    }
    assert forall|k: int| 0 <= k < texts(font_names@).len() implies texts(font_names@)[k] != t@ by {
        assert(texts(font_names@)[k] == font_names@[k]@);
    }
    None
}

/// Adds the bundled default font's name in front of the loaded fonts' names
/// when none of them is `DEFAULT_FONT_NAME`; says whether it did.
pub fn add_default_font(keys: &mut Vec<String>) -> (added: bool)
    ensures
        added == !texts(old(keys)@).contains(DEFAULT_FONT_NAME@),
        added ==> texts(final(keys)@) == seq![DEFAULT_FONT_NAME@] + texts(old(keys)@),
        !added ==> final(keys)@ == old(keys)@,
        texts(final(keys)@).contains(DEFAULT_FONT_NAME@),
{
    let added = needs_default_font(keys);
    if added {
        keys.insert(0, String::from_str(DEFAULT_FONT_NAME));
        assert(texts(keys@) =~= seq![DEFAULT_FONT_NAME@] + texts(old(keys)@));
        assert(texts(keys@)[0] == DEFAULT_FONT_NAME@);
    }
    added
}

/// The names registered, in registration order.
pub open spec fn registered_names(keys: Seq<Seq<char>>, order: Seq<usize>) -> Seq<Seq<char>> {
    Seq::new(order.len(), |k: int| keys[order[k] as int])
}

/// The registered names are sorted, each one once, and hold exactly the
/// names of the fonts loaded; with the default font added, they hold its name.
pub proof fn lemma_registered_names(keys: Seq<Seq<char>>, order: Seq<usize>)
    requires
        distinct_key_order(keys, order),
    ensures
        forall|a: int, b: int|
            0 <= a < b < order.len() ==> text_lt(
                #[trigger] registered_names(keys, order)[a],
                #[trigger] registered_names(keys, order)[b],
            ),
        forall|n: Seq<char>| #[trigger] registered_names(keys, order).contains(n) <==> keys.contains(n),
        keys.contains(DEFAULT_FONT_NAME@) ==> registered_names(keys, order).contains(DEFAULT_FONT_NAME@),
{
    let names = registered_names(keys, order);
    assert forall|n: Seq<char>| #[trigger] names.contains(n) <==> keys.contains(n) by {
        if names.contains(n) {
            let k = choose|k: int| 0 <= k < names.len() && names[k] == n;
            assert(order[k] < keys.len());
            assert(keys[order[k] as int] == n);
        }
        if keys.contains(n) {
            let t = choose|t: int| 0 <= t < keys.len() && keys[t] == n;
            assert(key_listed(keys, order, keys[t]));
            let k = choose|k: int| 0 <= k < order.len() && keys[order[k] as int] == keys[t];
            assert(names[k] == n);
        }
    }
    assert forall|a: int, b: int| 0 <= a < b < order.len() implies text_lt(
        #[trigger] names[a],
        #[trigger] names[b],
    ) by {
        assert(text_lt(keys[order[a] as int], keys[order[b] as int]));
    }
}

} // verus!
