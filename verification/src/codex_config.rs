//! Reading and editing the `key = "value"` lines of the Codex `config.toml`
//! (the model and the reasoning effort), through the `regex` crate.

use vstd::prelude::*;
use crate::text::{chars_of, chars_equal, ends_with, string_of, trim, trim_chars};

verus! {

#[verifier::external_type_specification]
#[verifier::external_body]
pub struct ExRegex(regex::Regex);

#[verifier::external_type_specification]
#[verifier::external_body]
pub struct ExRegexError(regex::Error);

/// Whether `regex::Regex::new` accepts `pattern` (it rejects invalid syntax
/// and patterns over its size limit).
pub uninterp spec fn regex_accepts(pattern: Seq<char>) -> bool;

/// `Regex::is_match` of the regex compiled from `pattern` on `haystack`.
pub uninterp spec fn regex_is_match(pattern: Seq<char>, haystack: Seq<char>) -> bool;

/// `Regex::replace_all` of the regex compiled from `pattern` on `haystack`
/// with the replacement string `replacement` (where `$` names a group).
pub uninterp spec fn regex_replace_all(
    pattern: Seq<char>,
    haystack: Seq<char>,
    replacement: Seq<char>,
) -> Seq<char>;

/// For each match of `Regex::captures_iter` of the regex compiled from
/// `pattern` on `haystack`, in order, the text of its first group if that
/// group took part in the match.
pub uninterp spec fn regex_group1_texts(pattern: Seq<char>, haystack: Seq<char>) -> Seq<Option<Seq<char>>>;

/// `regex_syntax::is_meta_character`.
pub open spec fn regex_meta(c: char) -> bool {
    c == '\\' || c == '.' || c == '+' || c == '*' || c == '?' || c == '(' || c == ')' || c == '|'
        || c == '[' || c == ']' || c == '{' || c == '}' || c == '^' || c == '$' || c == '#' || c
        == '&' || c == '-' || c == '~'
}

/// `regex::escape`: each meta character preceded by a backslash.
pub open spec fn regex_escaped(text: Seq<char>) -> Seq<char>
    decreases text.len(),
{
    if text.len() == 0 {
        Seq::empty()
    } else {
        regex_escaped(text.drop_last()) + if regex_meta(text.last()) {
            seq!['\\', text.last()]
        } else {
            seq![text.last()]
        }
    }
}

/// `regex::escape`; the result is `text` with a backslash before every meta
/// character, as its source shows.
#[verifier::external_body]
fn escape_for_regex(text: &str) -> (r: String)
    ensures
        r@ == regex_escaped(text@),
{
    regex::escape(text)
}

/// `regex::Regex::new`; it succeeds exactly on the patterns it accepts.
#[verifier::external_body]
fn compile_regex(pattern: &str) -> (r: Result<regex::Regex, regex::Error>)
    ensures
        r is Ok <==> regex_accepts(pattern@),
{
    regex::Regex::new(pattern)
}

/// A compiled regex together with the pattern it was compiled from. Only
/// `SourcedRegex::compile` builds one, so `source` is always the pattern of `re`.
pub struct SourcedRegex {
    re: regex::Regex,
    source: String,
}

/// `Regex::is_match` on the regex of `m`; its result is named by
/// `regex_is_match` over the pattern `m` was compiled from.
#[verifier::external_body]
fn regex_matches(m: &SourcedRegex, haystack: &str) -> (r: bool)
    ensures
        r == regex_is_match(m.source@, haystack@),
{
    m.re.is_match(haystack)
}

/// `Regex::replace_all` with a replacement string, owned; its result is named
/// by `regex_replace_all` over the pattern `m` was compiled from.
#[verifier::external_body]
fn regex_replace_every(m: &SourcedRegex, haystack: &str, replacement: &str) -> (r: String)
    ensures
        r@ == regex_replace_all(m.source@, haystack@, replacement@),
{
    m.re.replace_all(haystack, replacement).into_owned()
}

/// The view of an optional string.
pub open spec fn opt_text(o: Option<String>) -> Option<Seq<char>> {
    match o {
        Some(s) => Some(s@),
        None => None,
    }
}

/// `Regex::captures_iter`, each match mapped to the text of its first group
/// (`Captures::get(1)`, `Match::as_str`); the list is named by
/// `regex_group1_texts` over the pattern `m` was compiled from.
#[verifier::external_body]
fn regex_group1_all(m: &SourcedRegex, haystack: &str) -> (r: Vec<Option<String>>)
    ensures
        r@.len() == regex_group1_texts(m.source@, haystack@).len(),
        forall|i: int| 0 <= i < r@.len() ==> #[trigger] opt_text(r@[i]) == regex_group1_texts(
            m.source@,
            haystack@,
        )[i],
{
    m.re.captures_iter(haystack).map(|c| c.get(1).map(|g| g.as_str().to_string())).collect()
}

impl SourcedRegex {
    pub closed spec fn pattern(&self) -> Seq<char> {
        self.source@
    }

    pub fn compile(pattern: &str) -> (r: Result<SourcedRegex, regex::Error>)
        ensures
            r is Ok <==> regex_accepts(pattern@),
            r matches Ok(m) ==> m.pattern() == pattern@,
    {
        match compile_regex(pattern) {
            Ok(re) => Ok(SourcedRegex { re, source: String::from_str(pattern) }),
            Err(e) => Err(e),
        }
    }
}

/// The model names the configuration may select.
pub open spec fn model_candidates() -> Seq<Seq<char>> {
    seq!["gpt-5.3-codex"@, "gpt-5.3-codex-spark"@, "gpt-5.4"@]
}

/// The reasoning efforts the configuration may select.
pub open spec fn reasoning_effort_candidates() -> Seq<Seq<char>> {
    seq!["low"@, "medium"@, "high"@, "xhigh"@]
}

/// The model used when the configuration names none or an unknown one.
pub const DEFAULT_MODEL: &'static str = "gpt-5.3-codex";
/// The reasoning effort used when the configuration names none or an unknown one.
pub const DEFAULT_REASONING_EFFORT: &'static str = "medium";

pub fn model_candidate_list() -> (r: Vec<&'static str>)
    ensures
        r@.len() == model_candidates().len(),
        forall|i: int| 0 <= i < r@.len() ==> #[trigger] r@[i]@ == model_candidates()[i],
{
    let r = vec!["gpt-5.3-codex", "gpt-5.3-codex-spark", "gpt-5.4"];
    assert forall|i: int| 0 <= i < r@.len() implies #[trigger] r@[i]@ == model_candidates()[i] by {}
    r
}

pub fn reasoning_effort_candidate_list() -> (r: Vec<&'static str>)
    ensures
        r@.len() == reasoning_effort_candidates().len(),
        forall|i: int| 0 <= i < r@.len() ==> #[trigger] r@[i]@ == reasoning_effort_candidates()[i],
{
    let r = vec!["low", "medium", "high", "xhigh"];
    assert forall|i: int| 0 <= i < r@.len() implies #[trigger] r@[i]@
        == reasoning_effort_candidates()[i] by {}
    r
}

fn list_contains(list: &Vec<&'static str>, s: &str) -> (r: bool)
    ensures
        r == list@.map_values(|x: &'static str| x@).contains(s@),
{
    let ghost views = list@.map_values(|x: &'static str| x@);
    let target = chars_of(s);
    let mut i: usize = 0;
    while i < list.len()
        invariant
            i <= list@.len(),
            views == list@.map_values(|x: &'static str| x@),
            target@ == s@,
            forall|k: int| 0 <= k < i ==> views[k] != s@,
        decreases list.len() - i,
    {
        let c = chars_of(list[i]);
        if chars_equal(c.as_slice(), target.as_slice()) {
            assert(views[i as int] == s@);
            return true;
        }
        assert(views[i as int] != s@);
        i += 1;
    }
    false
}

pub fn is_valid_model(model: &str) -> (r: bool)
    ensures
        r == model_candidates().contains(model@),
{
    let list = model_candidate_list();
    assert(list@.map_values(|x: &'static str| x@) =~= model_candidates());
    list_contains(&list, model)
}

pub fn is_valid_reasoning_effort(effort: &str) -> (r: bool)
    ensures
        r == reasoning_effort_candidates().contains(effort@),
{
    let list = reasoning_effort_candidate_list();
    assert(list@.map_values(|x: &'static str| x@) =~= reasoning_effort_candidates());
    list_contains(&list, effort)
}

/// The pattern of a whole `key = "..."` line (multi-line mode).
pub open spec fn key_line_pattern(key: Seq<char>) -> Seq<char> {
    "(?m)^\\s*"@ + regex_escaped(key) + "\\s*=\\s*\".*?\"\\s*$"@
}

/// The pattern of a whole `key = "..."` line whose first group is the value.
pub open spec fn key_value_pattern(key: Seq<char>) -> Seq<char> {
    "(?m)^\\s*"@ + regex_escaped(key) + "\\s*=\\s*\"(.*?)\"\\s*$"@
}

/// The line that sets `key` to `value`.
pub open spec fn key_assignment(key: Seq<char>, value: Seq<char>) -> Seq<char> {
    key + " = \""@ + value + "\""@
}

/// `body` with `line` added as a last line (a newline is put first when the
/// body is not empty and does not end with one).
pub open spec fn with_line_appended(body: Seq<char>, line: Seq<char>) -> Seq<char> {
    (if body.len() > 0 && !ends_with(body, "\n"@) {
        body + "\n"@
    } else {
        body
    }) + line + "\n"@
}

/// The first present entry of a list of optional texts.
pub open spec fn first_present(list: Seq<Option<Seq<char>>>) -> Option<Seq<char>>
    decreases list.len(),
{
    if list.len() == 0 {
        None
    } else if list[0] is Some {
        list[0]
    } else {
        first_present(list.drop_first())
    }
}

/// The value the configuration text gives `key`: the first group of the first
/// `key = "..."` line, if the pattern is accepted and such a line exists.
pub open spec fn config_value(contents: Seq<char>, key: Seq<char>) -> Option<Seq<char>> {
    if regex_accepts(key_value_pattern(key)) {
        first_present(regex_group1_texts(key_value_pattern(key), contents))
    } else {
        None
    }
}

/// Why an edit of the configuration text did not go through.
pub enum ConfigEditError {
    /// The pattern of the key's line was rejected.
    KeyPattern(regex::Error),
    /// The pattern used to read the value back was rejected.
    CheckPattern(regex::Error),
    /// The text read back does not give the key the value written.
    NotReflected,
    /// The model is not one of the candidates.
    InvalidModel,
    /// The reasoning effort is not one of the candidates.
    InvalidReasoningEffort,
}

fn build_pattern(key: &str, with_group: bool) -> (r: String)
    ensures
        with_group ==> r@ == key_value_pattern(key@),
        !with_group ==> r@ == key_line_pattern(key@),
{
    let escaped = escape_for_regex(key);
    let mut p = String::from_str("(?m)^\\s*");
    p.append(escaped.as_str());
    if with_group {
        p.append("\\s*=\\s*\"(.*?)\"\\s*$");
    } else {
        p.append("\\s*=\\s*\".*?\"\\s*$");
    }
    p
}

/// The line `key = "value"`.
pub fn key_assignment_line(key: &str, value: &str) -> (r: String)
    ensures
        r@ == key_assignment(key@, value@),
{
    let mut r = String::from_str(key);
    r.append(" = \"");
    r.append(value);
    r.append("\"");
    r
}

/// The first value present in a list of captured group texts.
pub fn first_group_value(list: &Vec<Option<String>>) -> (r: Option<String>)
    ensures
        opt_text(r) == first_present(list@.map_values(|o: Option<String>| opt_text(o))),
{
    let ghost views = list@.map_values(|o: Option<String>| opt_text(o));
    let mut i: usize = 0;
    assert(views.skip(0) =~= views);
    while i < list.len()
        invariant
            i <= list@.len(),
            views == list@.map_values(|o: Option<String>| opt_text(o)),
            first_present(views) == first_present(views.skip(i as int)),
        decreases list.len() - i,
    {
        assert(views.skip(i as int).drop_first() =~= views.skip(i + 1));
        assert(views[i as int] == opt_text(list@[i as int]));
        match &list[i] {
            Some(s) => {
                return Some(s.clone());
            },
            None => {},
        }
        i += 1;
    }
    assert(views.skip(i as int).len() == 0);
    None
}

/// The value the configuration text `contents` gives `key`: the first
/// `key = "..."` line's value.
pub fn load_codex_config_value(contents: &str, key: &str) -> (r: Option<String>)
    ensures
        opt_text(r) == config_value(contents@, key@),
{
    let pattern = build_pattern(key, true);
    match SourcedRegex::compile(pattern.as_str()) {
        Ok(m) => {
            let groups = regex_group1_all(&m, contents);
            let r = first_group_value(&groups);
            assert(groups@.map_values(|o: Option<String>| opt_text(o)) =~= regex_group1_texts(
                key_value_pattern(key@),
                contents@,
            ));
            r
        },
        Err(_) => None,
    }
}

/// The model the configuration selects: its `model` value when that is a
/// candidate, else the default model. `contents` is `None` when the file
/// could not be read.
pub open spec fn selected_model(contents: Option<Seq<char>>) -> Seq<char> {
    match contents {
        Some(c) => match config_value(c, "model"@) {
            Some(v) => if model_candidates().contains(v) {
                v
            } else {
                DEFAULT_MODEL@
            },
            None => DEFAULT_MODEL@,
        },
        None => DEFAULT_MODEL@,
    }
}

/// The reasoning effort the configuration selects: its
/// `model_reasoning_effort` value when that is a candidate, else `medium`.
pub open spec fn selected_reasoning_effort(contents: Option<Seq<char>>) -> Seq<char> {
    match contents {
        Some(c) => match config_value(c, "model_reasoning_effort"@) {
            Some(v) => if reasoning_effort_candidates().contains(v) {
                v
            } else {
                DEFAULT_REASONING_EFFORT@
            },
            None => DEFAULT_REASONING_EFFORT@,
        },
        None => DEFAULT_REASONING_EFFORT@,
    }
}

pub open spec fn opt_str(o: Option<&str>) -> Option<Seq<char>> {
    match o {
        Some(s) => Some(s@),
        None => None,
    }
}

pub fn load_model(contents: Option<&str>) -> (r: String)
    ensures
        r@ == selected_model(opt_str(contents)),
{
    let found = match contents {
        Some(c) => load_codex_config_value(c, "model"),
        None => None,
    };
    match found {
        Some(v) => {
            if is_valid_model(v.as_str()) {
                v
            } else {
                String::from_str(DEFAULT_MODEL)
            }
        },
        None => String::from_str(DEFAULT_MODEL),
    }
}

pub fn load_reasoning_effort(contents: Option<&str>) -> (r: String)
    ensures
        r@ == selected_reasoning_effort(opt_str(contents)),
{
    let found = match contents {
        Some(c) => load_codex_config_value(c, "model_reasoning_effort"),
        None => None,
    };
    match found {
        Some(v) => {
            if is_valid_reasoning_effort(v.as_str()) {
                v
            } else {
                String::from_str(DEFAULT_REASONING_EFFORT)
            }
        },
        None => String::from_str(DEFAULT_REASONING_EFFORT),
    }
}

/// The configuration text after setting `key` to `value`: every `key = "..."`
/// line replaced by the new assignment, or the assignment added as a last line
/// when there is none; `None` when the key's pattern is rejected.
pub open spec fn updated_config(current: Seq<char>, key: Seq<char>, value: Seq<char>) -> Option<Seq<char>> {
    let p = key_line_pattern(key);
    if !regex_accepts(p) {
        None
    } else if regex_is_match(p, current) {
        Some(regex_replace_all(p, current, key_assignment(key, value)))
    } else {
        Some(with_line_appended(current, key_assignment(key, value)))
    }
}

/// `body` with `line` added as its last line (after a line break when the
/// body does not end with one).
pub fn append_config_line(body: &str, line: &str) -> (r: String)
    ensures
        r@ == with_line_appended(body@, line@),
{
    let mut out = String::from_str(body);
    let cv = chars_of(body);
    let nl = chars_of("\n");
    if cv.len() > 0 && !crate::text::ends_with_chars(cv.as_slice(), nl.as_slice()) {
        out.append("\n");
    }
    out.append(line);
    out.append("\n");
    out
}

/// The new configuration text for setting `key` to `value` in `current`.
pub fn update_codex_config_text(current: &str, key: &str, value: &str) -> (r: Result<String, ConfigEditError>)
    ensures
        r is Ok <==> updated_config(current@, key@, value@) is Some,
        r matches Ok(t) ==> Some(t@) == updated_config(current@, key@, value@),
{
    let pattern = build_pattern(key, false);
    let m = match SourcedRegex::compile(pattern.as_str()) {
        Ok(m) => m,
        Err(e) => {
            return Err(ConfigEditError::KeyPattern(e));
        },
    };
    let replacement = key_assignment_line(key, value);
    if regex_matches(&m, current) {
        Ok(regex_replace_every(&m, current, replacement.as_str()))
    } else {
        Ok(append_config_line(current, replacement.as_str()))
    }
}

/// Whether some `key = "..."` line of `contents` gives `key` exactly `value`.
pub open spec fn value_reflected(contents: Seq<char>, key: Seq<char>, value: Seq<char>) -> bool {
    regex_group1_texts(key_value_pattern(key), contents).contains(Some(value))
}

/// Whether one of the captured group texts is `value`.
pub fn group_values_contain(groups: &Vec<Option<String>>, value: &str) -> (r: bool)
    ensures
        r == groups@.map_values(|o: Option<String>| opt_text(o)).contains(Some(value@)),
{
    let ghost texts = groups@.map_values(|o: Option<String>| opt_text(o));
    let target = chars_of(value);
    let mut i: usize = 0;
    while i < groups.len()
        invariant
            i <= groups@.len(),
            texts == groups@.map_values(|o: Option<String>| opt_text(o)),
            target@ == value@,
            forall|k: int| 0 <= k < i ==> texts[k] != Some(value@),
        decreases groups.len() - i,
    {
        assert(texts[i as int] == opt_text(groups@[i as int]));
        match &groups[i] {
            Some(s) => {
                if chars_equal(chars_of(s.as_str()).as_slice(), target.as_slice()) {
                    assert(texts[i as int] == Some(value@));
                    return true;
                }
            },
            None => {},
        }
        i += 1;
    }
    false
}

/// The check made after writing: `Ok(())` when the text read back gives `key`
/// the value `value`.
pub fn check_config_value_reflected(contents: &str, key: &str, value: &str) -> (r: Result<(), ConfigEditError>)
    ensures
        r is Ok <==> (regex_accepts(key_value_pattern(key@)) && value_reflected(contents@, key@, value@)),
        !regex_accepts(key_value_pattern(key@)) ==> r matches Err(ConfigEditError::CheckPattern(_)),
        regex_accepts(key_value_pattern(key@)) && !value_reflected(contents@, key@, value@)
            ==> r matches Err(ConfigEditError::NotReflected),
{
    let pattern = build_pattern(key, true);
    let m = match SourcedRegex::compile(pattern.as_str()) {
        Ok(m) => m,
        Err(e) => {
            return Err(ConfigEditError::CheckPattern(e));
        },
    };
    let groups = regex_group1_all(&m, contents);
    assert(groups@.map_values(|o: Option<String>| opt_text(o)) =~= regex_group1_texts(
        key_value_pattern(key@),
        contents@,
    ));
    if group_values_contain(&groups, value) {
        Ok(())
    } else {
        Err(ConfigEditError::NotReflected)
    }
}


/// `Ok(())` when `selected` is a model candidate.
pub fn check_model_choice(selected: &str) -> (r: Result<(), ConfigEditError>)
    ensures
        r is Ok <==> model_candidates().contains(selected@),
        r is Err ==> r matches Err(ConfigEditError::InvalidModel),
{
    if is_valid_model(selected) {
        Ok(())
    } else {
        Err(ConfigEditError::InvalidModel)
    }
}

/// `Ok(())` when `selected` is a reasoning effort candidate.
pub fn check_reasoning_effort_choice(selected: &str) -> (r: Result<(), ConfigEditError>)
    ensures
        r is Ok <==> reasoning_effort_candidates().contains(selected@),
        r is Err ==> r matches Err(ConfigEditError::InvalidReasoningEffort),
{
    if is_valid_reasoning_effort(selected) {
        Ok(())
    } else {
        Err(ConfigEditError::InvalidReasoningEffort)
    }
}

/// The candidates of a configuration combo box: the models, or the reasoning
/// efforts.
pub open spec fn choice_candidates(is_model: bool) -> Seq<Seq<char>> {
    if is_model {
        model_candidates()
    } else {
        reasoning_effort_candidates()
    }
}

/// Takes a value chosen in a configuration combo box once the configuration
/// file was (`written`) or was not rewritten for it: the selection becomes
/// the chosen value only when it was written and is a candidate, and so only
/// ever holds its old value or a candidate.
pub fn settle_config_choice(selected: &mut String, chosen: &str, is_model: bool, written: bool)
    ensures
        final(selected)@ == if written && choice_candidates(is_model).contains(chosen@) {
            chosen@
        } else {
            old(selected)@
        },
        final(selected)@ == old(selected)@ || choice_candidates(is_model).contains(final(selected)@),
{
    let valid = if is_model {
        is_valid_model(chosen)
    } else {
        is_valid_reasoning_effort(chosen)
    };
    if written && valid {
        *selected = String::from_str(chosen);
    }
}

/// The text a configuration combo box shows: the selected value, else the
/// trimmed placeholder, else `fallback`.
pub fn config_combo_text(selected: &str, placeholder: &str, fallback: &str) -> (r: String)
    ensures
        r@ == if selected@.len() > 0 {
            selected@
        } else if trim(placeholder@).len() > 0 {
            trim(placeholder@)
        } else {
            fallback@
        },
{
    if chars_of(selected).len() > 0 {
        return String::from_str(selected);
    }
    let t = crate::text::trim_chars(chars_of(placeholder).as_slice());
    if t.len() > 0 {
        crate::text::string_of(t.as_slice())
    } else {
        String::from_str(fallback)
    }
}

} // verus!
