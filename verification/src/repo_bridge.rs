//! Choosing where to record the selected project for a companion tool: each
//! configured start-up executable whose folder has a `runtime` folder (or an
//! existing `runtime/selected_repo_path.txt`) is a candidate, scored by what
//! exists; the best-scored, earliest candidate is chosen, and the rejected
//! ones are summarised.

use vstd::prelude::*;
use crate::objects::{drawing_order, ordered_indices};
use crate::paths::{join_path, parent_path, parent_path_chars, join_path_chars, resolve_path, resolved_path};
use crate::text::{
    append_str, chars_of, contains, contains_chars, decimal, decimal_chars, join, lower, lower_chars,
    string_of, strip_char, strip_char_chars, trim, trim_chars,
};

verus! {

pub const SELECTED_REPO_FILE_NAME: &'static str = "selected_repo_path.txt";

/// A part of an executable's path that marks the companion tool.
pub const BRIDGE_NAME_HINT: &'static str = "codex_rollback_bridge";

pub const EMPTY_PATH_REASON: &'static str = "空のパスです";

pub const SLOT_LABEL_PREFIX: &'static str = "startup_exe_";

pub const NO_PARENT_REASON: &'static str = ": EXE親ディレクトリを解決できません (";

pub const NO_RUNTIME_REASON: &'static str = ": runtime/selected_repo_path.txt が存在しません (";

pub const REASON_OUTPUT_EXISTS: &'static str = "selected_repo_path.txt 既存";

pub const REASON_RUNTIME_EXISTS: &'static str = "runtime 既存";

pub const REASON_NAME_HINT: &'static str = "exe名ヒント一致";

pub const REASON_NONE: &'static str = "補助情報なし";

pub const REASON_SEPARATOR: &'static str = ", ";

pub const NO_REJECTION: &'static str = "不採用理由なし";

pub const SUMMARY_SEPARATOR: &'static str = " / ";

pub const NO_CANDIDATE_MESSAGE: &'static str = "selected_repo_path.txt の候補が見つかりません 候補数=0 不採用: ";

pub const EMPTY_TARGET_MESSAGE: &'static str = "target_project_dir_path が空です";

/// The number of rejection reasons a summary lists before counting the rest.
pub const SUMMARY_ITEMS: usize = 3;

/// The configured path of a start-up executable: trimmed, with surrounding
/// double quotes removed; `None` when nothing is left.
pub open spec fn startup_path(raw: Seq<char>) -> Option<Seq<char>> {
    let t = strip_char(trim(raw), '"');
    if t.len() == 0 {
        None
    } else {
        Some(t)
    }
}

/// The path of a configured start-up executable resolved against the current
/// folder `current_dir`, or the reason why there is none.
pub fn resolve_startup_executable_path(raw: &str, current_dir: &str) -> (r: Result<String, String>)
    ensures
        match (r, startup_path(raw@)) {
            (Ok(p), Some(q)) => p@ == resolved_path(current_dir@, q),
            (Err(e), None) => e@ == EMPTY_PATH_REASON@,
            _ => false,
        },
{
    let t = trim_chars(chars_of(raw).as_slice());
    let s = strip_char_chars(t.as_slice(), '"');
    if s.len() == 0 {
        Err(String::from_str(EMPTY_PATH_REASON))
    } else {
        Ok(resolve_path(current_dir, string_of(s.as_slice()).as_str()))
    }
}

/// The executable configured in the first auto-start slot, whose folder
/// receives the record of the selected project: the setting trimmed, `None`
/// when blank.
pub fn configured_exe_path(raw: &str) -> (r: Option<String>)
    ensures
        match r {
            Some(p) => p@ == trim(raw@) && p@.len() > 0,
            None => trim(raw@).len() == 0,
        },
{
    let t = trim_chars(chars_of(raw).as_slice());
    if t.len() == 0 {
        None
    } else {
        Some(string_of(t.as_slice()))
    }
}

/// The folder that receives the record, beside an executable.
pub const RUNTIME_DIR_NAME: &'static str = "runtime";

pub const UNSET_EXE_MESSAGE: &'static str = "自動起動設定1が未設定です";

pub const NO_EXE_PARENT_MESSAGE: &'static str = "自動起動設定1の親ディレクトリを解決できません: ";

/// The `runtime` folder beside an executable.
pub open spec fn runtime_dir_of(parent: Seq<char>) -> Seq<char> {
    join_path(parent, RUNTIME_DIR_NAME@)
}

/// The record file inside the `runtime` folder beside an executable.
pub open spec fn record_file_of(parent: Seq<char>) -> Seq<char> {
    join_path(runtime_dir_of(parent), SELECTED_REPO_FILE_NAME@)
}

/// The `runtime` folder and the record file beside an executable, `None`
/// when its folder cannot be told.
pub fn bridge_paths(exe: &str) -> (r: Option<(String, String)>)
    ensures
        match (r, parent_path(exe@)) {
            (Some((d, f)), Some(p)) => d@ == runtime_dir_of(p) && f@ == record_file_of(p),
            (None, None) => true,
            _ => false,
        },
{
    match parent_path_chars(chars_of(exe).as_slice()) {
        None => None,
        Some(p) => {
            let d = join_path_chars(p.as_slice(), RUNTIME_DIR_NAME);
            let f = join_path_chars(d.as_slice(), SELECTED_REPO_FILE_NAME);
            Some((string_of(d.as_slice()), string_of(f.as_slice())))
        },
    }
}

/// Where the selected project is recorded for the executable of the first
/// auto-start slot (`raw`, the setting as configured).
pub open spec fn bridge_file_path(raw: Seq<char>) -> Result<Seq<char>, Seq<char>> {
    if trim(raw).len() == 0 {
        Err(UNSET_EXE_MESSAGE@)
    } else {
        match parent_path(trim(raw)) {
            None => Err(NO_EXE_PARENT_MESSAGE@ + trim(raw)),
            Some(p) => Ok(record_file_of(p)),
        }
    }
}

/// The record file for the executable configured in the first auto-start
/// slot, or why there is none.
pub fn selected_repo_bridge_file_path(raw: &str) -> (r: Result<String, String>)
    ensures
        match (r, bridge_file_path(raw@)) {
            (Ok(a), Ok(b)) => a@ == b,
            (Err(a), Err(b)) => a@ == b,
            _ => false,
        },
{
    let exe = match configured_exe_path(raw) {
        None => return Err(String::from_str(UNSET_EXE_MESSAGE)),
        Some(e) => e,
    };
    match bridge_paths(exe.as_str()) {
        None => {
            let mut v = chars_of(NO_EXE_PARENT_MESSAGE);
            append_str(&mut v, exe.as_str());
            Err(string_of(v.as_slice()))
        },
        Some((_, f)) => Ok(f),
    }
}

/// What the file system shows of one configured executable, whose path
/// `resolve_startup_executable_path` gives: whether the record file and the
/// `runtime` folder beside it (`bridge_paths`) exist.
pub struct PathFacts {
    pub output_exists: bool,
    pub runtime_exists: bool,
}

/// What the verdict on one configured executable reads: its resolved path
/// and what the file system shows of it.
pub struct FactsModel {
    pub resolved: Seq<char>,
    pub output_exists: bool,
    pub runtime_exists: bool,
}

/// The configured executable `raw`, resolved against `current_dir`, with
/// what the file system shows of it.
pub open spec fn facts_model(raw: Seq<char>, current_dir: Seq<char>, f: PathFacts) -> FactsModel {
    FactsModel {
        resolved: match startup_path(raw) {
            Some(p) => resolved_path(current_dir, p),
            None => Seq::empty(),
        },
        output_exists: f.output_exists,
        runtime_exists: f.runtime_exists,
    }
}

/// A start-up executable that can receive the record.
pub struct RepoPathCandidate {
    pub source_slot: usize,
    pub source_startup_exe: String,
    pub resolved_exe_path: String,
    pub runtime_dir: String,
    pub output_file: String,
    pub output_exists: bool,
    pub runtime_exists: bool,
    pub score: u32,
    pub score_reason: String,
}

pub struct CandidateModel {
    pub source_slot: nat,
    pub source_startup_exe: Seq<char>,
    pub resolved_exe_path: Seq<char>,
    pub runtime_dir: Seq<char>,
    pub output_file: Seq<char>,
    pub output_exists: bool,
    pub runtime_exists: bool,
    pub score: nat,
    pub score_reason: Seq<char>,
}

impl RepoPathCandidate {
    pub open spec fn model(&self) -> CandidateModel {
        CandidateModel {
            source_slot: self.source_slot as nat,
            source_startup_exe: self.source_startup_exe@,
            resolved_exe_path: self.resolved_exe_path@,
            runtime_dir: self.runtime_dir@,
            output_file: self.output_file@,
            output_exists: self.output_exists,
            runtime_exists: self.runtime_exists,
            score: self.score as nat,
            score_reason: self.score_reason@,
        }
    }
}

/// Whether the executable's path names the companion tool.
pub open spec fn name_hint(resolved: Seq<char>) -> bool {
    contains(lower(resolved), BRIDGE_NAME_HINT@)
}

/// 100 for an existing record file, 10 for an existing `runtime` folder, 1
/// for the name hint.
pub open spec fn score_of(f: FactsModel) -> nat {
    (if f.output_exists { 100nat } else { 0nat }) + (if f.runtime_exists { 10nat } else { 0nat }) + (if name_hint(
        f.resolved,
    ) {
        1nat
    } else {
        0nat
    })
}

/// The reasons behind a score, in the order record file, folder, name.
pub open spec fn reasons_of(f: FactsModel) -> Seq<Seq<char>> {
    let a: Seq<Seq<char>> = if f.output_exists { seq![REASON_OUTPUT_EXISTS@] } else { Seq::empty() };
    let b: Seq<Seq<char>> = if f.runtime_exists { seq![REASON_RUNTIME_EXISTS@] } else { Seq::empty() };
    let c: Seq<Seq<char>> = if name_hint(f.resolved) { seq![REASON_NAME_HINT@] } else { Seq::empty() };
    a + b + c
}

pub open spec fn reason_text(f: FactsModel) -> Seq<char> {
    if reasons_of(f).len() == 0 {
        REASON_NONE@
    } else {
        join(reasons_of(f), REASON_SEPARATOR@)
    }
}

pub open spec fn slot_label(slot: nat) -> Seq<char> {
    SLOT_LABEL_PREFIX@ + decimal(slot)
}

/// The verdict on the executable configured in `slot` (counted from 1): a
/// candidate, or the line that says why it was rejected.
pub open spec fn assessed(slot: nat, raw: Seq<char>, f: FactsModel) -> Result<CandidateModel, Seq<char>> {
    if startup_path(raw).is_none() {
        Err(slot_label(slot) + seq![':', ' '] + EMPTY_PATH_REASON@)
    } else if parent_path(f.resolved).is_none() {
        Err(slot_label(slot) + NO_PARENT_REASON@ + f.resolved + seq![')'])
    } else if !f.output_exists && !f.runtime_exists {
        Err(slot_label(slot) + NO_RUNTIME_REASON@ + f.resolved + seq![')'])
    } else {
        Ok(
            CandidateModel {
                source_slot: slot,
                source_startup_exe: trim(raw),
                resolved_exe_path: f.resolved,
                runtime_dir: runtime_dir_of(parent_path(f.resolved)->Some_0),
                output_file: record_file_of(parent_path(f.resolved)->Some_0),
                output_exists: f.output_exists,
                runtime_exists: f.runtime_exists,
                score: score_of(f),
                score_reason: reason_text(f),
            },
        )
    }
}

fn slot_label_chars(slot: u64) -> (r: Vec<char>)
    ensures
        r@ == slot_label(slot as nat),
{
    let mut v = chars_of(SLOT_LABEL_PREFIX);
    let mut d = decimal_chars(slot);
    v.append(&mut d);
    v
}

/// `<label><reason><resolved path>)`.
fn rejection_line(label: Vec<char>, reason: &str, resolved: &str) -> (r: String)
    ensures
        r@ == label@ + reason@ + resolved@ + seq![')'],
{
    let mut v = label;
    append_str(&mut v, reason);
    append_str(&mut v, resolved);
    v.push(')');
    let r = string_of(v.as_slice());
    assert(r@ =~= label@ + reason@ + resolved@ + seq![')']);
    r
}

/// Judges the executable configured in `slot` (counted from 1).
pub fn assess_startup_executable(slot: usize, raw: &str, current_dir: &str, facts: &PathFacts) -> (r: Result<
    RepoPathCandidate,
    String,
>)
    ensures
        match (r, assessed(slot as nat, raw@, facts_model(raw@, current_dir@, *facts))) {
            (Ok(c), Ok(m)) => c.model() == m,
            (Err(e), Err(m)) => e@ == m,
            _ => false,
        },
{
    let label = slot_label_chars(slot as u64);
    let resolved = match resolve_startup_executable_path(raw, current_dir) {
        Ok(p) => p,
        Err(_) => {
            let mut v = label;
        v.push(':');
        v.push(' ');
            append_str(&mut v, EMPTY_PATH_REASON);
            let e = string_of(v.as_slice());
            assert(e@ =~= slot_label(slot as nat) + seq![':', ' '] + EMPTY_PATH_REASON@);
            return Err(e);
        },
    };
    let (runtime_dir, output_file) = match bridge_paths(resolved.as_str()) {
        None => return Err(rejection_line(label, NO_PARENT_REASON, resolved.as_str())),
        Some(p) => p,
    };
    if !facts.output_exists && !facts.runtime_exists {
        return Err(rejection_line(label, NO_RUNTIME_REASON, resolved.as_str()));
    }
    let lowered = lower_chars(chars_of(resolved.as_str()).as_slice());
    let hint = contains_chars(lowered.as_slice(), chars_of(BRIDGE_NAME_HINT).as_slice());
    let mut score: u32 = 0;
    let mut reasons: Vec<Vec<char>> = Vec::new();
    if facts.output_exists {
        score = score + 100;
        reasons.push(chars_of(REASON_OUTPUT_EXISTS));
    }
    if facts.runtime_exists {
        score = score + 10;
        reasons.push(chars_of(REASON_RUNTIME_EXISTS));
    }
    if hint {
        score = score + 1;
        reasons.push(chars_of(REASON_NAME_HINT));
    }
    let ghost rs = reasons@.map_values(|l: Vec<char>| l@);
    assert(rs =~= reasons_of(facts_model(raw@, current_dir@, *facts)));
    let reason = if reasons.len() == 0 {
        String::from_str(REASON_NONE)
    } else {
        let j = crate::text::join_chars(&reasons, chars_of(REASON_SEPARATOR).as_slice());
        string_of(j.as_slice())
    };
    let source = string_of(trim_chars(chars_of(raw).as_slice()).as_slice());
    Ok(
        RepoPathCandidate {
            source_slot: slot,
            source_startup_exe: source,
            resolved_exe_path: resolved,
            runtime_dir,
            output_file,
            output_exists: facts.output_exists,
            runtime_exists: facts.runtime_exists,
            score,
            score_reason: reason,
        },
    )
}

/// The verdicts on the configured executables, slot `k + 1` for `raws[k]`.
pub open spec fn outcomes(raws: Seq<Seq<char>>, facts: Seq<FactsModel>) -> Seq<Result<CandidateModel, Seq<char>>> {
    Seq::new(raws.len(), |k: int| assessed((k + 1) as nat, raws[k], facts[k]))
}

/// The candidates among the verdicts, in slot order.
pub open spec fn accepted(outs: Seq<Result<CandidateModel, Seq<char>>>) -> Seq<CandidateModel>
    decreases outs.len(),
{
    if outs.len() == 0 {
        Seq::empty()
    } else {
        match outs.last() {
            Ok(c) => accepted(outs.drop_last()).push(c),
            Err(_) => accepted(outs.drop_last()),
        }
    }
}

/// The rejection lines among the verdicts, in slot order.
pub open spec fn rejections(outs: Seq<Result<CandidateModel, Seq<char>>>) -> Seq<Seq<char>>
    decreases outs.len(),
{
    if outs.len() == 0 {
        Seq::empty()
    } else {
        match outs.last() {
            Ok(_) => rejections(outs.drop_last()),
            Err(e) => rejections(outs.drop_last()).push(e),
        }
    }
}

/// Some entry of `order` is `i`.
pub open spec fn lists(order: Seq<usize>, i: int) -> bool {
    exists|k: int| 0 <= k < order.len() && order[k] as int == i
}

/// `order` ranks `cands`: higher score first, equal scores in slot order.
pub open spec fn ranked(cands: Seq<CandidateModel>, order: Seq<usize>) -> bool {
    &&& order.len() == cands.len()
    &&& forall|k: int| 0 <= k < order.len() ==> #[trigger] order[k] < cands.len()
    &&& forall|i: int| 0 <= i < cands.len() ==> #[trigger] lists(order, i)
    &&& forall|a: int, b: int|
        0 <= a < b < order.len() ==> ranks_before(cands, #[trigger] order[a] as int, #[trigger] order[b] as int)
}

/// Candidate `x` goes before candidate `y`: a higher score, or the same score
/// and an earlier slot.
pub open spec fn ranks_before(cands: Seq<CandidateModel>, x: int, y: int) -> bool {
    cands[x].score > cands[y].score || (cands[x].score == cands[y].score && x < y)
}

/// `result` lists the candidates of `outs` ranked by score.
pub open spec fn ranked_candidates(outs: Seq<Result<CandidateModel, Seq<char>>>, result: Seq<CandidateModel>) -> bool {
    exists|order: Seq<usize>|
        #![trigger ranked(accepted(outs), order)]
        ranked(accepted(outs), order) && result.len() == order.len() && forall|k: int|
            0 <= k < result.len() ==> #[trigger] result[k] == accepted(outs)[order[k] as int]
}

pub open spec fn candidate_models(v: Seq<RepoPathCandidate>) -> Seq<CandidateModel> {
    v.map_values(|c: RepoPathCandidate| c.model())
}

pub open spec fn texts(v: Seq<String>) -> Seq<Seq<char>> {
    v.map_values(|s: String| s@)
}

pub open spec fn fact_models(raws: Seq<Seq<char>>, current_dir: Seq<char>, v: Seq<PathFacts>) -> Seq<FactsModel> {
    Seq::new(v.len(), |k: int| facts_model(raws[k], current_dir, v[k]))
}

proof fn lemma_score_bound(slot: nat, raw: Seq<char>, f: FactsModel)
    ensures
        assessed(slot, raw, f) is Ok ==> assessed(slot, raw, f)->Ok_0.score <= 111,
{
}

proof fn lemma_accepted_scores(outs: Seq<Result<CandidateModel, Seq<char>>>)
    requires
        forall|k: int| 0 <= k < outs.len() && (#[trigger] outs[k]) is Ok ==> outs[k]->Ok_0.score <= 111,
    ensures
        forall|k: int| 0 <= k < accepted(outs).len() ==> #[trigger] accepted(outs)[k].score <= 111,
    decreases outs.len(),
{
    if outs.len() > 0 {
        let d = outs.drop_last();
        assert forall|k: int| 0 <= k < d.len() && (#[trigger] d[k]) is Ok implies d[k]->Ok_0.score <= 111 by {
            assert(d[k] == outs[k]);
        }
        lemma_accepted_scores(d);
        assert(outs[outs.len() - 1] == outs.last());
        match outs.last() {
            Ok(c) => {
                assert(accepted(outs) == accepted(d).push(c));
                assert forall|k: int| 0 <= k < accepted(outs).len() implies #[trigger] accepted(outs)[k].score <= 111 by {
                    if k < accepted(d).len() {
                        assert(accepted(outs)[k] == accepted(d)[k]);
                    }
                }
            },
            Err(_) => {
                assert(accepted(outs) == accepted(d));
            },
        }
    }
}

fn copy_candidate(c: &RepoPathCandidate) -> (r: RepoPathCandidate)
    ensures
        r.model() == c.model(),
{
    RepoPathCandidate {
        source_slot: c.source_slot,
        source_startup_exe: c.source_startup_exe.clone(),
        resolved_exe_path: c.resolved_exe_path.clone(),
        runtime_dir: c.runtime_dir.clone(),
        output_file: c.output_file.clone(),
        output_exists: c.output_exists,
        runtime_exists: c.runtime_exists,
        score: c.score,
        score_reason: c.score_reason.clone(),
    }
}

/// The candidates among the configured executables (`raws[k]` in slot
/// `k + 1`, resolved against the current folder `current_dir`, with what the
/// file system shows of it in `facts[k]`), best first, and the rejection
/// lines in slot order.
pub fn collect_selected_repo_path_candidates(raws: &Vec<String>, current_dir: &str, facts: &Vec<PathFacts>) -> (r: (
    Vec<RepoPathCandidate>,
    Vec<String>,
))
    requires
        raws@.len() == facts@.len(),
    ensures
        ranked_candidates(outcomes(texts(raws@), fact_models(texts(raws@), current_dir@, facts@)), candidate_models(r.0@)),
        texts(r.1@) == rejections(outcomes(texts(raws@), fact_models(texts(raws@), current_dir@, facts@))),
        forall|a: int, b: int|
            0 <= a < b < r.0@.len() ==> (#[trigger] r.0@[a]).score > (#[trigger] r.0@[b]).score || (r.0@[a].score
                == r.0@[b].score && r.0@[a].source_slot < r.0@[b].source_slot),
{
    let ghost outs = outcomes(texts(raws@), fact_models(texts(raws@), current_dir@, facts@));
    let mut found: Vec<RepoPathCandidate> = Vec::new();
    let mut rejected: Vec<String> = Vec::new();
    let mut i: usize = 0;
    while i < raws.len()
        invariant
            i <= raws@.len() == facts@.len() == outs.len(),
            outs == outcomes(texts(raws@), fact_models(texts(raws@), current_dir@, facts@)),
            candidate_models(found@) == accepted(outs.take(i as int)),
            texts(rejected@) == rejections(outs.take(i as int)),
        decreases raws.len() - i,
    {
        let verdict = assess_startup_executable(i + 1, raws[i].as_str(), current_dir, &facts[i]);
        assert(outs.take(i + 1).drop_last() =~= outs.take(i as int));
        assert(outs.take(i + 1).last() == outs[i as int]);
        match verdict {
            Ok(c) => {
                found.push(c);
                assert(candidate_models(found@) =~= accepted(outs.take(i as int)).push(found@.last().model()));
            },
            Err(e) => {
                rejected.push(e);
                assert(texts(rejected@) =~= rejections(outs.take(i as int)).push(rejected@.last()@));
            },
        }
        i += 1;
    }
    assert(outs.take(raws@.len() as int) =~= outs);
    let ghost acc = accepted(outs);
    proof {
        assert forall|k: int| 0 <= k < outs.len() && (#[trigger] outs[k]) is Ok implies outs[k]->Ok_0.score <= 111 by {
            lemma_score_bound((k + 1) as nat, texts(raws@)[k], fact_models(texts(raws@), current_dir@, facts@)[k]);
        }
        lemma_accepted_scores(outs);
    }
    let mut z: Vec<i32> = Vec::new();
    let mut k: usize = 0;
    while k < found.len()
        invariant
            k <= found@.len(),
            candidate_models(found@) == acc,
            forall|j: int| 0 <= j < acc.len() ==> #[trigger] acc[j].score <= 111,
            z@.len() == k,
            forall|j: int| 0 <= j < k ==> #[trigger] z@[j] == 0 - acc[j].score,
        decreases found.len() - k,
    {
        assert(acc[k as int].score == found@[k as int].score);
        let neg: i32 = 0 - (found[k].score as i32);
        z.push(neg);
        k += 1;
    }
    let order = ordered_indices(&z);
    assert(drawing_order(z@, order@));
    let mut ranked_list: Vec<RepoPathCandidate> = Vec::new();
    let mut k: usize = 0;
    while k < order.len()
        invariant
            k <= order@.len(),
            drawing_order(z@, order@),
            z@.len() == found@.len(),
            candidate_models(found@) == acc,
            ranked_list@.len() == k,
            forall|j: int| 0 <= j < k ==> #[trigger] ranked_list@[j].model() == acc[order@[j] as int],
        decreases order.len() - k,
    {
        let c = copy_candidate(&found[order[k]]);
        ranked_list.push(c);
        k += 1;
    }
    proof {
        assert forall|a: int, b: int| 0 <= a < b < order@.len() implies ranks_before(
            acc,
            #[trigger] order@[a] as int,
            #[trigger] order@[b] as int,
        ) by {
            assert(z@[order@[a] as int] == 0 - acc[order@[a] as int].score);
            assert(z@[order@[b] as int] == 0 - acc[order@[b] as int].score);
        }
        assert(acc.len() == found@.len());
        assert(order@.len() == acc.len());
        assert forall|k: int| 0 <= k < order@.len() implies #[trigger] order@[k] < acc.len() by {}
        assert forall|i: int| 0 <= i < acc.len() implies #[trigger] lists(order@, i) by {
            assert(order@.contains(i as usize));
        }
        assert(ranked(acc, order@));
        assert(candidate_models(ranked_list@).len() == order@.len());
        assert forall|j: int| 0 <= j < order@.len() implies #[trigger] candidate_models(ranked_list@)[j] == acc[order@[j] as int] by {
            assert(ranked_list@[j].model() == acc[order@[j] as int]);
        }
        let ms = candidate_models(ranked_list@);
        lemma_candidates_by_score_then_slot(texts(raws@), fact_models(texts(raws@), current_dir@, facts@), ms);
        assert forall|a: int, b: int| 0 <= a < b < ranked_list@.len() implies (#[trigger] ranked_list@[a]).score
            > (#[trigger] ranked_list@[b]).score || (ranked_list@[a].score == ranked_list@[b].score
            && ranked_list@[a].source_slot < ranked_list@[b].source_slot) by {
            assert(ms[a] == ranked_list@[a].model());
            assert(ms[b] == ranked_list@[b].model());
        }
    }
    (ranked_list, rejected)
}

/// The summary of the rejection lines: the first `SUMMARY_ITEMS` of them and,
/// when there are more, how many more (`他<n>件`), separated by ` / `.
pub open spec fn rejection_summary(rs: Seq<Seq<char>>) -> Seq<char> {
    if rs.len() == 0 {
        NO_REJECTION@
    } else if rs.len() <= SUMMARY_ITEMS {
        join(rs, SUMMARY_SEPARATOR@)
    } else {
        join(rs.take(SUMMARY_ITEMS as int).push(seq!['他'] + decimal((rs.len() - SUMMARY_ITEMS) as nat) + seq!['件']), SUMMARY_SEPARATOR@)
    }
}

pub fn summarize_rejected_selected_repo_candidates(rejected: &Vec<String>) -> (r: String)
    ensures
        r@ == rejection_summary(texts(rejected@)),
{
    if rejected.len() == 0 {
        return String::from_str(NO_REJECTION);
    }
    let mut parts: Vec<Vec<char>> = Vec::new();
    let mut i: usize = 0;
    let n = if rejected.len() < SUMMARY_ITEMS { rejected.len() } else { SUMMARY_ITEMS };
    while i < n
        invariant
            i <= n <= rejected@.len(),
            n <= SUMMARY_ITEMS,
            parts@.len() == i,
            forall|k: int| 0 <= k < i ==> #[trigger] parts@[k]@ == rejected@[k]@,
        decreases n - i,
    {
        parts.push(chars_of(rejected[i].as_str()));
        i += 1;
    }
    if rejected.len() > SUMMARY_ITEMS {
        let mut more: Vec<char> = Vec::new();
        more.push('他');
        let mut d = decimal_chars((rejected.len() - SUMMARY_ITEMS) as u64);
        more.append(&mut d);
        more.push('件');
        assert(more@ =~= seq!['他'] + decimal((rejected@.len() - SUMMARY_ITEMS) as nat) + seq!['件']);
        parts.push(more);
    }
    let j = crate::text::join_chars(&parts, chars_of(SUMMARY_SEPARATOR).as_slice());
    let r = string_of(j.as_slice());
    proof {
        let ts = texts(rejected@);
        if rejected@.len() <= SUMMARY_ITEMS {
            assert(parts@.map_values(|l: Vec<char>| l@) =~= ts);
        } else {
            assert(parts@.map_values(|l: Vec<char>| l@) =~= ts.take(SUMMARY_ITEMS as int).push(
                seq!['他'] + decimal((ts.len() - SUMMARY_ITEMS) as nat) + seq!['件'],
            ));
        }
    }
    r
}

/// What is written where: the chosen candidate and the texts that report the
/// choice.
pub struct RepoPathSavePlan {
    pub candidate: RepoPathCandidate,
    pub candidate_count: usize,
    pub rejected_summary: String,
    /// `startup_exe_<slot>=<configured path>`.
    pub selected_startup_exe: String,
    /// `score=<score> [<reasons>] runtime=<runtime folder>`.
    pub decision_summary: String,
    /// What the record file receives: the project folder, resolved against
    /// the current folder, and a line end.
    pub record_body: String,
}

pub open spec fn no_candidate_message(summary: Seq<char>) -> Seq<char> {
    NO_CANDIDATE_MESSAGE@ + summary
}

pub open spec fn decision_summary(c: CandidateModel) -> Seq<char> {
    seq!['s', 'c', 'o', 'r', 'e', '='] + decimal(c.score) + seq![' ', '['] + c.score_reason + seq![
        ']',
        ' ',
        'r',
        'u',
        'n',
        't',
        'i',
        'm',
        'e',
        '=',
    ] + c.runtime_dir
}

/// Chooses the record file for the project folder `target_project_dir`, the
/// configured executables resolved against the current folder `current_dir`:
/// the best candidate, an error that carries the rejection summary when there
/// is none, or an error for an empty project folder.
pub fn plan_selected_repo_path(
    raws: &Vec<String>,
    current_dir: &str,
    facts: &Vec<PathFacts>,
    target_project_dir: &str,
) -> (r: Result<
    RepoPathSavePlan,
    String,
>)
    requires
        raws@.len() == facts@.len(),
    ensures
        ({
            let outs = outcomes(texts(raws@), fact_models(texts(raws@), current_dir@, facts@));
            let acc = accepted(outs);
            match r {
                Ok(plan) => {
                    &&& acc.len() > 0
                    &&& target_project_dir@.len() > 0
                    &&& plan.candidate_count == acc.len()
                    &&& plan.rejected_summary@ == rejection_summary(rejections(outs))
                    &&& exists|i: int| best_index(acc, i) && plan.candidate.model() == acc[i]
                    &&& plan.selected_startup_exe@ == slot_label(plan.candidate.source_slot as nat) + seq!['=']
                        + plan.candidate.source_startup_exe@
                    &&& plan.decision_summary@ == decision_summary(plan.candidate.model())
                    &&& plan.record_body@ == resolved_path(current_dir@, target_project_dir@).push('\n')
                },
                Err(e) => if acc.len() == 0 {
                    e@ == no_candidate_message(rejection_summary(rejections(outs)))
                } else {
                    target_project_dir@.len() == 0 && e@ == EMPTY_TARGET_MESSAGE@
                },
            }
        }),
{
    let (cands, rejected) = collect_selected_repo_path_candidates(raws, current_dir, facts);
    let summary = summarize_rejected_selected_repo_candidates(&rejected);
    let ghost outs = outcomes(texts(raws@), fact_models(texts(raws@), current_dir@, facts@));
    let ghost acc = accepted(outs);
    if cands.len() == 0 {
        let mut v = chars_of(NO_CANDIDATE_MESSAGE);
        append_str(&mut v, summary.as_str());
        return Err(string_of(v.as_slice()));
    }
    if chars_of(target_project_dir).len() == 0 {
        return Err(String::from_str(EMPTY_TARGET_MESSAGE));
    }
    let c = copy_candidate(&cands[0]);
    proof {
        let order = choose|order: Seq<usize>|
            ranked(acc, order) && candidate_models(cands@).len() == order.len() && forall|k: int|
                0 <= k < candidate_models(cands@).len() ==> #[trigger] candidate_models(cands@)[k] == acc[order[k] as int];
        assert(candidate_models(cands@)[0] == cands@[0].model());
        lemma_ranked_first(acc, order);
    }
    let mut sel = slot_label_chars(c.source_slot as u64);
    sel.push('=');
    append_str(&mut sel, c.source_startup_exe.as_str());
    let mut dec: Vec<char> = Vec::new();
    append_str(&mut dec, "score=");
    let mut d = decimal_chars(c.score as u64);
    dec.append(&mut d);
    dec.push(' ');
    dec.push('[');
    append_str(&mut dec, c.score_reason.as_str());
    append_str(&mut dec, "] runtime=");
    append_str(&mut dec, c.runtime_dir.as_str());
    proof {
        reveal_strlit("score=");
        reveal_strlit("] runtime=");
    }
    let mut body_chars = chars_of(resolve_path(current_dir, target_project_dir).as_str());
    body_chars.push('\n');
    let body = string_of(body_chars.as_slice());
    let sel_text = string_of(sel.as_slice());
    let dec_text = string_of(dec.as_slice());
    assert(dec_text@ =~= decision_summary(c.model()));
    Ok(
        RepoPathSavePlan {
            candidate: c,
            candidate_count: cands.len(),
            rejected_summary: summary,
            selected_startup_exe: sel_text,
            decision_summary: dec_text,
            record_body: body,
        },
    )
}

/// `i` is the first candidate with the highest score.
pub open spec fn best_index(cands: Seq<CandidateModel>, i: int) -> bool {
    &&& 0 <= i < cands.len()
    &&& forall|j: int| 0 <= j < cands.len() ==> #[trigger] cands[j].score <= cands[i].score
    &&& forall|j: int| 0 <= j < i ==> #[trigger] cands[j].score < cands[i].score
}

/// A ranking starts with the first candidate of the highest score.
proof fn lemma_ranked_first(cands: Seq<CandidateModel>, order: Seq<usize>)
    requires
        ranked(cands, order),
        cands.len() > 0,
    ensures
        best_index(cands, order[0] as int),
{
    let x = order[0] as int;
    assert forall|j: int| 0 <= j < cands.len() implies #[trigger] cands[j].score <= cands[x].score && (j < x
        ==> cands[j].score < cands[x].score) by {
        assert(lists(order, j));
        let k = choose|k: int| 0 <= k < order.len() && order[k] as int == j;
        if k > 0 {
            assert(order[0] < cands.len() && order[k] < cands.len());
        }
    }
}

proof fn lemma_accepted_nonempty(outs: Seq<Result<CandidateModel, Seq<char>>>)
    ensures
        accepted(outs).len() > 0 <==> exists|k: int| 0 <= k < outs.len() && (#[trigger] outs[k]) is Ok,
    decreases outs.len(),
{
    if outs.len() > 0 {
        let d = outs.drop_last();
        lemma_accepted_nonempty(d);
        if exists|k: int| 0 <= k < d.len() && (#[trigger] d[k]) is Ok {
            let k = choose|k: int| 0 <= k < d.len() && (#[trigger] d[k]) is Ok;
            assert(outs[k] == d[k]);
        }
        if exists|k: int| 0 <= k < outs.len() && (#[trigger] outs[k]) is Ok {
            let k = choose|k: int| 0 <= k < outs.len() && (#[trigger] outs[k]) is Ok;
            if k < d.len() {
                assert(d[k] == outs[k]);
            } else {
                assert(outs.last() is Ok);
            }
        }
    }
}

/// An executable can receive the record: its configured path is not blank,
/// its folder resolves, and the folder has a `runtime` folder or the record
/// file.
pub open spec fn usable(raw: Seq<char>, f: FactsModel) -> bool {
    startup_path(raw).is_some() && parent_path(f.resolved).is_some() && (f.output_exists || f.runtime_exists)
}

/// There is a candidate exactly when some configured executable is usable.
pub proof fn lemma_candidate_exists(raws: Seq<Seq<char>>, facts: Seq<FactsModel>)
    requires
        raws.len() == facts.len(),
    ensures
        accepted(outcomes(raws, facts)).len() > 0 <==> exists|k: int|
            0 <= k < raws.len() && usable(#[trigger] raws[k], facts[k]),
{
    let outs = outcomes(raws, facts);
    lemma_accepted_nonempty(outs);
    assert forall|k: int| 0 <= k < raws.len() implies ((#[trigger] outs[k]) is Ok <==> usable(raws[k], facts[k])) by {}
    if exists|k: int| 0 <= k < raws.len() && usable(#[trigger] raws[k], facts[k]) {
        let k = choose|k: int| 0 <= k < raws.len() && usable(#[trigger] raws[k], facts[k]);
        assert(outs[k] is Ok);
    }
    if exists|k: int| 0 <= k < outs.len() && (#[trigger] outs[k]) is Ok {
        let k = choose|k: int| 0 <= k < outs.len() && (#[trigger] outs[k]) is Ok;
        assert(usable(raws[k], facts[k]));
    }
}

proof fn lemma_verdict_counts(outs: Seq<Result<CandidateModel, Seq<char>>>)
    ensures
        accepted(outs).len() + rejections(outs).len() == outs.len(),
    decreases outs.len(),
{
    if outs.len() > 0 {
        lemma_verdict_counts(outs.drop_last());
    }
}

proof fn lemma_verdict_place(outs: Seq<Result<CandidateModel, Seq<char>>>, k: int)
    requires
        0 <= k < outs.len(),
    ensures
        outs[k] is Ok ==> accepted(outs.take(k)).len() < accepted(outs).len() && accepted(outs)[accepted(
            outs.take(k),
        ).len() as int] == outs[k]->Ok_0,
        outs[k] is Err ==> rejections(outs.take(k)).len() < rejections(outs).len() && rejections(outs)[rejections(
            outs.take(k),
        ).len() as int] == outs[k]->Err_0,
    decreases outs.len(),
{
    let d = outs.drop_last();
    if k == outs.len() - 1 {
        assert(outs.take(k) =~= d);
        assert(outs[k] == outs.last());
    } else {
        lemma_verdict_place(d, k);
        assert(outs.take(k) =~= d.take(k));
        assert(d[k] == outs[k]);
    }
}

/// Each verdict stands in exactly one of the two lists, at the place given by
/// the verdicts before it: a candidate after the earlier candidates, a
/// rejection line after the earlier rejection lines.
pub proof fn lemma_verdicts_partitioned(outs: Seq<Result<CandidateModel, Seq<char>>>)
    ensures
        accepted(outs).len() + rejections(outs).len() == outs.len(),
        forall|k: int|
            0 <= k < outs.len() && (#[trigger] outs[k]) is Ok ==> accepted(outs.take(k)).len() < accepted(
                outs,
            ).len() && accepted(outs)[accepted(outs.take(k)).len() as int] == outs[k]->Ok_0,
        forall|k: int|
            0 <= k < outs.len() && (#[trigger] outs[k]) is Err ==> rejections(outs.take(k)).len() < rejections(
                outs,
            ).len() && rejections(outs)[rejections(outs.take(k)).len() as int] == outs[k]->Err_0,
{
    lemma_verdict_counts(outs);
    assert forall|k: int| 0 <= k < outs.len() && (#[trigger] outs[k]) is Ok implies accepted(outs.take(k)).len()
        < accepted(outs).len() && accepted(outs)[accepted(outs.take(k)).len() as int] == outs[k]->Ok_0 by {
        lemma_verdict_place(outs, k);
    }
    assert forall|k: int| 0 <= k < outs.len() && (#[trigger] outs[k]) is Err implies rejections(
        outs.take(k),
    ).len() < rejections(outs).len() && rejections(outs)[rejections(outs.take(k)).len() as int]
        == outs[k]->Err_0 by {
        lemma_verdict_place(outs, k);
    }
}

/// The verdict on slot `k + 1`: a candidate of that slot that can receive the
/// record, whose paths are those beside the executable and whose score is the
/// sum of its parts; or a rejection line that starts with the slot's label.
pub open spec fn verdict_of_slot(out: Result<CandidateModel, Seq<char>>, slot: nat) -> bool {
    match out {
        Ok(c) => {
            &&& c.source_slot == slot
            &&& c.output_exists || c.runtime_exists
            &&& c.output_file == join_path(c.runtime_dir, SELECTED_REPO_FILE_NAME@)
            &&& c.score == (if c.output_exists { 100nat } else { 0nat }) + (if c.runtime_exists {
                10nat
            } else {
                0nat
            }) + (if name_hint(c.resolved_exe_path) {
                1nat
            } else {
                0nat
            })
        },
        Err(e) => (slot_label(slot) + seq![':', ' ']).is_prefix_of(e),
    }
}

/// The candidates and the rejection lines hold exactly one entry per
/// configured executable: slot `k + 1` is a candidate at the place that the
/// earlier candidates leave, or a rejection line, starting with its label, at
/// the place that the earlier rejection lines leave.
pub proof fn lemma_one_entry_per_slot(raws: Seq<Seq<char>>, facts: Seq<FactsModel>)
    requires
        raws.len() == facts.len(),
    ensures
        ({
            let outs = outcomes(raws, facts);
            &&& accepted(outs).len() + rejections(outs).len() == raws.len()
            &&& forall|k: int| 0 <= k < raws.len() ==> verdict_of_slot(#[trigger] outs[k], (k + 1) as nat)
            &&& forall|k: int|
                0 <= k < raws.len() && (#[trigger] outs[k]) is Ok ==> accepted(outs)[accepted(
                    outs.take(k),
                ).len() as int] == outs[k]->Ok_0
            &&& forall|k: int|
                0 <= k < raws.len() && (#[trigger] outs[k]) is Err ==> rejections(outs)[rejections(
                    outs.take(k),
                ).len() as int] == outs[k]->Err_0
        }),
{
    let outs = outcomes(raws, facts);
    lemma_verdicts_partitioned(outs);
    assert forall|k: int| 0 <= k < raws.len() implies verdict_of_slot(#[trigger] outs[k], (k + 1) as nat) by {
        lemma_slot_verdict((k + 1) as nat, raws[k], facts[k]);
    }
}

proof fn lemma_slot_verdict(slot: nat, raw: Seq<char>, f: FactsModel)
    ensures
        verdict_of_slot(assessed(slot, raw, f), slot),
{
    let pre = slot_label(slot) + seq![':', ' '];
    if startup_path(raw).is_none() {
        let e = pre + EMPTY_PATH_REASON@;
        assert(e.take(pre.len() as int) =~= pre);
    } else if parent_path(f.resolved).is_none() {
        reveal_strlit(": EXE親ディレクトリを解決できません (");
        let e = slot_label(slot) + NO_PARENT_REASON@ + f.resolved + seq![')'];
        assert(e.take(pre.len() as int) =~= pre);
    } else if !f.output_exists && !f.runtime_exists {
        reveal_strlit(": runtime/selected_repo_path.txt が存在しません (");
        let e = slot_label(slot) + NO_RUNTIME_REASON@ + f.resolved + seq![')'];
        assert(e.take(pre.len() as int) =~= pre);
    }
}

/// When no configured executable can receive the record, every slot is
/// rejected: one rejection line per slot, in slot order, each starting with
/// its slot's label.
pub proof fn lemma_all_rejected_in_slot_order(raws: Seq<Seq<char>>, facts: Seq<FactsModel>)
    requires
        raws.len() == facts.len(),
        forall|k: int| 0 <= k < raws.len() ==> !usable(#[trigger] raws[k], facts[k]),
    ensures
        accepted(outcomes(raws, facts)).len() == 0,
        rejections(outcomes(raws, facts)).len() == raws.len(),
        forall|k: int|
            0 <= k < raws.len() ==> (slot_label((k + 1) as nat) + seq![':', ' ']).is_prefix_of(
                #[trigger] rejections(outcomes(raws, facts))[k],
            ) && rejections(outcomes(raws, facts))[k] == outcomes(raws, facts)[k]->Err_0,
{
    let outs = outcomes(raws, facts);
    lemma_one_entry_per_slot(raws, facts);
    assert forall|k: int| 0 <= k < outs.len() implies (#[trigger] outs[k]) is Err by {
        assert(!usable(raws[k], facts[k]));
    }
    lemma_all_rejections(outs);
}

proof fn lemma_all_rejections(outs: Seq<Result<CandidateModel, Seq<char>>>)
    requires
        forall|k: int| 0 <= k < outs.len() ==> (#[trigger] outs[k]) is Err,
    ensures
        accepted(outs).len() == 0,
        rejections(outs).len() == outs.len(),
        forall|k: int| 0 <= k < outs.len() ==> #[trigger] rejections(outs)[k] == outs[k]->Err_0,
    decreases outs.len(),
{
    if outs.len() > 0 {
        let d = outs.drop_last();
        assert forall|k: int| 0 <= k < d.len() implies (#[trigger] d[k]) is Err by {
            assert(d[k] == outs[k]);
        }
        lemma_all_rejections(d);
        assert(outs.last() == outs[outs.len() - 1]);
        assert(outs.last() is Err);
        assert(rejections(outs) == rejections(d).push(outs.last()->Err_0));
        assert forall|k: int| 0 <= k < outs.len() implies #[trigger] rejections(outs)[k] == outs[k]->Err_0 by {
            if k < d.len() {
                assert(d[k] == outs[k]);
            }
        }
    }
}

/// The slots of the candidates increase along the verdicts.
proof fn lemma_accepted_slots_increase(raws: Seq<Seq<char>>, facts: Seq<FactsModel>, n: int)
    requires
        raws.len() == facts.len(),
        0 <= n <= raws.len(),
    ensures
        forall|a: int, b: int|
            0 <= a < b < accepted(outcomes(raws, facts).take(n)).len() ==> #[trigger] accepted(
                outcomes(raws, facts).take(n),
            )[a].source_slot < #[trigger] accepted(outcomes(raws, facts).take(n))[b].source_slot,
        forall|a: int|
            0 <= a < accepted(outcomes(raws, facts).take(n)).len() ==> #[trigger] accepted(
                outcomes(raws, facts).take(n),
            )[a].source_slot <= n,
    decreases n,
{
    let outs = outcomes(raws, facts);
    if n > 0 {
        lemma_accepted_slots_increase(raws, facts, n - 1);
        let t = outs.take(n);
        assert(t.drop_last() =~= outs.take(n - 1));
        assert(t.last() == outs[n - 1]);
        let prev = accepted(outs.take(n - 1));
        match outs[n - 1] {
            Ok(c) => {
                assert(c.source_slot == n);
                assert(accepted(t) == prev.push(c));
                assert forall|a: int| 0 <= a < accepted(t).len() implies #[trigger] accepted(t)[a].source_slot
                    <= n by {
                    if a < prev.len() {
                        assert(accepted(t)[a] == prev[a]);
                    }
                }
                assert forall|a: int, b: int| 0 <= a < b < accepted(t).len() implies #[trigger] accepted(
                    t,
                )[a].source_slot < #[trigger] accepted(t)[b].source_slot by {
                    assert(accepted(t)[a] == prev[a]);
                    if b < prev.len() {
                        assert(accepted(t)[b] == prev[b]);
                    }
                }
            },
            Err(_) => {
                assert(accepted(t) == prev);
            },
        }
    }
}

/// The candidates are listed by score, highest first, and equal scores by
/// slot, earliest first.
pub proof fn lemma_candidates_by_score_then_slot(raws: Seq<Seq<char>>, facts: Seq<FactsModel>, result: Seq<CandidateModel>)
    requires
        raws.len() == facts.len(),
        ranked_candidates(outcomes(raws, facts), result),
    ensures
        forall|a: int, b: int|
            0 <= a < b < result.len() ==> (#[trigger] result[a]).score > (#[trigger] result[b]).score || (
            result[a].score == result[b].score && result[a].source_slot < result[b].source_slot),
{
    let outs = outcomes(raws, facts);
    let acc = accepted(outs);
    lemma_accepted_slots_increase(raws, facts, raws.len() as int);
    assert(outs.take(raws.len() as int) =~= outs);
    let order = choose|order: Seq<usize>|
        ranked(acc, order) && result.len() == order.len() && forall|k: int|
            0 <= k < result.len() ==> #[trigger] result[k] == acc[order[k] as int];
    assert forall|a: int, b: int| 0 <= a < b < result.len() implies (#[trigger] result[a]).score > (
    #[trigger] result[b]).score || (result[a].score == result[b].score && result[a].source_slot
        < result[b].source_slot) by {
        assert(ranks_before(acc, order[a] as int, order[b] as int));
        assert(order[a] < acc.len() && order[b] < acc.len());
        if acc[order[a] as int].score == acc[order[b] as int].score {
            assert(acc[order[a] as int].source_slot < acc[order[b] as int].source_slot);
        }
    }
}

} // verus!
