//! What the Codex output pane shows: the noise filter for Codex output lines,
//! the bullet decoration of the pane, the text taken from the "event end"
//! file, the commands written to the resident PowerShell session, and the
//! state machine that turns the session's output lines into pane text.

use vstd::prelude::*;
use crate::command::lemma_trim_idempotent;
use crate::text::{
    chars_equal, chars_of, contains, contains_chars, join, join_chars, lines, lower, lower_chars,
    push_chars, split_lines, starts_with, starts_with_chars, string_of, trim, trim_chars,
};

verus! {

/// Line written by the session just before a Codex run's output.
pub const CODEX_STREAM_BEGIN_MARKER: &'static str = "__CODEX_STREAM_BEGIN__";
/// Line written by the session just after a Codex run's output.
pub const CODEX_STREAM_END_MARKER: &'static str = "__CODEX_STREAM_END__";
/// Rule drawn around each Codex turn in the pane.
pub const CODEX_TURN_SEPARATOR: &'static str = "--------------------------------------------------------------------------------------------------------------------------------------------------------";

/// Codex output lines that carry bookkeeping rather than content: after
/// trimming and ASCII lower-casing they mention token counts, latency or
/// elapsed time, or start with `stdout` or `stderr`.
pub open spec fn noise_line(line: Seq<char>) -> bool {
    let l = lower(trim(line));
    ||| contains(l, "tokens used"@)
    ||| contains(l, "token usage"@)
    ||| contains(l, "input tokens"@)
    ||| contains(l, "output tokens"@)
    ||| contains(l, "total tokens"@)
    ||| contains(l, "latency"@)
    ||| contains(l, "elapsed"@)
    ||| starts_with(l, "stdout"@)
    ||| starts_with(l, "stderr"@)
}

/// A line with the bullet prefix of the output pane.
pub open spec fn bullet(line: Seq<char>) -> Seq<char> {
    "- "@ + line
}

/// The pane's display text: every line of `text` with a bullet, one per line;
/// nothing for an empty text.
pub open spec fn decorated(text: Seq<char>) -> Seq<char> {
    if text.len() == 0 {
        Seq::empty()
    } else {
        join(lines(text).map_values(|l: Seq<char>| bullet(l)), "\n"@)
    }
}

/// A trimmed line of the event end file that is shown: not empty, not noise.
pub open spec fn kept_event_line(line: Seq<char>) -> bool {
    line.len() > 0 && !noise_line(line)
}

/// The text taken from the event end file: its lines trimmed, without the
/// empty ones and the noise, joined by newlines.
pub open spec fn filtered_event_body(body: Seq<char>) -> Seq<char> {
    join(
        lines(body).map_values(|l: Seq<char>| trim(l)).filter(|l: Seq<char>| kept_event_line(l)),
        "\n"@,
    )
}

/// `text` followed by `piece` on a line of its own (no newline before the
/// first piece of an empty text).
pub open spec fn append_line(text: Seq<char>, piece: Seq<char>) -> Seq<char> {
    if text.len() == 0 {
        piece
    } else {
        text + "\n"@ + piece
    }
}

pub fn is_codex_output_noise_line(line: &str) -> (r: bool)
    ensures
        r == noise_line(line@),
{
    let v = chars_of(line);
    let t = trim_chars(v.as_slice());
    let l = lower_chars(t.as_slice());
    let s = l.as_slice();
    contains_chars(s, chars_of("tokens used").as_slice())
        || contains_chars(s, chars_of("token usage").as_slice())
        || contains_chars(s, chars_of("input tokens").as_slice())
        || contains_chars(s, chars_of("output tokens").as_slice())
        || contains_chars(s, chars_of("total tokens").as_slice())
        || contains_chars(s, chars_of("latency").as_slice())
        || contains_chars(s, chars_of("elapsed").as_slice())
        || starts_with_chars(s, chars_of("stdout").as_slice())
        || starts_with_chars(s, chars_of("stderr").as_slice())
}

pub fn decorate_codex_output_display_lines(text: &str) -> (r: String)
    ensures
        r@ == decorated(text@),
{
    let v = chars_of(text);
    if v.len() == 0 {
        return String::new();
    }
    let pieces = split_lines(v.as_slice());
    let prefix = chars_of("- ");
    let mut out: Vec<Vec<char>> = Vec::new();
    let mut i: usize = 0;
    while i < pieces.len()
        invariant
            i <= pieces@.len(),
            prefix@ == "- "@,
            pieces@.len() == lines(v@).len(),
            forall|k: int| 0 <= k < pieces@.len() ==> #[trigger] pieces@[k]@ == lines(v@)[k],
            out@.len() == i,
            forall|k: int| 0 <= k < i ==> #[trigger] out@[k]@ == bullet(lines(v@)[k]),
        decreases pieces.len() - i,
    {
        let mut b = prefix.clone();
        let p = &pieces[i];
        let mut k: usize = 0;
        let ghost b0 = b@;
        while k < p.len()
            invariant
                k <= p@.len(),
                b@ == b0 + p@.take(k as int),
            decreases p.len() - k,
        {
            b.push(p[k]);
            k += 1;
            assert(b@ =~= b0 + p@.take(k as int));
        }
        assert(p@.take(p@.len() as int) =~= p@);
        out.push(b);
        i += 1;
    }
    let sep = chars_of("\n");
    let joined = join_chars(&out, sep.as_slice());
    assert(out@.map_values(|l: Vec<char>| l@) =~= lines(v@).map_values(|l: Seq<char>| bullet(l)));
    string_of(joined.as_slice())
}

proof fn lemma_filter_step(s: Seq<Seq<char>>, i: int, p: spec_fn(Seq<char>) -> bool)
    requires
        0 <= i < s.len(),
    ensures
        s.take(i + 1).filter(p) == if p(s[i]) {
            s.take(i).filter(p).push(s[i])
        } else {
            s.take(i).filter(p)
        },
{
    reveal_with_fuel(Seq::<_>::filter, 1);
    assert(s.take(i + 1).drop_last() =~= s.take(i));
}

pub fn filter_event_end_body(body: &str) -> (r: String)
    ensures
        r@ == filtered_event_body(body@),
{
    let v = chars_of(body);
    let pieces = split_lines(v.as_slice());
    let ghost trimmed = lines(v@).map_values(|l: Seq<char>| trim(l));
    let ghost keep = |l: Seq<char>| kept_event_line(l);
    let mut kept: Vec<Vec<char>> = Vec::new();
    let mut i: usize = 0;
    assert(trimmed.take(0).filter(keep) =~= Seq::<Seq<char>>::empty()) by {
        reveal_with_fuel(Seq::<_>::filter, 1);
    }
    while i < pieces.len()
        invariant
            i <= pieces@.len(),
            pieces@.len() == lines(v@).len(),
            trimmed == lines(v@).map_values(|l: Seq<char>| trim(l)),
            keep == (|l: Seq<char>| kept_event_line(l)),
            forall|k: int| 0 <= k < pieces@.len() ==> #[trigger] pieces@[k]@ == lines(v@)[k],
            kept@.map_values(|l: Vec<char>| l@) == trimmed.take(i as int).filter(keep),
        decreases pieces.len() - i,
    {
        let t = trim_chars(pieces[i].as_slice());
        proof {
            lemma_filter_step(trimmed, i as int, keep);
        }
        let t_str = string_of(t.as_slice());
        if t.len() > 0 && !is_codex_output_noise_line(t_str.as_str()) {
            let ghost before = kept@.map_values(|l: Vec<char>| l@);
            kept.push(t);
            assert(kept@.map_values(|l: Vec<char>| l@) =~= before.push(trimmed[i as int]));
        }
        i += 1;
    }
    assert(trimmed.take(pieces@.len() as int) =~= trimmed);
    let sep = chars_of("\n");
    let joined = join_chars(&kept, sep.as_slice());
    string_of(joined.as_slice())
}

/// Adds the event end file's shown text to the pane text: on a new line, and
/// only when there is something to show.
pub fn append_event_end_body(output: &mut String, body: &str)
    ensures
        filtered_event_body(body@).len() == 0 ==> final(output)@ == old(output)@,
        filtered_event_body(body@).len() > 0 ==> final(output)@ == append_line(
            old(output)@,
            filtered_event_body(body@),
        ),
{
    let filtered = filter_event_end_body(body);
    let fv = chars_of(filtered.as_str());
    if fv.len() > 0 {
        let ov = chars_of(output.as_str());
        if ov.len() > 0 {
            output.append("\n");
        }
        output.append(filtered.as_str());
    }
}

/// `s` with every `"` doubled, as PowerShell reads a double-quoted string.
pub open spec fn double_quotes(s: Seq<char>) -> Seq<char>
    decreases s.len(),
{
    if s.len() == 0 {
        Seq::empty()
    } else {
        double_quotes(s.drop_last()) + if s.last() == '"' {
            "\"\""@
        } else {
            seq![s.last()]
        }
    }
}

/// The command that moves the session to `dir`: `cd "<dir>"` with the
/// quotes of `dir` doubled.
pub open spec fn cd_command_text(dir: Seq<char>) -> Seq<char> {
    "cd \""@ + double_quotes(dir) + "\""@
}

/// The script that runs `codex exec` on `input` as a here-string prompt,
/// between the begin and end marker lines.
pub open spec fn prompt_script_text(input: Seq<char>) -> Seq<char> {
    "$prompt = @\"\n"@ + input + "\n\"@\nWrite-Output \""@ + CODEX_STREAM_BEGIN_MARKER@
        + "\"\ncodex exec $prompt\nWrite-Output \""@ + CODEX_STREAM_END_MARKER@ + "\"\n"@
}

pub fn change_directory_command(dir: &str) -> (r: String)
    ensures
        r@ == cd_command_text(dir@),
{
    let v = chars_of(dir);
    let mut out: Vec<char> = Vec::new();
    let mut i: usize = 0;
    while i < v.len()
        invariant
            i <= v@.len(),
            out@ == double_quotes(v@.take(i as int)),
        decreases v.len() - i,
    {
        proof {
            reveal_strlit("\"\"");
        }
        if v[i] == '"' {
            out.push('"');
            out.push('"');
        } else {
            out.push(v[i]);
        }
        assert(v@.take(i + 1).drop_last() =~= v@.take(i as int));
        i += 1;
        assert(out@ =~= double_quotes(v@.take(i as int)));
    }
    assert(v@.take(v@.len() as int) =~= v@);
    let mut r = String::from_str("cd \"");
    push_chars(&mut r, out.as_slice());
    r.append("\"");
    r
}

pub fn codex_prompt_script(input: &str) -> (r: String)
    ensures
        r@ == prompt_script_text(input@),
{
    let mut r = String::from_str("$prompt = @\"\n");
    r.append(input);
    r.append("\n\"@\nWrite-Output \"");
    r.append(CODEX_STREAM_BEGIN_MARKER);
    r.append("\"\ncodex exec $prompt\nWrite-Output \"");
    r.append(CODEX_STREAM_END_MARKER);
    r.append("\"\n");
    r
}

/// What the caller does for one output line of the session.
pub enum StreamEffect {
    /// Nothing.
    Ignored,
    /// A run began: open a fresh run log and write the separator to it.
    Began,
    /// A run ended: write the separator to the run log, close the log and
    /// mark Codex as no longer running.
    Ended,
    /// A content line: write it to the run log.
    Appended(String),
}

/// The abstract state of the output pane.
pub struct StreamState {
    pub streaming_active: bool,
    pub waiting_stderr_body: bool,
    pub text: Seq<char>,
}

/// What one output line does, as a spec value.
pub enum StreamOutcome {
    Ignored,
    Began,
    Ended,
    Appended(Seq<char>),
}

/// The label that an error-stream line carries after an optional `stderr:` tag.
pub open spec fn stderr_marker(trimmed: Seq<char>) -> Seq<char> {
    if starts_with(trimmed, "stderr:"@) {
        trim(trimmed.skip(7))
    } else {
        trim(trimmed)
    }
}

/// The next state and outcome for one line `line` of the session output
/// (`is_stderr` for the error stream).
pub open spec fn stream_step(s: StreamState, line: Seq<char>, is_stderr: bool) -> (StreamState, StreamOutcome) {
    let t = trim(line);
    if t == CODEX_STREAM_BEGIN_MARKER@ {
        (StreamState { streaming_active: true, waiting_stderr_body: false, text: CODEX_TURN_SEPARATOR@ }, StreamOutcome::Began)
    } else if t == CODEX_STREAM_END_MARKER@ {
        (StreamState { streaming_active: false, waiting_stderr_body: false, text: append_line(s.text, CODEX_TURN_SEPARATOR@) }, StreamOutcome::Ended)
    } else if !s.streaming_active || t.len() == 0 || noise_line(t) {
        (s, StreamOutcome::Ignored)
    } else if is_stderr {
        let m = stderr_marker(t);
        if lower(m) == "user"@ || lower(m) == "codex"@ {
            (StreamState { waiting_stderr_body: true, ..s }, StreamOutcome::Ignored)
        } else if s.waiting_stderr_body {
            (StreamState { waiting_stderr_body: false, text: append_line(s.text, m), ..s }, StreamOutcome::Appended(m))
        } else {
            (s, StreamOutcome::Ignored)
        }
    } else {
        (StreamState { text: append_line(s.text, t), ..s }, StreamOutcome::Appended(t))
    }
}

/// The Codex output pane fed by the session's output lines.
pub struct CodexOutput {
    pub streaming_active: bool,
    pub waiting_stderr_body: bool,
    pub text: String,
}

impl CodexOutput {
    pub open spec fn state(&self) -> StreamState {
        StreamState {
            streaming_active: self.streaming_active,
            waiting_stderr_body: self.waiting_stderr_body,
            text: self.text@,
        }
    }

    /// During a run the pane starts with the separator.
    pub open spec fn wf(&self) -> bool {
        self.streaming_active ==> starts_with(self.text@, CODEX_TURN_SEPARATOR@)
    }

    pub fn new() -> (r: Self)
        ensures
            !r.streaming_active,
            !r.waiting_stderr_body,
            r.text@ == Seq::<char>::empty(),
            r.wf(),
    {
        CodexOutput { streaming_active: false, waiting_stderr_body: false, text: String::new() }
    }

    fn append_text_line(&mut self, piece: &str)
        ensures
            final(self).text@ == append_line(old(self).text@, piece@),
            final(self).streaming_active == old(self).streaming_active,
            final(self).waiting_stderr_body == old(self).waiting_stderr_body,
    {
        let cur = chars_of(self.text.as_str());
        if cur.len() > 0 {
            self.text.append("\n");
        }
        self.text.append(piece);
    }

    /// Takes one output line of the session.
    pub fn feed_line(&mut self, line: &str, is_stderr: bool) -> (effect: StreamEffect)
        ensures
            old(self).wf() ==> final(self).wf(),
            ({
                let (next, outcome) = stream_step(old(self).state(), line@, is_stderr);
                &&& final(self).state() == next
                &&& match (effect, outcome) {
                    (StreamEffect::Ignored, StreamOutcome::Ignored) => true,
                    (StreamEffect::Began, StreamOutcome::Began) => true,
                    (StreamEffect::Ended, StreamOutcome::Ended) => true,
                    (StreamEffect::Appended(a), StreamOutcome::Appended(b)) => a@ == b,
                    _ => false,
                }
            }),
    {
        proof {
            if self.wf() {
                lemma_stream_run_starts_with_separator(self.state(), line@, is_stderr);
            }
        }
        let v = chars_of(line);
        let t = trim_chars(v.as_slice());
        let begin = chars_of(CODEX_STREAM_BEGIN_MARKER);
        let end = chars_of(CODEX_STREAM_END_MARKER);
        if chars_equal(t.as_slice(), begin.as_slice()) {
            self.streaming_active = true;
            self.waiting_stderr_body = false;
            self.text = String::from_str(CODEX_TURN_SEPARATOR);
            return StreamEffect::Began;
        }
        if chars_equal(t.as_slice(), end.as_slice()) {
            self.waiting_stderr_body = false;
            self.append_text_line(CODEX_TURN_SEPARATOR);
            self.streaming_active = false;
            return StreamEffect::Ended;
        }
        let t_str = string_of(t.as_slice());
        if !self.streaming_active || t.len() == 0 || is_codex_output_noise_line(t_str.as_str()) {
            return StreamEffect::Ignored;
        }
        if is_stderr {
            let tag = chars_of("stderr:");
            proof {
                reveal_strlit("stderr:");
            }
            let marker = if starts_with_chars(t.as_slice(), tag.as_slice()) {
                let rest = crate::text::copy_range(t.as_slice(), 7, t.len());
                assert(rest@ == t@.skip(7));
                trim_chars(rest.as_slice())
            } else {
                trim_chars(t.as_slice())
            };
            let lowered = lower_chars(marker.as_slice());
            if chars_equal(lowered.as_slice(), chars_of("user").as_slice()) || chars_equal(
                lowered.as_slice(),
                chars_of("codex").as_slice(),
            ) {
                self.waiting_stderr_body = true;
                return StreamEffect::Ignored;
            }
            if self.waiting_stderr_body {
                self.waiting_stderr_body = false;
                let m = string_of(marker.as_slice());
                self.append_text_line(m.as_str());
                return StreamEffect::Appended(m);
            }
            return StreamEffect::Ignored;
        }
        self.append_text_line(t_str.as_str());
        StreamEffect::Appended(t_str)
    }
}

/// Outside a run, every line but the two markers leaves the pane as it is.
pub proof fn lemma_stream_idle_lines_ignored(s: StreamState, line: Seq<char>, is_stderr: bool)
    requires
        !s.streaming_active,
        trim(line) != CODEX_STREAM_BEGIN_MARKER@,
        trim(line) != CODEX_STREAM_END_MARKER@,
    ensures
        stream_step(s, line, is_stderr) == (s, StreamOutcome::Ignored),
{
}

/// The state after feeding the lines of `lines` in order, each with whether it
/// came from the error stream.
pub open spec fn stream_run(s: StreamState, lines: Seq<(Seq<char>, bool)>) -> StreamState
    decreases lines.len(),
{
    if lines.len() == 0 {
        s
    } else {
        stream_step(stream_run(s, lines.drop_last()), lines.last().0, lines.last().1).0
    }
}

/// Draining output outside a run changes nothing while no line is one of the
/// two markers.
pub proof fn lemma_stream_idle_run_unchanged(s: StreamState, lines: Seq<(Seq<char>, bool)>)
    requires
        !s.streaming_active,
        forall|k: int|
            0 <= k < lines.len() ==> trim((#[trigger] lines[k]).0) != CODEX_STREAM_BEGIN_MARKER@ && trim(lines[k].0)
                != CODEX_STREAM_END_MARKER@,
    ensures
        stream_run(s, lines) == s,
    decreases lines.len(),
{
    if lines.len() > 0 {
        let d = lines.drop_last();
        assert forall|k: int| 0 <= k < d.len() implies trim((#[trigger] d[k]).0) != CODEX_STREAM_BEGIN_MARKER@
            && trim(d[k].0) != CODEX_STREAM_END_MARKER@ by {
            assert(d[k] == lines[k]);
        }
        lemma_stream_idle_run_unchanged(s, d);
        assert(lines.last() == lines[lines.len() - 1]);
        lemma_stream_idle_lines_ignored(s, lines.last().0, lines.last().1);
    }
}

/// The begin marker starts a run with a pane that holds only the separator,
/// whatever came before.
pub proof fn lemma_stream_begin_resets(s: StreamState, line: Seq<char>, is_stderr: bool)
    requires
        trim(line) == CODEX_STREAM_BEGIN_MARKER@,
    ensures
        stream_step(s, line, is_stderr).0 == (StreamState {
            streaming_active: true,
            waiting_stderr_body: false,
            text: CODEX_TURN_SEPARATOR@,
        }),
        stream_step(s, line, is_stderr).1 == StreamOutcome::Began,
{
}

/// The end marker closes the run: streaming stops and the pane ends with the
/// separator.
pub proof fn lemma_stream_end_closes(s: StreamState, line: Seq<char>, is_stderr: bool)
    requires
        trim(line) == CODEX_STREAM_END_MARKER@,
    ensures
        !stream_step(s, line, is_stderr).0.streaming_active,
        stream_step(s, line, is_stderr).0.text == append_line(s.text, CODEX_TURN_SEPARATOR@),
{
    reveal_strlit("__CODEX_STREAM_BEGIN__");
    reveal_strlit("__CODEX_STREAM_END__");
    assert(CODEX_STREAM_BEGIN_MARKER@[15] != CODEX_STREAM_END_MARKER@[15]);
}

proof fn lemma_append_line_extends(text: Seq<char>, piece: Seq<char>)
    ensures
        append_line(text, piece).len() >= text.len(),
        append_line(text, piece).subrange(0, text.len() as int) == text,
{
    if text.len() > 0 {
        assert(append_line(text, piece).subrange(0, text.len() as int) =~= text);
    } else {
        assert(append_line(text, piece).subrange(0, 0) =~= text);
    }
}

/// Only the begin marker discards pane text: any other line keeps the pane
/// as a prefix of the new pane.
pub proof fn lemma_stream_text_grows(s: StreamState, line: Seq<char>, is_stderr: bool)
    requires
        trim(line) != CODEX_STREAM_BEGIN_MARKER@,
    ensures
        starts_with(stream_step(s, line, is_stderr).0.text, s.text),
{
    let t = trim(line);
    if t == CODEX_STREAM_END_MARKER@ {
        lemma_append_line_extends(s.text, CODEX_TURN_SEPARATOR@);
    } else if !s.streaming_active || t.len() == 0 || noise_line(t) {
        assert(s.text.subrange(0, s.text.len() as int) =~= s.text);
    } else if is_stderr {
        lemma_append_line_extends(s.text, stderr_marker(t));
        assert(s.text.subrange(0, s.text.len() as int) =~= s.text);
    } else {
        lemma_append_line_extends(s.text, t);
    }
}

/// During a run the pane starts with the separator: every line keeps this.
pub proof fn lemma_stream_run_starts_with_separator(s: StreamState, line: Seq<char>, is_stderr: bool)
    requires
        s.streaming_active ==> starts_with(s.text, CODEX_TURN_SEPARATOR@),
    ensures
        stream_step(s, line, is_stderr).0.streaming_active ==> starts_with(
            stream_step(s, line, is_stderr).0.text,
            CODEX_TURN_SEPARATOR@,
        ),
{
    let t = trim(line);
    let n = stream_step(s, line, is_stderr).0;
    if t == CODEX_STREAM_BEGIN_MARKER@ {
        assert(CODEX_TURN_SEPARATOR@.subrange(0, CODEX_TURN_SEPARATOR@.len() as int) =~= CODEX_TURN_SEPARATOR@);
    } else if n.streaming_active {
        lemma_stream_text_grows(s, line, is_stderr);
        let k = CODEX_TURN_SEPARATOR@.len() as int;
        assert(n.text.subrange(0, k) =~= n.text.subrange(0, s.text.len() as int).subrange(0, k));
    }
}

/// The number of `'\n'` characters in `s`.
pub open spec fn newline_count(s: Seq<char>) -> nat
    decreases s.len(),
{
    if s.len() == 0 {
        0
    } else {
        newline_count(s.drop_last()) + if s.last() == '\n' { 1nat } else { 0nat }
    }
}

/// The rows the output pane is sized for: one per line of the text, at least
/// `minimum`.
pub fn pane_row_count(text: &str, minimum: usize) -> (r: usize)
    requires
        text@.len() < usize::MAX,
    ensures
        r as nat == if newline_count(text@) + 1 > minimum {
            newline_count(text@) + 1
        } else {
            minimum as nat
        },
{
    let v = chars_of(text);
    let mut count: usize = 1;
    let mut i: usize = 0;
    while i < v.len()
        invariant
            i <= v@.len(),
            v@.len() < usize::MAX,
            count == newline_count(v@.take(i as int)) + 1,
            count <= i + 1,
        decreases v.len() - i,
    {
        assert(v@.take(i + 1).drop_last() =~= v@.take(i as int));
        if v[i] == '\n' {
            count += 1;
        }
        i += 1;
    }
    assert(v@.take(v@.len() as int) =~= v@);
    if count > minimum {
        count
    } else {
        minimum
    }
}

/// A line of at most five characters is no noise line and no stream marker.
proof fn lemma_short_line_plain(t: Seq<char>)
    requires
        t.len() <= 5,
        trim(t) == t,
    ensures
        !noise_line(t),
        t != CODEX_STREAM_BEGIN_MARKER@,
        t != CODEX_STREAM_END_MARKER@,
        !starts_with(t, "stderr:"@),
{
    reveal_strlit("__CODEX_STREAM_BEGIN__");
    reveal_strlit("__CODEX_STREAM_END__");
    reveal_strlit("stderr:");
    reveal_strlit("tokens used");
    reveal_strlit("token usage");
    reveal_strlit("input tokens");
    reveal_strlit("output tokens");
    reveal_strlit("total tokens");
    reveal_strlit("latency");
    reveal_strlit("elapsed");
    reveal_strlit("stdout");
    reveal_strlit("stderr");
    assert(CODEX_STREAM_BEGIN_MARKER@.len() == 22);
    assert(CODEX_STREAM_END_MARKER@.len() == 20);
    let l = lower(trim(t));
    assert(l.len() == t.len());
}

/// During a run, an error-stream line that reads `user` or `codex` (in any
/// ASCII case, surrounded by any whitespace) shows nothing and arms the
/// error stream: the pane text stays as it is.
pub proof fn lemma_stderr_marker_arms_body(s: StreamState, line: Seq<char>)
    requires
        s.streaming_active,
        lower(trim(line)) == "user"@ || lower(trim(line)) == "codex"@,
    ensures
        stream_step(s, line, true) == (StreamState {
            streaming_active: true,
            waiting_stderr_body: true,
            text: s.text,
        }, StreamOutcome::Ignored),
{
    let t = trim(line);
    lemma_trim_idempotent(line);
    reveal_strlit("user");
    reveal_strlit("codex");
    assert(lower(t).len() == t.len());
    lemma_short_line_plain(t);
    assert(stderr_marker(t) == t);
}

/// Once armed during a run, the next error-stream line that is neither empty,
/// noise, a marker, nor `user` / `codex` is shown: its trimmed text goes on a
/// line of its own at the end of the pane, and the error stream is disarmed.
pub proof fn lemma_stderr_body_shown(s: StreamState, line: Seq<char>)
    requires
        s.streaming_active,
        s.waiting_stderr_body,
        trim(line).len() > 0,
        !noise_line(trim(line)),
        trim(line) != CODEX_STREAM_BEGIN_MARKER@,
        trim(line) != CODEX_STREAM_END_MARKER@,
        lower(trim(line)) != "user"@,
        lower(trim(line)) != "codex"@,
    ensures
        stream_step(s, line, true) == (StreamState {
            streaming_active: true,
            waiting_stderr_body: false,
            text: append_line(s.text, trim(line)),
        }, StreamOutcome::Appended(trim(line))),
{
    let t = trim(line);
    lemma_trim_idempotent(line);
    reveal_strlit("stderr:");
    reveal_strlit("stderr");
    if starts_with(t, "stderr:"@) {
        let l = lower(trim(t));
        assert(l.subrange(0, 6) =~= "stderr"@) by {
            assert forall|i: int| 0 <= i < 6 implies l[i] == "stderr"@[i] by {
                assert(t[i] == "stderr:"@[i]);
            }
        }
        assert(starts_with(l, "stderr"@));
        assert(false);
    }
    assert(stderr_marker(t) == t);
}

/// The `user` marker followed by a body line, both on the error stream
/// during a run, puts exactly the trimmed body on a line of its own at the end
/// of the pane.
pub proof fn lemma_user_prompt_shown(s: StreamState, marker: Seq<char>, body: Seq<char>)
    requires
        s.streaming_active,
        lower(trim(marker)) == "user"@,
        trim(body).len() > 0,
        !noise_line(trim(body)),
        trim(body) != CODEX_STREAM_BEGIN_MARKER@,
        trim(body) != CODEX_STREAM_END_MARKER@,
        lower(trim(body)) != "user"@,
        lower(trim(body)) != "codex"@,
    ensures
        stream_step(stream_step(s, marker, true).0, body, true).0.text == append_line(s.text, trim(body)),
        stream_step(stream_step(s, marker, true).0, body, true).1 == StreamOutcome::Appended(trim(body)),
{
    lemma_stderr_marker_arms_body(s, marker);
    lemma_stderr_body_shown(stream_step(s, marker, true).0, body);
}

} // verus!
