//! The pipe listener mode: its command line, the decision taken for each
//! line received through the named pipe, and how its console window is set
//! up.

use vstd::prelude::*;
use crate::text::{chars_equal, chars_of, concat2, string_of, trim, trim_chars};

verus! {

pub const MODE_FLAG: &'static str = "--conpty-listener";

pub const PIPE_NAME_FLAG: &'static str = "--pipe-name";

pub const WORKING_DIR_FLAG: &'static str = "--working-directory";

pub const WINDOW_TITLE_FLAG: &'static str = "--window-title";

/// The pipe line that interrupts the running command (Ctrl+C).
pub const INTERRUPT_COMMAND: &'static str = "__interrupt__";

/// The pipe line that ends the session and the listener.
pub const LISTENER_EXIT_COMMAND: &'static str = "__listener_exit__";

/// The default window title, that of the main console.
pub const MAIN_WINDOW_TITLE: &'static str = "相談";

/// The title of the build console, placed right of the main one.
pub const BUILD_WINDOW_TITLE: &'static str = "実装";

/// The command written to the session when the listener exits.
pub const EXIT_SHELL_COMMAND: &'static str = "exit";

/// The listener's settings.
pub struct ListenerArgs {
    pub pipe_name: String,
    pub working_dir: String,
    pub window_title: String,
}

/// A flag that takes a value.
#[derive(PartialEq, Eq, Structural, Clone, Copy, Debug)]
pub enum ValueFlag {
    PipeName,
    WorkingDirectory,
    WindowTitle,
}

/// Why the listener's command line is refused.
pub enum ArgsError {
    /// A flag is the last argument.
    MissingValue(ValueFlag),
    /// An argument is not a known flag.
    UnknownArgument(String),
    /// No pipe name, or a blank one.
    EmptyPipeName,
    /// No working folder, or a blank one.
    EmptyWorkingDirectory,
}

/// The spec-level image of an `ArgsError`.
pub enum ArgsErrorModel {
    MissingValue(ValueFlag),
    UnknownArgument(Seq<char>),
    EmptyPipeName,
    EmptyWorkingDirectory,
}

impl ArgsError {
    pub open spec fn model(&self) -> ArgsErrorModel {
        match self {
            ArgsError::MissingValue(f) => ArgsErrorModel::MissingValue(*f),
            ArgsError::UnknownArgument(a) => ArgsErrorModel::UnknownArgument(a@),
            ArgsError::EmptyPipeName => ArgsErrorModel::EmptyPipeName,
            ArgsError::EmptyWorkingDirectory => ArgsErrorModel::EmptyWorkingDirectory,
        }
    }
}

/// The text after a flag in the message for its missing value.
pub const MISSING_VALUE_SUFFIX: &'static str = " の値が不足しています";

/// The text before the argument in the message for an unknown argument.
pub const UNKNOWN_ARGUMENT_PREFIX: &'static str = "不明な引数です: ";

/// The message for a missing or blank pipe name.
pub const EMPTY_PIPE_NAME_MESSAGE: &'static str = "pipe_name が空です";

/// The message for a missing or blank working folder.
pub const EMPTY_WORKING_DIRECTORY_MESSAGE: &'static str = "working_directory が空です";

/// The flag as written on the command line.
pub open spec fn flag_text(f: ValueFlag) -> Seq<char> {
    match f {
        ValueFlag::PipeName => PIPE_NAME_FLAG@,
        ValueFlag::WorkingDirectory => WORKING_DIR_FLAG@,
        ValueFlag::WindowTitle => WINDOW_TITLE_FLAG@,
    }
}

/// The message shown for a refused command line.
pub open spec fn args_error_message(e: ArgsErrorModel) -> Seq<char> {
    match e {
        ArgsErrorModel::MissingValue(f) => flag_text(f) + MISSING_VALUE_SUFFIX@,
        ArgsErrorModel::UnknownArgument(a) => UNKNOWN_ARGUMENT_PREFIX@ + a,
        ArgsErrorModel::EmptyPipeName => EMPTY_PIPE_NAME_MESSAGE@,
        ArgsErrorModel::EmptyWorkingDirectory => EMPTY_WORKING_DIRECTORY_MESSAGE@,
    }
}

impl ValueFlag {
    /// The flag as written on the command line.
    pub fn text(&self) -> (r: &'static str)
        ensures
            r@ == flag_text(*self),
    {
        match self {
            ValueFlag::PipeName => PIPE_NAME_FLAG,
            ValueFlag::WorkingDirectory => WORKING_DIR_FLAG,
            ValueFlag::WindowTitle => WINDOW_TITLE_FLAG,
        }
    }
}

impl ArgsError {
    /// The message shown for the error.
    pub fn message(&self) -> (r: String)
        ensures
            r@ == args_error_message(self.model()),
    {
        match self {
            ArgsError::MissingValue(f) => concat2(f.text(), MISSING_VALUE_SUFFIX),
            ArgsError::UnknownArgument(a) => concat2(UNKNOWN_ARGUMENT_PREFIX, a.as_str()),
            ArgsError::EmptyPipeName => String::from_str(EMPTY_PIPE_NAME_MESSAGE),
            ArgsError::EmptyWorkingDirectory => String::from_str(EMPTY_WORKING_DIRECTORY_MESSAGE),
        }
    }
}

/// The flag named by an argument.
pub open spec fn value_flag(arg: Seq<char>) -> Option<ValueFlag> {
    if arg == PIPE_NAME_FLAG@ {
        Some(ValueFlag::PipeName)
    } else if arg == WORKING_DIR_FLAG@ {
        Some(ValueFlag::WorkingDirectory)
    } else if arg == WINDOW_TITLE_FLAG@ {
        Some(ValueFlag::WindowTitle)
    } else {
        None
    }
}

/// The values read from the flags in `rest`, starting from the given ones;
/// a later flag overrides an earlier one.
pub open spec fn read_flags(
    rest: Seq<Seq<char>>,
    pipe: Option<Seq<char>>,
    dir: Option<Seq<char>>,
    title: Seq<char>,
) -> Result<(Option<Seq<char>>, Option<Seq<char>>, Seq<char>), ArgsErrorModel>
    decreases rest.len(),
{
    if rest.len() == 0 {
        Ok((pipe, dir, title))
    } else {
        match value_flag(rest[0]) {
            None => Err(ArgsErrorModel::UnknownArgument(rest[0])),
            Some(f) => if rest.len() < 2 {
                Err(ArgsErrorModel::MissingValue(f))
            } else {
                match f {
                    ValueFlag::PipeName => read_flags(rest.skip(2), Some(rest[1]), dir, title),
                    ValueFlag::WorkingDirectory => read_flags(rest.skip(2), pipe, Some(rest[1]), title),
                    ValueFlag::WindowTitle => read_flags(rest.skip(2), pipe, dir, rest[1]),
                }
            },
        }
    }
}

/// A required value, trimmed, when it is given and not blank.
pub open spec fn required(v: Option<Seq<char>>) -> Option<Seq<char>> {
    match v {
        Some(s) => if trim(s).len() > 0 {
            Some(trim(s))
        } else {
            None
        },
        None => None,
    }
}

/// The meaning of the command line `args` (program name first): not the
/// listener mode (`Ok(None)`), the listener's settings, or an error.
pub open spec fn parsed_args(args: Seq<Seq<char>>) -> Result<
    Option<(Seq<char>, Seq<char>, Seq<char>)>,
    ArgsErrorModel,
> {
    if args.len() < 2 || args[1] != MODE_FLAG@ {
        Ok(None)
    } else {
        match read_flags(args.skip(2), None, None, MAIN_WINDOW_TITLE@) {
            Err(e) => Err(e),
            Ok((pipe, dir, title)) => match required(pipe) {
                None => Err(ArgsErrorModel::EmptyPipeName),
                Some(p) => match required(dir) {
                    None => Err(ArgsErrorModel::EmptyWorkingDirectory),
                    Some(d) => Ok(Some((p, d, title))),
                },
            },
        }
    }
}

pub open spec fn texts(v: Seq<String>) -> Seq<Seq<char>> {
    v.map_values(|s: String| s@)
}

fn value_flag_of(arg: &str) -> (r: Option<ValueFlag>)
    ensures
        r == value_flag(arg@),
{
    let a = chars_of(arg);
    if chars_equal(a.as_slice(), chars_of(PIPE_NAME_FLAG).as_slice()) {
        Some(ValueFlag::PipeName)
    } else if chars_equal(a.as_slice(), chars_of(WORKING_DIR_FLAG).as_slice()) {
        Some(ValueFlag::WorkingDirectory)
    } else if chars_equal(a.as_slice(), chars_of(WINDOW_TITLE_FLAG).as_slice()) {
        Some(ValueFlag::WindowTitle)
    } else {
        None
    }
}

fn required_value(v: Option<String>) -> (r: Option<String>)
    ensures
        match (r, required(
            match v {
                Some(s) => Some(s@),
                None => None,
            },
        )) {
            (Some(a), Some(b)) => a@ == b,
            (None, None) => true,
            _ => false,
        },
{
    match v {
        Some(s) => {
            let t = trim_chars(chars_of(s.as_str()).as_slice());
            if t.len() > 0 {
                Some(string_of(t.as_slice()))
            } else {
                None
            }
        },
        None => None,
    }
}

pub open spec fn opt_text(o: Option<String>) -> Option<Seq<char>> {
    match o {
        Some(s) => Some(s@),
        None => None,
    }
}

/// Reads the listener's command line (program name first).
pub fn parse_args(args: &Vec<String>) -> (r: Result<Option<ListenerArgs>, ArgsError>)
    ensures
        match (r, parsed_args(texts(args@))) {
            (Ok(None), Ok(None)) => true,
            (Ok(Some(a)), Ok(Some((p, d, t)))) => a.pipe_name@ == p && a.working_dir@ == d && a.window_title@ == t,
            (Err(e), Err(m)) => e.model() == m,
            _ => false,
        },
{
    let ghost ts = texts(args@);
    if args.len() < 2 || !chars_equal(chars_of(args[1].as_str()).as_slice(), chars_of(MODE_FLAG).as_slice()) {
        return Ok(None);
    }
    let mut pipe: Option<String> = None;
    let mut dir: Option<String> = None;
    let mut title = String::from_str(MAIN_WINDOW_TITLE);
    let mut i: usize = 2;
    assert(ts.skip(2) == ts.skip(i as int));
    while i < args.len()
        invariant
            2 <= i <= args@.len(),
            ts == texts(args@),
            ts[1] == MODE_FLAG@,
            read_flags(ts.skip(2), None, None, MAIN_WINDOW_TITLE@) == read_flags(
                ts.skip(i as int),
                opt_text(pipe),
                opt_text(dir),
                title@,
            ),
        decreases args.len() - i,
    {
        let ghost rest = ts.skip(i as int);
        assert(rest[0] == ts[i as int]);
        match value_flag_of(args[i].as_str()) {
            None => {
                return Err(ArgsError::UnknownArgument(args[i].clone()));
            },
            Some(f) => {
                if i + 1 >= args.len() {
                    return Err(ArgsError::MissingValue(f));
                }
                let value = args[i + 1].clone();
                assert(rest[1] == ts[i + 1]);
                assert(rest.skip(2) =~= ts.skip(i + 2));
                match f {
                    ValueFlag::PipeName => pipe = Some(value),
                    ValueFlag::WorkingDirectory => dir = Some(value),
                    ValueFlag::WindowTitle => title = value,
                }
                i = i + 2;
            },
        }
    }
    let pipe_name = match required_value(pipe) {
        Some(p) => p,
        None => return Err(ArgsError::EmptyPipeName),
    };
    let working_dir = match required_value(dir) {
        Some(d) => d,
        None => return Err(ArgsError::EmptyWorkingDirectory),
    };
    Ok(Some(ListenerArgs { pipe_name, working_dir, window_title: title }))
}

/// What the listener does with one line received through the pipe.
pub enum PipeAction {
    /// An empty line: nothing.
    Ignore,
    /// Sends Ctrl+C to the session.
    Interrupt,
    /// Writes `exit` and a carriage return to the session, then stops
    /// listening.
    Exit,
    /// Writes the command and a carriage return to the session.
    Forward(String),
}

/// The line without its trailing `\r` and `\n` characters.
pub open spec fn without_line_end(s: Seq<char>) -> Seq<char>
    decreases s.len(),
{
    if s.len() > 0 && (s.last() == '\r' || s.last() == '\n') {
        without_line_end(s.drop_last())
    } else {
        s
    }
}

/// The action for a received line.
pub fn pipe_line_action(line: &str) -> (r: PipeAction)
    ensures
        ({
            let c = without_line_end(line@);
            match r {
                PipeAction::Ignore => c.len() == 0,
                PipeAction::Interrupt => c == INTERRUPT_COMMAND@,
                PipeAction::Exit => c == LISTENER_EXIT_COMMAND@,
                PipeAction::Forward(s) => s@ == c && c.len() > 0 && c != INTERRUPT_COMMAND@ && c
                    != LISTENER_EXIT_COMMAND@,
            }
        }),
{
    let v = chars_of(line);
    let mut j: usize = v.len();
    assert(v@.take(j as int) =~= v@);
    while j > 0 && (v[j - 1] == '\r' || v[j - 1] == '\n')
        invariant
            j <= v@.len(),
            without_line_end(v@) == without_line_end(v@.take(j as int)),
        decreases j,
    {
        assert(v@.take(j as int).drop_last() =~= v@.take(j - 1));
        j -= 1;
    }
    let c = crate::text::copy_range(v.as_slice(), 0, j);
    assert(c@ =~= v@.take(j as int));
    if c.len() == 0 {
        return PipeAction::Ignore;
    }
    if chars_equal(c.as_slice(), chars_of(INTERRUPT_COMMAND).as_slice()) {
        return PipeAction::Interrupt;
    }
    if chars_equal(c.as_slice(), chars_of(LISTENER_EXIT_COMMAND).as_slice()) {
        return PipeAction::Exit;
    }
    PipeAction::Forward(string_of(c.as_slice()))
}

/// The text written to the session for a command: the command and a
/// carriage return.
pub fn session_line(command: &str) -> (r: String)
    ensures
        r@ == command@.push('\r'),
{
    let mut v = chars_of(command);
    v.push('\r');
    string_of(v.as_slice())
}

/// How the listener's console is set up: the title to keep (the trimmed
/// title, none when blank), and whether the window goes right of the main
/// console (for the build console).
pub fn console_setup(window_title: &str) -> (r: (Option<String>, bool))
    ensures
        match r.0 {
            Some(t) => t@ == trim(window_title@) && t@.len() > 0,
            None => trim(window_title@).len() == 0,
        },
        r.1 == (trim(window_title@) == BUILD_WINDOW_TITLE@),
{
    let t = trim_chars(chars_of(window_title).as_slice());
    let build = chars_equal(t.as_slice(), chars_of(BUILD_WINDOW_TITLE).as_slice());
    if t.len() > 0 {
        (Some(string_of(t.as_slice())), build)
    } else {
        (None, build)
    }
}

/// The character written to the session to interrupt it (Ctrl+C).
pub const CTRL_C: char = '\x03';

/// What a session writes to its terminal for the lines received through the
/// pipe, in order: nothing for an empty line, Ctrl+C for the interrupt line,
/// `exit` and a carriage return for the exit line (after which nothing more is
/// read), and each other line followed by a carriage return.
pub open spec fn session_writes(lines: Seq<Seq<char>>) -> Seq<char>
    decreases lines.len(),
{
    if lines.len() == 0 {
        Seq::empty()
    } else {
        let c = without_line_end(lines[0]);
        if c.len() == 0 {
            session_writes(lines.skip(1))
        } else if c == INTERRUPT_COMMAND@ {
            seq![CTRL_C] + session_writes(lines.skip(1))
        } else if c == LISTENER_EXIT_COMMAND@ {
            EXIT_SHELL_COMMAND@.push('\r')
        } else {
            c.push('\r') + session_writes(lines.skip(1))
        }
    }
}

/// How many of the received lines a session reads: up to and including the
/// first exit line, or all of them.
pub open spec fn session_lines_read(lines: Seq<Seq<char>>) -> nat
    decreases lines.len(),
{
    if lines.len() == 0 {
        0
    } else if without_line_end(lines[0]) == LISTENER_EXIT_COMMAND@ {
        1
    } else {
        1 + session_lines_read(lines.skip(1))
    }
}

/// Runs a session over the lines received through the pipe: the text written
/// to the terminal, and how many lines were read before the session stopped.
pub fn session_input(lines: &Vec<String>) -> (r: (String, usize))
    ensures
        r.0@ == session_writes(texts(lines@)),
        r.1 == session_lines_read(texts(lines@)),
{
    let ghost ts = texts(lines@);
    let mut out: Vec<char> = Vec::new();
    let mut i: usize = 0;
    assert(ts.skip(0) =~= ts);
    while i < lines.len()
        invariant
            i <= lines@.len(),
            ts == texts(lines@),
            session_writes(ts) == out@ + session_writes(ts.skip(i as int)),
            session_lines_read(ts) == i + session_lines_read(ts.skip(i as int)),
        decreases lines.len() - i,
    {
        let ghost rest = ts.skip(i as int);
        assert(rest[0] == lines@[i as int]@);
        assert(rest.skip(1) =~= ts.skip(i + 1));
        match pipe_line_action(lines[i].as_str()) {
            PipeAction::Ignore => {
                assert(LISTENER_EXIT_COMMAND@.len() > 0) by {
                    reveal_strlit("__listener_exit__");
                };
            },
            PipeAction::Interrupt => {
                assert(INTERRUPT_COMMAND@.len() > 0) by {
                    reveal_strlit("__interrupt__");
                };
                out.push(CTRL_C);
                assert(LISTENER_EXIT_COMMAND@ != INTERRUPT_COMMAND@) by {
                    reveal_strlit("__interrupt__");
                    reveal_strlit("__listener_exit__");
                    assert(LISTENER_EXIT_COMMAND@.len() != INTERRUPT_COMMAND@.len());
                };
                assert(out@ + session_writes(ts.skip(i + 1)) =~= (out@.drop_last() + seq![CTRL_C])
                    + session_writes(ts.skip(i + 1)));
                assert(seq![CTRL_C] + session_writes(ts.skip(i + 1)) == session_writes(rest));
                assert(out@.drop_last() + session_writes(rest) =~= out@ + session_writes(ts.skip(i + 1)));
            },
            PipeAction::Exit => {
                assert(LISTENER_EXIT_COMMAND@.len() > 0) by {
                    reveal_strlit("__listener_exit__");
                };
                assert(LISTENER_EXIT_COMMAND@ != INTERRUPT_COMMAND@) by {
                    reveal_strlit("__interrupt__");
                    reveal_strlit("__listener_exit__");
                    assert(LISTENER_EXIT_COMMAND@.len() != INTERRUPT_COMMAND@.len());
                };
                let line = session_line(EXIT_SHELL_COMMAND);
                crate::text::append_str(&mut out, line.as_str());
                return (string_of(out.as_slice()), i + 1);
            },
            PipeAction::Forward(c) => {
                let ghost before = out@;
                let line = session_line(c.as_str());
                crate::text::append_str(&mut out, line.as_str());
                assert(out@ + session_writes(ts.skip(i + 1)) =~= before + (c@.push('\r')
                    + session_writes(ts.skip(i + 1))));
            },
        }
        i = i + 1;
    }
    assert(ts.skip(i as int).len() == 0);
    assert(out@ + Seq::<char>::empty() =~= out@);
    (string_of(out.as_slice()), i)
}

proof fn lemma_read_flags_append(
    rest: Seq<Seq<char>>,
    pipe: Option<Seq<char>>,
    dir: Option<Seq<char>>,
    title: Seq<char>,
    tail: Seq<Seq<char>>,
)
    requires
        read_flags(rest, pipe, dir, title) is Ok,
    ensures
        ({
            let (p, d, t) = read_flags(rest, pipe, dir, title)->Ok_0;
            read_flags(rest + tail, pipe, dir, title) == read_flags(tail, p, d, t)
        }),
    decreases rest.len(),
{
    if rest.len() == 0 {
        assert(rest + tail =~= tail);
    } else {
        let all = rest + tail;
        assert(all[0] == rest[0]);
        assert(all[1] == rest[1]);
        assert(all.skip(2) =~= rest.skip(2) + tail);
        match value_flag(rest[0]) {
            Some(ValueFlag::PipeName) => lemma_read_flags_append(rest.skip(2), Some(rest[1]), dir, title, tail),
            Some(ValueFlag::WorkingDirectory) => lemma_read_flags_append(rest.skip(2), pipe, Some(rest[1]), title, tail),
            Some(ValueFlag::WindowTitle) => lemma_read_flags_append(rest.skip(2), pipe, dir, rest[1], tail),
            None => {},
        }
    }
}

proof fn lemma_flag_texts_distinct()
    ensures
        PIPE_NAME_FLAG@ != WORKING_DIR_FLAG@,
        PIPE_NAME_FLAG@ != WINDOW_TITLE_FLAG@,
        WORKING_DIR_FLAG@ != WINDOW_TITLE_FLAG@,
{
    reveal_strlit("--pipe-name");
    reveal_strlit("--working-directory");
    reveal_strlit("--window-title");
    assert(PIPE_NAME_FLAG@.len() != WORKING_DIR_FLAG@.len());
    assert(PIPE_NAME_FLAG@.len() != WINDOW_TITLE_FLAG@.len());
    assert(WORKING_DIR_FLAG@.len() != WINDOW_TITLE_FLAG@.len());
}

/// A later flag overrides an earlier one: appending `--pipe-name v` (with `v`
/// not blank) to an accepted listener command line makes the pipe name the
/// trimmed `v` and keeps the rest; likewise `--working-directory v` for the
/// working folder, and `--window-title v` sets the title to `v` as given.
pub proof fn lemma_last_flag_wins(args: Seq<Seq<char>>, v: Seq<char>)
    requires
        parsed_args(args) is Ok,
        parsed_args(args)->Ok_0 is Some,
    ensures
        ({
            let (p, d, t) = parsed_args(args)->Ok_0->Some_0;
            &&& trim(v).len() > 0 ==> parsed_args(args.push(PIPE_NAME_FLAG@).push(v)) == Ok::<
                Option<(Seq<char>, Seq<char>, Seq<char>)>,
                ArgsErrorModel,
            >(Some((trim(v), d, t)))
            &&& trim(v).len() > 0 ==> parsed_args(args.push(WORKING_DIR_FLAG@).push(v)) == Ok::<
                Option<(Seq<char>, Seq<char>, Seq<char>)>,
                ArgsErrorModel,
            >(Some((p, trim(v), t)))
            &&& parsed_args(args.push(WINDOW_TITLE_FLAG@).push(v)) == Ok::<
                Option<(Seq<char>, Seq<char>, Seq<char>)>,
                ArgsErrorModel,
            >(Some((p, d, v)))
        }),
{
    lemma_flag_texts_distinct();
    let rest = args.skip(2);
    let (pipe, dir, title) = read_flags(rest, None, None, MAIN_WINDOW_TITLE@)->Ok_0;
    let flags = seq![PIPE_NAME_FLAG@, WORKING_DIR_FLAG@, WINDOW_TITLE_FLAG@];
    assert forall|f: Seq<char>| #[trigger] flags.contains(f) implies ({
        let a2 = args.push(f).push(v);
        &&& a2.len() >= 2
        &&& a2[1] == MODE_FLAG@
        &&& read_flags(a2.skip(2), None, None, MAIN_WINDOW_TITLE@) == read_flags(seq![f, v], pipe, dir, title)
    }) by {
        let a2 = args.push(f).push(v);
        assert(a2[1] == args[1]);
        assert(a2.skip(2) =~= rest + seq![f, v]);
        lemma_read_flags_append(rest, None, None, MAIN_WINDOW_TITLE@, seq![f, v]);
    }
    assert(flags.contains(PIPE_NAME_FLAG@)) by { assert(flags[0] == PIPE_NAME_FLAG@); }
    assert(flags.contains(WORKING_DIR_FLAG@)) by { assert(flags[1] == WORKING_DIR_FLAG@); }
    assert(flags.contains(WINDOW_TITLE_FLAG@)) by { assert(flags[2] == WINDOW_TITLE_FLAG@); }
    let (p, d, t) = parsed_args(args)->Ok_0->Some_0;
    assert(required(pipe) == Some(p) && required(dir) == Some(d) && title == t);
    let e = Seq::<Seq<char>>::empty();
    assert(seq![PIPE_NAME_FLAG@, v].skip(2) =~= e);
    assert(seq![WORKING_DIR_FLAG@, v].skip(2) =~= e);
    assert(seq![WINDOW_TITLE_FLAG@, v].skip(2) =~= e);
    assert(value_flag(PIPE_NAME_FLAG@) == Some(ValueFlag::PipeName));
    assert(value_flag(WORKING_DIR_FLAG@) == Some(ValueFlag::WorkingDirectory));
    assert(value_flag(WINDOW_TITLE_FLAG@) == Some(ValueFlag::WindowTitle));
    assert(read_flags(seq![PIPE_NAME_FLAG@, v], pipe, dir, title) == read_flags(e, Some(v), dir, title));
    assert(read_flags(seq![WORKING_DIR_FLAG@, v], pipe, dir, title) == read_flags(e, pipe, Some(v), title));
    assert(read_flags(seq![WINDOW_TITLE_FLAG@, v], pipe, dir, title) == read_flags(e, pipe, dir, v));
    if trim(v).len() > 0 {
        assert(required(Some(v)) == Some(trim(v)));
    }
}

/// A command line whose first argument is not `--conpty-listener` does not
/// start the listener, and is never refused.
pub proof fn lemma_other_mode_is_not_listener(args: Seq<Seq<char>>)
    requires
        args.len() < 2 || args[1] != "--conpty-listener"@,
    ensures
        parsed_args(args) == Ok::<Option<(Seq<char>, Seq<char>, Seq<char>)>, ArgsErrorModel>(None),
{
    reveal_strlit("--conpty-listener");
}

} // verus!
