//! The command-line grammar: a program name, then at most one subcommand with
//! its flags, options and operands.
//!
//! Tokens are read from left to right. The values of an option or operand are
//! gathered first and converted when the next argument starts or the line
//! ends, so of two mistakes on one line the one met first is reported.

use vstd::prelude::*;
use crate::number::{i32_of, parse_i32, parse_u64, u64_of};
use crate::text::{chars_of, is_text, same, slice_chars, slice_views, string_of, views};

verus! {

/// What the user asks the tracker to do.
#[derive(Debug, PartialEq)]
pub enum Command {
    /// `i`, `interactive`: read commands line by line.
    Interactive {},
    /// `a`, `add`: the words of a new todo, with `-p`, `--priority`.
    Add { todo: Vec<String>, priority: Option<i32> },
    /// `u`, `update`: the id of a todo, and its new words after `-t`, `--todo`.
    Update { id: i32, todo: Vec<String> },
    /// `l`, `ls`, `list`: with `-a`, `--all` and `-d`, `--date`.
    List { all: bool, date: bool },
    /// `f`, `find`: the words to look for, with `-a`, `--all` and `-d`, `--date`.
    Find { keyword: Vec<String>, all: bool, date: bool },
    /// `d`, `done`: the ids of the todos that are done.
    Done { ids: Vec<i32> },
    /// `undone`: the ids of the todos that are open again.
    UNDONE { ids: Vec<i32> },
    /// `r`, `remove`: the ids of the todos to delete.
    Remove { ids: Vec<i32> },
    /// `rs`, `reset`: delete every todo.
    Reset,
    /// `t`, `timer`: count down so many minutes.
    Timer { minutes: u64 },
}

/// A parsed command line.
#[derive(Debug)]
pub struct Cli {
    pub command: Option<Command>,
}

/// Why a command line was not accepted. The kinds bear the names that
/// `clap::error::ErrorKind` gives them.
#[derive(Debug, Clone, Copy, PartialEq, Eq, Structural)]
pub enum ParseError {
    /// Help was asked for, by `-h`, `--help` or the subcommand `help`.
    DisplayHelp,
    /// The version was asked for, by `-V` or `--version`.
    DisplayVersion,
    /// A word stands where a subcommand is expected and names none.
    InvalidSubcommand,
    /// A flag or option that the subcommand does not have, or an operand too many.
    UnknownArgument,
    /// A flag was given a value with `=`.
    TooManyValues,
    /// An option was given without a value.
    InvalidValue,
    /// A value is not a number of the type asked for.
    ValueValidation,
    /// A flag or a single-valued option was given twice.
    ArgumentConflict,
    /// An operand that the subcommand needs is missing.
    MissingRequiredArgument,
}

/// A command as a mathematical value.
pub enum CommandView {
    Interactive,
    Add { todo: Seq<Seq<char>>, priority: Option<i32> },
    Update { id: i32, todo: Seq<Seq<char>> },
    List { all: bool, date: bool },
    Find { keyword: Seq<Seq<char>>, all: bool, date: bool },
    Done { ids: Seq<i32> },
    Undone { ids: Seq<i32> },
    Remove { ids: Seq<i32> },
    Reset,
    Timer { minutes: u64 },
}

impl View for Command {
    type V = CommandView;

    open spec fn view(&self) -> CommandView {
        match self {
            Command::Interactive {} => CommandView::Interactive,
            Command::Add { todo, priority } => CommandView::Add {
                todo: views(todo@),
                priority: *priority,
            },
            Command::Update { id, todo } => CommandView::Update { id: *id, todo: views(todo@) },
            Command::List { all, date } => CommandView::List { all: *all, date: *date },
            Command::Find { keyword, all, date } => CommandView::Find {
                keyword: views(keyword@),
                all: *all,
                date: *date,
            },
            Command::Done { ids } => CommandView::Done { ids: ids@ },
            Command::UNDONE { ids } => CommandView::Undone { ids: ids@ },
            Command::Remove { ids } => CommandView::Remove { ids: ids@ },
            Command::Reset => CommandView::Reset,
            Command::Timer { minutes } => CommandView::Timer { minutes: *minutes },
        }
    }
}

impl View for Cli {
    type V = Option<CommandView>;

    open spec fn view(&self) -> Option<CommandView> {
        match self.command {
            Some(c) => Some(c@),
            None => None,
        }
    }
}

/// A subcommand.
#[derive(Debug, Clone, Copy, PartialEq, Eq, Structural)]
pub enum Verb {
    Interactive,
    Add,
    Update,
    List,
    Find,
    Done,
    Undone,
    Remove,
    Reset,
    Timer,
}

/// An argument of a subcommand: a flag, an option or an operand.
#[derive(Debug, Clone, Copy, PartialEq, Eq, Structural)]
pub enum Slot {
    /// The flag `-a`, `--all`.
    All,
    /// The flag `-d`, `--date`.
    Date,
    /// The flag `-h`, `--help`.
    Help,
    /// The option `-p`, `--priority`, with one value.
    Priority,
    /// The option `-t`, `--todo`, with one value or more.
    Todo,
    /// Operands: any number of words.
    Words,
    /// Operands: any number of ids.
    Ids,
    /// The operand: one id.
    Id,
    /// The operand: a number of minutes.
    Minutes,
}

/// The subcommand that a word names, by its name or one of its aliases.
pub open spec fn verb_of(t: Seq<char>) -> Option<Verb> {
    if t == "i"@ || t == "interactive"@ {
        Some(Verb::Interactive)
    } else if t == "a"@ || t == "add"@ {
        Some(Verb::Add)
    } else if t == "u"@ || t == "update"@ {
        Some(Verb::Update)
    } else if t == "l"@ || t == "ls"@ || t == "list"@ {
        Some(Verb::List)
    } else if t == "f"@ || t == "find"@ {
        Some(Verb::Find)
    } else if t == "d"@ || t == "done"@ {
        Some(Verb::Done)
    } else if t == "undone"@ {
        Some(Verb::Undone)
    } else if t == "r"@ || t == "remove"@ {
        Some(Verb::Remove)
    } else if t == "rs"@ || t == "reset"@ {
        Some(Verb::Reset)
    } else if t == "t"@ || t == "timer"@ {
        Some(Verb::Timer)
    } else {
        None
    }
}

/// Whether the word stands for a subcommand: one of the tracker's, or `help`.
pub open spec fn names_subcommand(t: Seq<char>) -> bool {
    verb_of(t) is Some || t == "help"@
}

/// The flag or option of a subcommand that a letter after `-` names.
pub open spec fn short_slot(verb: Verb, c: char) -> Option<Slot> {
    if c == 'h' {
        Some(Slot::Help)
    } else if c == 'p' && verb == Verb::Add {
        Some(Slot::Priority)
    } else if c == 't' && verb == Verb::Update {
        Some(Slot::Todo)
    } else if c == 'a' && (verb == Verb::List || verb == Verb::Find) {
        Some(Slot::All)
    } else if c == 'd' && (verb == Verb::List || verb == Verb::Find) {
        Some(Slot::Date)
    } else {
        None
    }
}

/// The flag or option of a subcommand that a name after `--` names.
pub open spec fn long_slot(verb: Verb, name: Seq<char>) -> Option<Slot> {
    if name == "help"@ {
        Some(Slot::Help)
    } else if name == "priority"@ && verb == Verb::Add {
        Some(Slot::Priority)
    } else if name == "todo"@ && verb == Verb::Update {
        Some(Slot::Todo)
    } else if name == "all"@ && (verb == Verb::List || verb == Verb::Find) {
        Some(Slot::All)
    } else if name == "date"@ && (verb == Verb::List || verb == Verb::Find) {
        Some(Slot::Date)
    } else {
        None
    }
}

/// The operands that a subcommand takes, if it takes any.
pub open spec fn operand(verb: Verb) -> Option<Slot> {
    match verb {
        Verb::Add | Verb::Find => Some(Slot::Words),
        Verb::Done | Verb::Undone | Verb::Remove => Some(Slot::Ids),
        Verb::Update => Some(Slot::Id),
        Verb::Timer => Some(Slot::Minutes),
        _ => None,
    }
}

/// Whether the argument is an option, which takes its values from the line.
pub open spec fn takes_value(slot: Slot) -> bool {
    slot == Slot::Priority || slot == Slot::Todo
}

/// Whether the token is `--`, after which every token is an operand.
pub open spec fn is_escape(t: Seq<char>) -> bool {
    t == seq!['-', '-']
}

/// Whether the token has the form of a long flag: `--` and something more.
pub open spec fn is_long(t: Seq<char>) -> bool {
    t.len() > 2 && t[0] == '-' && t[1] == '-'
}

/// Whether the token has the form of short flags: `-` and something more that is no `-`.
pub open spec fn is_short(t: Seq<char>) -> bool {
    t.len() >= 2 && t[0] == '-' && t[1] != '-'
}

/// The place of the first `=` in `s` from `from` on, or the length of `s`.
pub open spec fn equals_at(s: Seq<char>, from: int) -> int
    decreases s.len() - from,
{
    if from < 0 || from >= s.len() {
        s.len() as int
    } else if s[from] == '=' {
        from
    } else {
        equals_at(s, from + 1)
    }
}

/// The name of a long flag: what stands between `--` and the first `=`.
pub open spec fn long_name(t: Seq<char>) -> Seq<char> {
    t.subrange(2, equals_at(t, 2))
}

/// The value attached to a long flag: what follows the first `=`.
pub open spec fn long_value(t: Seq<char>) -> Option<Seq<char>> {
    if equals_at(t, 2) < t.len() {
        Some(t.skip(equals_at(t, 2) + 1))
    } else {
        None
    }
}

/// What a subcommand's arguments have given so far.
pub struct ScanView {
    pub all: bool,
    pub date: bool,
    pub priority: Option<i32>,
    pub words: Seq<Seq<char>>,
    pub ids: Seq<i32>,
    pub id: Option<i32>,
    pub minutes: Option<u64>,
}

/// The state between two tokens of a subcommand's arguments.
pub struct Progress {
    /// What the arguments converted so far have given.
    pub scan: ScanView,
    /// The argument whose values are being gathered, with those values.
    pub pending: Option<(Slot, Seq<Seq<char>>)>,
    /// Whether the single operand has been met.
    pub taken: bool,
    /// Whether `--` has been met.
    pub trailing: bool,
}

/// Nothing given yet.
pub open spec fn nothing() -> ScanView {
    ScanView {
        all: false,
        date: false,
        priority: None,
        words: Seq::empty(),
        ids: Seq::empty(),
        id: None,
        minutes: None,
    }
}

/// The state before the first token.
pub open spec fn outset() -> Progress {
    Progress { scan: nothing(), pending: None, taken: false, trailing: false }
}

/// The ids that the numerals denote, where each of them denotes one.
pub open spec fn ids_of(vals: Seq<Seq<char>>) -> Option<Seq<i32>> {
    if forall|i: int| 0 <= i < vals.len() ==> (#[trigger] i32_of(vals[i])) is Some {
        Some(Seq::new(vals.len(), |i: int| i32_of(vals[i])->0))
    } else {
        None
    }
}

/// An argument takes effect, with the values gathered for it.
pub open spec fn react(scan: ScanView, slot: Slot, vals: Seq<Seq<char>>) -> Result<
    ScanView,
    ParseError,
> {
    match slot {
        Slot::Help => Err(ParseError::DisplayHelp),
        Slot::All => if scan.all {
            Err(ParseError::ArgumentConflict)
        } else {
            Ok(ScanView { all: true, ..scan })
        },
        Slot::Date => if scan.date {
            Err(ParseError::ArgumentConflict)
        } else {
            Ok(ScanView { date: true, ..scan })
        },
        Slot::Priority => if vals.len() == 0 {
            Err(ParseError::InvalidValue)
        } else if scan.priority is Some {
            Err(ParseError::ArgumentConflict)
        } else {
            match i32_of(vals[0]) {
                Some(v) => Ok(ScanView { priority: Some(v), ..scan }),
                None => Err(ParseError::ValueValidation),
            }
        },
        Slot::Todo => if vals.len() == 0 {
            Err(ParseError::InvalidValue)
        } else {
            Ok(ScanView { words: scan.words + vals, ..scan })
        },
        Slot::Words => Ok(ScanView { words: scan.words + vals, ..scan }),
        Slot::Ids => match ids_of(vals) {
            Some(ids) => Ok(ScanView { ids: scan.ids + ids, ..scan }),
            None => Err(ParseError::ValueValidation),
        },
        Slot::Id => if vals.len() == 0 {
            Err(ParseError::InvalidValue)
        } else {
            match i32_of(vals[0]) {
                Some(v) => Ok(ScanView { id: Some(v), ..scan }),
                None => Err(ParseError::ValueValidation),
            }
        },
        Slot::Minutes => if vals.len() == 0 {
            Err(ParseError::InvalidValue)
        } else {
            match u64_of(vals[0]) {
                Some(v) => Ok(ScanView { minutes: Some(v), ..scan }),
                None => Err(ParseError::ValueValidation),
            }
        },
    }
}

/// The argument that is pending, if any, takes effect.
pub open spec fn resolve(p: Progress) -> Result<ScanView, ParseError> {
    match p.pending {
        Some((slot, vals)) => react(p.scan, slot, vals),
        None => Ok(p.scan),
    }
}

/// A flag or option has been named; `attached` is the value given with it in
/// the same token. What is pending takes effect first.
pub open spec fn named(p: Progress, slot: Slot, attached: Option<Seq<char>>) -> Result<
    Progress,
    ParseError,
> {
    match resolve(p) {
        Err(e) => Err(e),
        Ok(scan) => if takes_value(slot) {
            match attached {
                Some(v) => match react(scan, slot, seq![v]) {
                    Ok(next) => Ok(Progress { scan: next, pending: None, ..p }),
                    Err(e) => Err(e),
                },
                None => Ok(Progress { scan, pending: Some((slot, Seq::empty())), ..p }),
            }
        } else {
            match react(scan, slot, Seq::empty()) {
                Ok(next) => Ok(Progress { scan: next, pending: None, ..p }),
                Err(e) => Err(e),
            }
        },
    }
}

/// A token `--name` or `--name=value`.
pub open spec fn long_flag(verb: Verb, p: Progress, t: Seq<char>) -> Result<Progress, ParseError> {
    match long_slot(verb, long_name(t)) {
        None => Err(ParseError::UnknownArgument),
        Some(slot) => if !takes_value(slot) && long_value(t) is Some {
            Err(ParseError::TooManyValues)
        } else {
            named(p, slot, long_value(t))
        },
    }
}

/// The letters after `-`, from the `k`-th on: flags one after the other; an
/// option takes the rest of the token as its value, without a leading `=`.
pub open spec fn short_flags(verb: Verb, p: Progress, t: Seq<char>, k: int) -> Result<
    Progress,
    ParseError,
>
    decreases t.len() - k,
{
    if k < 0 || k >= t.len() {
        Ok(p)
    } else {
        match short_slot(verb, t[k]) {
            None => Err(ParseError::UnknownArgument),
            Some(slot) => if takes_value(slot) {
                if k + 1 == t.len() {
                    named(p, slot, None)
                } else if t[k + 1] == '=' {
                    named(p, slot, Some(t.skip(k + 2)))
                } else {
                    named(p, slot, Some(t.skip(k + 1)))
                }
            } else {
                match named(p, slot, None) {
                    Ok(next) => short_flags(verb, next, t, k + 1),
                    Err(e) => Err(e),
                }
            },
        }
    }
}

/// Whether an option is waiting for a value: the next plain token is its own.
pub open spec fn awaiting(p: Progress) -> bool {
    match p.pending {
        Some((slot, vals)) => slot == Slot::Todo || (slot == Slot::Priority && vals.len() == 0),
        None => false,
    }
}

/// The token joins the values that are pending.
pub open spec fn gathered(p: Progress, t: Seq<char>) -> Progress {
    match p.pending {
        Some((slot, vals)) => Progress { pending: Some((slot, vals.push(t))), ..p },
        None => p,
    }
}

/// Whether values are being gathered for just this argument.
pub open spec fn gathering(p: Progress, slot: Slot) -> bool {
    match p.pending {
        Some((pending, _)) => pending == slot,
        None => false,
    }
}

/// A token that is an operand.
pub open spec fn positional(verb: Verb, p: Progress, t: Seq<char>) -> Result<Progress, ParseError> {
    match operand(verb) {
        None => Err(ParseError::UnknownArgument),
        Some(slot) => if slot == Slot::Id || slot == Slot::Minutes {
            if p.taken {
                Err(ParseError::UnknownArgument)
            } else {
                match resolve(p) {
                    Ok(scan) => Ok(
                        Progress { scan, pending: Some((slot, seq![t])), taken: true, ..p },
                    ),
                    Err(e) => Err(e),
                }
            }
        } else if gathering(p, slot) {
            Ok(gathered(p, t))
        } else {
            match resolve(p) {
                Ok(scan) => Ok(Progress { scan, pending: Some((slot, seq![t])), ..p }),
                Err(e) => Err(e),
            }
        },
    }
}

/// One token of a subcommand's arguments.
pub open spec fn step(verb: Verb, p: Progress, t: Seq<char>) -> Result<Progress, ParseError> {
    if p.trailing {
        positional(verb, p, t)
    } else if is_escape(t) {
        Ok(Progress { trailing: true, ..p })
    } else if is_long(t) {
        long_flag(verb, p, t)
    } else if is_short(t) {
        short_flags(verb, p, t, 1)
    } else if awaiting(p) {
        Ok(gathered(p, t))
    } else {
        positional(verb, p, t)
    }
}

/// The tokens from the `i`-th on, one after the other.
pub open spec fn run(verb: Verb, tokens: Seq<Seq<char>>, i: int, p: Progress) -> Result<
    Progress,
    ParseError,
>
    decreases tokens.len() - i,
{
    if i < 0 || i >= tokens.len() {
        Ok(p)
    } else {
        match step(verb, p, tokens[i]) {
            Ok(next) => run(verb, tokens, i + 1, next),
            Err(e) => Err(e),
        }
    }
}

/// The command that a subcommand and what its arguments gave make up.
pub open spec fn assemble(verb: Verb, scan: ScanView) -> Result<CommandView, ParseError> {
    match verb {
        Verb::Interactive => Ok(CommandView::Interactive),
        Verb::Add => Ok(CommandView::Add { todo: scan.words, priority: scan.priority }),
        Verb::Update => match scan.id {
            Some(id) => Ok(CommandView::Update { id, todo: scan.words }),
            None => Err(ParseError::MissingRequiredArgument),
        },
        Verb::List => Ok(CommandView::List { all: scan.all, date: scan.date }),
        Verb::Find => Ok(
            CommandView::Find { keyword: scan.words, all: scan.all, date: scan.date },
        ),
        Verb::Done => Ok(CommandView::Done { ids: scan.ids }),
        Verb::Undone => Ok(CommandView::Undone { ids: scan.ids }),
        Verb::Remove => Ok(CommandView::Remove { ids: scan.ids }),
        Verb::Reset => Ok(CommandView::Reset),
        Verb::Timer => match scan.minutes {
            Some(minutes) => Ok(CommandView::Timer { minutes }),
            None => Err(ParseError::MissingRequiredArgument),
        },
    }
}

/// A subcommand with its arguments, which are the tokens from the `i`-th on.
pub open spec fn subcommand(verb: Verb, tokens: Seq<Seq<char>>, i: int) -> Result<
    CommandView,
    ParseError,
> {
    match run(verb, tokens, i, outset()) {
        Err(e) => Err(e),
        Ok(p) => match resolve(p) {
            Err(e) => Err(e),
            Ok(scan) => assemble(verb, scan),
        },
    }
}

/// What follows the word `help`, from the `i`-th token on: nothing or one
/// subcommand asks for help; anything else names no subcommand.
pub open spec fn help_request(tokens: Seq<Seq<char>>, i: int) -> ParseError {
    if i >= tokens.len() {
        ParseError::DisplayHelp
    } else if names_subcommand(tokens[i]) && i + 1 == tokens.len() {
        ParseError::DisplayHelp
    } else {
        ParseError::InvalidSubcommand
    }
}

/// A token before the subcommand that is no subcommand, and no `--`.
pub open spec fn stray(t: Seq<char>) -> ParseError {
    if is_long(t) {
        if long_name(t) == "help"@ {
            if long_value(t) is Some {
                ParseError::TooManyValues
            } else {
                ParseError::DisplayHelp
            }
        } else if long_name(t) == "version"@ {
            if long_value(t) is Some {
                ParseError::TooManyValues
            } else {
                ParseError::DisplayVersion
            }
        } else {
            ParseError::UnknownArgument
        }
    } else if is_short(t) {
        if t[1] == 'h' {
            ParseError::DisplayHelp
        } else if t[1] == 'V' {
            ParseError::DisplayVersion
        } else {
            ParseError::UnknownArgument
        }
    } else {
        ParseError::InvalidSubcommand
    }
}

/// The tokens from the `i`-th on, where no subcommand has been met yet.
pub open spec fn top(tokens: Seq<Seq<char>>, i: int, trailing: bool) -> Result<
    Option<CommandView>,
    ParseError,
>
    decreases tokens.len() - i,
{
    if i < 0 || i >= tokens.len() {
        Ok(None)
    } else if trailing {
        if names_subcommand(tokens[i]) {
            Err(ParseError::UnknownArgument)
        } else {
            Err(ParseError::InvalidSubcommand)
        }
    } else {
        match verb_of(tokens[i]) {
            Some(verb) => match subcommand(verb, tokens, i + 1) {
                Ok(c) => Ok(Some(c)),
                Err(e) => Err(e),
            },
            None => if tokens[i] == "help"@ {
                Err(help_request(tokens, i + 1))
            } else if is_escape(tokens[i]) {
                top(tokens, i + 1, true)
            } else {
                Err(stray(tokens[i]))
            },
        }
    }
}

/// The meaning of a command line. The first token is the program's name.
pub open spec fn parsed(tokens: Seq<Seq<char>>) -> Result<Option<CommandView>, ParseError> {
    top(tokens, 1, false)
}

/// What the tokens from a place on lead to depends on those tokens alone.
pub proof fn lemma_run_shifted(
    verb: Verb,
    a: Seq<Seq<char>>,
    i: int,
    b: Seq<Seq<char>>,
    j: int,
    p: Progress,
)
    requires
        0 <= i <= a.len(),
        0 <= j <= b.len(),
        a.skip(i) == b.skip(j),
    ensures
        run(verb, a, i, p) == run(verb, b, j, p),
    decreases a.len() - i,
{
    assert(a.skip(i).len() == a.len() - i);
    assert(b.skip(j).len() == b.len() - j);
    assert(a.len() - i == b.len() - j);
    if i < a.len() {
        assert(j < b.len());
        assert(a[i] == a.skip(i)[0]);
        assert(b[j] == b.skip(j)[0]);
        assert(a.skip(i + 1) =~= a.skip(i).skip(1));
        assert(b.skip(j + 1) =~= b.skip(j).skip(1));
        match step(verb, p, a[i]) {
            Ok(next) => lemma_run_shifted(verb, a, i + 1, b, j + 1, next),
            Err(_) => {},
        }
    }
}

/// A subcommand means the same under each of its names, whatever the
/// program is called.
pub proof fn lemma_alias(
    program: Seq<char>,
    name: Seq<char>,
    other_program: Seq<char>,
    alias: Seq<char>,
    rest: Seq<Seq<char>>,
)
    requires
        verb_of(name) is Some,
        verb_of(name) == verb_of(alias),
    ensures
        parsed(seq![program, name] + rest) == parsed(seq![other_program, alias] + rest),
{
    let a = seq![program, name] + rest;
    let b = seq![other_program, alias] + rest;
    assert(a[1] == name);
    assert(b[1] == alias);
    assert(a.skip(2) =~= rest);
    assert(b.skip(2) =~= rest);
    lemma_run_shifted(verb_of(name)->0, a, 2, b, 2, outset());
}

/// Once `--` has been met, the tokens of a subcommand that takes words are
/// gathered as they are.
pub proof fn lemma_trailing_words(verb: Verb, tokens: Seq<Seq<char>>, i: int, p: Progress)
    requires
        operand(verb) == Some(Slot::Words),
        0 <= i < tokens.len(),
        p.trailing,
        p.pending is None,
    ensures
        run(verb, tokens, i, p) == Ok::<Progress, ParseError>(
            Progress { pending: Some((Slot::Words, tokens.skip(i))), ..p },
        ),
{
    let first = Progress { pending: Some((Slot::Words, seq![tokens[i]])), ..p };
    assert(step(verb, p, tokens[i]) == Ok::<Progress, ParseError>(first));
    assert(tokens.subrange(i, i + 1) =~= seq![tokens[i]]);
    lemma_trailing_gathered(verb, tokens, i, i + 1, first);
    assert(tokens.subrange(i, tokens.len() as int) =~= tokens.skip(i));
}

/// Once `--` has been met and words are being gathered, the tokens that
/// follow join them.
pub proof fn lemma_trailing_gathered(verb: Verb, tokens: Seq<Seq<char>>, from: int, i: int, p: Progress)
    requires
        operand(verb) == Some(Slot::Words),
        0 <= from < i <= tokens.len(),
        p.trailing,
        p.pending == Some((Slot::Words, tokens.subrange(from, i))),
    ensures
        run(verb, tokens, i, p) == Ok::<Progress, ParseError>(
            Progress { pending: Some((Slot::Words, tokens.subrange(from, tokens.len() as int))), ..p },
        ),
    decreases tokens.len() - i,
{
    if i < tokens.len() {
        let next = gathered(p, tokens[i]);
        assert(step(verb, p, tokens[i]) == Ok::<Progress, ParseError>(next));
        assert(tokens.subrange(from, i).push(tokens[i]) =~= tokens.subrange(from, i + 1));
        lemma_trailing_gathered(verb, tokens, from, i + 1, next);
    }
}

/// After `--` everything is a word of the todo: `add -- words` adds the
/// words as they are, whatever they look like.
pub proof fn lemma_add_after_escape(program: Seq<char>, name: Seq<char>, words: Seq<Seq<char>>)
    requires
        verb_of(name) == Some(Verb::Add),
    ensures
        parsed(seq![program, name, seq!['-', '-']] + words) == Ok::<Option<CommandView>, ParseError>(
            Some(CommandView::Add { todo: words, priority: None }),
        ),
{
    let tokens = seq![program, name, seq!['-', '-']] + words;
    let escaped = Progress { trailing: true, ..outset() };
    assert(tokens[1] == name);
    assert(tokens[2] == seq!['-', '-']);
    assert(step(Verb::Add, outset(), tokens[2]) == Ok::<Progress, ParseError>(escaped));
    assert(tokens.skip(3) =~= words);
    if words.len() > 0 {
        lemma_trailing_words(Verb::Add, tokens, 3, escaped);
        assert(Seq::<Seq<char>>::empty() + words =~= words);
    } else {
        assert(run(Verb::Add, tokens, 3, escaped) == Ok::<Progress, ParseError>(escaped));
        assert(words =~= Seq::<Seq<char>>::empty());
    }
}

/// What a subcommand's arguments have given so far.
struct Scan {
    all: bool,
    date: bool,
    priority: Option<i32>,
    words: Vec<String>,
    ids: Vec<i32>,
    id: Option<i32>,
    minutes: Option<u64>,
}

impl View for Scan {
    type V = ScanView;

    closed spec fn view(&self) -> ScanView {
        ScanView {
            all: self.all,
            date: self.date,
            priority: self.priority,
            words: views(self.words@),
            ids: self.ids@,
            id: self.id,
            minutes: self.minutes,
        }
    }
}

/// The state between two tokens of a subcommand's arguments.
struct Cursor {
    scan: Scan,
    pending: Option<(Slot, Vec<String>)>,
    taken: bool,
    trailing: bool,
}

impl View for Cursor {
    type V = Progress;

    closed spec fn view(&self) -> Progress {
        Progress {
            scan: self.scan@,
            pending: match self.pending {
                Some((slot, vals)) => Some((slot, views(vals@))),
                None => None,
            },
            taken: self.taken,
            trailing: self.trailing,
        }
    }
}

/// Whether a result is the one that the grammar gives.
spec fn agrees<T: View>(r: Result<T, ParseError>, m: Result<T::V, ParseError>) -> bool {
    match m {
        Ok(v) => r matches Ok(x) && x@ == v,
        Err(e) => r matches Err(x) && x == e,
    }
}

proof fn lemma_views_push(v: Seq<String>, s: String)
    ensures
        views(v.push(s)) == views(v).push(s@),
{
    assert(views(v.push(s)) =~= views(v).push(s@));
}

proof fn lemma_views_add(a: Seq<String>, b: Seq<String>)
    ensures
        views(a + b) == views(a) + views(b),
{
    assert(views(a + b) =~= views(a) + views(b));
}

fn find_verb(t: &str) -> (r: Option<Verb>)
    ensures
        r == verb_of(t@),
{
    if same(t, "i") || same(t, "interactive") {
        Some(Verb::Interactive)
    } else if same(t, "a") || same(t, "add") {
        Some(Verb::Add)
    } else if same(t, "u") || same(t, "update") {
        Some(Verb::Update)
    } else if same(t, "l") || same(t, "ls") || same(t, "list") {
        Some(Verb::List)
    } else if same(t, "f") || same(t, "find") {
        Some(Verb::Find)
    } else if same(t, "d") || same(t, "done") {
        Some(Verb::Done)
    } else if same(t, "undone") {
        Some(Verb::Undone)
    } else if same(t, "r") || same(t, "remove") {
        Some(Verb::Remove)
    } else if same(t, "rs") || same(t, "reset") {
        Some(Verb::Reset)
    } else if same(t, "t") || same(t, "timer") {
        Some(Verb::Timer)
    } else {
        None
    }
}

fn listing(verb: Verb) -> (r: bool)
    ensures
        r == (verb == Verb::List || verb == Verb::Find),
{
    match verb {
        Verb::List | Verb::Find => true,
        _ => false,
    }
}

fn find_short(verb: Verb, c: char) -> (r: Option<Slot>)
    ensures
        r == short_slot(verb, c),
{
    if c == 'h' {
        Some(Slot::Help)
    } else if c == 'p' && verb == Verb::Add {
        Some(Slot::Priority)
    } else if c == 't' && verb == Verb::Update {
        Some(Slot::Todo)
    } else if c == 'a' && listing(verb) {
        Some(Slot::All)
    } else if c == 'd' && listing(verb) {
        Some(Slot::Date)
    } else {
        None
    }
}

fn find_long(verb: Verb, name: &Vec<char>) -> (r: Option<Slot>)
    ensures
        r == long_slot(verb, name@),
{
    if is_text(name, "help") {
        Some(Slot::Help)
    } else if is_text(name, "priority") && verb == Verb::Add {
        Some(Slot::Priority)
    } else if is_text(name, "todo") && verb == Verb::Update {
        Some(Slot::Todo)
    } else if is_text(name, "all") && listing(verb) {
        Some(Slot::All)
    } else if is_text(name, "date") && listing(verb) {
        Some(Slot::Date)
    } else {
        None
    }
}

fn find_operand(verb: Verb) -> (r: Option<Slot>)
    ensures
        r == operand(verb),
{
    match verb {
        Verb::Add | Verb::Find => Some(Slot::Words),
        Verb::Done | Verb::Undone | Verb::Remove => Some(Slot::Ids),
        Verb::Update => Some(Slot::Id),
        Verb::Timer => Some(Slot::Minutes),
        _ => None,
    }
}

fn slot_takes_value(slot: Slot) -> (r: bool)
    ensures
        r == takes_value(slot),
{
    match slot {
        Slot::Priority | Slot::Todo => true,
        _ => false,
    }
}

fn read_ids(vals: &Vec<String>) -> (r: Option<Vec<i32>>)
    ensures
        match ids_of(views(vals@)) {
            Some(ids) => r matches Some(v) && v@ == ids,
            None => r is None,
        },
{
    let ghost texts = views(vals@);
    let mut out: Vec<i32> = Vec::new();
    let mut i: usize = 0;
    while i < vals.len()
        invariant
            i <= vals.len(),
            texts == views(vals@),
            out@.len() == i,
            forall|j: int| 0 <= j < i ==> (#[trigger] i32_of(texts[j])) == Some(out@[j]),
        decreases vals.len() - i,
    {
        match parse_i32(vals[i].as_str()) {
            Some(v) => {
                out.push(v);
            },
            None => {
                assert(i32_of(texts[i as int]) is None);
                return None;
            },
        }
        i += 1;
    }
    assert(out@ =~= ids_of(texts)->0);
    Some(out)
}

fn react_exec(scan: Scan, slot: Slot, vals: Vec<String>) -> (r: Result<Scan, ParseError>)
    ensures
        agrees(r, react(scan@, slot, views(vals@))),
{
    let mut scan = scan;
    let mut vals = vals;
    match slot {
        Slot::Help => Err(ParseError::DisplayHelp),
        Slot::All => {
            if scan.all {
                return Err(ParseError::ArgumentConflict);
            }
            scan.all = true;
            Ok(scan)
        },
        Slot::Date => {
            if scan.date {
                return Err(ParseError::ArgumentConflict);
            }
            scan.date = true;
            Ok(scan)
        },
        Slot::Priority => {
            if vals.len() == 0 {
                return Err(ParseError::InvalidValue);
            }
            if scan.priority.is_some() {
                return Err(ParseError::ArgumentConflict);
            }
            match parse_i32(vals[0].as_str()) {
                Some(v) => {
                    scan.priority = Some(v);
                    Ok(scan)
                },
                None => Err(ParseError::ValueValidation),
            }
        },
        Slot::Todo => {
            if vals.len() == 0 {
                return Err(ParseError::InvalidValue);
            }
            proof {
                lemma_views_add(scan.words@, vals@);
            }
            scan.words.append(&mut vals);
            Ok(scan)
        },
        Slot::Words => {
            proof {
                lemma_views_add(scan.words@, vals@);
            }
            scan.words.append(&mut vals);
            Ok(scan)
        },
        Slot::Ids => match read_ids(&vals) {
            Some(ids) => {
                let mut ids = ids;
                scan.ids.append(&mut ids);
                Ok(scan)
            },
            None => Err(ParseError::ValueValidation),
        },
        Slot::Id => {
            if vals.len() == 0 {
                return Err(ParseError::InvalidValue);
            }
            match parse_i32(vals[0].as_str()) {
                Some(v) => {
                    scan.id = Some(v);
                    Ok(scan)
                },
                None => Err(ParseError::ValueValidation),
            }
        },
        Slot::Minutes => {
            if vals.len() == 0 {
                return Err(ParseError::InvalidValue);
            }
            match parse_u64(vals[0].as_str()) {
                Some(v) => {
                    scan.minutes = Some(v);
                    Ok(scan)
                },
                None => Err(ParseError::ValueValidation),
            }
        },
    }
}

fn resolve_exec(p: Cursor) -> (r: Result<(Scan, bool, bool), ParseError>)
    ensures
        match resolve(p@) {
            Ok(scan) => r matches Ok(x) && x.0@ == scan && x.1 == p.taken && x.2 == p.trailing,
            Err(e) => r matches Err(x) && x == e,
        },
{
    let Cursor { scan, pending, taken, trailing } = p;
    match pending {
        Some((slot, vals)) => match react_exec(scan, slot, vals) {
            Ok(next) => Ok((next, taken, trailing)),
            Err(e) => Err(e),
        },
        None => Ok((scan, taken, trailing)),
    }
}

fn named_exec(p: Cursor, slot: Slot, attached: Option<String>) -> (r: Result<Cursor, ParseError>)
    ensures
        agrees(
            r,
            named(
                p@,
                slot,
                match attached {
                    Some(v) => Some(v@),
                    None => None,
                },
            ),
        ),
{
    let (scan, taken, trailing) = match resolve_exec(p) {
        Ok(x) => x,
        Err(e) => {
            return Err(e);
        },
    };
    if slot_takes_value(slot) {
        match attached {
            Some(v) => {
                let mut vals: Vec<String> = Vec::new();
                vals.push(v);
                assert(views(vals@) =~= seq![v@]);
                match react_exec(scan, slot, vals) {
                    Ok(next) => Ok(Cursor { scan: next, pending: None, taken, trailing }),
                    Err(e) => Err(e),
                }
            },
            None => {
                let vals: Vec<String> = Vec::new();
                assert(views(vals@) =~= Seq::<Seq<char>>::empty());
                Ok(Cursor { scan, pending: Some((slot, vals)), taken, trailing })
            },
        }
    } else {
        let vals: Vec<String> = Vec::new();
        assert(views(vals@) =~= Seq::<Seq<char>>::empty());
        match react_exec(scan, slot, vals) {
            Ok(next) => Ok(Cursor { scan: next, pending: None, taken, trailing }),
            Err(e) => Err(e),
        }
    }
}

/// The place of the first `=` from `from` on, or the length.
fn find_equals(t: &Vec<char>, from: usize) -> (r: usize)
    requires
        from <= t.len(),
    ensures
        r == equals_at(t@, from as int),
        from <= r <= t.len(),
{
    let mut k: usize = from;
    while k < t.len() && t[k] != '='
        invariant
            from <= k <= t.len(),
            equals_at(t@, from as int) == equals_at(t@, k as int),
        decreases t.len() - k,
    {
        k += 1;
    }
    k
}

fn long_exec(verb: Verb, p: Cursor, t: &Vec<char>) -> (r: Result<Cursor, ParseError>)
    requires
        is_long(t@),
    ensures
        agrees(r, long_flag(verb, p@, t@)),
{
    let k = find_equals(t, 2);
    let name = slice_chars(t, 2, k);
    match find_long(verb, &name) {
        None => Err(ParseError::UnknownArgument),
        Some(slot) => {
            if k < t.len() {
                if !slot_takes_value(slot) {
                    return Err(ParseError::TooManyValues);
                }
                let value = slice_chars(t, k + 1, t.len());
                named_exec(p, slot, Some(string_of(&value)))
            } else {
                named_exec(p, slot, None)
            }
        },
    }
}

fn short_exec(verb: Verb, p: Cursor, t: &Vec<char>) -> (r: Result<Cursor, ParseError>)
    requires
        is_short(t@),
    ensures
        agrees(r, short_flags(verb, p@, t@, 1)),
{
    let ghost goal = short_flags(verb, p@, t@, 1);
    let mut cur = p;
    let mut k: usize = 1;
    while k < t.len()
        invariant
            1 <= k <= t.len(),
            goal == short_flags(verb, p@, t@, 1),
            goal == short_flags(verb, cur@, t@, k as int),
        decreases t.len() - k,
    {
        match find_short(verb, t[k]) {
            None => {
                return Err(ParseError::UnknownArgument);
            },
            Some(slot) => {
                if slot_takes_value(slot) {
                    if k + 1 == t.len() {
                        return named_exec(cur, slot, None);
                    }
                    let from = if t[k + 1] == '=' {
                        k + 2
                    } else {
                        k + 1
                    };
                    let value = slice_chars(t, from, t.len());
                    return named_exec(cur, slot, Some(string_of(&value)));
                }
                match named_exec(cur, slot, None) {
                    Ok(next) => {
                        cur = next;
                    },
                    Err(e) => {
                        return Err(e);
                    },
                }
            },
        }
        k += 1;
    }
    Ok(cur)
}

fn is_awaiting(p: &Cursor) -> (r: bool)
    ensures
        r == awaiting(p@),
{
    match &p.pending {
        Some((slot, vals)) => match slot {
            Slot::Todo => true,
            Slot::Priority => vals.len() == 0,
            _ => false,
        },
        None => false,
    }
}

fn is_gathering(p: &Cursor, slot: Slot) -> (r: bool)
    ensures
        r == gathering(p@, slot),
{
    match &p.pending {
        Some((pending, _)) => *pending == slot,
        None => false,
    }
}

fn gather(p: Cursor, t: &str) -> (r: Cursor)
    ensures
        r@ == gathered(p@, t@),
{
    let Cursor { scan, pending, taken, trailing } = p;
    match pending {
        Some((slot, vals)) => {
            let mut vals = vals;
            let word = t.to_owned();
            proof {
                lemma_views_push(vals@, word);
            }
            vals.push(word);
            Cursor { scan, pending: Some((slot, vals)), taken, trailing }
        },
        None => Cursor { scan, pending: None, taken, trailing },
    }
}

fn positional_exec(verb: Verb, p: Cursor, t: &str) -> (r: Result<Cursor, ParseError>)
    ensures
        agrees(r, positional(verb, p@, t@)),
{
    match find_operand(verb) {
        None => Err(ParseError::UnknownArgument),
        Some(slot) => {
            let single = match slot {
                Slot::Id | Slot::Minutes => true,
                _ => false,
            };
            if single && p.taken {
                return Err(ParseError::UnknownArgument);
            }
            if !single && is_gathering(&p, slot) {
                return Ok(gather(p, t));
            }
            match resolve_exec(p) {
                Ok((scan, taken, trailing)) => {
                    let mut vals: Vec<String> = Vec::new();
                    vals.push(t.to_owned());
                    assert(views(vals@) =~= seq![t@]);
                    Ok(Cursor { scan, pending: Some((slot, vals)), taken: taken || single, trailing })
                },
                Err(e) => Err(e),
            }
        },
    }
}

fn step_exec(verb: Verb, p: Cursor, tok: &str) -> (r: Result<Cursor, ParseError>)
    ensures
        agrees(r, step(verb, p@, tok@)),
{
    if p.trailing {
        return positional_exec(verb, p, tok);
    }
    let t = chars_of(tok);
    if t.len() == 2 && t[0] == '-' && t[1] == '-' {
        assert(t@ =~= seq!['-', '-']);
        let Cursor { scan, pending, taken, trailing } = p;
        Ok(Cursor { scan, pending, taken, trailing: true })
    } else if t.len() > 2 && t[0] == '-' && t[1] == '-' {
        long_exec(verb, p, &t)
    } else if t.len() >= 2 && t[0] == '-' && t[1] != '-' {
        short_exec(verb, p, &t)
    } else if is_awaiting(&p) {
        Ok(gather(p, tok))
    } else {
        positional_exec(verb, p, tok)
    }
}

fn assemble_exec(verb: Verb, scan: Scan) -> (r: Result<Command, ParseError>)
    ensures
        agrees(r, assemble(verb, scan@)),
{
    let Scan { all, date, priority, words, ids, id, minutes } = scan;
    match verb {
        Verb::Interactive => Ok(Command::Interactive {}),
        Verb::Add => Ok(Command::Add { todo: words, priority }),
        Verb::Update => match id {
            Some(id) => Ok(Command::Update { id, todo: words }),
            None => Err(ParseError::MissingRequiredArgument),
        },
        Verb::List => Ok(Command::List { all, date }),
        Verb::Find => Ok(Command::Find { keyword: words, all, date }),
        Verb::Done => Ok(Command::Done { ids }),
        Verb::Undone => Ok(Command::UNDONE { ids }),
        Verb::Remove => Ok(Command::Remove { ids }),
        Verb::Reset => Ok(Command::Reset),
        Verb::Timer => match minutes {
            Some(minutes) => Ok(Command::Timer { minutes }),
            None => Err(ParseError::MissingRequiredArgument),
        },
    }
}

fn subcommand_exec(verb: Verb, args: &Vec<&str>, start: usize) -> (r: Result<Command, ParseError>)
    requires
        start <= args.len(),
    ensures
        agrees(r, subcommand(verb, slice_views(args@), start as int)),
{
    let ghost tokens = slice_views(args@);
    let mut cur = Cursor {
        scan: Scan {
            all: false,
            date: false,
            priority: None,
            words: Vec::new(),
            ids: Vec::new(),
            id: None,
            minutes: None,
        },
        pending: None,
        taken: false,
        trailing: false,
    };
    assert(cur@.scan.words =~= Seq::<Seq<char>>::empty());
    assert(cur@ == outset());
    let mut i: usize = start;
    while i < args.len()
        invariant
            start <= i <= args.len(),
            tokens == slice_views(args@),
            run(verb, tokens, start as int, outset()) == run(verb, tokens, i as int, cur@),
        decreases args.len() - i,
    {
        match step_exec(verb, cur, args[i]) {
            Ok(next) => {
                cur = next;
            },
            Err(e) => {
                return Err(e);
            },
        }
        i += 1;
    }
    match resolve_exec(cur) {
        Ok((scan, _, _)) => assemble_exec(verb, scan),
        Err(e) => Err(e),
    }
}

fn stray_exec(tok: &str) -> (r: ParseError)
    ensures
        r == stray(tok@),
{
    let t = chars_of(tok);
    if t.len() > 2 && t[0] == '-' && t[1] == '-' {
        let k = find_equals(&t, 2);
        let name = slice_chars(&t, 2, k);
        if is_text(&name, "help") {
            if k < t.len() {
                ParseError::TooManyValues
            } else {
                ParseError::DisplayHelp
            }
        } else if is_text(&name, "version") {
            if k < t.len() {
                ParseError::TooManyValues
            } else {
                ParseError::DisplayVersion
            }
        } else {
            ParseError::UnknownArgument
        }
    } else if t.len() >= 2 && t[0] == '-' && t[1] != '-' {
        if t[1] == 'h' {
            ParseError::DisplayHelp
        } else if t[1] == 'V' {
            ParseError::DisplayVersion
        } else {
            ParseError::UnknownArgument
        }
    } else {
        ParseError::InvalidSubcommand
    }
}

fn names_subcommand_exec(tok: &str) -> (r: bool)
    ensures
        r == names_subcommand(tok@),
{
    find_verb(tok).is_some() || same(tok, "help")
}

impl Cli {
    /// Reads a command line. The first token is the program's name; what
    /// follows is at most one subcommand with its arguments.
    pub fn try_parse_from(args: Vec<&str>) -> (r: Result<Cli, ParseError>)
        ensures
            match parsed(slice_views(args@)) {
                Ok(c) => r matches Ok(cli) && cli@ == c,
                Err(e) => r matches Err(x) && x == e,
            },
    {
        let ghost tokens = slice_views(args@);
        let mut trailing = false;
        let mut i: usize = 1;
        while i < args.len()
            invariant
                1 <= i,
                tokens == slice_views(args@),
                parsed(tokens) == top(tokens, i as int, trailing),
            decreases args.len() - i,
        {
            let tok = args[i];
            if trailing {
                return if names_subcommand_exec(tok) {
                    Err(ParseError::UnknownArgument)
                } else {
                    Err(ParseError::InvalidSubcommand)
                };
            }
            match find_verb(tok) {
                Some(verb) => {
                    return match subcommand_exec(verb, &args, i + 1) {
                        Ok(command) => Ok(Cli { command: Some(command) }),
                        Err(e) => Err(e),
                    };
                },
                None => {},
            }
            if same(tok, "help") {
                let e = if i + 1 >= args.len() {
                    ParseError::DisplayHelp
                } else if names_subcommand_exec(args[i + 1]) && i + 2 == args.len() {
                    ParseError::DisplayHelp
                } else {
                    ParseError::InvalidSubcommand
                };
                return Err(e);
            }
            proof {
                reveal_strlit("--");
                assert("--"@ =~= seq!['-', '-']);
            }
            if !same(tok, "--") {
                return Err(stray_exec(tok));
            }
            trailing = true;
            i += 1;
        }
        Ok(Cli { command: None })
    }
}

} // verus!
