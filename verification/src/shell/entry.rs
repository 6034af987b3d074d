//! Where a run of the tracker starts, and how it goes on: once for the
//! command of the command line, or line by line in interactive mode.

use vstd::prelude::*;
use crate::command::{parsed, Cli, Command, CommandView, ParseError};
use crate::database::{find_query, list_query, Statement, StatementView, TodoDatabase};
use crate::operations::{find_todos, list_todos};
use crate::shell::handlers::{
    added,
    handle_add,
    handle_done,
    handle_remove,
    handle_undone,
    handle_update,
    marked,
    removed,
    updated,
    Reply,
    ReplyView,
    RESET_PROMPT,
};
use crate::text::{concat3, join, joined, same, slice_views, split_whitespace, trim, trimmed, words};

verus! {

/// The name under which the tracker is called.
pub const PROGRAM_NAME: &'static str = "tc";

/// How a run of the tracker starts.
#[derive(Debug, PartialEq)]
pub enum Start {
    /// The command line holds this command.
    Run(Command),
    /// The command line holds no command: these words are reported.
    Idle(String),
    /// The command line is not accepted, or asks for help or the version.
    Usage(ParseError),
}

/// A start as a mathematical value.
pub enum StartView {
    Run(CommandView),
    Idle(Seq<char>),
    Usage(ParseError),
}

impl View for Start {
    type V = StartView;

    open spec fn view(&self) -> StartView {
        match self {
            Start::Run(c) => StartView::Run(c@),
            Start::Idle(s) => StartView::Idle(s@),
            Start::Usage(e) => StartView::Usage(*e),
        }
    }
}

/// How the tracker starts on a command line.
pub open spec fn started(tokens: Seq<Seq<char>>) -> StartView {
    match parsed(tokens) {
        Ok(Some(c)) => StartView::Run(c),
        Ok(None) => StartView::Idle("No command provided"@),
        Err(e) => StartView::Usage(e),
    }
}

/// Reads the command line and says how the run starts.
pub fn start(args: Vec<&str>) -> (r: Start)
    ensures
        r@ == started(slice_views(args@)),
{
    match Cli::try_parse_from(args) {
        Ok(cli) => match cli.command {
            Some(command) => Start::Run(command),
            None => Start::Idle("No command provided".to_owned()),
        },
        Err(e) => Start::Usage(e),
    }
}

/// How the tracker runs a command.
#[derive(Debug, PartialEq)]
pub enum Session {
    /// Commands are read line by line, each handed to `interactive_turn`.
    Interactive,
    /// The one command is handed to `handle_non_interactive_command`.
    Single(Command),
}

/// Says how a command is run.
pub fn handle_command(command: Command) -> (r: Session)
    ensures
        command@ is Interactive ==> r is Interactive,
        !(command@ is Interactive) ==> (r matches Session::Single(c) && c@ == command@),
{
    match command {
        Command::Interactive {} => Session::Interactive,
        other => Session::Single(other),
    }
}

/// What a line of interactive mode leads to.
#[derive(Debug, PartialEq)]
pub enum Turn {
    /// The command is carried out; then an empty line is printed and the next line is read.
    Run(Command),
    /// The help is shown; then an empty line is printed and the next line is read.
    Help,
    /// These words are reported and interactive mode ends.
    Stop(String),
}

/// A turn as a mathematical value.
pub enum TurnView {
    Run(CommandView),
    Help,
    Stop(Seq<char>),
}

impl View for Turn {
    type V = TurnView;

    open spec fn view(&self) -> TurnView {
        match self {
            Turn::Run(c) => TurnView::Run(c@),
            Turn::Help => TurnView::Help,
            Turn::Stop(s) => TurnView::Stop(s@),
        }
    }
}

/// The command line that a line of interactive mode stands for: the
/// program's name, then the words of the line.
pub open spec fn line_tokens(line: Seq<char>) -> Seq<Seq<char>> {
    words(PROGRAM_NAME@ + " "@ + trimmed(line))
}

/// What a line of interactive mode leads to. A line that holds a command is
/// run; the line `help` shows the help; every other line ends the mode, as
/// does a line that could not be read.
pub open spec fn turn_of(input: Option<Seq<char>>) -> TurnView {
    match input {
        None => TurnView::Stop("Failed to read input, stopping..."@),
        Some(line) => match parsed(line_tokens(line)) {
            Ok(Some(c)) => TurnView::Run(c),
            Ok(None) => TurnView::Stop("Invalid command provided, stopping..."@),
            Err(_) => if trimmed(line) == "help"@ {
                TurnView::Help
            } else {
                TurnView::Stop("Invalid command provided, stopping..."@)
            },
        },
    }
}

fn borrowed(owned: &Vec<String>) -> (r: Vec<&str>)
    ensures
        slice_views(r@) == crate::text::views(owned@),
{
    let mut out: Vec<&str> = Vec::new();
    let mut i: usize = 0;
    while i < owned.len()
        invariant
            i <= owned.len(),
            slice_views(out@) == crate::text::views(owned@).take(i as int),
        decreases owned.len() - i,
    {
        let ghost before = out@;
        out.push(owned[i].as_str());
        assert(slice_views(out@) =~= slice_views(before).push(owned@[i as int]@));
        assert(crate::text::views(owned@).take(i + 1) =~= crate::text::views(owned@).take(
            i as int,
        ).push(owned@[i as int]@));
        i += 1;
    }
    assert(crate::text::views(owned@).take(i as int) =~= crate::text::views(owned@));
    out
}

/// One turn of interactive mode. `input` holds the line that was read, or
/// nothing if reading failed.
pub fn interactive_turn(input: Option<&str>) -> (r: Turn)
    ensures
        r@ == turn_of(
            match input {
                Some(line) => Some(line@),
                None => None,
            },
        ),
{
    let line = match input {
        Some(line) => line,
        None => {
            return Turn::Stop("Failed to read input, stopping...".to_owned());
        },
    };
    let given = trim(line);
    let formatted = concat3(PROGRAM_NAME, " ", given.as_str());
    let tokens = split_whitespace(formatted.as_str());
    let args = borrowed(&tokens);
    match Cli::try_parse_from(args) {
        Ok(cli) => match cli.command {
            Some(command) => Turn::Run(command),
            None => Turn::Stop("Invalid command provided, stopping...".to_owned()),
        },
        Err(_) => {
            if same(given.as_str(), "help") {
                Turn::Help
            } else {
                Turn::Stop("Invalid command provided, stopping...".to_owned())
            }
        },
    }
}

/// What a command asks for first.
#[derive(Debug, PartialEq)]
pub enum Action {
    /// The store is changed, or the command is refused.
    Reply(Reply),
    /// The query is run, and what it gives is handed to
    /// `sort_and_print_todos` with the keyword and the flag.
    List { query: Statement, keyword: Option<String>, sort_by_date: bool },
    /// The user is asked the question, and the answer is handed to `handle_reset`.
    Confirm { prompt: String },
    /// A countdown of so many minutes runs, each step of it given by `handle_timer`.
    Countdown { minutes: u64 },
    /// Nothing is done.
    Nothing,
}

/// An action as a mathematical value.
pub enum ActionView {
    Reply(ReplyView),
    List { query: StatementView, keyword: Option<Seq<char>>, sort_by_date: bool },
    Confirm { prompt: Seq<char> },
    Countdown { minutes: u64 },
    Nothing,
}

impl View for Action {
    type V = ActionView;

    open spec fn view(&self) -> ActionView {
        match self {
            Action::Reply(r) => ActionView::Reply(r@),
            Action::List { query, keyword, sort_by_date } => ActionView::List {
                query: query@,
                keyword: match keyword {
                    Some(k) => Some(k@),
                    None => None,
                },
                sort_by_date: *sort_by_date,
            },
            Action::Confirm { prompt } => ActionView::Confirm { prompt: prompt@ },
            Action::Countdown { minutes } => ActionView::Countdown { minutes: *minutes },
            Action::Nothing => ActionView::Nothing,
        }
    }
}

/// The reply to a title, which is refused where it is empty.
pub open spec fn titled(title: Seq<char>, reply: ReplyView) -> ReplyView {
    if title.len() == 0 {
        ReplyView::Refuse("Todo cannot be empty"@)
    } else {
        reply
    }
}

/// What a command asks for first, where `now` is the time recorded. The
/// words of a title are joined by single spaces, as are those of a keyword,
/// which is trimmed as well.
pub open spec fn action_of(command: CommandView, now: Seq<char>) -> ActionView {
    match command {
        CommandView::Interactive => ActionView::Nothing,
        CommandView::Add { todo, priority } => ActionView::Reply(
            titled(joined(todo, " "@), added(joined(todo, " "@), priority, now)),
        ),
        CommandView::Update { id, todo } => ActionView::Reply(
            titled(joined(todo, " "@), updated(id, joined(todo, " "@), now)),
        ),
        CommandView::List { all, date } => ActionView::List {
            query: list_query(all),
            keyword: None,
            sort_by_date: date,
        },
        CommandView::Find { keyword, all, date } => ActionView::List {
            query: find_query(trimmed(joined(keyword, " "@)), all),
            keyword: Some(trimmed(joined(keyword, " "@))),
            sort_by_date: date,
        },
        CommandView::Done { ids } => ActionView::Reply(marked(ids, true, now)),
        CommandView::Undone { ids } => ActionView::Reply(marked(ids, false, now)),
        CommandView::Remove { ids } => ActionView::Reply(removed(ids)),
        CommandView::Reset => ActionView::Confirm { prompt: RESET_PROMPT@ },
        CommandView::Timer { minutes } => ActionView::Countdown { minutes },
    }
}

/// What a command asks for first.
pub fn handle_non_interactive_command(tdb: &TodoDatabase, command: Command) -> (r: Action)
    ensures
        exists|now: Seq<char>| r@ == #[trigger] action_of(command@, now),
{
    match command {
        Command::Add { todo, priority } => {
            let title = join(&todo, " ");
            let reply = handle_add(tdb, title.as_str(), priority);
            let action = Action::Reply(reply);
            proof {
                if title@.len() == 0 {
                    assert(action@ == action_of(command@, Seq::empty()));
                } else {
                    let now = choose|now: Seq<char>| reply@ == #[trigger] added(title@, priority, now);
                    assert(action@ == action_of(command@, now));
                }
            }
            action
        },
        Command::Update { id, todo } => {
            let title = join(&todo, " ");
            let reply = handle_update(tdb, id, title.as_str());
            let action = Action::Reply(reply);
            proof {
                if title@.len() == 0 {
                    assert(action@ == action_of(command@, Seq::empty()));
                } else {
                    let now = choose|now: Seq<char>| reply@ == #[trigger] updated(id, title@, now);
                    assert(action@ == action_of(command@, now));
                }
            }
            action
        },
        Command::List { all, date } => {
            let action = Action::List { query: list_todos(tdb, all), keyword: None, sort_by_date: date };
            assert(action@ == action_of(command@, Seq::empty()));
            action
        },
        Command::Find { keyword, all, date } => {
            let joined_keyword = join(&keyword, " ");
            let sought = trim(joined_keyword.as_str());
            let query = find_todos(tdb, sought.as_str(), all);
            let action = Action::List { query, keyword: Some(sought), sort_by_date: date };
            assert(action@ == action_of(command@, Seq::empty()));
            action
        },
        Command::Done { ids } => {
            let reply = handle_done(tdb, &ids);
            let action = Action::Reply(reply);
            proof {
                let now = choose|now: Seq<char>| reply@ == #[trigger] marked(ids@, true, now);
                assert(action@ == action_of(command@, now));
            }
            action
        },
        Command::UNDONE { ids } => {
            let reply = handle_undone(tdb, &ids);
            let action = Action::Reply(reply);
            proof {
                let now = choose|now: Seq<char>| reply@ == #[trigger] marked(ids@, false, now);
                assert(action@ == action_of(command@, now));
            }
            action
        },
        Command::Remove { ids } => {
            let action = Action::Reply(handle_remove(tdb, &ids));
            assert(action@ == action_of(command@, Seq::empty()));
            action
        },
        Command::Reset => {
            let action = Action::Confirm { prompt: RESET_PROMPT.to_owned() };
            assert(action@ == action_of(command@, Seq::empty()));
            action
        },
        Command::Timer { minutes } => {
            let action = Action::Countdown { minutes };
            assert(action@ == action_of(command@, Seq::empty()));
            action
        },
        Command::Interactive {} => {
            let action = Action::Nothing;
            assert(action@ == action_of(command@, Seq::empty()));
            action
        },
    }
}

} // verus!
