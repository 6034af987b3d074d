//! The tracker's plain front end: commands on one todo at a time, and
//! listings with a line for each todo.

use vstd::prelude::*;
use vstd::string::StringExecFns;
use crate::database::{
    mark_statement,
    plan_view,
    remove_statement,
    reset_statement,
    Statement,
    Todo,
    TodoDatabase,
    TodoView,
};
use crate::listing::{
    by_date,
    by_id,
    dated,
    descending_ids,
    group_views,
    todo_views,
    GroupView,
    InvalidDate,
};
use crate::number::{decimal, i32_to_string};
use crate::shell::handlers::{added, updated, Failure, FailureView, Reply, ReplyView};
use crate::text::{concat2, concat3, replace, replaced, same, trim, trimmed};

verus! {

/// A line of a listing.
#[derive(Clone, Debug, PartialEq)]
pub enum Line {
    /// The day of the todos that follow.
    Heading(String),
    /// A todo.
    Entry(String),
    /// An empty line between two days.
    Blank,
}

/// A line as a mathematical value.
pub enum LineView {
    Heading(Seq<char>),
    Entry(Seq<char>),
    Blank,
}

impl View for Line {
    type V = LineView;

    open spec fn view(&self) -> LineView {
        match self {
            Line::Heading(s) => LineView::Heading(s@),
            Line::Entry(s) => LineView::Entry(s@),
            Line::Blank => LineView::Blank,
        }
    }
}

/// The lines as mathematical values.
pub open spec fn lines_view(lines: Seq<Line>) -> Seq<LineView> {
    Seq::new(lines.len(), |i: int| lines[i]@)
}

/// A keyword to set off in the titles, with what is written in its place.
struct Highlight<'a> {
    keyword: &'a str,
    painted: &'a str,
}

/// The reply to `done`, `undone` and `remove` on one todo.
pub open spec fn one_marked(id: i32, done: bool, now: Seq<char>) -> ReplyView {
    ReplyView::Run {
        statements: seq![mark_statement(id, done, now)],
        done: "Marked todo "@ + decimal(id as int) + if done {
            " as done"@
        } else {
            " as undone"@
        },
        failed: FailureView::Abort(
            if done {
                "Failed to mark todo as done"@
            } else {
                "Failed to mark todo as undone"@
            },
        ),
    }
}

/// The reply to `remove` on one todo.
pub open spec fn one_removed(id: i32) -> ReplyView {
    ReplyView::Run {
        statements: seq![remove_statement(id)],
        done: "Removed todo "@ + decimal(id as int),
        failed: FailureView::Abort("Failed to remove todo"@),
    }
}

/// The reply to `reset` once the user has answered: only `yes` removes the todos.
pub open spec fn reset_reply(answer: Seq<char>) -> ReplyView {
    if trimmed(answer) == "yes"@ {
        ReplyView::Run {
            statements: seq![reset_statement()],
            done: "Removed all todos"@,
            failed: FailureView::Abort("Failed to remove all todos"@),
        }
    } else {
        ReplyView::Refuse("Reset aborted"@)
    }
}

/// The mark behind a todo in a listing of all todos.
pub open spec fn mark_of(done: bool, tick: Seq<char>) -> Seq<char> {
    " ["@ + (if done {
        tick
    } else {
        " "@
    }) + "]"@
}

/// The line of a todo: its id in parentheses and its title, and where
/// marks are shown, a tick in brackets if it is done.
pub open spec fn todo_line(todo: TodoView, show_mark: bool) -> Seq<char> {
    "("@ + decimal(todo.id as int) + ") "@ + todo.title + if show_mark {
        mark_of(todo.done, "✔"@)
    } else {
        Seq::empty()
    }
}

/// The line of a todo in which `painted` stands wherever the title holds the keyword.
pub open spec fn highlighted_line(
    todo: TodoView,
    keyword: Seq<char>,
    painted: Seq<char>,
    show_mark: bool,
) -> Seq<char> {
    "("@ + decimal(todo.id as int) + ") "@ + replaced(todo.title, keyword, painted) + if show_mark {
        mark_of(todo.done, "✅"@)
    } else {
        Seq::empty()
    }
}

/// The line of a todo, with or without a keyword set off.
pub open spec fn entry_of(todo: TodoView, highlight: Option<(Seq<char>, Seq<char>)>, show_mark: bool) -> Seq<
    char,
> {
    match highlight {
        Some((keyword, painted)) => highlighted_line(todo, keyword, painted, show_mark),
        None => todo_line(todo, show_mark),
    }
}

/// A line for each todo.
pub open spec fn entries(todos: Seq<TodoView>, highlight: Option<(Seq<char>, Seq<char>)>, show_mark: bool) -> Seq<
    LineView,
> {
    Seq::new(todos.len(), |i: int| LineView::Entry(entry_of(todos[i], highlight, show_mark)))
}

/// The lines of one day: the heading, the todos, and an empty line unless
/// it is the last day.
pub open spec fn day_block(
    group: GroupView,
    highlight: Option<(Seq<char>, Seq<char>)>,
    show_mark: bool,
    last: bool,
) -> Seq<LineView> {
    seq![LineView::Heading("Date: "@ + group.day.text)] + entries(group.todos, highlight, show_mark)
        + if last {
        Seq::empty()
    } else {
        seq![LineView::Blank]
    }
}

/// The lines of the first `n` days.
pub open spec fn day_blocks(
    groups: Seq<GroupView>,
    highlight: Option<(Seq<char>, Seq<char>)>,
    show_mark: bool,
    n: nat,
) -> Seq<LineView>
    decreases n,
{
    if n == 0 {
        Seq::empty()
    } else {
        day_blocks(groups, highlight, show_mark, (n - 1) as nat) + day_block(
            groups[n - 1],
            highlight,
            show_mark,
            n == groups.len(),
        )
    }
}

/// A listing line by line: by date, day after day from the latest; else
/// the todos from the greatest id down.
pub open spec fn listed(
    todos: Seq<Todo>,
    highlight: Option<(Seq<char>, Seq<char>)>,
    show_mark: bool,
    sort_by_date: bool,
) -> Result<Seq<LineView>, InvalidDate> {
    if sort_by_date {
        match dated(todos) {
            Ok(groups) => Ok(day_blocks(groups, highlight, show_mark, groups.len())),
            Err(e) => Err(e),
        }
    } else {
        Ok(entries(descending_ids(todos), highlight, show_mark))
    }
}

/// Adds a todo, unless its title is empty.
pub fn handle_add(tdb: &TodoDatabase, todo: &str) -> (r: Reply)
    ensures
        todo@.len() == 0 ==> r@ == ReplyView::Refuse("Todo cannot be empty"@),
        todo@.len() > 0 ==> exists|now: Seq<char>| r@ == #[trigger] added(todo@, None, now),
{
    crate::shell::handlers::handle_add(tdb, todo, None)
}

/// Gives a todo a new title, unless that title is empty.
pub fn handle_update(tdb: &TodoDatabase, todo_id: i32, todo: &str) -> (r: Reply)
    ensures
        todo@.len() == 0 ==> r@ == ReplyView::Refuse("Todo cannot be empty"@),
        todo@.len() > 0 ==> exists|now: Seq<char>| r@ == #[trigger] updated(todo_id, todo@, now),
{
    crate::shell::handlers::handle_update(tdb, todo_id, todo)
}

fn one(statement: Statement) -> (r: Vec<Statement>)
    ensures
        plan_view(r@) == seq![statement@],
{
    let mut plan: Vec<Statement> = Vec::new();
    plan.push(statement);
    assert(plan_view(plan@) =~= seq![statement@]);
    plan
}

/// Marks a todo as done.
pub fn handle_done(tdb: &TodoDatabase, id: i32) -> (r: Reply)
    ensures
        exists|now: Seq<char>| r@ == #[trigger] one_marked(id, true, now),
{
    let statement = tdb.mark_as_done(id);
    let number = i32_to_string(id);
    let reply = Reply::Run {
        statements: one(statement),
        done: concat3("Marked todo ", number.as_str(), " as done"),
        failed: Failure::Abort("Failed to mark todo as done".to_owned()),
    };
    proof {
        let now = choose|now: Seq<char>| statement@ == #[trigger] mark_statement(id, true, now);
        assert(reply@ == one_marked(id, true, now));
    }
    reply
}

/// Marks a todo as open again.
pub fn handle_undone(tdb: &TodoDatabase, id: i32) -> (r: Reply)
    ensures
        exists|now: Seq<char>| r@ == #[trigger] one_marked(id, false, now),
{
    let statement = tdb.mark_as_undone(id);
    let number = i32_to_string(id);
    let reply = Reply::Run {
        statements: one(statement),
        done: concat3("Marked todo ", number.as_str(), " as undone"),
        failed: Failure::Abort("Failed to mark todo as undone".to_owned()),
    };
    proof {
        let now = choose|now: Seq<char>| statement@ == #[trigger] mark_statement(id, false, now);
        assert(reply@ == one_marked(id, false, now));
    }
    reply
}

/// Removes a todo.
pub fn handle_remove(tdb: &TodoDatabase, id: i32) -> (r: Reply)
    ensures
        r@ == one_removed(id),
{
    let number = i32_to_string(id);
    Reply::Run {
        statements: one(tdb.remove_todo(id)),
        done: concat2("Removed todo ", number.as_str()),
        failed: Failure::Abort("Failed to remove todo".to_owned()),
    }
}

/// Removes every todo if the user's answer is `yes`.
pub fn handle_reset(tdb: &TodoDatabase, answer: &str) -> (r: Reply)
    ensures
        r@ == reset_reply(answer@),
{
    let given = trim(answer);
    if !same(given.as_str(), "yes") {
        return Reply::Refuse("Reset aborted".to_owned());
    }
    Reply::Run {
        statements: one(tdb.reset()),
        done: "Removed all todos".to_owned(),
        failed: Failure::Abort("Failed to remove all todos".to_owned()),
    }
}

fn push_mark(line: &mut String, done: bool, tick: &str)
    ensures
        final(line)@ == old(line)@ + mark_of(done, tick@),
{
    line.append(" [");
    if done {
        line.append(tick);
    } else {
        line.append(" ");
    }
    line.append("]");
    assert(line@ =~= old(line)@ + mark_of(done, tick@));
}

/// The line of a todo.
pub fn print_todo(todo: &Todo, show_mark: bool) -> (r: String)
    ensures
        r@ == todo_line(todo@, show_mark),
{
    let number = i32_to_string(todo.id);
    let mut line = concat3("(", number.as_str(), ") ");
    line.append(todo.title.as_str());
    if show_mark {
        push_mark(&mut line, todo.done, "✔");
    }
    assert(line@ =~= todo_line(todo@, show_mark));
    line
}

/// The line of a todo in which `painted` stands wherever the title holds the keyword.
pub fn print_todo_highlightened(todo: &Todo, keyword: &str, painted: &str, show_mark: bool) -> (r:
    String)
    ensures
        r@ == highlighted_line(todo@, keyword@, painted@, show_mark),
{
    let number = i32_to_string(todo.id);
    let title = replace(todo.title.as_str(), keyword, painted);
    let mut line = concat3("(", number.as_str(), ") ");
    line.append(title.as_str());
    if show_mark {
        push_mark(&mut line, todo.done, "✅");
    }
    assert(line@ =~= highlighted_line(todo@, keyword@, painted@, show_mark));
    line
}

/// The highlight as a mathematical value.
spec fn highlight_view(highlight: Option<Highlight>) -> Option<(Seq<char>, Seq<char>)> {
    match highlight {
        Some(h) => Some((h.keyword@, h.painted@)),
        None => None,
    }
}

fn push_entries(lines: &mut Vec<Line>, todos: &Vec<Todo>, highlight: &Option<Highlight>, show_mark: bool)
    ensures
        lines_view(final(lines)@) == lines_view(old(lines)@) + entries(
            todo_views(todos@),
            highlight_view(*highlight),
            show_mark,
        ),
{
    let ghost goal = entries(todo_views(todos@), highlight_view(*highlight), show_mark);
    let mut i: usize = 0;
    assert(lines_view(lines@) =~= lines_view(old(lines)@) + goal.take(0));
    while i < todos.len()
        invariant
            i <= todos.len(),
            goal == entries(todo_views(todos@), highlight_view(*highlight), show_mark),
            lines_view(lines@) == lines_view(old(lines)@) + goal.take(i as int),
        decreases todos.len() - i,
    {
        let text = match highlight {
            Some(h) => print_todo_highlightened(&todos[i], h.keyword, h.painted, show_mark),
            None => print_todo(&todos[i], show_mark),
        };
        let ghost before = lines@;
        let line = Line::Entry(text);
        lines.push(line);
        assert(lines_view(lines@) =~= lines_view(before).push(line@));
        assert(goal.take(i + 1) =~= goal.take(i as int).push(goal[i as int]));
        assert(lines_view(lines@) =~= lines_view(old(lines)@) + goal.take(i + 1));
        i += 1;
    }
    assert(goal.take(i as int) =~= goal);
}

fn listing(todos: &Vec<Todo>, highlight: Option<Highlight>, show_mark: bool, sort_by_date: bool) -> (r:
    Result<Vec<Line>, InvalidDate>)
    ensures
        match listed(todos@, highlight_view(highlight), show_mark, sort_by_date) {
            Ok(lines) => r matches Ok(x) && lines_view(x@) == lines,
            Err(_) => r is Err,
        },
{
    let ghost marked = highlight_view(highlight);
    let mut lines: Vec<Line> = Vec::new();
    if !sort_by_date {
        let sorted = by_id(todos);
        push_entries(&mut lines, &sorted, &highlight, show_mark);
        assert(lines_view(lines@) =~= entries(descending_ids(todos@), marked, show_mark));
        return Ok(lines);
    }
    let groups = match by_date(todos) {
        Ok(groups) => groups,
        Err(e) => {
            return Err(e);
        },
    };
    let total = groups.len();
    let ghost days = group_views(groups@);
    let mut i: usize = 0;
    assert(lines_view(lines@) =~= day_blocks(days, marked, show_mark, 0));
    while i < total
        invariant
            i <= total,
            total == groups.len(),
            days == group_views(groups@),
            marked == highlight_view(highlight),
            lines_view(lines@) == day_blocks(days, marked, show_mark, i as nat),
        decreases total - i,
    {
        let group = &groups[i];
        let ghost start = lines@;
        let heading = Line::Heading(concat2("Date: ", group.day.text.as_str()));
        lines.push(heading);
        assert(lines_view(lines@) =~= lines_view(start).push(heading@));
        push_entries(&mut lines, &group.todos, &highlight, show_mark);
        if i != total - 1 {
            let ghost held = lines@;
            lines.push(Line::Blank);
            assert(lines_view(lines@) =~= lines_view(held).push(LineView::Blank));
        }
        assert(lines_view(lines@) =~= lines_view(start) + day_block(
            days[i as int],
            marked,
            show_mark,
            i + 1 == total,
        ));
        i += 1;
    }
    Ok(lines)
}

/// The listing of the todos that were read, a line for each. Marks are
/// shown where the listing holds all todos, done or not.
pub fn handle_list(todos: &Vec<Todo>, include_all: bool, sort_by_date: bool) -> (r: Result<
    Vec<Line>,
    InvalidDate,
>)
    ensures
        match listed(todos@, None, include_all, sort_by_date) {
            Ok(lines) => r matches Ok(x) && lines_view(x@) == lines,
            Err(_) => r is Err,
        },
{
    listing(todos, None, include_all, sort_by_date)
}

/// The listing of the todos that were found for the keyword, a line for
/// each, with `painted` in the place of the keyword in every title.
pub fn handle_find(
    todos: &Vec<Todo>,
    keyword: &str,
    painted: &str,
    include_all: bool,
    sort_by_date: bool,
) -> (r: Result<Vec<Line>, InvalidDate>)
    ensures
        match listed(todos@, Some((keyword@, painted@)), include_all, sort_by_date) {
            Ok(lines) => r matches Ok(x) && lines_view(x@) == lines,
            Err(_) => r is Err,
        },
{
    listing(todos, Some(Highlight { keyword, painted }), include_all, sort_by_date)
}

} // verus!
