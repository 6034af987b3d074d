//! What each command does. A handler changes nothing itself: it yields the
//! statements for the store and the words for the user, and says what follows
//! if the store fails.

use vstd::prelude::*;
use crate::database::{
    add_plan,
    plan_view,
    reset_statement,
    update_statement,
    Statement,
    StatementView,
    Todo,
    TodoDatabase,
    TodoView,
};
use crate::listing::{
    by_date,
    by_id,
    dated,
    descending_ids,
    group_views,
    todo_views,
    GroupView,
    InvalidDate,
};
use crate::number::{bracket, bracketed, decimal, digits, i32_to_string, u64_to_string};
use crate::operations::{
    add_todo,
    mark_plan,
    mark_todo_as_done,
    mark_todo_as_undone,
    remove_plan,
    remove_todos_by_ids,
    reset_todo,
    update_todo,
};
use crate::text::{concat2, concat3, contains, lines, lines_of, occurs, same, trim, trimmed, views};
use vstd::string::StringExecFns;
use vstd::utf8::encode_utf8;

verus! {

/// What happens when the store fails on a statement.
#[derive(Clone, Debug, PartialEq)]
pub enum Failure {
    /// The program stops with these words.
    Abort(String),
    /// Nothing is said.
    Silent,
    /// These words are reported.
    Report(String),
}

/// What a handler asks for.
#[derive(Clone, Debug, PartialEq)]
pub enum Reply {
    /// The store is left alone, and these words are reported.
    Refuse(String),
    /// The statements run in order. Once all have run, `done` is reported;
    /// if one fails, `failed` says what happens.
    Run { statements: Vec<Statement>, done: String, failed: Failure },
}

/// A failure as a mathematical value.
pub enum FailureView {
    Abort(Seq<char>),
    Silent,
    Report(Seq<char>),
}

/// A reply as a mathematical value.
pub enum ReplyView {
    Refuse(Seq<char>),
    Run { statements: Seq<StatementView>, done: Seq<char>, failed: FailureView },
}

impl View for Failure {
    type V = FailureView;

    open spec fn view(&self) -> FailureView {
        match self {
            Failure::Abort(s) => FailureView::Abort(s@),
            Failure::Silent => FailureView::Silent,
            Failure::Report(s) => FailureView::Report(s@),
        }
    }
}

impl View for Reply {
    type V = ReplyView;

    open spec fn view(&self) -> ReplyView {
        match self {
            Reply::Refuse(s) => ReplyView::Refuse(s@),
            Reply::Run { statements, done, failed } => ReplyView::Run {
                statements: plan_view(statements@),
                done: done@,
                failed: failed@,
            },
        }
    }
}

/// The question before every todo is removed.
pub const RESET_PROMPT: &'static str = "Are you sure you want to remove all todos(yes/no)?: ";

/// The reply to `add` with a title that is not empty.
pub open spec fn added(todo: Seq<char>, priority: Option<i32>, now: Seq<char>) -> ReplyView {
    ReplyView::Run {
        statements: add_plan(todo, priority, now),
        done: "Added task: "@ + todo,
        failed: FailureView::Abort("Failed to add todo"@),
    }
}

/// The reply to `update` with a title that is not empty.
pub open spec fn updated(id: i32, todo: Seq<char>, now: Seq<char>) -> ReplyView {
    ReplyView::Run {
        statements: seq![update_statement(id, todo, now)],
        done: "Updated task: "@ + todo,
        failed: FailureView::Abort("Failed to update todo"@),
    }
}

/// The reply to `done` and to `undone`.
pub open spec fn marked(ids: Seq<i32>, done: bool, now: Seq<char>) -> ReplyView {
    ReplyView::Run {
        statements: mark_plan(ids, done, now),
        done: "Marked todo "@ + bracketed(ids) + if done {
            " as done"@
        } else {
            " as undone"@
        },
        failed: FailureView::Silent,
    }
}

/// The reply to `remove`.
pub open spec fn removed(ids: Seq<i32>) -> ReplyView {
    ReplyView::Run {
        statements: remove_plan(ids),
        done: "Removed todo "@ + bracketed(ids),
        failed: FailureView::Silent,
    }
}

/// The reply to `reset` once the user has answered: only `yes`, with or
/// without whitespace round it, removes the todos.
pub open spec fn reset_reply(answer: Seq<char>) -> ReplyView {
    if trimmed(answer) == "yes"@ {
        ReplyView::Run {
            statements: seq![reset_statement()],
            done: "Removed all todos"@,
            failed: FailureView::Report("Failed to remove all todos"@),
        }
    } else {
        ReplyView::Refuse("Reset aborted"@)
    }
}

/// Adds a todo, unless its title is empty.
pub fn handle_add(tdb: &TodoDatabase, todo: &str, priority: Option<i32>) -> (r: Reply)
    ensures
        todo@.len() == 0 ==> r@ == ReplyView::Refuse("Todo cannot be empty"@),
        todo@.len() > 0 ==> exists|now: Seq<char>| r@ == #[trigger] added(todo@, priority, now),
{
    if todo.is_empty() {
        return Reply::Refuse("Todo cannot be empty".to_owned());
    }
    let statements = add_todo(tdb, todo, priority);
    let reply = Reply::Run {
        statements,
        done: concat2("Added task: ", todo),
        failed: Failure::Abort("Failed to add todo".to_owned()),
    };
    proof {
        let now = choose|now: Seq<char>| plan_view(statements@) == #[trigger] add_plan(todo@, priority, now);
        assert(reply@ == added(todo@, priority, now));
    }
    reply
}

/// Gives a todo a new title, unless that title is empty.
pub fn handle_update(tdb: &TodoDatabase, todo_id: i32, todo: &str) -> (r: Reply)
    ensures
        todo@.len() == 0 ==> r@ == ReplyView::Refuse("Todo cannot be empty"@),
        todo@.len() > 0 ==> exists|now: Seq<char>| r@ == #[trigger] updated(todo_id, todo@, now),
{
    if todo.is_empty() {
        return Reply::Refuse("Todo cannot be empty".to_owned());
    }
    let statement = update_todo(tdb, todo_id, todo);
    let mut statements: Vec<Statement> = Vec::new();
    statements.push(statement);
    let reply = Reply::Run {
        statements,
        done: concat2("Updated task: ", todo),
        failed: Failure::Abort("Failed to update todo".to_owned()),
    };
    proof {
        let now = choose|now: Seq<char>| statement@ == #[trigger] update_statement(todo_id, todo@, now);
        assert(plan_view(statements@) =~= seq![statement@]);
        assert(reply@ == updated(todo_id, todo@, now));
    }
    reply
}

/// Marks todos as done.
pub fn handle_done(tdb: &TodoDatabase, ids: &Vec<i32>) -> (r: Reply)
    ensures
        exists|now: Seq<char>| r@ == #[trigger] marked(ids@, true, now),
{
    let statements = mark_todo_as_done(tdb, ids);
    let listed = bracket(ids);
    let reply = Reply::Run {
        statements,
        done: concat3("Marked todo ", listed.as_str(), " as done"),
        failed: Failure::Silent,
    };
    proof {
        let now = choose|now: Seq<char>| plan_view(statements@) == #[trigger] mark_plan(ids@, true, now);
        assert(reply@ == marked(ids@, true, now));
    }
    reply
}

/// Marks todos as open again.
pub fn handle_undone(tdb: &TodoDatabase, ids: &Vec<i32>) -> (r: Reply)
    ensures
        exists|now: Seq<char>| r@ == #[trigger] marked(ids@, false, now),
{
    let statements = mark_todo_as_undone(tdb, ids);
    let listed = bracket(ids);
    let reply = Reply::Run {
        statements,
        done: concat3("Marked todo ", listed.as_str(), " as undone"),
        failed: Failure::Silent,
    };
    proof {
        let now = choose|now: Seq<char>| plan_view(statements@) == #[trigger] mark_plan(ids@, false, now);
        assert(reply@ == marked(ids@, false, now));
    }
    reply
}

/// Removes todos.
pub fn handle_remove(tdb: &TodoDatabase, ids: &Vec<i32>) -> (r: Reply)
    ensures
        r@ == removed(ids@),
{
    let statements = remove_todos_by_ids(tdb, ids);
    let listed = bracket(ids);
    Reply::Run { statements, done: concat2("Removed todo ", listed.as_str()), failed: Failure::Silent }
}

/// Removes every todo if the user's answer to `RESET_PROMPT` is `yes`.
pub fn handle_reset(tdb: &TodoDatabase, answer: &str) -> (r: Reply)
    ensures
        r@ == reset_reply(answer@),
{
    let given = trim(answer);
    if !same(given.as_str(), "yes") {
        return Reply::Refuse("Reset aborted".to_owned());
    }
    let statement = reset_todo(tdb);
    let mut statements: Vec<Statement> = Vec::new();
    statements.push(statement);
    assert(plan_view(statements@) =~= seq![statement@]);
    Reply::Run {
        statements,
        done: "Removed all todos".to_owned(),
        failed: Failure::Report("Failed to remove all todos".to_owned()),
    }
}

/// A cell of a table.
#[derive(Clone, Debug, PartialEq)]
pub struct Cell {
    pub text: String,
    /// Whether the cell is set off from the others by colour.
    pub highlighted: bool,
}

/// A cell as a mathematical value.
pub struct CellView {
    pub text: Seq<char>,
    pub highlighted: bool,
}

impl View for Cell {
    type V = CellView;

    open spec fn view(&self) -> CellView {
        CellView { text: self.text@, highlighted: self.highlighted }
    }
}

/// A part of a listing: a table, under a heading where the listing goes by date.
#[derive(Clone, Debug, PartialEq)]
pub struct Section {
    pub heading: Option<String>,
    /// The rows of the table, the first of which names the columns.
    pub rows: Vec<Vec<Cell>>,
    /// Whether an empty line follows the table.
    pub gap: bool,
}

/// A section as a mathematical value.
pub struct SectionView {
    pub heading: Option<Seq<char>>,
    pub rows: Seq<Seq<CellView>>,
    pub gap: bool,
}

/// The cells of a row as mathematical values.
pub open spec fn row_view(row: Seq<Cell>) -> Seq<CellView> {
    Seq::new(row.len(), |i: int| row[i]@)
}

/// The rows of a table as mathematical values.
pub open spec fn rows_view(rows: Seq<Vec<Cell>>) -> Seq<Seq<CellView>> {
    Seq::new(rows.len(), |i: int| row_view(rows[i]@))
}

impl View for Section {
    type V = SectionView;

    open spec fn view(&self) -> SectionView {
        SectionView {
            heading: match self.heading {
                Some(h) => Some(h@),
                None => None,
            },
            rows: rows_view(self.rows@),
            gap: self.gap,
        }
    }
}

/// The sections of a listing as mathematical values.
pub open spec fn sections_view(sections: Seq<Section>) -> Seq<SectionView> {
    Seq::new(sections.len(), |i: int| sections[i]@)
}

/// A cell that is not set off.
pub open spec fn plain(text: Seq<char>) -> CellView {
    CellView { text, highlighted: false }
}

/// The row that names the columns.
pub open spec fn header_row() -> Seq<CellView> {
    seq![plain("ID"@), plain("Title"@), plain("Priority"@), plain("Done"@)]
}

/// The row of a todo: its id, its title, its priority, and `X` if it is
/// done. The title is set off where a keyword is given and stands in it.
pub open spec fn todo_row(todo: TodoView, keyword: Option<Seq<char>>) -> Seq<CellView> {
    seq![
        plain(decimal(todo.id as int)),
        CellView {
            text: todo.title,
            highlighted: match keyword {
                Some(k) => occurs(todo.title, k),
                None => false,
            },
        },
        plain(decimal(todo.priority as int)),
        plain(
            if todo.done {
                "X"@
            } else {
                ""@
            },
        ),
    ]
}

/// The table of the todos: the header, then a row for each.
pub open spec fn table(todos: Seq<TodoView>, keyword: Option<Seq<char>>) -> Seq<Seq<CellView>> {
    seq![header_row()] + Seq::new(todos.len(), |i: int| todo_row(todos[i], keyword))
}

/// The section of one day: its heading, its table, and whether another follows.
pub open spec fn day_section(group: GroupView, keyword: Option<Seq<char>>, last: bool) -> SectionView {
    SectionView {
        heading: Some("Date: "@ + group.day.text),
        rows: table(group.todos, keyword),
        gap: !last,
    }
}

/// The sections of a listing by date: one for each day.
pub open spec fn day_sections(groups: Seq<GroupView>, keyword: Option<Seq<char>>) -> Seq<
    SectionView,
> {
    Seq::new(groups.len(), |i: int| day_section(groups[i], keyword, i == groups.len() - 1))
}

/// A listing: by date, a section for each day, the latest first; else one
/// table of the todos from the greatest id down.
pub open spec fn listed(todos: Seq<Todo>, keyword: Option<Seq<char>>, sort_by_date: bool) -> Result<
    Seq<SectionView>,
    InvalidDate,
> {
    if sort_by_date {
        match dated(todos) {
            Ok(groups) => Ok(day_sections(groups, keyword)),
            Err(e) => Err(e),
        }
    } else {
        Ok(seq![SectionView { heading: None, rows: table(descending_ids(todos), keyword), gap: false }])
    }
}

fn plain_cell(text: String) -> (r: Cell)
    ensures
        r@ == plain(text@),
{
    Cell { text, highlighted: false }
}

/// The keyword as a mathematical value.
pub open spec fn keyword_view(keyword: Option<&str>) -> Option<Seq<char>> {
    match keyword {
        Some(k) => Some(k@),
        None => None,
    }
}

/// The table of the todos, in the order given: the header, then a row for
/// each todo. A title is set off where the keyword stands in it.
pub fn print_todos(todos: &Vec<Todo>, keyword: Option<&str>) -> (r: Vec<Vec<Cell>>)
    ensures
        rows_view(r@) == table(todo_views(todos@), keyword_view(keyword)),
{
    let ghost goal = table(todo_views(todos@), keyword_view(keyword));
    let mut header: Vec<Cell> = Vec::new();
    header.push(plain_cell("ID".to_owned()));
    header.push(plain_cell("Title".to_owned()));
    header.push(plain_cell("Priority".to_owned()));
    header.push(plain_cell("Done".to_owned()));
    assert(row_view(header@) =~= header_row());
    let mut rows: Vec<Vec<Cell>> = Vec::new();
    rows.push(header);
    assert(rows_view(rows@) =~= goal.take(1));
    let mut i: usize = 0;
    while i < todos.len()
        invariant
            i <= todos.len(),
            goal == table(todo_views(todos@), keyword_view(keyword)),
            rows_view(rows@) == goal.take(i + 1),
        decreases todos.len() - i,
    {
        let todo = &todos[i];
        let highlighted = match keyword {
            Some(k) => contains(todo.title.as_str(), k),
            None => false,
        };
        let mark = if todo.done {
            "X"
        } else {
            ""
        };
        let mut row: Vec<Cell> = Vec::new();
        row.push(plain_cell(i32_to_string(todo.id)));
        row.push(Cell { text: todo.title.clone(), highlighted });
        row.push(plain_cell(i32_to_string(todo.priority)));
        row.push(plain_cell(mark.to_owned()));
        assert(row_view(row@) =~= todo_row(todo@, keyword_view(keyword)));
        let ghost before = rows@;
        rows.push(row);
        assert(rows_view(rows@) =~= rows_view(before).push(row_view(row@)));
        assert(goal.take(i + 2) =~= goal.take(i + 1).push(goal[i + 1]));
        i += 1;
    }
    assert(goal.take(i + 1) =~= goal);
    rows
}

/// The listing of the todos that were read. `Err` where the listing goes by
/// date and a todo's time of creation does not start with a day.
pub fn sort_and_print_todos(todos: &Vec<Todo>, highlight_keyword: Option<&str>, sort_by_date: bool) -> (r:
    Result<Vec<Section>, InvalidDate>)
    ensures
        match listed(todos@, keyword_view(highlight_keyword), sort_by_date) {
            Ok(sections) => r matches Ok(x) && sections_view(x@) == sections,
            Err(_) => r is Err,
        },
{
    let ghost keyword = keyword_view(highlight_keyword);
    let mut sections: Vec<Section> = Vec::new();
    if !sort_by_date {
        let sorted = by_id(todos);
        let section = Section { heading: None, rows: print_todos(&sorted, highlight_keyword), gap: false };
        sections.push(section);
        assert(sections_view(sections@) =~= seq![section@]);
        return Ok(sections);
    }
    let groups = match by_date(todos) {
        Ok(groups) => groups,
        Err(e) => {
            return Err(e);
        },
    };
    let ghost goal = day_sections(group_views(groups@), keyword);
    let total = groups.len();
    let mut i: usize = 0;
    assert(sections_view(sections@) =~= goal.take(0));
    while i < total
        invariant
            i <= total,
            total == groups.len(),
            keyword == keyword_view(highlight_keyword),
            goal == day_sections(group_views(groups@), keyword),
            sections_view(sections@) == goal.take(i as int),
        decreases total - i,
    {
        let group = &groups[i];
        let section = Section {
            heading: Some(concat2("Date: ", group.day.text.as_str())),
            rows: print_todos(&group.todos, highlight_keyword),
            gap: i != total - 1,
        };
        assert(section@ == day_section(group@, keyword, i == total - 1));
        let ghost before = sections@;
        sections.push(section);
        assert(sections_view(sections@) =~= sections_view(before).push(section@));
        assert(goal.take(i + 1) =~= goal.take(i as int).push(goal[i as int]));
        i += 1;
    }
    assert(goal.take(i as int) =~= goal);
    Ok(sections)
}

/// The listing of the todos that the query of `list_todos` gave.
pub fn handle_list(todos: &Vec<Todo>, sort_by_date: bool) -> (r: Result<Vec<Section>, InvalidDate>)
    ensures
        match listed(todos@, None, sort_by_date) {
            Ok(sections) => r matches Ok(x) && sections_view(x@) == sections,
            Err(_) => r is Err,
        },
{
    sort_and_print_todos(todos, None, sort_by_date)
}

/// The listing of the todos that the query of `find_todos` gave for the
/// keyword; the titles that hold it are set off.
pub fn handle_find(todos: &Vec<Todo>, keyword: &str, sort_by_date: bool) -> (r: Result<
    Vec<Section>,
    InvalidDate,
>)
    ensures
        match listed(todos@, Some(keyword@), sort_by_date) {
            Ok(sections) => r matches Ok(x) && sections_view(x@) == sections,
            Err(_) => r is Err,
        },
{
    sort_and_print_todos(todos, Some(keyword), sort_by_date)
}

/// What clears the terminal and puts the cursor at its top before a frame.
pub const CLEAR_SCREEN: &'static str = "\x1B[2J\x1B[H";

/// The title of the alert that ends a countdown.
pub const ALERT_TITLE: &'static str = "todo-cli";

/// The message of the alert that ends a countdown.
pub const ALERT_MESSAGE: &'static str = "Time's up! Did you finish your work?";

/// A number in two digits at least.
pub open spec fn two_digits(n: nat) -> Seq<char> {
    if n < 10 {
        seq!['0'] + digits(n)
    } else {
        digits(n)
    }
}

/// The time left as minutes and seconds, `MM:SS`.
pub open spec fn clock_text(seconds: nat) -> Seq<char> {
    two_digits(seconds / 60) + seq![':'] + two_digits(seconds % 60)
}

/// So many spaces.
pub open spec fn spaces(n: nat) -> Seq<char> {
    Seq::new(n, |i: int| ' ')
}

/// So many empty lines.
pub open spec fn blanks(n: nat) -> Seq<Seq<char>> {
    Seq::new(n, |i: int| Seq::<char>::empty())
}

/// The difference, or 0 where `b` is the greater.
pub open spec fn minus(a: nat, b: nat) -> nat {
    if a >= b {
        (a - b) as nat
    } else {
        0
    }
}

/// The empty lines above a figure of `count` lines that is centred on a
/// terminal of `height` lines.
pub open spec fn above(count: nat, height: nat) -> nat {
    minus(height, count) / 2
}

/// The spaces before each line of a figure whose first line takes `first`
/// bytes, centred on a terminal `width` wide.
pub open spec fn indent(first: nat, width: nat) -> nat {
    minus(width, first) / 2
}

/// The empty lines that fill the terminal below the figure.
pub open spec fn below(count: nat, height: nat) -> nat {
    minus(height, count + above(count, height))
}

/// Each line behind so many spaces.
pub open spec fn indented(lines: Seq<Seq<char>>, by: nat) -> Seq<Seq<char>> {
    Seq::new(lines.len(), |i: int| spaces(by) + lines[i])
}

/// The frame that shows a figure in the middle of the terminal: empty lines
/// above, the figure's lines indented, and empty lines below. `None` where
/// the figure has no line.
pub open spec fn frame(figure: Seq<char>, width: nat, height: nat) -> Option<Seq<Seq<char>>> {
    let lines = lines_of(figure);
    if lines.len() == 0 {
        None
    } else {
        Some(
            blanks(above(lines.len(), height)) + indented(
                lines,
                indent(encode_utf8(lines[0]).len(), width),
            ) + blanks(below(lines.len(), height)),
        )
    }
}

/// A frame fills the terminal from top to bottom; a figure with more lines
/// than the terminal is shown whole.
pub proof fn lemma_frame_fills(figure: Seq<char>, width: nat, height: nat)
    ensures
        frame(figure, width, height) matches Some(rows) ==> rows.len() == if lines_of(figure).len()
            >= height {
            lines_of(figure).len()
        } else {
            height
        },
{
}

/// How many seconds a countdown of so many minutes lasts, where that many fit.
pub fn timer_seconds(minutes: u64) -> (r: Option<u64>)
    ensures
        minutes * 60 <= u64::MAX ==> r == Some((minutes * 60) as u64),
        minutes * 60 > u64::MAX ==> r is None,
{
    if minutes > u64::MAX / 60 {
        None
    } else {
        Some(minutes * 60)
    }
}

fn two_digit_text(n: u64) -> (r: String)
    ensures
        r@ == two_digits(n as nat),
{
    let text = u64_to_string(n);
    if n < 10 {
        let padded = concat2("0", text.as_str());
        proof {
            reveal_strlit("0");
            assert("0"@ =~= seq!['0']);
        }
        padded
    } else {
        text
    }
}

/// The time left, written as minutes and seconds.
pub fn countdown_text(seconds: u64) -> (r: String)
    ensures
        r@ == clock_text(seconds as nat),
{
    let minutes = two_digit_text(seconds / 60);
    let rest = two_digit_text(seconds % 60);
    proof {
        reveal_strlit(":");
        assert(":"@ =~= seq![':']);
    }
    concat3(minutes.as_str(), ":", rest.as_str())
}

fn push_blanks(rows: &mut Vec<String>, n: usize)
    ensures
        views(final(rows)@) == views(old(rows)@) + blanks(n as nat),
{
    let mut i: usize = 0;
    assert(views(rows@) =~= views(old(rows)@) + blanks(0));
    while i < n
        invariant
            i <= n,
            views(rows@) == views(old(rows)@) + blanks(i as nat),
        decreases n - i,
    {
        let ghost before = rows@;
        let line = String::new();
        rows.push(line);
        assert(views(rows@) =~= views(before).push(line@));
        assert(views(rows@) =~= views(old(rows)@) + blanks((i + 1) as nat));
        i += 1;
    }
}

fn spaces_text(n: usize) -> (r: String)
    ensures
        r@ == spaces(n as nat),
{
    let mut out = String::new();
    let mut i: usize = 0;
    assert(out@ =~= spaces(0));
    while i < n
        invariant
            i <= n,
            out@ == spaces(i as nat),
        decreases n - i,
    {
        out.push(' ');
        assert(out@ =~= spaces((i + 1) as nat));
        i += 1;
    }
    out
}

/// The frame that shows a figure in the middle of a terminal of the given
/// size. `None` where the figure has no line.
pub fn timer_frame(figure: &str, width: u16, height: u16) -> (r: Option<Vec<String>>)
    ensures
        match frame(figure@, width as nat, height as nat) {
            Some(rows) => r matches Some(x) && views(x@) == rows,
            None => r is None,
        },
{
    let shown = lines(figure);
    let count = shown.len();
    if count == 0 {
        return None;
    }
    let term_width = width as usize;
    let term_height = height as usize;
    let over = if count >= term_height {
        0
    } else {
        (term_height - count) / 2
    };
    let first = shown[0].as_str().as_bytes().len();
    let by = if first >= term_width {
        0
    } else {
        (term_width - first) / 2
    };
    let under = if count >= term_height {
        0
    } else {
        term_height - (count + over)
    };
    assert(over == above(count as nat, height as nat));
    assert(by == indent(encode_utf8(views(shown@)[0]).len(), width as nat));
    assert(under == below(count as nat, height as nat));
    let pad = spaces_text(by);
    let mut rows: Vec<String> = Vec::new();
    push_blanks(&mut rows, over);
    assert(views(rows@) =~= blanks(over as nat));
    let ghost middle = indented(views(shown@), by as nat);
    let mut i: usize = 0;
    while i < count
        invariant
            i <= count,
            count == shown.len(),
            pad@ == spaces(by as nat),
            middle == indented(views(shown@), by as nat),
            views(rows@) == blanks(over as nat) + middle.take(i as int),
        decreases count - i,
    {
        let row = concat2(pad.as_str(), shown[i].as_str());
        let ghost before = rows@;
        rows.push(row);
        assert(views(rows@) =~= views(before).push(row@));
        assert(middle.take(i + 1) =~= middle.take(i as int).push(middle[i as int]));
        assert(views(rows@) =~= blanks(over as nat) + middle.take(i + 1));
        i += 1;
    }
    assert(middle.take(i as int) =~= middle);
    push_blanks(&mut rows, under);
    Some(rows)
}

/// What a countdown does next.
#[derive(Clone, Debug, PartialEq)]
pub enum TimerStep {
    /// After `CLEAR_SCREEN` these lines are shown, and a second is waited.
    Show(Vec<String>),
    /// The time is up: an alert with this title and this message is raised.
    Finish { title: String, message: String },
}

/// A step of a countdown as a mathematical value.
pub enum TimerStepView {
    Show(Seq<Seq<char>>),
    Finish { title: Seq<char>, message: Seq<char> },
}

impl View for TimerStep {
    type V = TimerStepView;

    open spec fn view(&self) -> TimerStepView {
        match self {
            TimerStep::Show(rows) => TimerStepView::Show(views(rows@)),
            TimerStep::Finish { title, message } => TimerStepView::Finish {
                title: title@,
                message: message@,
            },
        }
    }
}

/// What `figlet_rs::FIGfont::standard` makes of a text with `convert`,
/// written out by `to_string`: the text in large letters, line by line.
/// `None` where the font is not read or holds none of the text's characters.
pub uninterp spec fn banner_of(text: Seq<char>) -> Option<Seq<char>>;

/// `FIGfont::standard`, `FIGfont::convert` and the figure's `to_string`.
#[verifier::external_body]
fn banner(text: &str) -> (r: Option<String>)
    ensures
        match banner_of(text@) {
            Some(figure) => r matches Some(x) && x@ == figure,
            None => r is None,
        },
{
    match figlet_rs::FIGfont::standard() {
        Ok(font) => match font.convert(text) {
            Some(figure) => Some(figure.to_string()),
            None => None,
        },
        Err(_) => None,
    }
}

/// The next step of a countdown. `left` holds the whole seconds that are
/// left, or nothing once the time is up; `figure` is the time left in large
/// letters, if it could be drawn. `None` where there is time left and
/// nothing to show it with.
pub open spec fn timer_turn(left: Option<u64>, figure: Option<Seq<char>>, width: nat, height: nat) -> Option<
    TimerStepView,
> {
    match left {
        None => Some(TimerStepView::Finish { title: ALERT_TITLE@, message: ALERT_MESSAGE@ }),
        Some(_) => match figure {
            Some(f) => match frame(f, width, height) {
                Some(rows) => Some(TimerStepView::Show(rows)),
                None => None,
            },
            None => None,
        },
    }
}

/// The next step of a countdown, from the time left and the figure drawn for it.
pub fn timer_step(left: Option<u64>, figure: Option<&str>, width: u16, height: u16) -> (r: Option<
    TimerStep,
>)
    ensures
        match timer_turn(
            left,
            match figure {
                Some(f) => Some(f@),
                None => None,
            },
            width as nat,
            height as nat,
        ) {
            Some(step) => r matches Some(x) && x@ == step,
            None => r is None,
        },
{
    match left {
        None => Some(
            TimerStep::Finish { title: ALERT_TITLE.to_owned(), message: ALERT_MESSAGE.to_owned() },
        ),
        Some(_) => match figure {
            Some(f) => match timer_frame(f, width, height) {
                Some(rows) => Some(TimerStep::Show(rows)),
                None => None,
            },
            None => None,
        },
    }
}

/// The next step of a countdown. `left` holds the whole seconds that are
/// left, or nothing once the time is up.
pub fn handle_timer(left: Option<u64>, width: u16, height: u16) -> (r: Option<TimerStep>)
    ensures
        match timer_turn(
            left,
            match left {
                Some(seconds) => banner_of(clock_text(seconds as nat)),
                None => None,
            },
            width as nat,
            height as nat,
        ) {
            Some(step) => r matches Some(x) && x@ == step,
            None => r is None,
        },
{
    match left {
        Some(seconds) => {
            let text = countdown_text(seconds);
            match banner(text.as_str()) {
                Some(figure) => timer_step(left, Some(figure.as_str()), width, height),
                None => timer_step(left, None, width, height),
            }
        },
        None => timer_step(left, None, width, height),
    }
}

/// The system on which the tracker runs.
#[derive(Clone, Copy, Debug, PartialEq, Eq, Structural)]
pub enum Platform {
    MacOs,
    Linux,
    Windows,
    Other,
}

/// A program to run, with its arguments.
#[derive(Clone, Debug, PartialEq)]
pub struct Invocation {
    pub program: String,
    pub args: Vec<String>,
    /// Whether what the program prints is thrown away.
    pub quiet: bool,
}

/// An invocation as a mathematical value.
pub struct InvocationView {
    pub program: Seq<char>,
    pub args: Seq<Seq<char>>,
    pub quiet: bool,
}

impl View for Invocation {
    type V = InvocationView;

    open spec fn view(&self) -> InvocationView {
        InvocationView { program: self.program@, args: views(self.args@), quiet: self.quiet }
    }
}

/// The program that raises an alert on each system; none where the system is not known.
pub open spec fn alert(platform: Platform, title: Seq<char>, message: Seq<char>) -> Option<
    InvocationView,
> {
    match platform {
        Platform::MacOs => Some(
            InvocationView {
                program: "osascript"@,
                args: seq![
                    "-e"@,
                    "display alert \""@ + title + "\" message \""@ + message + "\""@,
                ],
                quiet: true,
            },
        ),
        Platform::Linux => Some(
            InvocationView {
                program: "zenity"@,
                args: seq!["--info"@, "--text="@ + message],
                quiet: false,
            },
        ),
        Platform::Windows => Some(
            InvocationView { program: "msg"@, args: seq!["*"@, message], quiet: false },
        ),
        Platform::Other => None,
    }
}

fn pair(a: String, b: String) -> (r: Vec<String>)
    ensures
        views(r@) == seq![a@, b@],
{
    let mut v: Vec<String> = Vec::new();
    v.push(a);
    v.push(b);
    assert(views(v@) =~= seq![a@, b@]);
    v
}

/// The program that raises an alert with the title and the message.
pub fn show_alert(platform: Platform, title: &str, message: &str) -> (r: Option<Invocation>)
    ensures
        match alert(platform, title@, message@) {
            Some(invocation) => r matches Some(x) && x@ == invocation,
            None => r is None,
        },
{
    match platform {
        Platform::MacOs => {
            let mut script = concat3("display alert \"", title, "\" message \"");
            script.append(message);
            script.append("\"");
            Some(
                Invocation {
                    program: "osascript".to_owned(),
                    args: pair("-e".to_owned(), script),
                    quiet: true,
                },
            )
        },
        Platform::Linux => Some(
            Invocation {
                program: "zenity".to_owned(),
                args: pair("--info".to_owned(), concat2("--text=", message)),
                quiet: false,
            },
        ),
        Platform::Windows => Some(
            Invocation {
                program: "msg".to_owned(),
                args: pair("*".to_owned(), message.to_owned()),
                quiet: false,
            },
        ),
        Platform::Other => None,
    }
}

} // verus!
