//! Listings: the todos that were read, in the order in which they are shown.

use vstd::prelude::*;
use chrono::Datelike;
use crate::database::{Todo, TodoView};
use crate::order::{arranges, descending, descending_order, lemma_descending};
use crate::text::{byte_prefix, take_bytes};

verus! {

/// The form in which a todo's time of creation starts: year, month, day.
pub const DAY_FORMAT: &'static str = "%Y-%m-%d";

/// How many bytes of a todo's time of creation hold its day.
pub const DAY_BYTES: usize = 10;

/// A calendar day.
#[derive(Clone, Debug, PartialEq)]
pub struct Day {
    /// The days since the last day of the year 1 BCE: a later day has a greater number.
    pub number: i32,
    /// The day written out.
    pub text: String,
}

/// A day as a mathematical value.
pub struct DayView {
    pub number: i32,
    pub text: Seq<char>,
}

impl View for Day {
    type V = DayView;

    open spec fn view(&self) -> DayView {
        DayView { number: self.number, text: self.text@ }
    }
}

/// The todos of one day.
#[derive(Clone, Debug)]
pub struct Group {
    pub day: Day,
    pub todos: Vec<Todo>,
}

/// The todos of one day as a mathematical value.
pub struct GroupView {
    pub day: DayView,
    pub todos: Seq<TodoView>,
}

impl View for Group {
    type V = GroupView;

    open spec fn view(&self) -> GroupView {
        GroupView { day: self.day@, todos: todo_views(self.todos@) }
    }
}

/// A todo's time of creation does not start with a day.
#[derive(Clone, Copy, Debug, PartialEq, Eq, Structural)]
pub struct InvalidDate;

/// The todos as mathematical values.
pub open spec fn todo_views(todos: Seq<Todo>) -> Seq<TodoView> {
    Seq::new(todos.len(), |i: int| todos[i]@)
}

/// The groups as mathematical values.
pub open spec fn group_views(groups: Seq<Group>) -> Seq<GroupView> {
    Seq::new(groups.len(), |i: int| groups[i]@)
}

/// What `chrono::NaiveDate::parse_from_str` reads from `text` in the given
/// format: the day's `num_days_from_ce` and the day as `to_string` writes it;
/// `None` where it reads no day.
pub uninterp spec fn day_of(text: Seq<char>, format: Seq<char>) -> Option<(i32, Seq<char>)>;

/// `chrono::NaiveDate::parse_from_str`, with the day that it reads handed
/// out as its number (`num_days_from_ce`) and its text (`to_string`).
#[verifier::external_body]
fn read_day(text: &str, format: &str) -> (r: Option<Day>)
    ensures
        match day_of(text@, format@) {
            Some((number, written)) => r matches Some(day) && day.number == number && day.text@
                == written,
            None => r is None,
        },
{
    match chrono::NaiveDate::parse_from_str(text, format) {
        Ok(date) => Some(Day { number: date.num_days_from_ce(), text: date.to_string() }),
        Err(_) => None,
    }
}

/// The day on which a todo was created: what its first ten bytes spell.
pub open spec fn day_view(created_at: Seq<char>) -> Option<DayView> {
    match byte_prefix(created_at, DAY_BYTES as int) {
        Some(head) => match day_of(head, DAY_FORMAT@) {
            Some((number, text)) => Some(DayView { number, text }),
            None => None,
        },
        None => None,
    }
}

/// The day of each todo, where each has one.
pub open spec fn days_of(todos: Seq<Todo>) -> Option<Seq<DayView>> {
    if forall|i: int| 0 <= i < todos.len() ==> (#[trigger] day_view(todos[i].created_at@)) is Some {
        Some(Seq::new(todos.len(), |i: int| day_view(todos[i].created_at@)->0))
    } else {
        None
    }
}

/// The ids of the todos.
pub open spec fn id_keys(todos: Seq<Todo>) -> Seq<i32> {
    Seq::new(todos.len(), |i: int| todos[i].id)
}

/// The times of creation of the todos.
pub open spec fn created_keys(todos: Seq<Todo>) -> Seq<String> {
    Seq::new(todos.len(), |i: int| todos[i].created_at)
}

/// The todos at the places that `order` names, in its order.
pub open spec fn picked(todos: Seq<Todo>, order: Seq<usize>) -> Seq<TodoView> {
    Seq::new(order.len(), |i: int| todos[order[i] as int]@)
}

/// The order of a listing by date: the later day first; within a day the
/// later time of creation first; of equal times the todo that was read first.
pub open spec fn day_order(todos: Seq<Todo>, days: Seq<DayView>) -> Seq<usize> {
    let first = descending(created_keys(todos), todos.len());
    let second = descending(day_numbers(days, first), todos.len());
    Seq::new(todos.len(), |i: int| first[second[i] as int])
}

/// The numbers of the days at the places that `order` names.
pub open spec fn day_numbers(days: Seq<DayView>, order: Seq<usize>) -> Seq<i32> {
    Seq::new(order.len(), |i: int| days[order[i] as int].number)
}

/// Todos that stand next to each other and share a day make up a group.
pub open spec fn grouped(todos: Seq<TodoView>, days: Seq<DayView>) -> Seq<GroupView>
    decreases todos.len(),
{
    if todos.len() == 0 {
        Seq::empty()
    } else {
        let before = grouped(todos.drop_last(), days.drop_last());
        if todos.len() == 1 || days[todos.len() - 2].number != days[todos.len() - 1].number {
            before.push(GroupView { day: days[todos.len() - 1], todos: seq![todos.last()] })
        } else {
            before.drop_last().push(
                GroupView { day: before.last().day, todos: before.last().todos.push(todos.last()) },
            )
        }
    }
}

/// The todos of the groups, one group after the other.
pub open spec fn flattened(groups: Seq<GroupView>) -> Seq<TodoView>
    decreases groups.len(),
{
    if groups.len() == 0 {
        Seq::empty()
    } else {
        flattened(groups.drop_last()) + groups.last().todos
    }
}

/// Grouping loses no todo and moves none: the groups, one after the other,
/// hold the todos as they were given. No group is empty, and the last
/// group's day is that of the last todo.
pub proof fn lemma_grouped_whole(todos: Seq<TodoView>, days: Seq<DayView>)
    requires
        todos.len() == days.len(),
    ensures
        flattened(grouped(todos, days)) == todos,
        forall|g: int| 0 <= g < grouped(todos, days).len() ==> (#[trigger] grouped(todos, days)[g]).todos.len() > 0,
        todos.len() > 0 ==> grouped(todos, days).len() > 0 && grouped(todos, days).last().day.number
            == days.last().number,
    decreases todos.len(),
{
    if todos.len() > 0 {
        let before = grouped(todos.drop_last(), days.drop_last());
        let after = grouped(todos, days);
        lemma_grouped_whole(todos.drop_last(), days.drop_last());
        if todos.len() == 1 || days[todos.len() - 2].number != days[todos.len() - 1].number {
            assert(after.drop_last() =~= before);
            assert(flattened(after) =~= todos.drop_last() + seq![todos.last()]);
            assert(todos.drop_last() + seq![todos.last()] =~= todos);
            assert forall|g: int| 0 <= g < after.len() implies (#[trigger] after[g]).todos.len()
                > 0 by {
                if g < before.len() {
                    assert(after[g] == before[g]);
                }
            }
        } else {
            assert(days.drop_last().last() == days[todos.len() - 2]);
            assert(after.drop_last() =~= before.drop_last());
            assert(flattened(before) == flattened(before.drop_last()) + before.last().todos);
            assert(flattened(after) =~= flattened(before.drop_last()) + before.last().todos.push(
                todos.last(),
            ));
            assert(flattened(after) =~= todos.drop_last().push(todos.last()));
            assert(todos.drop_last().push(todos.last()) =~= todos);
            assert forall|g: int| 0 <= g < after.len() implies (#[trigger] after[g]).todos.len()
                > 0 by {
                if g < before.len() - 1 {
                    assert(after[g] == before[g]);
                }
            }
        }
    }
}

/// Where no day is followed by a later one, the days of the groups go
/// strictly from the latest down.
pub proof fn lemma_grouped_descending(todos: Seq<TodoView>, days: Seq<DayView>)
    requires
        todos.len() == days.len(),
        forall|i: int, j: int| 0 <= i < j < days.len() ==> (#[trigger] days[i]).number >= (#[trigger] days[j]).number,
    ensures
        forall|g: int, h: int|
            0 <= g < h < grouped(todos, days).len() ==> (#[trigger] grouped(todos, days)[g]).day.number > (
            #[trigger] grouped(todos, days)[h]).day.number,
    decreases todos.len(),
{
    if todos.len() > 0 {
        let before = grouped(todos.drop_last(), days.drop_last());
        let after = grouped(todos, days);
        assert forall|i: int, j: int| 0 <= i < j < days.drop_last().len() implies (
        #[trigger] days.drop_last()[i]).number >= (#[trigger] days.drop_last()[j]).number by {
            assert(days.drop_last()[i] == days[i]);
            assert(days.drop_last()[j] == days[j]);
        }
        lemma_grouped_descending(todos.drop_last(), days.drop_last());
        lemma_grouped_whole(todos.drop_last(), days.drop_last());
        if todos.len() == 1 || days[todos.len() - 2].number != days[todos.len() - 1].number {
            assert forall|g: int, h: int| 0 <= g < h < after.len() implies (#[trigger] after[g]).day.number
                > (#[trigger] after[h]).day.number by {
                assert(after[g] == before[g]);
                if h < before.len() {
                    assert(after[h] == before[h]);
                } else {
                    assert(days.drop_last().last() == days[todos.len() - 2]);
                    assert(before.last().day.number == days[todos.len() - 2].number);
                    assert(days[todos.len() - 2].number >= days[todos.len() - 1].number);
                    if g < before.len() - 1 {
                        assert(before[g].day.number > before[before.len() - 1].day.number);
                    }
                }
            }
        } else {
            assert forall|g: int, h: int| 0 <= g < h < after.len() implies (#[trigger] after[g]).day.number
                > (#[trigger] after[h]).day.number by {
                assert(after[g] == before[g]);
                if h < before.len() - 1 {
                    assert(after[h] == before[h]);
                } else {
                    assert(after[h].day == before[h].day);
                }
            }
        }
    }
}

/// The listing by date, or the failure where a todo has no day.
pub open spec fn dated(todos: Seq<Todo>) -> Result<Seq<GroupView>, InvalidDate> {
    match days_of(todos) {
        None => Err(InvalidDate),
        Some(days) => {
            let order = day_order(todos, days);
            Ok(grouped(picked(todos, order), Seq::new(order.len(), |i: int| days[order[i] as int])))
        },
    }
}

/// A listing by date holds the todo of each place once, in groups whose
/// days go strictly from the latest down.
pub proof fn lemma_dated(todos: Seq<Todo>)
    requires
        todos.len() <= usize::MAX,
        days_of(todos) is Some,
    ensures
        dated(todos) is Ok,
        arranges(day_order(todos, days_of(todos)->0), todos.len()),
        flattened(dated(todos)->Ok_0) == picked(todos, day_order(todos, days_of(todos)->0)),
        forall|g: int, h: int|
            0 <= g < h < dated(todos)->Ok_0.len() ==> (#[trigger] dated(todos)->Ok_0[g]).day.number > (
            #[trigger] dated(todos)->Ok_0[h]).day.number,
{
    let n = todos.len();
    let days = days_of(todos)->0;
    let first = descending(created_keys(todos), n);
    let numbers = day_numbers(days, first);
    let second = descending(numbers, n);
    let order = day_order(todos, days);
    let shown = picked(todos, order);
    let shown_days = Seq::new(order.len(), |i: int| days[order[i] as int]);
    lemma_descending(created_keys(todos), n);
    lemma_descending(numbers, n);
    assert forall|i: int, j: int| 0 <= i < j < order.len() implies order[i] != order[j] by {
        let a = second[i] as int;
        let b = second[j] as int;
        assert(a != b);
        if a < b {
            assert(first[a] != first[b]);
        } else {
            assert(first[b] != first[a]);
        }
    }
    assert forall|i: int| 0 <= i < order.len() implies (#[trigger] order[i]) < n by {
        assert(second[i] < n);
        assert(first[second[i] as int] < n);
    }
    assert forall|i: int, j: int| 0 <= i < j < shown_days.len() implies (#[trigger] shown_days[i]).number
        >= (#[trigger] shown_days[j]).number by {
        assert(crate::order::precedes(numbers, second[i] as int, second[j] as int));
        assert(second[i] < n && second[j] < n);
        assert(numbers[second[i] as int] == days[first[second[i] as int] as int].number);
        assert(numbers[second[j] as int] == days[first[second[j] as int] as int].number);
    }
    lemma_grouped_whole(shown, shown_days);
    lemma_grouped_descending(shown, shown_days);
}

/// A copy of a todo.
pub fn copy_todo(todo: &Todo) -> (r: Todo)
    ensures
        r@ == todo@,
{
    Todo {
        id: todo.id,
        title: todo.title.clone(),
        done: todo.done,
        priority: todo.priority,
        created_at: todo.created_at.clone(),
        updated_at: todo.updated_at.clone(),
    }
}

fn copy_day(day: &Day) -> (r: Day)
    ensures
        r@ == day@,
{
    Day { number: day.number, text: day.text.clone() }
}

/// The day on which a todo was created.
pub fn todo_day(todo: &Todo) -> (r: Option<Day>)
    ensures
        match day_view(todo.created_at@) {
            Some(day) => r matches Some(x) && x@ == day,
            None => r is None,
        },
{
    match take_bytes(todo.created_at.as_str(), DAY_BYTES) {
        Some(head) => read_day(head, DAY_FORMAT),
        None => None,
    }
}

/// The todos from the greatest id down; todos of one id stay as they were read.
pub open spec fn descending_ids(todos: Seq<Todo>) -> Seq<TodoView> {
    picked(todos, descending(id_keys(todos), todos.len()))
}

/// A listing by id holds the todo of each place once, and no id in it is
/// followed by a greater one.
pub proof fn lemma_by_id(todos: Seq<Todo>)
    requires
        todos.len() <= usize::MAX,
    ensures
        descending_ids(todos).len() == todos.len(),
        arranges(descending(id_keys(todos), todos.len()), todos.len()),
        forall|i: int, j: int|
            0 <= i < j < todos.len() ==> (#[trigger] descending_ids(todos)[i]).id >= (
            #[trigger] descending_ids(todos)[j]).id,
{
    let keys = id_keys(todos);
    let order = descending(keys, todos.len());
    lemma_descending(keys, todos.len());
    assert forall|i: int, j: int| 0 <= i < j < todos.len() implies (#[trigger] descending_ids(
        todos,
    )[i]).id >= (#[trigger] descending_ids(todos)[j]).id by {
        assert(crate::order::precedes(keys, order[i] as int, order[j] as int));
    }
}

/// The todos from the greatest id down; todos of one id stay as they were read.
pub fn by_id(todos: &Vec<Todo>) -> (r: Vec<Todo>)
    ensures
        todo_views(r@) == descending_ids(todos@),
{
    let mut keys: Vec<i32> = Vec::new();
    let mut i: usize = 0;
    while i < todos.len()
        invariant
            i <= todos.len(),
            keys@ == id_keys(todos@).take(i as int),
        decreases todos.len() - i,
    {
        keys.push(todos[i].id);
        assert(keys@ =~= id_keys(todos@).take(i + 1));
        i += 1;
    }
    assert(keys@ =~= id_keys(todos@));
    let order = descending_order(&keys);
    proof {
        lemma_descending(keys@, keys@.len());
    }
    let mut out: Vec<Todo> = Vec::new();
    let mut k: usize = 0;
    while k < order.len()
        invariant
            k <= order.len(),
            order.len() == todos.len(),
            arranges(order@, todos@.len()),
            todo_views(out@) == picked(todos@, order@).take(k as int),
        decreases order.len() - k,
    {
        let todo = copy_todo(&todos[order[k]]);
        let ghost before = out@;
        out.push(todo);
        assert(todo_views(out@) =~= todo_views(before).push(todo@));
        assert(picked(todos@, order@).take(k + 1) =~= picked(todos@, order@).take(k as int).push(
            todo@,
        ));
        k += 1;
    }
    assert(todo_views(out@) =~= picked(todos@, order@));
    out
}

/// The todos in groups by the day of their creation, the latest day first;
/// within a group the todo created last comes first.
pub fn by_date(todos: &Vec<Todo>) -> (r: Result<Vec<Group>, InvalidDate>)
    ensures
        match dated(todos@) {
            Ok(groups) => r matches Ok(x) && group_views(x@) == groups,
            Err(_) => r is Err,
        },
{
    let n = todos.len();
    let mut days: Vec<Day> = Vec::new();
    let mut created: Vec<String> = Vec::new();
    let mut i: usize = 0;
    while i < n
        invariant
            i <= n,
            n == todos.len(),
            days.len() == i,
            forall|j: int| 0 <= j < i ==> (#[trigger] day_view(todos@[j].created_at@)) == Some(days@[j]@),
            created@ == created_keys(todos@).take(i as int),
        decreases n - i,
    {
        match todo_day(&todos[i]) {
            Some(day) => {
                days.push(day);
            },
            None => {
                assert(day_view(todos@[i as int].created_at@) is None);
                return Err(InvalidDate);
            },
        }
        created.push(todos[i].created_at.clone());
        assert(created@ =~= created_keys(todos@).take(i + 1));
        i += 1;
    }
    assert(created@ =~= created_keys(todos@));
    let ghost all_days = days_of(todos@)->0;
    assert(days_of(todos@) is Some);
    assert(all_days =~= Seq::new(days@.len(), |j: int| days@[j]@));
    let first = descending_order(&created);
    proof {
        lemma_descending(created@, n as nat);
    }
    let mut numbers: Vec<i32> = Vec::new();
    let mut k: usize = 0;
    while k < n
        invariant
            k <= n,
            n == todos.len(),
            days.len() == n,
            arranges(first@, n as nat),
            all_days == Seq::new(days@.len(), |j: int| days@[j]@),
            numbers@ == day_numbers(all_days, first@).take(k as int),
        decreases n - k,
    {
        numbers.push(days[first[k]].number);
        assert(numbers@ =~= day_numbers(all_days, first@).take(k + 1));
        k += 1;
    }
    assert(numbers@ =~= day_numbers(all_days, first@));
    let second = descending_order(&numbers);
    proof {
        lemma_descending(numbers@, n as nat);
    }
    let ghost order = day_order(todos@, all_days);
    let ghost shown = picked(todos@, order);
    let ghost shown_days = Seq::new(order.len(), |j: int| all_days[order[j] as int]);
    let mut groups: Vec<Group> = Vec::new();
    let mut m: usize = 0;
    let mut last_number: i32 = 0;
    assert(group_views(groups@) =~= grouped(shown.take(0), shown_days.take(0)));
    while m < n
        invariant
            m <= n,
            n == todos.len(),
            days.len() == n,
            arranges(first@, n as nat),
            arranges(second@, n as nat),
            all_days == Seq::new(days@.len(), |j: int| days@[j]@),
            order == Seq::new(n as nat, |j: int| first@[second@[j] as int]),
            shown == picked(todos@, order),
            shown_days == Seq::new(order.len(), |j: int| all_days[order[j] as int]),
            group_views(groups@) == grouped(shown.take(m as int), shown_days.take(m as int)),
            m > 0 ==> last_number == shown_days[m - 1].number,
            m > 0 ==> groups.len() > 0,
        decreases n - m,
    {
        let at = first[second[m]];
        let todo = copy_todo(&todos[at]);
        let day = &days[at];
        let ghost upto = shown.take(m + 1);
        let ghost upto_days = shown_days.take(m + 1);
        let ghost before = groups@;
        proof {
            assert(order[m as int] == at);
            assert(upto.drop_last() =~= shown.take(m as int));
            assert(upto_days.drop_last() =~= shown_days.take(m as int));
            assert(upto.last() == todo@);
            assert(upto_days[m as int] == day@);
            if m > 0 {
                assert(upto_days[m - 1] == shown_days[m - 1]);
            }
        }
        if m == 0 || last_number != day.number {
            let mut members: Vec<Todo> = Vec::new();
            members.push(todo);
            assert(todo_views(members@) =~= seq![todo@]);
            let group = Group { day: copy_day(day), todos: members };
            groups.push(group);
            assert(group_views(groups@) =~= group_views(before).push(group@));
        } else {
            let mut group = groups.pop().unwrap();
            let ghost held = group@;
            group.todos.push(todo);
            assert(todo_views(group.todos@) =~= held.todos.push(todo@));
            groups.push(group);
            assert(group_views(groups@) =~= group_views(before).drop_last().push(group@));
        }
        last_number = day.number;
        m += 1;
    }
    assert(shown.take(m as int) =~= shown);
    assert(shown_days.take(m as int) =~= shown_days);
    Ok(groups)
}

} // verus!
