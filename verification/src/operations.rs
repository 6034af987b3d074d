//! The tracker's operations, each as the statements it sends to the store.
//! Those that record a time read the clock once.

use vstd::prelude::*;
use crate::database::{
    add_plan,
    lemma_plan_push,
    find_query,
    list_query,
    local_now,
    mark_statement,
    plan_view,
    remove_statement,
    reset_statement,
    update_statement,
    Statement,
    StatementView,
    TodoDatabase,
};

verus! {

/// One statement for each id, in their order, that sets its `done` flag.
pub open spec fn mark_plan(ids: Seq<i32>, done: bool, now: Seq<char>) -> Seq<StatementView> {
    Seq::new(ids.len(), |i: int| mark_statement(ids[i], done, now))
}

/// One statement for each id, in their order, that deletes its todo.
pub open spec fn remove_plan(ids: Seq<i32>) -> Seq<StatementView> {
    Seq::new(ids.len(), |i: int| remove_statement(ids[i]))
}

/// The statements that add a todo now.
pub fn add_todo(tdb: &TodoDatabase, todo: &str, priority: Option<i32>) -> (r: Vec<Statement>)
    ensures
        exists|now: Seq<char>| plan_view(r@) == #[trigger] add_plan(todo@, priority, now),
{
    tdb.add_todo(todo, priority)
}

/// The statement that gives a todo a new title now.
pub fn update_todo(tdb: &TodoDatabase, todo_id: i32, todo: &str) -> (r: Statement)
    ensures
        exists|now: Seq<char>| r@ == #[trigger] update_statement(todo_id, todo@, now),
{
    tdb.update_todo(todo_id, todo)
}

/// The query for every todo, or for the open ones only.
pub fn list_todos(tdb: &TodoDatabase, include_all: bool) -> (r: Statement)
    ensures
        r@ == list_query(include_all),
{
    tdb.list_todos(include_all)
}

/// The query for the todos whose title holds the keyword.
pub fn find_todos(tdb: &TodoDatabase, keyword: &str, include_all: bool) -> (r: Statement)
    ensures
        r@ == find_query(keyword@, include_all),
{
    tdb.find_todos(keyword, include_all)
}

/// The statements that set the `done` flag of each todo at the time `now`.
pub fn mark_todos_at(tdb: &TodoDatabase, ids: &Vec<i32>, done: bool, now: &str) -> (r: Vec<
    Statement,
>)
    ensures
        plan_view(r@) == mark_plan(ids@, done, now@),
{
    let mut plan: Vec<Statement> = Vec::new();
    let mut i: usize = 0;
    while i < ids.len()
        invariant
            i <= ids.len(),
            plan_view(plan@) == mark_plan(ids@.take(i as int), done, now@),
        decreases ids.len() - i,
    {
        let statement = if done {
            tdb.mark_as_done_at(ids[i], now)
        } else {
            tdb.mark_as_undone_at(ids[i], now)
        };
        proof {
            lemma_plan_push(plan@, statement);
            assert(mark_plan(ids@.take(i + 1), done, now@) =~= mark_plan(
                ids@.take(i as int),
                done,
                now@,
            ).push(mark_statement(ids@[i as int], done, now@)));
        }
        plan.push(statement);
        i += 1;
    }
    assert(ids@.take(i as int) =~= ids@);
    plan
}

/// The statements that mark each todo as done now.
pub fn mark_todo_as_done(tdb: &TodoDatabase, ids: &Vec<i32>) -> (r: Vec<Statement>)
    ensures
        exists|now: Seq<char>| plan_view(r@) == #[trigger] mark_plan(ids@, true, now),
{
    let now = local_now();
    mark_todos_at(tdb, ids, true, now.as_str())
}

/// The statements that mark each todo as open now.
pub fn mark_todo_as_undone(tdb: &TodoDatabase, ids: &Vec<i32>) -> (r: Vec<Statement>)
    ensures
        exists|now: Seq<char>| plan_view(r@) == #[trigger] mark_plan(ids@, false, now),
{
    let now = local_now();
    mark_todos_at(tdb, ids, false, now.as_str())
}

/// The statements that delete each todo.
pub fn remove_todos_by_ids(tdb: &TodoDatabase, ids: &Vec<i32>) -> (r: Vec<Statement>)
    ensures
        plan_view(r@) == remove_plan(ids@),
{
    let mut plan: Vec<Statement> = Vec::new();
    let mut i: usize = 0;
    while i < ids.len()
        invariant
            i <= ids.len(),
            plan_view(plan@) == remove_plan(ids@.take(i as int)),
        decreases ids.len() - i,
    {
        let statement = tdb.remove_todo(ids[i]);
        proof {
            lemma_plan_push(plan@, statement);
            assert(remove_plan(ids@.take(i + 1)) =~= remove_plan(ids@.take(i as int)).push(
                remove_statement(ids@[i as int]),
            ));
        }
        plan.push(statement);
        i += 1;
    }
    assert(ids@.take(i as int) =~= ids@);
    plan
}

/// The statement that deletes every todo.
pub fn reset_todo(tdb: &TodoDatabase) -> (r: Statement)
    ensures
        r@ == reset_statement(),
{
    tdb.reset()
}

} // verus!
