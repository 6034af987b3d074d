use todo_cli::database::{SqlValue, Statement, TodoDatabase};
use todo_cli::operations::{
    add_todo, find_todos, list_todos, mark_todo_as_done, mark_todo_as_undone, mark_todos_at, remove_todos_by_ids,
    reset_todo, update_todo,
};

fn tdb() -> TodoDatabase {
    TodoDatabase::new("/home/ada")
}

#[test]
fn one_statement_for_each_id() {
    let tdb = tdb();
    let now = "2024-05-01T10:00:00+02:00";
    let plan = mark_todos_at(&tdb, &vec![3, 1, 3], true, now);
    assert_eq!(plan, vec![tdb.mark_as_done_at(3, now), tdb.mark_as_done_at(1, now), tdb.mark_as_done_at(3, now)]);
    let plan = mark_todos_at(&tdb, &vec![2], false, now);
    assert_eq!(plan, vec![tdb.mark_as_undone_at(2, now)]);
    assert!(mark_todos_at(&tdb, &vec![], true, now).is_empty());
}

#[test]
fn marking_now_uses_one_time_for_all() {
    let tdb = tdb();
    let plan = mark_todo_as_done(&tdb, &vec![5, 6]);
    assert_eq!(plan.len(), 2);
    assert_eq!(plan[0].params[1], plan[1].params[1]);
    assert_eq!(plan[0].params[0], SqlValue::Bool(true));
    assert_eq!(plan[1].params[2], SqlValue::Integer(6));
    let plan = mark_todo_as_undone(&tdb, &vec![5]);
    assert_eq!(plan[0].params[0], SqlValue::Bool(false));
    assert_eq!(plan[0].params[2], SqlValue::Integer(5));
}

#[test]
fn removal_by_ids() {
    let tdb = tdb();
    assert_eq!(remove_todos_by_ids(&tdb, &vec![4, 9]), vec![tdb.remove_todo(4), tdb.remove_todo(9)]);
    assert!(remove_todos_by_ids(&tdb, &vec![]).is_empty());
}

#[test]
fn the_operations_give_the_statements_of_the_store() {
    let tdb = tdb();
    assert_eq!(list_todos(&tdb, true), tdb.list_todos(true));
    assert_eq!(list_todos(&tdb, false), tdb.list_todos(false));
    assert_eq!(find_todos(&tdb, "tea", false), tdb.find_todos("tea", false));
    assert_eq!(reset_todo(&tdb), Statement { sql: "DELETE FROM todos".to_string(), params: vec![] });
    let added = add_todo(&tdb, "tea", Some(2));
    assert_eq!(added.len(), 2);
    assert_eq!(added[1].params[0], SqlValue::Text("tea".to_string()));
    assert_eq!(added[1].params[2], SqlValue::Integer(2));
    let updated = update_todo(&tdb, 8, "coffee");
    assert_eq!(updated.params[0], SqlValue::Text("coffee".to_string()));
    assert_eq!(updated.params[2], SqlValue::Integer(8));
}
