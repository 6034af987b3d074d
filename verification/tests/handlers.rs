use todo_cli::database::{SqlValue, Todo, TodoDatabase};
use todo_cli::handlers::{
    handle_add, handle_done, handle_find, handle_list, handle_remove, handle_reset, handle_undone, handle_update,
    print_todo, print_todo_highlightened, Line,
};
use todo_cli::listing::InvalidDate;
use todo_cli::shell::handlers::{Failure, Reply};

fn tdb() -> TodoDatabase {
    TodoDatabase::new("/home/ada")
}

fn todo(id: i32, title: &str, done: bool, created_at: &str) -> Todo {
    Todo {
        id,
        title: title.to_string(),
        done,
        priority: 0,
        created_at: created_at.to_string(),
        updated_at: created_at.to_string(),
    }
}

fn entry(text: &str) -> Line {
    Line::Entry(text.to_string())
}

#[test]
fn a_todo_is_added_without_a_priority() {
    assert_eq!(handle_add(&tdb(), ""), Reply::Refuse("Todo cannot be empty".to_string()));
    match handle_add(&tdb(), "walk") {
        Reply::Run { statements, done, failed } => {
            assert_eq!(statements[1].params[2], SqlValue::Integer(0));
            assert_eq!(done, "Added task: walk");
            assert_eq!(failed, Failure::Abort("Failed to add todo".to_string()));
        }
        other => panic!("unexpected reply {:?}", other),
    }
    assert_eq!(handle_update(&tdb(), 1, ""), Reply::Refuse("Todo cannot be empty".to_string()));
    match handle_update(&tdb(), 1, "run") {
        Reply::Run { done, .. } => assert_eq!(done, "Updated task: run"),
        other => panic!("unexpected reply {:?}", other),
    }
}

#[test]
fn one_todo_is_marked_or_removed() {
    let tdb = tdb();
    match handle_done(&tdb, 12) {
        Reply::Run { statements, done, failed } => {
            assert_eq!(statements.len(), 1);
            assert_eq!(statements[0].params[0], SqlValue::Bool(true));
            assert_eq!(statements[0].params[2], SqlValue::Integer(12));
            assert_eq!(done, "Marked todo 12 as done");
            assert_eq!(failed, Failure::Abort("Failed to mark todo as done".to_string()));
        }
        other => panic!("unexpected reply {:?}", other),
    }
    match handle_undone(&tdb, -3) {
        Reply::Run { statements, done, failed } => {
            assert_eq!(statements[0].params[0], SqlValue::Bool(false));
            assert_eq!(done, "Marked todo -3 as undone");
            assert_eq!(failed, Failure::Abort("Failed to mark todo as undone".to_string()));
        }
        other => panic!("unexpected reply {:?}", other),
    }
    assert_eq!(
        handle_remove(&tdb, 5),
        Reply::Run {
            statements: vec![tdb.remove_todo(5)],
            done: "Removed todo 5".to_string(),
            failed: Failure::Abort("Failed to remove todo".to_string()),
        }
    );
}

#[test]
fn a_failed_reset_stops_the_program() {
    let tdb = tdb();
    assert_eq!(
        handle_reset(&tdb, " yes "),
        Reply::Run {
            statements: vec![tdb.reset()],
            done: "Removed all todos".to_string(),
            failed: Failure::Abort("Failed to remove all todos".to_string()),
        }
    );
    assert_eq!(handle_reset(&tdb, "no"), Reply::Refuse("Reset aborted".to_string()));
}

#[test]
fn the_line_of_a_todo() {
    assert_eq!(print_todo(&todo(3, "buy milk", false, "x"), false), "(3) buy milk");
    assert_eq!(print_todo(&todo(3, "buy milk", true, "x"), false), "(3) buy milk");
    assert_eq!(print_todo(&todo(3, "buy milk", false, "x"), true), "(3) buy milk [ ]");
    assert_eq!(print_todo(&todo(3, "buy milk", true, "x"), true), "(3) buy milk [✔]");
    assert_eq!(print_todo(&todo(-10, "", true, "x"), true), "(-10)  [✔]");
}

#[test]
fn the_keyword_is_painted_in_the_title() {
    let t = todo(3, "milk, more milk", true, "x");
    assert_eq!(print_todo_highlightened(&t, "milk", "<milk>", false), "(3) <milk>, more <milk>");
    assert_eq!(print_todo_highlightened(&t, "milk", "<milk>", true), "(3) <milk>, more <milk> [✅]");
    assert_eq!(print_todo_highlightened(&todo(4, "tea", false, "x"), "milk", "<milk>", true), "(4) tea [ ]");
    assert_eq!(print_todo_highlightened(&todo(4, "ab", false, "x"), "", "|", false), "(4) |a|b|");
}

#[test]
fn a_plain_listing_by_id() {
    let todos = vec![todo(1, "a", false, "x"), todo(3, "c", true, "x"), todo(2, "b", false, "x")];
    assert_eq!(handle_list(&todos, false, false), Ok(vec![entry("(3) c"), entry("(2) b"), entry("(1) a")]));
    assert_eq!(
        handle_list(&todos, true, false),
        Ok(vec![entry("(3) c [✔]"), entry("(2) b [ ]"), entry("(1) a [ ]")])
    );
    assert_eq!(
        handle_find(&todos, "b", "[b]", true, false),
        Ok(vec![entry("(3) c [✅]"), entry("(2) [b] [ ]"), entry("(1) a [ ]")])
    );
    assert_eq!(handle_list(&vec![], true, false), Ok(vec![]));
}

#[test]
fn a_plain_listing_by_date() {
    let todos = vec![
        todo(1, "a", false, "2024-05-01T10:00:00+02:00"),
        todo(2, "b", true, "2024-05-02T10:00:00+02:00"),
        todo(3, "c", false, "2024-05-01T11:00:00+02:00"),
    ];
    assert_eq!(
        handle_list(&todos, false, true),
        Ok(vec![
            Line::Heading("Date: 2024-05-02".to_string()),
            entry("(2) b"),
            Line::Blank,
            Line::Heading("Date: 2024-05-01".to_string()),
            entry("(3) c"),
            entry("(1) a"),
        ])
    );
    assert_eq!(
        handle_find(&todos, "a", "A", true, true),
        Ok(vec![
            Line::Heading("Date: 2024-05-02".to_string()),
            entry("(2) b [✅]"),
            Line::Blank,
            Line::Heading("Date: 2024-05-01".to_string()),
            entry("(3) c [ ]"),
            entry("(1) A [ ]"),
        ])
    );
    assert_eq!(handle_list(&vec![], false, true), Ok(vec![]));
    assert_eq!(handle_list(&vec![todo(1, "a", false, "never")], false, true), Err(InvalidDate));
}
