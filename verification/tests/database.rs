use rusqlite::types::Value;
use rusqlite::Connection;
use todo_cli::database::{SqlValue, Statement, Todo, TodoDatabase};

fn bound(value: &SqlValue) -> Value {
    match value {
        SqlValue::Bool(b) => Value::Integer(i64::from(*b)),
        SqlValue::Integer(i) => Value::Integer(i64::from(*i)),
        SqlValue::Text(s) => Value::Text(s.clone()),
    }
}

fn run(conn: &Connection, statement: &Statement) -> usize {
    let values: Vec<Value> = statement.params.iter().map(bound).collect();
    conn.execute(&statement.sql, rusqlite::params_from_iter(values.iter())).unwrap()
}

fn run_all(conn: &Connection, statements: &[Statement]) {
    for statement in statements {
        run(conn, statement);
    }
}

fn read(conn: &Connection, query: &Statement) -> Vec<Todo> {
    let values: Vec<Value> = query.params.iter().map(bound).collect();
    let mut stmt = conn.prepare(&query.sql).unwrap();
    let rows = stmt
        .query_map(rusqlite::params_from_iter(values.iter()), |row| {
            Ok(Todo {
                id: row.get(0)?,
                title: row.get(1)?,
                done: row.get(2)?,
                priority: row.get(3)?,
                created_at: row.get(4)?,
                updated_at: row.get(5)?,
            })
        })
        .unwrap();
    rows.map(|r| r.unwrap()).collect()
}

fn setup_test_db(db_name: &str) -> (TodoDatabase, Connection) {
    let tdb = TodoDatabase::new0("/home/user/.tc_test".to_string(), db_name.to_string());
    let conn = Connection::open_in_memory().unwrap();
    let setup = tdb.initialize(false).expect("Failed to initialize test database");
    run_all(&conn, &setup.statements);
    (tdb, conn)
}

#[test]
fn test_add_and_list_todos() {
    let (tdb, conn) = setup_test_db("test_add_and_list_todos.db");

    let todo1 = "Test Todo 1".to_string();
    let todo2 = "Test Todo 2".to_string();
    let todo3 = "Test Todo 3".to_string();

    run_all(&conn, &tdb.add_todo(&todo1, None));
    run_all(&conn, &tdb.add_todo(&todo2, None));
    run_all(&conn, &tdb.add_todo(&todo3, Some(1)));

    let todos = read(&conn, &tdb.list_todos(false));
    assert_eq!(todos.len(), 3);
    assert_eq!(todos[0].title, todo1);
    assert_eq!(todos[1].title, todo2);
    assert_eq!(todos[2].title, todo3);
    assert_eq!(todos[2].priority, 1);
}

#[test]
fn test_add_mark_and_list_todos() {
    let (tdb, conn) = setup_test_db("test_add_mark_and_list_todos.db");

    let todo = "Test Todo".to_string();
    run_all(&conn, &tdb.add_todo(&todo, None));

    let todos = read(&conn, &tdb.list_todos(false));
    assert_eq!(todos.len(), 1);
    let todo_id = todos[0].id;

    run(&conn, &tdb.mark_as_done(todo_id));

    let todos = read(&conn, &tdb.list_todos(false));
    assert_eq!(todos.len(), 0);
}

#[test]
fn test_undone_todo_should_be_shown() {
    let (tdb, conn) = setup_test_db("test_undone_todo_should_be_shown.db");

    let todo = "Test Todo".to_string();
    run_all(&conn, &tdb.add_todo(&todo, None));

    let todos = read(&conn, &tdb.list_todos(false));
    assert_eq!(todos.len(), 1);
    let todo_id = todos[0].id;

    run(&conn, &tdb.mark_as_done(todo_id));

    let todos = read(&conn, &tdb.list_todos(false));
    assert_eq!(todos.len(), 0);

    run(&conn, &tdb.mark_as_undone(todo_id));

    let todos = read(&conn, &tdb.list_todos(false));
    assert_eq!(todos.len(), 1);
}

#[test]
fn test_add_remove_and_list_todos() {
    let (tdb, conn) = setup_test_db("test_add_remove_and_list_todos.db");

    let todo = "Test Todo".to_string();
    run_all(&conn, &tdb.add_todo(&todo, None));

    let todos = read(&conn, &tdb.list_todos(false));
    assert_eq!(todos.len(), 1);
    let todo_id = todos[0].id;

    run(&conn, &tdb.remove_todo(todo_id));

    let todos = read(&conn, &tdb.list_todos(false));
    assert_eq!(todos.len(), 0);
}

#[test]
fn test_default_priority_should_be_zero() {
    let (tdb, conn) = setup_test_db("test_default_priority_should_be_zero.db");

    let todo = "Test Todo".to_string();
    run_all(&conn, &tdb.add_todo(&todo, None));

    let todos = read(&conn, &tdb.list_todos(false));
    assert_eq!(todos.len(), 1);
    assert_eq!(todos[0].title, todo);
    assert_eq!(todos[0].done, false);
    assert_eq!(todos[0].priority, 0);
}

#[test]
fn the_path_is_directory_slash_name() {
    let tdb = TodoDatabase::new0("/var/lib/tc".to_string(), "work.db".to_string());
    assert_eq!(tdb.get_db_path(), "/var/lib/tc/work.db");
    let home = TodoDatabase::new("/home/ada");
    assert_eq!(home.get_db_path(), "/home/ada/.tc/todo.db");
}

#[test]
fn initialize_does_nothing_where_the_file_is() {
    let tdb = TodoDatabase::new("/home/ada");
    assert_eq!(tdb.initialize(true), None);
    let setup = tdb.initialize(false).unwrap();
    assert_eq!(setup.directory, "/home/ada/.tc");
    assert_eq!(setup.created, "Created directory: /home/ada/.tc");
    assert_eq!(setup.failed, "Failed to create directory: /home/ada/.tc, stopping todo-cli");
    assert_eq!(setup.statements.len(), 2);
    assert!(setup.statements[0].sql.contains("CREATE TABLE IF NOT EXISTS todos"));
    assert!(setup.statements[0].sql.contains("priority   INTEGER         NOT NULL DEFAULT 0"));
    assert!(setup.statements[1].sql.contains("CREATE INDEX IF NOT EXISTS idx_todos_done ON todos (done)"));
    assert!(setup.statements[0].params.is_empty());
    assert!(setup.statements[1].params.is_empty());
}

#[test]
fn teardown_does_nothing_where_no_file_is() {
    let tdb = TodoDatabase::new("/home/ada");
    assert_eq!(tdb.teardown(false), None);
    let teardown = tdb.teardown(true).unwrap();
    assert_eq!(teardown.path, "/home/ada/.tc/todo.db");
    assert_eq!(teardown.removed, "Removed database: /home/ada/.tc/todo.db");
    assert_eq!(teardown.failed, "Failed to remove database: /home/ada/.tc/todo.db, stopping todo-cli");
}

fn text(s: &str) -> SqlValue {
    SqlValue::Text(s.to_string())
}

#[test]
fn adding_closes_the_namesakes_first() {
    let tdb = TodoDatabase::new("/home/ada");
    let now = "2024-05-01T10:00:00+02:00";
    let plan = tdb.add_todo_at("write", Some(3), now);
    assert_eq!(
        plan,
        vec![
            Statement {
                sql: "UPDATE todos SET done = ?1, updated_at = ?2 WHERE title = ?3".to_string(),
                params: vec![SqlValue::Bool(true), text(now), text("write")],
            },
            Statement {
                sql: "INSERT INTO todos (title, done, priority, created_at, updated_at) VALUES (?1, ?2, ?3, ?4, ?5)"
                    .to_string(),
                params: vec![text("write"), SqlValue::Bool(false), SqlValue::Integer(3), text(now), text(now)],
            },
        ]
    );
    assert_eq!(tdb.add_todo_at("write", None, now)[1].params[2], SqlValue::Integer(0));
}

#[test]
fn a_second_todo_of_the_same_title_closes_the_first() {
    let (tdb, conn) = setup_test_db("namesakes.db");
    run_all(&conn, &tdb.add_todo_at("write", None, "2024-05-01T10:00:00+02:00"));
    run_all(&conn, &tdb.add_todo_at("write", Some(2), "2024-05-02T10:00:00+02:00"));
    let open = read(&conn, &tdb.list_todos(false));
    assert_eq!(open.len(), 1);
    assert_eq!(open[0].id, 2);
    assert_eq!(open[0].priority, 2);
    assert_eq!(open[0].created_at, "2024-05-02T10:00:00+02:00");
    let all = read(&conn, &tdb.list_todos(true));
    assert_eq!(all.len(), 2);
    assert!(all[0].done);
    assert_eq!(all[0].updated_at, "2024-05-02T10:00:00+02:00");
    assert_eq!(all[0].created_at, "2024-05-01T10:00:00+02:00");
}

#[test]
fn the_statements_of_the_other_operations() {
    let tdb = TodoDatabase::new("/home/ada");
    let now = "2024-05-01T10:00:00+02:00";
    assert_eq!(
        tdb.update_todo_at(7, "read", now),
        Statement {
            sql: "UPDATE todos SET title = ?1, updated_at = ?2 WHERE id = ?3".to_string(),
            params: vec![text("read"), text(now), SqlValue::Integer(7)],
        }
    );
    let done = Statement {
        sql: "UPDATE todos SET done = ?1, updated_at = ?2 WHERE id = ?3".to_string(),
        params: vec![SqlValue::Bool(true), text(now), SqlValue::Integer(7)],
    };
    assert_eq!(tdb.mark_as_done_at(7, now), done);
    let undone = Statement { params: vec![SqlValue::Bool(false), text(now), SqlValue::Integer(7)], ..done };
    assert_eq!(tdb.mark_as_undone_at(7, now), undone);
    assert_eq!(
        tdb.remove_todo(-4),
        Statement { sql: "DELETE FROM todos WHERE id = ?1".to_string(), params: vec![SqlValue::Integer(-4)] }
    );
    assert_eq!(tdb.reset(), Statement { sql: "DELETE FROM todos".to_string(), params: vec![] });
}

#[test]
fn the_queries() {
    let tdb = TodoDatabase::new("/home/ada");
    let columns = "SELECT id, title, done, priority, created_at, updated_at FROM todos";
    assert_eq!(tdb.list_todos(true), Statement { sql: columns.to_string(), params: vec![] });
    assert_eq!(
        tdb.list_todos(false),
        Statement { sql: format!("{} WHERE done = ?1", columns), params: vec![SqlValue::Bool(false)] }
    );
    assert_eq!(
        tdb.find_todos("milk", true),
        Statement { sql: format!("{} WHERE title LIKE '%milk%'", columns), params: vec![] }
    );
    assert_eq!(
        tdb.find_todos("milk", false),
        Statement {
            sql: format!("{} WHERE title LIKE '%milk%' AND done = ?1", columns),
            params: vec![SqlValue::Bool(false)]
        }
    );
}

#[test]
fn find_reads_the_titles_that_hold_the_keyword() {
    let (tdb, conn) = setup_test_db("find.db");
    let now = "2024-05-01T10:00:00+02:00";
    run_all(&conn, &tdb.add_todo_at("buy milk", None, now));
    run_all(&conn, &tdb.add_todo_at("buy bread", None, now));
    run_all(&conn, &tdb.add_todo_at("Milky way", None, now));
    run(&conn, &tdb.mark_as_done_at(3, now));
    let open: Vec<String> = read(&conn, &tdb.find_todos("milk", false)).into_iter().map(|t| t.title).collect();
    assert_eq!(open, vec!["buy milk".to_string()]);
    let all: Vec<String> = read(&conn, &tdb.find_todos("milk", true)).into_iter().map(|t| t.title).collect();
    assert_eq!(all, vec!["buy milk".to_string(), "Milky way".to_string()]);
}

#[test]
fn update_and_reset_on_a_store() {
    let (tdb, conn) = setup_test_db("update.db");
    run_all(&conn, &tdb.add_todo_at("one", None, "2024-05-01T10:00:00+02:00"));
    run_all(&conn, &tdb.add_todo_at("two", None, "2024-05-01T10:00:00+02:00"));
    assert_eq!(run(&conn, &tdb.update_todo_at(2, "deux", "2024-05-03T08:00:00+02:00")), 1);
    let todos = read(&conn, &tdb.list_todos(true));
    assert_eq!(todos[1].title, "deux");
    assert_eq!(todos[1].updated_at, "2024-05-03T08:00:00+02:00");
    assert_eq!(todos[0].title, "one");
    assert_eq!(run(&conn, &tdb.reset()), 2);
    assert!(read(&conn, &tdb.list_todos(true)).is_empty());
}

#[test]
fn the_clock_gives_a_time_of_day() {
    let tdb = TodoDatabase::new("/home/ada");
    let plan = tdb.add_todo("write", None);
    let now = match &plan[0].params[1] {
        SqlValue::Text(now) => now.clone(),
        other => panic!("unexpected value {:?}", other),
    };
    assert_eq!(plan, tdb.add_todo_at("write", None, &now));
    assert!(chrono::DateTime::parse_from_rfc3339(&now).is_ok());
    assert_eq!(tdb.update_todo(1, "x").params[0], SqlValue::Text("x".to_string()));
    assert_eq!(tdb.mark_as_done(1).params[0], SqlValue::Bool(true));
    assert_eq!(tdb.mark_as_undone(1).params[0], SqlValue::Bool(false));
}
