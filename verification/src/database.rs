//! The store of todos: its records, where it lies, and the statements that
//! each operation sends to it. Nothing here touches the store: an operation
//! yields the statements with their parameters, and the caller runs them, in
//! order, on a connection to the file at `get_db_path`.

use vstd::prelude::*;
use crate::text::{concat2, concat3};

verus! {

/// The table of todos.
pub const TODO_TABLE_DDL: &'static str = r#"
            CREATE TABLE IF NOT EXISTS todos
            (
                id         INTEGER PRIMARY KEY,
                title      TEXT            NOT NULL, -- title of the todo
                done       BOOLEAN         NOT NULL, -- whether the todo is done or not
                priority   INTEGER         NOT NULL DEFAULT 0, -- priority of the todo
                created_at DATE            NOT NULL,
                updated_at DATE            NOT NULL
            )
            "#;

/// The index over the `done` column.
pub const TODO_INDEX_DDL: &'static str = r#"
            CREATE INDEX IF NOT EXISTS idx_todos_done ON todos (done)
            "#;

/// The columns of a todo, as every query reads them.
pub const SELECT_TODOS: &'static str =
    "SELECT id, title, done, priority, created_at, updated_at FROM todos";

/// A todo as the store holds it.
#[derive(Clone, Debug)]
pub struct Todo {
    pub id: i32,
    pub title: String,
    pub done: bool,
    pub priority: i32,
    pub created_at: String,
    pub updated_at: String,
}

/// A todo as a mathematical value.
pub struct TodoView {
    pub id: i32,
    pub title: Seq<char>,
    pub done: bool,
    pub priority: i32,
    pub created_at: Seq<char>,
    pub updated_at: Seq<char>,
}

impl View for Todo {
    type V = TodoView;

    open spec fn view(&self) -> TodoView {
        TodoView {
            id: self.id,
            title: self.title@,
            done: self.done,
            priority: self.priority,
            created_at: self.created_at@,
            updated_at: self.updated_at@,
        }
    }
}

/// A value bound to a placeholder of a statement.
#[derive(Clone, Debug, PartialEq)]
pub enum SqlValue {
    Bool(bool),
    Integer(i32),
    Text(String),
}

/// A bound value as a mathematical value.
pub enum SqlValueView {
    Bool(bool),
    Integer(i32),
    Text(Seq<char>),
}

impl View for SqlValue {
    type V = SqlValueView;

    open spec fn view(&self) -> SqlValueView {
        match self {
            SqlValue::Bool(b) => SqlValueView::Bool(*b),
            SqlValue::Integer(i) => SqlValueView::Integer(*i),
            SqlValue::Text(s) => SqlValueView::Text(s@),
        }
    }
}

/// A statement with the values for its placeholders `?1`, `?2`, and so on.
#[derive(Clone, Debug, PartialEq)]
pub struct Statement {
    pub sql: String,
    pub params: Vec<SqlValue>,
}

/// A statement as a mathematical value.
pub struct StatementView {
    pub sql: Seq<char>,
    pub params: Seq<SqlValueView>,
}

impl View for Statement {
    type V = StatementView;

    open spec fn view(&self) -> StatementView {
        StatementView { sql: self.sql@, params: Seq::new(self.params@.len(), |i: int| self.params@[i]@) }
    }
}

/// The statements of a plan as mathematical values.
pub open spec fn plan_view(plan: Seq<Statement>) -> Seq<StatementView> {
    Seq::new(plan.len(), |i: int| plan[i]@)
}

/// A plan with one statement more is its view with that statement's view more.
pub proof fn lemma_plan_push(plan: Seq<Statement>, statement: Statement)
    ensures
        plan_view(plan.push(statement)) == plan_view(plan).push(statement@),
{
    assert(plan_view(plan.push(statement)) =~= plan_view(plan).push(statement@));
}

/// The statement that sets the `done` flag of one todo.
pub open spec fn mark_statement(id: i32, done: bool, now: Seq<char>) -> StatementView {
    StatementView {
        sql: "UPDATE todos SET done = ?1, updated_at = ?2 WHERE id = ?3"@,
        params: seq![SqlValueView::Bool(done), SqlValueView::Text(now), SqlValueView::Integer(id)],
    }
}

/// The statements that add a todo: every todo of the same title is marked as
/// done, then the new one is inserted, open, with the priority given or 0.
pub open spec fn add_plan(todo: Seq<char>, priority: Option<i32>, now: Seq<char>) -> Seq<
    StatementView,
> {
    seq![
        StatementView {
            sql: "UPDATE todos SET done = ?1, updated_at = ?2 WHERE title = ?3"@,
            params: seq![
                SqlValueView::Bool(true),
                SqlValueView::Text(now),
                SqlValueView::Text(todo),
            ],
        },
        StatementView {
            sql: "INSERT INTO todos (title, done, priority, created_at, updated_at) VALUES (?1, ?2, ?3, ?4, ?5)"@,
            params: seq![
                SqlValueView::Text(todo),
                SqlValueView::Bool(false),
                SqlValueView::Integer(
                    match priority {
                        Some(p) => p,
                        None => 0,
                    },
                ),
                SqlValueView::Text(now),
                SqlValueView::Text(now),
            ],
        },
    ]
}

/// The statement that gives a todo a new title.
pub open spec fn update_statement(id: i32, todo: Seq<char>, now: Seq<char>) -> StatementView {
    StatementView {
        sql: "UPDATE todos SET title = ?1, updated_at = ?2 WHERE id = ?3"@,
        params: seq![SqlValueView::Text(todo), SqlValueView::Text(now), SqlValueView::Integer(id)],
    }
}

/// The query for every todo, or for the open ones only.
pub open spec fn list_query(include_all: bool) -> StatementView {
    if include_all {
        StatementView { sql: SELECT_TODOS@, params: seq![] }
    } else {
        StatementView {
            sql: SELECT_TODOS@ + " WHERE done = ?1"@,
            params: seq![SqlValueView::Bool(false)],
        }
    }
}

/// The query for the todos whose title matches `%keyword%`, all of them or the
/// open ones only. The keyword stands in the statement's text as it is given.
pub open spec fn find_query(keyword: Seq<char>, include_all: bool) -> StatementView {
    if include_all {
        StatementView {
            sql: SELECT_TODOS@ + " WHERE title LIKE '%"@ + keyword + "%'"@,
            params: seq![],
        }
    } else {
        StatementView {
            sql: SELECT_TODOS@ + " WHERE title LIKE '%"@ + keyword + "%' AND done = ?1"@,
            params: seq![SqlValueView::Bool(false)],
        }
    }
}

/// The statement that deletes one todo.
pub open spec fn remove_statement(id: i32) -> StatementView {
    StatementView { sql: "DELETE FROM todos WHERE id = ?1"@, params: seq![SqlValueView::Integer(id)] }
}

/// The statement that deletes every todo.
pub open spec fn reset_statement() -> StatementView {
    StatementView { sql: "DELETE FROM todos"@, params: seq![] }
}

/// What has to happen before the store can be used for the first time.
#[derive(Clone, Debug, PartialEq)]
pub struct Setup {
    /// The directory to create, with its parents.
    pub directory: String,
    /// What to report once the directory is there.
    pub created: String,
    /// The words to stop with if the directory cannot be created.
    pub failed: String,
    /// The statements that create the table and its index.
    pub statements: Vec<Statement>,
}

/// A setup as a mathematical value.
pub struct SetupView {
    pub directory: Seq<char>,
    pub created: Seq<char>,
    pub failed: Seq<char>,
    pub statements: Seq<StatementView>,
}

impl View for Setup {
    type V = SetupView;

    open spec fn view(&self) -> SetupView {
        SetupView {
            directory: self.directory@,
            created: self.created@,
            failed: self.failed@,
            statements: plan_view(self.statements@),
        }
    }
}

/// The setup of a store in the directory `dir`: the directory is created,
/// then the table and then its index.
pub open spec fn setup_of(dir: Seq<char>) -> SetupView {
    SetupView {
        directory: dir,
        created: "Created directory: "@ + dir,
        failed: "Failed to create directory: "@ + dir + ", stopping todo-cli"@,
        statements: seq![
            StatementView { sql: TODO_TABLE_DDL@, params: seq![] },
            StatementView { sql: TODO_INDEX_DDL@, params: seq![] },
        ],
    }
}

/// What has to happen to remove the store.
#[derive(Clone, Debug, PartialEq)]
pub struct Teardown {
    /// The file to remove.
    pub path: String,
    /// What to report once the file is gone.
    pub removed: String,
    /// The words to stop with if the file cannot be removed.
    pub failed: String,
}

/// A teardown as a mathematical value.
pub struct TeardownView {
    pub path: Seq<char>,
    pub removed: Seq<char>,
    pub failed: Seq<char>,
}

impl View for Teardown {
    type V = TeardownView;

    open spec fn view(&self) -> TeardownView {
        TeardownView { path: self.path@, removed: self.removed@, failed: self.failed@ }
    }
}

/// The teardown of the store in the file at `path`.
pub open spec fn teardown_of(path: Seq<char>) -> TeardownView {
    TeardownView {
        path,
        removed: "Removed database: "@ + path,
        failed: "Failed to remove database: "@ + path + ", stopping todo-cli"@,
    }
}

/// Where the store lies and how it is laid out.
pub struct TodoDatabase {
    db_dir_path: String,
    db_name: String,
    db_todo_table_ddl: String,
    db_todo_index_ddl: String,
}

/// `chrono::Local::now()`, written out by `to_rfc3339`: the local time of
/// the call. Nothing is claimed of the text.
#[verifier::external_body]
pub(crate) fn local_now() -> (r: String) {
    chrono::Local::now().to_rfc3339()
}

impl TodoDatabase {
    /// The directory that holds the store.
    pub closed spec fn dir(&self) -> Seq<char> {
        self.db_dir_path@
    }

    /// The name of the store's file.
    pub closed spec fn name(&self) -> Seq<char> {
        self.db_name@
    }

    /// The layout is the one that `new0` gives.
    #[verifier::type_invariant]
    spec fn laid_out(&self) -> bool {
        self.db_todo_table_ddl@ == TODO_TABLE_DDL@ && self.db_todo_index_ddl@ == TODO_INDEX_DDL@
    }

    /// The path of the store's file.
    pub open spec fn path(&self) -> Seq<char> {
        self.dir() + "/"@ + self.name()
    }

    /// The store of the user whose home directory is `home`: the file
    /// `todo.db` in the directory `.tc` below it.
    pub fn new(home: &str) -> (r: TodoDatabase)
        ensures
            r.dir() == home@ + "/.tc"@,
            r.name() == "todo.db"@,
    {
        Self::new0(concat2(home, "/.tc"), "todo.db".to_owned())
    }

    /// The store in the file `db_name` of the directory `db_dir_path`.
    pub fn new0(db_dir_path: String, db_name: String) -> (r: TodoDatabase)
        ensures
            r.dir() == db_dir_path@,
            r.name() == db_name@,
    {
        TodoDatabase {
            db_dir_path,
            db_name,
            db_todo_table_ddl: TODO_TABLE_DDL.to_owned(),
            db_todo_index_ddl: TODO_INDEX_DDL.to_owned(),
        }
    }

    /// The path of the store's file: the directory, `/`, and the name.
    pub fn get_db_path(&self) -> (r: String)
        ensures
            r@ == self.path(),
    {
        concat3(self.db_dir_path.as_str(), "/", self.db_name.as_str())
    }

    /// What is to be done before first use. `present` says whether the file
    /// at `get_db_path` is there: if so nothing is to be done.
    pub fn initialize(&self, present: bool) -> (r: Option<Setup>)
        ensures
            present ==> r is None,
            !present ==> (r matches Some(setup) && setup@ == setup_of(self.dir())),
    {
        if present {
            return None;
        }
        proof {
            use_type_invariant(self);
        }
        let table = Statement { sql: self.db_todo_table_ddl.clone(), params: Vec::new() };
        let index = Statement { sql: self.db_todo_index_ddl.clone(), params: Vec::new() };
        assert(table@.params =~= seq![]);
        assert(index@.params =~= seq![]);
        let mut statements: Vec<Statement> = Vec::new();
        statements.push(table);
        statements.push(index);
        assert(plan_view(statements@) =~= seq![table@, index@]);
        Some(
            Setup {
                directory: self.db_dir_path.clone(),
                created: concat2("Created directory: ", self.db_dir_path.as_str()),
                failed: concat3(
                    "Failed to create directory: ",
                    self.db_dir_path.as_str(),
                    ", stopping todo-cli",
                ),
                statements,
            },
        )
    }

    /// What is to be done to remove the store. `present` says whether the file
    /// at `get_db_path` is there: if not nothing is to be done.
    pub fn teardown(&self, present: bool) -> (r: Option<Teardown>)
        ensures
            !present ==> r is None,
            present ==> (r matches Some(teardown) && teardown@ == teardown_of(self.path())),
    {
        if !present {
            return None;
        }
        let path = self.get_db_path();
        let removed = concat2("Removed database: ", path.as_str());
        let failed = concat3("Failed to remove database: ", path.as_str(), ", stopping todo-cli");
        Some(Teardown { path, removed, failed })
    }

    /// The statements that add a todo at the time `now`.
    pub fn add_todo_at(&self, todo: &str, priority: Option<i32>, now: &str) -> (r: Vec<Statement>)
        ensures
            plan_view(r@) == add_plan(todo@, priority, now@),
    {
        let mut close: Vec<SqlValue> = Vec::new();
        close.push(SqlValue::Bool(true));
        close.push(SqlValue::Text(now.to_owned()));
        close.push(SqlValue::Text(todo.to_owned()));
        let mut insert: Vec<SqlValue> = Vec::new();
        insert.push(SqlValue::Text(todo.to_owned()));
        insert.push(SqlValue::Bool(false));
        insert.push(
            SqlValue::Integer(
                match priority {
                    Some(p) => p,
                    None => 0,
                },
            ),
        );
        insert.push(SqlValue::Text(now.to_owned()));
        insert.push(SqlValue::Text(now.to_owned()));
        let first = Statement {
            sql: "UPDATE todos SET done = ?1, updated_at = ?2 WHERE title = ?3".to_owned(),
            params: close,
        };
        let second = Statement {
            sql: "INSERT INTO todos (title, done, priority, created_at, updated_at) VALUES (?1, ?2, ?3, ?4, ?5)".to_owned(),
            params: insert,
        };
        assert(first@.params =~= add_plan(todo@, priority, now@)[0].params);
        assert(second@.params =~= add_plan(todo@, priority, now@)[1].params);
        let mut plan: Vec<Statement> = Vec::new();
        plan.push(first);
        plan.push(second);
        assert(plan_view(plan@) =~= add_plan(todo@, priority, now@));
        plan
    }

    /// The statements that add a todo now.
    pub fn add_todo(&self, todo: &str, priority: Option<i32>) -> (r: Vec<Statement>)
        ensures
            exists|now: Seq<char>| plan_view(r@) == #[trigger] add_plan(todo@, priority, now),
    {
        let now = local_now();
        self.add_todo_at(todo, priority, now.as_str())
    }

    /// The statement that gives the todo `id` a new title at the time `now`.
    pub fn update_todo_at(&self, id: i32, todo: &str, now: &str) -> (r: Statement)
        ensures
            r@ == update_statement(id, todo@, now@),
    {
        let mut params: Vec<SqlValue> = Vec::new();
        params.push(SqlValue::Text(todo.to_owned()));
        params.push(SqlValue::Text(now.to_owned()));
        params.push(SqlValue::Integer(id));
        let statement = Statement {
            sql: "UPDATE todos SET title = ?1, updated_at = ?2 WHERE id = ?3".to_owned(),
            params,
        };
        assert(statement@.params =~= update_statement(id, todo@, now@).params);
        statement
    }

    /// The statement that gives the todo `id` a new title now.
    pub fn update_todo(&self, id: i32, todo: &str) -> (r: Statement)
        ensures
            exists|now: Seq<char>| r@ == #[trigger] update_statement(id, todo@, now),
    {
        let now = local_now();
        self.update_todo_at(id, todo, now.as_str())
    }

    /// The query for every todo, or for the open ones only.
    pub fn list_todos(&self, include_all: bool) -> (r: Statement)
        ensures
            r@ == list_query(include_all),
    {
        let mut params: Vec<SqlValue> = Vec::new();
        let sql = if include_all {
            SELECT_TODOS.to_owned()
        } else {
            params.push(SqlValue::Bool(false));
            concat2(SELECT_TODOS, " WHERE done = ?1")
        };
        let statement = Statement { sql, params };
        assert(statement@.params =~= list_query(include_all).params);
        statement
    }

    /// The query for the todos whose title matches `%keyword%`.
    pub fn find_todos(&self, keyword: &str, include_all: bool) -> (r: Statement)
        ensures
            r@ == find_query(keyword@, include_all),
    {
        let mut params: Vec<SqlValue> = Vec::new();
        let head = concat3(SELECT_TODOS, " WHERE title LIKE '%", keyword);
        let sql = if include_all {
            concat2(head.as_str(), "%'")
        } else {
            params.push(SqlValue::Bool(false));
            concat2(head.as_str(), "%' AND done = ?1")
        };
        let statement = Statement { sql, params };
        assert(statement@.params =~= find_query(keyword@, include_all).params);
        statement
    }

    fn mark(id: i32, done: bool, now: &str) -> (r: Statement)
        ensures
            r@ == mark_statement(id, done, now@),
    {
        let mut params: Vec<SqlValue> = Vec::new();
        params.push(SqlValue::Bool(done));
        params.push(SqlValue::Text(now.to_owned()));
        params.push(SqlValue::Integer(id));
        let statement = Statement {
            sql: "UPDATE todos SET done = ?1, updated_at = ?2 WHERE id = ?3".to_owned(),
            params,
        };
        assert(statement@.params =~= mark_statement(id, done, now@).params);
        statement
    }

    /// The statement that marks the todo `id` as done at the time `now`.
    pub fn mark_as_done_at(&self, id: i32, now: &str) -> (r: Statement)
        ensures
            r@ == mark_statement(id, true, now@),
    {
        Self::mark(id, true, now)
    }

    /// The statement that marks the todo `id` as done now.
    pub fn mark_as_done(&self, id: i32) -> (r: Statement)
        ensures
            exists|now: Seq<char>| r@ == #[trigger] mark_statement(id, true, now),
    {
        let now = local_now();
        Self::mark(id, true, now.as_str())
    }

    /// The statement that marks the todo `id` as open at the time `now`.
    pub fn mark_as_undone_at(&self, id: i32, now: &str) -> (r: Statement)
        ensures
            r@ == mark_statement(id, false, now@),
    {
        Self::mark(id, false, now)
    }

    /// The statement that marks the todo `id` as open now.
    pub fn mark_as_undone(&self, id: i32) -> (r: Statement)
        ensures
            exists|now: Seq<char>| r@ == #[trigger] mark_statement(id, false, now),
    {
        let now = local_now();
        Self::mark(id, false, now.as_str())
    }

    /// The statement that deletes the todo `id`.
    pub fn remove_todo(&self, id: i32) -> (r: Statement)
        ensures
            r@ == remove_statement(id),
    {
        let mut params: Vec<SqlValue> = Vec::new();
        params.push(SqlValue::Integer(id));
        let statement = Statement { sql: "DELETE FROM todos WHERE id = ?1".to_owned(), params };
        assert(statement@.params =~= remove_statement(id).params);
        statement
    }

    /// The statement that deletes every todo.
    pub fn reset(&self) -> (r: Statement)
        ensures
            r@ == reset_statement(),
    {
        let statement = Statement { sql: "DELETE FROM todos".to_owned(), params: Vec::new() };
        assert(statement@.params =~= reset_statement().params);
        statement
    }
}

} // verus!
