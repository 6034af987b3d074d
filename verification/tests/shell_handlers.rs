use todo_cli::database::{SqlValue, Statement, Todo, TodoDatabase};
use todo_cli::listing::InvalidDate;
use todo_cli::shell::handlers::{
    countdown_text, handle_add, handle_done, handle_find, handle_list, handle_remove, handle_reset, handle_timer,
    handle_undone, handle_update, print_todos, show_alert, sort_and_print_todos, timer_frame, timer_seconds,
    timer_step, Cell, Failure, Invocation, Platform, Reply, Section, TimerStep, ALERT_MESSAGE, ALERT_TITLE,
    CLEAR_SCREEN, RESET_PROMPT,
};

fn tdb() -> TodoDatabase {
    TodoDatabase::new("/home/ada")
}

fn todo(id: i32, title: &str, done: bool, priority: i32, created_at: &str) -> Todo {
    Todo {
        id,
        title: title.to_string(),
        done,
        priority,
        created_at: created_at.to_string(),
        updated_at: created_at.to_string(),
    }
}

fn plain(text: &str) -> Cell {
    Cell { text: text.to_string(), highlighted: false }
}

fn header() -> Vec<Cell> {
    vec![plain("ID"), plain("Title"), plain("Priority"), plain("Done")]
}

fn parts(reply: Reply) -> (Vec<Statement>, String, Failure) {
    match reply {
        Reply::Run { statements, done, failed } => (statements, done, failed),
        Reply::Refuse(words) => panic!("refused: {}", words),
    }
}

#[test]
fn an_empty_title_is_refused() {
    assert_eq!(handle_add(&tdb(), "", Some(1)), Reply::Refuse("Todo cannot be empty".to_string()));
    assert_eq!(handle_update(&tdb(), 3, ""), Reply::Refuse("Todo cannot be empty".to_string()));
}

#[test]
fn add_runs_the_plan_and_reports_the_title() {
    let (statements, done, failed) = parts(handle_add(&tdb(), "buy milk", Some(2)));
    assert_eq!(statements.len(), 2);
    assert_eq!(statements[1].params[0], SqlValue::Text("buy milk".to_string()));
    assert_eq!(statements[1].params[2], SqlValue::Integer(2));
    assert_eq!(done, "Added task: buy milk");
    assert_eq!(failed, Failure::Abort("Failed to add todo".to_string()));
    let (_, done, _) = parts(handle_add(&tdb(), " ", None));
    assert_eq!(done, "Added task:  ");
}

#[test]
fn update_runs_one_statement() {
    let (statements, done, failed) = parts(handle_update(&tdb(), 4, "buy bread"));
    assert_eq!(statements.len(), 1);
    assert_eq!(statements[0].sql, "UPDATE todos SET title = ?1, updated_at = ?2 WHERE id = ?3");
    assert_eq!(statements[0].params[2], SqlValue::Integer(4));
    assert_eq!(done, "Updated task: buy bread");
    assert_eq!(failed, Failure::Abort("Failed to update todo".to_string()));
}

#[test]
fn done_and_undone_name_the_ids() {
    let (statements, done, failed) = parts(handle_done(&tdb(), &vec![1, 2]));
    assert_eq!(statements.len(), 2);
    assert_eq!(statements[0].params[0], SqlValue::Bool(true));
    assert_eq!(done, "Marked todo [1, 2] as done");
    assert_eq!(failed, Failure::Silent);
    let (statements, done, failed) = parts(handle_undone(&tdb(), &vec![-5]));
    assert_eq!(statements[0].params[0], SqlValue::Bool(false));
    assert_eq!(done, "Marked todo [-5] as undone");
    assert_eq!(failed, Failure::Silent);
    let (statements, done, _) = parts(handle_done(&tdb(), &vec![]));
    assert!(statements.is_empty());
    assert_eq!(done, "Marked todo [] as done");
}

#[test]
fn remove_names_the_ids() {
    let tdb = tdb();
    assert_eq!(
        handle_remove(&tdb, &vec![3, 4]),
        Reply::Run {
            statements: vec![tdb.remove_todo(3), tdb.remove_todo(4)],
            done: "Removed todo [3, 4]".to_string(),
            failed: Failure::Silent,
        }
    );
}

#[test]
fn only_yes_resets() {
    let tdb = tdb();
    let reset = Reply::Run {
        statements: vec![tdb.reset()],
        done: "Removed all todos".to_string(),
        failed: Failure::Report("Failed to remove all todos".to_string()),
    };
    assert_eq!(handle_reset(&tdb, "yes"), reset);
    assert_eq!(handle_reset(&tdb, "  yes\n"), reset);
    for answer in ["", "no", "y", "Yes", "YES", "yes please", "y e s"] {
        assert_eq!(handle_reset(&tdb, answer), Reply::Refuse("Reset aborted".to_string()), "{:?}", answer);
    }
    assert_eq!(RESET_PROMPT, "Are you sure you want to remove all todos(yes/no)?: ");
}

#[test]
fn the_table_has_a_row_for_each_todo() {
    let todos = vec![todo(12, "buy milk", true, 3, "x"), todo(-1, "walk", false, 0, "x")];
    assert_eq!(
        print_todos(&todos, None),
        vec![
            header(),
            vec![plain("12"), plain("buy milk"), plain("3"), plain("X")],
            vec![plain("-1"), plain("walk"), plain("0"), plain("")],
        ]
    );
    assert_eq!(print_todos(&vec![], Some("x")), vec![header()]);
}

#[test]
fn titles_that_hold_the_keyword_are_set_off() {
    let todos = vec![todo(1, "buy milk", false, 0, "x"), todo(2, "Milk the cow", false, 0, "x"), todo(3, "walk", false, 0, "x")];
    let rows = print_todos(&todos, Some("milk"));
    assert_eq!(rows[1][1], Cell { text: "buy milk".to_string(), highlighted: true });
    assert_eq!(rows[2][1], Cell { text: "Milk the cow".to_string(), highlighted: false });
    assert_eq!(rows[3][1], Cell { text: "walk".to_string(), highlighted: false });
    assert!(rows.iter().all(|row| !row[0].highlighted && !row[2].highlighted && !row[3].highlighted));
    let all = print_todos(&todos, Some(""));
    assert!(all[1][1].highlighted && all[2][1].highlighted && all[3][1].highlighted);
}

#[test]
fn a_listing_by_id_is_one_table() {
    let todos = vec![todo(1, "a", false, 0, "x"), todo(3, "c", false, 0, "x"), todo(2, "b", false, 0, "x")];
    let sections = sort_and_print_todos(&todos, None, false).unwrap();
    assert_eq!(sections.len(), 1);
    assert_eq!(sections[0].heading, None);
    assert!(!sections[0].gap);
    let shown: Vec<&str> = sections[0].rows.iter().map(|row| row[0].text.as_str()).collect();
    assert_eq!(shown, vec!["ID", "3", "2", "1"]);
    assert_eq!(handle_list(&todos, false), Ok(sections));
    let empty = sort_and_print_todos(&vec![], None, false).unwrap();
    assert_eq!(empty, vec![Section { heading: None, rows: vec![header()], gap: false }]);
}

#[test]
fn a_listing_by_date_has_a_table_for_each_day() {
    let todos = vec![
        todo(1, "a", false, 0, "2024-05-01T10:00:00+02:00"),
        todo(2, "b", true, 1, "2024-05-02T10:00:00+02:00"),
        todo(3, "c", false, 0, "2024-05-01T11:00:00+02:00"),
    ];
    let sections = sort_and_print_todos(&todos, Some("c"), true).unwrap();
    assert_eq!(
        sections,
        vec![
            Section {
                heading: Some("Date: 2024-05-02".to_string()),
                rows: vec![header(), vec![plain("2"), plain("b"), plain("1"), plain("X")]],
                gap: true,
            },
            Section {
                heading: Some("Date: 2024-05-01".to_string()),
                rows: vec![
                    header(),
                    vec![plain("3"), Cell { text: "c".to_string(), highlighted: true }, plain("0"), plain("")],
                    vec![plain("1"), plain("a"), plain("0"), plain("")],
                ],
                gap: false,
            },
        ]
    );
    assert_eq!(handle_find(&todos, "c", true), Ok(sections));
    assert_eq!(sort_and_print_todos(&vec![], None, true), Ok(vec![]));
}

#[test]
fn a_listing_by_date_fails_without_a_day() {
    let todos = vec![todo(1, "a", false, 0, "2024-05-01T10:00:00+02:00"), todo(2, "b", false, 0, "tomorrow")];
    assert_eq!(sort_and_print_todos(&todos, None, true), Err(InvalidDate));
    assert_eq!(handle_list(&todos, true), Err(InvalidDate));
    assert!(handle_list(&todos, false).is_ok());
}

#[test]
fn minutes_are_turned_into_seconds() {
    assert_eq!(timer_seconds(0), Some(0));
    assert_eq!(timer_seconds(25), Some(1500));
    assert_eq!(timer_seconds(u64::MAX / 60), Some(u64::MAX / 60 * 60));
    assert_eq!(timer_seconds(u64::MAX / 60 + 1), None);
    assert_eq!(timer_seconds(u64::MAX), None);
}

#[test]
fn the_time_left_is_written_in_two_digits_at_least() {
    assert_eq!(countdown_text(0), "00:00");
    assert_eq!(countdown_text(59), "00:59");
    assert_eq!(countdown_text(60), "01:00");
    assert_eq!(countdown_text(599), "09:59");
    assert_eq!(countdown_text(600), "10:00");
    assert_eq!(countdown_text(5999), "99:59");
    assert_eq!(countdown_text(6000), "100:00");
    for seconds in [0u64, 7, 61, 3599, 3600, 86399, 1_000_000, u64::MAX] {
        assert_eq!(countdown_text(seconds), format!("{:02}:{:02}", seconds / 60, seconds % 60));
    }
}

#[test]
fn a_figure_is_set_in_the_middle() {
    let rows = timer_frame("ab\ncd\n", 6, 6).unwrap();
    assert_eq!(rows, vec!["", "", "  ab", "  cd", "", ""]);
    let rows = timer_frame("abc\nd\n", 8, 5).unwrap();
    assert_eq!(rows, vec!["", "  abc", "  d", "", ""]);
    let rows = timer_frame("abc", 4, 2).unwrap();
    assert_eq!(rows, vec!["abc", ""]);
}

#[test]
fn a_figure_larger_than_the_terminal_is_not_cut() {
    let rows = timer_frame("abcdef\nabcdef\nabcdef\n", 3, 2).unwrap();
    assert_eq!(rows, vec!["abcdef", "abcdef", "abcdef"]);
    let rows = timer_frame("é\n", 4, 1).unwrap();
    assert_eq!(rows, vec![" é"]);
    assert_eq!(timer_frame("", 80, 24), None);
    assert_eq!(timer_frame("\n", 2, 3), Some(vec!["".to_string(), " ".to_string(), "".to_string()]));
}

fn padded_by_hand(figure: &str, width: u16, height: u16) -> Vec<String> {
    let lines: Vec<&str> = figure.lines().collect();
    let current_lines = lines.len();
    let term_width = width as usize;
    let term_height = height as usize;
    let vertical_padding = (term_height.saturating_sub(current_lines)) / 2;
    let horizontal_padding = (term_width.saturating_sub(lines[0].len())) / 2;
    let mut out: Vec<String> = Vec::new();
    for _ in 0..vertical_padding {
        out.push(String::new());
    }
    for line in &lines {
        out.push(format!("{:width$}{}", "", line, width = horizontal_padding));
    }
    let left_padding = term_height.saturating_sub(current_lines + vertical_padding);
    for _ in 0..left_padding {
        out.push(String::new());
    }
    out
}

#[test]
fn frames_are_laid_out_as_padding_by_hand_lays_them_out() {
    let figures = ["x", "ab\ncd\n", "wide line here\nshort\n\nlast", "é\r\nü\r\n", "1\n2\n3\n4\n5\n6\n7\n8\n"];
    for figure in figures {
        for width in [0u16, 1, 2, 5, 14, 15, 80, 65535] {
            for height in [0u16, 1, 2, 3, 8, 9, 24] {
                assert_eq!(timer_frame(figure, width, height), Some(padded_by_hand(figure, width, height)));
            }
        }
    }
}

#[test]
fn the_countdown_shows_the_time_in_large_letters() {
    let step = handle_timer(Some(65), 80, 24).unwrap();
    let rows = match step {
        TimerStep::Show(rows) => rows,
        other => panic!("unexpected step {:?}", other),
    };
    assert_eq!(rows.len(), 24);
    let figure = figlet_rs::FIGfont::standard().unwrap().convert("01:05").unwrap().to_string();
    assert_ne!(figure, "01:05");
    assert_eq!(Some(rows), timer_frame(&figure, 80, 24));
    assert_eq!(handle_timer(Some(65), 80, 24), timer_step(Some(65), Some(figure.as_str()), 80, 24));
}

#[test]
fn the_countdown_ends_with_an_alert() {
    let finish = TimerStep::Finish {
        title: "todo-cli".to_string(),
        message: "Time's up! Did you finish your work?".to_string(),
    };
    assert_eq!(handle_timer(None, 80, 24), Some(finish.clone()));
    assert_eq!(timer_step(None, None, 0, 0), Some(finish.clone()));
    assert_eq!(timer_step(None, Some("x"), 10, 10), Some(finish));
    assert_eq!(timer_step(Some(3), None, 10, 10), None);
    assert_eq!(timer_step(Some(3), Some(""), 10, 10), None);
    assert_eq!(timer_step(Some(3), Some("x"), 3, 1), Some(TimerStep::Show(vec![" x".to_string()])));
    assert_eq!(ALERT_TITLE, "todo-cli");
    assert_eq!(ALERT_MESSAGE, "Time's up! Did you finish your work?");
    assert_eq!(CLEAR_SCREEN, "\x1B[2J\x1B[H");
}

#[test]
fn each_system_has_its_alert() {
    assert_eq!(
        show_alert(Platform::MacOs, "todo-cli", "Time's up!"),
        Some(Invocation {
            program: "osascript".to_string(),
            args: vec!["-e".to_string(), "display alert \"todo-cli\" message \"Time's up!\"".to_string()],
            quiet: true,
        })
    );
    assert_eq!(
        show_alert(Platform::Linux, "todo-cli", "Time's up!"),
        Some(Invocation {
            program: "zenity".to_string(),
            args: vec!["--info".to_string(), "--text=Time's up!".to_string()],
            quiet: false,
        })
    );
    assert_eq!(
        show_alert(Platform::Windows, "todo-cli", "Time's up!"),
        Some(Invocation {
            program: "msg".to_string(),
            args: vec!["*".to_string(), "Time's up!".to_string()],
            quiet: false,
        })
    );
    assert_eq!(show_alert(Platform::Other, "todo-cli", "Time's up!"), None);
}

#[test]
fn a_frame_fills_the_terminal() {
    for figure in ["x", "a\nb\nc\n", "1\n2\n3\n4\n5\n6\n7\n"] {
        let count = figure.lines().count();
        for height in [0u16, 1, 2, 3, 4, 7, 8, 24, 1000] {
            let rows = timer_frame(figure, 80, height).unwrap();
            assert_eq!(rows.len(), count.max(height as usize));
        }
    }
}
