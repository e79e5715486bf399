use tinydb::db_ctx::DBContext;
use tinydb::repl::{dispatch_line, do_repl, prompt, strip_line_ending, LineOutcome};

#[test]
fn test_repl() {
    // Test that a row can be inserted and retrieved
    let commands = vec!["insert 1 user1 user1@mail.com", "select", ".exit"].join("\n");
    let mut db = DBContext::new();
    let output = do_repl(&mut db, &commands).output;
    assert!(output.contains("1 user1 user1@mail.com"));

    // Test that a row can be silently inserted
    let commands = vec!["insert 2 user2 user2@mail.com", ".exit"].join("\n");
    let mut db = DBContext::new();
    let output = do_repl(&mut db, &commands).output;
    assert!(!output.contains("1 user user@mail.com"));
}

#[test]
fn session_stops_at_exit() {
    let mut db = DBContext::new();
    let t = do_repl(&mut db, "insert 1 user1 user1@mail.com\nselect\n.exit\nselect\n");
    assert_eq!(t.output, "db > db > 1 user1 user1@mail.com\ndb > ");
    assert!(t.diagnostics.is_empty());
    assert_eq!(db.len(), 1);
}

#[test]
fn silent_insert_session() {
    let mut db = DBContext::new();
    let t = do_repl(&mut db, "insert 2 user2 user2@mail.com\n.exit");
    assert_eq!(t.output, "db > db > ");
    assert!(t.diagnostics.is_empty());
    assert_eq!(db.len(), 1);
}

#[test]
fn bogus_meta_command_reports_and_continues() {
    let mut db = DBContext::new();
    let t = do_repl(&mut db, ".bogus\n.exit\n");
    assert_eq!(t.output, "db > db > ");
    assert_eq!(t.diagnostics, vec!["Error: unrecognized command '.bogus'".to_string()]);
}

#[test]
fn missing_email_leaves_table_empty() {
    let mut db = DBContext::new();
    let t = do_repl(&mut db, "insert 1 user\nselect\n.exit\n");
    assert_eq!(t.output, "db > db > db > ");
    assert_eq!(t.diagnostics, vec!["Error: missing field: email".to_string()]);
    assert_eq!(db.len(), 0);
}

#[test]
fn end_of_input_ends_session() {
    let mut db = DBContext::new();
    let t = do_repl(&mut db, "insert 1 a b\r\nselect");
    assert_eq!(t.output, "db > db > 1 a b\ndb > ");
    let mut db = DBContext::new();
    assert_eq!(do_repl(&mut db, "").output, "db > ");
    let mut db = DBContext::new();
    let t = do_repl(&mut db, "\n.exit");
    assert_eq!(t.diagnostics, vec!["Error: empty statement".to_string()]);
}

#[test]
fn dispatch_routes_lines() {
    let mut db = DBContext::new();
    assert!(matches!(dispatch_line(&mut db, ".exit"), LineOutcome::Exit));
    match dispatch_line(&mut db, "insert 9 n e") {
        LineOutcome::Continue { output, diagnostic } => {
            assert_eq!(output, "");
            assert!(diagnostic.is_none());
        }
        LineOutcome::Exit => panic!("insert ended the session"),
    }
    match dispatch_line(&mut db, "select") {
        LineOutcome::Continue { output, diagnostic } => {
            assert_eq!(output, "9 n e\n");
            assert!(diagnostic.is_none());
        }
        LineOutcome::Exit => panic!("select ended the session"),
    }
    match dispatch_line(&mut db, "delete") {
        LineOutcome::Continue { output, diagnostic } => {
            assert_eq!(output, "");
            assert_eq!(diagnostic.unwrap(), "Error: unrecognized statement type: 'delete'");
        }
        LineOutcome::Exit => panic!("unknown verb ended the session"),
    }
}

#[test]
fn line_endings_are_stripped_once() {
    assert_eq!(strip_line_ending("select\n"), "select");
    assert_eq!(strip_line_ending("select\r\n"), "select");
    assert_eq!(strip_line_ending("select \n"), "select ");
    assert_eq!(strip_line_ending("select\n\n"), "select\n");
    assert_eq!(strip_line_ending("select\r"), "select\r");
    assert_eq!(strip_line_ending("select"), "select");
    assert_eq!(prompt(), "db > ");
}
