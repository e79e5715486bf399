use tinydb::db_ctx::DBContext;
use tinydb::statement::{execute_statement, ParseErrorKind, Row, Statement, StatementType};

#[test]
fn test_str_to_statement() {
    let statement_type_pairs = vec![
        ("select", StatementType::Select),
        (
            "insert 1 user user@mail.com",
            StatementType::Insert(Row::new(1, "user".to_string(), "user@mail.com".to_string())),
        ),
    ];

    for (statement_str, statement_type) in statement_type_pairs {
        assert_eq!(statement_type, Statement::parse(statement_str).unwrap().statement_type)
    }

    Statement::parse("").expect_err("Unexpected successful conversion");
}

#[test]
fn empty_line_is_empty_statement() {
    let err = Statement::parse("").unwrap_err();
    assert_eq!(err.kind, ParseErrorKind::EmptyStatement);
    assert_eq!(err.describe(), "empty statement");
}

#[test]
fn missing_fields_are_named_in_order() {
    let err = Statement::parse("insert").unwrap_err();
    assert_eq!(err.kind, ParseErrorKind::MissingField);
    assert_eq!(err.detail, "id");
    let err = Statement::parse("insert 1").unwrap_err();
    assert_eq!(err.detail, "name");
    let err = Statement::parse("insert 1 user").unwrap_err();
    assert_eq!(err.kind, ParseErrorKind::MissingField);
    assert_eq!(err.detail, "email");
    assert_eq!(err.describe(), "missing field: email");
}

#[test]
fn non_numeric_id_is_invalid() {
    for line in ["insert x user user@mail.com", "insert -1 a b", "insert + a b", "insert 4294967296 a b", "insert  a b"] {
        let err = Statement::parse(line).unwrap_err();
        assert_eq!(err.kind, ParseErrorKind::InvalidField);
        assert_eq!(err.detail, "id must be a positive integer");
        assert_eq!(err.describe(), "invalid field: id must be a positive integer");
    }
}

#[test]
fn id_bounds_and_plus_sign() {
    let st = Statement::parse("insert 4294967295 a b").unwrap();
    assert_eq!(st.statement_type, StatementType::Insert(Row::new(4294967295, "a".to_string(), "b".to_string())));
    let st = Statement::parse("insert +007 a b").unwrap();
    assert_eq!(st.statement_type, StatementType::Insert(Row::new(7, "a".to_string(), "b".to_string())));
}

#[test]
fn unrecognized_verb_is_reported() {
    let err = Statement::parse("update 1 a b").unwrap_err();
    assert_eq!(err.kind, ParseErrorKind::UnrecognizedStatement);
    assert_eq!(err.detail, "update");
    assert_eq!(err.describe(), "unrecognized statement type: 'update'");
    let err = Statement::parse("SELECT").unwrap_err();
    assert_eq!(err.kind, ParseErrorKind::UnrecognizedStatement);
    let err = Statement::parse(" select").unwrap_err();
    assert_eq!(err.detail, "");
}

#[test]
fn trailing_tokens_are_ignored() {
    let st = Statement::parse("select * from t").unwrap();
    assert_eq!(st.statement_type, StatementType::Select);
    let st = Statement::parse("insert 3 a b extra").unwrap();
    assert_eq!(st.statement_type, StatementType::Insert(Row::new(3, "a".to_string(), "b".to_string())));
}

#[test]
fn empty_tokens_between_spaces() {
    let st = Statement::parse("insert 5  b").unwrap();
    assert_eq!(st.statement_type, StatementType::Insert(Row::new(5, "".to_string(), "b".to_string())));
}

#[test]
fn row_display_form() {
    let row = Row::new(1234567890, "user".to_string(), "user@mail.com".to_string());
    assert_eq!(row.to_line(), "1234567890 user user@mail.com");
    assert_eq!(Row::new(0, "a".to_string(), "b".to_string()).to_line(), "0 a b");
    assert_eq!(row.id(), 1234567890);
    assert_eq!(row.name(), "user");
    assert_eq!(row.email(), "user@mail.com");
}

#[test]
fn insert_is_silent_and_select_lists_in_order() {
    let mut db = DBContext::new();
    let a = Statement::parse("insert 2 b b@x").unwrap();
    let b = Statement::parse("insert 1 a a@x").unwrap();
    assert_eq!(execute_statement(&mut db, &a), "");
    assert_eq!(execute_statement(&mut db, &b), "");
    assert_eq!(db.len(), 2);
    let out = execute_statement(&mut db, &Statement::parse("select").unwrap());
    assert_eq!(out, "2 b b@x\n1 a a@x\n");
    assert_eq!(db.len(), 2);
}

#[test]
fn select_on_empty_table_writes_nothing() {
    let mut db = DBContext::new();
    let out = execute_statement(&mut db, &Statement::parse("select").unwrap());
    assert_eq!(out, "");
    assert_eq!(db.list_rows(), "");
}

#[test]
fn duplicate_ids_are_kept() {
    let mut db = DBContext::new();
    db.insert_row(Row::new(1, "a".to_string(), "a@x".to_string()));
    db.insert_row(Row::new(1, "b".to_string(), "b@x".to_string()));
    assert_eq!(db.list_rows(), "1 a a@x\n1 b b@x\n");
}
