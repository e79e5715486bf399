//! Rows, statements, and the parser that turns a line of text into a statement.
use vstd::prelude::*;

use crate::db_ctx::{listing, DBContext};
use crate::text::{decimal, decimal_string, parse_u32, parse_u32_spec, split_tokens, tokens_of};

verus! {

/// What a row holds: an identifier, a name and an email.
pub struct RowView {
    pub id: u32,
    pub name: Seq<char>,
    pub email: Seq<char>,
}

/// The display form of a row: its three fields joined by single spaces.
pub open spec fn row_line(r: RowView) -> Seq<char> {
    decimal(r.id as nat) + seq![' '] + r.name + seq![' '] + r.email
}

/// A row in the database's table.
#[derive(Debug, PartialEq, Clone)]
pub struct Row {
    id: u32,
    name: String,
    email: String,
}

impl View for Row {
    type V = RowView;

    closed spec fn view(&self) -> RowView {
        RowView { id: self.id, name: self.name@, email: self.email@ }
    }
}

impl Row {
    pub fn new(id: u32, name: String, email: String) -> (r: Row)
        ensures
            r@ == (RowView { id, name: name@, email: email@ }),
    {
        Row { id, name, email }
    }

    pub fn id(&self) -> (r: u32)
        ensures
            r == self@.id,
    {
        self.id
    }

    pub fn name(&self) -> (r: &str)
        ensures
            r@ == self@.name,
    {
        self.name.as_str()
    }

    pub fn email(&self) -> (r: &str)
        ensures
            r@ == self@.email,
    {
        self.email.as_str()
    }

    /// A row with the same fields.
    pub fn duplicate(&self) -> (r: Row)
        ensures
            r@ == self@,
    {
        Row { id: self.id, name: self.name.clone(), email: self.email.clone() }
    }

    /// The display form of the row, `"{id} {name} {email}"`.
    pub fn to_line(&self) -> (r: String)
        ensures
            r@ == row_line(self@),
    {
        let mut s = decimal_string(self.id);
        s.append(" ");
        s.append(self.name.as_str());
        s.append(" ");
        s.append(self.email.as_str());
        proof {
            reveal_strlit(" ");
            assert(s@ =~= row_line(self@));
        }
        s
    }
}

/// The type of a statement.
#[derive(Debug, PartialEq)]
pub enum StatementType {
    Insert(Row),
    Select,
}

/// What a statement asks for.
pub enum StatementView {
    Insert(RowView),
    Select,
}

/// A statement of the database's language.
#[derive(Debug, PartialEq)]
pub struct Statement {
    pub statement_type: StatementType,
}

impl View for Statement {
    type V = StatementView;

    open spec fn view(&self) -> StatementView {
        match self.statement_type {
            StatementType::Insert(row) => StatementView::Insert(row@),
            StatementType::Select => StatementView::Select,
        }
    }
}

/// The kind of a parse failure.
#[derive(Clone, Copy, Debug, PartialEq, Eq, Structural)]
pub enum ParseErrorKind {
    EmptyStatement,
    MissingField,
    InvalidField,
    UnrecognizedStatement,
}

/// Why a line is not a statement: a kind, and the field, the reason or the
/// token that it concerns.
#[derive(Debug, PartialEq)]
pub struct ParseError {
    pub kind: ParseErrorKind,
    pub detail: String,
}

/// What parsing a line comes to.
pub enum ParseOutcome {
    Parsed(StatementView),
    Failed(ParseErrorKind, Seq<char>),
}

/// The outcome of parsing `line`: the first token picks the verb; `insert`
/// needs an identifier, a name and an email after it; tokens beyond those
/// that a verb reads are ignored.
pub open spec fn parse_spec(line: Seq<char>) -> ParseOutcome {
    let t = tokens_of(line);
    if t.len() == 0 {
        ParseOutcome::Failed(ParseErrorKind::EmptyStatement, Seq::empty())
    } else if t[0] == "select"@ {
        ParseOutcome::Parsed(StatementView::Select)
    } else if t[0] == "insert"@ {
        if t.len() < 2 {
            ParseOutcome::Failed(ParseErrorKind::MissingField, "id"@)
        } else if t.len() < 3 {
            ParseOutcome::Failed(ParseErrorKind::MissingField, "name"@)
        } else if t.len() < 4 {
            ParseOutcome::Failed(ParseErrorKind::MissingField, "email"@)
        } else {
            match parse_u32_spec(t[1]) {
                Some(id) => ParseOutcome::Parsed(
                    StatementView::Insert(RowView { id, name: t[2], email: t[3] }),
                ),
                None => ParseOutcome::Failed(
                    ParseErrorKind::InvalidField,
                    "id must be a positive integer"@,
                ),
            }
        }
    } else {
        ParseOutcome::Failed(ParseErrorKind::UnrecognizedStatement, t[0])
    }
}

/// The outcome that a result of parsing stands for.
pub open spec fn outcome_of(r: Result<Statement, ParseError>) -> ParseOutcome {
    match r {
        Ok(st) => ParseOutcome::Parsed(st@),
        Err(e) => ParseOutcome::Failed(e.kind, e.detail@),
    }
}

/// The human-readable description of a parse failure.
pub open spec fn parse_error_text(kind: ParseErrorKind, detail: Seq<char>) -> Seq<char> {
    match kind {
        ParseErrorKind::EmptyStatement => "empty statement"@,
        ParseErrorKind::MissingField => "missing field: "@ + detail,
        ParseErrorKind::InvalidField => "invalid field: "@ + detail,
        ParseErrorKind::UnrecognizedStatement => "unrecognized statement type: '"@ + detail
            + "'"@,
    }
}

impl ParseError {
    fn new(kind: ParseErrorKind, detail: &str) -> (r: ParseError)
        ensures
            r.kind == kind,
            r.detail@ == detail@,
    {
        ParseError { kind, detail: String::from_str(detail) }
    }

    /// A description of the failure, for diagnostics.
    pub fn describe(&self) -> (r: String)
        ensures
            r@ == parse_error_text(self.kind, self.detail@),
    {
        match self.kind {
            ParseErrorKind::EmptyStatement => String::from_str("empty statement"),
            ParseErrorKind::MissingField => {
                let mut s = String::from_str("missing field: ");
                s.append(self.detail.as_str());
                s
            },
            ParseErrorKind::InvalidField => {
                let mut s = String::from_str("invalid field: ");
                s.append(self.detail.as_str());
                s
            },
            ParseErrorKind::UnrecognizedStatement => {
                let mut s = String::from_str("unrecognized statement type: '");
                s.append(self.detail.as_str());
                s.append("'");
                s
            },
        }
    }
}

impl Statement {
    /// Parses one line of text into a statement.
    pub fn parse(line: &str) -> (r: Result<Statement, ParseError>)
        ensures
            outcome_of(r) == parse_spec(line@),
    {
        let toks = split_tokens(line);
        proof {
            reveal_strlit("select");
            reveal_strlit("insert");
        }
        if toks.len() == 0 {
            return Err(ParseError { kind: ParseErrorKind::EmptyStatement, detail: String::new() });
        }
        assert(toks@[0]@ == tokens_of(line@)[0]);
        if toks[0] == String::from_str("select") {
            Ok(Statement { statement_type: StatementType::Select })
        } else if toks[0] == String::from_str("insert") {
            if toks.len() < 2 {
                Err(ParseError::new(ParseErrorKind::MissingField, "id"))
            } else if toks.len() < 3 {
                Err(ParseError::new(ParseErrorKind::MissingField, "name"))
            } else if toks.len() < 4 {
                Err(ParseError::new(ParseErrorKind::MissingField, "email"))
            } else {
                assert(toks@[1]@ == tokens_of(line@)[1]);
                assert(toks@[2]@ == tokens_of(line@)[2]);
                assert(toks@[3]@ == tokens_of(line@)[3]);
                match parse_u32(toks[1].as_str()) {
                    Some(id) => {
                        let row = Row::new(id, toks[2].clone(), toks[3].clone());
                        Ok(Statement { statement_type: StatementType::Insert(row) })
                    },
                    None => Err(
                        ParseError::new(
                            ParseErrorKind::InvalidField,
                            "id must be a positive integer",
                        ),
                    ),
                }
            }
        } else {
            Err(ParseError { kind: ParseErrorKind::UnrecognizedStatement, detail: toks[0].clone() })
        }
    }
}

/// What executing a statement on a table with `rows` leaves in the table,
/// and what it writes out.
pub open spec fn execute_spec(rows: Seq<RowView>, st: StatementView) -> (Seq<RowView>, Seq<char>) {
    match st {
        StatementView::Insert(row) => (rows.push(row), Seq::empty()),
        StatementView::Select => (rows, listing(rows)),
    }
}

/// Executes a statement on the table, returning what it writes out: nothing
/// for an insert, the listing of the table for a select.
pub fn execute_statement(db: &mut DBContext, statement: &Statement) -> (out: String)
    ensures
        (final(db)@, out@) == execute_spec(old(db)@, statement@),
{
    match &statement.statement_type {
        StatementType::Insert(row) => {
            execute_insert(db, row);
            String::new()
        },
        StatementType::Select => execute_select(db),
    }
}

/// Executes an insert statement given a row to insert.
fn execute_insert(db: &mut DBContext, row: &Row)
    ensures
        final(db)@ == old(db)@.push(row@),
{
    db.insert_row(row.duplicate());
}

/// Executes a select statement: the listing of every row.
fn execute_select(db: &DBContext) -> (out: String)
    ensures
        out@ == listing(db@),
{
    db.list_rows()
}

/// What executing `sts` in order on a table with `rows` leaves in the table,
/// and everything it writes out.
pub open spec fn run_spec(rows: Seq<RowView>, sts: Seq<StatementView>) -> (Seq<RowView>, Seq<char>)
    decreases sts.len(),
{
    if sts.len() == 0 {
        (rows, Seq::empty())
    } else {
        let (next, out) = execute_spec(rows, sts[0]);
        let (last, rest) = run_spec(next, sts.drop_first());
        (last, out + rest)
    }
}

/// One insert statement for each row, in order.
pub open spec fn inserts(rows: Seq<RowView>) -> Seq<StatementView> {
    rows.map_values(|r: RowView| StatementView::Insert(r))
}

proof fn lemma_inserts_then_select_from(base: Seq<RowView>, rows: Seq<RowView>)
    ensures
        run_spec(base, inserts(rows).push(StatementView::Select)) == (
            base + rows,
            listing(base + rows),
        ),
    decreases rows.len(),
{
    let sts = inserts(rows).push(StatementView::Select);
    if rows.len() == 0 {
        assert(base + rows =~= base);
        assert(sts.drop_first() =~= Seq::<StatementView>::empty());
        assert(sts[0] == StatementView::Select);
        assert(run_spec(base, sts.drop_first()) == (base, Seq::<char>::empty()));
        assert(listing(base) + Seq::<char>::empty() =~= listing(base));
    } else {
        assert(sts.drop_first() =~= inserts(rows.drop_first()).push(StatementView::Select));
        assert(sts[0] == StatementView::Insert(rows[0]));
        lemma_inserts_then_select_from(base.push(rows[0]), rows.drop_first());
        assert(base.push(rows[0]) + rows.drop_first() =~= base + rows);
        assert(Seq::<char>::empty() + listing(base + rows) =~= listing(base + rows));
    }
}

/// On a fresh table, inserts of any rows followed by one select write
/// nothing until the select, which writes one line per row, in order of
/// insertion, each the row's display form.
pub proof fn lemma_inserts_then_select(rows: Seq<RowView>)
    ensures
        run_spec(Seq::empty(), inserts(rows).push(StatementView::Select)) == (rows, listing(rows)),
{
    lemma_inserts_then_select_from(Seq::empty(), rows);
    assert(Seq::<RowView>::empty() + rows =~= rows);
}

/// Selects alone on a table that received no inserts leave it empty and
/// write nothing.
pub proof fn lemma_select_on_empty(sts: Seq<StatementView>)
    requires
        forall|i: int| 0 <= i < sts.len() ==> #[trigger] sts[i] == StatementView::Select,
    ensures
        run_spec(Seq::empty(), sts) == (Seq::<RowView>::empty(), Seq::<char>::empty()),
    decreases sts.len(),
{
    if sts.len() > 0 {
        assert(sts[0] == StatementView::Select);
        lemma_select_on_empty(sts.drop_first());
        assert(Seq::<char>::empty() + Seq::<char>::empty() =~= Seq::<char>::empty());
    }
}

/// Two rows with the same identifier are both kept: a select after their
/// inserts lists both, in order of insertion.
pub proof fn lemma_duplicate_ids_kept(a: RowView, b: RowView)
    requires
        a.id == b.id,
    ensures
        run_spec(
            Seq::empty(),
            seq![StatementView::Insert(a), StatementView::Insert(b), StatementView::Select],
        ) == (seq![a, b], row_line(a) + seq!['\n'] + row_line(b) + seq!['\n']),
{
    let rows = seq![a, b];
    assert(inserts(rows).push(StatementView::Select) =~= seq![
        StatementView::Insert(a),
        StatementView::Insert(b),
        StatementView::Select,
    ]);
    lemma_inserts_then_select(rows);
    assert(rows.drop_last() =~= seq![a]);
    assert(seq![a].drop_last() =~= Seq::<RowView>::empty());
    assert(listing(Seq::<RowView>::empty()) == Seq::<char>::empty());
    assert(listing(seq![a]) =~= row_line(a) + seq!['\n']);
    assert(listing(rows) =~= row_line(a) + seq!['\n'] + row_line(b) + seq!['\n']);
}

} // verus!
