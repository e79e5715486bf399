//! The interactive loop's decisions: how a line read from the input is
//! stripped and dispatched, and a whole session run over in-memory input.
use vstd::prelude::*;

use crate::db_ctx::DBContext;
use crate::meta_command::{do_meta_command, meta_error_text, MetaCommandError, MetaCommandType};
use crate::statement::{
    execute_spec, execute_statement, parse_error_text, parse_spec, ParseOutcome, RowView, Statement,
};
use crate::text::{split_at_char, split_on, views};

verus! {

/// The prompt written before each line is read.
pub open spec fn prompt_text() -> Seq<char> {
    "db > "@
}

/// The prompt written before each line is read.
pub fn prompt() -> (r: &'static str)
    ensures
        r@ == prompt_text(),
{
    "db > "
}

/// `s` without one trailing carriage return.
pub open spec fn strip_cr(s: Seq<char>) -> Seq<char> {
    if s.len() > 0 && s.last() == '\r' {
        s.drop_last()
    } else {
        s
    }
}

/// A line as read, without its line break: a trailing `\n`, or `\r\n`.
pub open spec fn strip_line_ending_spec(s: Seq<char>) -> Seq<char> {
    if s.len() > 0 && s.last() == '\n' {
        strip_cr(s.drop_last())
    } else {
        s
    }
}

fn strip_cr_str(s: &str) -> (r: String)
    ensures
        r@ == strip_cr(s@),
{
    let n = s.unicode_len();
    if n > 0 && s.get_char(n - 1) == '\r' {
        let r = s.substring_char(0, n - 1).to_owned();
        assert(r@ =~= s@.drop_last());
        r
    } else {
        s.to_owned()
    }
}

/// Removes one trailing line break, `\n` or `\r\n`, from a line as read;
/// other trailing whitespace stays.
pub fn strip_line_ending(buf: &str) -> (r: String)
    ensures
        r@ == strip_line_ending_spec(buf@),
{
    let n = buf.unicode_len();
    if n > 0 && buf.get_char(n - 1) == '\n' {
        let body = buf.substring_char(0, n - 1);
        assert(body@ =~= buf@.drop_last());
        strip_cr_str(body)
    } else {
        buf.to_owned()
    }
}

/// What dispatching a line comes to.
pub enum LineOutcome {
    /// The session ends.
    Exit,
    /// The session goes on, after writing `output` to the output sink and
    /// `diagnostic`, if any, to the diagnostic channel.
    Continue { output: String, diagnostic: Option<String> },
}

/// What dispatching a line comes to, over views.
pub enum LineOutcomeView {
    Exit,
    Continue { output: Seq<char>, diagnostic: Option<Seq<char>> },
}

impl View for LineOutcome {
    type V = LineOutcomeView;

    open spec fn view(&self) -> LineOutcomeView {
        match self {
            LineOutcome::Exit => LineOutcomeView::Exit,
            LineOutcome::Continue { output, diagnostic } => LineOutcomeView::Continue {
                output: output@,
                diagnostic: match diagnostic {
                    Some(d) => Some(d@),
                    None => None,
                },
            },
        }
    }
}

/// A diagnostic line for a failure described by `text`.
pub open spec fn error_line(text: Seq<char>) -> Seq<char> {
    "Error: "@ + text
}

/// The table and the outcome after dispatching `line` on a table with `rows`:
/// a line that starts with `.` is a meta-command, any other a statement.
pub open spec fn dispatch_spec(rows: Seq<RowView>, line: Seq<char>) -> (Seq<RowView>, LineOutcomeView) {
    if line.len() > 0 && line[0] == '.' {
        if line == ".exit"@ {
            (rows, LineOutcomeView::Exit)
        } else {
            (
                rows,
                LineOutcomeView::Continue {
                    output: Seq::empty(),
                    diagnostic: Some(error_line(meta_error_text(line))),
                },
            )
        }
    } else {
        match parse_spec(line) {
            ParseOutcome::Parsed(st) => (
                execute_spec(rows, st).0,
                LineOutcomeView::Continue { output: execute_spec(rows, st).1, diagnostic: None },
            ),
            ParseOutcome::Failed(kind, detail) => (
                rows,
                LineOutcomeView::Continue {
                    output: Seq::empty(),
                    diagnostic: Some(error_line(parse_error_text(kind, detail))),
                },
            ),
        }
    }
}

fn error_message(text: String) -> (r: String)
    ensures
        r@ == error_line(text@),
{
    let mut s = String::from_str("Error: ");
    s.append(text.as_str());
    s
}

/// Dispatches one line, without its line break, to the meta-command
/// interpreter or to the statement parser and executor.
pub fn dispatch_line(db: &mut DBContext, line: &str) -> (r: LineOutcome)
    ensures
        (final(db)@, r@) == dispatch_spec(old(db)@, line@),
{
    if line.unicode_len() > 0 && line.get_char(0) == '.' {
        match do_meta_command(line) {
            Ok(MetaCommandType::Exit) => LineOutcome::Exit,
            Err(e) => {
                let d = error_message(e.describe());
                LineOutcome::Continue { output: String::new(), diagnostic: Some(d) }
            },
        }
    } else {
        match Statement::parse(line) {
            Ok(statement) => {
                let output = execute_statement(db, &statement);
                LineOutcome::Continue { output, diagnostic: None }
            },
            Err(e) => {
                let d = error_message(e.describe());
                LineOutcome::Continue { output: String::new(), diagnostic: Some(d) }
            },
        }
    }
}

/// The lines of an in-memory input: the pieces between line breaks, each
/// without its `\n` or `\r\n`; a last piece without a line break is a line
/// too, unless it is empty (the input ends there).
pub open spec fn input_lines(input: Seq<char>) -> Seq<Seq<char>> {
    let p = split_on(input, '\n');
    let terminated = p.drop_last().map_values(|l: Seq<char>| strip_cr(l));
    if p.last().len() == 0 {
        terminated
    } else {
        terminated.push(p.last())
    }
}

/// What a session over `lines` leaves in a table that held `rows`, what it
/// writes to the output sink, and the lines it writes to the diagnostic
/// channel. A prompt comes before each read; the end of the input ends the
/// session as `.exit` does.
pub open spec fn session_spec(rows: Seq<RowView>, lines: Seq<Seq<char>>) -> (
    Seq<RowView>,
    Seq<char>,
    Seq<Seq<char>>,
)
    decreases lines.len(),
{
    if lines.len() == 0 {
        (rows, prompt_text(), Seq::empty())
    } else {
        let (next, outcome) = dispatch_spec(rows, lines[0]);
        match outcome {
            LineOutcomeView::Exit => (rows, prompt_text(), Seq::empty()),
            LineOutcomeView::Continue { output, diagnostic } => {
                let (last, out, diags) = session_spec(next, lines.drop_first());
                let d = match diagnostic {
                    Some(t) => seq![t],
                    None => Seq::empty(),
                };
                (last, prompt_text() + output + out, d + diags)
            },
        }
    }
}

/// What a session over in-memory input wrote.
pub struct Transcript {
    /// Everything written to the output sink, prompts included.
    pub output: String,
    /// The lines written to the diagnostic channel.
    pub diagnostics: Vec<String>,
}

/// Runs a session over in-memory input: for each line, writes the prompt,
/// then dispatches the line, until `.exit` or the end of the input.
pub fn do_repl(db: &mut DBContext, input: &str) -> (r: Transcript)
    ensures
        (final(db)@, r.output@, views(r.diagnostics@)) == session_spec(
            old(db)@,
            input_lines(input@),
        ),
{
    let pieces = split_at_char(input, '\n');
    let ghost p = views(pieces@);
    let ghost lines = input_lines(input@);
    let n = pieces.len();
    let count: usize = if pieces[n - 1].unicode_len() == 0 { n - 1 } else { n };
    assert(lines.len() == count);
    let mut output = String::new();
    let mut diagnostics: Vec<String> = Vec::new();
    let mut i: usize = 0;
    assert(lines.subrange(0, count as int) =~= lines);
    while i < count
        invariant
            i <= count,
            count <= n,
            n == pieces@.len(),
            p == views(pieces@),
            p == split_on(input@, '\n'),
            lines == input_lines(input@),
            lines.len() == count,
            ({
                let (rf, of, df) = session_spec(db@, lines.subrange(i as int, count as int));
                (rf, output@ + of, views(diagnostics@) + df) == session_spec(old(db)@, lines)
            }),
        decreases count - i,
    {
        let ghost rows = db@;
        let ghost rest = lines.subrange(i as int, count as int);
        assert(rest.drop_first() =~= lines.subrange(i + 1, count as int));
        let line = if i < n - 1 {
            strip_cr_str(pieces[i].as_str())
        } else {
            pieces[i].clone()
        };
        assert(line@ == lines[i as int]);
        assert(rest[0] == lines[i as int]);
        let ghost before = output@;
        output.append(prompt());
        match dispatch_line(db, line.as_str()) {
            LineOutcome::Exit => {
                assert(views(diagnostics@) + Seq::<Seq<char>>::empty() =~= views(diagnostics@));
                return Transcript { output, diagnostics };
            },
            LineOutcome::Continue { output: out, diagnostic } => {
                let ghost dbefore = views(diagnostics@);
                output.append(out.as_str());
                match diagnostic {
                    Some(d) => {
                        diagnostics.push(d);
                        assert(views(diagnostics@) =~= dbefore.push(d@));
                    },
                    None => {},
                }
                proof {
                    let (rf, of, df) = session_spec(db@, lines.subrange(i + 1, count as int));
                    assert(output@ + of =~= before + (prompt_text() + out@ + of));
                    assert(views(diagnostics@) + df =~= dbefore + (match diagnostic {
                        Some(t) => seq![t@],
                        None => Seq::empty(),
                    } + df));
                }
            },
        }
        i = i + 1;
    }
    output.append(prompt());
    assert(lines.subrange(count as int, count as int) =~= Seq::<Seq<char>>::empty());
    assert(views(diagnostics@) + Seq::<Seq<char>>::empty() =~= views(diagnostics@));
    Transcript { output, diagnostics }
}

} // verus!
