//! The row store: the single in-memory table.
use vstd::prelude::*;

use crate::statement::{row_line, Row, RowView};

verus! {

/// The rows in order, each in display form followed by a line break.
pub open spec fn listing(rows: Seq<RowView>) -> Seq<char>
    decreases rows.len(),
{
    if rows.len() == 0 {
        Seq::empty()
    } else {
        listing(rows.drop_last()) + row_line(rows.last()) + seq!['\n']
    }
}

/// A handle on the database: its single table, rows in order of insertion.
pub struct DBContext {
    rows: Vec<Row>,
}

impl View for DBContext {
    type V = Seq<RowView>;

    closed spec fn view(&self) -> Seq<RowView> {
        self.rows@.map_values(|r: Row| r@)
    }
}

impl DBContext {
    /// A database with an empty table.
    pub fn new() -> (r: Self)
        ensures
            r@ == Seq::<RowView>::empty(),
    {
        let r = Self { rows: Vec::new() };
        assert(r@ =~= Seq::<RowView>::empty());
        r
    }

    /// The number of rows in the table.
    pub fn len(&self) -> (r: usize)
        ensures
            r == self@.len(),
    {
        self.rows.len()
    }

    /// Inserts a row at the end of the table.
    pub fn insert_row(&mut self, row: Row)
        ensures
            final(self)@ == old(self)@.push(row@),
    {
        self.rows.push(row);
        assert(self@ =~= old(self)@.push(row@));
    }

    /// Every row in order, one per line.
    pub fn list_rows(&self) -> (r: String)
        ensures
            r@ == listing(self@),
    {
        let mut out = String::new();
        let mut i: usize = 0;
        while i < self.rows.len()
            invariant
                i <= self.rows@.len(),
                out@ == listing(self@.subrange(0, i as int)),
            decreases self.rows@.len() - i,
        {
            let line = self.rows[i].to_line();
            out.append(line.as_str());
            out.append("\n");
            proof {
                reveal_strlit("\n");
                assert(self@.subrange(0, i + 1).drop_last() =~= self@.subrange(0, i as int));
            }
            i = i + 1;
        }
        assert(self@.subrange(0, i as int) =~= self@);
        out
    }
}

} // verus!
