//! The shared log buffer that the output relay fills: an append-only
//! ordered sequence of lines.  Each stdout line goes in verbatim,
//! each stderr line behind an error marker.  The relay's two draining
//! threads and the display own it behind a mutual-exclusion lock in
//! the surrounding program; the buffer itself only grows.

use vstd::prelude::*;
use crate::locator::seq_views;

verus! {

/// The marker put before every stderr line.
pub open spec fn err_marker() -> Seq<char> {
    "ERR: "@
}

/// The buffer entry owed for a stderr line.
pub open spec fn stderr_entry_spec(line: Seq<char>) -> Seq<char> {
    err_marker() + line
}

/// Append-only ordered sequence of log lines.
pub struct LogBuffer {
    entries: Vec<String>,
}

impl View for LogBuffer {
    type V = Seq<Seq<char>>;

    closed spec fn view(&self) -> Seq<Seq<char>> {
        seq_views(self.entries@)
    }
}

impl LogBuffer {
    /// An empty buffer.
    pub fn new() -> (b: LogBuffer)
        ensures
            b@ == Seq::<Seq<char>>::empty(),
    {
        let b = LogBuffer { entries: Vec::new() };
        proof {
            assert(b@ =~= Seq::<Seq<char>>::empty());
        }
        b
    }

    /// Appends one stdout line verbatim.
    pub fn push_stdout(&mut self, line: String)
        ensures
            final(self)@ == old(self)@.push(line@),
    {
        let ghost before = self.entries@;
        self.entries.push(line);
        proof {
            assert(self@ =~= seq_views(before).push(self.entries@.last()@));
        }
    }

    /// Appends one stderr line behind the error marker.
    pub fn push_stderr(&mut self, line: &str)
        ensures
            final(self)@ == old(self)@.push(stderr_entry_spec(line@)),
    {
        let entry = "ERR: ".to_owned().concat(line);
        let ghost before = self.entries@;
        self.entries.push(entry);
        proof {
            assert(self@ =~= seq_views(before).push(stderr_entry_spec(line@)));
        }
    }

    /// How many lines the buffer holds.
    pub fn len(&self) -> (r: usize)
        ensures
            r == self@.len(),
    {
        self.entries.len()
    }

    /// One line of the buffer.
    pub fn line(&self, i: usize) -> (r: &String)
        requires
            i < self@.len(),
        ensures
            r@ == self@[i as int],
    {
        &self.entries[i]
    }

    /// A copy of the whole buffer, for a display to walk freely.
    pub fn snapshot(&self) -> (r: Vec<String>)
        ensures
            seq_views(r@) == self@,
    {
        let mut out: Vec<String> = Vec::new();
        let mut i: usize = 0;
        while i < self.entries.len()
            invariant
                i <= self.entries.len(),
                seq_views(out@) == seq_views(self.entries@).subrange(0, i as int),
            decreases self.entries.len() - i,
        {
            let ghost before = out@;
            out.push(self.entries[i].clone());
            proof {
                assert(seq_views(out@) =~= seq_views(before).push(self.entries@[i as int]@));
                assert(seq_views(self.entries@).subrange(0, i + 1) =~= seq_views(
                    self.entries@,
                ).subrange(0, i as int).push(self.entries@[i as int]@));
            }
            i = i + 1;
        }
        proof {
            assert(seq_views(self.entries@).subrange(0, self.entries@.len() as int) =~= seq_views(
                self.entries@,
            ));
        }
        out
    }
}

} // verus!
