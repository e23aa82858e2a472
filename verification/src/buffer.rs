//! The bounded, generation-partitioned display buffer: an ordered store of
//! formatted log lines with first-in-first-out eviction, drained only by the
//! render loop.

use vstd::prelude::*;
use crate::text;

verus! {

/// How many formatted lines one generation's buffer retains.
pub const BUFFER_CAPACITY: usize = 100;

/// How many of a buffer's lines one frame shows.
pub const VISIBLE_LINES: usize = 50;

/// What appending does to a buffer's contents: the line goes on the end, and
/// when the buffer is full the oldest entry is evicted first.
pub open spec fn append_spec(entries: Seq<Seq<char>>, line: Seq<char>) -> Seq<Seq<char>> {
    if entries.len() < BUFFER_CAPACITY {
        entries.push(line)
    } else {
        entries.drop_first().push(line)
    }
}

/// The lines a frame shows of a buffer: the most recently appended entry
/// first, and at most `VISIBLE_LINES` of them.
pub open spec fn visible_spec(entries: Seq<Seq<char>>) -> Seq<Seq<char>> {
    let n = if entries.len() <= VISIBLE_LINES {
        entries.len() as int
    } else {
        VISIBLE_LINES as int
    };
    Seq::new(n as nat, |i: int| entries[entries.len() - 1 - i])
}

/// One generation's bounded FIFO store of formatted display lines.
pub struct GenerationBuffer {
    entries: Vec<String>,
}

impl View for GenerationBuffer {
    type V = Seq<Seq<char>>;

    closed spec fn view(&self) -> Seq<Seq<char>> {
        self.entries.deep_view()
    }
}

impl GenerationBuffer {
    /// A buffer always holds at most `BUFFER_CAPACITY` entries.
    pub open spec fn wf(&self) -> bool {
        self@.len() <= BUFFER_CAPACITY
    }

    /// An empty buffer.
    pub fn new() -> (r: GenerationBuffer)
        ensures
            r@ == Seq::<Seq<char>>::empty(),
            r.wf(),
    {
        let r = GenerationBuffer { entries: Vec::new() };
        proof {
            assert(r@ =~= Seq::<Seq<char>>::empty());
        }
        r
    }

    /// How many entries the buffer currently holds.
    pub fn len(&self) -> (r: usize)
        ensures
            r == self@.len(),
    {
        self.entries.len()
    }

    /// The entry at position `i`, counted from the oldest retained one.
    pub fn entry(&self, i: usize) -> (r: &String)
        requires
            i < self@.len(),
        ensures
            r@ == self@[i as int],
    {
        &self.entries[i]
    }

    /// Whether some retained entry equals `line`.
    pub fn contains_line(&self, line: &str) -> (r: bool)
        ensures
            r == self@.contains(line@),
    {
        let n = self.entries.len();
        let mut i: usize = 0;
        while i < n
            invariant
                n == self@.len(),
                self@.len() == self.entries@.len(),
                forall|k: int| 0 <= k < self@.len() ==> self@[k] == self.entries@[k]@,
                0 <= i <= n,
                forall|k: int| 0 <= k < i ==> self@[k] != line@,
            decreases n - i,
        {
            if text::str_eq(self.entries[i].as_str(), line) {
                proof {
                    assert(self@[i as int] == line@);
                }
                return true;
            }
            i = i + 1;
        }
        false
    }

    /// Appends a formatted line, evicting the oldest entry when full.
    pub fn append_line(&mut self, line: String)
        requires
            old(self).wf(),
        ensures
            final(self).wf(),
            final(self)@ == append_spec(old(self)@, line@),
    {
        if self.entries.len() >= BUFFER_CAPACITY {
            let ghost before = self.entries.deep_view();
            self.entries.remove(0);
            proof {
                assert(self.entries.deep_view() =~= before.drop_first());
            }
        }
        let ghost mid = self.entries.deep_view();
        self.entries.push(line);
        proof {
            assert(self.entries.deep_view() =~= mid.push(line@));
        }
    }

    /// The lines a frame shows: most recently appended first, at most
    /// `VISIBLE_LINES` of them.
    pub fn visible_lines(&self) -> (r: Vec<String>)
        ensures
            r.deep_view() == visible_spec(self@),
    {
        let n = self.entries.len();
        let shown = if n <= VISIBLE_LINES {
            n
        } else {
            VISIBLE_LINES
        };
        let mut r: Vec<String> = Vec::new();
        let mut i: usize = 0;
        while i < shown
            invariant
                n == self@.len(),
                self@.len() == self.entries@.len(),
                forall|k: int| 0 <= k < self@.len() ==> self@[k] == self.entries@[k]@,
                shown <= n,
                shown == visible_spec(self@).len(),
                0 <= i <= shown,
                r.deep_view() =~= visible_spec(self@).take(i as int),
            decreases shown - i,
        {
            let ghost before = r.deep_view();
            r.push(self.entries[n - 1 - i].clone());
            proof {
                assert(r.deep_view() =~= before.push(self@[n - 1 - i]));
                assert(r.deep_view() =~= visible_spec(self@).take(i + 1));
            }
            i = i + 1;
        }
        proof {
            assert(visible_spec(self@).take(shown as int) =~= visible_spec(self@));
        }
        r
    }
}

/// A buffer never exceeds its capacity: appending to a buffer within capacity
/// keeps it within capacity, a full buffer loses exactly its oldest entry,
/// and the appended line is always the newest retained one.
pub proof fn lemma_append_bounded(entries: Seq<Seq<char>>, line: Seq<char>)
    requires
        entries.len() <= BUFFER_CAPACITY,
    ensures
        append_spec(entries, line).len() <= BUFFER_CAPACITY,
        append_spec(entries, line).last() == line,
        entries.len() == BUFFER_CAPACITY ==> append_spec(entries, line).len() == BUFFER_CAPACITY
            && (forall|i: int|
            0 <= i < BUFFER_CAPACITY - 1 ==> append_spec(entries, line)[i] == entries[i + 1]),
        entries.len() < BUFFER_CAPACITY ==> append_spec(entries, line) == entries.push(line),
{
}

/// A frame shows the most recently appended entry first and at most
/// `VISIBLE_LINES` entries, however many the buffer holds.
pub proof fn lemma_visible_most_recent_first(entries: Seq<Seq<char>>)
    ensures
        visible_spec(entries).len() == if entries.len() <= VISIBLE_LINES {
            entries.len() as int
        } else {
            VISIBLE_LINES as int
        },
        forall|i: int|
            0 <= i < visible_spec(entries).len() ==> visible_spec(entries)[i] == entries[
                entries.len() - 1 - i],
        entries.len() > 0 ==> visible_spec(entries)[0] == entries.last(),
{
}

} // verus!
