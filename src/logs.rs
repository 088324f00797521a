use crate::pipeline::{copy_texts, texts_view};
use vstd::prelude::*;

verus! {

/// The canonical log of one run: lines are only ever appended.
pub struct LogStream {
    lines: Vec<String>,
}

impl View for LogStream {
    type V = Seq<Seq<char>>;

    closed spec fn view(&self) -> Seq<Seq<char>> {
        texts_view(self.lines@)
    }
}

impl LogStream {
    pub fn new() -> (r: LogStream)
        ensures
            r@.len() == 0,
    {
        let r = LogStream { lines: Vec::new() };
        proof {
            assert(texts_view(r.lines@) =~= seq![]);
        }
        r
    }

    pub fn len(&self) -> (r: usize)
        ensures
            r == self@.len(),
    {
        self.lines.len()
    }

    /// Appends one line at the end; what was there stays.
    pub fn write_line(&mut self, line: String)
        ensures
            final(self)@ == old(self)@.push(line@),
    {
        let ghost l = line@;
        self.lines.push(line);
        proof {
            assert(texts_view(self.lines@) =~= texts_view(old(self).lines@).push(l));
        }
    }

    /// The lines from position `from` to the end, in order.
    pub fn lines_from(&self, from: usize) -> (r: Vec<String>)
        requires
            from <= self@.len(),
        ensures
            texts_view(r@) == self@.subrange(from as int, self@.len() as int),
    {
        copy_texts(&self.lines, from)
    }
}

/// A reader that follows a run's log: each fetch hands out the lines
/// appended since the last one.
pub struct FileScanner {
    position: usize,
}

impl FileScanner {
    /// How many lines this reader has seen.
    pub closed spec fn seen(&self) -> nat {
        self.position as nat
    }

    pub fn new() -> (r: FileScanner)
        ensures
            r.seen() == 0,
    {
        FileScanner { position: 0 }
    }

    /// The lines of `log` that this reader has not seen, in order. A log
    /// shorter than what was seen (a log that was replaced) yields nothing.
    pub fn fetch(&mut self, log: &Vec<String>) -> (r: Vec<String>)
        ensures
            old(self).seen() <= log@.len() ==> texts_view(r@) == texts_view(log@).subrange(
                old(self).seen() as int,
                log@.len() as int,
            ) && final(self).seen() == log@.len(),
            old(self).seen() > log@.len() ==> r@.len() == 0 && final(self).seen() == old(
                self,
            ).seen(),
    {
        if self.position > log.len() {
            return Vec::new();
        }
        let out = copy_texts(log, self.position);
        self.position = log.len();
        out
    }
}

/// Readers agree on the order of a run's log: two readers that follow the
/// same append-only log, each having seen a prefix of it (of whatever
/// length), saw the same line at every position that both have seen, so
/// neither can see two lines in an order that the other contradicts.
pub proof fn lemma_readers_agree(
    earlier: Seq<Seq<char>>,
    later: Seq<Seq<char>>,
    seen_a: nat,
    seen_b: nat,
)
    requires
        earlier.len() <= later.len(),
        earlier == later.subrange(0, earlier.len() as int),
        seen_a <= earlier.len(),
        seen_b <= later.len(),
    ensures
        forall|i: int|
            0 <= i < seen_a && i < seen_b ==> #[trigger] earlier.subrange(0, seen_a as int)[i]
                == later.subrange(0, seen_b as int)[i],
{
    assert forall|i: int| 0 <= i < seen_a && i < seen_b implies #[trigger] earlier.subrange(
        0,
        seen_a as int,
    )[i] == later.subrange(0, seen_b as int)[i] by {
        assert(earlier[i] == later[i]);
    }
}

} // verus!
