use vstd::prelude::*;

verus! {

/// The byte that ends a line.
pub const LINE_FEED: u8 = 10;

/// The number of lines of a file with the content `bytes`: how many line
/// feeds it holds. What follows the last line feed ends no line and is not
/// counted.
pub open spec fn newline_count(bytes: Seq<u8>) -> nat
    decreases bytes.len(),
{
    if bytes.len() == 0 {
        0
    } else if bytes.last() == LINE_FEED {
        newline_count(bytes.drop_last()) + 1
    } else {
        newline_count(bytes.drop_last())
    }
}

/// Where a file is read in two parts, its lines are those of the first part
/// and those of the second: it does not matter where the reads fall.
pub proof fn lemma_newline_count_concat(a: Seq<u8>, b: Seq<u8>)
    ensures
        newline_count(a + b) == newline_count(a) + newline_count(b),
    decreases b.len(),
{
    if b.len() == 0 {
        assert(a + b =~= a);
    } else {
        assert((a + b).drop_last() =~= a + b.drop_last());
        lemma_newline_count_concat(a, b.drop_last());
    }
}

/// There are at most as many lines as bytes.
pub proof fn lemma_newline_count_bound(bytes: Seq<u8>)
    ensures
        newline_count(bytes) <= bytes.len(),
    decreases bytes.len(),
{
    if bytes.len() > 0 {
        lemma_newline_count_bound(bytes.drop_last());
    }
}

/// Counts the lines of a file that is read piece by piece. Its view is the
/// content read so far.
pub struct LineCounter {
    terminated: usize,
    seen: Ghost<Seq<u8>>,
}

impl View for LineCounter {
    type V = Seq<u8>;

    closed spec fn view(&self) -> Seq<u8> {
        self.seen@
    }
}

impl LineCounter {
    #[verifier::type_invariant]
    spec fn consistent(self) -> bool {
        self.terminated == newline_count(self.seen@)
    }

    /// A counter that has read nothing.
    pub fn new() -> (counter: Self)
        ensures
            counter@ == Seq::<u8>::empty(),
    {
        LineCounter { terminated: 0, seen: Ghost(Seq::empty()) }
    }

    /// Reads the next piece of the file.
    pub fn feed(&mut self, chunk: &[u8])
        requires
            newline_count(old(self)@ + chunk@) <= usize::MAX,
        ensures
            final(self)@ == old(self)@ + chunk@,
    {
        proof {
            use_type_invariant(&*self);
        }
        let ghost before = self.seen@;
        let mut terminated: usize = self.terminated;
        let mut i: usize = 0;
        proof {
            assert(before + chunk@.take(0) =~= before);
        }
        while i < chunk.len()
            invariant
                i <= chunk@.len(),
                terminated == newline_count(before + chunk@.take(i as int)),
                newline_count(before + chunk@) <= usize::MAX,
            decreases chunk@.len() - i,
        {
            proof {
                let next = before + chunk@.take(i + 1);
                assert(next.drop_last() =~= before + chunk@.take(i as int));
                assert(next.last() == chunk@[i as int]);
                assert(before + chunk@ =~= next + chunk@.skip(i + 1));
                lemma_newline_count_concat(next, chunk@.skip(i + 1));
            }
            if chunk[i] == LINE_FEED {
                terminated = terminated + 1;
            }
            i = i + 1;
        }
        proof {
            assert(chunk@.take(i as int) =~= chunk@);
        }
        *self = LineCounter { terminated, seen: Ghost(before + chunk@) };
    }

    /// The lines of what has been read: once all of the file has been read,
    /// the lines of the file.
    pub fn finish(&self) -> (lines: usize)
        ensures
            lines == newline_count(self@),
    {
        proof {
            use_type_invariant(self);
        }
        self.terminated
    }
}

/// The number of lines of a file with the content `bytes`.
pub fn count_lines(bytes: &[u8]) -> (lines: usize)
    ensures
        lines == newline_count(bytes@),
{
    let size: usize = bytes.len();
    proof {
        assert(Seq::<u8>::empty() + bytes@ =~= bytes@);
        lemma_newline_count_bound(bytes@);
        assert(newline_count(bytes@) <= size);
    }
    let mut counter = LineCounter::new();
    counter.feed(bytes);
    counter.finish()
}

} // verus!
