//! Line framing: bytes arrive in deliveries of any size, and lines leave
//! whole. A line is everything up to and including a line feed; what has
//! no line feed yet waits for more bytes.

use vstd::prelude::*;
use crate::codec::LINE_FEED;

verus! {

/// The position of the first line feed in `s`, or the length of `s` if it has none.
pub open spec fn line_end(s: Seq<u8>) -> int
    decreases s.len(),
{
    if s.len() == 0 {
        0
    } else if s[0] == LINE_FEED {
        0
    } else {
        1 + line_end(s.skip(1))
    }
}

/// The complete lines of `s` in order, each with its line feed.
pub open spec fn complete_lines(s: Seq<u8>) -> Seq<Seq<u8>>
    decreases s.len(),
{
    if 0 <= line_end(s) < s.len() {
        seq![s.take(line_end(s) + 1)] + complete_lines(s.skip(line_end(s) + 1))
    } else {
        Seq::empty()
    }
}

/// What follows the last line feed of `s`: the beginning of a line that is
/// not complete yet.
pub open spec fn partial_line(s: Seq<u8>) -> Seq<u8>
    decreases s.len(),
{
    if 0 <= line_end(s) < s.len() {
        partial_line(s.skip(line_end(s) + 1))
    } else {
        s
    }
}

/// `line_end` is the least position of a line feed.
pub proof fn lemma_line_end(s: Seq<u8>)
    ensures
        0 <= line_end(s) <= s.len(),
        line_end(s) < s.len() ==> s[line_end(s)] == LINE_FEED,
        forall|i: int| 0 <= i < line_end(s) ==> s[i] != LINE_FEED,
    decreases s.len(),
{
    if s.len() != 0 && s[0] != LINE_FEED {
        let rest = s.skip(1);
        lemma_line_end(rest);
        assert forall|i: int| 0 <= i < line_end(s) implies s[i] != LINE_FEED by {
            if i > 0 {
                assert(rest[i - 1] == s[i]);
            }
        }
    }
}

/// A position before which no line feed stands, and at which one stands or
/// the sequence ends, is `line_end`.
pub proof fn lemma_line_end_is(s: Seq<u8>, at: int)
    requires
        0 <= at <= s.len(),
        forall|i: int| 0 <= i < at ==> s[i] != LINE_FEED,
        at < s.len() ==> s[at] == LINE_FEED,
    ensures
        line_end(s) == at,
{
    lemma_line_end(s);
    if line_end(s) < at {
        assert(s[line_end(s)] != LINE_FEED);
    }
}

/// Cutting a byte stream into two deliveries at any place
/// changes neither the lines that come out nor what is left waiting.
pub proof fn lemma_split_deliveries(a: Seq<u8>, b: Seq<u8>)
    ensures
        complete_lines(a + b) == complete_lines(a) + complete_lines(partial_line(a) + b),
        partial_line(a + b) == partial_line(partial_line(a) + b),
    decreases a.len(),
{
    lemma_line_end(a);
    let e = line_end(a);
    if e < a.len() {
        lemma_line_end_is(a + b, e);
        let rest = a.skip(e + 1);
        assert((a + b).take(e + 1) =~= a.take(e + 1));
        assert((a + b).skip(e + 1) =~= rest + b);
        lemma_split_deliveries(rest, b);
        assert(seq![a.take(e + 1)] + (complete_lines(rest) + complete_lines(partial_line(rest) + b))
            =~= (seq![a.take(e + 1)] + complete_lines(rest)) + complete_lines(
            partial_line(rest) + b,
        ));
    } else {
        assert(complete_lines(a) + complete_lines(a + b) =~= complete_lines(a + b));
    }
}

/// A delivery without a line feed yields no line, and waits whole.
pub proof fn lemma_no_feed_no_line(s: Seq<u8>)
    requires
        !s.contains(LINE_FEED),
    ensures
        complete_lines(s) == Seq::<Seq<u8>>::empty(),
        partial_line(s) == s,
{
    lemma_line_end(s);
    if line_end(s) < s.len() {
        assert(s.contains(s[line_end(s)]));
    }
}

/// A line whose only line feed is its last byte is one line, with nothing left over.
pub proof fn lemma_one_line(s: Seq<u8>)
    requires
        s.len() >= 1,
        s.last() == LINE_FEED,
        !s.drop_last().contains(LINE_FEED),
    ensures
        complete_lines(s) == seq![s],
        partial_line(s) == Seq::<u8>::empty(),
{
    let at = s.len() - 1;
    assert forall|i: int| 0 <= i < at implies s[i] != LINE_FEED by {
        assert(s.drop_last()[i] == s[i]);
        assert(s.drop_last().contains(s[i]));
    }
    lemma_line_end_is(s, at);
    assert(s.take(at + 1) =~= s);
    assert(s.skip(at + 1) =~= Seq::<u8>::empty());
    assert(complete_lines(s.skip(at + 1)) =~= Seq::<Seq<u8>>::empty());
    assert(partial_line(s.skip(at + 1)) =~= Seq::<u8>::empty());
    assert(seq![s] + Seq::<Seq<u8>>::empty() =~= seq![s]);
}

/// A line that arrives in two deliveries, its line
/// feed in the second, comes out once and whole, after the second.
pub proof fn lemma_line_in_two_deliveries(first: Seq<u8>, second: Seq<u8>)
    requires
        !first.contains(LINE_FEED),
        second.len() >= 1,
        second.last() == LINE_FEED,
        !second.drop_last().contains(LINE_FEED),
    ensures
        complete_lines(first) == Seq::<Seq<u8>>::empty(),
        complete_lines(partial_line(first) + second) == seq![first + second],
        partial_line(partial_line(first) + second) == Seq::<u8>::empty(),
{
    lemma_no_feed_no_line(first);
    let whole = first + second;
    assert(whole.last() == second.last());
    assert forall|i: int| 0 <= i < whole.len() - 1 implies whole[i] != LINE_FEED by {
        if i < first.len() {
            assert(first.contains(first[i]));
        } else {
            assert(second.drop_last()[i - first.len()] == whole[i]);
            assert(second.drop_last().contains(whole[i]));
        }
    }
    assert(!whole.drop_last().contains(LINE_FEED)) by {
        if whole.drop_last().contains(LINE_FEED) {
            let i = choose|i: int| 0 <= i < whole.drop_last().len() && whole.drop_last()[i] == LINE_FEED;
            assert(whole[i] == LINE_FEED);
        }
    }
    lemma_one_line(whole);
}

/// The bytes of one connection that have arrived and not yet left as a line.
#[derive(Debug)]
pub struct LineBuffer {
    pending: Vec<u8>,
}

impl View for LineBuffer {
    type V = Seq<u8>;

    /// The bytes that wait.
    closed spec fn view(&self) -> Seq<u8> {
        self.pending@
    }
}

impl LineBuffer {
    /// A buffer in which nothing waits.
    pub fn new() -> (r: Self)
        ensures
            r@ == Seq::<u8>::empty(),
    {
        LineBuffer { pending: Vec::new() }
    }

    /// The number of bytes that wait.
    pub fn len(&self) -> (n: usize)
        ensures
            n == self@.len(),
    {
        self.pending.len()
    }

    /// Takes a delivery in, behind what waits already.
    pub fn push(&mut self, bytes: &[u8])
        ensures
            final(self)@ == old(self)@ + bytes@,
    {
        self.pending.extend_from_slice(bytes);
    }

    /// Hands out the first complete line, with its line feed, if there is
    /// one; a line that is not complete stays.
    pub fn next_line(&mut self) -> (r: Option<Vec<u8>>)
        ensures
            match r {
                Some(line) => line_end(old(self)@) < old(self)@.len() && line@ == old(self)@.take(
                    line_end(old(self)@) + 1,
                ) && final(self)@ == old(self)@.skip(line_end(old(self)@) + 1),
                None => line_end(old(self)@) == old(self)@.len() && final(self)@ == old(self)@,
            },
    {
        let mut i: usize = 0;
        while i < self.pending.len()
            invariant
                i <= self.pending@.len(),
                *self == *old(self),
                forall|k: int| 0 <= k < i ==> self.pending@[k] != LINE_FEED,
            decreases self.pending@.len() - i,
        {
            if self.pending[i] == LINE_FEED {
                proof {
                    lemma_line_end_is(self.pending@, i as int);
                }
                let mut line = self.pending.split_off(i + 1);
                std::mem::swap(&mut self.pending, &mut line);
                return Some(line);
            }
            i += 1;
        }
        proof {
            lemma_line_end_is(self.pending@, i as int);
        }
        None
    }

    /// Takes a delivery in and hands out every line that is complete with
    /// it, in order; the beginning of a further line stays.
    pub fn feed(&mut self, bytes: &[u8]) -> (lines: Vec<Vec<u8>>)
        ensures
            line_views(lines@) == complete_lines(old(self)@ + bytes@),
            final(self)@ == partial_line(old(self)@ + bytes@),
    {
        self.push(bytes);
        let ghost all = self@;
        let mut lines: Vec<Vec<u8>> = Vec::new();
        loop
            invariant
                all == old(self)@ + bytes@,
                complete_lines(all) == line_views(lines@) + complete_lines(self@),
                partial_line(all) == partial_line(self@),
            decreases self@.len(),
        {
            let ghost before = self@;
            let ghost taken = line_views(lines@);
            match self.next_line() {
                Some(line) => {
                    lines.push(line);
                    proof {
                        lemma_line_end(before);
                        assert(complete_lines(before) == seq![line@] + complete_lines(self@));
                        assert(partial_line(before) == partial_line(self@));
                        assert(line_views(lines@) =~= taken.push(line@));
                        assert(taken + (seq![line@] + complete_lines(self@)) =~= taken.push(line@)
                            + complete_lines(self@));
                    }
                },
                None => {
                    proof {
                        lemma_line_end(before);
                        assert(complete_lines(self@) =~= Seq::<Seq<u8>>::empty());
                        assert(partial_line(self@) == self@);
                        assert(line_views(lines@) + Seq::<Seq<u8>>::empty() =~= line_views(lines@));
                    }
                    return lines;
                },
            }
        }
    }
}

/// The lines of a vector of lines, as sequences of bytes.
pub open spec fn line_views(lines: Seq<Vec<u8>>) -> Seq<Seq<u8>> {
    lines.map_values(|line: Vec<u8>| line@)
}

} // verus!
