//! The initial tail: the last `n` lines of a file's content, normalized,
//! computed in one forward pass through a bounded FIFO line buffer.

use vstd::prelude::*;
use crate::lines::{normalize_line, normalize_tail_line, split_lines, split_lines_from};

verus! {

/// The last `n` elements of `s`, or all of `s` when it is shorter.
pub open spec fn last_n<A>(s: Seq<A>, n: nat) -> Seq<A> {
    if s.len() <= n {
        s
    } else {
        s.skip(s.len() - n)
    }
}

/// Every line of `ls`, normalized.
pub open spec fn normalize_all(ls: Seq<Seq<u8>>) -> Seq<Seq<u8>> {
    ls.map_values(|l: Seq<u8>| normalize_line(l))
}

/// What the initial tail emits for content `s` and requested count `n`: the
/// last `min(n, L)` of the file's `L` raw lines, each normalized, in order.
pub open spec fn tail_spec(s: Seq<u8>, n: nat) -> Seq<Seq<u8>> {
    last_n(normalize_all(split_lines(s)), n)
}

/// Pushing onto the tail of a sequence commutes with keeping its last `n`
/// elements: a bounded FIFO buffer that evicts its oldest element therefore
/// tracks the last `n` of everything ever pushed.
pub proof fn lemma_last_n_push<A>(s: Seq<A>, x: A, n: nat)
    ensures
        last_n(last_n(s, n).push(x), n) == last_n(s.push(x), n),
{
    assert(last_n(last_n(s, n).push(x), n) =~= last_n(s.push(x), n));
}

/// Pointwise reading of the deep view of a vector of byte vectors.
pub(crate) proof fn lemma_deep_view_points(v: Vec<Vec<u8>>)
    ensures
        v.deep_view().len() == v@.len(),
        forall|i: int| 0 <= i < v@.len() ==> #[trigger] v.deep_view()[i] == v@[i]@,
{
    assert forall|i: int| 0 <= i < v@.len() implies #[trigger] v.deep_view()[i] == v@[i]@ by {
        assert(v@[i].deep_view() =~= v@[i]@);
    }
}

proof fn lemma_normalize_all_push(ls: Seq<Seq<u8>>, l: Seq<u8>)
    ensures
        normalize_all(ls.push(l)) == normalize_all(ls).push(normalize_line(l)),
{
    assert(normalize_all(ls.push(l)) =~= normalize_all(ls).push(normalize_line(l)));
}

/// An ordered, bounded buffer of the most recently pushed lines: at most
/// `capacity` lines are retained, and pushing onto a full buffer evicts the
/// oldest one first.
pub struct LineBuffer {
    capacity: usize,
    lines: Vec<Vec<u8>>,
}

impl View for LineBuffer {
    type V = Seq<Seq<u8>>;

    closed spec fn view(&self) -> Seq<Seq<u8>> {
        self.lines.deep_view()
    }
}

impl LineBuffer {
    /// The bound the buffer was created with.
    pub closed spec fn cap(&self) -> nat {
        self.capacity as nat
    }

    /// The buffer never holds more lines than its bound.
    pub open spec fn wf(&self) -> bool {
        self@.len() <= self.cap()
    }

    /// An empty buffer with the given bound.
    pub fn new(capacity: usize) -> (buf: LineBuffer)
        ensures
            buf.wf(),
            buf.cap() == capacity,
            buf@ == Seq::<Seq<u8>>::empty(),
    {
        let buf = LineBuffer { capacity, lines: Vec::new() };
        proof {
            assert(buf@ =~= Seq::<Seq<u8>>::empty());
        }
        buf
    }

    /// Appends a line; when the bound is exceeded the oldest line is
    /// dropped, so the buffer always holds the last `cap()` lines pushed.
    pub fn push(&mut self, line: Vec<u8>)
        requires
            old(self).wf(),
        ensures
            final(self).wf(),
            final(self).cap() == old(self).cap(),
            final(self)@ == last_n(old(self)@.push(line@), old(self).cap()),
    {
        let ghost pushed = old(self)@.push(line@);
        proof {
            lemma_deep_view_points(old(self).lines);
        }
        self.lines.push(line);
        proof {
            lemma_deep_view_points(self.lines);
            assert(self.lines.deep_view() =~= pushed);
        }
        if self.lines.len() > self.capacity {
            let ghost mid = self.lines;
            self.lines.remove(0);
            proof {
                lemma_deep_view_points(mid);
                lemma_deep_view_points(self.lines);
                assert(self.lines.deep_view() =~= pushed.skip(1));
                assert(pushed.skip(1) =~= last_n(pushed, old(self).cap()));
            }
        }
    }

    /// The number of lines currently held.
    pub fn len(&self) -> (n: usize)
        ensures
            n == self@.len(),
    {
        proof {
            assert(self.lines.deep_view().len() == self.lines@.len());
        }
        self.lines.len()
    }

    /// Gives up the buffer's lines, oldest first.
    pub fn into_lines(self) -> (lines: Vec<Vec<u8>>)
        ensures
            lines.deep_view() == self@,
    {
        self.lines
    }
}

/// Computes the initial tail of `content`: its last `n` raw lines, each
/// normalized to single-linefeed termination, in their original order.
pub fn tail_lines(content: &Vec<u8>, n: usize) -> (lines: Vec<Vec<u8>>)
    ensures
        lines.deep_view() == tail_spec(content@, n as nat),
{
    let mut buf = LineBuffer::new(n);
    let mut cur: Vec<u8> = Vec::new();
    let ghost mut done: Seq<Seq<u8>> = Seq::empty();
    let mut i: usize = 0;
    proof {
        assert(content@.skip(0) =~= content@);
        assert(Seq::<Seq<u8>>::empty() + split_lines(content@) =~= split_lines(content@));
        assert(normalize_all(Seq::<Seq<u8>>::empty()) =~= Seq::<Seq<u8>>::empty());
    }
    while i < content.len()
        invariant
            i <= content@.len(),
            buf.wf(),
            buf.cap() == n as nat,
            split_lines(content@) == done + split_lines_from(
                content@.skip(i as int),
                cur@,
            ),
            buf@ == last_n(normalize_all(done), n as nat),
        decreases content@.len() - i,
    {
        let ghost rest = content@.skip(i as int);
        let b = content[i];
        proof {
            assert(rest[0] == b);
            assert(rest.skip(1) =~= content@.skip(i as int + 1));
        }
        cur.push(b);
        i = i + 1;
        if b == 10u8 {
            let ghost chunk = cur@;
            let mut finished = cur;
            cur = Vec::new();
            normalize_tail_line(&mut finished);
            proof {
                assert(done + (seq![chunk] + split_lines_from(
                    content@.skip(i as int),
                    Seq::<u8>::empty(),
                )) =~= done.push(chunk) + split_lines_from(
                    content@.skip(i as int),
                    Seq::<u8>::empty(),
                ));
                lemma_last_n_push(normalize_all(done), normalize_line(chunk), n as nat);
                lemma_normalize_all_push(done, chunk);
            }
            buf.push(finished);
            proof {
                done = done.push(chunk);
            }
        }
    }
    proof {
        assert(content@.skip(i as int) =~= Seq::<u8>::empty());
    }
    if cur.len() > 0 {
        let ghost chunk = cur@;
        normalize_tail_line(&mut cur);
        proof {
            assert(done + seq![chunk] =~= done.push(chunk));
            lemma_last_n_push(normalize_all(done), normalize_line(chunk), n as nat);
            lemma_normalize_all_push(done, chunk);
        }
        buf.push(cur);
        proof {
            done = done.push(chunk);
        }
    } else {
        proof {
            assert(done + Seq::<Seq<u8>>::empty() =~= done);
        }
    }
    proof {
        assert(split_lines(content@) == done);
    }
    buf.into_lines()
}

/// Concatenates lines into one byte vector: the exact bytes the tail prints.
pub fn concat_lines(lines: &Vec<Vec<u8>>) -> (out: Vec<u8>)
    ensures
        out@ == lines.deep_view().flatten(),
{
    proof {
        lemma_deep_view_points(*lines);
    }
    let ghost dv = lines.deep_view();
    let mut out: Vec<u8> = Vec::new();
    let mut i: usize = 0;
    proof {
        assert(dv.take(0) =~= Seq::<Seq<u8>>::empty());
    }
    while i < lines.len()
        invariant
            i <= lines@.len(),
            dv == lines.deep_view(),
            dv.len() == lines@.len(),
            forall|k: int| 0 <= k < lines@.len() ==> #[trigger] dv[k] == lines@[k]@,
            out@ == dv.take(i as int).flatten(),
        decreases lines@.len() - i,
    {
        let line = &lines[i];
        let ghost base = out@;
        let mut j: usize = 0;
        proof {
            assert(base + line@.take(0) =~= base);
        }
        while j < line.len()
            invariant
                j <= line@.len(),
                out@ == base + line@.take(j as int),
            decreases line@.len() - j,
        {
            out.push(line[j]);
            proof {
                assert(base + line@.take(j as int + 1) =~= (base + line@.take(
                    j as int,
                )).push(line@[j as int]));
            }
            j = j + 1;
        }
        proof {
            broadcast use Seq::lemma_flatten_push;

            assert(line@.take(line@.len() as int) =~= line@);
            assert(dv.take(i as int).push(dv[i as int]) =~= dv.take(i as int + 1));
            assert(out@ =~= dv.take(i as int + 1).flatten());
        }
        i = i + 1;
    }
    proof {
        assert(dv.take(dv.len() as int) =~= dv);
    }
    out
}

/// Law: the initial tail holds exactly the last `min(n, L)` of the file's
/// `L` lines, each normalized, in their original order.
pub proof fn lemma_tail_is_last_lines(s: Seq<u8>, n: nat)
    ensures
        tail_spec(s, n).len() == if split_lines(s).len() <= n {
            split_lines(s).len()
        } else {
            n
        },
        forall|i: int|
            0 <= i < tail_spec(s, n).len() ==> tail_spec(s, n)[i] == normalize_line(
                split_lines(s)[split_lines(s).len() - tail_spec(s, n).len() + i],
            ),
{
}

/// Law: with a requested count of zero the initial tail is empty.
pub proof fn lemma_tail_zero(s: Seq<u8>)
    ensures
        tail_spec(s, 0) == Seq::<Seq<u8>>::empty(),
{
    assert(tail_spec(s, 0) =~= Seq::<Seq<u8>>::empty());
}

/// Law: when the requested count is at least the number of lines, the tail
/// is the entire file, line for line, normalized and in unchanged order.
pub proof fn lemma_tail_whole_file(s: Seq<u8>, n: nat)
    requires
        n >= split_lines(s).len(),
    ensures
        tail_spec(s, n) == normalize_all(split_lines(s)),
{
}

} // verus!
