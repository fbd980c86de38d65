//! Byte-level helpers for command output that arrives as raw bytes: ASCII
//! pattern search and the splitting of a byte stream into lines.

use vstd::prelude::*;

verus! {

/// The bytes of an ASCII pattern.
pub open spec fn ascii_bytes(s: Seq<char>) -> Seq<u8> {
    s.map_values(|c: char| c as u8)
}

pub open spec fn is_ascii_seq(s: Seq<char>) -> bool {
    forall|i: int| 0 <= i < s.len() ==> (#[trigger] s[i] as u32) < 128
}

/// The bytes of an ASCII string slice.
pub fn ascii_vec(s: &str) -> (v: Vec<u8>)
    requires
        is_ascii_seq(s@),
    ensures
        v@ == ascii_bytes(s@),
{
    let cs = crate::text::chars_of(s);
    let mut v: Vec<u8> = Vec::new();
    for i in 0..cs.len()
        invariant
            cs@ == s@,
            v@ == ascii_bytes(cs@.take(i as int)),
    {
        let c = cs[i];
        v.push(c as u8);
        assert(ascii_bytes(cs@.take(i + 1)) =~= ascii_bytes(cs@.take(i as int)).push(c as u8));
    }
    assert(cs@.take(cs.len() as int) =~= cs@);
    v
}

pub open spec fn bytes_occur_at(s: Seq<u8>, p: Seq<u8>, i: int) -> bool {
    0 <= i && i + p.len() <= s.len() && s.subrange(i, i + p.len()) == p
}

pub open spec fn bytes_contain(s: Seq<u8>, p: Seq<u8>) -> bool {
    exists|i: int| bytes_occur_at(s, p, i)
}

fn bytes_match_at(s: &Vec<u8>, p: &Vec<u8>, i: usize) -> (r: bool)
    requires
        i + p.len() <= s.len(),
    ensures
        r == (s@.subrange(i as int, i + p.len()) == p@),
{
    let mut j: usize = 0;
    while j < p.len()
        invariant
            j <= p.len(),
            i + p.len() <= s.len(),
            s@.subrange(i as int, i + j) == p@.take(j as int),
        decreases p.len() - j,
    {
        if s[i + j] != p[j] {
            assert(s@.subrange(i as int, i + p.len())[j as int] != p@[j as int]);
            return false;
        }
        assert(s@.subrange(i as int, i + j + 1) =~= s@.subrange(i as int, i + j).push(s@[i + j]));
        assert(p@.take(j + 1) =~= p@.take(j as int).push(p@[j as int]));
        j = j + 1;
    }
    assert(p@.take(p.len() as int) =~= p@);
    true
}

/// Whether the byte pattern `p` occurs in `s`.
pub fn bytes_find(s: &Vec<u8>, p: &Vec<u8>) -> (r: bool)
    ensures
        r == bytes_contain(s@, p@),
{
    if p.len() > s.len() {
        return false;
    }
    if p.len() == 0 {
        assert(s@.subrange(0, 0) =~= p@);
        assert(bytes_occur_at(s@, p@, 0));
        return true;
    }
    let last = s.len() - p.len();
    let mut i: usize = 0;
    while i <= last
        invariant
            last + p.len() == s.len(),
            p.len() > 0,
            forall|k: int| 0 <= k < i ==> !bytes_occur_at(s@, p@, k),
        decreases last + 1 - i,
    {
        if bytes_match_at(s, p, i) {
            assert(bytes_occur_at(s@, p@, i as int));
            return true;
        }
        i = i + 1;
    }
    false
}

// ── line splitting of a byte stream ─────────────────────────────────────

/// Feeding `bytes` to a line assembler that holds the partial line `buf`:
/// each `\n` completes the pending line, `\r` is dropped, and every other
/// byte extends the pending line. Gives the completed lines, in order, and
/// the new partial line.
pub open spec fn feed_lines(buf: Seq<u8>, bytes: Seq<u8>) -> (Seq<Seq<u8>>, Seq<u8>)
    decreases bytes.len(),
{
    if bytes.len() == 0 {
        (Seq::<Seq<u8>>::empty(), buf)
    } else {
        let prev = feed_lines(buf, bytes.drop_last());
        let c = bytes.last();
        if c == 10u8 {
            (prev.0.push(prev.1), Seq::<u8>::empty())
        } else if c == 13u8 {
            prev
        } else {
            (prev.0, prev.1.push(c))
        }
    }
}

/// Feeding a stream in two chunks completes the same lines, and leaves the
/// same partial line, as feeding it at once.
pub proof fn law_feed_lines_split(buf: Seq<u8>, a: Seq<u8>, b: Seq<u8>)
    ensures
        ({
            let first = feed_lines(buf, a);
            let second = feed_lines(first.1, b);
            feed_lines(buf, a + b) == (first.0 + second.0, second.1)
        }),
    decreases b.len(),
{
    let first = feed_lines(buf, a);
    if b.len() == 0 {
        assert(a + b =~= a);
        assert(first.0 + Seq::<Seq<u8>>::empty() =~= first.0);
    } else {
        law_feed_lines_split(buf, a, b.drop_last());
        assert((a + b).drop_last() =~= a + b.drop_last());
        assert((a + b).last() == b.last());
        let second_prev = feed_lines(first.1, b.drop_last());
        if b.last() == 10u8 {
            assert(first.0 + second_prev.0.push(second_prev.1) =~= (first.0 + second_prev.0).push(
                second_prev.1,
            ));
        }
    }
}

/// Assembles lines from a byte stream that arrives in arbitrary chunks.
pub struct LineAssembler {
    buf: Vec<u8>,
}

impl LineAssembler {
    /// The partial line held so far.
    pub closed spec fn pending(&self) -> Seq<u8> {
        self.buf@
    }

    pub fn new() -> (r: Self)
        ensures
            r.pending() == Seq::<u8>::empty(),
    {
        LineAssembler { buf: Vec::new() }
    }

    /// Feeds one chunk and returns the lines it completes.
    pub fn feed(&mut self, chunk: &[u8]) -> (lines: Vec<Vec<u8>>)
        ensures
            lines@.map_values(|l: Vec<u8>| l@) == feed_lines(old(self).pending(), chunk@).0,
            final(self).pending() == feed_lines(old(self).pending(), chunk@).1,
    {
        let ghost start = self.buf@;
        let mut lines: Vec<Vec<u8>> = Vec::new();
        proof {
            assert(chunk@.take(0) =~= Seq::<u8>::empty());
        }
        for i in 0..chunk.len()
            invariant
                lines@.map_values(|l: Vec<u8>| l@) == feed_lines(start, chunk@.take(i as int)).0,
                self.buf@ == feed_lines(start, chunk@.take(i as int)).1,
        {
            let c = chunk[i];
            let ghost t = chunk@.take(i + 1);
            proof {
                assert(t.drop_last() =~= chunk@.take(i as int));
                assert(t.last() == c);
            }
            if c == 10u8 {
                let mut done: Vec<u8> = Vec::new();
                std::mem::swap(&mut done, &mut self.buf);
                let ghost old_lines = lines@;
                lines.push(done);
                proof {
                    assert(lines@.map_values(|l: Vec<u8>| l@) =~= old_lines.map_values(
                        |l: Vec<u8>| l@,
                    ).push(done@));
                }
            } else if c != 13u8 {
                self.buf.push(c);
            }
        }
        proof {
            assert(chunk@.take(chunk@.len() as int) =~= chunk@);
        }
        lines
    }
}

} // verus!
