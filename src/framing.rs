//! Newline-delimited framing of the wire format.
//!
//! Every message is one line of JSON ended by `\n`. A read from a socket may
//! hold several lines, or part of one; `LineBuffer` keeps the unfinished tail
//! until its terminator arrives.
use vstd::prelude::*;

verus! {

/// The line terminator.
pub const NEWLINE: u8 = 10;

/// The bytes of `lines`, each followed by a terminator.
pub open spec fn joined(lines: Seq<Seq<u8>>) -> Seq<u8>
    decreases lines.len(),
{
    if lines.len() == 0 {
        Seq::empty()
    } else {
        joined(lines.drop_last()) + lines.last() + seq![NEWLINE]
    }
}

/// The contents of each line.
pub open spec fn line_views(lines: Seq<Vec<u8>>) -> Seq<Seq<u8>> {
    lines.map_values(|l: Vec<u8>| l@)
}

/// `s` holds no terminator.
pub open spec fn no_newline(s: Seq<u8>) -> bool {
    !s.contains(NEWLINE)
}

/// Frames one encoded message: its bytes followed by the terminator.
pub fn frame_line(payload: &[u8]) -> (r: Vec<u8>)
    ensures
        r@ == payload@.push(NEWLINE),
{
    let mut out: Vec<u8> = Vec::new();
    let mut i: usize = 0;
    while i < payload.len()
        invariant
            i <= payload@.len(),
            out@ == payload@.take(i as int),
        decreases payload@.len() - i,
    {
        out.push(payload[i]);
        i = i + 1;
        proof {
            assert(payload@.take(i as int) =~= payload@.take(i - 1).push(payload@[i - 1]));
        }
    }
    proof {
        assert(payload@.take(i as int) =~= payload@);
    }
    out.push(NEWLINE);
    out
}

/// Collects the bytes read from one connection and cuts them into lines.
pub struct LineBuffer {
    pending: Vec<u8>,
}

impl LineBuffer {
    /// The bytes received after the last terminator.
    pub closed spec fn pending(&self) -> Seq<u8> {
        self.pending@
    }

    /// An empty buffer.
    pub fn new() -> (r: LineBuffer)
        ensures
            r.pending() == Seq::<u8>::empty(),
    {
        LineBuffer { pending: Vec::new() }
    }

    /// Adds `bytes` and returns the lines they complete, without their
    /// terminators, in order. The tail after the last terminator stays
    /// pending: the returned lines, each with its terminator, followed by the
    /// new tail, are exactly the old tail followed by `bytes`.
    pub fn push_bytes(&mut self, bytes: &[u8]) -> (r: Vec<Vec<u8>>)
        requires
            no_newline(old(self).pending()),
        ensures
            joined(line_views(r@)) + final(self).pending() == old(self).pending() + bytes@,
            forall|i: int| 0 <= i < r@.len() ==> no_newline(#[trigger] r@[i]@),
            no_newline(final(self).pending()),
    {
        let mut cur: Vec<u8> = Vec::new();
        std::mem::swap(&mut cur, &mut self.pending);
        let mut lines: Vec<Vec<u8>> = Vec::new();
        let mut i: usize = 0;
        while i < bytes.len()
            invariant
                i <= bytes@.len(),
                joined(line_views(lines@)) + cur@ == old(self).pending() + bytes@.take(i as int),
                forall|j: int| 0 <= j < lines@.len() ==> no_newline(#[trigger] lines@[j]@),
                no_newline(cur@),
            decreases bytes@.len() - i,
        {
            let b = bytes[i];
            let ghost before = joined(line_views(lines@)) + cur@;
            if b == NEWLINE {
                let mut line: Vec<u8> = Vec::new();
                std::mem::swap(&mut line, &mut cur);
                let ghost old_lines = lines@;
                lines.push(line);
                proof {
                    assert(line_views(lines@).drop_last() =~= line_views(old_lines));
                    assert(line_views(lines@).last() == line@);
                    assert(joined(line_views(lines@)) == joined(line_views(old_lines)) + line@
                        + seq![NEWLINE]);
                    assert(cur@ =~= Seq::<u8>::empty());
                    assert(joined(line_views(lines@)) + cur@ =~= before.push(b));
                }
            } else {
                let ghost old_cur = cur@;
                cur.push(b);
                proof {
                    assert(joined(line_views(lines@)) + cur@ =~= before.push(b));
                    assert forall|x: u8| cur@.contains(x) implies x != NEWLINE by {
                        let k = choose|k: int| 0 <= k < cur@.len() && cur@[k] == x;
                        if k < old_cur.len() {
                            assert(old_cur[k] == x);
                        }
                    }
                }
            }
            i = i + 1;
            proof {
                assert(bytes@.take(i as int) =~= bytes@.take(i - 1).push(b));
            }
        }
        proof {
            assert(bytes@.take(i as int) =~= bytes@);
        }
        self.pending = cur;
        lines
    }
}

} // verus!
