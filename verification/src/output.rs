//! The output stream processor: splits the combined output of a worker
//! process into lines and strips terminal escape sequences (CSI and OSC
//! forms) from each line.  Working on whole characters means stripping can
//! never cut a multi-byte character apart.

use vstd::prelude::*;

verus! {

/// A CSI sequence ends at its final byte, `@` through `~`.
pub open spec fn is_csi_final(c: char) -> bool {
    0x40 <= c as int <= 0x7e
}

/// The index just past a CSI escape sequence whose parameter bytes start at
/// `j` (the end of the text if the sequence is unterminated).
pub open spec fn after_csi(s: Seq<char>, j: int) -> int
    decreases s.len() - j,
{
    if j < 0 || j >= s.len() {
        s.len() as int
    } else if is_csi_final(s[j]) {
        j + 1
    } else {
        after_csi(s, j + 1)
    }
}

/// The index just past an OSC escape sequence whose payload starts at `j`:
/// OSC ends at a BEL or at the two-character terminator ESC `\`.
pub open spec fn after_osc(s: Seq<char>, j: int) -> int
    decreases s.len() - j,
{
    if j < 0 || j >= s.len() {
        s.len() as int
    } else if s[j] == '\u{7}' {
        j + 1
    } else if s[j] == '\u{1b}' && j + 1 < s.len() && s[j + 1] == '\\' {
        j + 2
    } else {
        after_osc(s, j + 1)
    }
}

proof fn lemma_after_csi_range(s: Seq<char>, j: int)
    requires
        0 <= j,
    ensures
        j <= after_csi(s, j) || after_csi(s, j) == s.len(),
        after_csi(s, j) <= s.len(),
        j < s.len() ==> j < after_csi(s, j),
    decreases s.len() - j,
{
    if 0 <= j < s.len() && !is_csi_final(s[j]) {
        lemma_after_csi_range(s, j + 1);
    }
}

proof fn lemma_after_osc_range(s: Seq<char>, j: int)
    requires
        0 <= j,
    ensures
        j <= after_osc(s, j) || after_osc(s, j) == s.len(),
        after_osc(s, j) <= s.len(),
        j < s.len() ==> j < after_osc(s, j),
    decreases s.len() - j,
{
    if 0 <= j < s.len() && s[j] != '\u{7}' && !(s[j] == '\u{1b}' && j + 1 < s.len() && s[j + 1]
        == '\\') {
        lemma_after_osc_range(s, j + 1);
    }
}

/// The text from index `i` on with every escape sequence removed: ESC `[`
/// starts a CSI sequence, ESC `]` an OSC sequence, and any other ESC is
/// dropped together with the character after it; everything else stays, in
/// order.
pub open spec fn strip_from(s: Seq<char>, i: int) -> Seq<char>
    decreases s.len() - i,
    via strip_from_dec
{
    if i < 0 || i >= s.len() {
        Seq::empty()
    } else if s[i] == '\u{1b}' {
        if i + 1 < s.len() && s[i + 1] == '[' {
            strip_from(s, after_csi(s, i + 2))
        } else if i + 1 < s.len() && s[i + 1] == ']' {
            strip_from(s, after_osc(s, i + 2))
        } else if i + 2 <= s.len() {
            strip_from(s, i + 2)
        } else {
            Seq::empty()
        }
    } else {
        seq![s[i]] + strip_from(s, i + 1)
    }
}

#[via_fn]
proof fn strip_from_dec(s: Seq<char>, i: int) {
    if 0 <= i < s.len() && s[i] == '\u{1b}' {
        if i + 1 < s.len() && s[i + 1] == '[' {
            lemma_after_csi_range(s, i + 2);
        } else if i + 1 < s.len() && s[i + 1] == ']' {
            lemma_after_osc_range(s, i + 2);
        }
    }
}

/// The cleaned form of a whole line.
pub open spec fn stripped(s: Seq<char>) -> Seq<char> {
    strip_from(s, 0)
}

fn is_csi_final_exec(c: char) -> (r: bool)
    ensures
        r == is_csi_final(c),
{
    let u = c as u32;
    0x40 <= u && u <= 0x7e
}

/// Removes every terminal escape sequence from one line of output.
pub fn strip_ansi_escapes(line: &Vec<char>) -> (r: Vec<char>)
    ensures
        r@ == stripped(line@),
{
    let ghost s = line@;
    let mut out: Vec<char> = Vec::new();
    let mut i: usize = 0;
    while i < line.len()
        invariant
            s == line@,
            i <= s.len(),
            strip_from(s, 0) == out@ + strip_from(s, i as int),
        decreases s.len() - i,
    {
        let c = line[i];
        if c == '\u{1b}' {
            if i + 1 < line.len() && line[i + 1] == '[' {
                let mut j = i + 2;
                while j < line.len() && !is_csi_final_exec(line[j])
                    invariant
                        s == line@,
                        i + 2 <= j,
                        after_csi(s, i as int + 2) == after_csi(s, j as int),
                    decreases s.len() - j,
                {
                    j = j + 1;
                }
                proof {
                    lemma_after_csi_range(s, i as int + 2);
                }
                let ni = if j < line.len() {
                    j + 1
                } else {
                    line.len()
                };
                proof {
                    assert(after_csi(s, j as int) == ni);
                    assert(strip_from(s, i as int) == strip_from(s, ni as int));
                }
                i = ni;
            } else if i + 1 < line.len() && line[i + 1] == ']' {
                let mut j = i + 2;
                while j < line.len() && line[j] != '\u{7}' && !(line[j] == '\u{1b}' && j + 1
                    < line.len() && line[j + 1] == '\\')
                    invariant
                        s == line@,
                        i + 2 <= j,
                        after_osc(s, i as int + 2) == after_osc(s, j as int),
                    decreases s.len() - j,
                {
                    j = j + 1;
                }
                proof {
                    lemma_after_osc_range(s, i as int + 2);
                }
                let ni = if j < line.len() {
                    if line[j] == '\u{7}' {
                        j + 1
                    } else {
                        j + 2
                    }
                } else {
                    line.len()
                };
                proof {
                    assert(after_osc(s, j as int) == ni);
                    assert(strip_from(s, i as int) == strip_from(s, ni as int));
                }
                i = ni;
            } else {
                let ni = if i + 1 < line.len() {
                    i + 2
                } else {
                    line.len()
                };
                proof {
                    assert(strip_from(s, ni as int) =~= strip_from(s, i as int));
                }
                i = ni;
            }
        } else {
            out.push(c);
            proof {
                assert(strip_from(s, i as int) == seq![s[i as int]] + strip_from(s, i as int + 1));
                assert((out@.drop_last() + seq![c]) + strip_from(s, i as int + 1) =~= out@.drop_last()
                    + (seq![c] + strip_from(s, i as int + 1)));
                assert(out@ =~= out@.drop_last() + seq![c]);
            }
            i = i + 1;
        }
    }
    proof {
        assert(strip_from(s, s.len() as int) =~= Seq::<char>::empty());
        assert(out@ + Seq::<char>::empty() =~= out@);
    }
    out
}

/// Splitting buffered text plus one chunk at line feeds: the completed
/// lines, without their terminators, and the remaining unterminated tail.
pub open spec fn feed(buf: Seq<char>, chunk: Seq<char>) -> (Seq<Seq<char>>, Seq<char>)
    decreases chunk.len(),
{
    if chunk.len() == 0 {
        (Seq::empty(), buf)
    } else if chunk[0] == '\n' {
        let rest = feed(Seq::empty(), chunk.drop_first());
        (seq![buf] + rest.0, rest.1)
    } else {
        feed(buf.push(chunk[0]), chunk.drop_first())
    }
}

/// The abstract lines of a vector of line vectors.
pub open spec fn lines_view(lines: Seq<Vec<char>>) -> Seq<Seq<char>> {
    lines.map_values(|l: Vec<char>| l@)
}

/// Consumes the combined output of one process chunk by chunk: a line is
/// buffered until its line feed arrives, and a final unterminated fragment
/// can be flushed when the stream closes.  Not restartable; one per stream.
pub struct OutputStreamProcessor {
    pub buf: Vec<char>,
}

impl OutputStreamProcessor {
    /// A processor with nothing buffered.
    pub fn new() -> (r: OutputStreamProcessor)
        ensures
            r.buf@ == Seq::<char>::empty(),
    {
        OutputStreamProcessor { buf: Vec::new() }
    }

    /// Feeds one chunk of raw text and returns the lines it completed, in
    /// order; the trailing fragment stays buffered for the next chunk.
    pub fn push_chunk(&mut self, chunk: &Vec<char>) -> (lines: Vec<Vec<char>>)
        ensures
            lines_view(lines@) == feed(old(self).buf@, chunk@).0,
            final(self).buf@ == feed(old(self).buf@, chunk@).1,
    {
        let mut lines: Vec<Vec<char>> = Vec::new();
        let mut i: usize = 0;
        proof {
            assert(chunk@.skip(0) =~= chunk@);
            assert(lines_view(lines@) =~= Seq::<Seq<char>>::empty());
            assert(lines_view(lines@) + feed(self.buf@, chunk@).0 =~= feed(self.buf@, chunk@).0);
        }
        while i < chunk.len()
            invariant
                i <= chunk@.len(),
                feed(old(self).buf@, chunk@).0 == lines_view(lines@) + feed(
                    self.buf@,
                    chunk@.skip(i as int),
                ).0,
                feed(old(self).buf@, chunk@).1 == feed(self.buf@, chunk@.skip(i as int)).1,
            decreases chunk@.len() - i,
        {
            let ghost rest = chunk@.skip(i as int);
            proof {
                assert(rest[0] == chunk@[i as int]);
                assert(rest.drop_first() =~= chunk@.skip(i as int + 1));
            }
            let c = chunk[i];
            if c == '\n' {
                let ghost buf_b = self.buf@;
                let ghost lines_b = lines@;
                let line = self.buf.split_off(0);
                proof {
                    assert(line@ =~= buf_b);
                    assert(self.buf@ =~= Seq::<char>::empty());
                }
                lines.push(line);
                proof {
                    assert(lines_view(lines@) =~= lines_view(lines_b) + seq![buf_b]);
                    assert((lines_view(lines_b) + seq![buf_b]) + feed(
                        self.buf@,
                        chunk@.skip(i as int + 1),
                    ).0 =~= lines_view(lines_b) + (seq![buf_b] + feed(
                        self.buf@,
                        chunk@.skip(i as int + 1),
                    ).0));
                }
            } else {
                self.buf.push(c);
            }
            i = i + 1;
        }
        proof {
            assert(chunk@.skip(chunk@.len() as int) =~= Seq::<char>::empty());
            assert(lines_view(lines@) + Seq::<Seq<char>>::empty() =~= lines_view(lines@));
        }
        lines
    }

    /// Flushes the final unterminated fragment at stream end as one line;
    /// nothing is returned when nothing is buffered.
    pub fn take_fragment(&mut self) -> (r: Option<Vec<char>>)
        ensures
            old(self).buf@.len() == 0 ==> r is None && final(self).buf@ == old(self).buf@,
            old(self).buf@.len() > 0 ==> (r matches Some(l) && l@ == old(self).buf@) && final(
                self).buf@.len() == 0,
    {
        if self.buf.len() == 0 {
            None
        } else {
            let line = self.buf.split_off(0);
            proof {
                assert(self.buf@ =~= Seq::<char>::empty());
                assert(line@ =~= old(self).buf@);
            }
            Some(line)
        }
    }
}

} // verus!
