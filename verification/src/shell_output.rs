//! Output windows of shell sessions: a byte-bounded buffer of output chunks
//! and the "last N lines" view that the shell tools return.

use std::collections::VecDeque;

use vstd::prelude::*;
use vstd::utf8::encode_utf8;

use crate::text::{chars_of, string_from_chars};

verus! {

/// Size of the UTF-8 encoding of `s`.
pub open spec fn byte_len(s: Seq<char>) -> nat {
    encode_utf8(s).len()
}

/// Total encoded size of `chunks`.
pub open spec fn bytes_sum(chunks: Seq<Seq<char>>) -> nat
    decreases chunks.len(),
{
    if chunks.len() == 0 {
        0
    } else {
        byte_len(chunks[0]) + bytes_sum(chunks.drop_first())
    }
}

/// The text of each chunk.
pub open spec fn chunk_texts(chunks: Seq<String>) -> Seq<Seq<char>> {
    chunks.map_values(|s: String| s@)
}

/// What stays of `chunks` when the oldest chunks are dropped until the rest
/// fits in `max_bytes` (or nothing is left).
pub open spec fn window(chunks: Seq<Seq<char>>, max_bytes: nat) -> Seq<Seq<char>>
    decreases chunks.len(),
{
    if chunks.len() > 0 && bytes_sum(chunks) > max_bytes {
        window(chunks.drop_first(), max_bytes)
    } else {
        chunks
    }
}

/// The characters of all chunks, in order.
pub open spec fn joined(chunks: Seq<Seq<char>>) -> Seq<char>
    decreases chunks.len(),
{
    if chunks.len() == 0 {
        Seq::empty()
    } else {
        joined(chunks.drop_last()) + chunks.last()
    }
}

/// A tail window over the output of one stream.
#[derive(Debug, Clone)]
pub struct SessionOutputBuffer {
    pub chunks: VecDeque<String>,
    pub total_bytes: usize,
}

impl SessionOutputBuffer {
    /// `total_bytes` counts the encoded size of the chunks held.
    pub open spec fn wf(&self) -> bool {
        self.total_bytes == bytes_sum(chunk_texts(self.chunks@))
    }

    /// An empty buffer.
    pub fn empty() -> (b: Self)
        ensures
            b.wf(),
            b.chunks@.len() == 0,
            b.total_bytes == 0,
    {
        SessionOutputBuffer { chunks: VecDeque::new(), total_bytes: 0 }
    }
}

/// Whether a session waits for input, is idle, or is busy.
#[derive(Debug, Clone, Copy, PartialEq, Eq, Structural)]
pub enum SessionInteractionState {
    Idle,
    WaitingForInput,
    Busy,
}

/// The output windows of a running session.
#[derive(Debug)]
pub struct SessionRuntimeState {
    pub stdout: SessionOutputBuffer,
    pub stderr: SessionOutputBuffer,
    pub combined: SessionOutputBuffer,
    pub interaction_state: SessionInteractionState,
}

impl SessionRuntimeState {
    /// A session with no output yet, idle.
    pub fn empty() -> (s: Self)
        ensures
            s.stdout.wf() && s.stdout.chunks@.len() == 0,
            s.stderr.wf() && s.stderr.chunks@.len() == 0,
            s.combined.wf() && s.combined.chunks@.len() == 0,
            s.interaction_state == SessionInteractionState::Idle,
    {
        SessionRuntimeState {
            stdout: SessionOutputBuffer::empty(),
            stderr: SessionOutputBuffer::empty(),
            combined: SessionOutputBuffer::empty(),
            interaction_state: SessionInteractionState::Idle,
        }
    }
}

proof fn lemma_bytes_sum_push(chunks: Seq<Seq<char>>, x: Seq<char>)
    ensures
        bytes_sum(chunks.push(x)) == bytes_sum(chunks) + byte_len(x),
    decreases chunks.len(),
{
    assert(chunks.push(x).len() > 0);
    if chunks.len() > 0 {
        assert(chunks.push(x)[0] == chunks[0]);
        assert(chunks.push(x).drop_first() =~= chunks.drop_first().push(x));
        lemma_bytes_sum_push(chunks.drop_first(), x);
        assert(bytes_sum(chunks) == byte_len(chunks[0]) + bytes_sum(chunks.drop_first()));
    } else {
        assert(chunks.push(x)[0] == x);
        assert(chunks.push(x).drop_first() =~= Seq::<Seq<char>>::empty());
        assert(bytes_sum(Seq::<Seq<char>>::empty()) == 0);
        assert(bytes_sum(chunks) == 0);
    }
}

proof fn lemma_window_bound(chunks: Seq<Seq<char>>, max_bytes: nat)
    ensures
        bytes_sum(window(chunks, max_bytes)) <= max_bytes,
        exists|d: int| 0 <= d <= chunks.len() && window(chunks, max_bytes) == chunks.skip(d),
    decreases chunks.len(),
{
    if chunks.len() > 0 && bytes_sum(chunks) > max_bytes {
        lemma_window_bound(chunks.drop_first(), max_bytes);
        let d = choose|d: int|
            0 <= d <= chunks.drop_first().len() && window(chunks.drop_first(), max_bytes)
                == chunks.drop_first().skip(d);
        assert(chunks.drop_first().skip(d) =~= chunks.skip(d + 1));
    } else {
        assert(chunks.skip(0) =~= chunks);
    }
}

/// `w` is the longest suffix of `chunks` whose encoded size fits in `max_bytes`.
pub open spec fn longest_fitting_suffix(chunks: Seq<Seq<char>>, max_bytes: nat, w: Seq<Seq<char>>) -> bool {
    exists|d: int|
        #![trigger chunks.skip(d)]
        0 <= d <= chunks.len() && w == chunks.skip(d) && bytes_sum(w) <= max_bytes && forall|e: int|
            0 <= e < d ==> bytes_sum(#[trigger] chunks.skip(e)) > max_bytes
}

/// The window is what dropping the oldest chunks until the rest fits leaves:
/// the longest suffix of the chunks whose size is at most `max_bytes` (empty
/// when even the newest chunk alone is larger).
pub proof fn lemma_window_longest_fitting_suffix(chunks: Seq<Seq<char>>, max_bytes: nat)
    ensures
        longest_fitting_suffix(chunks, max_bytes, window(chunks, max_bytes)),
    decreases chunks.len(),
{
    if chunks.len() > 0 && bytes_sum(chunks) > max_bytes {
        let rest = chunks.drop_first();
        lemma_window_longest_fitting_suffix(rest, max_bytes);
        let d = choose|d: int|
            #![trigger rest.skip(d)]
            0 <= d <= rest.len() && window(rest, max_bytes) == rest.skip(d) && bytes_sum(
                window(rest, max_bytes),
            ) <= max_bytes && forall|e: int| 0 <= e < d ==> bytes_sum(#[trigger] rest.skip(e)) > max_bytes;
        assert(rest.skip(d) =~= chunks.skip(d + 1));
        assert forall|e: int| 0 <= e < d + 1 implies bytes_sum(#[trigger] chunks.skip(e)) > max_bytes by {
            if e == 0 {
                assert(chunks.skip(0) =~= chunks);
            } else {
                assert(rest.skip(e - 1) =~= chunks.skip(e));
            }
        }
        assert(window(chunks, max_bytes) == chunks.skip(d + 1));
    } else {
        assert(chunks.skip(0) =~= chunks);
        if chunks.len() == 0 {
            assert(bytes_sum(chunks) == 0);
        }
    }
}

/// Adds `content` to the buffer and drops the oldest chunks while the
/// buffer holds more than `max_bytes`: what stays is the longest suffix of
/// the old chunks and the content that fits. Empty content changes nothing.
pub fn append_output(buffer: &mut SessionOutputBuffer, content: &str, max_bytes: usize)
    requires
        old(buffer).wf(),
        old(buffer).total_bytes + byte_len(content@) <= usize::MAX,
    ensures
        final(buffer).wf(),
        content@.len() == 0 ==> final(buffer).chunks@ == old(buffer).chunks@
            && final(buffer).total_bytes == old(buffer).total_bytes,
        content@.len() > 0 ==> chunk_texts(final(buffer).chunks@) == window(
            chunk_texts(old(buffer).chunks@).push(content@),
            max_bytes as nat,
        ),
        content@.len() > 0 ==> longest_fitting_suffix(
            chunk_texts(old(buffer).chunks@).push(content@),
            max_bytes as nat,
            chunk_texts(final(buffer).chunks@),
        ),
        content@.len() > 0 ==> final(buffer).total_bytes <= max_bytes,
{
    if content.is_empty() {
        return;
    }
    let ghost before = chunk_texts(buffer.chunks@);
    let owned_content = content.to_owned();
    buffer.total_bytes = buffer.total_bytes + content.len();
    buffer.chunks.push_back(owned_content);
    proof {
        lemma_bytes_sum_push(before, content@);
        assert(chunk_texts(buffer.chunks@) =~= before.push(content@));
    }
    let ghost pushed = chunk_texts(buffer.chunks@);
    while buffer.total_bytes > max_bytes && buffer.chunks.len() > 0
        invariant
            buffer.wf(),
            window(pushed, max_bytes as nat) == window(chunk_texts(buffer.chunks@), max_bytes as nat),
        decreases buffer.chunks@.len(),
    {
        let ghost cur = buffer.chunks@;
        match buffer.chunks.pop_front() {
            Some(front) => {
                assert(cur[0] == front);
                assert(buffer.chunks@ =~= cur.drop_first());
                assert(chunk_texts(buffer.chunks@) =~= chunk_texts(cur).drop_first());
                buffer.total_bytes = buffer.total_bytes - front.as_str().len();
            },
            None => {},
        }
    }
    proof {
        lemma_window_bound(pushed, max_bytes as nat);
        lemma_window_longest_fitting_suffix(pushed, max_bytes as nat);
        assert(window(chunk_texts(buffer.chunks@), max_bytes as nat) == chunk_texts(buffer.chunks@));
    }
}

/// Index of the first `'\n'` in `s`, or `s.len()` when there is none.
pub open spec fn nl_index(s: Seq<char>) -> int
    decreases s.len(),
{
    if s.len() == 0 {
        0
    } else if s[0] == '\n' {
        0
    } else {
        1 + nl_index(s.drop_first())
    }
}

/// `l` without one trailing `'\r'`.
pub open spec fn strip_cr(l: Seq<char>) -> Seq<char> {
    if l.len() > 0 && l.last() == '\r' {
        l.drop_last()
    } else {
        l
    }
}

/// The lines of `s` as `str::lines` yields them: split at `'\n'`, a `'\r'`
/// before a `'\n'` removed, no empty line after a final `'\n'`.
pub open spec fn lines(s: Seq<char>) -> Seq<Seq<char>>
    decreases s.len(),
{
    if s.len() == 0 {
        Seq::empty()
    } else {
        let i = nl_index(s);
        proof {
            lemma_nl_index_bounds(s);
        }
        if i >= s.len() {
            seq![s]
        } else {
            seq![strip_cr(s.take(i))] + lines(s.skip(i + 1))
        }
    }
}

/// `parts` joined with `'\n'` between neighbours.
pub open spec fn join_lines(parts: Seq<Seq<char>>) -> Seq<char>
    decreases parts.len(),
{
    if parts.len() == 0 {
        Seq::empty()
    } else if parts.len() == 1 {
        parts[0]
    } else {
        join_lines(parts.drop_last()) + seq!['\n'] + parts.last()
    }
}

/// The last `max_lines` lines of `s`, joined with `'\n'`.
pub open spec fn tail_text(s: Seq<char>, max_lines: nat) -> Seq<char> {
    let ls = lines(s);
    let start = if ls.len() > max_lines {
        ls.len() - max_lines
    } else {
        0
    };
    join_lines(ls.skip(start))
}

/// The first line break is within the text, is a line break, and none comes before it.
pub proof fn lemma_nl_index_bounds(s: Seq<char>)
    ensures
        0 <= nl_index(s) <= s.len(),
        nl_index(s) < s.len() ==> s[nl_index(s)] == '\n',
        forall|k: int| 0 <= k < nl_index(s) ==> s[k] != '\n',
    decreases s.len(),
{
    if s.len() > 0 && s[0] != '\n' {
        lemma_nl_index_bounds(s.drop_first());
        assert forall|k: int| 0 <= k < nl_index(s) implies s[k] != '\n' by {
            if k > 0 {
                assert(s[k] == s.drop_first()[k - 1]);
            }
        }
    }
}

proof fn lemma_nl_index_concat(x: Seq<char>, y: Seq<char>)
    requires
        !x.contains('\n'),
    ensures
        nl_index(x + y) == x.len() + nl_index(y),
    decreases x.len(),
{
    if x.len() > 0 {
        assert(x[0] != '\n');
        assert((x + y).drop_first() =~= x.drop_first() + y);
        assert(!x.drop_first().contains('\n')) by {
            if x.drop_first().contains('\n') {
                let k = choose|k: int| 0 <= k < x.drop_first().len() && x.drop_first()[k] == '\n';
                assert(x[k + 1] == '\n');
            }
        }
        lemma_nl_index_concat(x.drop_first(), y);
    } else {
        assert(x + y =~= y);
    }
}

/// Splits `s` into its lines.
fn split_lines(s: &Vec<char>) -> (out: Vec<Vec<char>>)
    ensures
        out@.map_values(|l: Vec<char>| l@) == lines(s@),
{
    let n = s.len();
    let mut done: Vec<Vec<char>> = Vec::new();
    let mut cur: Vec<char> = Vec::new();
    assert(s@.skip(0) =~= s@);
    assert(cur@ + s@.skip(0) =~= s@);
    for i in 0..n
        invariant
            n == s@.len(),
            !cur@.contains('\n'),
            lines(s@) == done@.map_values(|l: Vec<char>| l@) + lines(cur@ + s@.skip(i as int)),
    {
        let c = s[i];
        let ghost rest = s@.skip(i + 1);
        assert(s@.skip(i as int) =~= seq![c] + rest);
        if c == '\n' {
            let ghost whole = cur@ + s@.skip(i as int);
            proof {
                lemma_nl_index_concat(cur@, s@.skip(i as int));
                assert(whole.take(cur@.len() as int) =~= cur@);
                assert(whole.skip((cur@.len() + 1) as int) =~= rest);
            }
            let line = strip_cr_vec(&cur);
            let ghost lv = line@;
            done.push(line);
            cur = Vec::new();
            assert(cur@ + rest =~= rest);
            assert(done@.map_values(|l: Vec<char>| l@) =~= done@.drop_last().map_values(
                |l: Vec<char>| l@,
            ).push(lv));
        } else {
            let ghost old_cur = cur@;
            cur.push(c);
            assert(cur@ + rest =~= old_cur + s@.skip(i as int));
            assert(!cur@.contains('\n')) by {
                if cur@.contains('\n') {
                    let k = choose|k: int| 0 <= k < cur@.len() && cur@[k] == '\n';
                    if k < old_cur.len() {
                        assert(old_cur[k] == '\n');
                    }
                }
            }
        }
    }
    assert(cur@ + s@.skip(n as int) =~= cur@);
    if cur.len() > 0 {
        proof {
            lemma_nl_index_concat(cur@, Seq::<char>::empty());
            assert(cur@ + Seq::<char>::empty() =~= cur@);
        }
        let ghost cv = cur@;
        done.push(cur);
        assert(done@.map_values(|l: Vec<char>| l@) =~= done@.drop_last().map_values(
            |l: Vec<char>| l@,
        ).push(cv));
        assert(lines(cv) =~= seq![cv]);
    } else {
        assert(done@.map_values(|l: Vec<char>| l@) + lines(cur@) =~= done@.map_values(
            |l: Vec<char>| l@,
        ));
    }
    done
}

fn strip_cr_vec(l: &Vec<char>) -> (out: Vec<char>)
    ensures
        out@ == strip_cr(l@),
{
    let n = l.len();
    let keep = if n > 0 && l[n - 1] == '\r' {
        n - 1
    } else {
        n
    };
    let mut out: Vec<char> = Vec::new();
    for i in 0..keep
        invariant
            keep <= n,
            n == l@.len(),
            out@ == l@.take(i as int),
    {
        out.push(l[i]);
        assert(l@.take(i as int).push(l@[i as int]) =~= l@.take(i + 1));
    }
    if keep < n {
        assert(l@.take(keep as int) =~= l@.drop_last());
    } else {
        assert(l@.take(keep as int) =~= l@);
    }
    out
}

/// Keeps the last `max_lines` lines of `content`: returns them joined with
/// `'\n'`, whether lines were dropped, and how many lines are returned.
pub fn tail_lines(content: &str, max_lines: usize) -> (r: (String, bool, usize))
    ensures
        r.0@ == tail_text(content@, max_lines as nat),
        r.1 == (lines(content@).len() > max_lines),
        r.2 == if lines(content@).len() > max_lines {
            max_lines as nat
        } else {
            lines(content@).len()
        },
{
    let cs = chars_of(content);
    let ls = split_lines(&cs);
    let ghost lv = ls@.map_values(|l: Vec<char>| l@);
    let total = ls.len();
    let returned = if total < max_lines {
        total
    } else {
        max_lines
    };
    let truncated = total > max_lines;
    let start = if total > max_lines {
        total - max_lines
    } else {
        0
    };
    let ghost sel = lv.skip(start as int);
    let mut out: Vec<char> = Vec::new();
    let mut k = start;
    assert(sel.take(0) =~= Seq::<Seq<char>>::empty());
    while k < total
        invariant
            start <= k <= total,
            total == ls@.len(),
            lv == ls@.map_values(|l: Vec<char>| l@),
            sel == lv.skip(start as int),
            out@ == join_lines(sel.take(k - start)),
        decreases total - k,
    {
        let ghost t = (k - start) as int;
        assert(sel.take(t + 1).drop_last() =~= sel.take(t));
        assert(sel.take(t + 1).last() == ls@[k as int]@);
        if k > start {
            out.push('\n');
        }
        let line = &ls[k];
        let m = line.len();
        let ghost base = out@;
        for j in 0..m
            invariant
                m == line@.len(),
                out@ == base + line@.take(j as int),
        {
            out.push(line[j]);
            assert(base + line@.take(j + 1) =~= (base + line@.take(j as int)).push(line@[j as int]));
        }
        assert(line@.take(m as int) =~= line@);
        if k == start {
            assert(base =~= Seq::<char>::empty());
            assert(out@ =~= line@);
        }
        k = k + 1;
    }
    assert(sel.take(total - start) =~= sel);
    let text = string_from_chars(out.as_slice());
    (text, truncated, returned)
}

/// What a read of a session returns: the last lines and whether lines were dropped.
#[derive(Debug, Clone)]
pub struct SessionOutputSnapshot {
    pub output: String,
    pub returned_lines: usize,
    pub truncated: bool,
}

/// The last `tail_lines_limit` lines of everything the buffer holds.
pub fn snapshot_from_buffer(buffer: &SessionOutputBuffer, tail_lines_limit: usize) -> (snap:
    SessionOutputSnapshot)
    ensures
        snap.output@ == tail_text(joined(chunk_texts(buffer.chunks@)), tail_lines_limit as nat),
        snap.truncated == (lines(joined(chunk_texts(buffer.chunks@))).len() > tail_lines_limit),
        snap.returned_lines == if lines(joined(chunk_texts(buffer.chunks@))).len() > tail_lines_limit {
            tail_lines_limit as nat
        } else {
            lines(joined(chunk_texts(buffer.chunks@))).len()
        },
{
    let n = buffer.chunks.len();
    let mut all: Vec<char> = Vec::new();
    for i in 0..n
        invariant
            n == buffer.chunks@.len(),
            all@ == joined(chunk_texts(buffer.chunks@.take(i as int))),
    {
        let piece = chars_of(buffer.chunks[i].as_str());
        let ghost base = all@;
        let m = piece.len();
        for j in 0..m
            invariant
                m == piece@.len(),
                all@ == base + piece@.take(j as int),
        {
            all.push(piece[j]);
            assert(base + piece@.take(j + 1) =~= (base + piece@.take(j as int)).push(piece@[j as int]));
        }
        assert(piece@.take(m as int) =~= piece@);
        assert(chunk_texts(buffer.chunks@.take(i + 1)).drop_last() =~= chunk_texts(buffer.chunks@.take(i as int)));
    }
    assert(buffer.chunks@.take(n as int) =~= buffer.chunks@);
    let text = string_from_chars(all.as_slice());
    let (output, truncated, returned_lines) = tail_lines(text.as_str(), tail_lines_limit);
    SessionOutputSnapshot { output, returned_lines, truncated }
}

} // verus!
