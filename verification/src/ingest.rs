use vstd::prelude::*;

verus! {

/// An ASCII whitespace byte, the kind trimmed from the end of a
/// completed line before it becomes a capture item.
///
/// Trimming is a deliberate byte-level choice, applied before the line
/// is decoded: exactly these six ASCII bytes are removed, and a line
/// ending in a non-ASCII whitespace character keeps it.
pub open spec fn is_space(b: u8) -> bool {
    b == 32 || b == 9 || b == 13 || b == 10 || b == 11 || b == 12
}

/// `s` with its trailing whitespace bytes removed.
pub open spec fn trim_end_spec(s: Seq<u8>) -> Seq<u8>
    decreases s.len(),
{
    if s.len() == 0 {
        s
    } else if is_space(s.last()) {
        trim_end_spec(s.drop_last())
    } else {
        s
    }
}

/// The reassembly function: starting from a pending (unterminated)
/// fragment, consume `bytes` one by one. A newline completes the pending
/// fragment into an emitted line (trimmed of trailing whitespace, without
/// the terminator); any other byte extends the pending fragment.
///
/// The result is the new pending fragment and the lines emitted while
/// consuming `bytes`, in arrival order.
pub open spec fn feed_bytes(pending: Seq<u8>, bytes: Seq<u8>) -> (Seq<u8>, Seq<Seq<u8>>)
    decreases bytes.len(),
{
    if bytes.len() == 0 {
        (pending, Seq::<Seq<u8>>::empty())
    } else if bytes[0] == 10 {
        let rest = feed_bytes(Seq::<u8>::empty(), bytes.drop_first());
        (rest.0, seq![trim_end_spec(pending)] + rest.1)
    } else {
        feed_bytes(pending.push(bytes[0]), bytes.drop_first())
    }
}

/// Feeding one byte after a prefix is the same as feeding the extended
/// prefix: reassembly composes over concatenation of the input.
pub proof fn lemma_feed_append(pending: Seq<u8>, a: Seq<u8>, b: Seq<u8>)
    ensures
        feed_bytes(pending, a + b).0 == feed_bytes(feed_bytes(pending, a).0, b).0,
        feed_bytes(pending, a + b).1 == feed_bytes(pending, a).1 + feed_bytes(
            feed_bytes(pending, a).0,
            b,
        ).1,
    decreases a.len(),
{
    if a.len() == 0 {
        assert(a + b =~= b);
        assert(feed_bytes(pending, a).0 == pending);
        assert(feed_bytes(pending, a).1 + feed_bytes(pending, b).1 =~~= feed_bytes(pending, b).1);
    } else {
        let t = a.drop_first();
        assert((a + b).drop_first() =~= t + b);
        if a[0] == 10 {
            lemma_feed_append(Seq::<u8>::empty(), t, b);
            let mid = feed_bytes(Seq::<u8>::empty(), t).0;
            assert(feed_bytes(pending, a + b).1 =~~= feed_bytes(pending, a).1 + feed_bytes(
                mid,
                b,
            ).1);
        } else {
            lemma_feed_append(pending.push(a[0]), t, b);
        }
    }
}

/// Feeding a single byte, written out.
pub proof fn lemma_feed_single(pending: Seq<u8>, b: u8)
    ensures
        b == 10 ==> feed_bytes(pending, seq![b]) == (
            Seq::<u8>::empty(),
            seq![trim_end_spec(pending)],
        ),
        b != 10 ==> feed_bytes(pending, seq![b]) == (pending.push(b), Seq::<Seq<u8>>::empty()),
{
    let s: Seq<u8> = seq![b];
    assert(s.drop_first() =~= Seq::<u8>::empty());
    if b == 10 {
        assert(feed_bytes(s.drop_first(), Seq::<u8>::empty()).1 =~~= Seq::<Seq<u8>>::empty());
        assert(seq![trim_end_spec(pending)] + Seq::<Seq<u8>>::empty() =~~= seq![
            trim_end_spec(pending),
        ]);
    } else {
        assert(feed_bytes(pending.push(b), Seq::<u8>::empty()) == (
            pending.push(b),
            Seq::<Seq<u8>>::empty(),
        ));
    }
}

/// The concatenation of a sequence of chunks.
pub open spec fn concat_chunks(chunks: Seq<Seq<u8>>) -> Seq<u8>
    decreases chunks.len(),
{
    if chunks.len() == 0 {
        Seq::<u8>::empty()
    } else {
        chunks[0] + concat_chunks(chunks.drop_first())
    }
}

/// Reassembly applied chunk by chunk: the final pending fragment and all
/// lines emitted over the whole sequence of chunks.
pub open spec fn feed_chunks(pending: Seq<u8>, chunks: Seq<Seq<u8>>) -> (Seq<u8>, Seq<Seq<u8>>)
    decreases chunks.len(),
{
    if chunks.len() == 0 {
        (pending, Seq::<Seq<u8>>::empty())
    } else {
        let first = feed_bytes(pending, chunks[0]);
        let rest = feed_chunks(first.0, chunks.drop_first());
        (rest.0, first.1 + rest.1)
    }
}

/// Split-invariance law: feeding a stream chunk by chunk emits exactly the
/// lines of feeding its concatenation in one piece, and leaves the same
/// pending fragment -- chunk boundaries do not affect line boundaries, and
/// no byte is lost or duplicated.
pub proof fn lemma_split_invariance(pending: Seq<u8>, chunks: Seq<Seq<u8>>)
    ensures
        feed_chunks(pending, chunks).0 == feed_bytes(pending, concat_chunks(chunks)).0,
        feed_chunks(pending, chunks).1 == feed_bytes(pending, concat_chunks(chunks)).1,
    decreases chunks.len(),
{
    if chunks.len() == 0 {
        assert(feed_bytes(pending, Seq::<u8>::empty()).1 =~~= Seq::<Seq<u8>>::empty());
    } else {
        let first = feed_bytes(pending, chunks[0]);
        lemma_split_invariance(first.0, chunks.drop_first());
        lemma_feed_append(pending, chunks[0], concat_chunks(chunks.drop_first()));
    }
}

/// The number of newline bytes in `s`.
pub open spec fn count_newlines(s: Seq<u8>) -> nat
    decreases s.len(),
{
    if s.len() == 0 {
        0
    } else {
        (if s[0] == 10 {
            1nat
        } else {
            0nat
        }) + count_newlines(s.drop_first())
    }
}

/// Counting law: a stream holding `k` newline bytes yields exactly `k`
/// emitted lines, whatever pending fragment reassembly started from.
pub proof fn lemma_item_count(pending: Seq<u8>, bytes: Seq<u8>)
    ensures
        feed_bytes(pending, bytes).1.len() == count_newlines(bytes),
    decreases bytes.len(),
{
    if bytes.len() == 0 {
    } else if bytes[0] == 10 {
        lemma_item_count(Seq::<u8>::empty(), bytes.drop_first());
    } else {
        lemma_item_count(pending.push(bytes[0]), bytes.drop_first());
    }
}

/// Whether `b` is one of the whitespace bytes trimmed from line ends.
pub fn is_space_byte(b: u8) -> (r: bool)
    ensures
        r == is_space(b),
{
    b == 32 || b == 9 || b == 13 || b == 10 || b == 11 || b == 12
}

fn trim_end_in_place(v: &mut Vec<u8>)
    ensures
        final(v)@ == trim_end_spec(old(v)@),
{
    while v.len() > 0 && is_space_byte(v[v.len() - 1])
        invariant
            trim_end_spec(v@) == trim_end_spec(old(v)@),
        decreases v.len(),
    {
        let ghost before = v@;
        v.pop();
        proof {
            assert(v@ =~= before.drop_last());
        }
    }
}

/// Every byte is plain ASCII.
pub open spec fn is_ascii_bytes(s: Seq<u8>) -> bool {
    forall|i: int| 0 <= i < s.len() ==> s[i] < 128
}

/// ASCII bytes read as characters, one for one.
pub open spec fn ascii_chars(s: Seq<u8>) -> Seq<char> {
    s.map_values(|b: u8| b as char)
}

/// A name for what `String::from_utf8_lossy` returns: the decoding of a
/// byte sequence, a function of the bytes alone.
pub uninterp spec fn lossy_of(bytes: Seq<u8>) -> Seq<char>;

/// Relies on `String::from_utf8_lossy`: the decoding depends on the bytes
/// alone; valid UTF-8 -- in particular plain ASCII -- passes through
/// unchanged, invalid sequences are replaced, never an error.
#[verifier::external_body]
fn decode_lossy(bytes: &[u8]) -> (r: String)
    ensures
        r@ == lossy_of(bytes@),
        is_ascii_bytes(bytes@) ==> r@ == ascii_chars(bytes@),
{
    String::from_utf8_lossy(bytes).into_owned()
}

/// The line reassembler: accumulates streamed byte chunks and splits them
/// into completed lines. At rest it holds at most the one pending
/// unterminated fragment, its view.
pub struct LineAssembler {
    buf: Vec<u8>,
}

impl View for LineAssembler {
    type V = Seq<u8>;

    closed spec fn view(&self) -> Seq<u8> {
        self.buf@
    }
}

impl LineAssembler {
    /// A fresh reassembler with nothing pending.
    pub fn new() -> (r: Self)
        ensures
            r@ == Seq::<u8>::empty(),
    {
        LineAssembler { buf: Vec::new() }
    }

    /// Append `chunk` and extract every line it completes, in arrival
    /// order, each trimmed of its terminator and trailing whitespace.
    /// The trailing partial line stays pending -- never dropped, never
    /// duplicated.
    pub fn ingest(&mut self, chunk: &[u8]) -> (lines: Vec<Vec<u8>>)
        ensures
            final(self)@ == feed_bytes(old(self)@, chunk@).0,
            lines@.map_values(|l: Vec<u8>| l@) == feed_bytes(old(self)@, chunk@).1,
    {
        let ghost p0 = self.buf@;
        let mut lines: Vec<Vec<u8>> = Vec::new();
        let mut i: usize = 0;
        while i < chunk.len()
            invariant
                i <= chunk@.len(),
                self.buf@ == feed_bytes(p0, chunk@.take(i as int)).0,
                lines@.map_values(|l: Vec<u8>| l@) == feed_bytes(p0, chunk@.take(i as int)).1,
            decreases chunk@.len() - i,
        {
            let ghost taken = chunk@.take(i as int);
            let ghost st = feed_bytes(p0, taken);
            proof {
                assert(chunk@.take(i + 1) =~= taken + seq![chunk@[i as int]]);
                lemma_feed_append(p0, taken, seq![chunk@[i as int]]);
                lemma_feed_single(st.0, chunk@[i as int]);
            }
            let b = chunk[i];
            if b == 10 {
                let mut line: Vec<u8> = Vec::new();
                core::mem::swap(&mut line, &mut self.buf);
                trim_end_in_place(&mut line);
                lines.push(line);
                proof {
                    assert(lines@.map_values(|l: Vec<u8>| l@) =~~= st.1.push(trim_end_spec(st.0)));
                    assert(st.1.push(trim_end_spec(st.0)) =~~= st.1 + seq![trim_end_spec(st.0)]);
                    assert(feed_bytes(p0, chunk@.take(i + 1)).1 =~~= st.1 + seq![
                        trim_end_spec(st.0),
                    ]);
                }
            } else {
                self.buf.push(b);
                proof {
                    assert(lines@.map_values(|l: Vec<u8>| l@) =~~= feed_bytes(
                        p0,
                        chunk@.take(i + 1),
                    ).1);
                }
            }
            i = i + 1;
        }
        proof {
            assert(chunk@.take(chunk@.len() as int) =~= chunk@);
        }
        lines
    }

    /// Like `ingest`, with each completed line decoded permissively into
    /// text; a line of plain ASCII bytes decodes to exactly those
    /// characters.
    pub fn ingest_text(&mut self, chunk: &[u8]) -> (lines: Vec<String>)
        ensures
            final(self)@ == feed_bytes(old(self)@, chunk@).0,
            lines@.len() == feed_bytes(old(self)@, chunk@).1.len(),
            forall|i: int|
                0 <= i < lines@.len() ==> lines@[i]@ == lossy_of(
                    feed_bytes(old(self)@, chunk@).1[i],
                ),
            forall|i: int|
                0 <= i < lines@.len() && is_ascii_bytes(feed_bytes(old(self)@, chunk@).1[i])
                    ==> lines@[i]@ == ascii_chars(feed_bytes(old(self)@, chunk@).1[i]),
    {
        let ghost p0 = self@;
        let raw = self.ingest(chunk);
        let ghost emitted = feed_bytes(p0, chunk@).1;
        let mut lines: Vec<String> = Vec::new();
        let mut i: usize = 0;
        while i < raw.len()
            invariant
                i <= raw@.len(),
                raw@.map_values(|l: Vec<u8>| l@) == emitted,
                lines@.len() == i,
                forall|j: int| 0 <= j < i ==> lines@[j]@ == lossy_of(emitted[j]),
                forall|j: int|
                    0 <= j < i && is_ascii_bytes(emitted[j]) ==> lines@[j]@ == ascii_chars(
                        emitted[j],
                    ),
            decreases raw@.len() - i,
        {
            let s = decode_lossy(raw[i].as_slice());
            proof {
                assert(raw@.map_values(|l: Vec<u8>| l@)[i as int] == raw@[i as int]@);
            }
            lines.push(s);
            i = i + 1;
        }
        proof {
            assert(raw@.map_values(|l: Vec<u8>| l@).len() == raw@.len());
        }
        lines
    }

    /// Drain the pending fragment, if any, as a final best-effort line
    /// (trimmed like every other): the explicit flush-on-close choice of
    /// this recorder.
    pub fn flush(&mut self) -> (line: Option<Vec<u8>>)
        ensures
            final(self)@ == Seq::<u8>::empty(),
            old(self)@.len() == 0 ==> line is None,
            old(self)@.len() > 0 ==> (line matches Some(l) && l@ == trim_end_spec(old(self)@)),
    {
        if self.buf.len() == 0 {
            None
        } else {
            let mut line: Vec<u8> = Vec::new();
            core::mem::swap(&mut line, &mut self.buf);
            trim_end_in_place(&mut line);
            Some(line)
        }
    }

    /// `flush`, decoded permissively into text; a pending fragment of
    /// plain ASCII bytes decodes to exactly those characters.
    pub fn flush_text(&mut self) -> (line: Option<String>)
        ensures
            final(self)@ == Seq::<u8>::empty(),
            old(self)@.len() == 0 ==> line is None,
            old(self)@.len() > 0 ==> (line matches Some(l) && l@ == lossy_of(
                trim_end_spec(old(self)@),
            )),
            (old(self)@.len() > 0 && is_ascii_bytes(trim_end_spec(old(self)@))) ==> (
            line matches Some(l) && l@ == ascii_chars(trim_end_spec(old(self)@))),
    {
        match self.flush() {
            None => None,
            Some(raw) => Some(decode_lossy(raw.as_slice())),
        }
    }
}

} // verus!
