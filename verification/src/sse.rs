//! Server-Sent-Events handling of the streaming response: the byte buffer
//! that frames lines, the `data:` payload of a line, and the rules applied to
//! each decoded event.
use vstd::prelude::*;
use vstd::utf8::{decode_utf8, encode_utf8, valid_utf8};

use crate::api::{append_grounding_sources, sources_report, sources_report_text, sources_text};
use crate::error::GeminiError;
use crate::models::{parts_view, Candidate, GroundingMetadata, StreamChunk};
use crate::text::{
    decode_utf8_lossy, is_unicode_whitespace, lemma_trimmed_subrange, same_text, strip_prefix, trim,
    trimmed, utf8_lossy,
};

verus! {

/// The largest number of bytes the stream buffer may hold (10 MB).
pub const MAX_BUFFER_BYTES: usize = 10 * 1024 * 1024;

/// The byte that ends a line.
pub const NEWLINE: u8 = 10;

/// The bytes of `lines`, each followed by a newline.
pub open spec fn join_lines(lines: Seq<Seq<u8>>) -> Seq<u8>
    decreases lines.len(),
{
    if lines.len() == 0 {
        Seq::empty()
    } else {
        join_lines(lines.drop_last()) + lines.last().push(NEWLINE)
    }
}

/// The complete lines of `s` (without their newlines), and the bytes after
/// the last newline.
pub open spec fn split_lines(s: Seq<u8>) -> (Seq<Seq<u8>>, Seq<u8>)
    decreases s.len(),
{
    if s.len() == 0 {
        (Seq::empty(), Seq::empty())
    } else {
        let (lines, rest) = split_lines(s.drop_last());
        if s.last() == NEWLINE {
            (lines.push(rest), Seq::empty())
        } else {
            (lines, rest.push(s.last()))
        }
    }
}

/// Framing loses nothing: the lines of `split_lines(s)`, each followed by a
/// newline, and then its rest give back `s`; neither the lines nor the rest
/// hold a newline.
pub proof fn law_split_lines_join(s: Seq<u8>)
    ensures
        join_lines(split_lines(s).0) + split_lines(s).1 == s,
        !split_lines(s).1.contains(NEWLINE),
        forall|i: int|
            0 <= i < split_lines(s).0.len() ==> !(#[trigger] split_lines(s).0[i]).contains(NEWLINE),
    decreases s.len(),
{
    if s.len() > 0 {
        let t = s.drop_last();
        law_split_lines_join(t);
        let (lines, rest) = split_lines(t);
        if s.last() == NEWLINE {
            let l2 = lines.push(rest);
            assert(l2.drop_last() =~= lines);
            assert(l2.last() == rest);
            assert(s =~= t.push(s.last()));
            assert(join_lines(l2) == join_lines(lines) + rest.push(NEWLINE));
            assert(join_lines(l2) + Seq::<u8>::empty() =~= s);
            assert forall|i: int| 0 <= i < l2.len() implies !(#[trigger] l2[i]).contains(NEWLINE) by {
                if i < lines.len() {
                    assert(l2[i] == lines[i]);
                }
            }
        } else {
            assert(s =~= t.push(s.last()));
            assert(join_lines(lines) + rest.push(s.last()) =~= s);
            assert(!rest.push(s.last()).contains(NEWLINE)) by {
                if rest.push(s.last()).contains(NEWLINE) {
                    let k = choose|k: int|
                        0 <= k < rest.push(s.last()).len() && rest.push(s.last())[k] == NEWLINE;
                    if k < rest.len() {
                        assert(rest.contains(NEWLINE));
                    }
                }
            }
        }
    } else {
        assert(join_lines(Seq::<Seq<u8>>::empty()) + Seq::<u8>::empty() =~= s);
    }
}

/// Chunk boundaries do not matter: splitting `a + b` gives the lines of `a`,
/// then the lines of the rest of `a` followed by `b`, and the same final rest.
pub proof fn law_split_lines_chunked(a: Seq<u8>, b: Seq<u8>)
    ensures
        ({
            let (la, ra) = split_lines(a);
            let (lb, rb) = split_lines(ra + b);
            split_lines(a + b) == (la + lb, rb)
        }),
    decreases b.len(),
{
    let (la, ra) = split_lines(a);
    if b.len() == 0 {
        assert(a + b =~= a);
        assert(ra + b =~= ra);
        law_split_lines_join(a);
        lemma_split_of_rest(ra);
        assert(la + Seq::<Seq<u8>>::empty() =~= la);
    } else {
        let b0 = b.drop_last();
        law_split_lines_chunked(a, b0);
        assert((a + b).drop_last() =~= a + b0);
        assert((ra + b).drop_last() =~= ra + b0);
        assert((a + b).last() == b.last());
        assert((ra + b).last() == b.last());
        let (lb0, rb0) = split_lines(ra + b0);
        assert((la + lb0).push(rb0) =~= la + lb0.push(rb0));
    }
}

/// The bytes of `chunks`, one after the other.
pub open spec fn flatten_chunks(chunks: Seq<Seq<u8>>) -> Seq<u8>
    decreases chunks.len(),
{
    if chunks.len() == 0 {
        Seq::empty()
    } else {
        flatten_chunks(chunks.drop_last()) + chunks.last()
    }
}

/// The lines handed back, and the bytes left pending, when `chunks` are fed
/// one by one to a decoder that holds `pending`, as `SseDecoder::feed` does
/// for each.
pub open spec fn feed_chunks(pending: Seq<u8>, chunks: Seq<Seq<u8>>) -> (Seq<Seq<u8>>, Seq<u8>)
    decreases chunks.len(),
{
    if chunks.len() == 0 {
        (Seq::empty(), pending)
    } else {
        let (lines, rest) = feed_chunks(pending, chunks.drop_last());
        let (more, rest2) = split_lines(rest + chunks.last());
        (lines + more, rest2)
    }
}

/// However the stream is cut into chunks, feeding them one by one hands back
/// the same lines, and leaves the same bytes pending, as feeding all the
/// bytes at once.
pub proof fn law_feed_chunks(pending: Seq<u8>, chunks: Seq<Seq<u8>>)
    requires
        !pending.contains(NEWLINE),
    ensures
        feed_chunks(pending, chunks) == split_lines(pending + flatten_chunks(chunks)),
    decreases chunks.len(),
{
    if chunks.len() == 0 {
        lemma_split_of_rest(pending);
        assert(pending + flatten_chunks(chunks) =~= pending);
    } else {
        let init = chunks.drop_last();
        law_feed_chunks(pending, init);
        let a = pending + flatten_chunks(init);
        law_split_lines_chunked(a, chunks.last());
        assert(a + chunks.last() =~= pending + flatten_chunks(chunks));
    }
}

/// Bytes without a newline split into no lines and themselves.
pub proof fn lemma_split_of_rest(r: Seq<u8>)
    requires
        !r.contains(NEWLINE),
    ensures
        split_lines(r) == (Seq::<Seq<u8>>::empty(), r),
    decreases r.len(),
{
    if r.len() > 0 {
        let t = r.drop_last();
        assert(!t.contains(NEWLINE)) by {
            if t.contains(NEWLINE) {
                let k = choose|k: int| 0 <= k < t.len() && t[k] == NEWLINE;
                assert(r[k] == NEWLINE);
            }
        }
        lemma_split_of_rest(t);
        assert(r[r.len() - 1] != NEWLINE);
        assert(t.push(r.last()) =~= r);
    } else {
        assert(r =~= Seq::<u8>::empty());
    }
}

/// The views of a list of byte lines.
pub open spec fn lines_view(lines: Seq<Vec<u8>>) -> Seq<Seq<u8>> {
    lines.map_values(|l: Vec<u8>| l@)
}

/// The buffer that cuts the incoming byte stream into lines. It holds the
/// bytes after the last newline seen; those never contain a newline and
/// never exceed `MAX_BUFFER_BYTES`.
pub struct SseDecoder {
    buffer: Vec<u8>,
}

impl View for SseDecoder {
    type V = Seq<u8>;

    closed spec fn view(&self) -> Seq<u8> {
        self.buffer@
    }
}

impl SseDecoder {
    #[verifier::type_invariant]
    closed spec fn inv(self) -> bool {
        &&& self.buffer@.len() <= MAX_BUFFER_BYTES
        &&& !self.buffer@.contains(NEWLINE)
    }

    /// A decoder with nothing pending.
    pub fn new() -> (d: SseDecoder)
        ensures
            d@ == Seq::<u8>::empty(),
    {
        SseDecoder { buffer: Vec::new() }
    }

    /// Takes the next bytes of the stream and hands back the lines they
    /// complete, in order, without their newlines.
    ///
    /// The bytes are refused when the pending bytes and them together would
    /// exceed `MAX_BUFFER_BYTES` (or overflow `usize`); nothing changes then.
    pub fn feed(&mut self, bytes: &[u8]) -> (r: Result<Vec<Vec<u8>>, GeminiError>)
        ensures
            old(self)@.len() + bytes@.len() > usize::MAX ==> r == Err::<Vec<Vec<u8>>, GeminiError>(
                GeminiError::BufferOverflow,
            ),
            old(self)@.len() + bytes@.len() <= usize::MAX && old(self)@.len() + bytes@.len()
                > MAX_BUFFER_BYTES ==> r == Err::<Vec<Vec<u8>>, GeminiError>(
                GeminiError::ResponseTooLarge,
            ),
            r is Err ==> final(self)@ == old(self)@,
            final(self)@.len() <= MAX_BUFFER_BYTES,
            !final(self)@.contains(NEWLINE),
            old(self)@.len() + bytes@.len() <= MAX_BUFFER_BYTES ==> (r matches Ok(lines)
                && lines_view(lines@) == split_lines(old(self)@ + bytes@).0 && final(self)@
                == split_lines(old(self)@ + bytes@).1),
    {
        proof {
            use_type_invariant(&*self);
        }
        let total = match self.buffer.len().checked_add(bytes.len()) {
            Some(t) => t,
            None => {
                return Err(GeminiError::BufferOverflow);
            },
        };
        if total > MAX_BUFFER_BYTES {
            return Err(GeminiError::ResponseTooLarge);
        }
        let ghost start = self.buffer@;
        let mut cur: Vec<u8> = Vec::new();
        std::mem::swap(&mut cur, &mut self.buffer);
        let mut lines: Vec<Vec<u8>> = Vec::new();
        proof {
            assert(start + bytes@.take(0) =~= start);
            lemma_split_of_rest(start);
        }
        let mut i: usize = 0;
        while i < bytes.len()
            invariant
                i <= bytes@.len(),
                start.len() + bytes@.len() <= MAX_BUFFER_BYTES,
                (lines_view(lines@), cur@) == split_lines(start + bytes@.take(i as int)),
            decreases bytes@.len() - i,
        {
            let b = bytes[i];
            proof {
                let s = start + bytes@.take(i as int + 1);
                assert(s.drop_last() =~= start + bytes@.take(i as int));
                assert(s.last() == b);
            }
            if b == NEWLINE {
                let line = cur;
                cur = Vec::new();
                let ghost before = lines@;
                lines.push(line);
                proof {
                    assert(lines_view(lines@) =~= lines_view(before).push(line@));
                }
            } else {
                cur.push(b);
            }
            i = i + 1;
        }
        proof {
            assert(bytes@.take(bytes@.len() as int) =~= bytes@);
            law_split_lines_join(start + bytes@);
        }
        self.buffer = cur;
        Ok(lines)
    }
}

/// The payload of a line of text: the line trimmed and stripped of its
/// `data: ` prefix; none when it has no such prefix.
pub open spec fn payload_of_text(text: Seq<char>) -> Option<Seq<char>> {
    let t = trimmed(text);
    if "data: "@.is_prefix_of(t) {
        Some(t.skip("data: "@.len() as int))
    } else {
        None
    }
}

/// The payload of a stream line: that of the line decoded as UTF-8, with
/// invalid sequences replaced.
pub open spec fn sse_payload(line: Seq<u8>) -> Option<Seq<char>> {
    payload_of_text(utf8_lossy(line))
}

/// A `data: ` line written for a payload reads back as that payload, provided
/// the payload is not empty and does not end in whitespace (which trimming
/// would remove).
pub proof fn law_data_line_roundtrip(payload: Seq<char>)
    requires
        payload.len() > 0,
        !is_unicode_whitespace(payload.last()),
    ensures
        valid_utf8(encode_utf8("data: "@ + payload)),
        payload_of_text(decode_utf8(encode_utf8("data: "@ + payload))) == Some(payload),
{
    let line = "data: "@ + payload;
    vstd::utf8::encode_utf8_valid_utf8(line);
    vstd::utf8::encode_utf8_decode_utf8(line);
    reveal_strlit("data: ");
    assert(line[0] == 'd');
    assert(line.last() == payload.last());
    lemma_trimmed_subrange(line, 0, line.len() as int);
    assert(line.subrange(0, line.len() as int) =~= line);
    assert("data: "@ =~= line.subrange(0, 6));
    assert(line.skip(6) =~= payload);
}

/// The payload of one line of text, as `payload_of_text` says.
pub fn payload_from_text(text: &str) -> (r: Option<String>)
    ensures
        r matches Some(p) ==> payload_of_text(text@) == Some(p@),
        r is None ==> payload_of_text(text@) is None,
{
    let t = trim(text);
    match strip_prefix(t, "data: ") {
        Some(p) => Some(p.to_owned()),
        None => None,
    }
}

/// The payload of one stream line, as `sse_payload` says.
pub fn sse_data_payload(line: &[u8]) -> (r: Option<String>)
    ensures
        r matches Some(p) ==> sse_payload(line@) == Some(p@),
        r is None ==> sse_payload(line@) is None,
        valid_utf8(line@) ==> (r matches Some(p) ==> payload_of_text(decode_utf8(line@)) == Some(
            p@,
        )),
        valid_utf8(line@) ==> (r is None ==> payload_of_text(decode_utf8(line@)) is None),
{
    let text = decode_utf8_lossy(line);
    payload_from_text(text.as_str())
}

/// The texts among the parts of a message, in order.
pub open spec fn part_texts(parts: Seq<Option<Seq<char>>>) -> Seq<Seq<char>>
    decreases parts.len(),
{
    if parts.len() == 0 {
        Seq::empty()
    } else {
        let prev = part_texts(parts.drop_last());
        match parts.last() {
            Some(t) => prev.push(t),
            None => prev,
        }
    }
}

/// The texts a candidate carries.
pub open spec fn candidate_texts(c: Candidate) -> Seq<Seq<char>> {
    match c.content {
        Some(content) => part_texts(parts_view(content.parts@)),
        None => Seq::empty(),
    }
}

/// The texts `ts`, one after the other.
pub open spec fn concat_texts(ts: Seq<Seq<char>>) -> Seq<char>
    decreases ts.len(),
{
    if ts.len() == 0 {
        Seq::empty()
    } else {
        concat_texts(ts.drop_last()) + ts.last()
    }
}

/// Whether the candidate was stopped by the safety filters.
pub open spec fn is_safety_stop(c: Candidate) -> bool {
    c.finish_reason matches Some(r) && r@ == "SAFETY"@
}

/// The first candidate of an event; later ones are ignored.
pub open spec fn first_candidate(chunk: StreamChunk) -> Option<Candidate> {
    match chunk.candidates {
        Some(cs) => if cs@.len() > 0 {
            Some(cs@[0])
        } else {
            None
        },
        None => None,
    }
}

/// The views of a list of strings.
pub open spec fn strings_view(ss: Seq<String>) -> Seq<Seq<char>> {
    ss.map_values(|s: String| s@)
}

/// The sources block for the last grounding metadata received, if any.
pub open spec fn grounding_text(g: Option<GroundingMetadata>) -> Seq<char> {
    match g {
        Some(g) => sources_text(g),
        None => Seq::empty(),
    }
}

/// What one event does to a state that keeps texts when `collecting`, holds
/// the text `text` and the grounding metadata `g`: whether the answer goes
/// on, the texts handed on, then the new text and grounding metadata.
pub open spec fn event_step(
    collecting: bool,
    text: Seq<char>,
    g: Option<GroundingMetadata>,
    chunk: StreamChunk,
) -> (bool, Seq<Seq<char>>, Seq<char>, Option<GroundingMetadata>) {
    match first_candidate(chunk) {
        None => (true, Seq::empty(), text, g),
        Some(c) => if is_safety_stop(c) {
            (false, Seq::empty(), text, g)
        } else {
            let ts = candidate_texts(c);
            (
                true,
                ts,
                if collecting {
                    text + concat_texts(ts)
                } else {
                    text
                },
                if c.grounding_metadata is Some {
                    c.grounding_metadata
                } else {
                    g
                },
            )
        },
    }
}

/// Events applied one after the other, up to the first one that refuses the
/// answer: whether none did, all the texts handed on, then the final text
/// and grounding metadata.
pub open spec fn run_events(
    collecting: bool,
    text: Seq<char>,
    g: Option<GroundingMetadata>,
    chunks: Seq<StreamChunk>,
) -> (bool, Seq<Seq<char>>, Seq<char>, Option<GroundingMetadata>)
    decreases chunks.len(),
{
    if chunks.len() == 0 {
        (true, Seq::empty(), text, g)
    } else {
        let r = run_events(collecting, text, g, chunks.drop_last());
        if !r.0 {
            r
        } else {
            let e = event_step(collecting, r.2, r.3, chunks.last());
            (e.0, r.1 + e.1, e.2, e.3)
        }
    }
}

/// The sources report printed after a streamed answer whose latest grounding
/// metadata is `g`; empty without any.
pub open spec fn grounding_report(g: Option<GroundingMetadata>) -> Seq<char> {
    match g {
        Some(g) => sources_report_text(g),
        None => Seq::empty(),
    }
}

/// What the decoded events of one response have produced so far: the
/// grounding metadata of the latest event that carried some and, when the
/// answer is being collected, the text received.
pub struct StreamState {
    collecting: bool,
    text: String,
    grounding: Option<GroundingMetadata>,
}

impl StreamState {
    /// Whether texts are kept.
    pub closed spec fn is_collecting(&self) -> bool {
        self.collecting
    }

    /// The text collected so far.
    pub closed spec fn collected(&self) -> Seq<char> {
        self.text@
    }

    /// The latest grounding metadata received.
    pub closed spec fn latest_grounding(&self) -> Option<GroundingMetadata> {
        self.grounding
    }

    /// A state for an answer whose text is gathered into one string.
    pub fn collecting() -> (s: StreamState)
        ensures
            s.is_collecting(),
            s.collected() == Seq::<char>::empty(),
            s.latest_grounding() is None,
    {
        StreamState { collecting: true, text: String::new(), grounding: None }
    }

    /// A state for an answer whose text is handed on as it arrives.
    pub fn streaming() -> (s: StreamState)
        ensures
            !s.is_collecting(),
            s.collected() == Seq::<char>::empty(),
            s.latest_grounding() is None,
    {
        StreamState { collecting: false, text: String::new(), grounding: None }
    }

    /// Applies one decoded event. Only its first candidate counts: a
    /// `SAFETY` finish reason refuses the answer; otherwise its texts are
    /// returned in order (and kept when collecting), and its grounding
    /// metadata, if any, replaces what was held.
    pub fn apply_chunk(&mut self, chunk: StreamChunk) -> (r: Result<Vec<String>, GeminiError>)
        ensures
            final(self).is_collecting() == old(self).is_collecting(),
            match first_candidate(chunk) {
                None => (r matches Ok(ts) && ts@.len() == 0) && *final(self) == *old(self),
                Some(c) => if is_safety_stop(c) {
                    r == Err::<Vec<String>, GeminiError>(GeminiError::SafetyBlocked) && *final(self)
                        == *old(self)
                } else {
                    &&& r matches Ok(ts) && strings_view(ts@) == candidate_texts(c)
                    &&& final(self).collected() == if old(self).is_collecting() {
                        old(self).collected() + concat_texts(candidate_texts(c))
                    } else {
                        old(self).collected()
                    }
                    &&& final(self).latest_grounding() == if c.grounding_metadata is Some {
                        c.grounding_metadata
                    } else {
                        old(self).latest_grounding()
                    }
                },
            },
    {
        let ghost first = first_candidate(chunk);
        let mut candidates = match chunk.candidates {
            Some(cs) => cs,
            None => {
                return Ok(Vec::new());
            },
        };
        if candidates.len() == 0 {
            return Ok(Vec::new());
        }
        let candidate = candidates.remove(0);
        assert(first == Some(candidate));
        let blocked = match &candidate.finish_reason {
            Some(reason) => same_text(reason.as_str(), "SAFETY"),
            None => false,
        };
        if blocked {
            return Err(GeminiError::SafetyBlocked);
        }
        let mut texts: Vec<String> = Vec::new();
        match &candidate.content {
            Some(content) => {
                let parts = &content.parts;
                let ghost pv = parts_view(parts@);
                let mut i: usize = 0;
                while i < parts.len()
                    invariant
                        i <= parts@.len(),
                        pv == parts_view(parts@),
                        strings_view(texts@) == part_texts(pv.take(i as int)),
                        self.collecting ==> self.text@ == old(self).text@ + concat_texts(
                            part_texts(pv.take(i as int)),
                        ),
                        !self.collecting ==> self.text@ == old(self).text@,
                        self.collecting == old(self).collecting,
                        self.grounding == old(self).grounding,
                    decreases parts@.len() - i,
                {
                    proof {
                        assert(pv.take(i as int + 1).drop_last() =~= pv.take(i as int));
                        assert(pv.take(i as int + 1).last() == parts@[i as int]@);
                    }
                    let ghost before = texts@;
                    match &parts[i].text {
                        Some(t) => {
                            texts.push(t.clone());
                            if self.collecting {
                                self.text.append(t.as_str());
                            }
                            proof {
                                assert(strings_view(texts@) =~= strings_view(before).push(t@));
                                let pt = part_texts(pv.take(i as int));
                                assert(pt.push(t@).drop_last() =~= pt);
                                assert(concat_texts(pt.push(t@)) == concat_texts(pt) + t@);
                                assert(old(self).text@ + concat_texts(pt) + t@ =~= old(self).text@
                                    + (concat_texts(pt) + t@));
                            }
                        },
                        None => {},
                    }
                    i = i + 1;
                }
                proof {
                    assert(pv.take(pv.len() as int) =~= pv);
                }
            },
            None => {
                proof {
                    assert(strings_view(texts@) =~= Seq::<Seq<char>>::empty());
                    assert(old(self).text@ + concat_texts(Seq::<Seq<char>>::empty()) =~= old(self).text@);
                }
            },
        }
        if candidate.grounding_metadata.is_some() {
            self.grounding = candidate.grounding_metadata;
        }
        Ok(texts)
    }

    /// Applies the events `chunks` in order and returns the texts they hand
    /// on; at the first event that refuses the answer it stops, with the
    /// texts of the events before it and the error.
    pub fn apply_chunks(&mut self, chunks: Vec<StreamChunk>) -> (r: (
        Vec<String>,
        Result<(), GeminiError>,
    ))
        ensures
            final(self).is_collecting() == old(self).is_collecting(),
            ({
                let run = run_events(
                    old(self).is_collecting(),
                    old(self).collected(),
                    old(self).latest_grounding(),
                    chunks@,
                );
                &&& strings_view(r.0@) == run.1
                &&& r.1 == if run.0 {
                    Ok::<(), GeminiError>(())
                } else {
                    Err::<(), GeminiError>(GeminiError::SafetyBlocked)
                }
                &&& final(self).collected() == run.2
                &&& final(self).latest_grounding() == run.3
            }),
    {
        let ghost all = chunks@;
        let ghost c0 = self.collecting;
        let ghost t0 = self.text@;
        let ghost g0 = self.grounding;
        let mut rest = chunks;
        let mut texts: Vec<String> = Vec::new();
        let ghost mut i: int = 0;
        while rest.len() > 0
            invariant
                0 <= i <= all.len(),
                rest@ == all.skip(i),
                all == chunks@,
                c0 == old(self).collecting,
                t0 == old(self).text@,
                g0 == old(self).grounding,
                self.collecting == c0,
                run_events(c0, t0, g0, all.take(i)) == (
                    true,
                    strings_view(texts@),
                    self.text@,
                    self.grounding,
                ),
            decreases rest@.len(),
        {
            let chunk = rest.remove(0);
            proof {
                assert(all.take(i + 1).drop_last() =~= all.take(i));
                assert(all.take(i + 1).last() == all[i]);
            }
            let ghost before = strings_view(texts@);
            match self.apply_chunk(chunk) {
                Ok(mut ts) => {
                    let ghost added = ts@;
                    texts.append(&mut ts);
                    proof {
                        assert(strings_view(texts@) =~= before + strings_view(added));
                        i = i + 1;
                        assert(rest@ =~= all.skip(i));
                    }
                },
                Err(e) => {
                    proof {
                        lemma_refused_run_stays(c0, t0, g0, all, i + 1);
                    }
                    return (texts, Err(e));
                },
            }
        }
        proof {
            assert(all.take(i) =~= all);
        }
        (texts, Ok(()))
    }

    /// The collected answer: the text received, then the sources block of
    /// the latest grounding metadata.
    pub fn finish(self) -> (answer: String)
        ensures
            answer@ == self.collected() + grounding_text(self.latest_grounding()),
    {
        let mut answer = self.text;
        match &self.grounding {
            Some(g) => append_grounding_sources(&mut answer, g),
            None => {
                proof {
                    assert(answer@ + Seq::<char>::empty() =~= answer@);
                }
            },
        }
        answer
    }

    /// What a streamed answer prints after its text, once the stream has
    /// ended with `outcome`. On success: a newline on standard output (the
    /// first string), then the sources report of the latest grounding
    /// metadata on standard error (the second string, empty when there is no
    /// grounding metadata or no web source). On failure: nothing, and the
    /// error is handed back.
    pub fn closing_output<E>(self, outcome: Result<(), E>) -> (r: Result<(String, String), E>)
        ensures
            match outcome {
                Ok(()) => r matches Ok((out, err)) && out@ == "\n"@ && err@ == grounding_report(
                    self.latest_grounding(),
                ),
                Err(e) => r matches Err(e2) && e2 == e,
            },
    {
        match outcome {
            Err(e) => Err(e),
            Ok(()) => {
                let out = String::from_str("\n");
                let err = match &self.grounding {
                    Some(g) => sources_report(g),
                    None => String::new(),
                };
                Ok((out, err))
            },
        }
    }

    /// The latest grounding metadata, which a streamed answer reports after
    /// its text.
    pub fn into_grounding(self) -> (g: Option<GroundingMetadata>)
        ensures
            g == self.latest_grounding(),
    {
        self.grounding
    }
}

/// Once an event has refused the answer, later events change nothing.
pub proof fn lemma_refused_run_stays(
    collecting: bool,
    text: Seq<char>,
    g: Option<GroundingMetadata>,
    chunks: Seq<StreamChunk>,
    k: int,
)
    requires
        0 <= k <= chunks.len(),
        !run_events(collecting, text, g, chunks.take(k)).0,
    ensures
        run_events(collecting, text, g, chunks) == run_events(collecting, text, g, chunks.take(k)),
    decreases chunks.len(),
{
    if k == chunks.len() {
        assert(chunks.take(k) =~= chunks);
    } else {
        assert(chunks.drop_last().take(k) =~= chunks.take(k));
        lemma_refused_run_stays(collecting, text, g, chunks.drop_last(), k);
    }
}

/// The texts among parts are what `filter_map` keeps of them: each part
/// that carries a text gives it, in order, and the others nothing.
pub proof fn law_part_texts_filter_map(parts: Seq<Option<Seq<char>>>)
    ensures
        part_texts(parts) == parts.filter_map(|p: Option<Seq<char>>| p),
    decreases parts.len(),
{
    if parts.len() > 0 {
        law_part_texts_filter_map(parts.drop_last());
        if let Some(t) = parts.last() {
            assert(part_texts(parts.drop_last()).push(t) =~= part_texts(parts.drop_last()) + seq![t]);
        }
    }
}

/// The texts a candidate hands on are all the text parts of its content, in
/// order, whatever its finish reason: a finish reason such as `STOP` drops
/// nothing (only `SAFETY`, checked when the event is applied, refuses the
/// answer).
pub proof fn law_candidate_texts_are_its_text_parts(c: Candidate, reason: Option<String>)
    ensures
        candidate_texts(c) == match c.content {
            Some(content) => parts_view(content.parts@).filter_map(|p: Option<Seq<char>>| p),
            None => Seq::<Seq<char>>::empty(),
        },
        candidate_texts(
            Candidate {
                content: c.content,
                finish_reason: reason,
                grounding_metadata: c.grounding_metadata,
            },
        ) == candidate_texts(c),
{
    if let Some(content) = c.content {
        law_part_texts_filter_map(parts_view(content.parts@));
    }
}

/// An event whose first candidate is not stopped for safety hands on all the
/// text parts of that candidate's content, in order, and a collecting state
/// gathers them after its text; its finish reason plays no other part.
pub proof fn law_event_hands_on_text_parts(
    collecting: bool,
    text: Seq<char>,
    g: Option<GroundingMetadata>,
    chunk: StreamChunk,
)
    ensures
        match first_candidate(chunk) {
            Some(c) => !is_safety_stop(c) ==> {
                let ts = match c.content {
                    Some(content) => parts_view(content.parts@).filter_map(
                        |p: Option<Seq<char>>| p,
                    ),
                    None => Seq::<Seq<char>>::empty(),
                };
                let e = event_step(collecting, text, g, chunk);
                &&& e.0
                &&& e.1 == ts
                &&& e.2 == if collecting {
                    text + concat_texts(ts)
                } else {
                    text
                }
            },
            None => true,
        },
{
    if let Some(c) = first_candidate(chunk) {
        law_candidate_texts_are_its_text_parts(c, None);
    }
}

/// Only the finish reason `SAFETY` stops an answer: none, or any other
/// reason such as `STOP`, does not.
pub proof fn law_only_safety_stops(c: Candidate)
    ensures
        is_safety_stop(c) <==> (c.finish_reason matches Some(r) && r@ == "SAFETY"@),
        c.finish_reason is None ==> !is_safety_stop(c),
        c.finish_reason matches Some(r) && r@ == "STOP"@ ==> !is_safety_stop(c),
{
    reveal_strlit("STOP");
    reveal_strlit("SAFETY");
    if let Some(r) = c.finish_reason {
        if r@ == "STOP"@ {
            assert("STOP"@.len() != "SAFETY"@.len());
        }
    }
}

/// One text alone is itself; with `lemma_concat_texts_append` this makes
/// `concat_texts` the texts written one after the other, none left out.
pub proof fn law_concat_texts_single(t: Seq<char>)
    ensures
        concat_texts(seq![t]) == t,
{
    let s = seq![t];
    assert(s.drop_last() =~= Seq::<Seq<char>>::empty());
    assert(concat_texts(s.drop_last()) == Seq::<char>::empty());
    assert(s.last() == t);
    assert(Seq::<char>::empty() + t =~= t);
}

/// Texts one after the other, in two halves.
pub proof fn lemma_concat_texts_append(a: Seq<Seq<char>>, b: Seq<Seq<char>>)
    ensures
        concat_texts(a + b) == concat_texts(a) + concat_texts(b),
    decreases b.len(),
{
    if b.len() == 0 {
        assert(a + b =~= a);
        assert(concat_texts(a) + Seq::<char>::empty() =~= concat_texts(a));
    } else {
        assert((a + b).drop_last() =~= a + b.drop_last());
        assert((a + b).last() == b.last());
        lemma_concat_texts_append(a, b.drop_last());
        assert(concat_texts(a) + concat_texts(b.drop_last()) + b.last() =~= concat_texts(a) + (
        concat_texts(b.drop_last()) + b.last()));
    }
}

/// Over any sequence of events, a collecting state and a streaming one hand
/// on the same texts, stop at the same event and end with the same
/// grounding metadata; the collecting one has gathered exactly those texts
/// after what it held, and the streaming one has kept its text unchanged.
pub proof fn law_collected_is_streamed(
    text: Seq<char>,
    g: Option<GroundingMetadata>,
    chunks: Seq<StreamChunk>,
)
    ensures
        ({
            let c = run_events(true, text, g, chunks);
            let s = run_events(false, text, g, chunks);
            &&& c.0 == s.0
            &&& c.1 == s.1
            &&& c.3 == s.3
            &&& c.2 == text + concat_texts(c.1)
            &&& s.2 == text
        }),
    decreases chunks.len(),
{
    if chunks.len() == 0 {
        assert(text + concat_texts(Seq::<Seq<char>>::empty()) =~= text);
    } else {
        law_collected_is_streamed(text, g, chunks.drop_last());
        let c = run_events(true, text, g, chunks.drop_last());
        if c.0 {
            let e = event_step(true, c.2, c.3, chunks.last());
            lemma_concat_texts_append(c.1, e.1);
            assert(text + concat_texts(c.1) + concat_texts(e.1) =~= text + (concat_texts(c.1)
                + concat_texts(e.1)));
        }
    }
}

/// Applying events in two batches is applying them all at once: the second
/// batch starts from where the first left the text and grounding metadata,
/// and is not applied when the first refused the answer.
pub proof fn law_run_events_batches(
    collecting: bool,
    text: Seq<char>,
    g: Option<GroundingMetadata>,
    a: Seq<StreamChunk>,
    b: Seq<StreamChunk>,
)
    ensures
        ({
            let r = run_events(collecting, text, g, a);
            run_events(collecting, text, g, a + b) == if r.0 {
                let q = run_events(collecting, r.2, r.3, b);
                (q.0, r.1 + q.1, q.2, q.3)
            } else {
                r
            }
        }),
    decreases b.len(),
{
    let r = run_events(collecting, text, g, a);
    if b.len() == 0 {
        assert(a + b =~= a);
        assert(r.1 + Seq::<Seq<char>>::empty() =~= r.1);
    } else {
        assert((a + b).drop_last() =~= a + b.drop_last());
        assert((a + b).last() == b.last());
        law_run_events_batches(collecting, text, g, a, b.drop_last());
        if r.0 {
            let q = run_events(collecting, r.2, r.3, b.drop_last());
            if q.0 {
                let e = event_step(collecting, q.2, q.3, b.last());
                assert(r.1 + q.1 + e.1 =~= r.1 + (q.1 + e.1));
            }
        }
    }
}

/// What a fresh collecting state gathers over a response, with the sources
/// block of its last grounding metadata after it (what `finish` returns),
/// is the texts a fresh streaming state hands on over the same response,
/// one after the other, followed by the sources block of the grounding
/// metadata that state reports.
pub proof fn law_collect_answer_is_streamed_text(chunks: Seq<StreamChunk>)
    ensures
        ({
            let c = run_events(true, Seq::empty(), None, chunks);
            let s = run_events(false, Seq::empty(), None, chunks);
            c.2 + grounding_text(c.3) == concat_texts(s.1) + grounding_text(s.3)
        }),
{
    law_collected_is_streamed(Seq::empty(), None, chunks);
    let c = run_events(true, Seq::empty(), None, chunks);
    assert(Seq::<char>::empty() + concat_texts(c.1) =~= concat_texts(c.1));
}

} // verus!
