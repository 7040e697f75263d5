//! Frame assembly for the signaling protocol: a decoder that reassembles
//! frames from partial reads, an encoder that buffers frames for sending,
//! and the framing of one message.

use vstd::prelude::*;

use crate::error::IoError;
use crate::protocol::messages::{
    append_bytes, decode_header, frame_bytes, header_fields_bytes, lemma_frame_layout,
    lemma_header_reencodes, lemma_header_validity, push_frame, spec_decode_header, ErrorView, FrameHeader, MAGIC, VERSION,
};

verus! {

broadcast use vstd::seq::group_seq_axioms;

const HEADER_LEN: usize = 8;

/// Appends one whole frame (header then `payload`) to `writer`.
pub fn write_frame(writer: &mut Vec<u8>, msg_type: u8, payload: &[u8])
    ensures
        final(writer)@ == old(writer)@ + frame_bytes(msg_type, payload@),
{
    let mut frame = Vec::new();
    push_frame(&mut frame, msg_type, payload);
    append_bytes(writer, frame.as_slice());
    assert(final(writer)@ =~= old(writer)@ + frame_bytes(msg_type, payload@));
}

// ---------------------------------------------------------------------------
// Decoder
// ---------------------------------------------------------------------------

/// The state of a decoder: the header of the frame in progress, if its
/// header is complete, and the bytes received but not yet consumed.
pub type DecoderView = (Option<FrameHeader>, Seq<u8>);

/// What one call of `feed` answers: a complete frame, nothing yet, or the
/// error of a malformed header.
pub type FeedView = Result<Option<(FrameHeader, Seq<u8>)>, ErrorView>;

/// With the header `h` known and the bytes `rest` after it: the frame when
/// its whole payload is there, and the state that follows.
pub open spec fn deliver(h: FrameHeader, rest: Seq<u8>) -> (DecoderView, FeedView) {
    let n = h.payload_len as int;
    if rest.len() < n {
        ((Some(h), rest), Ok(None))
    } else {
        ((None, rest.skip(n)), Ok(Some((h, rest.take(n)))))
    }
}

/// One step of the decoder: the state `s` receives `data`. The answer is
/// the new state and what the call returns.
pub open spec fn decoder_step(s: DecoderView, data: Seq<u8>) -> (DecoderView, FeedView) {
    let b = s.1 + data;
    match s.0 {
        Some(h) => deliver(h, b),
        None => {
            if b.len() < 8 {
                ((None, b), Ok(None))
            } else {
                match spec_decode_header(b.take(8)) {
                    Err(e) => ((None, b), Err(e)),
                    Ok(h) => deliver(h, b.skip(8)),
                }
            }
        },
    }
}

/// The view of what `feed` returns.
pub open spec fn feed_view(r: Result<Option<(FrameHeader, Vec<u8>)>, IoError>) -> FeedView {
    match r {
        Ok(Some((h, p))) => Ok(Some((h, p@))),
        Ok(None) => Ok(None),
        Err(e) => Err(e@),
    }
}

/// The state of a decoder that holds nothing.
pub open spec fn idle_decoder() -> DecoderView {
    (None, Seq::empty())
}

/// A frame decoder that handles partial reads.
pub struct FrameDecoder {
    /// True once we've seen a complete header.
    header_done: bool,
    /// The completed header, once known.
    header: Option<FrameHeader>,
    /// Bytes read but not yet processed.
    buf: Vec<u8>,
    /// How many bytes of the payload have been received.
    payload_received: usize,
}

impl View for FrameDecoder {
    type V = DecoderView;

    closed spec fn view(&self) -> DecoderView {
        (self.header, self.buf@)
    }
}

impl FrameDecoder {
    #[verifier::type_invariant]
    spec fn wf(&self) -> bool {
        &&& self.header_done == self.header.is_some()
        &&& self.payload_received == 0
        &&& self.header matches Some(h) ==> h.magic == MAGIC && h.version == VERSION
    }

    /// Create a new frame decoder.
    pub fn new() -> (d: Self)
        ensures
            d@ == idle_decoder(),
    {
        FrameDecoder { header_done: false, header: None, buf: Vec::new(), payload_received: 0 }
    }

    /// Feed more bytes from the wire. Returns `Ok(Some((header, payload)))`
    /// when a complete frame is ready, `Ok(None)` if more bytes are needed.
    pub fn feed(&mut self, data: &[u8]) -> (r: Result<Option<(FrameHeader, Vec<u8>)>, IoError>)
        ensures
            (final(self)@, feed_view(r)) == decoder_step(old(self)@, data@),
            r matches Ok(Some((h, p))) ==> h.magic == MAGIC && h.version == VERSION
                && p@.len() == h.payload_len,
    {
        proof {
            use_type_invariant(&*self);
        }
        let mut buf: Vec<u8> = Vec::new();
        std::mem::swap(&mut buf, &mut self.buf);
        append_bytes(&mut buf, data);
        let ghost all = buf@;
        let mut header_done = self.header_done;
        let mut header = self.header;
        // Try to decode the header first.
        if !header_done {
            if buf.len() < HEADER_LEN {
                self.buf = buf;
                return Ok(None);
            }
            match decode_header(&buf.as_slice()[0..HEADER_LEN]) {
                Ok(h) => {
                    header = Some(h);
                    header_done = true;
                },
                Err(e) => {
                    self.buf = buf;
                    return Err(e);
                },
            }
            // Drain only the header: keep the start of the payload.
            let rest = buf.split_off(HEADER_LEN);
            buf = rest;
        }
        let h = match header {
            Some(h) => h,
            None => {
                self.buf = buf;
                return Ok(None);
            },
        };
        let payload_len = h.payload_len as usize;
        let needed = payload_len - self.payload_received;
        if buf.len() < needed {
            *self = FrameDecoder {
                header_done,
                header,
                buf,
                payload_received: self.payload_received,
            };
            return Ok(None);
        }
        // The whole payload is here.
        let rest = buf.split_off(needed);
        *self = FrameDecoder { header_done: false, header: None, buf: rest, payload_received: 0 };
        Ok(Some((h, buf)))
    }

    /// Returns true if the decoder is idle (no partial state).
    pub fn is_idle(&self) -> (r: bool)
        ensures
            r == (self@ == idle_decoder()),
    {
        proof {
            use_type_invariant(&*self);
        }
        let r = !self.header_done && self.header.is_none() && self.buf.len() == 0;
        assert(r == (self@ == idle_decoder())) by {
            if self.buf@.len() == 0 {
                assert(self.buf@ =~= Seq::<u8>::empty());
            }
        }
        r
    }
}

impl Default for FrameDecoder {
    fn default() -> (d: Self)
        ensures
            d@ == idle_decoder(),
    {
        Self::new()
    }
}

// ---------------------------------------------------------------------------
// Encoder
// ---------------------------------------------------------------------------

/// A frame encoder that buffers complete frames.
pub struct FrameEncoder {
    buf: Vec<u8>,
    pos: usize,
}

impl View for FrameEncoder {
    type V = Seq<u8>;

    /// The bytes enqueued and not yet drained.
    closed spec fn view(&self) -> Seq<u8> {
        self.buf@.subrange(self.pos as int, self.buf@.len() as int)
    }
}

impl FrameEncoder {
    #[verifier::type_invariant]
    spec fn wf(&self) -> bool {
        self.pos <= self.buf@.len()
    }

    /// Create a new encoder.
    pub fn new() -> (e: Self)
        ensures
            e@ == Seq::<u8>::empty(),
    {
        let e = FrameEncoder { buf: Vec::new(), pos: 0 };
        assert(e@ =~= Seq::<u8>::empty());
        e
    }

    /// Enqueue a frame for sending.
    pub fn encode(&mut self, msg_type: u8, payload: &[u8])
        ensures
            final(self)@ == old(self)@ + frame_bytes(msg_type, payload@),
    {
        proof {
            use_type_invariant(&*self);
        }
        let mut frame = Vec::new();
        push_frame(&mut frame, msg_type, payload);
        let mut current = FrameEncoder::new();
        std::mem::swap(self, &mut current);
        proof {
            use_type_invariant(&current);
        }
        let FrameEncoder { mut buf, pos } = current;
        append_bytes(&mut buf, frame.as_slice());
        *self = FrameEncoder { buf, pos };
        assert(self@ =~= old(self)@ + frame_bytes(msg_type, payload@));
    }

    /// Copy up to `out.len()` of the enqueued bytes into `out`, oldest
    /// first. Returns how many bytes were copied.
    pub fn drain_into(&mut self, out: &mut [u8]) -> (r: Result<usize, IoError>)
        ensures
            r is Ok,
            r matches Ok(n) && {
                &&& n == if old(self)@.len() < old(out)@.len() {
                    old(self)@.len()
                } else {
                    old(out)@.len()
                }
                &&& final(out)@ == old(self)@.take(n as int) + old(out)@.skip(n as int)
                &&& final(self)@ == old(self)@.skip(n as int)
            },
    {
        proof {
            use_type_invariant(&*self);
        }
        let available = self.buf.len() - self.pos;
        let to_write = if available < out.len() {
            available
        } else {
            out.len()
        };
        let ghost pending = old(self)@;
        let ghost out0 = old(out)@;
        let mut i: usize = 0;
        while i < to_write
            invariant
                i <= to_write,
                to_write <= out@.len(),
                out@.len() == out0.len(),
                self.pos + to_write <= self.buf.len(),
                pending == self.buf@.subrange(self.pos as int, self.buf@.len() as int),
                forall|j: int| 0 <= j < i ==> #[trigger] out@[j] == pending[j],
                forall|j: int| i <= j < out@.len() ==> #[trigger] out@[j] == out0[j],
            decreases to_write - i,
        {
            out[i] = self.buf[self.pos + i];
            i = i + 1;
        }
        self.pos = self.pos + to_write;
        assert(out@ =~= pending.take(to_write as int) + out0.skip(to_write as int));
        assert(self@ =~= pending.skip(to_write as int));
        // Compact once fully drained.
        if self.pos == self.buf.len() {
            *self = FrameEncoder { buf: Vec::new(), pos: 0 };
            assert(self@ =~= pending.skip(to_write as int));
        }
        Ok(to_write)
    }

    /// Returns true if there is nothing left to drain.
    pub fn is_empty(&self) -> (r: bool)
        ensures
            r == (self@.len() == 0),
    {
        proof {
            use_type_invariant(&*self);
        }
        self.pos >= self.buf.len()
    }

    /// Number of bytes enqueued and not yet drained.
    pub fn buffered(&self) -> (n: usize)
        ensures
            n == self@.len(),
    {
        proof {
            use_type_invariant(&*self);
        }
        self.buf.len() - self.pos
    }
}

impl Default for FrameEncoder {
    fn default() -> (e: Self)
        ensures
            e@ == Seq::<u8>::empty(),
    {
        Self::new()
    }
}


// ---------------------------------------------------------------------------
// Laws of the decoder
// ---------------------------------------------------------------------------

/// Feeding bytes in two calls, where the first call completes no frame,
/// ends in the same state and answer as feeding them in one call.
pub proof fn lemma_feed_split(s: DecoderView, a: Seq<u8>, b: Seq<u8>)
    requires
        decoder_step(s, a).1 == Ok::<Option<(FrameHeader, Seq<u8>)>, ErrorView>(None),
    ensures
        decoder_step(decoder_step(s, a).0, b) == decoder_step(s, a + b),
{
    let ab = s.1 + (a + b);
    let first = s.1 + a;
    assert(ab =~= first + b);
    match s.0 {
        Some(h) => {
            assert(decoder_step(s, a).0 == (Some(h), first));
        },
        None => {
            if first.len() < 8 {
                assert(decoder_step(s, a).0 == (None::<FrameHeader>, first));
            } else {
                assert(ab.take(8) =~= first.take(8));
                assert(ab.skip(8) =~= first.skip(8) + b);
            }
        },
    }
}

/// An idle decoder that receives a whole frame, followed by any bytes,
/// answers that frame's header and payload and keeps the bytes that follow.
pub proof fn lemma_frame_decodes(msg_type: u8, payload: Seq<u8>, rest: Seq<u8>)
    requires
        payload.len() <= u32::MAX,
    ensures
        decoder_step(idle_decoder(), frame_bytes(msg_type, payload) + rest) == (
            (None::<FrameHeader>, rest),
            Ok::<_, ErrorView>(
                Some(
                    (
                        FrameHeader {
                            magic: MAGIC,
                            version: VERSION,
                            msg_type,
                            payload_len: payload.len() as u32,
                        },
                        payload,
                    ),
                ),
            ),
        ),
{
    let b = Seq::<u8>::empty() + (frame_bytes(msg_type, payload) + rest);
    assert(b =~= frame_bytes(msg_type, payload) + rest);
    lemma_frame_layout(msg_type, payload, rest);
    assert((payload + rest).take(payload.len() as int) =~= payload);
    assert((payload + rest).skip(payload.len() as int) =~= rest);
}

/// A whole frame delivered in two pieces, split anywhere, gives nothing for
/// the first piece, then that frame, and leaves the decoder idle.
pub proof fn lemma_frame_decodes_in_two_pieces(msg_type: u8, payload: Seq<u8>, k: int)
    requires
        payload.len() <= u32::MAX,
        0 <= k < frame_bytes(msg_type, payload).len(),
    ensures
        ({
            let f = frame_bytes(msg_type, payload);
            let (mid, first) = decoder_step(idle_decoder(), f.take(k));
            &&& first == Ok::<Option<(FrameHeader, Seq<u8>)>, ErrorView>(None)
            &&& decoder_step(mid, f.skip(k)) == (
                idle_decoder(),
                Ok::<_, ErrorView>(
                    Some(
                        (
                            FrameHeader {
                                magic: MAGIC,
                                version: VERSION,
                                msg_type,
                                payload_len: payload.len() as u32,
                            },
                            payload,
                        ),
                    ),
                ),
            )
        }),
{
    let f = frame_bytes(msg_type, payload);
    let a = f.take(k);
    let b = f.skip(k);
    lemma_frame_layout(msg_type, payload, Seq::empty());
    assert(f + Seq::<u8>::empty() =~= f);
    let buf = Seq::<u8>::empty() + a;
    assert(buf =~= a);
    if k >= 8 {
        assert(a.take(8) =~= f.take(8));
        assert(a.skip(8).len() == k - 8);
    }
    assert(decoder_step(idle_decoder(), a).1 == Ok::<Option<(FrameHeader, Seq<u8>)>, ErrorView>(
        None,
    ));
    lemma_feed_split(idle_decoder(), a, b);
    assert(a + b =~= f + Seq::<u8>::empty());
    lemma_frame_decodes(msg_type, payload, Seq::empty());
}


// ---------------------------------------------------------------------------
// Laws over a sequence of feeds
// ---------------------------------------------------------------------------

/// The bytes a decoder holds and has not yet answered: the header of the
/// frame in progress, as its fields stand, then the bytes received after it.
pub open spec fn pending_bytes(s: DecoderView) -> Seq<u8> {
    match s.0 {
        Some(h) => header_fields_bytes(h) + s.1,
        None => s.1,
    }
}

/// The bytes that one answer of `feed` accounts for: the whole frame it
/// returns, or nothing.
pub open spec fn answered_bytes(r: FeedView) -> Seq<u8> {
    match r {
        Ok(Some((h, p))) => header_fields_bytes(h) + p,
        _ => Seq::empty(),
    }
}

/// The bytes that a sequence of answers accounts for, in order.
pub open spec fn answered_all(answers: Seq<FeedView>) -> Seq<u8>
    decreases answers.len(),
{
    if answers.len() == 0 {
        Seq::empty()
    } else {
        answered_all(answers.drop_last()) + answered_bytes(answers.last())
    }
}

/// The chunks one after the other.
pub open spec fn concat(chunks: Seq<Seq<u8>>) -> Seq<u8>
    decreases chunks.len(),
{
    if chunks.len() == 0 {
        Seq::empty()
    } else {
        concat(chunks.drop_last()) + chunks.last()
    }
}

/// A new decoder fed `chunks`, one call of `feed` per chunk: the state it
/// ends in and what each call answers.
pub open spec fn run_decoder(chunks: Seq<Seq<u8>>) -> (DecoderView, Seq<FeedView>)
    decreases chunks.len(),
{
    if chunks.len() == 0 {
        (idle_decoder(), Seq::empty())
    } else {
        let (s, answers) = run_decoder(chunks.drop_last());
        let (next, r) = decoder_step(s, chunks.last());
        (next, answers.push(r))
    }
}

/// One call of `feed` that does not fail loses no byte and invents none:
/// what was pending, followed by the new bytes, is the frame it answers (if
/// any) followed by what is pending after it.
pub proof fn lemma_step_accounts_for_every_byte(s: DecoderView, a: Seq<u8>)
    requires
        decoder_step(s, a).1 is Ok,
    ensures
        pending_bytes(s) + a == answered_bytes(decoder_step(s, a).1) + pending_bytes(
            decoder_step(s, a).0,
        ),
{
    let b = s.1 + a;
    match s.0 {
        Some(h) => {
            let n = h.payload_len as int;
            if b.len() >= n {
                assert(b =~= b.take(n) + b.skip(n));
            }
            assert(pending_bytes(s) + a =~= header_fields_bytes(h) + b);
        },
        None => {
            if b.len() >= 8 {
                lemma_header_reencodes(b.take(8));
                let h = spec_decode_header(b.take(8))->Ok_0;
                let rest = b.skip(8);
                let n = h.payload_len as int;
                assert(b =~= b.take(8) + rest);
                if rest.len() >= n {
                    assert(rest =~= rest.take(n) + rest.skip(n));
                }
            }
        },
    }
}

/// A decoder is idle exactly when no received byte is pending.
pub proof fn lemma_idle_iff_nothing_pending(s: DecoderView)
    ensures
        (s == idle_decoder()) <==> pending_bytes(s).len() == 0,
{
    if s.0 is None && s.1.len() == 0 {
        assert(s.1 =~= Seq::<u8>::empty());
    }
}

/// A new decoder fed any chunks, with no call failing, answers one call per
/// chunk; the bytes fed are the frames it answered, in order, followed by the
/// bytes still pending; and it is idle exactly when none is pending.
pub proof fn lemma_decoder_accounts_for_every_byte(chunks: Seq<Seq<u8>>)
    requires
        forall|i: int| 0 <= i < chunks.len() ==> #[trigger] run_decoder(chunks).1[i] is Ok,
    ensures
        run_decoder(chunks).1.len() == chunks.len(),
        concat(chunks) == answered_all(run_decoder(chunks).1) + pending_bytes(
            run_decoder(chunks).0,
        ),
        (run_decoder(chunks).0 == idle_decoder()) <==> pending_bytes(run_decoder(chunks).0).len()
            == 0,
    decreases chunks.len(),
{
    lemma_run_len(chunks);
    lemma_idle_iff_nothing_pending(run_decoder(chunks).0);
    if chunks.len() == 0 {
        assert(concat(chunks) =~= answered_all(run_decoder(chunks).1) + pending_bytes(
            run_decoder(chunks).0,
        ));
    } else {
        let prefix = chunks.drop_last();
        let c = chunks.last();
        let s = run_decoder(prefix).0;
        let answers = run_decoder(prefix).1;
        let next = run_decoder(chunks).0;
        let all = run_decoder(chunks).1;
        lemma_run_last(chunks);
        lemma_run_len(prefix);
        assert forall|i: int| 0 <= i < prefix.len() implies #[trigger] run_decoder(prefix).1[i] is Ok by {
            assert(all[i] == answers[i]);
            assert(run_decoder(chunks).1[i] is Ok);
        }
        lemma_decoder_accounts_for_every_byte(prefix);
        let r = all.last();
        assert(run_decoder(chunks).1[prefix.len() as int] is Ok);
        lemma_step_accounts_for_every_byte(s, c);
        assert(all.drop_last() =~= answers);
        lemma_concat_step(
            concat(prefix),
            answered_all(answers),
            pending_bytes(s),
            c,
            answered_bytes(r),
            pending_bytes(next),
        );
    }
}

/// The last call of a run is one decoder step from the state before it.
proof fn lemma_run_last(chunks: Seq<Seq<u8>>)
    requires
        chunks.len() > 0,
    ensures
        run_decoder(chunks).0 == decoder_step(run_decoder(chunks.drop_last()).0, chunks.last()).0,
        run_decoder(chunks).1 == run_decoder(chunks.drop_last()).1.push(
            decoder_step(run_decoder(chunks.drop_last()).0, chunks.last()).1,
        ),
{
}

/// Regrouping of concatenations for one more chunk.
proof fn lemma_concat_step(
    fed: Seq<u8>,
    done: Seq<u8>,
    pending: Seq<u8>,
    chunk: Seq<u8>,
    answered: Seq<u8>,
    next_pending: Seq<u8>,
)
    requires
        fed == done + pending,
        pending + chunk == answered + next_pending,
    ensures
        fed + chunk == (done + answered) + next_pending,
{
    assert(fed + chunk =~= done + (pending + chunk));
    assert((done + answered) + next_pending =~= done + (answered + next_pending));
}

/// A run answers once per chunk.
proof fn lemma_run_len(chunks: Seq<Seq<u8>>)
    ensures
        run_decoder(chunks).1.len() == chunks.len(),
    decreases chunks.len(),
{
    if chunks.len() > 0 {
        lemma_run_len(chunks.drop_last());
    }
}


/// Whether a header carries the protocol's magic and version.
pub open spec fn valid_header(h: FrameHeader) -> bool {
    h.magic == MAGIC && h.version == VERSION
}

/// Whether an answer of `feed`, if it is a frame, has a valid header and a
/// payload of the length the header gives.
pub open spec fn valid_answer(r: FeedView) -> bool {
    r matches Ok(Some((h, p))) ==> valid_header(h) && p.len() == h.payload_len
}

/// One step from a state whose pending header (if any) is valid answers only
/// a valid frame and keeps the pending header valid.
pub proof fn lemma_step_answers_valid_frames(s: DecoderView, a: Seq<u8>)
    requires
        s.0 matches Some(h) ==> valid_header(h),
    ensures
        valid_answer(decoder_step(s, a).1),
        decoder_step(s, a).0.0 matches Some(h) ==> valid_header(h),
{
    let b = s.1 + a;
    if s.0 is None && b.len() >= 8 {
        lemma_header_validity(b.take(8));
    }
}

/// Every frame that a new decoder answers, whatever chunks it is fed, has
/// the magic 0x4F50, version 0x01 and a payload of the length its header
/// gives.
pub proof fn lemma_run_answers_only_valid_frames(chunks: Seq<Seq<u8>>)
    ensures
        forall|i: int| 0 <= i < run_decoder(chunks).1.len() ==> valid_answer(
            #[trigger] run_decoder(chunks).1[i],
        ),
        run_decoder(chunks).0.0 matches Some(h) ==> valid_header(h),
    decreases chunks.len(),
{
    if chunks.len() > 0 {
        let prefix = chunks.drop_last();
        lemma_run_answers_only_valid_frames(prefix);
        lemma_run_last(chunks);
        lemma_step_answers_valid_frames(run_decoder(prefix).0, chunks.last());
        let all = run_decoder(chunks).1;
        assert forall|i: int| 0 <= i < all.len() implies valid_answer(#[trigger] all[i]) by {
            if i < run_decoder(prefix).1.len() {
                assert(all[i] == run_decoder(prefix).1[i]);
            }
        }
    }
}

} // verus!
