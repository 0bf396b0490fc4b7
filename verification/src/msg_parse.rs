//! Reassembly of length-prefixed messages from the bytes that socket reads
//! hand over.
//!
//! The byte stream is a sequence of frames, each a 4-byte big-endian length
//! followed by that many bytes of body (`decode`). Reads cut the stream at
//! arbitrary points: a header or a body may be split over several reads. A
//! `MsgParser` keeps the bytes of the unfinished frame (`pending`) between
//! reads. It is fed one read buffer at a time (`before_handle`, then
//! `handle_a_buffset` until it yields `None`, or `take_messages`); every
//! complete frame is yielded exactly once, in order, whatever the read
//! boundaries (`lemma_reads_reassemble`).
use crate::codec::{be_u32, lemma_be_roundtrip, read_u32_be, HEAD_SIZE};
use crate::msg_gen::framed;
use vstd::prelude::*;
use vstd::slice::slice_to_vec;

verus! {

/// The decoded header of a message: the length of its body.
#[derive(Debug)]
pub struct MsgPackHead {
    pub pack_len: u32,
}

/// Incremental parser of length-prefixed messages.
#[derive(Debug)]
pub struct MsgParser {
    pack_head: MsgPackHead,
    head_buff: [u8; 4],
    head_rec_cnt: u8,
    body_buff: Vec<u8>,
    body_rec_cnt: u32,
    handled_offset: usize,
}

/// The state of a `MsgParser` as mathematical values.
pub struct ParserView {
    /// The bytes received of the frame not yet complete.
    pub pending: Seq<u8>,
    /// Offset in the current read buffer up to which bytes are consumed.
    pub handled_offset: int,
}

/// `s` starts with a complete frame: a header and the whole body it
/// announces.
pub open spec fn frame_complete(s: Seq<u8>) -> bool {
    s.len() >= 4 && s.len() >= 4 + be_u32(s)
}

/// The length of the frame at the start of `s`, header included.
pub open spec fn frame_len(s: Seq<u8>) -> int {
    4 + be_u32(s)
}

/// The complete frames at the start of the stream `s`, as their bodies, and
/// the bytes after them (an unfinished frame).
pub open spec fn decode(s: Seq<u8>) -> (Seq<Seq<u8>>, Seq<u8>)
    decreases s.len(),
{
    if frame_complete(s) && frame_len(s) > 0 {
        let f = frame_len(s);
        let r = decode(s.skip(f));
        (seq![s.subrange(4, f)] + r.0, r.1)
    } else {
        (Seq::empty(), s)
    }
}

/// One call of `handle_a_buffset` on the unconsumed bytes `input` of a read,
/// with `pending` held from before: the body yielded, if a frame completes,
/// how many bytes of `input` are consumed, and what is held afterwards.
pub open spec fn step(pending: Seq<u8>, input: Seq<u8>) -> (Option<Seq<u8>>, int, Seq<u8>) {
    let s = pending + input;
    if frame_complete(s) {
        (Some(s.subrange(4, frame_len(s))), frame_len(s) - pending.len(), Seq::empty())
    } else {
        (None, input.len() as int, s)
    }
}

/// The bodies yielded by calling `handle_a_buffset` on the read `input`
/// until it yields nothing, with `pending` held from before, and what is held
/// afterwards.
pub open spec fn feed(pending: Seq<u8>, input: Seq<u8>) -> (Seq<Seq<u8>>, Seq<u8>)
    decreases input.len(),
{
    let st = step(pending, input);
    if input.len() > 0 && st.0 is Some && 0 < st.1 <= input.len() {
        let r = feed(st.2, input.skip(st.1));
        (seq![st.0->0] + r.0, r.1)
    } else if input.len() > 0 {
        (Seq::empty(), st.2)
    } else {
        (Seq::empty(), pending)
    }
}

/// The bodies yielded when the reads `reads` are fed one after another to a
/// parser holding `pending`, and what is held at the end.
pub open spec fn feed_reads(pending: Seq<u8>, reads: Seq<Seq<u8>>) -> (Seq<Seq<u8>>, Seq<u8>)
    decreases reads.len(),
{
    if reads.len() == 0 {
        (Seq::empty(), pending)
    } else {
        let r = feed_reads(pending, reads.drop_last());
        let f = feed(r.1, reads.last());
        (r.0 + f.0, f.1)
    }
}

/// The bytes of the reads `reads`, one after another.
pub open spec fn concat_reads(reads: Seq<Seq<u8>>) -> Seq<u8>
    decreases reads.len(),
{
    if reads.len() == 0 {
        Seq::empty()
    } else {
        concat_reads(reads.drop_last()) + reads.last()
    }
}

/// The bodies `bs`, each framed with its length header, one after another.
pub open spec fn encode_frames(bs: Seq<Seq<u8>>) -> Seq<u8>
    decreases bs.len(),
{
    if bs.len() == 0 {
        Seq::empty()
    } else {
        framed(bs[0]) + encode_frames(bs.drop_first())
    }
}

/// `dst` with the bytes of `src` written from index `at` on.
pub open spec fn overwrite(dst: Seq<u8>, at: int, src: Seq<u8>) -> Seq<u8> {
    dst.take(at) + src + dst.skip(at + src.len())
}

impl View for MsgParser {
    type V = ParserView;

    closed spec fn view(&self) -> ParserView {
        ParserView {
            pending: self.head_buff@.take(self.head_rec_cnt as int) + (if self.head_rec_cnt == 4 {
                self.body_buff@.take(self.body_rec_cnt as int)
            } else {
                Seq::empty()
            }),
            handled_offset: self.handled_offset as int,
        }
    }
}

/// The value of a header depends on its first four bytes only.
proof fn lemma_be_u32_prefix(a: Seq<u8>, b: Seq<u8>)
    requires
        a.len() >= 4,
        b.len() >= 4,
        a.take(4) == b.take(4),
    ensures
        be_u32(a) == be_u32(b),
{
    assert(a[0] == a.take(4)[0] && a[1] == a.take(4)[1] && a[2] == a.take(4)[2] && a[3] == a.take(4)[3]);
    assert(b[0] == b.take(4)[0] && b[1] == b.take(4)[1] && b[2] == b.take(4)[2] && b[3] == b.take(4)[3]);
}

impl MsgParser {
    /// What holds between calls: a header still being received has no body
    /// bytes; once the header is whole, its body length is decoded, the body
    /// buffer can hold it, and the body is not yet complete.
    pub closed spec fn wf(&self) -> bool {
        &&& self.head_rec_cnt <= 4
        &&& self.head_rec_cnt < 4 ==> self.body_rec_cnt == 0
        &&& self.head_rec_cnt == 4 ==> {
            &&& self.pack_head.pack_len == be_u32(self.head_buff@)
            &&& self.body_rec_cnt < self.pack_head.pack_len
            &&& self.pack_head.pack_len <= self.body_buff@.len()
        }
    }

    /// A well-formed parser never holds a complete frame.
    pub proof fn lemma_wf_pending_unfinished(&self)
        requires
            self.wf(),
        ensures
            !frame_complete(self@.pending),
    {
        let p = self@.pending;
        if self.head_rec_cnt == 4 {
            assert(p.take(4) =~= self.head_buff@);
            assert(self.head_buff@.take(4) =~= self.head_buff@);
            lemma_be_u32_prefix(p, self.head_buff@);
        }
    }

    /// The header buffer.
    pub closed spec fn head_bytes(&self) -> Seq<u8> {
        self.head_buff@
    }

    /// How many header bytes of the current frame are received.
    pub closed spec fn head_count(&self) -> int {
        self.head_rec_cnt as int
    }

    /// The body length of the last header decoded.
    pub closed spec fn frame_body_len(&self) -> int {
        self.pack_head.pack_len as int
    }

    /// The body buffer.
    pub closed spec fn body_bytes(&self) -> Seq<u8> {
        self.body_buff@
    }

    /// How many body bytes of the current frame are received.
    pub closed spec fn body_count(&self) -> int {
        self.body_rec_cnt as int
    }

    /// A parser that has received nothing: an empty body buffer, a zeroed
    /// header, no frame length and nothing counted.
    pub fn create() -> (p: Self)
        ensures
            p.wf(),
            p@.pending == Seq::<u8>::empty(),
            p@.handled_offset == 0,
            p.head_bytes() == seq![0u8, 0u8, 0u8, 0u8],
            p.head_count() == 0,
            p.frame_body_len() == 0,
            p.body_bytes() == Seq::<u8>::empty(),
            p.body_count() == 0,
    {
        let p = MsgParser {
            pack_head: MsgPackHead { pack_len: 0 },
            head_buff: [0u8, 0u8, 0u8, 0u8],
            head_rec_cnt: 0,
            body_buff: Vec::new(),
            body_rec_cnt: 0,
            handled_offset: 0,
        };
        assert(p@.pending =~= Seq::<u8>::empty());
        assert(p.head_buff@ =~= seq![0u8, 0u8, 0u8, 0u8]);
        p
    }

    /// Starts on a new read buffer: nothing of it is consumed yet, and the
    /// unfinished frame is kept whole.
    pub fn before_handle(&mut self)
        requires
            old(self).wf(),
        ensures
            final(self).wf(),
            final(self)@ == (ParserView { handled_offset: 0, ..old(self)@ }),
            final(self).head_bytes() == old(self).head_bytes(),
            final(self).head_count() == old(self).head_count(),
            final(self).frame_body_len() == old(self).frame_body_len(),
            final(self).body_bytes() == old(self).body_bytes(),
            final(self).body_count() == old(self).body_count(),
    {
        self.handled_offset = 0;
    }

    /// Consumes the unconsumed part of the first `byte_cnt` bytes of
    /// `buffset`, up to the end of the frame that it completes, if any, and
    /// yields that frame's body; see `step`. A read that does not complete
    /// the frame is consumed whole and kept.
    #[verifier::rlimit(40)]
    #[verifier::spinoff_prover]
    pub fn handle_a_buffset(&mut self, buffset: &[u8], byte_cnt: usize) -> (r: Option<&[u8]>)
        requires
            old(self).wf(),
            old(self)@.handled_offset < byte_cnt ==> byte_cnt <= buffset@.len(),
        ensures
            final(self).wf(),
            old(self)@.handled_offset >= byte_cnt ==> r is None && final(self)@ == old(self)@,
            old(self)@.handled_offset < byte_cnt ==> {
                let st = step(old(self)@.pending, buffset@.subrange(old(self)@.handled_offset, byte_cnt as int));
                &&& match r {
                    Some(body) => st.0 == Some(body@),
                    None => st.0 is None,
                }
                &&& final(self)@.pending == st.2
                &&& final(self)@.handled_offset == old(self)@.handled_offset + st.1
            },
    {
        if self.handled_offset >= byte_cnt {
            return None;
        }
        let ghost p0 = self@.pending;
        let ghost h0 = self.handled_offset as int;
        let ghost input = buffset@.subrange(h0, byte_cnt as int);
        let ghost s = p0 + input;
        let ghost hrc0 = self.head_rec_cnt as int;
        if self.head_rec_cnt < 4 {
            let left = byte_cnt - self.handled_offset;
            let need = HEAD_SIZE - self.head_rec_cnt as usize;
            if left < need {
                self.copy_to_head(buffset, left);
                self.head_rec_cnt = self.head_rec_cnt + left as u8;
                self.handled_offset = byte_cnt;
                assert(self@.pending =~= s);
                return None;
            }
            self.copy_to_head(buffset, need);
            self.handled_offset = self.handled_offset + need;
            self.head_rec_cnt = 4;
            self.pack_head.pack_len = read_u32_be(&self.head_buff);
            self.body_rec_cnt = 0;
            if self.pack_head.pack_len as usize > self.body_buff.len() {
                self.body_buff.resize(self.pack_head.pack_len as usize, 0);
            }
            assert(self.head_buff@ =~= s.take(4));
            assert(self.head_buff@.take(4) =~= self.head_buff@);
            assert(s.take(4).take(4) =~= s.take(4));
            proof { lemma_be_u32_prefix(self.head_buff@, s); }
        } else {
            assert(s.take(4) =~= self.head_buff@);
            assert(self.head_buff@.take(4) =~= self.head_buff@);
            proof { lemma_be_u32_prefix(self.head_buff@, s); }
        }
        // The header is whole: `s` starts with it, and `pending` holds the
        // header and `body_rec_cnt` body bytes; the rest of `s` is unread.
        assert(self.pack_head.pack_len == be_u32(s));
        assert(self.handled_offset as int - h0 == 4 + self.body_rec_cnt - p0.len());
        let left = byte_cnt - self.handled_offset;
        let want = (self.pack_head.pack_len - self.body_rec_cnt) as usize;
        let start = self.handled_offset;
        let ghost brc = self.body_rec_cnt as int;
        let ghost b0 = self.body_buff@;
        assert(s.subrange(4, 4 + brc) =~= b0.take(brc)) by {
            if hrc0 == 4 {
                assert(p0 =~= self.head_buff@ + b0.take(brc));
            }
        }
        assert(buffset@.subrange(start as int, byte_cnt as int) =~= s.skip(4 + brc));
        if left < want {
            self.write_data_2_body(buffset, start, left);
            self.body_rec_cnt = self.body_rec_cnt + left as u32;
            self.handled_offset = byte_cnt;
            assert(self.body_buff@.take(self.body_rec_cnt as int) =~= s.skip(4));
            assert(self@.pending =~= s);
            return None;
        }
        self.write_data_2_body(buffset, start, want);
        self.handled_offset = self.handled_offset + want;
        self.head_rec_cnt = 0;
        self.body_rec_cnt = 0;
        let plen = self.pack_head.pack_len as usize;
        assert(self.body_buff@.take(plen as int) =~= s.subrange(4, frame_len(s)));
        assert(self@.pending =~= Seq::<u8>::empty());
        Some(vstd::slice::slice_subrange(self.body_buff.as_slice(), 0, plen))
    }

    /// Feeds the first `byte_cnt` bytes of `buffset`, a new read, to the
    /// parser and returns the bodies of the frames it completes, in order;
    /// see `feed`.
    pub fn take_messages(&mut self, buffset: &[u8], byte_cnt: usize) -> (r: Vec<Vec<u8>>)
        requires
            old(self).wf(),
            byte_cnt <= buffset@.len(),
        ensures
            final(self).wf(),
            r@.map_values(|b: Vec<u8>| b@) == feed(old(self)@.pending, buffset@.take(byte_cnt as int)).0,
            final(self)@.pending == feed(old(self)@.pending, buffset@.take(byte_cnt as int)).1,
            final(self)@.handled_offset == byte_cnt,
    {
        let ghost p0 = self@.pending;
        let ghost all = feed(p0, buffset@.take(byte_cnt as int));
        self.before_handle();
        let mut r: Vec<Vec<u8>> = Vec::new();
        assert(buffset@.subrange(0, byte_cnt as int) =~= buffset@.take(byte_cnt as int));
        loop
            invariant
                self.wf(),
                byte_cnt <= buffset@.len(),
                self@.handled_offset <= byte_cnt,
                ({
                    let rest = feed(self@.pending, buffset@.subrange(self@.handled_offset, byte_cnt as int));
                    &&& r@.map_values(|b: Vec<u8>| b@) + rest.0 == all.0
                    &&& rest.1 == all.1
                }),
            ensures
                self.wf(),
                self@.handled_offset == byte_cnt,
                r@.map_values(|b: Vec<u8>| b@) == all.0,
                self@.pending == all.1,
            decreases byte_cnt - self@.handled_offset,
        {
            let ghost pend = self@.pending;
            let ghost h = self@.handled_offset;
            let ghost input = buffset@.subrange(h, byte_cnt as int);
            proof {
                self.lemma_wf_pending_unfinished();
                if h < byte_cnt {
                    lemma_step_progress(pend, input);
                }
            }
            match self.handle_a_buffset(buffset, byte_cnt) {
                None => {
                    assert(self@.handled_offset == byte_cnt);
                    assert(r@.map_values(|b: Vec<u8>| b@) =~= r@.map_values(|b: Vec<u8>| b@) + Seq::<Seq<u8>>::empty());
                    break;
                },
                Some(b) => {
                    let v = slice_to_vec(b);
                    let ghost c = step(pend, input).1;
                    assert(buffset@.subrange(self@.handled_offset, byte_cnt as int) =~= input.skip(c));
                    let ghost before = r@.map_values(|b: Vec<u8>| b@);
                    r.push(v);
                    assert(r@.map_values(|b: Vec<u8>| b@) =~= before.push(v@));
                    assert(before.push(v@) + feed(self@.pending, input.skip(c)).0 =~= before + (seq![v@] + feed(self@.pending, input.skip(c)).0));
                },
            }
        }
        r
    }

    /// Copies `cnt` bytes at the current offset of `buffset` into the header,
    /// after the header bytes already received.
    fn copy_to_head(&mut self, buffset: &[u8], cnt: usize)
        requires
            old(self).head_rec_cnt + cnt <= 4,
            old(self).handled_offset + cnt <= buffset@.len(),
        ensures
            final(self).head_buff@ == overwrite(
                old(self).head_buff@,
                old(self).head_rec_cnt as int,
                buffset@.subrange(old(self).handled_offset as int, old(self).handled_offset + cnt),
            ),
            final(self).head_rec_cnt == old(self).head_rec_cnt,
            final(self).handled_offset == old(self).handled_offset,
            final(self).body_buff@ == old(self).body_buff@,
            final(self).body_rec_cnt == old(self).body_rec_cnt,
            final(self).pack_head.pack_len == old(self).pack_head.pack_len,
    {
        let ghost h0 = self.head_buff@;
        let base = self.head_rec_cnt as usize;
        let off = self.handled_offset;
        let blen = buffset.len();
        let mut i: usize = 0;
        while i < cnt
            invariant
                blen == buffset@.len(),
                base == old(self).head_rec_cnt,
                off == old(self).handled_offset,
                base + cnt <= 4,
                off + cnt <= buffset@.len(),
                i <= cnt,
                h0 == old(self).head_buff@,
                self.head_buff@ == overwrite(h0, base as int, buffset@.subrange(off as int, off + i)),
                self.head_rec_cnt == old(self).head_rec_cnt,
                self.handled_offset == old(self).handled_offset,
                self.body_buff@ == old(self).body_buff@,
                self.body_rec_cnt == old(self).body_rec_cnt,
                self.pack_head.pack_len == old(self).pack_head.pack_len,
            decreases cnt - i,
        {
            self.head_buff[base + i] = buffset[off + i];
            i = i + 1;
            assert(self.head_buff@ =~= overwrite(h0, base as int, buffset@.subrange(off as int, off + i)));
        }
    }

    /// Copies `cnt` bytes of `buffset` from `start` on into the body buffer,
    /// after the body bytes already received.
    fn write_data_2_body(&mut self, buffset: &[u8], start: usize, cnt: usize)
        requires
            old(self).body_rec_cnt + cnt <= old(self).body_buff@.len(),
            start + cnt <= buffset@.len(),
        ensures
            final(self).body_buff@ == overwrite(
                old(self).body_buff@,
                old(self).body_rec_cnt as int,
                buffset@.subrange(start as int, start + cnt),
            ),
            final(self).head_buff@ == old(self).head_buff@,
            final(self).head_rec_cnt == old(self).head_rec_cnt,
            final(self).handled_offset == old(self).handled_offset,
            final(self).body_rec_cnt == old(self).body_rec_cnt,
            final(self).pack_head.pack_len == old(self).pack_head.pack_len,
    {
        let ghost b0 = self.body_buff@;
        let base = self.body_rec_cnt as usize;
        let vlen = self.body_buff.len();
        let blen = buffset.len();
        let mut i: usize = 0;
        while i < cnt
            invariant
                blen == buffset@.len(),
                base == old(self).body_rec_cnt,
                vlen == b0.len(),
                base + cnt <= vlen,
                start + cnt <= buffset@.len(),
                i <= cnt,
                b0 == old(self).body_buff@,
                self.body_buff@ == overwrite(b0, base as int, buffset@.subrange(start as int, start + i)),
                self.head_buff@ == old(self).head_buff@,
                self.head_rec_cnt == old(self).head_rec_cnt,
                self.handled_offset == old(self).handled_offset,
                self.body_rec_cnt == old(self).body_rec_cnt,
                self.pack_head.pack_len == old(self).pack_head.pack_len,
            decreases cnt - i,
        {
            self.body_buff.set(base + i, buffset[start + i]);
            i = i + 1;
            assert(self.body_buff@ =~= overwrite(b0, base as int, buffset@.subrange(start as int, start + i)));
        }
    }
}

/// With an unfinished frame held, a step on a nonempty read consumes at
/// least one byte and no more than the read, and what it yields and holds
/// agrees with decoding the held bytes followed by the read.
pub proof fn lemma_step_progress(p: Seq<u8>, input: Seq<u8>)
    requires
        !frame_complete(p),
        input.len() > 0,
    ensures
        0 < step(p, input).1 <= input.len(),
        ({
            let st = step(p, input);
            let rest = decode(st.2 + input.skip(st.1));
            decode(p + input) == (match st.0 {
                Some(b) => (seq![b] + rest.0, rest.1),
                None => (Seq::<Seq<u8>>::empty(), rest.1),
            })
        }),
{
    let s = p + input;
    if frame_complete(s) {
        let f = frame_len(s);
        if p.len() >= 4 {
            assert(p.take(4) =~= s.take(4));
            lemma_be_u32_prefix(p, s);
        }
        assert(Seq::<u8>::empty() + input.skip(f - p.len()) =~= s.skip(f));
    } else {
        assert(s + input.skip(input.len() as int) =~= s);
    }
}

/// What decoding leaves over is never a complete frame.
pub proof fn lemma_decode_rest_unfinished(s: Seq<u8>)
    ensures
        !frame_complete(decode(s).1),
    decreases s.len(),
{
    if frame_complete(s) && frame_len(s) > 0 {
        lemma_decode_rest_unfinished(s.skip(frame_len(s)));
    }
}

/// Feeding a read to a parser that holds an unfinished frame yields what
/// decoding the held bytes followed by the read yields.
pub proof fn lemma_feed_decode(p: Seq<u8>, input: Seq<u8>)
    requires
        !frame_complete(p),
    ensures
        feed(p, input) == decode(p + input),
    decreases input.len(),
{
    if input.len() == 0 {
        assert(p + input =~= p);
    } else {
        lemma_step_progress(p, input);
        let st = step(p, input);
        if st.0 is Some {
            assert(!frame_complete(Seq::<u8>::empty()));
            lemma_feed_decode(st.2, input.skip(st.1));
        } else {
            assert(input.skip(st.1) =~= Seq::<u8>::empty());
            assert(st.2 + input.skip(st.1) =~= st.2);
        }
    }
}

/// Decoding a stream in two pieces: the frames of the first piece, then the
/// frames of what it leaves over followed by the second piece.
pub proof fn lemma_decode_append(s1: Seq<u8>, s2: Seq<u8>)
    ensures
        decode(s1 + s2) == (
            decode(s1).0 + decode(decode(s1).1 + s2).0,
            decode(decode(s1).1 + s2).1,
        ),
    decreases s1.len(),
{
    let s = s1 + s2;
    if frame_complete(s1) && frame_len(s1) > 0 {
        let f = frame_len(s1);
        assert(s1.take(4) =~= s.take(4));
        lemma_be_u32_prefix(s1, s);
        assert(s.subrange(4, f) =~= s1.subrange(4, f));
        assert(s.skip(f) =~= s1.skip(f) + s2);
        lemma_decode_append(s1.skip(f), s2);
        let r = decode(s1.skip(f));
        let t = decode(r.1 + s2);
        assert(seq![s1.subrange(4, f)] + (r.0 + t.0) =~= (seq![s1.subrange(4, f)] + r.0) + t.0);
    } else {
        assert(Seq::<Seq<u8>>::empty() + decode(s1 + s2).0 =~= decode(s1 + s2).0);
    }
}

/// Messages are reassembled whatever the read boundaries: feeding the reads
/// `reads` one after another to a new parser yields exactly the bodies of
/// the complete frames of the bytes they carry, in order, and holds the rest.
pub proof fn lemma_reads_reassemble(reads: Seq<Seq<u8>>)
    ensures
        feed_reads(Seq::empty(), reads) == decode(concat_reads(reads)),
    decreases reads.len(),
{
    if reads.len() == 0 {
        assert(!frame_complete(Seq::<u8>::empty()));
    } else {
        let init = reads.drop_last();
        lemma_reads_reassemble(init);
        let c0 = concat_reads(init);
        lemma_decode_rest_unfinished(c0);
        lemma_feed_decode(decode(c0).1, reads.last());
        lemma_decode_append(c0, reads.last());
    }
}

/// Frames written back to back decode to exactly their bodies, with nothing
/// left over.
pub proof fn lemma_decode_frames(bs: Seq<Seq<u8>>)
    requires
        forall|i: int| 0 <= i < bs.len() ==> #[trigger] bs[i].len() <= u32::MAX,
    ensures
        decode(encode_frames(bs)) == (bs, Seq::<u8>::empty()),
    decreases bs.len(),
{
    if bs.len() == 0 {
        assert(!frame_complete(Seq::<u8>::empty()));
    } else {
        let b0 = bs[0];
        let rest = bs.drop_first();
        let f0 = framed(b0);
        let s = encode_frames(bs);
        assert(s == f0 + encode_frames(rest));
        let hb = crate::codec::be_bytes(b0.len() as u32);
        lemma_be_roundtrip(b0.len() as u32);
        assert(hb.take(4) =~= hb);
        assert(f0.take(4) =~= hb);
        assert(s.take(4) =~= f0.take(4));
        lemma_be_u32_prefix(s, hb);
        assert(s.subrange(4, 4 + b0.len() as int) =~= b0);
        assert(s.skip(4 + b0.len() as int) =~= encode_frames(rest));
        assert forall|i: int| 0 <= i < rest.len() implies #[trigger] rest[i].len() <= u32::MAX by {
            assert(rest[i] == bs[i + 1]);
        }
        lemma_decode_frames(rest);
        assert(seq![b0] + rest =~= bs);
    }
}

} // verus!
