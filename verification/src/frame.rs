//! The `Content-Length` wire framing: every message is
//! `Content-Length: <decimal byte length>\r\n\r\n<body>`, and an incoming
//! stream is cut into frames by scanning for the blank-line delimiter,
//! reading the length from the `Content-Length` header line, and taking
//! exactly that many body bytes.

use crate::json::{
    dec_u64, parse_dec, push_all, spec_dec_u64, spec_parse_dec, lemma_dec_u64_digits,
    lemma_dec_u64_round_trip,
};
use vstd::prelude::*;

verus! {

/// `\r\n\r\n`
pub open spec fn spec_delim() -> Seq<u8> {
    seq![13u8, 10u8, 13u8, 10u8]
}

/// `Content-Length: `
pub open spec fn spec_cl_prefix() -> Seq<u8> {
    seq![
        67u8, 111u8, 110u8, 116u8, 101u8, 110u8, 116u8, 45u8, 76u8, 101u8, 110u8, 103u8, 116u8,
        104u8, 58u8, 32u8,
    ]
}

pub open spec fn spec_is_delim_at(s: Seq<u8>, i: int) -> bool {
    &&& 0 <= i
    &&& i + 4 <= s.len()
    &&& s[i] == 13
    &&& s[i + 1] == 10
    &&& s[i + 2] == 13
    &&& s[i + 3] == 10
}

/// The first position at or after `i` where the header delimiter starts.
pub open spec fn spec_find_delim_from(s: Seq<u8>, i: int) -> Option<int>
    decreases s.len() - i,
{
    if i < 0 || i + 4 > s.len() {
        None
    } else if spec_is_delim_at(s, i) {
        Some(i)
    } else {
        spec_find_delim_from(s, i + 1)
    }
}

pub open spec fn spec_find_delim(s: Seq<u8>) -> Option<int> {
    spec_find_delim_from(s, 0)
}

/// The first line feed at or after `p`, or the end of the sequence.
pub open spec fn spec_find_lf_from(s: Seq<u8>, p: int) -> int
    decreases s.len() - p,
{
    if p < 0 || p >= s.len() {
        s.len() as int
    } else if s[p] == 10 {
        p
    } else {
        spec_find_lf_from(s, p + 1)
    }
}

/// Does the line `[p, q)` start with `Content-Length: `?
pub open spec fn spec_line_has_prefix(s: Seq<u8>, p: int, q: int) -> bool {
    q - p >= 16 && s.subrange(p, p + 16) == spec_cl_prefix()
}

/// The range of the value part of the first `Content-Length` line at or
/// after `p`, scanning the header block line by line.
pub open spec fn spec_cl_value_range(s: Seq<u8>, p: int) -> Option<(int, int)>
    decreases s.len() - p,
    via spec_cl_value_range_dec
{
    if p < 0 || p >= s.len() {
        None
    } else {
        let q = spec_find_lf_from(s, p);
        if spec_line_has_prefix(s, p, q) {
            Some((p + 16, q))
        } else if q >= s.len() {
            None
        } else {
            spec_cl_value_range(s, q + 1)
        }
    }
}

#[via_fn]
proof fn spec_cl_value_range_dec(s: Seq<u8>, p: int) {
    if 0 <= p < s.len() {
        lemma_find_lf_ge(s, p);
    }
}

/// The first line feed at or after `p` lies between `p` and the end.
proof fn lemma_find_lf_ge(s: Seq<u8>, p: int)
    requires
        0 <= p <= s.len(),
    ensures
        p <= spec_find_lf_from(s, p) <= s.len(),
    decreases s.len() - p,
{
    if p < s.len() && s[p] != 10 {
        lemma_find_lf_ge(s, p + 1);
    }
}

pub open spec fn spec_is_ws(b: u8) -> bool {
    b == 32 || b == 9 || b == 13 || b == 10
}

/// The sequence without its trailing whitespace.
pub open spec fn spec_trim_end(s: Seq<u8>) -> Seq<u8>
    decreases s.len(),
{
    if s.len() > 0 && spec_is_ws(s.last()) {
        spec_trim_end(s.drop_last())
    } else {
        s
    }
}

/// The announced body length of the header block `h`: the decimal value on
/// its `Content-Length` line, with trailing whitespace ignored.
pub open spec fn spec_content_length(h: Seq<u8>) -> Option<int> {
    match spec_cl_value_range(h, 0) {
        None => None,
        Some((a, b)) => spec_parse_dec(spec_trim_end(h.subrange(a, b))),
    }
}

/// What decoding an accumulated byte stream yields.
pub enum SpecFrameStep {
    /// No complete frame yet; more bytes must arrive.
    NeedMore,
    /// One complete frame: its body, and how many bytes of the stream it
    /// used; the next frame starts at `consumed`.
    Frame { body: Seq<u8>, consumed: int },
    /// The header block is malformed: no `Content-Length` line, or its value
    /// is not a decimal number in range.
    BadHeader,
}

/// Decoding, as a function of the whole accumulated stream.
pub open spec fn spec_read_frame(s: Seq<u8>) -> SpecFrameStep {
    match spec_find_delim(s) {
        None => SpecFrameStep::NeedMore,
        Some(i) => {
            let h = s.take(i + 4);
            match spec_content_length(h) {
                None => SpecFrameStep::BadHeader,
                Some(n) => if n > usize::MAX {
                    SpecFrameStep::BadHeader
                } else if s.len() < i + 4 + n {
                    SpecFrameStep::NeedMore
                } else {
                    SpecFrameStep::Frame { body: s.subrange(i + 4, i + 4 + n), consumed: i + 4 + n }
                },
            }
        },
    }
}

/// The framed form of a body: header, delimiter, body.
pub open spec fn spec_encode_frame(body: Seq<u8>) -> Seq<u8> {
    spec_cl_prefix() + spec_dec_u64(body.len()) + spec_delim() + body
}

/// The decoder's verdict on an accumulated input buffer.
#[derive(Debug, PartialEq, Eq)]
pub enum FrameStep {
    NeedMore,
    Frame { body: Vec<u8>, consumed: usize },
    BadHeader,
}

pub open spec fn spec_frame_step_view(r: FrameStep) -> SpecFrameStep {
    match r {
        FrameStep::NeedMore => SpecFrameStep::NeedMore,
        FrameStep::Frame { body, consumed } => SpecFrameStep::Frame {
            body: body@,
            consumed: consumed as int,
        },
        FrameStep::BadHeader => SpecFrameStep::BadHeader,
    }
}

/// Frames a message body for the wire.
pub fn encode_frame(body: &Vec<u8>) -> (r: Vec<u8>)
    ensures
        r@ == spec_encode_frame(body@),
{
    let mut out: Vec<u8> = Vec::new();
    out.push(67);
    out.push(111);
    out.push(110);
    out.push(116);
    out.push(101);
    out.push(110);
    out.push(116);
    out.push(45);
    out.push(76);
    out.push(101);
    out.push(110);
    out.push(103);
    out.push(116);
    out.push(104);
    out.push(58);
    out.push(32);
    proof {
        assert(out@ =~= spec_cl_prefix());
    }
    let digits = dec_u64(body.len() as u64);
    push_all(&mut out, &digits);
    out.push(13);
    out.push(10);
    out.push(13);
    out.push(10);
    push_all(&mut out, body);
    proof {
        assert(out@ =~= spec_encode_frame(body@));
    }
    out
}

fn cl_prefix_bytes() -> (v: Vec<u8>)
    ensures
        v@ == spec_cl_prefix(),
{
    let mut v: Vec<u8> = Vec::new();
    v.push(67);
    v.push(111);
    v.push(110);
    v.push(116);
    v.push(101);
    v.push(110);
    v.push(116);
    v.push(45);
    v.push(76);
    v.push(101);
    v.push(110);
    v.push(103);
    v.push(116);
    v.push(104);
    v.push(58);
    v.push(32);
    proof {
        assert(v@ =~= spec_cl_prefix());
    }
    v
}

/// Finds the first header delimiter in `buf`.
fn find_delim(buf: &Vec<u8>) -> (r: Option<usize>)
    ensures
        match r {
            Some(i) => spec_find_delim(buf@) == Some(i as int) && i + 4 <= buf.len(),
            None => spec_find_delim(buf@) is None,
        },
{
    if buf.len() < 4 {
        return None;
    }
    let mut i: usize = 0;
    while i <= buf.len() - 4
        invariant
            4 <= buf.len(),
            spec_find_delim(buf@) == spec_find_delim_from(buf@, i as int),
            i <= buf.len(),
        decreases buf.len() - i,
    {
        if buf[i] == 13 && buf[i + 1] == 10 && buf[i + 2] == 13 && buf[i + 3] == 10 {
            return Some(i);
        }
        proof {
            assert(spec_find_delim_from(buf@, i as int) == spec_find_delim_from(
                buf@,
                i as int + 1,
            ));
        }
        i = i + 1;
    }
    None
}

/// Finds the first line feed in `buf[from..end]`, or `end`.
fn find_lf(buf: &Vec<u8>, from: usize, end: usize) -> (q: usize)
    requires
        from <= end <= buf.len(),
    ensures
        from <= q <= end,
        q as int == spec_find_lf_from(buf@.take(end as int), from as int),
        q < end ==> buf@[q as int] == 10,
        q == end ==> spec_find_lf_from(buf@.take(end as int), from as int) == end as int,
{
    let ghost h = buf@.take(end as int);
    let mut q: usize = from;
    while q < end
        invariant
            from <= q <= end <= buf.len(),
            h == buf@.take(end as int),
            spec_find_lf_from(h, from as int) == spec_find_lf_from(h, q as int),
        decreases end - q,
    {
        if buf[q] == 10 {
            proof {
                assert(h[q as int] == buf@[q as int]);
            }
            return q;
        }
        proof {
            assert(h[q as int] == buf@[q as int]);
            assert(spec_find_lf_from(h, q as int) == spec_find_lf_from(h, q as int + 1));
        }
        q = q + 1;
    }
    q
}

/// Does the line `[p, q)` of `buf` start with `Content-Length: `?
fn line_has_prefix(buf: &Vec<u8>, p: usize, q: usize) -> (r: bool)
    requires
        p <= q <= buf.len(),
    ensures
        r <==> (q - p >= 16 && buf@.subrange(p as int, p as int + 16) == spec_cl_prefix()),
{
    if q - p < 16 {
        return false;
    }
    let prefix = cl_prefix_bytes();
    let mut k: usize = 0;
    while k < 16
        invariant
            0 <= k <= 16,
            p + 16 <= q <= buf.len(),
            prefix@ == spec_cl_prefix(),
            forall|j: int| 0 <= j < k ==> buf@[p + j] == spec_cl_prefix()[j],
        decreases 16 - k,
    {
        if buf[p + k] != prefix[k] {
            proof {
                assert(buf@.subrange(p as int, p as int + 16)[k as int] != spec_cl_prefix()[
                    k as int
                ]);
            }
            return false;
        }
        k = k + 1;
    }
    proof {
        assert(buf@.subrange(p as int, p as int + 16) =~= spec_cl_prefix());
    }
    true
}

/// Trims trailing whitespace from `buf[a..q]`, returning the new end.
fn trim_end_ws(buf: &Vec<u8>, a: usize, q: usize) -> (r: usize)
    requires
        a <= q <= buf.len(),
    ensures
        a <= r <= q,
        spec_trim_end(buf@.subrange(a as int, q as int)) == buf@.subrange(a as int, r as int),
{
    let ghost sub = buf@.subrange(a as int, q as int);
    proof {
        assert(sub.take(q - a) =~= sub);
    }
    let mut r: usize = q;
    while r > a
        invariant
            a <= r <= q <= buf.len(),
            sub == buf@.subrange(a as int, q as int),
            spec_trim_end(sub) == spec_trim_end(sub.take(r - a)),
        decreases r,
    {
        let b = buf[r - 1];
        if b == 32 || b == 9 || b == 13 || b == 10 {
            proof {
                assert(sub.take(r - a).last() == buf@[r - 1]);
                assert(sub.take(r - a).drop_last() =~= sub.take(r - 1 - a));
            }
            r = r - 1;
        } else {
            proof {
                assert(sub.take(r - a).last() == buf@[r - 1]);
                assert(spec_trim_end(sub.take(r - a)) == sub.take(r - a));
                assert(sub.take(r - a) =~= buf@.subrange(a as int, r as int));
            }
            return r;
        }
    }
    proof {
        assert(sub.take(0) =~= buf@.subrange(a as int, a as int));
        assert(spec_trim_end(sub.take(0)) == sub.take(0));
    }
    r
}

fn copy_range(buf: &Vec<u8>, a: usize, b: usize) -> (r: Vec<u8>)
    requires
        a <= b <= buf.len(),
    ensures
        r@ == buf@.subrange(a as int, b as int),
{
    let mut r: Vec<u8> = Vec::new();
    let mut k: usize = a;
    while k < b
        invariant
            a <= k <= b <= buf.len(),
            r@ == buf@.subrange(a as int, k as int),
        decreases b - k,
    {
        r.push(buf[k]);
        k = k + 1;
        proof {
            assert(buf@.subrange(a as int, k as int) =~= buf@.subrange(a as int, k - 1).push(
                buf@[k - 1],
            ));
        }
    }
    r
}

/// Decodes the next frame from an accumulated input buffer.
///
/// `NeedMore` asks the caller to append further stream bytes and retry; a
/// stream that ends while the decoder still asks for more is a framing
/// error. After `Frame { consumed, .. }`, the caller drops the first
/// `consumed` bytes and decodes again for the following frame.
pub fn read_frame(buf: &Vec<u8>) -> (r: FrameStep)
    ensures
        spec_frame_step_view(r) == spec_read_frame(buf@),
{
    let delim_pos = match find_delim(buf) {
        None => {
            return FrameStep::NeedMore;
        },
        Some(i) => i,
    };
    let hdr_end = delim_pos + 4;
    let ghost h = buf@.take(hdr_end as int);
    let mut p: usize = 0;
    while p < hdr_end
        invariant
            0 <= p <= hdr_end <= buf.len(),
            h == buf@.take(hdr_end as int),
            hdr_end == delim_pos + 4,
            spec_find_delim(buf@) == Some(delim_pos as int),
            spec_cl_value_range(h, 0) == spec_cl_value_range(h, p as int),
        decreases hdr_end - p,
    {
        let q = find_lf(buf, p, hdr_end);
        let has_prefix = line_has_prefix(buf, p, q);
        proof {
            if q - p >= 16 {
                assert(buf@.subrange(p as int, p as int + 16) =~= h.subrange(
                    p as int,
                    p as int + 16,
                )) by {
                    assert(forall|j: int|
                        0 <= j < 16 ==> buf@.subrange(p as int, p as int + 16)[j] == #[trigger] h
                            .subrange(p as int, p as int + 16)[j]);
                }
            }
            assert(has_prefix <==> spec_line_has_prefix(h, p as int, q as int));
        }
        if has_prefix {
            let a = p + 16;
            let r_end = trim_end_ws(buf, a, q);
            proof {
                assert(spec_cl_value_range(h, p as int) == Some((a as int, q as int)));
                assert(h.subrange(a as int, q as int) =~= buf@.subrange(a as int, q as int));
                assert(h.subrange(a as int, q as int).len() == q - a);
            }
            let value = parse_dec(buf, a, r_end);
            proof {
                assert(buf@.subrange(a as int, r_end as int) == spec_trim_end(
                    h.subrange(a as int, q as int),
                ));
            }
            match value {
                None => {
                    return FrameStep::BadHeader;
                },
                Some(n) => {
                    if n > buf.len() - hdr_end {
                        return FrameStep::NeedMore;
                    }
                    let body = copy_range(buf, hdr_end, hdr_end + n);
                    return FrameStep::Frame { body, consumed: hdr_end + n };
                },
            }
        }
        if q >= hdr_end {
            proof {
                assert(spec_cl_value_range(h, p as int) is None);
            }
            return FrameStep::BadHeader;
        }
        proof {
            assert(spec_cl_value_range(h, p as int) == spec_cl_value_range(h, q as int + 1));
        }
        p = q + 1;
    }
    proof {
        assert(spec_cl_value_range(h, p as int) is None);
    }
    FrameStep::BadHeader
}


/// `spec_find_delim_from` returns the first delimiter position.
pub proof fn lemma_find_delim_first(s: Seq<u8>, i: int, j: int)
    requires
        0 <= i <= j,
        spec_is_delim_at(s, j),
        forall|k: int| i <= k < j ==> !spec_is_delim_at(s, k),
    ensures
        spec_find_delim_from(s, i) == Some(j),
    decreases j - i,
{
    if i < j {
        lemma_find_delim_first(s, i + 1, j);
    }
}

/// What a found delimiter position means: a delimiter there, none earlier.
pub proof fn lemma_find_delim_found(s: Seq<u8>, i: int, j: int)
    requires
        spec_find_delim_from(s, i) == Some(j),
        0 <= i,
    ensures
        i <= j,
        spec_is_delim_at(s, j),
        forall|k: int| i <= k < j ==> !spec_is_delim_at(s, k),
    decreases s.len() - i,
{
    if i + 4 <= s.len() && !spec_is_delim_at(s, i) {
        lemma_find_delim_found(s, i + 1, j);
    }
}

/// `spec_find_lf_from` returns the first line feed position.
pub proof fn lemma_find_lf_first(s: Seq<u8>, i: int, q: int)
    requires
        0 <= i <= q <= s.len(),
        forall|k: int| i <= k < q ==> s[k] != 10,
        q < s.len() ==> s[q] == 10,
    ensures
        spec_find_lf_from(s, i) == q,
    decreases q - i,
{
    if i < q {
        lemma_find_lf_first(s, i + 1, q);
    }
}

/// A well-formed header block announcing a body of `n` bytes: it ends with
/// the first delimiter it contains, and its `Content-Length` line reads `n`.
pub open spec fn spec_is_valid_header(h: Seq<u8>, n: int) -> bool {
    &&& h.len() >= 4
    &&& spec_find_delim(h) == Some(h.len() - 4)
    &&& spec_content_length(h) == Some(n)
}

/// The header that `spec_encode_frame` emits is a valid header for the
/// body length it announces.
pub proof fn lemma_encode_header_valid(n: nat)
    requires
        n <= usize::MAX,
    ensures
        spec_is_valid_header(spec_cl_prefix() + spec_dec_u64(n) + spec_delim(), n as int),
{
    let d = spec_dec_u64(n);
    let h = spec_cl_prefix() + d + spec_delim();
    let dl = d.len() as int;
    lemma_dec_u64_digits(n);
    assert(h.len() == 20 + dl);
    assert forall|k: int| 0 <= k < 16 implies h[k] == spec_cl_prefix()[k] && h[k] != 13 && h[k]
        != 10 by {
        assert(spec_cl_prefix()[k] != 13 && spec_cl_prefix()[k] != 10);
    }
    assert forall|k: int| 16 <= k < 16 + dl implies 48 <= #[trigger] h[k] <= 57 by {
        assert(h[k] == d[k - 16]);
    }
    assert(h[16 + dl] == 13 && h[16 + dl + 1] == 10 && h[16 + dl + 2] == 13 && h[16 + dl + 3]
        == 10);
    // The delimiter stands exactly at the end.
    assert(spec_is_delim_at(h, 16 + dl));
    assert forall|k: int| 0 <= k < 16 + dl implies !spec_is_delim_at(h, k) by {
        assert(h[k] != 13);
    }
    lemma_find_delim_first(h, 0, 16 + dl);
    // The first line holds the length.
    assert forall|k: int| 0 <= k < 16 + dl + 1 implies #[trigger] h[k] != 10 by {}
    lemma_find_lf_first(h, 0, 16 + dl + 1);
    let q = 16 + dl + 1;
    assert(h.subrange(0, 16) =~= spec_cl_prefix());
    assert(spec_line_has_prefix(h, 0, q));
    assert(spec_cl_value_range(h, 0) == Some((16int, q)));
    let v = h.subrange(16, q);
    assert(v =~= d + seq![13u8]);
    assert(v.drop_last() =~= d);
    assert(spec_trim_end(v) == spec_trim_end(d));
    assert(!spec_is_ws(d.last()));
    assert(spec_trim_end(d) == d);
    lemma_dec_u64_round_trip(n);
    assert(spec_content_length(h) == Some(n as int));
}

/// Reading a frame from a valid header followed by exactly the announced
/// number of body bytes yields exactly that body and consumes exactly the
/// header and the body, leaving the stream positioned at the next frame.
pub proof fn lemma_read_frame_exact(h: Seq<u8>, body: Seq<u8>, rest: Seq<u8>)
    requires
        spec_is_valid_header(h, body.len() as int),
        body.len() <= usize::MAX,
    ensures
        spec_read_frame(h + body + rest) == (SpecFrameStep::Frame {
            body,
            consumed: h.len() + body.len() as int,
        }),
{
    let s = h + body + rest;
    let j = h.len() - 4;
    lemma_find_delim_found(h, 0, j);
    assert(spec_is_delim_at(s, j)) by {
        assert(s[j] == h[j] && s[j + 1] == h[j + 1] && s[j + 2] == h[j + 2] && s[j + 3] == h[j
            + 3]);
    }
    assert forall|k: int| 0 <= k < j implies !spec_is_delim_at(s, k) by {
        assert(!spec_is_delim_at(h, k));
        assert(s[k] == h[k] && s[k + 1] == h[k + 1] && s[k + 2] == h[k + 2] && s[k + 3] == h[k
            + 3]);
    }
    lemma_find_delim_first(s, 0, j);
    assert(s.take(j + 4) =~= h);
    assert(s.subrange(h.len() as int, h.len() + body.len() as int) =~= body);
}

/// Round trip: framing a body and decoding the result (with any trailing
/// bytes after it) returns that very body, bit for bit, and consumes
/// exactly the frame.
pub proof fn lemma_frame_round_trip(body: Seq<u8>, rest: Seq<u8>)
    requires
        body.len() <= usize::MAX,
    ensures
        spec_read_frame(spec_encode_frame(body) + rest) == (SpecFrameStep::Frame {
            body,
            consumed: spec_encode_frame(body).len() as int,
        }),
{
    let h = spec_cl_prefix() + spec_dec_u64(body.len()) + spec_delim();
    lemma_encode_header_valid(body.len());
    lemma_read_frame_exact(h, body, rest);
    assert(spec_encode_frame(body) + rest =~= h + body + rest);
    assert(spec_encode_frame(body).len() == h.len() + body.len());
}


/// An accumulating input buffer that hands out complete frames.
///
/// The reader appends raw stream bytes as they arrive and asks for the
/// next frame; when one is complete, its bytes are consumed from the
/// buffer, which is then positioned at the start of the next frame.
#[derive(Debug)]
pub struct FrameBuffer {
    pub data: Vec<u8>,
}

impl FrameBuffer {
    /// An empty buffer.
    pub fn new() -> (r: FrameBuffer)
        ensures
            r.data@.len() == 0,
    {
        FrameBuffer { data: Vec::new() }
    }

    /// Appends freshly read stream bytes.
    pub fn append(&mut self, chunk: &Vec<u8>)
        ensures
            final(self).data@ == old(self).data@ + chunk@,
    {
        push_all(&mut self.data, chunk);
    }

    /// Decodes the next frame from the accumulated bytes. When a complete
    /// frame is there, exactly its bytes are consumed and the buffer is
    /// left positioned at the following frame; otherwise the buffer is
    /// unchanged.
    pub fn next_frame(&mut self) -> (r: FrameStep)
        ensures
            spec_frame_step_view(r) == spec_read_frame(old(self).data@),
            r matches FrameStep::Frame { consumed, .. } ==> final(self).data@ == old(
                self,
            ).data@.skip(consumed as int),
            !(r matches FrameStep::Frame { .. }) ==> final(self).data@ == old(self).data@,
    {
        let step = read_frame(&self.data);
        if let FrameStep::Frame { consumed, .. } = &step {
            let rest = copy_range(&self.data, *consumed, self.data.len());
            proof {
                assert(rest@ =~= self.data@.skip(*consumed as int));
            }
            self.data = rest;
        }
        step
    }
}

} // verus!
