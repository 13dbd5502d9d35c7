//! gRPC-Web framing over HTTP/1.1.
//!
//! Frame format:
//! - Data frame:    `[0x00][4-byte BE length][proto bytes]`
//! - Trailer frame: `[0x80][4-byte BE length][header text]`
//!
//! The HTTP exchange itself stays with the caller; this module builds the
//! request body and takes the response body apart.
use vstd::prelude::*;
use vstd::utf8::{decode_utf8, encode_utf8, valid_utf8};

use crate::text::{
    chars_of, decimal, decimal_string, concat_str, is_white_space, lemma_parse_i32_signed_decimal,
    lemma_signed_decimal_shape, lemma_trim_before_cr, parse_i32, signed_decimal, signed_decimal_string, parse_i32_range, string_of_range,
    trim, trim_bounds,
};

verus! {

/// The four bytes of `n mod 2^32`, most significant first.
pub open spec fn be32(n: nat) -> Seq<u8> {
    seq![
        ((n / 0x100_0000) % 256) as u8,
        ((n / 0x1_0000) % 256) as u8,
        ((n / 0x100) % 256) as u8,
        (n % 256) as u8,
    ]
}

/// The number four big-endian bytes at `b[i..i + 4]` stand for.
pub open spec fn be32_at(b: Seq<u8>, i: int) -> nat {
    (b[i] as nat) * 0x100_0000 + (b[i + 1] as nat) * 0x1_0000 + (b[i + 2] as nat) * 0x100 + (
    b[i + 3] as nat)
}

/// A frame: its flag byte, its length (as the 32-bit length field holds it)
/// and its payload.
pub open spec fn frame(flag: u8, payload: Seq<u8>) -> Seq<u8> {
    seq![flag] + be32(payload.len()) + payload
}

/// A gRPC-Web data frame carrying `payload`.
pub open spec fn data_frame(payload: Seq<u8>) -> Seq<u8> {
    frame(0u8, payload)
}

/// The big-endian bytes of `n`.
fn be32_bytes(n: u32) -> (b: [u8; 4])
    ensures
        b@ == be32(n as nat),
{
    let b0 = ((n / 0x100_0000) % 256) as u8;
    let b1 = ((n / 0x1_0000) % 256) as u8;
    let b2 = ((n / 0x100) % 256) as u8;
    let b3 = (n % 256) as u8;
    let r = [b0, b1, b2, b3];
    assert(r@ =~= be32(n as nat));
    r
}

/// The length field of a frame: the payload length modulo 2^32.
fn length_field(len: usize) -> (n: u32)
    ensures
        n as nat == (len as nat) % 0x1_0000_0000,
{
    ((len as u64) % 0x1_0000_0000) as u32
}

/// Appends a frame with `flag` and `payload` to `buf`.
pub fn push_frame(buf: &mut Vec<u8>, flag: u8, payload: &[u8])
    ensures
        final(buf)@ == old(buf)@ + seq![flag] + be32(payload@.len() % 0x1_0000_0000) + payload@,
{
    buf.push(flag);
    let len = length_field(payload.len());
    let b = be32_bytes(len);
    let ghost before = buf@;
    let mut i: usize = 0;
    while i < 4
        invariant
            i <= 4,
            buf@ == before + b@.take(i as int),
        decreases 4 - i,
    {
        buf.push(b[i]);
        assert(b@.take(i + 1) =~= b@.take(i as int).push(b@[i as int]));
        i = i + 1;
    }
    assert(b@.take(4) =~= b@);
    let ghost mid = buf@;
    let mut j: usize = 0;
    while j < payload.len()
        invariant
            j <= payload@.len(),
            buf@ == mid + payload@.take(j as int),
        decreases payload@.len() - j,
    {
        buf.push(payload[j]);
        assert(payload@.take(j + 1) =~= payload@.take(j as int).push(payload@[j as int]));
        j = j + 1;
    }
    assert(payload@.take(payload@.len() as int) =~= payload@);
    assert(final(buf)@ =~= old(buf)@ + seq![flag] + be32(payload@.len() % 0x1_0000_0000)
        + payload@) by {
        assert(buf@ =~= old(buf)@ + seq![flag] + be32(payload@.len() % 0x1_0000_0000) + payload@);
    }
}

/// Encode a serialized proto message into a gRPC-Web data frame; the length
/// field holds the payload length modulo 2^32.
pub fn encode_grpc_web_frame(proto_bytes: &[u8]) -> (buf: Vec<u8>)
    ensures
        buf@ == seq![0u8] + be32(proto_bytes@.len() % 0x1_0000_0000) + proto_bytes@,
        proto_bytes@.len() < 0x1_0000_0000 ==> buf@ == data_frame(proto_bytes@),
{
    let mut buf: Vec<u8> = Vec::new();
    push_frame(&mut buf, 0u8, proto_bytes);
    buf
}

// ---------------------------------------------------------------------------
// Response parsing
// ---------------------------------------------------------------------------

/// Lossy UTF-8 decoding as `String::from_utf8_lossy` performs it (invalid
/// sequences become U+FFFD).
pub uninterp spec fn utf8_lossy(bytes: Seq<u8>) -> Seq<char>;

/// The text of a trailer payload: its UTF-8 decoding when the bytes are
/// valid UTF-8, else their lossy decoding.
pub open spec fn trailer_text(bytes: Seq<u8>) -> Seq<char> {
    if valid_utf8(bytes) {
        decode_utf8(bytes)
    } else {
        utf8_lossy(bytes)
    }
}

/// Decodes `bytes` with `String::from_utf8_lossy`. The contract ties the text
/// to the bytes by name and, as the documentation states, says that valid
/// UTF-8 is decoded unchanged; how invalid sequences are replaced is left to
/// the name.
#[verifier::external_body]
fn decode_utf8_lossy(bytes: &[u8]) -> (s: String)
    ensures
        s@ == (if valid_utf8(bytes@) {
            decode_utf8(bytes@)
        } else {
            utf8_lossy(bytes@)
        }),
{
    String::from_utf8_lossy(bytes).into_owned()
}

/// Index of the first `'\n'` in `t` at or after `i`, or `t.len()`.
pub open spec fn next_newline(t: Seq<char>, i: int) -> int
    decreases t.len() - i,
{
    if i >= t.len() {
        t.len() as int
    } else if t[i] == '\n' {
        i
    } else {
        next_newline(t, i + 1)
    }
}

/// `line` begins with `prefix`.
pub open spec fn has_prefix(line: Seq<char>, prefix: Seq<char>) -> bool {
    prefix.len() <= line.len() && line.take(prefix.len() as int) == prefix
}

/// What one trailer line does to `(grpc_status, grpc_message)`: a
/// `grpc-status:` line sets the status to its trimmed numeral's value (2 when
/// that is no `i32`), a `grpc-message:` line sets the message to its trimmed
/// value; other lines change nothing.
pub open spec fn apply_trailer_line(line: Seq<char>, st: (i32, Seq<char>)) -> (i32, Seq<char>) {
    if has_prefix(line, "grpc-status:"@) {
        let v = trim(line.skip("grpc-status:"@.len() as int));
        (
            match parse_i32(v) {
                Some(n) => n,
                None => 2i32,
            },
            st.1,
        )
    } else if has_prefix(line, "grpc-message:"@) {
        (st.0, trim(line.skip("grpc-message:"@.len() as int)))
    } else {
        st
    }
}

/// Applies the lines of `t` from position `i` on, in order. Lines are split
/// at `'\n'`; the `'\r'` of a `"\r\n"` ending stays on the line, where the
/// trimming of both header values removes it, exactly as `str::lines` would.
pub open spec fn apply_trailer_lines(t: Seq<char>, i: int, st: (i32, Seq<char>)) -> (
    i32,
    Seq<char>,
)
    decreases t.len() - i,
{
    if i < 0 || i >= t.len() {
        st
    } else {
        let end = next_newline(t, i);
        if end < i || end > t.len() {
            st
        } else if end == t.len() {
            apply_trailer_line(t.subrange(i, end), st)
        } else {
            apply_trailer_lines(t, end + 1, apply_trailer_line(t.subrange(i, end), st))
        }
    }
}

/// The result of reading a response body frame by frame.
pub enum FrameScan {
    /// Data of the last data frame, status and message of the trailers.
    Done(Seq<u8>, i32, Seq<char>),
    /// A frame header announced `need` bytes at `offset` and only `have` remain.
    Truncated(nat, nat, nat),
}

/// Reads the frames of `body` from `offset` on. A frame needs a full 5-byte
/// header; fewer remaining bytes end the scan. Flag bytes with the high bit
/// clear mark data frames (the last one wins); the others are trailer frames
/// whose text updates status and message.
pub open spec fn scan_frames(body: Seq<u8>, offset: nat, data: Seq<u8>, st: (i32, Seq<char>)) -> FrameScan
    decreases body.len() - offset,
{
    if offset + 5 > body.len() {
        FrameScan::Done(data, st.0, st.1)
    } else {
        let len = be32_at(body, offset + 1 as int);
        let start = offset + 5;
        if start + len > body.len() {
            FrameScan::Truncated(len, start, (body.len() - start) as nat)
        } else {
            let payload = body.subrange(start as int, (start + len) as int);
            if body[offset as int] < 0x80 {
                scan_frames(body, (start + len) as nat, payload, st)
            } else {
                scan_frames(
                    body,
                    (start + len) as nat,
                    data,
                    apply_trailer_lines(trailer_text(payload), 0, st),
                )
            }
        }
    }
}

/// The error text for a truncated frame.
pub open spec fn truncated_message(need: nat, offset: nat, have: nat) -> Seq<char> {
    "Frame truncated: need "@ + decimal(need) + " bytes at offset "@ + decimal(offset)
        + ", have "@ + decimal(have)
}

/// What parsing a gRPC-Web response body yields.
pub open spec fn grpc_web_response(body: Seq<u8>) -> Result<(Seq<u8>, i32, Seq<char>), Seq<char>> {
    match scan_frames(body, 0, Seq::empty(), (0i32, Seq::empty())) {
        FrameScan::Done(d, s, m) => Ok((d, s, m)),
        FrameScan::Truncated(n, o, h) => Err(truncated_message(n, o, h)),
    }
}

proof fn lemma_next_newline_bounds(t: Seq<char>, i: int)
    requires
        0 <= i <= t.len(),
    ensures
        i <= next_newline(t, i) <= t.len(),
        next_newline(t, i) < t.len() ==> t[next_newline(t, i)] == '\n',
        forall|k: int| i <= k < next_newline(t, i) ==> t[k] != '\n',
    decreases t.len() - i,
{
    if i < t.len() && t[i] != '\n' {
        lemma_next_newline_bounds(t, i + 1);
    }
}

/// Whether `v[lo..hi]` begins with `prefix`, and if so where the rest starts.
fn range_has_prefix(v: &Vec<char>, lo: usize, hi: usize, prefix: &Vec<char>) -> (b: bool)
    requires
        lo <= hi <= v.len(),
    ensures
        b == has_prefix(v@.subrange(lo as int, hi as int), prefix@),
{
    if prefix.len() > hi - lo {
        return false;
    }
    let mut i: usize = 0;
    while i < prefix.len()
        invariant
            lo <= hi <= v.len(),
            prefix.len() <= hi - lo,
            i <= prefix.len(),
            forall|k: int| 0 <= k < i ==> v@[lo + k] == prefix@[k],
        decreases prefix.len() - i,
    {
        if v[lo + i] != prefix[i] {
            assert(v@.subrange(lo as int, hi as int).take(prefix@.len() as int)[i as int]
                == v@[lo + i]);
            return false;
        }
        i = i + 1;
    }
    assert(v@.subrange(lo as int, hi as int).take(prefix@.len() as int) =~= prefix@);
    true
}

/// Applies one trailer line `t[lo..hi]`.
fn apply_line(t: &Vec<char>, lo: usize, hi: usize, status: i32, message: String) -> (r: (
    i32,
    String,
))
    requires
        lo <= hi <= t.len(),
    ensures
        (r.0, r.1@) == apply_trailer_line(t@.subrange(lo as int, hi as int), (status, message@)),
{
    let ghost line = t@.subrange(lo as int, hi as int);
    let status_key = chars_of("grpc-status:");
    let message_key = chars_of("grpc-message:");
    if range_has_prefix(t, lo, hi, &status_key) {
        let start = lo + status_key.len();
        let (a, b) = trim_bounds(t, start, hi);
        assert(line.skip(status_key@.len() as int) =~= t@.subrange(start as int, hi as int));
        let n = match parse_i32_range(t, a, b) {
            Some(n) => n,
            None => 2i32,
        };
        (n, message)
    } else if range_has_prefix(t, lo, hi, &message_key) {
        let start = lo + message_key.len();
        let (a, b) = trim_bounds(t, start, hi);
        assert(line.skip(message_key@.len() as int) =~= t@.subrange(start as int, hi as int));
        (status, string_of_range(t, a, b))
    } else {
        (status, message)
    }
}

/// Applies every line of the trailer text `t`.
fn apply_trailer(t: &Vec<char>, status: i32, message: String) -> (r: (i32, String))
    ensures
        (r.0, r.1@) == apply_trailer_lines(t@, 0, (status, message@)),
{
    let mut st = status;
    let mut msg = message;
    let mut i: usize = 0;
    while i < t.len()
        invariant
            i <= t.len(),
            apply_trailer_lines(t@, 0, (status, message@)) == apply_trailer_lines(
                t@,
                i as int,
                (st, msg@),
            ),
        decreases t.len() - i,
    {
        let mut end = i;
        while end < t.len() && t[end] != '\n'
            invariant
                i <= end <= t.len(),
                next_newline(t@, i as int) == next_newline(t@, end as int),
            decreases t.len() - end,
        {
            end = end + 1;
        }
        proof {
            lemma_next_newline_bounds(t@, i as int);
        }
        let r = apply_line(t, i, end, st, msg);
        if end == t.len() {
            return r;
        }
        st = r.0;
        msg = r.1;
        i = end + 1;
    }
    (st, msg)
}

/// The number four big-endian bytes stand for.
fn be32_read(body: &[u8], i: usize) -> (n: usize)
    requires
        i + 4 <= body@.len(),
    ensures
        n as nat == be32_at(body@, i as int),
{
    let b0 = body[i] as usize;
    let b1 = body[i + 1] as usize;
    let b2 = body[i + 2] as usize;
    let b3 = body[i + 3] as usize;
    assert(b0 * 0x100_0000 + b1 * 0x1_0000 + b2 * 0x100 + b3 <= 0xffff_ffff) by (nonlinear_arith)
        requires
            b0 < 256,
            b1 < 256,
            b2 < 256,
            b3 < 256,
    ;
    let n: u64 = (b0 as u64) * 0x100_0000 + (b1 as u64) * 0x1_0000 + (b2 as u64) * 0x100
        + (b3 as u64);
    n as usize
}

/// The error text for a truncated frame.
fn truncated_error(need: usize, offset: usize, have: usize) -> (s: String)
    ensures
        s@ == truncated_message(need as nat, offset as nat, have as nat),
{
    let s = String::from_str("Frame truncated: need ");
    let s = concat_str(s, decimal_string(need as u64).as_str());
    let s = concat_str(s, " bytes at offset ");
    let s = concat_str(s, decimal_string(offset as u64).as_str());
    let s = concat_str(s, ", have ");
    let s = concat_str(s, decimal_string(have as u64).as_str());
    s
}

/// Parse a gRPC-Web response body into `(data_bytes, grpc_status,
/// grpc_message)`: the payload of the last data frame, and the status and
/// message named by the trailer frames (0 and empty when none names them).
pub fn parse_grpc_web_response(body: &[u8]) -> (r: Result<(Vec<u8>, i32, String), String>)
    ensures
        match (r, grpc_web_response(body@)) {
            (Ok((d, s, m)), Ok((sd, ss, sm))) => d@ == sd && s == ss && m@ == sm,
            (Err(e), Err(se)) => e@ == se,
            _ => false,
        },
{
    let mut offset: usize = 0;
    let mut data_bytes: Vec<u8> = Vec::new();
    let mut grpc_status: i32 = 0;
    let mut grpc_message = String::new();
    let n = body.len();
    while n >= 5 && offset <= n - 5
        invariant
            n == body@.len(),
            offset <= n,
            scan_frames(body@, 0, Seq::empty(), (0i32, Seq::empty())) == scan_frames(
                body@,
                offset as nat,
                data_bytes@,
                (grpc_status, grpc_message@),
            ),
        decreases n - offset,
    {
        let flag = body[offset];
        let len = be32_read(body, offset + 1);
        offset = offset + 5;
        if len > n - offset {
            return Err(truncated_error(len, offset, n - offset));
        }
        let mut payload: Vec<u8> = Vec::new();
        let mut k = offset;
        while k < offset + len
            invariant
                offset + len <= n == body@.len(),
                offset <= k <= offset + len,
                payload@ == body@.subrange(offset as int, k as int),
            decreases offset + len - k,
        {
            payload.push(body[k]);
            assert(body@.subrange(offset as int, k + 1) =~= body@.subrange(offset as int, k as int).push(
                body@[k as int],
            ));
            k = k + 1;
        }
        offset = offset + len;
        if flag < 0x80 {
            data_bytes = payload;
        } else {
            let text = decode_utf8_lossy(payload.as_slice());
            let chars = chars_of(text.as_str());
            let r = apply_trailer(&chars, grpc_status, grpc_message);
            grpc_status = r.0;
            grpc_message = r.1;
        }
    }
    Ok((data_bytes, grpc_status, grpc_message))
}

// ---------------------------------------------------------------------------
// Unary calls
// ---------------------------------------------------------------------------

/// The text without its trailing `/` characters.
pub open spec fn trim_trailing_slashes(s: Seq<char>) -> Seq<char>
    decreases s.len(),
{
    if s.len() > 0 && s.last() == '/' {
        trim_trailing_slashes(s.drop_last())
    } else {
        s
    }
}

/// The URL a unary call is posted to: the base URL without trailing `/`,
/// then the service path.
pub open spec fn call_url(base_url: Seq<char>, service_path: Seq<char>) -> Seq<char> {
    trim_trailing_slashes(base_url) + service_path
}

/// The URL a unary call is posted to.
pub fn grpc_web_url(base_url: &str, service_path: &str) -> (u: String)
    ensures
        u@ == call_url(base_url@, service_path@),
{
    let v = chars_of(base_url);
    let mut end = v.len();
    assert(v@.take(v@.len() as int) =~= v@);
    while end > 0 && v[end - 1] == '/'
        invariant
            end <= v@.len(),
            trim_trailing_slashes(v@) == trim_trailing_slashes(v@.take(end as int)),
        decreases end,
    {
        assert(v@.take(end as int).drop_last() =~= v@.take(end - 1));
        end = end - 1;
    }
    proof {
        let t = v@.take(end as int);
        if end > 0 {
            assert(t.last() == v@[end - 1]);
        }
        assert(trim_trailing_slashes(t) == t);
    }
    let base = string_of_range(&v, 0, end);
    concat_str(base, service_path)
}

/// What a unary call answers once its response body is read: the message
/// bytes when the trailer reports status 0, else the error.
pub open spec fn call_outcome(body: Seq<u8>) -> Result<Seq<u8>, Seq<char>> {
    match grpc_web_response(body) {
        Ok((data, status, message)) => if status == 0 {
            Ok(data)
        } else {
            Err("gRPC error (status="@ + signed_decimal(status as int) + "): "@ + message)
        },
        Err(e) => Err(e),
    }
}

/// The message bytes of a unary call's response body, or the error the call
/// reports.
pub fn grpc_web_outcome(body: &[u8]) -> (r: Result<Vec<u8>, String>)
    ensures
        match (r, call_outcome(body@)) {
            (Ok(d), Ok(sd)) => d@ == sd,
            (Err(e), Err(se)) => e@ == se,
            _ => false,
        },
{
    match parse_grpc_web_response(body) {
        Ok((data, status, message)) => {
            if status == 0 {
                Ok(data)
            } else {
                let s = concat_str(String::from_str("gRPC error (status="), signed_decimal_string(status).as_str());
                let s = concat_str(s, "): ");
                Err(concat_str(s, message.as_str()))
            }
        },
        Err(e) => Err(e),
    }
}


// ---------------------------------------------------------------------------
// Laws
// ---------------------------------------------------------------------------

/// Four big-endian bytes read back the number below 2^32 they were written
/// from.
pub proof fn lemma_be32_roundtrip(n: nat)
    requires
        n < 0x1_0000_0000,
    ensures
        be32(n).len() == 4,
        be32_at(be32(n), 0) == n,
{
    let b = be32(n);
    assert(b[0] as nat == (n / 0x100_0000) % 256);
    assert(b[1] as nat == (n / 0x1_0000) % 256);
    assert(b[2] as nat == (n / 0x100) % 256);
    assert(b[3] as nat == n % 256);
    assert(((n / 0x100_0000) % 256) * 0x100_0000 + ((n / 0x1_0000) % 256) * 0x1_0000 + ((n
        / 0x100) % 256) * 0x100 + n % 256 == n) by (nonlinear_arith)
        requires
            n < 0x1_0000_0000,
    ;
}

/// A body made of one data frame parses to that frame's payload, with status 0
/// and an empty message.
pub proof fn law_single_data_frame_roundtrip(payload: Seq<u8>)
    requires
        payload.len() < 0x1_0000_0000,
    ensures
        grpc_web_response(data_frame(payload)) == Ok::<(Seq<u8>, i32, Seq<char>), Seq<char>>(
            (payload, 0i32, Seq::empty()),
        ),
{
    let body = data_frame(payload);
    lemma_be32_roundtrip(payload.len());
    assert(body.len() == 5 + payload.len());
    assert(be32_at(body, 1) == be32_at(be32(payload.len()), 0));
    assert(body.subrange(5, 5 + payload.len() as int) =~= payload);
    assert(body[0] == 0u8);
    let s1 = scan_frames(body, 0, Seq::empty(), (0i32, Seq::empty()));
    assert(s1 == scan_frames(body, (5 + payload.len()) as nat, payload, (0i32, Seq::<char>::empty())));
}


/// A frame at the head of a buffer reads back as written: its flag, the
/// length in its header, its payload, and what follows it.
pub proof fn law_frame_head_reads_back(flag: u8, payload: Seq<u8>, rest: Seq<u8>)
    requires
        payload.len() < 0x1_0000_0000,
    ensures
        ({
            let b = frame(flag, payload) + rest;
            &&& b.len() >= 5
            &&& b[0] == flag
            &&& be32_at(b, 1) == payload.len()
            &&& b.subrange(5, 5 + payload.len() as int) == payload
            &&& b.skip(5 + payload.len() as int) == rest
        }),
{
    let b = frame(flag, payload) + rest;
    lemma_be32_roundtrip(payload.len());
    assert(be32_at(b, 1) == be32_at(be32(payload.len()), 0));
    assert(b.subrange(5, 5 + payload.len() as int) =~= payload);
    assert(b.skip(5 + payload.len() as int) =~= rest);
}

/// UTF-8 spends at most four bytes on a character.
pub proof fn lemma_encode_utf8_len(s: Seq<char>)
    ensures
        encode_utf8(s).len() <= 4 * s.len(),
    decreases s.len(),
{
    if s.len() > 0 {
        lemma_encode_utf8_len(s.drop_first());
        assert(vstd::utf8::encode_scalar(s[0] as u32).len() <= 4);
    }
}

/// The text of a trailer frame that reports `status` with `message`.
pub open spec fn status_trailer(status: i32, message: Seq<char>) -> Seq<char> {
    "grpc-status:"@ + signed_decimal(status as int) + "\r\n"@ + "grpc-message:"@ + message + "\r\n"@
}

/// A message that a trailer line carries unchanged: a single line with no
/// white space at either end.
pub open spec fn plain_message(m: Seq<char>) -> bool {
    &&& !m.contains('\n')
    &&& (m.len() == 0 || (!is_white_space(m[0]) && !is_white_space(m.last())))
}

proof fn lemma_next_newline_at(t: Seq<char>, i: int, j: int)
    requires
        0 <= i <= j < t.len(),
        t[j] == '\n',
        forall|k: int| i <= k < j ==> t[k] != '\n',
    ensures
        next_newline(t, i) == j,
    decreases j - i,
{
    if i < j {
        lemma_next_newline_at(t, i + 1, j);
    }
}

/// Reading a status trailer's text gives back its status and message.
proof fn lemma_status_trailer_lines(status: i32, message: Seq<char>)
    requires
        plain_message(message),
    ensures
        apply_trailer_lines(status_trailer(status, message), 0, (0i32, Seq::empty())) == (
            status,
            message,
        ),
{
    reveal_strlit("grpc-status:");
    reveal_strlit("grpc-message:");
    reveal_strlit("\r\n");
    let d = signed_decimal(status as int);
    lemma_signed_decimal_shape(status as int);
    lemma_parse_i32_signed_decimal(status);
    let t = status_trailer(status, message);
    let p1 = "grpc-status:"@;
    let p2 = "grpc-message:"@;
    let l1 = p1 + d + seq!['\r'];
    let l2 = p2 + message + seq!['\r'];
    assert(t =~= l1 + seq!['\n'] + l2 + seq!['\n']);
    let e1 = l1.len() as int;
    let e2 = e1 + 1 + l2.len();
    assert(t.len() == e2 + 1);
    // the first line ends at the first newline
    assert forall|k: int| 0 <= k < e1 implies t[k] != '\n' by {
        if k < 12 {
            assert(t[k] == p1[k]);
        } else if k < 12 + d.len() {
            assert(t[k] == d[k - 12]);
        } else {
            assert(t[k] == '\r');
        }
    }
    assert(t[e1] == '\n');
    lemma_next_newline_at(t, 0, e1);
    assert(t.subrange(0, e1) =~= l1);
    assert(l1.take(12) =~= p1);
    assert(l1.skip(12) =~= d + seq!['\r']);
    lemma_trim_before_cr(d);
    let st1 = apply_trailer_line(l1, (0i32, Seq::empty()));
    assert(st1 == (status, Seq::<char>::empty()));
    // the second line ends at the last newline
    assert forall|k: int| e1 + 1 <= k < e2 implies t[k] != '\n' by {
        let r = k - (e1 + 1);
        assert(t[k] == l2[r]);
        if r < 13 {
            assert(l2[r] == p2[r]);
        } else if r < 13 + message.len() {
            assert(l2[r] == message[r - 13]);
        } else {
            assert(l2[r] == '\r');
        }
    }
    assert(t[e2] == '\n');
    lemma_next_newline_at(t, e1 + 1, e2);
    assert(t.subrange(e1 + 1, e2) =~= l2);
    assert(l2.take(12)[5] != p1[5]);
    assert(!has_prefix(l2, p1));
    assert(l2.take(13) =~= p2);
    assert(l2.skip(13) =~= message + seq!['\r']);
    lemma_trim_before_cr(message);
    let st2 = apply_trailer_line(l2, st1);
    assert(st2 == (status, message));
    assert(apply_trailer_lines(t, e2 + 1, st2) == st2);
    assert(apply_trailer_lines(t, e1 + 1, st1) == apply_trailer_lines(t, e2 + 1, st2));
    assert(apply_trailer_lines(t, 0, (0i32, Seq::empty())) == apply_trailer_lines(t, e1 + 1, st1));
}

/// Reading frames after a prefix is reading them on their own.
proof fn lemma_scan_shift(pre: Seq<u8>, body: Seq<u8>, off: nat, data: Seq<u8>, st: (i32, Seq<char>))
    requires
        off <= body.len(),
    ensures
        scan_frames(pre + body, pre.len() + off, data, st) == match scan_frames(body, off, data, st) {
            FrameScan::Done(d, s, m) => FrameScan::Done(d, s, m),
            FrameScan::Truncated(n, o, h) => FrameScan::Truncated(n, o + pre.len(), h),
        },
    decreases body.len() - off,
{
    let whole = pre + body;
    let o: int = (pre.len() + off) as int;
    if off + 5 <= body.len() {
        assert(whole[o] == body[off as int]);
        assert(be32_at(whole, o + 1) == be32_at(body, off + 1 as int));
        let len = be32_at(body, off + 1 as int);
        let start = off + 5;
        if start + len <= body.len() {
            assert(whole.subrange(o + 5, o + 5 + len as int) =~= body.subrange(start as int, (start + len) as int));
            let payload = body.subrange(start as int, (start + len) as int);
            if body[off as int] < 0x80 {
                lemma_scan_shift(pre, body, (start + len) as nat, payload, st);
            } else {
                lemma_scan_shift(
                    pre,
                    body,
                    (start + len) as nat,
                    data,
                    apply_trailer_lines(trailer_text(payload), 0, st),
                );
            }
        }
    }
}

/// Reading a buffer that starts with a frame: the frame is taken in, then
/// what follows is read on its own.
#[verifier::spinoff_prover]
#[verifier::rlimit(30)]
proof fn lemma_scan_frame_then(flag: u8, payload: Seq<u8>, rest: Seq<u8>, data: Seq<u8>, st: (i32, Seq<char>))
    requires
        payload.len() < 0x1_0000_0000,
    ensures
        scan_frames(frame(flag, payload) + rest, 0, data, st) == match scan_frames(
            rest,
            0,
            if flag < 0x80 { payload } else { data },
            if flag < 0x80 { st } else { apply_trailer_lines(trailer_text(payload), 0, st) },
        ) {
            FrameScan::Done(d, s, m) => FrameScan::Done(d, s, m),
            FrameScan::Truncated(n, o, h) => FrameScan::Truncated(n, o + 5 + payload.len(), h),
        },
{
    let f = frame(flag, payload);
    let b = f + rest;
    law_frame_head_reads_back(flag, payload, rest);
    assert(f.len() == 5 + payload.len());
    assert(b =~= f + rest);
    let d2 = if flag < 0x80 { payload } else { data };
    let st2 = if flag < 0x80 { st } else { apply_trailer_lines(trailer_text(payload), 0, st) };
    let len = be32_at(b, 1);
    assert(len == payload.len());
    assert(0 + 5 <= b.len());
    assert(5 + len <= b.len());
    assert(b.subrange(5, 5 + len as int) == payload);
    assert(b[0] == flag);
    assert(scan_frames(b, 0, data, st) == scan_frames(b, (5 + payload.len()) as nat, d2, st2));
    lemma_scan_shift(f, rest, 0, d2, st2);
}

/// The text of a trailer frame that reports `status` alone.
pub open spec fn status_only_trailer(status: i32) -> Seq<char> {
    "grpc-status:"@ + signed_decimal(status as int) + "\r\n"@
}

/// Reading a status-only trailer's text gives back its status; the message
/// stays as it was.
proof fn lemma_status_only_trailer_lines(status: i32, st: (i32, Seq<char>))
    ensures
        apply_trailer_lines(status_only_trailer(status), 0, st) == (status, st.1),
{
    reveal_strlit("grpc-status:");
    reveal_strlit("\r\n");
    let d = signed_decimal(status as int);
    lemma_signed_decimal_shape(status as int);
    lemma_parse_i32_signed_decimal(status);
    let t = status_only_trailer(status);
    let p1 = "grpc-status:"@;
    let l1 = p1 + d + seq!['\r'];
    assert(t =~= l1 + seq!['\n']);
    let e1 = l1.len() as int;
    assert forall|k: int| 0 <= k < e1 implies t[k] != '\n' by {
        if k < 12 {
            assert(t[k] == p1[k]);
        } else if k < 12 + d.len() {
            assert(t[k] == d[k - 12]);
        } else {
            assert(t[k] == '\r');
        }
    }
    assert(t[e1] == '\n');
    lemma_next_newline_at(t, 0, e1);
    assert(t.subrange(0, e1) =~= l1);
    assert(l1.take(12) =~= p1);
    assert(l1.skip(12) =~= d + seq!['\r']);
    lemma_trim_before_cr(d);
    let st1 = apply_trailer_line(l1, st);
    assert(st1 == (status, st.1));
    assert(apply_trailer_lines(t, e1 + 1, st1) == st1);
}

/// A response made of a data frame and a trailer that reports a status
/// alone reads back as its data, that status and an empty message.
pub proof fn law_status_response_read_back(data: Seq<u8>, status: i32)
    requires
        data.len() < 0x1_0000_0000,
        encode_utf8(status_only_trailer(status)).len() < 0x1_0000_0000,
    ensures
        grpc_web_response(data_frame(data) + frame(0x80u8, encode_utf8(status_only_trailer(status))))
            == Ok::<(Seq<u8>, i32, Seq<char>), Seq<char>>((data, status, Seq::empty())),
{
    broadcast use vstd::utf8::encode_utf8_valid_utf8, vstd::utf8::encode_utf8_decode_utf8;

    let p = encode_utf8(status_only_trailer(status));
    assert(trailer_text(p) == status_only_trailer(status));
    lemma_status_only_trailer_lines(status, (0i32, Seq::empty()));
    lemma_scan_frame_then(0u8, data, frame(0x80u8, p), Seq::empty(), (0i32, Seq::empty()));
    lemma_scan_frame_then(0x80u8, p, Seq::empty(), data, (0i32, Seq::empty()));
    assert(frame(0x80u8, p) + Seq::<u8>::empty() =~= frame(0x80u8, p));
}

/// A response made of a data frame and a status trailer reads back as its
/// data, its status and its message: what a gRPC-Web server writes, this
/// client reads.
pub proof fn law_response_read_back(data: Seq<u8>, status: i32, message: Seq<char>)
    requires
        data.len() < 0x1_0000_0000,
        encode_utf8(status_trailer(status, message)).len() < 0x1_0000_0000,
        plain_message(message),
    ensures
        grpc_web_response(
            data_frame(data) + frame(0x80u8, encode_utf8(status_trailer(status, message))),
        ) == Ok::<(Seq<u8>, i32, Seq<char>), Seq<char>>((data, status, message)),
{
    broadcast use vstd::utf8::encode_utf8_valid_utf8, vstd::utf8::encode_utf8_decode_utf8;

    let t = status_trailer(status, message);
    let p = encode_utf8(t);
    assert(trailer_text(p) == t);
    lemma_status_trailer_lines(status, message);
    lemma_scan_frame_then(0u8, data, frame(0x80u8, p), Seq::empty(), (0i32, Seq::empty()));
    lemma_scan_frame_then(0x80u8, p, Seq::empty(), data, (0i32, Seq::empty()));
    assert(frame(0x80u8, p) + Seq::<u8>::empty() =~= frame(0x80u8, p));
}

} // verus!
