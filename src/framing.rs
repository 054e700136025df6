//! Message framing on a byte stream: each JSON body is preceded by header
//! lines, ended by an empty line, of which `Content-Length` gives the exact
//! byte length of the body. Other header fields are read and ignored.

use crate::text::{decimal_bytes, push_decimal_bytes};
use vstd::prelude::*;

verus! {

/// Why the bytes read cannot be split into messages.
#[derive(Debug, Clone, Copy, PartialEq, Eq, Structural)]
pub enum FramingError {
    /// A header line without a `:`.
    MalformedHeader,
    /// A `Content-Length` value that is not a decimal number fitting a `usize`.
    BadLength,
    /// A header block with no `Content-Length` field.
    MissingLength,
    /// The stream ended inside a message.
    Truncated,
}

/// What the front of a buffer holds.
#[derive(Debug, Clone, Copy, PartialEq, Eq, Structural)]
pub enum Frame {
    /// A whole message: its body is `buf[body_start .. body_start + body_len]`,
    /// and the next message starts right after it.
    Complete { body_start: usize, body_len: usize },
    /// Not a whole message yet.
    NeedMore,
    /// The header block is malformed.
    Invalid(FramingError),
}

pub open spec fn crlf_at(s: Seq<u8>, i: int) -> bool {
    0 <= i && i + 1 < s.len() && s[i] == 13 && s[i + 1] == 10
}

pub open spec fn blank_line_at(s: Seq<u8>, i: int) -> bool {
    crlf_at(s, i) && crlf_at(s, i + 2)
}

/// `k` is where the first line break of `s` starts, or `s.len()` if none.
pub open spec fn is_line_end(s: Seq<u8>, k: int) -> bool {
    &&& 0 <= k <= s.len()
    &&& k == s.len() || crlf_at(s, k)
    &&& forall|j: int| 0 <= j < k ==> !crlf_at(s, j)
}

pub open spec fn line_end(s: Seq<u8>) -> int {
    choose|k: int| is_line_end(s, k)
}

/// `k` is the index of the first `:` in `s`, or `s.len()` if none.
pub open spec fn is_colon(s: Seq<u8>, k: int) -> bool {
    &&& 0 <= k <= s.len()
    &&& k == s.len() || s[k] == 58
    &&& forall|j: int| 0 <= j < k ==> s[j] != 58
}

pub open spec fn colon(s: Seq<u8>) -> int {
    choose|k: int| is_colon(s, k)
}

/// `s` without its leading spaces.
pub open spec fn skip_spaces(s: Seq<u8>) -> Seq<u8>
    decreases s.len(),
{
    if s.len() > 0 && s[0] == 32 {
        skip_spaces(s.drop_first())
    } else {
        s
    }
}

pub open spec fn is_digit(b: u8) -> bool {
    48 <= b <= 57
}

/// The number that the decimal digits `d` spell.
pub open spec fn digits_value(d: Seq<u8>) -> nat
    decreases d.len(),
{
    if d.len() == 0 {
        0
    } else {
        digits_value(d.drop_last()) * 10 + (d.last() - 48) as nat
    }
}

pub open spec fn length_field() -> Seq<u8> {
    seq![67u8, 111, 110, 116, 101, 110, 116, 45, 76, 101, 110, 103, 116, 104]
}

/// The length a `Content-Length` value declares: after leading spaces,
/// only decimal digits, at least one, spelling a number that fits a `usize`.
pub open spec fn declared_length(v: Seq<u8>) -> Result<usize, FramingError> {
    let d = skip_spaces(v);
    if d.len() > 0 && (forall|i: int| 0 <= i < d.len() ==> is_digit(#[trigger] d[i]))
        && digits_value(d) <= usize::MAX {
        Ok(digits_value(d) as usize)
    } else {
        Err(FramingError::BadLength)
    }
}

/// The effect of one header line on the length found so far.
pub open spec fn field(line: Seq<u8>, acc: Option<nat>) -> Result<Option<nat>, FramingError> {
    let c = colon(line);
    if c == line.len() {
        Err(FramingError::MalformedHeader)
    } else if line.subrange(0, c) != length_field() {
        Ok(acc)
    } else {
        match declared_length(line.subrange(c + 1, line.len() as int)) {
            Ok(n) => Ok(Some(n as nat)),
            Err(e) => Err(e),
        }
    }
}

/// Reads the header lines of `s` in order; the last `Content-Length` wins.
pub open spec fn scan(s: Seq<u8>, acc: Option<nat>) -> Result<Option<nat>, FramingError>
    decreases s.len(),
{
    let k = line_end(s);
    match field(s.subrange(0, k), acc) {
        Err(e) => Err(e),
        Ok(a) => if 0 <= k && k + 2 <= s.len() {
            scan(s.subrange(k + 2, s.len() as int), a)
        } else {
            Ok(a)
        },
    }
}

/// The first blank line of `buf` starts at `h`.
pub open spec fn header_ends_at(buf: Seq<u8>, h: int) -> bool {
    blank_line_at(buf, h) && forall|j: int| 0 <= j < h ==> !blank_line_at(buf, j)
}

/// What the front of `buf` holds.
pub open spec fn frame_spec(buf: Seq<u8>) -> Frame {
    if forall|j: int| !blank_line_at(buf, j) {
        Frame::NeedMore
    } else {
        let h = choose|h: int| header_ends_at(buf, h);
        match scan(buf.subrange(0, h), None) {
            Err(e) => Frame::Invalid(e),
            Ok(None) => Frame::Invalid(FramingError::MissingLength),
            Ok(Some(n)) => if h + 4 + n <= buf.len() {
                Frame::Complete { body_start: (h + 4) as usize, body_len: n as usize }
            } else {
                Frame::NeedMore
            },
        }
    }
}

proof fn lemma_line_end(s: Seq<u8>, k: int)
    requires
        is_line_end(s, k),
    ensures
        line_end(s) == k,
{
    let k2 = line_end(s);
    assert(is_line_end(s, k2));
    if k2 < k {
        assert(!crlf_at(s, k2));
    } else if k < k2 {
        assert(!crlf_at(s, k));
    }
}

proof fn lemma_colon(s: Seq<u8>, k: int)
    requires
        is_colon(s, k),
    ensures
        colon(s) == k,
{
    let k2 = colon(s);
    assert(is_colon(s, k2));
    if k2 < k {
        assert(s[k2] != 58);
    } else if k < k2 {
        assert(s[k] != 58);
    }
}

/// Where the first line break in `buf[lo..hi]` starts, or `hi`.
fn find_line_end(buf: &[u8], lo: usize, hi: usize) -> (k: usize)
    requires
        lo <= hi <= buf@.len(),
    ensures
        lo <= k <= hi,
        line_end(buf@.subrange(lo as int, hi as int)) == k - lo,
{
    let ghost s = buf@.subrange(lo as int, hi as int);
    let mut i: usize = lo;
    while i < hi
        invariant
            lo <= i <= hi,
            hi <= buf@.len(),
            s == buf@.subrange(lo as int, hi as int),
            forall|j: int| 0 <= j < i - lo ==> !crlf_at(s, j),
        decreases hi - i,
    {
        if i + 1 < hi && buf[i] == 13 && buf[i + 1] == 10 {
            proof {
                assert(crlf_at(s, i - lo));
                lemma_line_end(s, i - lo);
            }
            return i;
        }
        assert(!crlf_at(s, i - lo));
        i = i + 1;
    }
    proof {
        lemma_line_end(s, hi - lo);
    }
    hi
}

/// Where the first `:` in `buf[lo..hi]` is, or `hi`.
fn find_colon(buf: &[u8], lo: usize, hi: usize) -> (k: usize)
    requires
        lo <= hi <= buf@.len(),
    ensures
        lo <= k <= hi,
        colon(buf@.subrange(lo as int, hi as int)) == k - lo,
{
    let ghost s = buf@.subrange(lo as int, hi as int);
    let mut i: usize = lo;
    while i < hi
        invariant
            lo <= i <= hi,
            hi <= buf@.len(),
            s == buf@.subrange(lo as int, hi as int),
            forall|j: int| 0 <= j < i - lo ==> s[j] != 58,
        decreases hi - i,
    {
        if buf[i] == 58 {
            proof {
                lemma_colon(s, i - lo);
            }
            return i;
        }
        i = i + 1;
    }
    proof {
        lemma_colon(s, hi - lo);
    }
    hi
}

/// Whether `buf[lo..hi]` is the name `Content-Length`.
fn is_length_field(buf: &[u8], lo: usize, hi: usize) -> (b: bool)
    requires
        lo <= hi <= buf@.len(),
    ensures
        b == (buf@.subrange(lo as int, hi as int) == length_field()),
{
    let name: [u8; 14] = [67, 111, 110, 116, 101, 110, 116, 45, 76, 101, 110, 103, 116, 104];
    assert(name@ =~= length_field());
    if hi - lo != 14 {
        return false;
    }
    let mut i: usize = 0;
    while i < 14
        invariant
            i <= 14,
            hi - lo == 14,
            hi <= buf@.len(),
            name@ == length_field(),
            forall|j: int| 0 <= j < i ==> buf@[lo + j] == length_field()[j],
        decreases 14 - i,
    {
        if buf[lo + i] != name[i] {
            assert(buf@.subrange(lo as int, hi as int)[i as int] != length_field()[i as int]);
            return false;
        }
        i = i + 1;
    }
    assert(buf@.subrange(lo as int, hi as int) =~= length_field());
    true
}

/// The length that `buf[lo..hi]` declares: leading spaces, then decimal
/// digits only.
fn parse_length(buf: &[u8], lo: usize, hi: usize) -> (r: Result<usize, FramingError>)
    requires
        lo <= hi <= buf@.len(),
    ensures
        r == declared_length(buf@.subrange(lo as int, hi as int)),
{
    let ghost whole = buf@.subrange(lo as int, hi as int);
    let mut i: usize = lo;
    while i < hi && buf[i] == 32
        invariant
            lo <= i <= hi,
            hi <= buf@.len(),
            whole == buf@.subrange(lo as int, hi as int),
            skip_spaces(whole) == skip_spaces(buf@.subrange(i as int, hi as int)),
        decreases hi - i,
    {
        assert(buf@.subrange(i as int, hi as int).drop_first() =~= buf@.subrange(i + 1, hi as int));
        i = i + 1;
    }
    let ghost d = buf@.subrange(i as int, hi as int);
    assert(skip_spaces(d) == d);
    if i == hi {
        assert(d.len() == 0);
        assert(skip_spaces(buf@.subrange(lo as int, hi as int)) == d);
        return Err(FramingError::BadLength);
    }
    let start = i;
    let mut v: usize = 0;
    let mut big = false;
    while i < hi
        invariant
            lo <= start <= i <= hi,
            hi <= buf@.len(),
            d == buf@.subrange(start as int, hi as int),
            skip_spaces(buf@.subrange(lo as int, hi as int)) == d,
            d.len() > 0,
            forall|j: int| start <= j < i ==> is_digit(#[trigger] buf@[j]),
            !big ==> v == digits_value(buf@.subrange(start as int, i as int)),
            big ==> digits_value(buf@.subrange(start as int, i as int)) > usize::MAX,
        decreases hi - i,
    {
        let b = buf[i];
        if b < 48 || b > 57 {
            assert(!is_digit(d[i - start]));
            return Err(FramingError::BadLength);
        }
        let ghost prefix = buf@.subrange(start as int, i as int);
        let ghost next = buf@.subrange(start as int, i + 1);
        assert(next.drop_last() =~= prefix);
        let dv = (b - 48) as usize;
        if !big {
            if v > (usize::MAX - dv) / 10 {
                big = true;
                assert(v * 10 + dv > usize::MAX) by (nonlinear_arith)
                    requires v > (usize::MAX - dv) / 10, dv <= 9;
            } else {
                assert(v * 10 + dv <= usize::MAX) by (nonlinear_arith)
                    requires v <= (usize::MAX - dv) / 10, dv <= 9;
                v = v * 10 + dv;
            }
        } else {
            let ghost pv = digits_value(prefix);
            assert(pv * 10 + dv >= pv) by (nonlinear_arith);
        }
        i = i + 1;
    }
    assert(buf@.subrange(start as int, hi as int) =~= d);
    if big {
        Err(FramingError::BadLength)
    } else {
        Ok(v)
    }
}

pub open spec fn opt_nat(o: Option<usize>) -> Option<nat> {
    match o {
        Some(n) => Some(n as nat),
        None => None,
    }
}

/// Reads the header lines of `buf[0..h]`.
fn scan_header(buf: &[u8], h: usize) -> (r: Result<Option<usize>, FramingError>)
    requires
        h <= buf@.len(),
    ensures
        match r {
            Ok(o) => scan(buf@.subrange(0, h as int), None) == Ok::<Option<nat>, FramingError>(opt_nat(o)),
            Err(e) => scan(buf@.subrange(0, h as int), None) == Err::<Option<nat>, FramingError>(e),
        },
{
    let mut pos: usize = 0;
    let mut acc: Option<usize> = None;
    loop
        invariant
            pos <= h,
            h <= buf@.len(),
            scan(buf@.subrange(0, h as int), None) == scan(buf@.subrange(pos as int, h as int), opt_nat(acc)),
        decreases h - pos,
    {
        let ghost s = buf@.subrange(pos as int, h as int);
        let ghost a = opt_nat(acc);
        let k = find_line_end(buf, pos, h);
        let ghost line = s.subrange(0, k - pos);
        assert(line =~= buf@.subrange(pos as int, k as int));
        let c = find_colon(buf, pos, k);
        if c == k {
            return Err(FramingError::MalformedHeader);
        }
        assert(line.subrange(0, c - pos) =~= buf@.subrange(pos as int, c as int));
        assert(line.subrange(c - pos + 1, line.len() as int) =~= buf@.subrange(c + 1, k as int));
        if is_length_field(buf, pos, c) {
            match parse_length(buf, c + 1, k) {
                Ok(n) => {
                    acc = Some(n);
                },
                Err(e) => {
                    return Err(e);
                },
            }
        }
        assert(field(line, a) == Ok::<Option<nat>, FramingError>(opt_nat(acc)));
        if h - k >= 2 {
            assert(s.subrange(k - pos + 2, s.len() as int) =~= buf@.subrange(k + 2, h as int));
            pos = k + 2;
        } else {
            return Ok(acc);
        }
    }
}

/// What the front of `buf` holds: a whole message, not enough bytes yet, or
/// a malformed header block.
pub fn next_frame(buf: &[u8]) -> (f: Frame)
    ensures
        f == frame_spec(buf@),
{
    let n = buf.len();
    if n < 4 {
        return Frame::NeedMore;
    }
    let mut h: usize = 0;
    while h <= n - 4 && !(buf[h] == 13 && buf[h + 1] == 10 && buf[h + 2] == 13 && buf[h + 3] == 10)
        invariant
            n == buf@.len(),
            n >= 4,
            h <= n - 3,
            forall|j: int| 0 <= j < h ==> !blank_line_at(buf@, j),
        decreases n - h,
    {
        h = h + 1;
    }
    if h > n - 4 {
        return Frame::NeedMore;
    }
    proof {
        assert(blank_line_at(buf@, h as int));
        assert(header_ends_at(buf@, h as int));
        let h2 = choose|h2: int| header_ends_at(buf@, h2);
        assert(header_ends_at(buf@, h2));
        if h2 < h {
            assert(!blank_line_at(buf@, h2));
        } else if h < h2 {
            assert(!blank_line_at(buf@, h as int));
        }
    }
    match scan_header(buf, h) {
        Err(e) => Frame::Invalid(e),
        Ok(None) => Frame::Invalid(FramingError::MissingLength),
        Ok(Some(len)) => {
            if len <= n - h - 4 {
                Frame::Complete { body_start: h + 4, body_len: len }
            } else {
                Frame::NeedMore
            }
        },
    }
}

/// The check at the end of a stream: leftover bytes mean it ended inside a
/// message.
pub fn end_of_stream(buf: &[u8]) -> (r: Result<(), FramingError>)
    ensures
        r is Ok <==> buf@.len() == 0,
        r matches Err(e) ==> e == FramingError::Truncated,
{
    if buf.len() == 0 {
        Ok(())
    } else {
        Err(FramingError::Truncated)
    }
}

/// The bytes `Content-Length: `.
pub open spec fn header_prefix() -> Seq<u8> {
    length_field() + seq![58u8, 32]
}

/// The framed form of `body`.
pub open spec fn framed(body: Seq<u8>) -> Seq<u8> {
    header_prefix() + decimal_bytes(body.len()) + seq![13u8, 10, 13, 10] + body
}

/// Frames `body`: a `Content-Length` header giving its length, a blank
/// line, then the body.
pub fn frame(body: &[u8]) -> (out: Vec<u8>)
    ensures
        out@ == framed(body@),
{
    let prefix: [u8; 16] = [67, 111, 110, 116, 101, 110, 116, 45, 76, 101, 110, 103, 116, 104, 58, 32];
    let mut out: Vec<u8> = Vec::new();
    let mut i: usize = 0;
    while i < 16
        invariant
            i <= 16,
            prefix@ == header_prefix(),
            out@ == header_prefix().subrange(0, i as int),
        decreases 16 - i,
    {
        out.push(prefix[i]);
        assert(out@ =~= header_prefix().subrange(0, i + 1));
        i = i + 1;
    }
    assert(out@ =~= header_prefix());
    push_decimal_bytes(&mut out, body.len() as u64);
    out.push(13);
    out.push(10);
    out.push(13);
    out.push(10);
    let ghost head = out@;
    assert(head =~= header_prefix() + decimal_bytes(body@.len()) + seq![13u8, 10, 13, 10]);
    let mut j: usize = 0;
    while j < body.len()
        invariant
            j <= body@.len(),
            out@ == head + body@.subrange(0, j as int),
        decreases body@.len() - j,
    {
        out.push(body[j]);
        assert(out@ =~= head + body@.subrange(0, j + 1));
        j = j + 1;
    }
    assert(body@.subrange(0, body@.len() as int) =~= body@);
    out
}

proof fn lemma_decimal_bytes(n: nat)
    ensures
        decimal_bytes(n).len() > 0,
        forall|i: int| 0 <= i < decimal_bytes(n).len() ==> is_digit(#[trigger] decimal_bytes(n)[i]),
        digits_value(decimal_bytes(n)) == n,
    decreases n,
{
    let d = decimal_bytes(n);
    if n >= 10 {
        lemma_decimal_bytes(n / 10);
        assert(d.drop_last() =~= decimal_bytes(n / 10));
        assert(d.last() == (48 + n % 10) as u8);
        assert((d.last() - 48) as nat == n % 10);
        assert((n / 10) * 10 + n % 10 == n) by (nonlinear_arith);
        assert(digits_value(d) == digits_value(d.drop_last()) * 10 + (d.last() - 48) as nat);
    } else {
        assert(d.drop_last() =~= Seq::<u8>::empty());
        assert(digits_value(d.drop_last()) == 0);
        assert(d.last() == (48 + n) as u8);
        assert(digits_value(d) == digits_value(d.drop_last()) * 10 + (d.last() - 48) as nat);
    }
}

/// Reading back what `frame` wrote gives the whole body: the front of the
/// framed bytes is one complete message, whose body is exactly `body`.
pub proof fn lemma_frame_round_trip(body: Seq<u8>)
    requires
        body.len() <= usize::MAX,
    ensures
        ({
            let buf = framed(body);
            let start = buf.len() - body.len();
            &&& frame_spec(buf) == Frame::Complete { body_start: start as usize, body_len: body.len() as usize }
            &&& buf.subrange(start, start + body.len()) == body
        }),
{
    let digits = decimal_bytes(body.len());
    lemma_decimal_bytes(body.len());
    let buf = framed(body);
    let h: int = 16 + digits.len() as int;
    let header = buf.subrange(0, h as int);
    assert(header =~= header_prefix() + digits);
    assert forall|j: int| 0 <= j < h implies buf[j] != 13 by {
        if j >= 16 {
            assert(buf[j] == digits[j - 16]);
            assert(is_digit(digits[j - 16]));
        }
    }
    assert(blank_line_at(buf, h as int));
    assert(header_ends_at(buf, h as int));
    let h2 = choose|h2: int| header_ends_at(buf, h2);
    assert(header_ends_at(buf, h2));
    if h2 < h {
        assert(buf[h2] != 13);
    } else if h < h2 {
        assert(!blank_line_at(buf, h as int));
    }
    assert forall|j: int| 0 <= j < header.len() implies !crlf_at(header, j) by {
        assert(header[j] == buf[j]);
    }
    lemma_line_end(header, header.len() as int);
    assert(header.subrange(0, header.len() as int) =~= header);
    assert forall|j: int| 0 <= j < 14 implies header[j] != 58 by {
        assert(header[j] == length_field()[j]);
    }
    assert(header[14] == 58);
    lemma_colon(header, 14);
    assert(header.subrange(0, 14) =~= length_field());
    let value = header.subrange(15, header.len() as int);
    assert(value =~= seq![32u8] + digits);
    assert(value.drop_first() =~= digits);
    assert(digits[0] != 32);
    assert(skip_spaces(digits) == digits);
    assert(skip_spaces(value) == digits);
    assert(declared_length(value) == Ok::<usize, FramingError>(body.len() as usize));
    assert(scan(header, None) == Ok::<Option<nat>, FramingError>(Some(body.len())));
    assert(buf.subrange(h + 4, h + 4 + body.len()) =~= body);
}

} // verus!
