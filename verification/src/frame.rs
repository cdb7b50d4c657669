//! Length-prefixed message framing for the debug adapter wire protocol.
//!
//! A frame is an ASCII header line `Content-Length: <decimal>`, terminated
//! by CR LF, followed by a blank line (CR LF), followed by exactly that many
//! payload bytes.  Encoding and decoding are verified against a byte-level
//! model of the format, and decoding a canonical frame round-trips to the
//! identical bytes.

use vstd::prelude::*;

verus! {

/// Ways a frame can fail to decode: the length header is missing or
/// unparsable, or the declared byte count is not available in the buffer.
#[derive(Clone, Copy, Debug, PartialEq, Eq, Structural)]
pub enum FramingError {
    MissingHeader,
    Truncated,
}

pub open spec fn is_digit(b: u8) -> bool {
    48 <= b <= 57
}

pub open spec fn all_digits(s: Seq<u8>) -> bool {
    forall|i: int| 0 <= i < s.len() ==> is_digit(#[trigger] s[i])
}

/// Numeric value of a run of decimal digit bytes, most significant first.
pub open spec fn digits_val(s: Seq<u8>) -> nat
    decreases s.len(),
{
    if s.len() == 0 {
        0
    } else {
        digits_val(s.drop_last()) * 10 + ((s.last() - 48) as nat)
    }
}

/// Decimal digit bytes of `n`, most significant first.
pub open spec fn dec_rep(n: nat) -> Seq<u8>
    decreases n,
{
    if n < 10 {
        seq![(48 + n) as u8]
    } else {
        dec_rep(n / 10).push((48 + n % 10) as u8)
    }
}

pub proof fn lemma_dec_rep_digits(n: nat)
    ensures
        all_digits(dec_rep(n)),
        dec_rep(n).len() >= 1,
    decreases n,
{
    if n < 10 {
        assert(is_digit(dec_rep(n)[0]));
    } else {
        lemma_dec_rep_digits(n / 10);
        assert forall|i: int| 0 <= i < dec_rep(n).len() implies is_digit(
            #[trigger] dec_rep(n)[i],
        ) by {
            if i < dec_rep(n / 10).len() {
                assert(dec_rep(n)[i] == dec_rep(n / 10)[i]);
            }
        }
    }
}

pub proof fn lemma_digits_val_dec_rep(n: nat)
    ensures
        digits_val(dec_rep(n)) == n,
    decreases n,
{
    if n < 10 {
        let s = dec_rep(n);
        assert(s.len() == 1);
        assert(s.last() == (48 + n) as u8);
        assert((48 + n) as u8 == 48 + n);
        assert(s.drop_last() =~= Seq::<u8>::empty());
        assert(digits_val(s.drop_last()) == 0);
    } else {
        lemma_digits_val_dec_rep(n / 10);
        let s = dec_rep(n);
        assert(s.drop_last() =~= dec_rep(n / 10));
        assert(s.last() == (48 + n % 10) as u8);
        assert((48 + n % 10) as u8 == 48 + n % 10);
        vstd::arithmetic::div_mod::lemma_fundamental_div_mod(n as int, 10);
        assert(digits_val(s) == (n / 10) * 10 + n % 10);
    }
}

/// The value of a digit run only grows as digits are appended.
pub proof fn lemma_digits_val_prefix_le(s: Seq<u8>, i: int)
    requires
        0 <= i <= s.len(),
        all_digits(s),
    ensures
        digits_val(s.take(i)) <= digits_val(s),
    decreases s.len(),
{
    if i < s.len() {
        assert(all_digits(s.drop_last()));
        lemma_digits_val_prefix_le(s.drop_last(), i);
        assert(s.take(i) =~= s.drop_last().take(i));
    } else {
        assert(s.take(i) =~= s);
    }
}

/// Render `n` in decimal, as for the `Content-Length` header.
pub fn fmt_decimal(n: usize) -> (r: Vec<u8>)
    ensures
        r@ == dec_rep(n as nat),
    decreases n,
{
    if n < 10 {
        let mut v: Vec<u8> = Vec::new();
        v.push(48 + n as u8);
        proof {
            assert(v@ =~= dec_rep(n as nat));
        }
        v
    } else {
        let mut v = fmt_decimal(n / 10);
        v.push(48 + (n % 10) as u8);
        proof {
            assert(v@ =~= dec_rep(n as nat));
        }
        v
    }
}

/// Parse the decimal digits in `buf[lo..hi]` as a `usize`.  Succeeds exactly
/// when the range is a nonempty run of digits whose value fits in `usize`.
pub fn parse_decimal(buf: &Vec<u8>, lo: usize, hi: usize) -> (r: Option<usize>)
    requires
        lo <= hi <= buf@.len(),
    ensures
        match r {
            Some(v) => {
                &&& lo < hi
                &&& all_digits(buf@.subrange(lo as int, hi as int))
                &&& v as nat == digits_val(buf@.subrange(lo as int, hi as int))
            },
            None => {
                ||| lo == hi
                ||| !all_digits(buf@.subrange(lo as int, hi as int))
                ||| digits_val(buf@.subrange(lo as int, hi as int)) > usize::MAX
            },
        },
{
    if lo == hi {
        return None;
    }
    let ghost whole = buf@.subrange(lo as int, hi as int);
    let mut acc: usize = 0;
    let mut i: usize = lo;
    while i < hi
        invariant
            lo <= i <= hi <= buf@.len(),
            whole == buf@.subrange(lo as int, hi as int),
            all_digits(buf@.subrange(lo as int, i as int)),
            acc as nat == digits_val(buf@.subrange(lo as int, i as int)),
        decreases hi - i,
    {
        let b = buf[i];
        if b < 48 || b > 57 {
            proof {
                assert(!is_digit(whole[i - lo]));
            }
            return None;
        }
        let d = (b - 48) as usize;
        if acc > (usize::MAX - d) / 10 {
            proof {
                let pre = buf@.subrange(lo as int, (i + 1) as int);
                assert(pre.drop_last() =~= buf@.subrange(lo as int, i as int));
                assert(pre.last() == b);
                vstd::arithmetic::div_mod::lemma_fundamental_div_mod(
                    (usize::MAX - d) as int,
                    10,
                );
                assert(digits_val(pre) > usize::MAX);
                if all_digits(whole) {
                    lemma_digits_val_prefix_le(whole, i + 1 - lo);
                    assert(pre =~= whole.take(i + 1 - lo));
                } else {
                }
            }
            return None;
        }
        proof {
            let pre = buf@.subrange(lo as int, (i + 1) as int);
            assert(pre.drop_last() =~= buf@.subrange(lo as int, i as int));
            assert(pre.last() == b);
            assert(is_digit(b));
            assert forall|j: int| 0 <= j < pre.len() implies is_digit(#[trigger] pre[j]) by {
                if j < pre.len() - 1 {
                    assert(pre[j] == buf@.subrange(lo as int, i as int)[j]);
                }
            }
        }
        acc = acc * 10 + d;
        i = i + 1;
    }
    Some(acc)
}

/// The bytes of `Content-Length:`, the header name the decoder looks for.
pub open spec fn cl_prefix() -> Seq<u8> {
    seq![
        67u8, 111u8, 110u8, 116u8, 101u8, 110u8, 116u8, 45u8, 76u8, 101u8, 110u8, 103u8, 116u8, 104u8, 58u8,
    ]
}

/// The full header prefix written by the encoder: the name plus one space.
pub open spec fn header_prefix() -> Seq<u8> {
    cl_prefix().push(32u8)
}

/// The header block declaring a body of `n` bytes: the length line and the
/// blank line that ends the block.
pub open spec fn header_of(n: nat) -> Seq<u8> {
    header_prefix() + dec_rep(n) + seq![13u8, 10u8, 13u8, 10u8]
}

/// The bytes of one complete frame carrying `body`.
pub open spec fn frame_of(body: Seq<u8>) -> Seq<u8> {
    header_of(body.len()) + body
}

fn cl_prefix_vec() -> (r: Vec<u8>)
    ensures
        r@ == cl_prefix(),
{
    let mut v: Vec<u8> = Vec::new();
    v.push(67u8);
    v.push(111u8);
    v.push(110u8);
    v.push(116u8);
    v.push(101u8);
    v.push(110u8);
    v.push(116u8);
    v.push(45u8);
    v.push(76u8);
    v.push(101u8);
    v.push(110u8);
    v.push(103u8);
    v.push(116u8);
    v.push(104u8);
    v.push(58u8);
    proof {
        assert(v@ =~= cl_prefix());
    }
    v
}

/// Encode `body` as one frame: header line, blank line, then the body.
pub fn encode_frame(body: &Vec<u8>) -> (r: Vec<u8>)
    ensures
        r@ == frame_of(body@),
{
    let mut out = cl_prefix_vec();
    out.push(32u8);
    let mut digits = fmt_decimal(body.len());
    out.append(&mut digits);
    out.push(13u8);
    out.push(10u8);
    out.push(13u8);
    out.push(10u8);
    let mut i: usize = 0;
    let ghost head = out@;
    while i < body.len()
        invariant
            i <= body@.len(),
            out@ == head + body@.subrange(0, i as int),
        decreases body@.len() - i,
    {
        out.push(body[i]);
        i = i + 1;
        proof {
            assert(head + body@.subrange(0, i - 1) + seq![body@[i - 1]] =~= head
                + body@.subrange(0, i as int));
        }
    }
    proof {
        assert(body@.subrange(0, body@.len() as int) =~= body@);
        assert(out@ =~= frame_of(body@));
    }
    out
}

/// Position `p` begins a header line: it is the scan start, or follows a LF.
pub open spec fn line_start(b: Seq<u8>, start: int, p: int) -> bool {
    p == start || b[p - 1] == 10
}

/// Position `p` holds the blank CR LF line that ends the header block.
pub open spec fn blank_line_at(b: Seq<u8>, start: int, p: int) -> bool {
    &&& start <= p
    &&& p + 2 <= b.len()
    &&& line_start(b, start, p)
    &&& b[p] == 13
    &&& b[p + 1] == 10
}

/// The first blank header line at or after `p`.
pub open spec fn first_blank_from(b: Seq<u8>, start: int, p: int) -> Option<int>
    decreases b.len() - p,
{
    if p < start || p + 2 > b.len() {
        None
    } else if blank_line_at(b, start, p) {
        Some(p)
    } else {
        first_blank_from(b, start, p + 1)
    }
}

/// Position `p` begins a `Content-Length:` header line inside `[start, h)`.
pub open spec fn cl_line_at(b: Seq<u8>, start: int, h: int, p: int) -> bool {
    &&& start <= p
    &&& p + 15 <= h
    &&& line_start(b, start, p)
    &&& b.subrange(p, p + 15) == cl_prefix()
}

/// The first `Content-Length:` line at or after `p`.
pub open spec fn first_cl_from(b: Seq<u8>, start: int, h: int, p: int) -> Option<int>
    decreases h - p,
{
    if p < start || p + 15 > h {
        None
    } else if cl_line_at(b, start, h, p) {
        Some(p)
    } else {
        first_cl_from(b, start, h, p + 1)
    }
}

/// The first LF at or after `p`.
pub open spec fn first_lf_from(b: Seq<u8>, p: int) -> Option<int>
    decreases b.len() - p,
{
    if p < 0 || p >= b.len() {
        None
    } else if b[p] == 10 {
        Some(p)
    } else {
        first_lf_from(b, p + 1)
    }
}

pub open spec fn is_ws(b: u8) -> bool {
    b == 32 || b == 9
}

/// First non-blank position in `[p, e)`, or `e`.
pub open spec fn skip_ws_from(b: Seq<u8>, p: int, e: int) -> int
    decreases e - p,
{
    if p >= e {
        e
    } else if is_ws(b[p]) {
        skip_ws_from(b, p + 1, e)
    } else {
        p
    }
}

/// End of `[p, e)` with trailing blanks removed.
pub open spec fn drop_ws_back(b: Seq<u8>, p: int, e: int) -> int
    decreases e - p,
{
    if e <= p {
        p
    } else if is_ws(b[e - 1]) {
        drop_ws_back(b, p, e - 1)
    } else {
        e
    }
}

/// The declared content length of the header block `[start, h)`, if a
/// `Content-Length:` line is present and its value is a run of digits.
pub open spec fn parsed_header_len(b: Seq<u8>, start: int, h: int) -> Option<nat> {
    match first_cl_from(b, start, h, start) {
        None => None,
        Some(p) => match first_lf_from(b, p + 15) {
            None => None,
            Some(q) => {
                let e = if p + 15 <= q - 1 && b[q - 1] == 13 {
                    q - 1
                } else {
                    q
                };
                let lo = skip_ws_from(b, p + 15, e);
                let hi = drop_ws_back(b, lo, e);
                if lo < hi && all_digits(b.subrange(lo, hi)) {
                    Some(digits_val(b.subrange(lo, hi)))
                } else {
                    None
                }
            },
        },
    }
}

/// What decoding from position `start` of `b` yields: the body bytes and the
/// position just past them, or the framing error.
pub open spec fn decode_result(b: Seq<u8>, start: int) -> Result<(Seq<u8>, int), FramingError> {
    match first_blank_from(b, start, start) {
        None => Err(FramingError::MissingHeader),
        Some(h) => match parsed_header_len(b, start, h) {
            None => Err(FramingError::MissingHeader),
            Some(n) => if n > usize::MAX {
                Err(FramingError::MissingHeader)
            } else if h + 2 + n > b.len() {
                Err(FramingError::Truncated)
            } else {
                Ok((b.subrange(h + 2, h + 2 + n), h + 2 + n))
            },
        },
    }
}

proof fn lemma_first_blank_some(b: Seq<u8>, start: int, p: int, r: int)
    requires
        first_blank_from(b, start, p) == Some(r),
    ensures
        blank_line_at(b, start, r),
        p <= r,
    decreases b.len() - p,
{
    if !(p < start || p + 2 > b.len()) && !blank_line_at(b, start, p) {
        lemma_first_blank_some(b, start, p + 1, r);
    }
}

proof fn lemma_first_cl_some(b: Seq<u8>, start: int, h: int, p: int, r: int)
    requires
        first_cl_from(b, start, h, p) == Some(r),
    ensures
        cl_line_at(b, start, h, r),
        p <= r,
    decreases h - p,
{
    if !(p < start || p + 15 > h) && !cl_line_at(b, start, h, p) {
        lemma_first_cl_some(b, start, h, p + 1, r);
    }
}

proof fn lemma_first_lf_some(b: Seq<u8>, p: int, r: int)
    requires
        first_lf_from(b, p) == Some(r),
    ensures
        p <= r < b.len(),
        b[r] == 10,
    decreases b.len() - p,
{
    if !(p < 0 || p >= b.len()) && b[p] != 10 {
        lemma_first_lf_some(b, p + 1, r);
    }
}

fn find_blank(buf: &Vec<u8>, start: usize) -> (r: Option<usize>)
    requires
        start <= buf@.len(),
    ensures
        match r {
            Some(p) => first_blank_from(buf@, start as int, start as int) == Some(p as int),
            None => first_blank_from(buf@, start as int, start as int) is None,
        },
{
    let len = buf.len();
    let mut p = start;
    while len >= 2 && p <= len - 2
        invariant
            len == buf@.len(),
            start <= p <= buf@.len(),
            first_blank_from(buf@, start as int, start as int) == first_blank_from(
                buf@,
                start as int,
                p as int,
            ),
        decreases buf@.len() - p,
    {
        let is_ls = p == start || buf[p - 1] == 10;
        if is_ls && buf[p] == 13 && buf[p + 1] == 10 {
            proof {
                assert(blank_line_at(buf@, start as int, p as int));
            }
            return Some(p);
        }
        proof {
            assert(!blank_line_at(buf@, start as int, p as int));
        }
        p = p + 1;
    }
    None
}

fn matches_cl_at(buf: &Vec<u8>, p: usize) -> (r: bool)
    requires
        p + 15 <= buf@.len(),
    ensures
        r == (buf@.subrange(p as int, p + 15) == cl_prefix()),
{
    let len = buf.len();
    let pfx = cl_prefix_vec();
    let mut k: usize = 0;
    while k < 15
        invariant
            len == buf@.len(),
            k <= 15,
            p + 15 <= buf@.len(),
            pfx@ == cl_prefix(),
            forall|j: int| 0 <= j < k ==> buf@[p + j] == cl_prefix()[j],
        decreases 15 - k,
    {
        if buf[p + k] != pfx[k] {
            proof {
                assert(buf@.subrange(p as int, p + 15)[k as int] != cl_prefix()[k as int]);
            }
            return false;
        }
        k = k + 1;
    }
    proof {
        assert(buf@.subrange(p as int, p + 15) =~= cl_prefix());
    }
    true
}

fn find_cl(buf: &Vec<u8>, start: usize, h: usize) -> (r: Option<usize>)
    requires
        start <= h <= buf@.len(),
    ensures
        match r {
            Some(p) => first_cl_from(buf@, start as int, h as int, start as int) == Some(p as int),
            None => first_cl_from(buf@, start as int, h as int, start as int) is None,
        },
{
    let len = buf.len();
    let mut p = start;
    while h >= 15 && p <= h - 15
        invariant
            len == buf@.len(),
            start <= p <= h <= buf@.len(),
            first_cl_from(buf@, start as int, h as int, start as int) == first_cl_from(
                buf@,
                start as int,
                h as int,
                p as int,
            ),
        decreases h - p,
    {
        let is_ls = p == start || buf[p - 1] == 10;
        if is_ls {
            if matches_cl_at(buf, p) {
                proof {
                    assert(cl_line_at(buf@, start as int, h as int, p as int));
                }
                return Some(p);
            }
        }
        proof {
            assert(!cl_line_at(buf@, start as int, h as int, p as int));
        }
        p = p + 1;
    }
    None
}

fn find_lf(buf: &Vec<u8>, from: usize) -> (r: Option<usize>)
    requires
        from <= buf@.len(),
    ensures
        match r {
            Some(q) => first_lf_from(buf@, from as int) == Some(q as int),
            None => first_lf_from(buf@, from as int) is None,
        },
{
    let mut p = from;
    while p < buf.len()
        invariant
            from <= p <= buf@.len(),
            first_lf_from(buf@, from as int) == first_lf_from(buf@, p as int),
        decreases buf@.len() - p,
    {
        if buf[p] == 10 {
            return Some(p);
        }
        p = p + 1;
    }
    None
}

fn skip_ws(buf: &Vec<u8>, p: usize, e: usize) -> (r: usize)
    requires
        p <= e <= buf@.len(),
    ensures
        r as int == skip_ws_from(buf@, p as int, e as int),
        p <= r <= e,
{
    let mut i = p;
    while i < e
        invariant
            p <= i <= e <= buf@.len(),
            skip_ws_from(buf@, p as int, e as int) == skip_ws_from(buf@, i as int, e as int),
        decreases e - i,
    {
        let b = buf[i];
        if !(b == 32 || b == 9) {
            return i;
        }
        i = i + 1;
    }
    i
}

fn drop_ws(buf: &Vec<u8>, p: usize, e: usize) -> (r: usize)
    requires
        p <= e <= buf@.len(),
    ensures
        r as int == drop_ws_back(buf@, p as int, e as int),
        p <= r <= e,
{
    let mut i = e;
    while i > p
        invariant
            p <= i <= e <= buf@.len(),
            drop_ws_back(buf@, p as int, e as int) == drop_ws_back(buf@, p as int, i as int),
        decreases i,
    {
        let b = buf[i - 1];
        if !(b == 32 || b == 9) {
            return i;
        }
        i = i - 1;
    }
    i
}

fn copy_range(buf: &Vec<u8>, lo: usize, hi: usize) -> (r: Vec<u8>)
    requires
        lo <= hi <= buf@.len(),
    ensures
        r@ == buf@.subrange(lo as int, hi as int),
{
    let mut out: Vec<u8> = Vec::new();
    let mut i = lo;
    while i < hi
        invariant
            lo <= i <= hi <= buf@.len(),
            out@ == buf@.subrange(lo as int, i as int),
        decreases hi - i,
    {
        out.push(buf[i]);
        i = i + 1;
        proof {
            assert(buf@.subrange(lo as int, i - 1).push(buf@[i - 1]) =~= buf@.subrange(
                lo as int,
                i as int,
            ));
        }
    }
    proof {
        assert(out@ =~= buf@.subrange(lo as int, hi as int));
    }
    out
}

/// Decode one frame from `buf` at `start`: scan header lines to the blank
/// line, read the declared length, and return the body bytes paired with the
/// position just past them.  A missing or unparsable length header, or a
/// declared body extending past the buffer, yields the matching error and no
/// partial body.
pub fn decode_frame(buf: &Vec<u8>, start: usize) -> (r: Result<(Vec<u8>, usize), FramingError>)
    requires
        start <= buf@.len(),
    ensures
        match r {
            Ok(out) => decode_result(buf@, start as int) == Ok::<(Seq<u8>, int), FramingError>(
                (out.0@, out.1 as int),
            ),
            Err(e) => decode_result(buf@, start as int) == Err::<(Seq<u8>, int), FramingError>(e),
        },
{
    let h = match find_blank(buf, start) {
        Some(h) => h,
        None => {
            return Err(FramingError::MissingHeader);
        },
    };
    proof {
        lemma_first_blank_some(buf@, start as int, start as int, h as int);
    }
    let p = match find_cl(buf, start, h) {
        Some(p) => p,
        None => {
            return Err(FramingError::MissingHeader);
        },
    };
    proof {
        lemma_first_cl_some(buf@, start as int, h as int, start as int, p as int);
    }
    let q = match find_lf(buf, p + 15) {
        Some(q) => q,
        None => {
            return Err(FramingError::MissingHeader);
        },
    };
    proof {
        lemma_first_lf_some(buf@, (p + 15) as int, q as int);
    }
    let e = if p + 15 <= q - 1 && buf[q - 1] == 13 {
        q - 1
    } else {
        q
    };
    let lo = skip_ws(buf, p + 15, e);
    let hi = drop_ws(buf, lo, e);
    let n = match parse_decimal(buf, lo, hi) {
        Some(n) => n,
        None => {
            return Err(FramingError::MissingHeader);
        },
    };
    proof {
        assert(parsed_header_len(buf@, start as int, h as int) == Some(n as nat));
    }
    if n > buf.len() - (h + 2) {
        return Err(FramingError::Truncated);
    }
    let body = copy_range(buf, h + 2, h + 2 + n);
    Ok((body, h + 2 + n))
}

proof fn lemma_first_blank_found(b: Seq<u8>, start: int, p: int, h: int)
    requires
        start <= p <= h,
        blank_line_at(b, start, h),
        forall|q: int| p <= q < h ==> !blank_line_at(b, start, q),
    ensures
        first_blank_from(b, start, p) == Some(h),
    decreases h - p,
{
    if p < h {
        assert(!blank_line_at(b, start, p));
        lemma_first_blank_found(b, start, p + 1, h);
    }
}

proof fn lemma_first_lf_found(b: Seq<u8>, from: int, q: int)
    requires
        0 <= from <= q < b.len(),
        b[q] == 10,
        forall|i: int| from <= i < q ==> b[i] != 10,
    ensures
        first_lf_from(b, from) == Some(q),
    decreases q - from,
{
    if from < q {
        lemma_first_lf_found(b, from + 1, q);
    }
}

proof fn lemma_cl_prefix_bytes()
    ensures
        forall|i: int|
            0 <= i < 15 ==> {
                &&& #[trigger] cl_prefix()[i] != 13
                &&& cl_prefix()[i] != 10
                &&& !is_ws(cl_prefix()[i])
                &&& !is_digit(cl_prefix()[i])
            },
{
    assert forall|i: int|
        0 <= i < 15 implies {
        &&& #[trigger] cl_prefix()[i] != 13
        &&& cl_prefix()[i] != 10
        &&& !is_ws(cl_prefix()[i])
        &&& !is_digit(cl_prefix()[i])
    } by {
        if i == 0 {
            assert(cl_prefix()[i] == 67);
        } else if i == 1 {
            assert(cl_prefix()[i] == 111);
        } else if i == 2 {
            assert(cl_prefix()[i] == 110);
        } else if i == 3 {
            assert(cl_prefix()[i] == 116);
        } else if i == 4 {
            assert(cl_prefix()[i] == 101);
        } else if i == 5 {
            assert(cl_prefix()[i] == 110);
        } else if i == 6 {
            assert(cl_prefix()[i] == 116);
        } else if i == 7 {
            assert(cl_prefix()[i] == 45);
        } else if i == 8 {
            assert(cl_prefix()[i] == 76);
        } else if i == 9 {
            assert(cl_prefix()[i] == 101);
        } else if i == 10 {
            assert(cl_prefix()[i] == 110);
        } else if i == 11 {
            assert(cl_prefix()[i] == 103);
        } else if i == 12 {
            assert(cl_prefix()[i] == 116);
        } else if i == 13 {
            assert(cl_prefix()[i] == 104);
        } else {
            assert(cl_prefix()[i] == 58);
        }
    }
}

/// Any buffer that begins with a well-formed header block for `n` body bytes
/// parses that header: the blank line is found right where the block ends and
/// the declared length reads back as `n`.
proof fn lemma_header_decodes(b: Seq<u8>, n: nat)
    requires
        b.len() >= header_of(n).len(),
        b.take(header_of(n).len() as int) == header_of(n),
    ensures
        first_blank_from(b, 0, 0) == Some(header_of(n).len() - 2),
        parsed_header_len(b, 0, header_of(n).len() - 2) == Some(n),
{
    let dd = dec_rep(n);
    let d = dd.len() as int;
    let hlen = header_of(n).len() as int;
    lemma_dec_rep_digits(n);
    lemma_digits_val_dec_rep(n);
    lemma_cl_prefix_bytes();
    assert(hlen == 20 + d);
    let hp = header_prefix();
    assert forall|i: int| 0 <= i < hlen implies b[i] == header_of(n)[i] by {
        assert(b.take(hlen)[i] == b[i]);
    }
    assert forall|i: int| 0 <= i < 16 implies b[i] == hp[i] by {
        assert(header_of(n)[i] == hp[i]);
    }
    assert forall|i: int| 0 <= i < d implies b[16 + i] == dd[i] by {
        assert(header_of(n)[16 + i] == dd[i]);
    }
    assert(b[16 + d] == 13);
    assert(b[16 + d + 1] == 10);
    assert(b[16 + d + 2] == 13);
    assert(b[16 + d + 3] == 10);
    assert(d >= 1);
    assert forall|i: int| 0 <= i < 15 implies b[i] == cl_prefix()[i] by {
        assert(hp[i] == cl_prefix()[i]);
    }
    assert(b[15] == 32);
    let h = 16 + d + 2;
    // the blank line sits exactly at the end of the header block
    assert(blank_line_at(b, 0, h));
    assert forall|q: int| 0 <= q < h implies !blank_line_at(b, 0, q) by {
        if q < 16 {
            assert(b[q] != 13);
        } else if q < 16 + d {
            assert(is_digit(b[q]));
        } else if q == 16 + d {
            assert(b[q - 1] == dd[d - 1]);
            assert(is_digit(b[q - 1]));
            assert(!line_start(b, 0, q));
        } else {
            assert(b[q] == 10);
        }
    }
    lemma_first_blank_found(b, 0, 0, h);
    // the length line is the first (and only) header line
    assert(b.subrange(0, 15) =~= cl_prefix());
    assert(cl_line_at(b, 0, h, 0));
    assert(first_cl_from(b, 0, h, 0) == Some(0int));
    // its value runs to the line's CR LF
    assert forall|i: int| 15 <= i < 16 + d + 1 implies b[i] != 10 by {
        if 16 <= i < 16 + d {
            assert(is_digit(b[i]));
        } else if i == 16 + d {
            assert(b[i] == 13);
        }
    }
    lemma_first_lf_found(b, 15, 16 + d + 1);
    let q = 16 + d + 1;
    assert(b[q - 1] == 13);
    let e = 16 + d;
    // trimming strips the single leading space
    assert(is_ws(b[15]));
    assert(skip_ws_from(b, 15, e) == skip_ws_from(b, 16, e));
    assert(is_digit(b[16]) && !is_ws(b[16]));
    assert(skip_ws_from(b, 16, e) == 16);
    assert(is_digit(b[e - 1]) && !is_ws(b[e - 1]));
    assert(drop_ws_back(b, 16, e) == e);
    // the digits read back as n
    assert(b.subrange(16, 16 + d) =~= dd);
    assert(all_digits(b.subrange(16, 16 + d)));
    assert(digits_val(b.subrange(16, 16 + d)) == n);
    assert(parsed_header_len(b, 0, h) == Some(n));
}

/// Decoding a canonical frame yields exactly its body and consumes the whole
/// frame, so re-encoding the decoded message reproduces the original bytes.
pub proof fn lemma_frame_round_trip(body: Seq<u8>)
    requires
        body.len() <= usize::MAX,
    ensures
        decode_result(frame_of(body), 0) == Ok::<(Seq<u8>, int), FramingError>(
            (body, frame_of(body).len() as int),
        ),
{
    let n = body.len();
    let f = frame_of(body);
    let hlen = header_of(n).len() as int;
    assert(f.take(hlen) =~= header_of(n));
    lemma_header_decodes(f, n);
    assert(f.subrange(hlen, hlen + n) =~= body);
}

/// A well-formed header whose declared length exceeds the bytes that remain
/// in the buffer decodes to a truncation error: no partial body is produced.
pub proof fn lemma_truncated_frame_fails(body: Seq<u8>, k: int)
    requires
        body.len() <= usize::MAX,
        header_of(body.len()).len() <= k < frame_of(body).len(),
    ensures
        decode_result(frame_of(body).take(k), 0) == Err::<(Seq<u8>, int), FramingError>(
            FramingError::Truncated,
        ),
{
    let n = body.len();
    let f = frame_of(body);
    let b = f.take(k);
    let hlen = header_of(n).len() as int;
    assert(b.take(hlen) =~= header_of(n));
    lemma_header_decodes(b, n);
    assert(hlen - 2 + 2 + n > b.len());
}

} // verus!
