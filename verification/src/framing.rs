//! The framing codec: discrete message boundaries on a byte stream.
//!
//! A frame is a textual header block — `Name: value` lines, each ended
//! by CR LF, with at least a `Content-Length` line — terminated by a
//! blank line, followed by exactly that many payload bytes.  Decoding
//! distinguishes three cases: a complete frame at the head of the
//! buffer, a buffer that merely needs more bytes, and a malformed
//! header.  A clean end of stream between frames is normal; an end of
//! stream with buffered bytes left is a truncated frame.
//!
//! The length value is capped at nine decimal digits; a longer value
//! is rejected as malformed rather than risking a bound the machine
//! cannot hold.

use vstd::prelude::*;

verus! {

/// Why a frame could not be decoded.
#[derive(Clone, Copy, PartialEq, Eq, Structural, Debug)]
pub enum FramingError {
    /// A header line without a colon, or a repeated length line.
    MalformedHeader,
    /// No byte-length line before the blank line.
    MissingLength,
    /// A length value that is not one to nine decimal digits.
    BadLength,
    /// The stream ended in the middle of a frame.
    Truncated,
}

/// What the head of the buffer holds.
#[derive(Debug, PartialEq)]
pub enum FrameStep {
    /// A complete frame: `consumed` bytes of the buffer were used, the
    /// last `body.len()` of them being the payload.
    Frame { consumed: usize, body: Vec<u8> },
    /// Only part of a frame has arrived.
    Wait,
    /// The head of the buffer is not a well-formed frame.
    Fail(FramingError),
}

/// A carriage return.
pub const CR: u8 = 13;
/// A line feed.
pub const LF: u8 = 10;
/// A space.
pub const SP: u8 = 32;
/// A colon.
pub const COLON: u8 = 58;

/// The bytes of `Content-Length:`.
pub open spec fn length_label() -> Seq<u8> {
    seq![67u8, 111u8, 110u8, 116u8, 101u8, 110u8, 116u8, 45u8, 76u8, 101u8, 110u8, 103u8, 116u8, 104u8, 58u8]
}

/// Whether a CR LF pair starts at `i`.
pub open spec fn crlf_at(s: Seq<u8>, i: int) -> bool {
    &&& 0 <= i
    &&& i + 2 <= s.len()
    &&& s[i] == CR
    &&& s[i + 1] == LF
}

/// The first CR LF pair at or after `pos`, if any.
pub open spec fn find_crlf_spec(s: Seq<u8>, pos: int) -> Option<int>
    decreases s.len() - pos,
{
    if pos + 2 > s.len() {
        None
    } else if s[pos] == CR && s[pos + 1] == LF {
        Some(pos)
    } else {
        find_crlf_spec(s, pos + 1)
    }
}

/// Whether `b` is a decimal digit.
pub open spec fn is_digit(b: u8) -> bool {
    48 <= b <= 57
}

/// Whether every byte of `s` is a decimal digit.
pub open spec fn all_digits(s: Seq<u8>) -> bool {
    forall|i: int| 0 <= i < s.len() ==> is_digit(#[trigger] s[i])
}

/// The value of `s` read as decimal digits.
pub open spec fn digits_value(s: Seq<u8>) -> int
    decreases s.len(),
{
    if s.len() == 0 {
        0
    } else {
        digits_value(s.drop_last()) * 10 + (s.last() - 48)
    }
}

/// Ten to the `n`.
pub open spec fn pow10(n: nat) -> int
    decreases n,
{
    if n == 0 {
        1
    } else {
        10 * pow10((n - 1) as nat)
    }
}

proof fn lemma_pow10_pos(n: nat)
    ensures
        pow10(n) >= 1,
    decreases n,
{
    if n > 0 {
        lemma_pow10_pos((n - 1) as nat);
    }
}

proof fn lemma_pow10_mono(a: nat, b: nat)
    requires
        a <= b,
    ensures
        pow10(a) <= pow10(b),
    decreases b,
{
    if a < b {
        lemma_pow10_mono(a, (b - 1) as nat);
        lemma_pow10_pos((b - 1) as nat);
    }
}

/// `s` with its leading spaces removed.
pub open spec fn skip_spaces(s: Seq<u8>) -> Seq<u8>
    decreases s.len(),
{
    if s.len() > 0 && s[0] == SP {
        skip_spaces(s.skip(1))
    } else {
        s
    }
}

/// Whether a header line is the byte-length line.
pub open spec fn line_is_length(line: Seq<u8>) -> bool {
    line.len() >= 15 && line.subrange(0, 15) == length_label()
}

/// The value of a byte-length line, if well formed: after the label,
/// optional spaces, then one to nine decimal digits.
pub open spec fn line_length_value(line: Seq<u8>) -> Option<int> {
    let t = skip_spaces(line.skip(15));
    if 1 <= t.len() <= 9 && all_digits(t) {
        Some(digits_value(t))
    } else {
        None
    }
}

/// Whether a header line contains a colon.
pub open spec fn line_has_colon(line: Seq<u8>) -> bool {
    exists|i: int| 0 <= i < line.len() && line[i] == COLON
}

/// The outcome of reading the header block.
pub enum HeaderScan {
    /// The blank line has not arrived yet.
    NeedMore,
    /// A malformed header block.
    Bad(FramingError),
    /// A complete header block: the payload starts at `body_start`
    /// and runs for `length` bytes.
    Found { body_start: int, length: int },
}

/// Read the header block of `s` from `pos`, with `len_seen` the length
/// value of the lines already read.  Lines other than the byte-length
/// line are ignored, but must contain a colon; a second byte-length
/// line is malformed.
pub open spec fn scan_headers(s: Seq<u8>, pos: int, len_seen: Option<int>) -> HeaderScan
    decreases s.len() - pos,
{
    match find_crlf_spec(s, pos) {
        None => HeaderScan::NeedMore,
        Some(e) => if e == pos {
            match len_seen {
                Some(n) => HeaderScan::Found { body_start: pos + 2, length: n },
                None => HeaderScan::Bad(FramingError::MissingLength),
            }
        } else if pos < e && e + 2 <= s.len() {
            let line = s.subrange(pos, e);
            if line_is_length(line) {
                match len_seen {
                    Some(_) => HeaderScan::Bad(FramingError::MalformedHeader),
                    None => match line_length_value(line) {
                        Some(n) => scan_headers(s, e + 2, Some(n)),
                        None => HeaderScan::Bad(FramingError::BadLength),
                    },
                }
            } else if line_has_colon(line) {
                scan_headers(s, e + 2, len_seen)
            } else {
                HeaderScan::Bad(FramingError::MalformedHeader)
            }
        } else {
            // never reached: a separator the scan finds lies in range
            HeaderScan::Bad(FramingError::MalformedHeader)
        },
    }
}

/// An `Option<usize>` as its mathematical value.
pub open spec fn opt_int(o: Option<usize>) -> Option<int> {
    match o {
        Some(n) => Some(n as int),
        None => None,
    }
}

/// Find the first CR LF pair at or after `from`.
fn find_crlf(buf: &Vec<u8>, from: usize) -> (r: Option<usize>)
    requires
        from <= buf@.len(),
    ensures
        match r {
            Some(i) => {
                &&& find_crlf_spec(buf@, from as int) == Some(i as int)
                &&& from <= i
                &&& i + 2 <= buf@.len()
                &&& crlf_at(buf@, i as int)
            },
            None => find_crlf_spec(buf@, from as int) is None,
        },
{
    let mut i = from;
    while i < buf.len() && i + 1 < buf.len()
        invariant
            from <= i <= buf@.len(),
            find_crlf_spec(buf@, from as int) == find_crlf_spec(buf@, i as int),
        decreases buf@.len() - i,
    {
        if buf[i] == CR && buf[i + 1] == LF {
            return Some(i);
        }
        i = i + 1;
    }
    None
}

/// Whether the line `buf[start..end]` starts with `Content-Length:`.
fn starts_with_label(buf: &Vec<u8>, start: usize, end: usize) -> (r: bool)
    requires
        start <= end,
        end <= buf@.len(),
    ensures
        r == line_is_length(buf@.subrange(start as int, end as int)),
{
    let ghost line = buf@.subrange(start as int, end as int);
    if end - start < 15 {
        return false;
    }
    let mut j: usize = 0;
    while j < 15
        invariant
            0 <= j <= 15,
            start + 15 <= end <= buf@.len(),
            line == buf@.subrange(start as int, end as int),
            forall|k: int| 0 <= k < j ==> buf@[start + k] == length_label()[k],
        decreases 15 - j,
    {
        let b = buf[start + j];
        let expect: u8 = if j == 0 {
            67
        } else if j == 1 {
            111
        } else if j == 2 || j == 5 {
            110
        } else if j == 3 || j == 6 || j == 12 {
            116
        } else if j == 4 || j == 9 {
            101
        } else if j == 7 {
            45
        } else if j == 8 {
            76
        } else if j == 10 {
            110
        } else if j == 11 {
            103
        } else if j == 13 {
            104
        } else {
            58
        };
        if b != expect {
            proof {
                assert(line[j as int] == buf@[start + j]);
                assert(line.subrange(0, 15)[j as int] == line[j as int]);
            }
            return false;
        }
        j = j + 1;
    }
    proof {
        assert(line.subrange(0, 15) =~= length_label()) by {
            assert(forall|k: int| 0 <= k < 15 ==> line.subrange(0, 15)[k] == buf@[start + k]);
        }
    }
    true
}

/// Whether the line `buf[start..end]` contains a colon.
fn has_colon(buf: &Vec<u8>, start: usize, end: usize) -> (r: bool)
    requires
        start <= end,
        end <= buf@.len(),
    ensures
        r == line_has_colon(buf@.subrange(start as int, end as int)),
{
    let ghost line = buf@.subrange(start as int, end as int);
    let mut j = start;
    while j < end
        invariant
            start <= j <= end <= buf@.len(),
            line == buf@.subrange(start as int, end as int),
            forall|k: int| start <= k < j ==> buf@[k] != COLON,
        decreases end - j,
    {
        if buf[j] == COLON {
            proof {
                assert(line[j - start] == COLON);
            }
            return true;
        }
        j = j + 1;
    }
    proof {
        assert(forall|i: int| 0 <= i < line.len() ==> line[i] == buf@[start + i]);
    }
    false
}

/// Read the length value of the line `buf[start..end]`, whose label
/// has already been checked; `from` is the first byte after the label.
fn parse_length(buf: &Vec<u8>, from: usize, end: usize) -> (r: Option<usize>)
    requires
        from <= end,
        end <= buf@.len(),
    ensures
        ({
            let t = skip_spaces(buf@.subrange(from as int, end as int));
            match r {
                Some(n) => 1 <= t.len() <= 9 && all_digits(t) && n == digits_value(t) && n
                    <= 999_999_999,
                None => !(1 <= t.len() <= 9 && all_digits(t)),
            }
        }),
{
    let mut i = from;
    while i < end && buf[i] == SP
        invariant
            from <= i <= end <= buf@.len(),
            skip_spaces(buf@.subrange(from as int, end as int)) == skip_spaces(
                buf@.subrange(i as int, end as int),
            ),
        decreases end - i,
    {
        proof {
            assert(buf@.subrange(i as int, end as int).skip(1) =~= buf@.subrange(
                i + 1,
                end as int,
            ));
        }
        i = i + 1;
    }
    let ghost t = skip_spaces(buf@.subrange(from as int, end as int));
    proof {
        let rest = buf@.subrange(i as int, end as int);
        if rest.len() > 0 {
            assert(rest[0] == buf@[i as int]);
        }
        assert(skip_spaces(rest) == rest);
        assert(t == rest);
    }
    let tlen = end - i;
    if tlen == 0 || tlen > 9 {
        proof {
            assert(t.len() == end - i);
            assert(!(1 <= t.len() <= 9));
        }
        return None;
    }
    let mut acc: usize = 0;
    let mut j = i;
    while j < end
        invariant
            i <= j <= end <= buf@.len(),
            end - i <= 9,
            t == buf@.subrange(i as int, end as int),
            t == skip_spaces(buf@.subrange(from as int, end as int)),
            all_digits(buf@.subrange(i as int, j as int)),
            acc == digits_value(buf@.subrange(i as int, j as int)),
            0 <= acc < pow10((j - i) as nat),
        decreases end - j,
    {
        let b = buf[j];
        if b < 48 || b > 57 {
            proof {
                assert(t[j - i] == b);
            }
            return None;
        }
        proof {
            lemma_pow10_mono((j - i) as nat, 8);
            assert(pow10(8) == 100_000_000) by {
                reveal_with_fuel(pow10, 9);
            }
            let prev = buf@.subrange(i as int, j as int);
            let cur = buf@.subrange(i as int, j + 1);
            assert(cur.drop_last() =~= prev);
            assert(cur.last() == b);
            assert(forall|k: int| 0 <= k < prev.len() ==> cur[k] == prev[k]);
        }
        acc = acc * 10 + ((b - 48) as usize);
        j = j + 1;
    }
    proof {
        lemma_pow10_mono((j - i) as nat, 9);
        assert(pow10(9) == 1_000_000_000) by {
            reveal_with_fuel(pow10, 10);
        }
    }
    Some(acc)
}

/// The payload `buf[from..to]` as its own vector.
fn copy_range(buf: &Vec<u8>, from: usize, to: usize) -> (r: Vec<u8>)
    requires
        from <= to,
        to <= buf@.len(),
    ensures
        r@ == buf@.subrange(from as int, to as int),
{
    let mut r: Vec<u8> = Vec::new();
    let mut i = from;
    while i < to
        invariant
            from <= i <= to <= buf@.len(),
            r@ =~= buf@.subrange(from as int, i as int),
        decreases to - i,
    {
        r.push(buf[i]);
        proof {
            assert(buf@.subrange(from as int, i + 1) =~= buf@.subrange(from as int, i as int).push(
                buf@[i as int],
            ));
        }
        i = i + 1;
    }
    proof {
        assert(r@ =~= buf@.subrange(from as int, to as int));
    }
    r
}

/// Decode the frame at the head of the buffer, if it is all there.
pub fn decode_frame(buf: &Vec<u8>) -> (r: FrameStep)
    ensures
        match r {
            FrameStep::Frame { consumed, body } => scan_headers(buf@, 0, None) matches
                HeaderScan::Found { body_start, length } && consumed == body_start + length
                && consumed <= buf@.len() && body@ == buf@.subrange(body_start, body_start + length),
            FrameStep::Wait => scan_headers(buf@, 0, None) is NeedMore || (scan_headers(
                buf@,
                0,
                None,
            ) matches HeaderScan::Found { body_start, length } && body_start + length
                > buf@.len()),
            FrameStep::Fail(e) => scan_headers(buf@, 0, None) == HeaderScan::Bad(e),
        },
{
    let mut pos: usize = 0;
    let mut len_seen: Option<usize> = None;
    proof {
        assert(buf.len() == buf@.len());
    }
    loop
        invariant
            buf@.len() <= usize::MAX,
            pos <= buf@.len(),
            scan_headers(buf@, 0, None) == scan_headers(buf@, pos as int, opt_int(len_seen)),
            len_seen matches Some(n) ==> n <= 999_999_999,
        decreases buf@.len() - pos,
    {
        match find_crlf(buf, pos) {
            None => {
                return FrameStep::Wait;
            },
            Some(e) => {
                if e == pos {
                    match len_seen {
                        Some(n) => {
                            let body_start = pos + 2;
                            proof {
                                assert(scan_headers(buf@, pos as int, opt_int(len_seen))
                                    == HeaderScan::Found {
                                    body_start: body_start as int,
                                    length: n as int,
                                });
                            }
                            if n <= buf.len() - body_start {
                                let consumed = body_start + n;
                                let body = copy_range(buf, body_start, consumed);
                                return FrameStep::Frame { consumed, body };
                            } else {
                                return FrameStep::Wait;
                            }
                        },
                        None => {
                            return FrameStep::Fail(FramingError::MissingLength);
                        },
                    }
                } else {
                    let ghost line = buf@.subrange(pos as int, e as int);
                    if starts_with_label(buf, pos, e) {
                        if len_seen.is_some() {
                            return FrameStep::Fail(FramingError::MalformedHeader);
                        }
                        match parse_length(buf, pos + 15, e) {
                            Some(n) => {
                                proof {
                                    assert(line.skip(15) =~= buf@.subrange(pos + 15, e as int));
                                    assert(line_length_value(line) == Some(n as int));
                                }
                                len_seen = Some(n);
                                pos = e + 2;
                            },
                            None => {
                                proof {
                                    assert(line.skip(15) =~= buf@.subrange(pos + 15, e as int));
                                    assert(line_length_value(line) is None);
                                }
                                return FrameStep::Fail(FramingError::BadLength);
                            },
                        }
                    } else if has_colon(buf, pos, e) {
                        pos = e + 2;
                    } else {
                        return FrameStep::Fail(FramingError::MalformedHeader);
                    }
                }
            },
        }
    }
}

/// What an end of stream means for the buffered bytes: nothing left is
/// a clean end; anything left is a truncated frame.
pub fn end_of_stream(buf: &Vec<u8>) -> (r: Option<FramingError>)
    ensures
        buf@.len() == 0 ==> r is None,
        buf@.len() > 0 ==> r == Some(FramingError::Truncated),
{
    if buf.len() == 0 {
        None
    } else {
        Some(FramingError::Truncated)
    }
}

/// The digits of `n`, most significant first.
pub open spec fn digits_of(n: int) -> Seq<u8>
    decreases n,
{
    if n < 10 {
        seq![(48 + if n >= 0 { n } else { 0 }) as u8]
    } else {
        digits_of(n / 10) + seq![(48 + n % 10) as u8]
    }
}

/// The encoding of a payload: the byte-length header, a blank line,
/// then the payload itself.
pub open spec fn frame_bytes(body: Seq<u8>) -> Seq<u8> {
    length_label() + seq![SP] + digits_of(body.len() as int) + seq![CR, LF, CR, LF] + body
}

/// Append the label bytes.
fn push_label(out: &mut Vec<u8>)
    ensures
        final(out)@ == old(out)@ + length_label(),
{
    out.push(67);
    out.push(111);
    out.push(110);
    out.push(116);
    out.push(101);
    out.push(110);
    out.push(116);
    out.push(45);
    out.push(76);
    out.push(101);
    out.push(110);
    out.push(103);
    out.push(116);
    out.push(104);
    out.push(58);
    proof {
        assert(out@ =~= old(out)@ + length_label());
    }
}

/// Append the decimal digits of `n`.
pub(crate) fn push_digits(out: &mut Vec<u8>, n: u64)
    ensures
        final(out)@ == old(out)@ + digits_of(n as int),
    decreases n,
{
    if n < 10 {
        out.push(48 + n as u8);
        proof {
            assert(out@ =~= old(out)@ + digits_of(n as int));
        }
    } else {
        push_digits(out, n / 10);
        out.push(48 + (n % 10) as u8);
        proof {
            assert(out@ =~= old(out)@ + digits_of(n as int));
        }
    }
}

proof fn lemma_digits_of_all_digits(n: int)
    requires
        0 <= n,
    ensures
        all_digits(digits_of(n)),
        1 <= digits_of(n).len(),
    decreases n,
{
    if n < 10 {
        assert(digits_of(n) =~= seq![(48 + n) as u8]);
    } else {
        lemma_digits_of_all_digits(n / 10);
        let d = digits_of(n / 10);
        let whole = digits_of(n);
        assert(whole =~= d + seq![(48 + n % 10) as u8]);
        assert forall|i: int| 0 <= i < whole.len() implies is_digit(#[trigger] whole[i]) by {
            if i < d.len() {
                assert(whole[i] == d[i]);
            } else {
                assert(whole[i] == (48 + n % 10) as u8);
            }
        }
    }
}

proof fn lemma_digits_of_len(n: int)
    requires
        0 <= n,
    ensures
        1 <= digits_of(n).len(),
        digits_of(n).len() > 1 ==> n >= pow10((digits_of(n).len() - 1) as nat),
    decreases n,
{
    if n >= 10 {
        lemma_digits_of_len(n / 10);
        let k = digits_of(n / 10).len();
        assert(digits_of(n).len() == k + 1);
        if k > 1 {
            assert(n / 10 >= pow10((k - 1) as nat));
        } else {
            assert(n / 10 >= 1);
            assert(pow10(0) == 1);
        }
        assert(pow10(k as nat) == 10 * pow10((k - 1) as nat));
        assert(n >= 10 * (n / 10));
    }
}

proof fn lemma_digits_round_trip(n: int)
    requires
        0 <= n,
    ensures
        digits_value(digits_of(n)) == n,
    decreases n,
{
    if n < 10 {
        let d = digits_of(n);
        assert(d =~= seq![(48 + n) as u8]);
        assert(d.drop_last() =~= Seq::<u8>::empty());
        assert(digits_value(Seq::<u8>::empty()) == 0);
    } else {
        lemma_digits_round_trip(n / 10);
        let d = digits_of(n);
        assert(d.drop_last() =~= digits_of(n / 10));
        assert(d.last() == (48 + n % 10) as u8);
    }
}

proof fn lemma_find_crlf_from(s: Seq<u8>, pos: int, l: int)
    requires
        0 <= pos <= l,
        crlf_at(s, l),
        forall|k: int| pos <= k < l ==> !(#[trigger] s[k] == CR && s[k + 1] == LF),
    ensures
        find_crlf_spec(s, pos) == Some(l),
    decreases l - pos,
{
    if pos < l {
        lemma_find_crlf_from(s, pos + 1, l);
    }
}

/// Law: a frame built by the encoder decodes back to exactly its
/// payload — the header block scans to the payload's position and
/// length, and the whole frame is consumed.
pub proof fn lemma_frame_round_trip(body: Seq<u8>)
    requires
        body.len() <= 999_999_999,
    ensures
        ({
            let s = frame_bytes(body);
            let start = 20 + digits_of(body.len() as int).len() as int;
            &&& s.len() == start + body.len()
            &&& scan_headers(s, 0, None) == (HeaderScan::Found {
                body_start: start,
                length: body.len() as int,
            })
            &&& s.subrange(start, start + body.len()) == body
        }),
{
    let s = frame_bytes(body);
    let n = body.len() as int;
    let d = digits_of(n);
    let dlen = d.len() as int;
    let l = 16 + dlen;
    lemma_digits_of_all_digits(n);
    lemma_digits_of_len(n);
    if dlen > 9 {
        lemma_pow10_mono(9, (dlen - 1) as nat);
        assert(pow10(9) == 1_000_000_000) by {
            reveal_with_fuel(pow10, 10);
        }
        assert(false);
    }
    lemma_digits_round_trip(n);
    assert(s.len() == l + 4 + n);

    // where each region of the frame sits
    assert forall|k: int| 0 <= k < 15 implies s[k] == length_label()[k] by {}
    assert(s[15] == SP);
    assert forall|k: int| 16 <= k < l implies s[k] == d[k - 16] by {}
    assert(s[l] == CR && s[l + 1] == LF && s[l + 2] == CR && s[l + 3] == LF);
    assert forall|k: int| 0 <= k < n implies s[l + 4 + k] == body[k] by {}

    // the first line separator is at `l`
    assert(crlf_at(s, l));
    assert forall|k: int| 0 <= k < l implies !(#[trigger] s[k] == CR && s[k + 1] == LF) by {
        if k < 15 {
            assert(s[k] == length_label()[k]);
            assert(length_label()[k] != CR);
        } else if k == 15 {
            assert(s[k] == SP);
        } else {
            assert(is_digit(d[k - 16]));
        }
    }
    lemma_find_crlf_from(s, 0, l);

    // the header line is the byte-length line, with value `n`
    let line = s.subrange(0, l);
    assert(line.subrange(0, 15) =~= length_label());
    assert(line_is_length(line));
    let after = line.skip(15);
    assert(after.len() == dlen + 1);
    assert(after[0] == SP);
    assert(after.skip(1) =~= d);
    assert(skip_spaces(after) == skip_spaces(d));
    assert(d[0] != SP);
    assert(skip_spaces(d) == d);
    assert(line_length_value(line) == Some(n));

    // the blank line follows at once, ending the header block
    assert(crlf_at(s, l + 2));
    lemma_find_crlf_from(s, l + 2, l + 2);
    assert(scan_headers(s, l + 2, Some(n)) == (HeaderScan::Found {
        body_start: l + 4,
        length: n,
    }));
    assert(scan_headers(s, 0, None) == scan_headers(s, l + 2, Some(n)));
    assert(s.subrange(l + 4, l + 4 + n) =~= body);
}

/// Encode a payload as one frame.
pub fn encode_frame(body: &Vec<u8>) -> (r: Vec<u8>)
    ensures
        r@ == frame_bytes(body@),
{
    let mut out: Vec<u8> = Vec::new();
    push_label(&mut out);
    out.push(SP);
    push_digits(&mut out, body.len() as u64);
    out.push(CR);
    out.push(LF);
    out.push(CR);
    out.push(LF);
    let mut i: usize = 0;
    let ghost head = out@;
    while i < body.len()
        invariant
            i <= body@.len(),
            out@ =~= head + body@.subrange(0, i as int),
        decreases body@.len() - i,
    {
        out.push(body[i]);
        proof {
            assert(body@.subrange(0, i + 1) =~= body@.subrange(0, i as int).push(body@[i as int]));
        }
        i = i + 1;
    }
    proof {
        assert(body@.subrange(0, body@.len() as int) =~= body@);
        assert(out@ =~= frame_bytes(body@));
    }
    out
}

} // verus!
