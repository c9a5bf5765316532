//! Byte ranges and content ranges: the HTTP-style selectors over an object's
//! bytes, their header forms, and how a range resolves against a known length.

use vstd::prelude::*;
use crate::error::{Error, ErrorKind};
use crate::text::{
    lemma_find_from_skip, chars_eq, chars_of, chars_slice, chars_start_with, is_prefix, push_chars, split_once_only,
    split_once_only_exec, string_from_chars,
};

verus! {

/// The decimal digit character for `d < 10`.
pub open spec fn digit_char(d: nat) -> char {
    if d == 0 { '0' }
    else if d == 1 { '1' }
    else if d == 2 { '2' }
    else if d == 3 { '3' }
    else if d == 4 { '4' }
    else if d == 5 { '5' }
    else if d == 6 { '6' }
    else if d == 7 { '7' }
    else if d == 8 { '8' }
    else { '9' }
}

/// The decimal form of `n`, without sign or leading zeros.
pub open spec fn decimal(n: nat) -> Seq<char>
    decreases n,
{
    if n < 10 {
        seq![digit_char(n)]
    } else {
        decimal(n / 10).push(digit_char(n % 10))
    }
}

/// Whether `c` is an ASCII decimal digit.
pub open spec fn is_digit(c: char) -> bool {
    '0' <= c && c <= '9'
}

/// The value of a digit character.
pub open spec fn digit_value(c: char) -> nat {
    (c as u32 - '0' as u32) as nat
}

/// The value of a string of decimal digits.
pub open spec fn digits_value(s: Seq<char>) -> nat
    decreases s.len(),
{
    if s.len() == 0 {
        0
    } else {
        digits_value(s.drop_last()) * 10 + digit_value(s.last())
    }
}

/// `s` is a non-empty run of decimal digits.
pub open spec fn all_digits(s: Seq<char>) -> bool {
    s.len() > 0 && forall|i: int| 0 <= i < s.len() ==> is_digit(#[trigger] s[i])
}

/// What reading `s` as an unsigned 64-bit integer gives: an optional `+`,
/// then one or more digits, with a value that fits.
pub open spec fn u64_of(s: Seq<char>) -> Option<u64> {
    if all_digits(unsigned_part(s)) && digits_value(unsigned_part(s)) <= u64::MAX {
        Some(digits_value(unsigned_part(s)) as u64)
    } else {
        None
    }
}

/// `s` without one leading `+`.
pub open spec fn unsigned_part(s: Seq<char>) -> Seq<char> {
    if s.len() > 0 && s[0] == '+' { s.subrange(1, s.len() as int) } else { s }
}

/// Appends the decimal form of `n` to `v`.
pub fn push_decimal(v: &mut Vec<char>, n: u64)
    ensures
        final(v)@ == old(v)@ + decimal(n as nat),
    decreases n,
{
    if n >= 10 {
        push_decimal(v, n / 10);
    }
    let d = n % 10;
    let c = if d == 0 { '0' }
        else if d == 1 { '1' }
        else if d == 2 { '2' }
        else if d == 3 { '3' }
        else if d == 4 { '4' }
        else if d == 5 { '5' }
        else if d == 6 { '6' }
        else if d == 7 { '7' }
        else if d == 8 { '8' }
        else { '9' };
    v.push(c);
    proof {
        if n >= 10 {
            assert(decimal(n as nat) == decimal((n / 10) as nat).push(digit_char((n % 10) as nat)));
        }
    }
    assert(v@ =~= old(v)@ + decimal(n as nat));
}

/// Reads `s` as an unsigned 64-bit integer, as `u64`'s `FromStr` does.
pub fn parse_u64(s: &Vec<char>) -> (r: Option<u64>)
    ensures
        r == u64_of(s@),
{
    let start: usize = if s.len() > 0 && s[0] == '+' { 1 } else { 0 };
    let ghost d = unsigned_part(s@);
    assert(d =~= s@.subrange(start as int, s@.len() as int));
    if start >= s.len() {
        return None;
    }
    let mut acc: u64 = 0;
    let mut i: usize = start;
    while i < s.len()
        invariant
            start < s@.len(),
            start <= i <= s@.len(),
            d == s@.subrange(start as int, s@.len() as int),
            d == unsigned_part(s@),
            acc as nat == digits_value(s@.subrange(start as int, i as int)),
            forall|k: int| start <= k < i ==> is_digit(#[trigger] s@[k]),
        decreases s@.len() - i,
    {
        let c = s[i];
        let ghost pre = s@.subrange(start as int, i as int);
        let ghost next = s@.subrange(start as int, i + 1);
        assert(next.drop_last() =~= pre);
        if !('0' <= c && c <= '9') {
            assert(d[i - start] == s@[i as int]);
            assert(!is_digit(d[i - start]));
            assert(!all_digits(d));
            return None;
        }
        let dv = (c as u32 - '0' as u32) as u64;
        if acc > (u64::MAX - dv) / 10 {
            proof {
                assert(digits_value(next) == digits_value(pre) * 10 + dv) by {
                    assert(next.last() == c);
                }
                assert(digits_value(next) > u64::MAX) by (nonlinear_arith)
                    requires
                        acc > (u64::MAX - dv) / 10,
                        digits_value(next) == acc * 10 + dv,
                        dv <= 9;
                assert(d.subrange(0, (i + 1 - start) as int) =~= next);
                lemma_digits_value_grows(d, (i + 1 - start) as int);
            }
            return None;
        }
        assert(acc * 10 + dv <= u64::MAX) by (nonlinear_arith)
            requires
                acc <= (u64::MAX - dv) / 10,
                dv <= 9;
        acc = acc * 10 + dv;
        i = i + 1;
        assert(next.last() == c);
    }
    assert(s@.subrange(start as int, i as int) =~= d);
    Some(acc)
}

/// The value of a digit string is at least the value of any of its prefixes.
pub proof fn lemma_digits_value_grows(s: Seq<char>, k: int)
    requires
        0 <= k <= s.len(),
    ensures
        digits_value(s.subrange(0, k)) <= digits_value(s),
    decreases s.len() - k,
{
    if k < s.len() {
        lemma_digits_value_grows(s, k + 1);
        assert(s.subrange(0, k + 1).drop_last() =~= s.subrange(0, k));
    } else {
        assert(s.subrange(0, k) =~= s);
    }
}

} // verus!

verus! {

/// A selector over an object's bytes: prefix (offset only), bounded (offset
/// and size), suffix (size only), or the whole object (neither).
#[derive(Clone, Copy, Debug, PartialEq, Eq, Structural)]
pub struct BytesRange {
    pub offset: Option<u64>,
    pub size: Option<u64>,
}

/// Whether a range can be rendered: a bounded range covers at least one byte
/// and its last byte has an index that fits in 64 bits.
pub open spec fn renderable(r: BytesRange) -> bool {
    match (r.offset, r.size) {
        (Some(o), Some(s)) => s > 0 && o + s - 1 <= u64::MAX,
        _ => true,
    }
}

/// The range selects the whole object.
pub open spec fn is_full_range(r: BytesRange) -> bool {
    (r.offset is None || r.offset == Some(0u64)) && r.size is None
}

/// The `Range` header value of a range.
pub open spec fn range_header(r: BytesRange) -> Seq<char> {
    "bytes="@ + match (r.offset, r.size) {
        (Some(o), None) => decimal(o as nat) + "-"@,
        (None, Some(s)) => "-"@ + decimal(s as nat),
        (Some(o), Some(s)) => decimal(o as nat) + "-"@ + decimal((o + s - 1) as nat),
        (None, None) => "0-"@,
    }
}

/// The `(start, end)` byte positions that a range selects from an object of
/// `len` bytes: a bounded range is clipped at the length, a suffix range takes
/// the last `size` bytes (all of them when there are fewer).
pub open spec fn resolved(r: BytesRange, len: u64) -> (u64, u64) {
    match (r.offset, r.size) {
        (Some(o), Some(s)) => (o, if o + s < len { (o + s) as u64 } else { len }),
        (Some(o), None) => (o, len),
        (None, Some(s)) => (if len > s { (len - s) as u64 } else { 0 }, len),
        (None, None) => (0, len),
    }
}

impl BytesRange {
    /// A range from an optional offset and an optional size.
    pub fn new(offset: Option<u64>, size: Option<u64>) -> (r: BytesRange)
        ensures
            r.offset == offset,
            r.size == size,
    {
        BytesRange { offset, size }
    }

    /// The offset, if any.
    pub fn offset(&self) -> (r: Option<u64>)
        ensures
            r == self.offset,
    {
        self.offset
    }

    /// The size, if any.
    pub fn size(&self) -> (r: Option<u64>)
        ensures
            r == self.size,
    {
        self.size
    }

    /// Whether the range selects the whole object.
    pub fn is_full(&self) -> (r: bool)
        ensures
            r == is_full_range(*self),
    {
        let at_start = match self.offset {
            None => true,
            Some(o) => o == 0,
        };
        at_start && self.size.is_none()
    }

    /// Whether the range counts its bytes from the end (size only).
    pub fn is_suffix(&self) -> (r: bool)
        ensures
            r == (self.offset is None && self.size is Some),
    {
        self.offset.is_none() && self.size.is_some()
    }

    /// The `Range` header value: `bytes=start-end`, `bytes=start-` or `bytes=-size`.
    pub fn to_header(&self) -> (r: String)
        requires
            renderable(*self),
        ensures
            r@ == range_header(*self),
    {
        let mut v = chars_of("bytes=");
        match (self.offset, self.size) {
            (Some(o), None) => {
                push_decimal(&mut v, o);
                push_chars(&mut v, &chars_of("-"));
            },
            (None, Some(s)) => {
                push_chars(&mut v, &chars_of("-"));
                push_decimal(&mut v, s);
            },
            (Some(o), Some(s)) => {
                push_decimal(&mut v, o);
                push_chars(&mut v, &chars_of("-"));
                push_decimal(&mut v, o + (s - 1));
            },
            (None, None) => {
                push_chars(&mut v, &chars_of("0-"));
            },
        }
        assert(v@ =~= range_header(*self));
        string_from_chars(&v)
    }

    /// The `(start, end)` positions this range selects from `len` bytes.
    pub fn resolve(&self, len: u64) -> (r: (u64, u64))
        ensures
            r == resolved(*self, len),
    {
        match (self.offset, self.size) {
            (Some(o), Some(s)) => {
                let end = if o >= len { len } else if s >= len - o { len } else { o + s };
                (o, end)
            },
            (Some(o), None) => (o, len),
            (None, Some(s)) => (if len > s { len - s } else { 0 }, len),
            (None, None) => (0, len),
        }
    }
}

/// A `Content-Range`: the span `start..=end` that a reply carries and the
/// object's total size, each when known.
#[derive(Clone, Copy, Debug, PartialEq, Eq, Structural)]
pub struct BytesContentRange {
    pub start: Option<u64>,
    pub end: Option<u64>,
    pub total: Option<u64>,
}

/// Which content ranges have a header form: a span, a total, or both.
pub open spec fn content_range_renderable(r: BytesContentRange) -> bool {
    (r.start is Some && r.end is Some) || (r.start is None && r.end is None && r.total is Some)
}

/// The `Content-Range` header value of a content range.
pub open spec fn content_range_header(r: BytesContentRange) -> Seq<char> {
    "bytes "@ + match (r.start, r.end, r.total) {
        (Some(s), Some(e), Some(t)) => decimal(s as nat) + "-"@ + decimal(e as nat) + "/"@ + decimal(t as nat),
        (Some(s), Some(e), None) => decimal(s as nat) + "-"@ + decimal(e as nat) + "/*"@,
        (_, _, Some(t)) => "*/"@ + decimal(t as nat),
        _ => Seq::empty(),
    }
}

/// The `start-end` span of a content range, as two integers.
pub open spec fn span_of(a: Seq<char>) -> Option<(u64, u64)> {
    match split_once_only(a, '-') {
        Some((x, y)) => match (u64_of(x), u64_of(y)) {
            (Some(s), Some(e)) => Some((s, e)),
            _ => None,
        },
        None => None,
    }
}

/// What a `Content-Range` header value reads as: `bytes start-end/total`,
/// `bytes start-end/*` or `bytes */total`.
pub open spec fn content_range_of(s: Seq<char>) -> Option<BytesContentRange> {
    if !is_prefix("bytes "@, s) {
        None
    } else {
        match split_once_only(s.subrange("bytes "@.len() as int, s.len() as int), '/') {
            None => None,
            Some((a, b)) => if b == "*"@ {
                match span_of(a) {
                    Some((x, y)) => Some(BytesContentRange { start: Some(x), end: Some(y), total: None }),
                    None => None,
                }
            } else {
                match u64_of(b) {
                    None => None,
                    Some(t) => if a == "*"@ {
                        Some(BytesContentRange { start: None, end: None, total: Some(t) })
                    } else {
                        match span_of(a) {
                            Some((x, y)) => Some(BytesContentRange { start: Some(x), end: Some(y), total: Some(t) }),
                            None => None,
                        }
                    },
                }
            },
        }
    }
}

/// Reads a `start-end` span.
fn parse_span(a: &Vec<char>) -> (r: Option<(u64, u64)>)
    ensures
        r == span_of(a@),
{
    match split_once_only_exec(a, '-') {
        Some((x, y)) => match (parse_u64(&x), parse_u64(&y)) {
            (Some(s), Some(e)) => Some((s, e)),
            _ => None,
        },
        None => None,
    }
}

impl BytesContentRange {
    /// A content range with nothing known.
    pub fn new() -> (r: BytesContentRange)
        ensures
            r.start is None && r.end is None && r.total is None,
    {
        BytesContentRange { start: None, end: None, total: None }
    }

    /// Sets the span `start..=end`.
    pub fn with_range(self, start: u64, end: u64) -> (r: BytesContentRange)
        ensures
            r == (BytesContentRange { start: Some(start), end: Some(end), ..self }),
    {
        BytesContentRange { start: Some(start), end: Some(end), ..self }
    }

    /// Sets the object's total size.
    pub fn with_size(self, total: u64) -> (r: BytesContentRange)
        ensures
            r == (BytesContentRange { total: Some(total), ..self }),
    {
        BytesContentRange { total: Some(total), ..self }
    }

    /// The number of bytes the span covers, when it is known.
    pub fn len(&self) -> (r: Option<u64>)
        ensures
            r == match (self.start, self.end) {
                (Some(s), Some(e)) => if s <= e && e - s < u64::MAX { Some((e - s + 1) as u64) } else { None },
                _ => None,
            },
    {
        match (self.start, self.end) {
            (Some(s), Some(e)) => if s <= e && e - s < u64::MAX { Some(e - s + 1) } else { None },
            _ => None,
        }
    }

    /// The `Content-Range` header value.
    pub fn to_header(&self) -> (r: String)
        requires
            content_range_renderable(*self),
        ensures
            r@ == content_range_header(*self),
    {
        let mut v = chars_of("bytes ");
        match (self.start, self.end, self.total) {
            (Some(s), Some(e), t) => {
                push_decimal(&mut v, s);
                push_chars(&mut v, &chars_of("-"));
                push_decimal(&mut v, e);
                match t {
                    Some(t) => {
                        push_chars(&mut v, &chars_of("/"));
                        push_decimal(&mut v, t);
                    },
                    None => push_chars(&mut v, &chars_of("/*")),
                }
            },
            (_, _, t) => {
                push_chars(&mut v, &chars_of("*/"));
                match t {
                    Some(t) => push_decimal(&mut v, t),
                    None => {},
                }
            },
        }
        assert(v@ =~= content_range_header(*self));
        string_from_chars(&v)
    }

    /// Reads a `Content-Range` header value.
    pub fn parse(value: &str) -> (r: Result<BytesContentRange, Error>)
        ensures
            match r {
                Ok(c) => content_range_of(value@) == Some(c),
                Err(e) => content_range_of(value@) is None && e.kind == ErrorKind::Unexpected,
            },
    {
        let s = chars_of(value);
        let prefix = chars_of("bytes ");
        if !chars_start_with(&s, &prefix) {
            return Err(Error::new(ErrorKind::Unexpected, "content range does not start with bytes"));
        }
        let rest = chars_slice(&s, prefix.len(), s.len());
        let star = chars_of("*");
        match split_once_only_exec(&rest, '/') {
            None => Err(Error::new(ErrorKind::Unexpected, "content range is malformed")),
            Some((a, b)) => {
                if chars_eq(&b, &star) {
                    match parse_span(&a) {
                        Some((x, y)) => Ok(BytesContentRange::new().with_range(x, y)),
                        None => Err(Error::new(ErrorKind::Unexpected, "content range span is malformed")),
                    }
                } else {
                    match parse_u64(&b) {
                        None => Err(Error::new(ErrorKind::Unexpected, "content range size is malformed")),
                        Some(t) => {
                            if chars_eq(&a, &star) {
                                Ok(BytesContentRange::new().with_size(t))
                            } else {
                                match parse_span(&a) {
                                    Some((x, y)) => Ok(BytesContentRange::new().with_range(x, y).with_size(t)),
                                    None => Err(Error::new(ErrorKind::Unexpected, "content range span is malformed")),
                                }
                            }
                        },
                    }
                }
            },
        }
    }
}

/// What a `Range` header value reads as: `bytes=start-end` (bounded),
/// `bytes=start-` (prefix) or `bytes=-size` (suffix).
pub open spec fn range_of(s: Seq<char>) -> Option<BytesRange> {
    if !is_prefix("bytes="@, s) {
        None
    } else {
        match split_once_only(s.subrange("bytes="@.len() as int, s.len() as int), '-') {
            None => None,
            Some((x, y)) => if x.len() == 0 {
                match u64_of(y) {
                    Some(n) => Some(BytesRange { offset: None, size: Some(n) }),
                    None => None,
                }
            } else if y.len() == 0 {
                match u64_of(x) {
                    Some(o) => Some(BytesRange { offset: Some(o), size: None }),
                    None => None,
                }
            } else {
                match (u64_of(x), u64_of(y)) {
                    (Some(a), Some(b)) => if a <= b && b - a < u64::MAX {
                        Some(BytesRange { offset: Some(a), size: Some((b - a + 1) as u64) })
                    } else {
                        None
                    },
                    _ => None,
                }
            },
        }
    }
}

impl BytesRange {
    /// Reads a `Range` header value.
    pub fn parse(value: &str) -> (r: Result<BytesRange, Error>)
        ensures
            match r {
                Ok(b) => range_of(value@) == Some(b),
                Err(e) => range_of(value@) is None && e.kind == ErrorKind::Unexpected,
            },
    {
        let s = chars_of(value);
        let prefix = chars_of("bytes=");
        if !chars_start_with(&s, &prefix) {
            return Err(Error::new(ErrorKind::Unexpected, "range does not start with bytes="));
        }
        let rest = chars_slice(&s, prefix.len(), s.len());
        match split_once_only_exec(&rest, '-') {
            None => Err(Error::new(ErrorKind::Unexpected, "range is malformed")),
            Some((x, y)) => {
                if x.len() == 0 {
                    match parse_u64(&y) {
                        Some(n) => Ok(BytesRange::new(None, Some(n))),
                        None => Err(Error::new(ErrorKind::Unexpected, "range size is malformed")),
                    }
                } else if y.len() == 0 {
                    match parse_u64(&x) {
                        Some(o) => Ok(BytesRange::new(Some(o), None)),
                        None => Err(Error::new(ErrorKind::Unexpected, "range offset is malformed")),
                    }
                } else {
                    match (parse_u64(&x), parse_u64(&y)) {
                        (Some(a), Some(b)) => if a <= b && b - a < u64::MAX {
                            Ok(BytesRange::new(Some(a), Some(b - a + 1)))
                        } else {
                            Err(Error::new(ErrorKind::Unexpected, "range end is before its start"))
                        },
                        _ => Err(Error::new(ErrorKind::Unexpected, "range bounds are malformed")),
                    }
                }
            },
        }
    }
}

/// A digit character is a digit, and its value is the digit.
proof fn lemma_digit_char(d: nat)
    requires
        d < 10,
    ensures
        is_digit(digit_char(d)),
        digit_value(digit_char(d)) == d,
        digit_char(d) != '-',
        digit_char(d) != '+',
{
    assert('0' as u32 == 48);
    assert('1' as u32 == 49);
    assert('2' as u32 == 50);
    assert('3' as u32 == 51);
    assert('4' as u32 == 52);
    assert('5' as u32 == 53);
    assert('6' as u32 == 54);
    assert('7' as u32 == 55);
    assert('8' as u32 == 56);
    assert('9' as u32 == 57);
}

/// The decimal form of `n` is a run of digits worth `n`, without `-` or `+`.
pub proof fn lemma_decimal_reads_back(n: nat)
    ensures
        all_digits(decimal(n)),
        digits_value(decimal(n)) == n,
        forall|i: int| 0 <= i < decimal(n).len() ==> decimal(n)[i] != '-' && decimal(n)[i] != '+',
    decreases n,
{
    if n < 10 {
        lemma_digit_char(n);
        let s = decimal(n);
        assert(s.drop_last() =~= Seq::<char>::empty());
        assert(s.last() == digit_char(n));
        assert(digits_value(s) == digits_value(s.drop_last()) * 10 + digit_value(s.last()));
    } else {
        lemma_decimal_reads_back(n / 10);
        lemma_digit_char(n % 10);
        let s = decimal(n);
        assert(s.drop_last() =~= decimal(n / 10));
        assert(s.last() == digit_char(n % 10));
        assert(digits_value(s) == digits_value(s.drop_last()) * 10 + digit_value(s.last()));
        assert(n == (n / 10) * 10 + n % 10) by (nonlinear_arith);
    }
}

/// A number written in decimal reads back as itself.
pub proof fn lemma_u64_round_trip(n: u64)
    ensures
        u64_of(decimal(n as nat)) == Some(n),
{
    lemma_decimal_reads_back(n as nat);
    assert(unsigned_part(decimal(n as nat)) == decimal(n as nat));
}

/// `a`, then `c`, then `b`, with `c` in neither, splits around that `c`.
proof fn lemma_split_around(a: Seq<char>, b: Seq<char>, c: char)
    requires
        forall|i: int| 0 <= i < a.len() ==> a[i] != c,
        forall|i: int| 0 <= i < b.len() ==> b[i] != c,
    ensures
        split_once_only(a + seq![c] + b, c) == Some((a, b)),
{
    let s = a + seq![c] + b;
    lemma_find_from_skip(s, 0, a.len() as int, c);
    assert(s[a.len() as int] == c);
    lemma_find_from_skip(s, a.len() + 1int, s.len() as int, c);
    assert(s.subrange(0, a.len() as int) =~= a);
    assert(s.subrange(a.len() + 1int, s.len() as int) =~= b);
}

/// Rendering a range as a header and reading the header back gives the
/// range again; the whole object reads back as the range from offset 0.
pub proof fn lemma_range_header_round_trip(r: BytesRange)
    requires
        renderable(r),
    ensures
        range_of(range_header(r)) == Some(
            if r.offset is None && r.size is None { BytesRange { offset: Some(0), size: None } } else { r },
        ),
{
    reveal_strlit("bytes=");
    reveal_strlit("-");
    reveal_strlit("0-");
    let h = range_header(r);
    let body = h.subrange("bytes="@.len() as int, h.len() as int);
    assert(h.subrange(0, "bytes="@.len() as int) =~= "bytes="@);
    assert(is_prefix("bytes="@, h));
    match (r.offset, r.size) {
        (Some(o), None) => {
            lemma_decimal_reads_back(o as nat);
            lemma_u64_round_trip(o);
            assert(body =~= decimal(o as nat) + seq!['-'] + Seq::<char>::empty());
            lemma_split_around(decimal(o as nat), Seq::<char>::empty(), '-');
        },
        (None, Some(n)) => {
            lemma_decimal_reads_back(n as nat);
            lemma_u64_round_trip(n);
            assert(body =~= Seq::<char>::empty() + seq!['-'] + decimal(n as nat));
            lemma_split_around(Seq::<char>::empty(), decimal(n as nat), '-');
        },
        (Some(o), Some(n)) => {
            let e = (o + n - 1) as u64;
            lemma_decimal_reads_back(o as nat);
            lemma_decimal_reads_back(e as nat);
            lemma_u64_round_trip(o);
            lemma_u64_round_trip(e);
            assert(body =~= decimal(o as nat) + seq!['-'] + decimal(e as nat));
            lemma_split_around(decimal(o as nat), decimal(e as nat), '-');
        },
        (None, None) => {
            lemma_decimal_reads_back(0);
            lemma_u64_round_trip(0);
            assert(decimal(0) =~= seq!['0']);
            assert(body =~= decimal(0) + seq!['-'] + Seq::<char>::empty());
            lemma_split_around(decimal(0), Seq::<char>::empty(), '-');
        },
    }
}

} // verus!
