//! The job envelope wire format and the decimal codec it needs.
//!
//! A job travels as one string: the byte length of its type tag in
//! decimal, a colon, the type tag, then the serialized body —
//! `"{len}:{tag}{body}"`.  The queue core treats the whole string as opaque
//! content; only the dispatch layer encodes and decodes it.
use crate::error::{YqError, YqResult};
use vstd::arithmetic::div_mod::lemma_fundamental_div_mod;
use vstd::prelude::*;
use vstd::string::StrSliceExecFns;
use vstd::string::StringExecFns;
use vstd::string::StringSliceAdditionalSpecFns;
use vstd::utf8::{
    encode_scalar, encode_utf8, is_ascii_chars, is_char_boundary, pop_first_scalar,
};

verus! {

// ---------------------------------------------------------------------------
// Decimal digits, in specification
// ---------------------------------------------------------------------------
pub open spec fn is_digit(c: char) -> bool {
    '0' as int <= c as int <= '9' as int
}

pub open spec fn digit_val(c: char) -> int {
    c as int - '0' as int
}

pub open spec fn all_digits(s: Seq<char>) -> bool {
    forall|i: int| 0 <= i < s.len() ==> is_digit(#[trigger] s[i])
}

/// Numeric value of a digit string, most significant digit first.
pub open spec fn digits_val(s: Seq<char>) -> int
    decreases s.len(),
{
    if s.len() == 0 {
        0
    } else {
        digits_val(s.drop_last()) * 10 + digit_val(s.last())
    }
}

pub open spec fn digit_char(d: int) -> char {
    if d == 0 {
        '0'
    } else if d == 1 {
        '1'
    } else if d == 2 {
        '2'
    } else if d == 3 {
        '3'
    } else if d == 4 {
        '4'
    } else if d == 5 {
        '5'
    } else if d == 6 {
        '6'
    } else if d == 7 {
        '7'
    } else if d == 8 {
        '8'
    } else {
        '9'
    }
}

/// Canonical decimal rendering of a non-negative number: no sign, no
/// leading zero except for zero itself.
pub open spec fn spec_digits(n: int) -> Seq<char>
    decreases n,
{
    if n <= 9 {
        seq![digit_char(if n < 0 { 0 } else { n })]
    } else {
        spec_digits(n / 10).push(digit_char(n % 10))
    }
}

proof fn lemma_digit_char_val(d: int)
    requires
        0 <= d <= 9,
    ensures
        is_digit(digit_char(d)),
        digit_val(digit_char(d)) == d,
{
}

pub proof fn lemma_spec_digits_val(n: int)
    requires
        n >= 0,
    ensures
        spec_digits(n).len() >= 1,
        all_digits(spec_digits(n)),
        digits_val(spec_digits(n)) == n,
    decreases n,
{
    if n <= 9 {
        lemma_digit_char_val(n);
        let s = spec_digits(n);
        assert(s.drop_last() =~= Seq::<char>::empty());
        assert(s.last() == digit_char(n));
        assert(digits_val(s) == digits_val(s.drop_last()) * 10 + digit_val(s.last()));
    } else {
        lemma_spec_digits_val(n / 10);
        lemma_fundamental_div_mod(n, 10);
        lemma_digit_char_val(n % 10);
        let s = spec_digits(n);
        assert(s.drop_last() =~= spec_digits(n / 10));
        assert(s.last() == digit_char(n % 10));
        assert(digits_val(s) == digits_val(spec_digits(n / 10)) * 10 + digit_val(
            digit_char(n % 10),
        ));
        assert forall|i: int| 0 <= i < s.len() implies is_digit(#[trigger] s[i]) by {
            if i < s.len() - 1 {
                assert(s[i] == spec_digits(n / 10)[i]);
            }
        }
    }
}

pub proof fn lemma_digits_val_nonneg(s: Seq<char>)
    requires
        all_digits(s),
    ensures
        digits_val(s) >= 0,
    decreases s.len(),
{
    if s.len() > 0 {
        assert(all_digits(s.drop_last()));
        lemma_digits_val_nonneg(s.drop_last());
    }
}

/// Under `all_digits`, the value of a prefix never exceeds the value of the
/// whole string.
pub proof fn lemma_digits_val_take_mono(s: Seq<char>, k: int)
    requires
        all_digits(s),
        0 <= k <= s.len(),
    ensures
        digits_val(s.take(k)) <= digits_val(s),
    decreases s.len() - k,
{
    assert(all_digits(s.take(k)));
    if k < s.len() {
        lemma_digits_val_take_mono(s, k + 1);
        assert(s.take(k + 1).drop_last() =~= s.take(k));
        assert(s.take(k + 1).last() == s[k]);
        lemma_digits_val_nonneg(s.take(k));
    } else {
        assert(s.take(k) =~= s);
    }
}

// ---------------------------------------------------------------------------
// Decimal digits, executable
// ---------------------------------------------------------------------------
fn push_digit(s: &mut String, d: u64)
    requires
        d <= 9,
    ensures
        final(s)@ == old(s)@.push(digit_char(d as int)),
{
    if d == 0 {
        s.append("0");
    } else if d == 1 {
        s.append("1");
    } else if d == 2 {
        s.append("2");
    } else if d == 3 {
        s.append("3");
    } else if d == 4 {
        s.append("4");
    } else if d == 5 {
        s.append("5");
    } else if d == 6 {
        s.append("6");
    } else if d == 7 {
        s.append("7");
    } else if d == 8 {
        s.append("8");
    } else {
        s.append("9");
    }
    proof {
        reveal_strlit("0");
        reveal_strlit("1");
        reveal_strlit("2");
        reveal_strlit("3");
        reveal_strlit("4");
        reveal_strlit("5");
        reveal_strlit("6");
        reveal_strlit("7");
        reveal_strlit("8");
        reveal_strlit("9");
        assert(s@ =~= old(s)@.push(digit_char(d as int)));
    }
}

/// Decimal rendering of `n`.
pub fn fmt_u64(n: u64) -> (s: String)
    ensures
        s@ == spec_digits(n as int),
    decreases n,
{
    if n <= 9 {
        let mut s = String::new();
        push_digit(&mut s, n);
        proof {
            assert(s@ =~= spec_digits(n as int));
        }
        s
    } else {
        let mut s = fmt_u64(n / 10);
        push_digit(&mut s, n % 10);
        s
    }
}

/// Parse a decimal digit string, rejecting values above `limit`.
///
/// Returns the value exactly when the string is non-empty, all digits, and
/// its value is at most `limit`.
pub fn parse_u64_limit(s: &str, limit: u64) -> (r: Option<u64>)
    ensures
        r is Some <==> s@.len() > 0 && all_digits(s@) && digits_val(s@) <= limit,
        r matches Some(v) ==> v as int == digits_val(s@),
{
    let n = s.unicode_len();
    if n == 0 {
        return None;
    }
    let mut acc: u64 = 0;
    let mut i: usize = 0;
    while i < n
        invariant
            0 <= i <= n,
            n as nat == s@.len(),
            forall|j: int| 0 <= j < i ==> is_digit(#[trigger] s@[j]),
            acc as int == digits_val(s@.take(i as int)),
            acc <= limit,
        decreases n - i,
    {
        let c = s.get_char(i);
        let cu = c as u32;
        if cu < 48 || cu > 57 {
            assert(!is_digit(s@[i as int]));
            return None;
        }
        let d = (cu - 48) as u64;
        proof {
            assert(is_digit(s@[i as int]));
            assert(d as int == digit_val(s@[i as int]));
            assert(s@.take(i + 1).drop_last() =~= s@.take(i as int));
            assert(s@.take(i + 1).last() == s@[i as int]);
            lemma_fundamental_div_mod(limit as int, 10);
        }
        if acc > limit / 10 || (acc == limit / 10 && d > limit % 10) {
            proof {
                assert(digits_val(s@.take(i + 1)) > limit);
                if all_digits(s@) {
                    lemma_digits_val_take_mono(s@, i + 1);
                }
            }
            return None;
        }
        acc = acc * 10 + d;
        i = i + 1;
    }
    proof {
        assert(s@.take(n as int) =~= s@);
    }
    Some(acc)
}

/// Parse a decimal string as in `str::parse::<u64>`, without sign handling.
pub fn parse_u64(s: &str) -> (r: Option<u64>)
    ensures
        r is Some <==> s@.len() > 0 && all_digits(s@) && digits_val(s@) <= u64::MAX,
        r matches Some(v) ==> v as int == digits_val(s@),
{
    parse_u64_limit(s, u64::MAX)
}

/// What `parse_i64` accepts: an optional leading minus, then digits, with
/// the value in range for `i64`.
pub open spec fn spec_parse_i64(s: Seq<char>) -> Option<int> {
    if s.len() > 0 && s[0] == '-' {
        let ds = s.subrange(1, s.len() as int);
        if ds.len() > 0 && all_digits(ds) && -digits_val(ds) >= i64::MIN {
            Some(-digits_val(ds))
        } else {
            None
        }
    } else {
        if s.len() > 0 && all_digits(s) && digits_val(s) <= i64::MAX {
            Some(digits_val(s))
        } else {
            None
        }
    }
}

/// Parse a decimal string with an optional leading minus.
pub fn parse_i64(s: &str) -> (r: Option<i64>)
    ensures
        r is Some <==> spec_parse_i64(s@) is Some,
        r matches Some(v) ==> spec_parse_i64(s@) == Some(v as int),
{
    let n = s.unicode_len();
    if n == 0 {
        return None;
    }
    let c0 = s.get_char(0);
    if c0 == '-' {
        let ds = s.substring_char(1, n);
        // -(2^63) is representable; parse against that magnitude.
        match parse_u64_limit(ds, 9223372036854775808u64) {
            Some(v) => {
                let r: i64 = if v == 9223372036854775808u64 {
                    i64::MIN
                } else {
                    -((v) as i64)
                };
                Some(r)
            },
            None => None,
        }
    } else {
        match parse_u64_limit(s, i64::MAX as u64) {
            Some(v) => Some(v as i64),
            None => None,
        }
    }
}

/// Character-for-character equality of two strings.
pub fn str_eq(a: &str, b: &str) -> (r: bool)
    ensures
        r == (a@ == b@),
{
    let n = a.unicode_len();
    let m = b.unicode_len();
    if n != m {
        return false;
    }
    let mut i: usize = 0;
    while i < n
        invariant
            0 <= i <= n,
            n as nat == a@.len(),
            n as nat == b@.len(),
            forall|j: int| 0 <= j < i ==> a@[j] == b@[j],
        decreases n - i,
    {
        if a.get_char(i) != b.get_char(i) {
            return false;
        }
        i = i + 1;
    }
    proof {
        assert(a@ =~= b@);
    }
    true
}

// ---------------------------------------------------------------------------
// Decimal digits as bytes: the envelope's length prefix on the wire
// ---------------------------------------------------------------------------
pub open spec fn is_digit_byte(b: u8) -> bool {
    48 <= b <= 57
}

pub open spec fn digit_byte_val(b: u8) -> int {
    b - 48
}

pub open spec fn all_digit_bytes(s: Seq<u8>) -> bool {
    forall|i: int| 0 <= i < s.len() ==> is_digit_byte(#[trigger] s[i])
}

/// Numeric value of a digit byte string, most significant digit first.
pub open spec fn digit_bytes_val(s: Seq<u8>) -> int
    decreases s.len(),
{
    if s.len() == 0 {
        0
    } else {
        digit_bytes_val(s.drop_last()) * 10 + digit_byte_val(s.last())
    }
}

pub proof fn lemma_digit_bytes_val_nonneg(s: Seq<u8>)
    requires
        all_digit_bytes(s),
    ensures
        digit_bytes_val(s) >= 0,
    decreases s.len(),
{
    if s.len() > 0 {
        assert(all_digit_bytes(s.drop_last()));
        lemma_digit_bytes_val_nonneg(s.drop_last());
    }
}

/// Under `all_digit_bytes`, the value of a prefix never exceeds the value
/// of the whole string.
pub proof fn lemma_digit_bytes_val_take_mono(s: Seq<u8>, k: int)
    requires
        all_digit_bytes(s),
        0 <= k <= s.len(),
    ensures
        digit_bytes_val(s.take(k)) <= digit_bytes_val(s),
    decreases s.len() - k,
{
    assert(all_digit_bytes(s.take(k)));
    if k < s.len() {
        lemma_digit_bytes_val_take_mono(s, k + 1);
        assert(s.take(k + 1).drop_last() =~= s.take(k));
        assert(s.take(k + 1).last() == s[k]);
        lemma_digit_bytes_val_nonneg(s.take(k));
    } else {
        assert(s.take(k) =~= s);
    }
}

/// The UTF-8 bytes of a digit string are its digits' code units, one byte
/// per digit, never a colon, with the same numeric value.
proof fn lemma_digit_chars_bytes(s: Seq<char>)
    requires
        all_digits(s),
    ensures
        encode_utf8(s).len() == s.len(),
        all_digit_bytes(encode_utf8(s)),
        digit_bytes_val(encode_utf8(s)) == digits_val(s),
        forall|i: int| 0 <= i < encode_utf8(s).len() ==> #[trigger] encode_utf8(s)[i] != 58,
    decreases s.len(),
{
    assert(is_ascii_chars(s)) by {
        assert forall|i: int| 0 <= i < s.len() implies '\0' <= #[trigger] s[i] <= '\u{7f}' by {
            assert(is_digit(s[i]));
        }
    }
    vstd::utf8::is_ascii_chars_encode_utf8(s);
    let bs = encode_utf8(s);
    if s.len() > 0 {
        assert(all_digits(s.drop_last()));
        lemma_digit_chars_bytes(s.drop_last());
        assert(is_ascii_chars(s.drop_last())) by {
            assert forall|i: int| 0 <= i < s.drop_last().len() implies '\0' <= #[trigger] s.drop_last()[i]
                <= '\u{7f}' by {
                assert(s.drop_last()[i] == s[i]);
                assert(is_digit(s[i]));
            }
        }
        vstd::utf8::is_ascii_chars_encode_utf8(s.drop_last());
        assert(bs.drop_last() =~= encode_utf8(s.drop_last())) by {
            assert forall|i: int| 0 <= i < bs.len() - 1 implies bs.drop_last()[i] == encode_utf8(
                s.drop_last(),
            )[i] by {
                assert(bs[i] == s[i] as u8);
                assert(encode_utf8(s.drop_last())[i] == s.drop_last()[i] as u8);
                assert(s.drop_last()[i] == s[i]);
            }
        }
        assert(bs.last() == s.last() as u8);
        assert(is_digit(s.last()));
        assert(digit_byte_val(s.last() as u8) == digit_val(s.last()));
        assert(digit_bytes_val(bs) == digit_bytes_val(bs.drop_last()) * 10 + digit_byte_val(
            bs.last(),
        ));
    }
}

// ---------------------------------------------------------------------------
// The job envelope
// ---------------------------------------------------------------------------
/// The wire form of a job: `"{tag byte length}:{tag}{body}"` — the decimal
/// byte length of the type tag's UTF-8 encoding, a colon, the tag, the
/// body.
pub open spec fn spec_encode_job(job_type: Seq<char>, body: Seq<char>) -> Seq<char> {
    spec_digits(encode_utf8(job_type).len() as int) + ":"@ + job_type + body
}

/// Encode a job type tag and serialized body into one envelope string.
pub fn encode_job(job_type: &str, body: &str) -> (s: String)
    ensures
        s@ == spec_encode_job(job_type@, body@),
{
    let tag_bytes = job_type.as_bytes_vec();
    let len = tag_bytes.len();
    proof {
        assert(tag_bytes@ == job_type.spec_bytes());
        assert(job_type.spec_bytes() == encode_utf8(job_type@));
    }
    let mut s = fmt_u64(len as u64);
    s.append(":");
    s.append(job_type);
    s.append(body);
    s
}

/// Index of the first colon byte at or after `i`, if any.
pub open spec fn find_colon_byte(bs: Seq<u8>, i: int) -> Option<int>
    decreases bs.len() - i,
{
    if i < 0 || i >= bs.len() {
        None
    } else if bs[i] == 58 {
        Some(i)
    } else {
        find_colon_byte(bs, i + 1)
    }
}

proof fn lemma_find_colon_byte_step(bs: Seq<u8>, i: int)
    requires
        0 <= i < bs.len(),
        bs[i] != 58,
    ensures
        find_colon_byte(bs, i) == find_colon_byte(bs, i + 1),
{
}

proof fn lemma_find_colon_byte_at(bs: Seq<u8>, i: int, ci: int)
    requires
        0 <= i <= ci < bs.len(),
        bs[ci] == 58,
        forall|j: int| 0 <= j < ci ==> #[trigger] bs[j] != 58,
    ensures
        find_colon_byte(bs, i) == Some(ci),
    decreases ci - i,
{
    if i < ci {
        lemma_find_colon_byte_at(bs, i + 1, ci);
    }
}

fn find_colon_byte_exec(bs: &Vec<u8>) -> (r: Option<usize>)
    ensures
        r matches Some(ci) ==> (find_colon_byte(bs@, 0) == Some(ci as int) && (ci as int)
            < bs@.len() && bs@[ci as int] == 58),
        r is None ==> find_colon_byte(bs@, 0) is None,
{
    let n = bs.len();
    let mut i: usize = 0;
    while i < n
        invariant
            0 <= i <= n,
            n as nat == bs@.len(),
            find_colon_byte(bs@, 0) == find_colon_byte(bs@, i as int),
        decreases n - i,
    {
        if bs[i] == 58 {
            return Some(i);
        }
        proof {
            lemma_find_colon_byte_step(bs@, i as int);
        }
        i = i + 1;
    }
    None
}

/// Parse the envelope's length prefix: the first `end` bytes as a decimal,
/// rejecting values above `limit`.
fn parse_len_bytes(bs: &Vec<u8>, end: usize, limit: u64) -> (r: Option<u64>)
    requires
        end as int <= bs@.len(),
    ensures
        r is Some <==> (end > 0 && all_digit_bytes(bs@.take(end as int)) && digit_bytes_val(
            bs@.take(end as int),
        ) <= limit),
        r matches Some(v) ==> v as int == digit_bytes_val(bs@.take(end as int)),
{
    if end == 0 {
        return None;
    }
    let mut acc: u64 = 0;
    let mut i: usize = 0;
    while i < end
        invariant
            0 <= i <= end,
            end as int <= bs@.len(),
            forall|j: int| 0 <= j < i ==> is_digit_byte(#[trigger] bs@[j]),
            acc as int == digit_bytes_val(bs@.take(i as int)),
            acc <= limit,
        decreases end - i,
    {
        let b = bs[i];
        if b < 48 || b > 57 {
            proof {
                assert(bs@.take(end as int)[i as int] == bs@[i as int]);
                assert(!is_digit_byte(bs@.take(end as int)[i as int]));
            }
            return None;
        }
        let d = (b - 48) as u64;
        proof {
            assert(bs@.take(i as int + 1).drop_last() =~= bs@.take(i as int));
            assert(bs@.take(i as int + 1).last() == bs@[i as int]);
            lemma_fundamental_div_mod(limit as int, 10);
        }
        if acc > limit / 10 || (acc == limit / 10 && d > limit % 10) {
            proof {
                assert(digit_bytes_val(bs@.take(i as int + 1)) > limit);
                if all_digit_bytes(bs@.take(end as int)) {
                    lemma_digit_bytes_val_take_mono(bs@.take(end as int), i as int + 1);
                    assert(bs@.take(end as int).take(i as int + 1) =~= bs@.take(i as int + 1));
                }
            }
            return None;
        }
        acc = acc * 10 + d;
        i = i + 1;
    }
    proof {
        assert forall|j: int| 0 <= j < end implies is_digit_byte(
            #[trigger] bs@.take(end as int)[j],
        ) by {
            assert(bs@.take(end as int)[j] == bs@[j]);
        }
    }
    Some(acc)
}

/// What `decode_job` accepts, over the UTF-8 bytes of its input, and the
/// byte ranges of the tag and body it yields: everything before the first
/// colon is the tag's decimal byte length, and the tag ends that many bytes
/// after the colon, on a character boundary.
pub open spec fn spec_decode_job(bs: Seq<u8>) -> Option<(Seq<u8>, Seq<u8>)> {
    match find_colon_byte(bs, 0) {
        None => None,
        Some(ci) => {
            let lenpart = bs.subrange(0, ci);
            let rest = bs.subrange(ci + 1, bs.len() as int);
            if lenpart.len() == 0 || !all_digit_bytes(lenpart) {
                None
            } else if digit_bytes_val(lenpart) > usize::MAX as int {
                None
            } else if digit_bytes_val(lenpart) > rest.len() {
                None
            } else if !is_char_boundary(bs, ci + 1) {
                None
            } else if !is_char_boundary(rest, digit_bytes_val(lenpart)) {
                None
            } else {
                Some(
                    (
                        rest.subrange(0, digit_bytes_val(lenpart)),
                        rest.subrange(digit_bytes_val(lenpart), rest.len() as int),
                    ),
                )
            }
        },
    }
}

/// Split an envelope string into its type tag and serialized body.
///
/// Any string that does not parse as an envelope — no colon, a non-numeric
/// or empty length, a length larger than what follows the colon, or a
/// length that would cut a character in half — is rejected as invalid job
/// data carrying the offending string.
pub fn decode_job<'a>(mcontent: &'a str) -> (r: YqResult<(&'a str, &'a str)>)
    ensures
        r is Ok <==> spec_decode_job(mcontent.spec_bytes()) is Some,
        r matches Ok(p) ==> spec_decode_job(mcontent.spec_bytes()) == Some(
            (p.0.spec_bytes(), p.1.spec_bytes()),
        ),
        r matches Err(e) ==> (e matches YqError::InvalidJobData(d) && d@ == mcontent@),
{
    let bs = mcontent.as_bytes_vec();
    let n = bs.len();
    let ci = match find_colon_byte_exec(&bs) {
        Some(ci) => ci,
        None => {
            return Err(YqError::InvalidJobData(mcontent.to_owned()));
        },
    };
    proof {
        assert(bs@.take(ci as int) =~= bs@.subrange(0, ci as int));
    }
    let type_len = match parse_len_bytes(&bs, ci, usize::MAX as u64) {
        Some(v) => v,
        None => {
            return Err(YqError::InvalidJobData(mcontent.to_owned()));
        },
    };
    proof {
        lemma_digit_bytes_val_nonneg(bs@.subrange(0, ci as int));
    }
    let type_len = type_len as usize;
    let rest_len = n - ci - 1;
    if type_len > rest_len {
        return Err(YqError::InvalidJobData(mcontent.to_owned()));
    }
    if !mcontent.is_char_boundary(ci + 1) {
        return Err(YqError::InvalidJobData(mcontent.to_owned()));
    }
    let (_, tail) = mcontent.split_at(ci + 1);
    if !tail.is_char_boundary(type_len) {
        return Err(YqError::InvalidJobData(mcontent.to_owned()));
    }
    let (job_type, job_data) = tail.split_at(type_len);
    proof {
        let rest = mcontent.spec_bytes().subrange(ci + 1, mcontent.spec_bytes().len() as int);
        assert(tail.spec_bytes() == rest);
        assert(job_type.spec_bytes() == rest.subrange(0, type_len as int));
        assert(job_data.spec_bytes() == rest.subrange(type_len as int, rest.len() as int));
    }
    Ok((job_type, job_data))
}

// ---------------------------------------------------------------------------
// The envelope round trip
// ---------------------------------------------------------------------------
/// UTF-8 encoding distributes over concatenation.
proof fn lemma_encode_utf8_concat(a: Seq<char>, b: Seq<char>)
    ensures
        encode_utf8(a + b) == encode_utf8(a) + encode_utf8(b),
    decreases a.len(),
{
    if a.len() == 0 {
        assert(a + b =~= b);
        assert(encode_utf8(a) + encode_utf8(b) =~= encode_utf8(b));
    } else {
        assert((a + b)[0] == a[0]);
        assert((a + b).drop_first() =~= a.drop_first() + b);
        lemma_encode_utf8_concat(a.drop_first(), b);
        assert(encode_utf8(a + b) =~= encode_utf8(a) + encode_utf8(b)) by {
            assert(encode_utf8(a + b) == encode_scalar(a[0] as u32) + (encode_utf8(a.drop_first())
                + encode_utf8(b)));
            assert(encode_utf8(a) == encode_scalar(a[0] as u32) + encode_utf8(a.drop_first()));
        }
    }
}

/// The length of an encoded prefix of a character sequence is a character
/// boundary of the whole encoding.
proof fn lemma_encode_prefix_boundary(s: Seq<char>, k: int)
    requires
        0 <= k <= s.len(),
    ensures
        is_char_boundary(encode_utf8(s), encode_utf8(s.take(k)).len() as int),
    decreases k,
{
    broadcast use vstd::utf8::encode_utf8_valid_utf8;

    if k == 0 {
        assert(s.take(0) =~= Seq::<char>::empty());
        assert(encode_utf8(s.take(0)).len() == 0);
    } else {
        let bytes = encode_utf8(s);
        let esl = encode_scalar(s[0] as u32).len() as int;
        vstd::utf8::encode_utf8_first_scalar(s);
        assert(pop_first_scalar(bytes) =~= encode_utf8(s.drop_first()));
        assert(s.take(k)[0] == s[0]);
        assert(s.take(k).drop_first() =~= s.drop_first().take(k - 1));
        let pos = encode_utf8(s.take(k)).len() as int;
        assert(pos == esl + encode_utf8(s.drop_first().take(k - 1)).len());
        assert(esl >= 1);
        assert(encode_utf8(s.drop_first().take(k - 1)).len() <= encode_utf8(
            s.drop_first(),
        ).len()) by {
            assert(s.drop_first().take(k - 1) + s.drop_first().skip(k - 1) =~= s.drop_first());
            lemma_encode_utf8_concat(s.drop_first().take(k - 1), s.drop_first().skip(k - 1));
        }
        assert(bytes.len() == esl + encode_utf8(s.drop_first()).len());
        lemma_encode_prefix_boundary(s.drop_first(), k - 1);
        assert(is_char_boundary(bytes, pos));
    }
}

/// Round trip of the envelope: the bytes of an encoded job decode back
/// into exactly the tag's bytes and the body's bytes, whatever characters
/// they hold.
pub proof fn lemma_job_envelope_round_trip(job_type: Seq<char>, body: Seq<char>)
    requires
        encode_utf8(job_type).len() <= usize::MAX,
    ensures
        ({
            let bs = encode_utf8(spec_encode_job(job_type, body));
            spec_decode_job(bs) == Some((encode_utf8(job_type), encode_utf8(body)))
        }),
{
    let tl = encode_utf8(job_type).len() as int;
    let digits = spec_digits(tl);
    lemma_spec_digits_val(tl);
    lemma_digit_chars_bytes(digits);
    let enc = spec_encode_job(job_type, body);
    let bs = encode_utf8(enc);
    let dbs = encode_utf8(digits);
    let d = dbs.len() as int;
    reveal_strlit(":");
    assert(":"@.len() == 1);
    assert(":"@[0] == ':');
    assert(is_ascii_chars(":"@)) by {
        assert('\0' <= ':' <= '\u{7f}');
    }
    vstd::utf8::is_ascii_chars_encode_utf8(":"@);
    let cbs = encode_utf8(":"@);
    assert(cbs.len() == 1);
    assert(cbs[0] == ':' as u8);
    assert(':' as u8 == 58);
    lemma_encode_utf8_concat(digits + ":"@ + job_type, body);
    lemma_encode_utf8_concat(digits + ":"@, job_type);
    lemma_encode_utf8_concat(digits, ":"@);
    assert(bs =~= dbs + cbs + encode_utf8(job_type) + encode_utf8(body));
    // the first colon byte sits right after the digit bytes
    assert(bs[d] == 58);
    assert forall|j: int| 0 <= j < d implies #[trigger] bs[j] != 58 by {
        assert(bs[j] == dbs[j]);
    }
    lemma_find_colon_byte_at(bs, 0, d);
    let lenpart = bs.subrange(0, d);
    let rest = bs.subrange(d + 1, bs.len() as int);
    assert(lenpart =~= dbs);
    assert(rest =~= encode_utf8(job_type) + encode_utf8(body));
    assert(digit_bytes_val(lenpart) == tl);
    assert(tl <= rest.len());
    // the byte after the colon starts a character: it ends the encoding of
    // the digits-and-colon prefix
    assert(enc.take(digits.len() as int + 1) =~= digits + ":"@);
    lemma_encode_prefix_boundary(enc, digits.len() as int + 1);
    assert(encode_utf8(digits + ":"@).len() == d + 1);
    assert(is_char_boundary(bs, d + 1));
    // the split point inside the rest ends the tag's encoding
    lemma_encode_utf8_concat(job_type, body);
    assert(rest =~= encode_utf8(job_type + body));
    assert((job_type + body).take(job_type.len() as int) =~= job_type);
    lemma_encode_prefix_boundary(job_type + body, job_type.len() as int);
    assert(is_char_boundary(rest, tl));
    assert(rest.subrange(0, tl) =~= encode_utf8(job_type));
    assert(rest.subrange(tl, rest.len() as int) =~= encode_utf8(body));
}

} // verus!
