//! Comma-separated text fields of farm acknowledgements, and decimal numbers in them.

use vstd::prelude::*;

use crate::text::{digit_char, nat_text};
use crate::wire::{first_occurrence_from, find_occurrence, occurs_at, occurs_here};

verus! {

/// Whether a byte is ASCII white space (tab, line feed, vertical tab, form
/// feed, carriage return, space).
pub open spec fn is_space(b: u8) -> bool {
    (0x09 <= b && b <= 0x0D) || b == 0x20
}

/// Whether a byte is an ASCII decimal digit.
pub open spec fn is_digit(b: u8) -> bool {
    0x30 <= b && b <= 0x39
}

/// Index of the first `c` in `s` at or after `k`, or -1.
pub open spec fn first_byte_from(s: Seq<u8>, c: u8, k: int) -> int
    decreases s.len() - k,
    when 0 <= k <= s.len()
{
    if k >= s.len() {
        -1
    } else if s[k] == c {
        k
    } else {
        first_byte_from(s, c, k + 1)
    }
}

/// `first_byte_from` is -1 or the least index at or after `k` holding `c`.
pub proof fn lemma_first_byte_from_bounds(s: Seq<u8>, c: u8, k: int)
    requires
        0 <= k <= s.len(),
    ensures
        first_byte_from(s, c, k) == -1 || (k <= first_byte_from(s, c, k) < s.len() && s[first_byte_from(s, c, k)] == c),
        forall|i: int| k <= i < s.len() && (first_byte_from(s, c, k) == -1 || i < first_byte_from(s, c, k)) ==> s[i] != c,
    decreases s.len() - k,
{
    if k < s.len() && s[k] != c {
        lemma_first_byte_from_bounds(s, c, k + 1);
    }
}

/// `s` without leading ASCII white space.
pub open spec fn trim_start(s: Seq<u8>) -> Seq<u8>
    decreases s.len(),
{
    if s.len() > 0 && is_space(s[0]) {
        trim_start(s.drop_first())
    } else {
        s
    }
}

/// `s` without trailing ASCII white space.
pub open spec fn trim_end(s: Seq<u8>) -> Seq<u8>
    decreases s.len(),
{
    if s.len() > 0 && is_space(s.last()) {
        trim_end(s.drop_last())
    } else {
        s
    }
}

/// The comma-separated fields of `s` from index `k` on.
pub open spec fn split_commas_from(s: Seq<u8>, k: int) -> Seq<Seq<u8>>
    decreases s.len() - k,
    when 0 <= k <= s.len()
{
    let j = first_byte_from(s, 0x2C, k);
    proof {
        lemma_first_byte_from_bounds(s, 0x2C, k);
    }
    if j == -1 {
        seq![s.subrange(k, s.len() as int)]
    } else {
        seq![s.subrange(k, j)] + split_commas_from(s, j + 1)
    }
}

/// The comma-separated fields of `s` (one more than the number of commas).
pub open spec fn split_commas(s: Seq<u8>) -> Seq<Seq<u8>> {
    split_commas_from(s, 0)
}

/// Value of a string of decimal digits.
pub open spec fn digits_value(d: Seq<u8>) -> int
    decreases d.len(),
{
    if d.len() == 0 {
        0
    } else {
        digits_value(d.drop_last()) * 10 + (d.last() - 0x30)
    }
}

/// Whether every byte of `d` is a decimal digit.
pub open spec fn all_digits(d: Seq<u8>) -> bool {
    forall|i: int| 0 <= i < d.len() ==> is_digit(#[trigger] d[i])
}

/// An unsigned decimal number as `str::parse::<u32>` reads it: an optional
/// `+`, then at least one digit, and a value that fits in `u32`.
pub open spec fn parse_u32_text(s: Seq<u8>) -> Option<u32> {
    let d = if s.len() > 0 && s[0] == 0x2B { s.drop_first() } else { s };
    if d.len() == 0 || !all_digits(d) || digits_value(d) > u32::MAX {
        None
    } else {
        Some(digits_value(d) as u32)
    }
}

/// A signed decimal number as `str::parse::<i64>` reads it: an optional `+`
/// or `-`, then at least one digit, and a value that fits in `i64`.
pub open spec fn parse_i64_text(s: Seq<u8>) -> Option<i64> {
    let neg = s.len() > 0 && s[0] == 0x2D;
    let d = if s.len() > 0 && (s[0] == 0x2B || s[0] == 0x2D) { s.drop_first() } else { s };
    let v = if neg { -digits_value(d) } else { digits_value(d) };
    if d.len() == 0 || !all_digits(d) || v < i64::MIN || v > i64::MAX {
        None
    } else {
        Some(v as i64)
    }
}

/// The text of an acknowledgement body: the bytes before its signature
/// (`SOH 8349=`), without surrounding white space.
pub open spec fn ack_text(body: Seq<u8>) -> Seq<u8> {
    let cut = match first_occurrence_from(body, signature_tag(), 0) {
        Some(k) => body.subrange(0, k),
        None => body,
    };
    trim_end(trim_start(cut))
}

/// The bytes that start the signature of a message.
pub open spec fn signature_tag() -> Seq<u8> {
    seq![0x01u8, 0x38u8, 0x33u8, 0x34u8, 0x39u8, 0x3Du8]
}

/// Index of the first `c` in `s` at or after `k` (see `first_byte_from`).
pub(crate) fn find_byte(s: &[u8], c: u8, k: usize) -> (r: Option<usize>)
    requires
        k <= s@.len(),
    ensures
        match r {
            Some(j) => first_byte_from(s@, c, k as int) == j as int && j < s@.len(),
            None => first_byte_from(s@, c, k as int) == -1,
        },
{
    let n = s.len();
    let mut j = k;
    while j < n
        invariant
            n == s@.len(),
            k <= j <= n,
            first_byte_from(s@, c, k as int) == first_byte_from(s@, c, j as int),
        decreases n - j,
    {
        if s[j] == c {
            return Some(j);
        }
        j = j + 1;
    }
    None
}

/// Splits `s` at its commas.
pub fn split_commas_exec<'a>(s: &'a [u8]) -> (v: Vec<&'a [u8]>)
    ensures
        v@.map_values(|f: &[u8]| f@) == split_commas(s@),
{
    let n = s.len();
    let mut v: Vec<&'a [u8]> = Vec::new();
    let mut k: usize = 0;
    let ghost total = split_commas(s@);
    assert(v@.map_values(|f: &[u8]| f@) + split_commas_from(s@, 0) =~= total);
    loop
        invariant
            n == s@.len(),
            k <= n,
            total == split_commas(s@),
            v@.map_values(|f: &[u8]| f@) + split_commas_from(s@, k as int) == total,
        decreases n - k,
    {
        let ghost before = v@.map_values(|f: &[u8]| f@);
        proof {
            lemma_first_byte_from_bounds(s@, 0x2C, k as int);
        }
        match find_byte(s, 0x2C, k) {
            None => {
                let piece = &s[k..n];
                v.push(piece);
                proof {
                    assert(split_commas_from(s@, k as int) == seq![piece@]);
                    assert(v@.map_values(|f: &[u8]| f@) =~= before.push(piece@));
                    assert(v@.map_values(|f: &[u8]| f@) =~= total);
                }
                return v;
            },
            Some(j) => {
                let piece = &s[k..j];
                v.push(piece);
                proof {
                    assert(v@.map_values(|f: &[u8]| f@) =~= before.push(piece@));
                    assert(before.push(piece@) + split_commas_from(s@, j + 1) =~= before + (seq![piece@] + split_commas_from(s@, j + 1)));
                }
                k = j + 1;
            },
        }
    }
}

/// `s` without surrounding ASCII white space.
pub fn trim_ascii<'a>(s: &'a [u8]) -> (t: &'a [u8])
    ensures
        t@ == trim_end(trim_start(s@)),
{
    let n = s.len();
    let mut a: usize = 0;
    assert(s@.subrange(0, n as int) =~= s@);
    while a < n && (s[a] == 0x20 || (0x09 <= s[a] && s[a] <= 0x0D))
        invariant
            n == s@.len(),
            a <= n,
            trim_start(s@) == trim_start(s@.subrange(a as int, n as int)),
        decreases n - a,
    {
        assert(s@.subrange(a as int, n as int).drop_first() =~= s@.subrange(a + 1, n as int));
        a = a + 1;
    }
    let ghost front = s@.subrange(a as int, n as int);
    assert(trim_start(front) == front);
    let mut b: usize = n;
    while b > a && (s[b - 1] == 0x20 || (0x09 <= s[b - 1] && s[b - 1] <= 0x0D))
        invariant
            n == s@.len(),
            a <= b <= n,
            front == s@.subrange(a as int, n as int),
            trim_end(front) == trim_end(s@.subrange(a as int, b as int)),
        decreases b,
    {
        assert(s@.subrange(a as int, b as int).drop_last() =~= s@.subrange(a as int, b - 1));
        b = b - 1;
    }
    &s[a..b]
}

/// The value of the digit string `d` when it is non-empty, all digits, and
/// at most `limit`.
pub open spec fn bounded_digits(d: Seq<u8>, limit: int) -> Option<u64> {
    if d.len() == 0 || !all_digits(d) || digits_value(d) > limit {
        None
    } else {
        Some(digits_value(d) as u64)
    }
}

/// Reads a digit string whose value is at most `limit` (see `bounded_digits`).
pub fn parse_digits(d: &[u8], limit: u64) -> (r: Option<u64>)
    ensures
        r == bounded_digits(d@, limit as int),
        r is Some ==> r->0 == digits_value(d@) && 0 <= digits_value(d@) <= limit,
{
    let n = d.len();
    if n == 0 {
        return None;
    }
    let mut v: u64 = 0;
    let mut i: usize = 0;
    assert(d@.take(0) =~= Seq::<u8>::empty());
    while i < n
        invariant
            n == d@.len(),
            i <= n,
            all_digits(d@.take(i as int)),
            v == digits_value(d@.take(i as int)),
            v <= limit,
        decreases n - i,
    {
        let c = d[i];
        proof {
            assert(d@.take(i + 1).drop_last() =~= d@.take(i as int));
        }
        if c < 0x30 || c > 0x39 {
            proof {
                assert(!is_digit(d@[i as int]));
            }
            return None;
        }
        let digit: u64 = (c - 0x30) as u64;
        proof {
            assert(all_digits(d@.take(i + 1))) by {
                assert forall|q: int| 0 <= q < d@.take(i + 1).len() implies is_digit(#[trigger] d@.take(i + 1)[q]) by {
                    if q < i {
                        assert(d@.take(i + 1)[q] == d@.take(i as int)[q]);
                    }
                }
            }
        }
        if digit > limit || v > (limit - digit) / 10 {
            proof {
                assert(v * 10 + digit > limit) by (nonlinear_arith)
                    requires digit > limit || v > (limit - digit) / 10, v >= 0;
                if all_digits(d@) {
                    lemma_digits_value_take_le(d@, i + 1);
                }
            }
            return None;
        }
        proof {
            assert(v * 10 + digit <= limit) by (nonlinear_arith)
                requires v <= (limit - digit) / 10, digit <= limit;
        }
        v = v * 10 + digit;
        i = i + 1;
    }
    assert(d@.take(n as int) =~= d@);
    proof {
        lemma_digits_value_nonneg(d@);
    }
    Some(v)
}

/// Reads an unsigned decimal number (see `parse_u32_text`).
pub fn parse_u32(s: &[u8]) -> (r: Option<u32>)
    ensures
        r == parse_u32_text(s@),
{
    let n = s.len();
    let start: usize = if n > 0 && s[0] == 0x2B { 1 } else { 0 };
    let d = &s[start..n];
    assert(d@ =~= (if s@.len() > 0 && s@[0] == 0x2B { s@.drop_first() } else { s@ }));
    match parse_digits(d, 0xFFFF_FFFF) {
        Some(v) => Some(v as u32),
        None => None,
    }
}

/// Reads a signed decimal number (see `parse_i64_text`).
pub fn parse_i64(s: &[u8]) -> (r: Option<i64>)
    ensures
        r == parse_i64_text(s@),
{
    let n = s.len();
    let neg = n > 0 && s[0] == 0x2D;
    let start: usize = if n > 0 && (s[0] == 0x2B || s[0] == 0x2D) { 1 } else { 0 };
    let d = &s[start..n];
    assert(d@ =~= (if s@.len() > 0 && (s@[0] == 0x2B || s@[0] == 0x2D) { s@.drop_first() } else { s@ }));
    if neg {
        match parse_digits(d, 0x8000_0000_0000_0000) {
            Some(v) => {
                if v == 0x8000_0000_0000_0000 {
                    Some(i64::MIN)
                } else {
                    Some(-(v as i64))
                }
            },
            None => None,
        }
    } else {
        match parse_digits(d, 0x7FFF_FFFF_FFFF_FFFF) {
            Some(v) => Some(v as i64),
            None => None,
        }
    }
}

/// A prefix of a digit string has no larger value than the whole string.
pub proof fn lemma_digits_value_take_le(d: Seq<u8>, k: int)
    requires
        0 <= k <= d.len(),
        all_digits(d),
    ensures
        digits_value(d.take(k)) <= digits_value(d),
    decreases d.len(),
{
    if k < d.len() {
        let e = d.drop_last();
        assert(all_digits(e)) by {
            assert forall|i: int| 0 <= i < e.len() implies is_digit(#[trigger] e[i]) by {
                assert(e[i] == d[i]);
            }
        }
        lemma_digits_value_take_le(e, k);
        assert(e.take(k) =~= d.take(k));
        lemma_digits_value_nonneg(e);
        assert(is_digit(d[d.len() - 1]));
    } else {
        assert(d.take(k) =~= d);
    }
}

/// A digit string has a non-negative value.
pub proof fn lemma_digits_value_nonneg(d: Seq<u8>)
    requires
        all_digits(d),
    ensures
        digits_value(d) >= 0,
    decreases d.len(),
{
    if d.len() > 0 {
        assert(all_digits(d.drop_last())) by {
            assert forall|i: int| 0 <= i < d.drop_last().len() implies is_digit(#[trigger] d.drop_last()[i]) by {
                assert(d.drop_last()[i] == d[i]);
            }
        }
        lemma_digits_value_nonneg(d.drop_last());
        assert(is_digit(d[d.len() - 1]));
    }
}

/// The text of an acknowledgement body (see `ack_text`).
pub fn ack_text_exec<'a>(body: &'a [u8]) -> (t: &'a [u8])
    ensures
        t@ == ack_text(body@),
{
    let sig: [u8; 6] = [0x01, 0x38, 0x33, 0x34, 0x39, 0x3D];
    assert(sig@ == signature_tag());
    let cut = match find_occurrence(body, &sig) {
        Some(k) => {
            proof {
                lemma_first_occurrence_bounds(body@, signature_tag(), 0);
            }
            &body[0..k]
        },
        None => body,
    };
    trim_ascii(cut)
}

/// `first_occurrence_from` lies inside the sequence.
pub proof fn lemma_first_occurrence_bounds(msg: Seq<u8>, pat: Seq<u8>, k: int)
    requires
        0 <= k <= msg.len() + 1,
    ensures
        first_occurrence_from(msg, pat, k) matches Some(j) ==> k <= j && j + pat.len() <= msg.len(),
    decreases msg.len() + 1 - k,
{
    if k + pat.len() <= msg.len() && !crate::wire::occurs_at(msg, pat, k) {
        lemma_first_occurrence_bounds(msg, pat, k + 1);
    }
}

/// What a market-data acknowledgement (35=Q) body says, as
/// `(server_tag, req_id, min_tick text)`: its text has at least three
/// comma-separated fields, the first two unsigned numbers.
pub open spec fn subscription_ack_of(body: Seq<u8>) -> Option<(u32, u32, Seq<u8>)> {
    let f = split_commas(ack_text(body));
    if f.len() < 3 {
        None
    } else {
        match (parse_u32_text(f[0]), parse_u32_text(f[1])) {
            (Some(tag), Some(req)) => Some((tag, req, f[2])),
            _ => None,
        }
    }
}

/// What a ticker-setup message (35=L) body says, as
/// `(con_id, min_tick text, server_tag)`: its text has at least three
/// comma-separated fields, the first a signed and the third an unsigned number.
pub open spec fn ticker_setup_of(body: Seq<u8>) -> Option<(i64, Seq<u8>, u32)> {
    let f = split_commas(ack_text(body));
    if f.len() < 3 {
        None
    } else {
        match (parse_i64_text(f[0]), parse_u32_text(f[2])) {
            (Some(con_id), Some(tag)) => Some((con_id, f[1], tag)),
            _ => None,
        }
    }
}

/// Reads a market-data acknowledgement body (see `subscription_ack_of`).
/// White space is ASCII white space.
pub fn parse_subscription_ack<'a>(body: &'a [u8]) -> (r: Option<(u32, u32, &'a [u8])>)
    ensures
        match r {
            Some((tag, req, mt)) => subscription_ack_of(body@) == Some((tag, req, mt@)),
            None => subscription_ack_of(body@) is None,
        },
{
    let text = ack_text_exec(body);
    let parts = split_commas_exec(text);
    proof {
        assert(parts@.map_values(|f: &[u8]| f@).len() == parts@.len());
    }
    if parts.len() < 3 {
        return None;
    }
    proof {
        assert(parts@.map_values(|f: &[u8]| f@)[0] == parts@[0]@);
        assert(parts@.map_values(|f: &[u8]| f@)[1] == parts@[1]@);
        assert(parts@.map_values(|f: &[u8]| f@)[2] == parts@[2]@);
    }
    let tag = match parse_u32(parts[0]) {
        Some(v) => v,
        None => return None,
    };
    let req = match parse_u32(parts[1]) {
        Some(v) => v,
        None => return None,
    };
    Some((tag, req, parts[2]))
}

/// Reads a ticker-setup body (see `ticker_setup_of`).
/// White space is ASCII white space.
pub fn parse_ticker_setup<'a>(body: &'a [u8]) -> (r: Option<(i64, &'a [u8], u32)>)
    ensures
        match r {
            Some((con_id, mt, tag)) => ticker_setup_of(body@) == Some((con_id, mt@, tag)),
            None => ticker_setup_of(body@) is None,
        },
{
    let text = ack_text_exec(body);
    let parts = split_commas_exec(text);
    proof {
        assert(parts@.map_values(|f: &[u8]| f@).len() == parts@.len());
    }
    if parts.len() < 3 {
        return None;
    }
    proof {
        assert(parts@.map_values(|f: &[u8]| f@)[0] == parts@[0]@);
        assert(parts@.map_values(|f: &[u8]| f@)[1] == parts@[1]@);
        assert(parts@.map_values(|f: &[u8]| f@)[2] == parts@[2]@);
    }
    let con_id = match parse_i64(parts[0]) {
        Some(v) => v,
        None => return None,
    };
    let tag = match parse_u32(parts[2]) {
        Some(v) => v,
        None => return None,
    };
    Some((con_id, parts[1], tag))
}


/// Whether a field starts at index `k` of a FIX message (at the start, or
/// after a field separator).
pub open spec fn field_start(msg: Seq<u8>, k: int) -> bool {
    k == 0 || (0 < k <= msg.len() && msg[k - 1] == 0x01)
}

/// The first index at or after `k` where a field starts with `pat`.
pub open spec fn field_find(msg: Seq<u8>, pat: Seq<u8>, k: int) -> Option<int>
    decreases msg.len() + 1 - k,
    when 0 <= k <= msg.len() + 1
{
    if k + pat.len() > msg.len() {
        None
    } else if field_start(msg, k) && occurs_at(msg, pat, k) {
        Some(k)
    } else {
        field_find(msg, pat, k + 1)
    }
}

proof fn lemma_field_find_bounds(msg: Seq<u8>, pat: Seq<u8>, k: int)
    requires
        0 <= k <= msg.len() + 1,
    ensures
        field_find(msg, pat, k) matches Some(j) ==> k <= j && j + pat.len() <= msg.len(),
    decreases msg.len() + 1 - k,
{
    if k + pat.len() <= msg.len() && !(field_start(msg, k) && occurs_at(msg, pat, k)) {
        lemma_field_find_bounds(msg, pat, k + 1);
    }
}

/// The value of the first field of a FIX message with tag text `tag`: the
/// bytes after `tag=` up to the next field separator or the end.
pub open spec fn field_value(msg: Seq<u8>, tag: Seq<u8>) -> Option<Seq<u8>> {
    let pat = tag.push(0x3D);
    match field_find(msg, pat, 0) {
        Some(k) => {
            let v = k + pat.len();
            let e = first_byte_from(msg, 0x01, v);
            Some(msg.subrange(v, if e == -1 { msg.len() as int } else { e }))
        },
        None => None,
    }
}

/// The value of the first field with tag text `tag` (see `field_value`).
pub fn fix_field<'a>(msg: &'a [u8], tag: &[u8]) -> (r: Option<&'a [u8]>)
    ensures
        match r {
            Some(v) => field_value(msg@, tag@) == Some(v@),
            None => field_value(msg@, tag@) is None,
        },
{
    let mut pat: Vec<u8> = Vec::new();
    let mut i: usize = 0;
    while i < tag.len()
        invariant
            i <= tag@.len(),
            pat@ == tag@.take(i as int),
        decreases tag@.len() - i,
    {
        pat.push(tag[i]);
        i = i + 1;
        assert(pat@ =~= tag@.take(i as int));
    }
    pat.push(0x3D);
    assert(pat@ =~= tag@.push(0x3D));
    let n = msg.len();
    let m = pat.len();
    if m > n {
        return None;
    }
    let mut k: usize = 0;
    while k <= n - m
        invariant
            n == msg@.len(),
            m == pat@.len(),
            pat@ == tag@.push(0x3D),
            1 <= m <= n,
            k <= n - m + 1,
            field_find(msg@, pat@, 0) == field_find(msg@, pat@, k as int),
        decreases n - m + 1 - k,
    {
        if (k == 0 || msg[k - 1] == 0x01) && occurs_here(msg, pat.as_slice(), k) {
            let v = k + m;
            proof {
                assert(field_start(msg@, k as int));
                assert(field_find(msg@, pat@, k as int) == Some(k as int));
                lemma_first_byte_from_bounds(msg@, 0x01, v as int);
            }
            return match find_byte(msg, 0x01, v) {
                Some(e) => Some(&msg[v..e]),
                None => Some(&msg[v..n]),
            };
        }
        k = k + 1;
    }
    None
}

/// The bytes of an ASCII text.
pub open spec fn ascii_bytes(s: Seq<char>) -> Seq<u8> {
    s.map_values(|c: char| c as u8)
}

/// The bytes of the decimal text of `n` are digits, without a sign, and
/// their value is `n`.
pub proof fn lemma_nat_text_digits(n: nat)
    ensures
        ascii_bytes(nat_text(n)).len() > 0,
        all_digits(ascii_bytes(nat_text(n))),
        digits_value(ascii_bytes(nat_text(n))) == n,
        ascii_bytes(nat_text(n))[0] != 0x2B,
    decreases n,
{
    let t = ascii_bytes(nat_text(n));
    if n < 10 {
        assert(nat_text(n) == seq![digit_char(n as int)]);
        assert((((n + 48) as char) as u8) as int == n + 48);
        assert(t =~= seq![(n + 48) as u8]);
        assert(t.drop_last() =~= Seq::<u8>::empty());
        assert(digits_value(t) == digits_value(t.drop_last()) * 10 + (t.last() - 0x30));
        assert(digits_value(Seq::<u8>::empty()) == 0);
    } else {
        lemma_nat_text_digits(n / 10);
        let h = ascii_bytes(nat_text(n / 10));
        let d = digit_char((n % 10) as int);
        assert(((((n % 10) + 48) as char) as u8) as int == (n % 10) + 48);
        assert(nat_text(n) == nat_text(n / 10).push(d));
        assert(t =~= h.push(((n % 10) + 48) as u8));
        assert(t.drop_last() =~= h);
        assert forall|i: int| 0 <= i < t.len() implies is_digit(#[trigger] t[i]) by {
            if i < h.len() {
                assert(t[i] == h[i]);
            }
        }
        assert(t[0] == h[0]);
        assert(digits_value(t) == digits_value(h) * 10 + (t.last() - 0x30));
        assert(t.last() as int == (n % 10) + 48);
        assert((n / 10) * 10 + n % 10 == n);
    }
}

/// Law: an unsigned number written as decimal text reads back as itself.
pub proof fn law_u32_text_round_trip(n: u32)
    ensures
        parse_u32_text(ascii_bytes(nat_text(n as nat))) == Some(n),
{
    lemma_nat_text_digits(n as nat);
}
} // verus!
