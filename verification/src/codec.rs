//! The wire format of a worker's success response: a JSON object with the
//! single integer field `result`, whitespace tolerated around each token.
//! `result_body_value` is the meaning of a response body — the scalar it
//! carries, or nothing if the body is not of that shape — and
//! `parse_result_body` computes it.

use vstd::prelude::*;

verus! {

/// JSON insignificant whitespace: space, tab, line feed, carriage return.
pub open spec fn is_ws(c: u8) -> bool {
    c == 32 || c == 9 || c == 10 || c == 13
}

/// A decimal digit.
pub open spec fn is_digit(c: u8) -> bool {
    48 <= c <= 57
}

/// The index of the first non-whitespace byte at or after `i`.
pub open spec fn skip_ws(s: Seq<u8>, i: int) -> int
    decreases s.len() - i,
{
    if i < s.len() && is_ws(s[i]) {
        skip_ws(s, i + 1)
    } else {
        i
    }
}

/// The index just past the run of digits starting at `i`.
pub open spec fn digits_end(s: Seq<u8>, i: int) -> int
    decreases s.len() - i,
{
    if i < s.len() && is_digit(s[i]) {
        digits_end(s, i + 1)
    } else {
        i
    }
}

/// The value of the decimal digit run `s[i..j]`.
pub open spec fn digits_value(s: Seq<u8>, i: int, j: int) -> int
    decreases j - i,
{
    if i >= j {
        0
    } else {
        digits_value(s, i, j - 1) * 10 + (s[j - 1] as int - 48)
    }
}

/// The quoted key `"result"` stands at index `i`.
pub open spec fn result_key_at(s: Seq<u8>, i: int) -> bool {
    &&& i + 8 <= s.len()
    &&& s[i] == 34
    &&& s[i + 1] == 114
    &&& s[i + 2] == 101
    &&& s[i + 3] == 115
    &&& s[i + 4] == 117
    &&& s[i + 5] == 108
    &&& s[i + 6] == 116
    &&& s[i + 7] == 34
}

/// The scalar a response body carries: `Some(v)` iff the body is
/// `{ "result": N }` — with optional whitespace around the tokens, `N` a
/// JSON integer (optional minus sign, no leading zero except for 0
/// itself) — and `N` has the value `v` of the `i32` range.
pub open spec fn result_body_value(s: Seq<u8>) -> Option<i32> {
    let i0 = skip_ws(s, 0);
    if !(i0 < s.len() && s[i0] == 123) {
        None
    } else {
        let i1 = skip_ws(s, i0 + 1);
        if !result_key_at(s, i1) {
            None
        } else {
            let i2 = skip_ws(s, i1 + 8);
            if !(i2 < s.len() && s[i2] == 58) {
                None
            } else {
                let i3 = skip_ws(s, i2 + 1);
                let neg = i3 < s.len() && s[i3] == 45;
                let d0 = if neg {
                    i3 + 1
                } else {
                    i3
                };
                let d1 = digits_end(s, d0);
                if d1 == d0 {
                    None
                } else if s[d0] == 48 && d1 > d0 + 1 {
                    None
                } else {
                    let v = if neg {
                        -digits_value(s, d0, d1)
                    } else {
                        digits_value(s, d0, d1)
                    };
                    if v < i32::MIN as int || v > i32::MAX as int {
                        None
                    } else {
                        let i4 = skip_ws(s, d1);
                        if !(i4 < s.len() && s[i4] == 125) {
                            None
                        } else if skip_ws(s, i4 + 1) == s.len() {
                            Some(v as i32)
                        } else {
                            None
                        }
                    }
                }
            }
        }
    }
}

/// The decimal digits of `n >= 0`, most significant first, no leading
/// zeroes.
pub open spec fn dec_rep(n: int) -> Seq<u8>
    recommends
        n >= 0,
    decreases n,
{
    if n < 10 {
        seq![(48 + n) as u8]
    } else {
        dec_rep(n / 10).push((48 + n % 10) as u8)
    }
}

/// The decimal representation of an integer, with a minus sign when
/// negative.
pub open spec fn int_rep(v: int) -> Seq<u8> {
    if v < 0 {
        seq![45u8] + dec_rep(-v)
    } else {
        dec_rep(v)
    }
}

/// The elements of a vector in decimal, separated by commas.
pub open spec fn row_rep(s: Seq<i32>) -> Seq<u8>
    decreases s.len(),
{
    if s.len() == 0 {
        Seq::empty()
    } else if s.len() == 1 {
        int_rep(s[0] as int)
    } else {
        row_rep(s.drop_last()) + seq![44u8] + int_rep(s.last() as int)
    }
}

/// The canonical body of a dot-product request:
/// `{"row":[..],"col":[..]}` with no whitespace.
pub open spec fn payload_rep(row: Seq<i32>, col: Seq<i32>) -> Seq<u8> {
    seq![123u8, 34u8, 114u8, 111u8, 119u8, 34u8, 58u8, 91u8] + row_rep(row) + seq![
        93u8,
        44u8,
        34u8,
        99u8,
        111u8,
        108u8,
        34u8,
        58u8,
        91u8,
    ] + row_rep(col) + seq![93u8, 125u8]
}

/// The canonical body of a successful dot-product response:
/// `{"result":N}` with no whitespace.
pub open spec fn result_rep(v: int) -> Seq<u8> {
    seq![123u8, 34u8, 114u8, 101u8, 115u8, 117u8, 108u8, 116u8, 34u8, 58u8] + int_rep(v) + seq![
        125u8,
    ]
}

/// Append the decimal digits of `n`.
fn push_dec(out: &mut Vec<u8>, n: u32)
    ensures
        final(out)@ == old(out)@ + dec_rep(n as int),
    decreases n,
{
    if n < 10 {
        out.push(48 + n as u8);
        proof {
            assert(out@ =~= old(out)@ + dec_rep(n as int));
        }
    } else {
        push_dec(out, n / 10);
        out.push(48 + (n % 10) as u8);
        proof {
            assert(out@ =~= old(out)@ + dec_rep(n as int));
        }
    }
}

/// Append the decimal representation of `v`, minus sign included.
fn push_int(out: &mut Vec<u8>, v: i32)
    ensures
        final(out)@ == old(out)@ + int_rep(v as int),
{
    if v < 0 {
        out.push(45);
        let mag: u32 = (-(v as i64)) as u32;
        push_dec(out, mag);
        proof {
            assert(out@ =~= old(out)@ + int_rep(v as int));
        }
    } else {
        push_dec(out, v as u32);
    }
}

/// Append `[..]`: the elements of `v` in decimal, comma-separated,
/// bracketed.
fn push_row(out: &mut Vec<u8>, v: &Vec<i32>)
    ensures
        final(out)@ == old(out)@ + seq![91u8] + row_rep(v@) + seq![93u8],
{
    out.push(91);
    let ghost base = out@;
    let mut i: usize = 0;
    while i < v.len()
        invariant
            i <= v@.len(),
            out@ == base + row_rep(v@.take(i as int)),
        decreases v@.len() - i,
    {
        if i > 0 {
            out.push(44);
        }
        push_int(out, v[i]);
        proof {
            assert(v@.take(i + 1).drop_last() =~= v@.take(i as int));
            assert(v@.take(i + 1).last() == v@[i as int]);
            if i == 0 {
                assert(out@ =~= base + row_rep(v@.take(1)));
            } else {
                assert(out@ =~= base + row_rep(v@.take(i + 1)));
            }
        }
        i += 1;
    }
    out.push(93);
    proof {
        assert(v@.take(v@.len() as int) =~= v@);
        assert(out@ =~= old(out)@ + seq![91u8] + row_rep(v@) + seq![93u8]);
    }
}

/// Encode a dot-product request as its canonical body.
pub fn encode_payload(row: &Vec<i32>, col: &Vec<i32>) -> (r: Vec<u8>)
    ensures
        r@ == payload_rep(row@, col@),
{
    let mut out: Vec<u8> = Vec::new();
    out.push(123);
    out.push(34);
    out.push(114);
    out.push(111);
    out.push(119);
    out.push(34);
    out.push(58);
    push_row(&mut out, row);
    out.push(44);
    out.push(34);
    out.push(99);
    out.push(111);
    out.push(108);
    out.push(34);
    out.push(58);
    push_row(&mut out, col);
    out.push(125);
    proof {
        assert(out@ =~= payload_rep(row@, col@));
    }
    out
}

/// Encode a successful dot-product response as its canonical body.
pub fn encode_result(v: i32) -> (r: Vec<u8>)
    ensures
        r@ == result_rep(v as int),
{
    let mut out: Vec<u8> = Vec::new();
    out.push(123);
    out.push(34);
    out.push(114);
    out.push(101);
    out.push(115);
    out.push(117);
    out.push(108);
    out.push(116);
    out.push(34);
    out.push(58);
    push_int(&mut out, v);
    out.push(125);
    proof {
        assert(out@ =~= result_rep(v as int));
    }
    out
}

/// A digit run has a non-negative value.
proof fn lemma_digits_value_nonneg(s: Seq<u8>, i: int, j: int)
    requires
        forall|u: int| i <= u < j ==> is_digit(#[trigger] s[u]),
    ensures
        digits_value(s, i, j) >= 0,
    decreases j - i,
{
    if i < j {
        lemma_digits_value_nonneg(s, i, j - 1);
    }
}

/// Extending a digit run never shrinks its value.
proof fn lemma_digits_value_mono(s: Seq<u8>, i: int, j: int, j2: int)
    requires
        i <= j <= j2,
        forall|u: int| i <= u < j2 ==> is_digit(#[trigger] s[u]),
    ensures
        digits_value(s, i, j2) >= digits_value(s, i, j),
    decreases j2 - j,
{
    if j < j2 {
        lemma_digits_value_mono(s, i, j, j2 - 1);
        lemma_digits_value_nonneg(s, i, j2 - 1);
    }
}

/// Every byte of a decimal representation is a digit, and there is at
/// least one.
proof fn lemma_dec_rep_digits(n: int)
    requires
        n >= 0,
    ensures
        dec_rep(n).len() >= 1,
        forall|t: int| 0 <= t < dec_rep(n).len() ==> is_digit(#[trigger] dec_rep(n)[t]),
    decreases n,
{
    if n >= 10 {
        lemma_dec_rep_digits(n / 10);
    }
}

/// A positive number is written without a leading zero.
proof fn lemma_dec_rep_no_leading_zero(n: int)
    requires
        n >= 1,
    ensures
        dec_rep(n)[0] != 48,
    decreases n,
{
    if n >= 10 {
        lemma_dec_rep_digits(n / 10);
        lemma_dec_rep_no_leading_zero(n / 10);
    }
}

/// A digit run that spells `dec_rep(n)` has the value `n`.
proof fn lemma_digits_value_of_rep(s: Seq<u8>, i: int, n: int)
    requires
        n >= 0,
        0 <= i,
        i + dec_rep(n).len() <= s.len(),
        forall|t: int| 0 <= t < dec_rep(n).len() ==> s[i + t] == (#[trigger] dec_rep(n)[t]),
    ensures
        digits_value(s, i, i + dec_rep(n).len()) == n,
    decreases n,
{
    if n < 10 {
        assert(s[i] == dec_rep(n)[0]);
        assert(s[i] == (48 + n) as u8);
        assert(digits_value(s, i, i) == 0);
        assert(digits_value(s, i, i + 1) == digits_value(s, i, i) * 10 + (s[i] as int - 48));
        assert(digits_value(s, i, i + 1) == n);
    } else {
        lemma_dec_rep_digits(n / 10);
        let dlen = dec_rep(n / 10).len() as int;
        assert forall|t: int| 0 <= t < dlen implies s[i + t] == (#[trigger] dec_rep(n / 10)[t]) by {
            assert(dec_rep(n)[t] == dec_rep(n / 10)[t]);
            assert(s[i + t] == dec_rep(n)[t]);
        }
        lemma_digits_value_of_rep(s, i, n / 10);
        assert(s[i + dlen] == dec_rep(n)[dlen]);
        assert(dec_rep(n)[dlen] == (48 + n % 10) as u8);
        assert(s[i + dlen] as int - 48 == n % 10);
        assert(dec_rep(n).len() == dlen + 1);
        assert(digits_value(s, i, i + dlen + 1) == digits_value(s, i, i + dlen) * 10 + (s[i
            + dlen] as int - 48));
        vstd::arithmetic::div_mod::lemma_fundamental_div_mod(n, 10);
        assert(digits_value(s, i, i + dlen + 1) == n);
    }
}

/// The run of digits `s[i..j]` followed by a non-digit ends exactly at
/// `j`.
proof fn lemma_digits_end_of_run(s: Seq<u8>, i: int, j: int)
    requires
        0 <= i <= j <= s.len(),
        forall|t: int| i <= t < j ==> is_digit(#[trigger] s[t]),
        j == s.len() || !is_digit(s[j]),
    ensures
        digits_end(s, i) == j,
    decreases j - i,
{
    if i < j {
        lemma_digits_end_of_run(s, i + 1, j);
    }
}

/// The canonical response body always parses back to the value it
/// encodes: the worker's wire format and the broker's parser agree on
/// every representable scalar.
pub proof fn lemma_result_round_trip(v: int)
    requires
        i32::MIN <= v <= i32::MAX,
    ensures
        result_body_value(result_rep(v)) == Some(v as i32),
{
    let s = result_rep(v);
    let mag = if v < 0 {
        -v
    } else {
        v
    };
    let dlen = dec_rep(mag).len() as int;
    lemma_dec_rep_digits(mag);
    let d0: int = if v < 0 {
        11
    } else {
        10
    };
    let d1 = d0 + dlen;
    assert(s.len() == d1 + 1);
    assert(s[0] == 123);
    assert(s[1] == 34);
    assert(s[2] == 114);
    assert(s[3] == 101);
    assert(s[4] == 115);
    assert(s[5] == 117);
    assert(s[6] == 108);
    assert(s[7] == 116);
    assert(s[8] == 34);
    assert(s[9] == 58);
    if v < 0 {
        assert(s[10] == 45);
    }
    assert forall|t: int| 0 <= t < dlen implies s[d0 + t] == (#[trigger] dec_rep(mag)[t]) by {
        assert(int_rep(v)[d0 - 10 + t] == dec_rep(mag)[t]);
    }
    assert(s[d1] == 125);
    assert(skip_ws(s, 0) == 0);
    assert(skip_ws(s, 1) == 1);
    assert(result_key_at(s, 1));
    assert(skip_ws(s, 9) == 9);
    assert(is_digit(s[d0]));
    assert(s[10] != 45 ==> v >= 0);
    assert(skip_ws(s, 10) == 10);
    lemma_digits_end_of_run(s, d0, d1);
    assert(digits_end(s, d0) == d1);
    if mag >= 1 {
        lemma_dec_rep_no_leading_zero(mag);
        assert(s[d0] != 48);
    } else {
        assert(dlen == 1);
    }
    lemma_digits_value_of_rep(s, d0, mag);
    assert(digits_value(s, d0, d1) == mag);
    assert(skip_ws(s, d1) == d1);
    assert(skip_ws(s, d1 + 1) == d1 + 1);
    assert(result_body_value(s) == Some(v as i32));
}

/// Skip whitespace, forward.
fn skip_ws_exec(s: &Vec<u8>, i: usize) -> (j: usize)
    requires
        i <= s@.len(),
    ensures
        j == skip_ws(s@, i as int),
        i <= j <= s@.len(),
{
    let mut j = i;
    while j < s.len() && (s[j] == 32 || s[j] == 9 || s[j] == 10 || s[j] == 13)
        invariant
            i <= j <= s@.len(),
            skip_ws(s@, i as int) == skip_ws(s@, j as int),
        decreases s@.len() - j,
    {
        j += 1;
    }
    j
}

/// Parse a worker's success body; returns exactly the scalar
/// `result_body_value` gives it.
pub fn parse_result_body(body: &Vec<u8>) -> (r: Option<i32>)
    ensures
        r == result_body_value(body@),
{
    let ghost s = body@;
    let n = body.len();
    let i0 = skip_ws_exec(body, 0);
    if !(i0 < n && body[i0] == 123) {
        return None;
    }
    let i1 = skip_ws_exec(body, i0 + 1);
    if n - i1 < 8 {
        return None;
    }
    if !(body[i1] == 34 && body[i1 + 1] == 114 && body[i1 + 2] == 101 && body[i1 + 3] == 115
        && body[i1 + 4] == 117 && body[i1 + 5] == 108 && body[i1 + 6] == 116 && body[i1 + 7]
        == 34) {
        return None;
    }
    let i2 = skip_ws_exec(body, i1 + 8);
    if !(i2 < n && body[i2] == 58) {
        return None;
    }
    let i3 = skip_ws_exec(body, i2 + 1);
    let neg = i3 < n && body[i3] == 45;
    let d0 = if neg {
        i3 + 1
    } else {
        i3
    };
    if !(d0 < n && 48 <= body[d0] && body[d0] <= 57) {
        proof {
            assert(digits_end(s, d0 as int) == d0 as int);
        }
        return None;
    }
    let mut t = d0;
    let mut mag: i64 = 0;
    let mut over = false;
    while t < n && 48 <= body[t] && body[t] <= 57
        invariant
            n == s.len(),
            s == body@,
            d0 <= t <= n,
            forall|u: int| d0 <= u < t ==> is_digit(#[trigger] s[u]),
            digits_end(s, d0 as int) == digits_end(s, t as int),
            !over ==> mag == digits_value(s, d0 as int, t as int) && 0 <= mag <= 0x8000_0000i64,
            over ==> digits_value(s, d0 as int, t as int) > 0x8000_0000,
        decreases n - t,
    {
        proof {
            if over {
                lemma_digits_value_nonneg(s, d0 as int, t as int);
                lemma_digits_value_mono(s, d0 as int, t as int, t + 1);
            }
        }
        if !over {
            mag = mag * 10 + ((body[t] - 48) as i64);
            if mag > 0x8000_0000i64 {
                over = true;
            }
        }
        t += 1;
    }
    let d1 = t;
    proof {
        assert(digits_end(s, d1 as int) == d1 as int);
        assert(digits_end(s, d0 as int) == d1 as int);
    }
    if body[d0] == 48 && d1 > d0 + 1 {
        return None;
    }
    if over {
        proof {
            lemma_digits_value_nonneg(s, d0 as int, d1 as int);
        }
        return None;
    }
    let v: i32 = if neg {
        (-mag) as i32
    } else {
        if mag > i32::MAX as i64 {
            return None;
        }
        mag as i32
    };
    let i4 = skip_ws_exec(body, d1);
    if !(i4 < n && body[i4] == 125) {
        return None;
    }
    if skip_ws_exec(body, i4 + 1) != n {
        return None;
    }
    Some(v)
}

} // verus!
