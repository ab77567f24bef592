//! The checkpoint wire format: a verified codec for brains and checkpoints.
//!
//! A checkpoint file is one JSON object `{"brains":[...],"rng":...,"score":N}`
//! in the canonical compact form (no whitespace, fields in declaration
//! order, minimal decimal numbers) that the serialization library itself
//! emits; the generator state inside is spliced verbatim, since it is
//! already such an object.  Decoding inverts encoding exactly:
//! `lemma_brain_round_trip` and `lemma_checkpoint_round_trip` state the
//! round-trip law, and decoding rejects any byte stream that is not one
//! whole valid encoding.

use vstd::prelude::*;
use vstd::slice::slice_subrange;
use vstd::string::StringSliceAdditionalSpecFns;
use vstd::slice::slice_to_vec;
use crate::brain::Brain;
use crate::brain::brains_view;
use crate::brain::webs_view;
use crate::neurone::Neurone;
use crate::neurone::NeuroneActivation;
use crate::neurone::NeuroneActivationCondition;
use crate::neurone::NeuroneWeb;
use crate::neurone::NeuroneWebAction;
use crate::neurone::WebView;
use crate::train::CheckpointView;
use crate::train::IntermediateResult;

verus! {

/// Splitting a subrange equal to a concatenation splits into the parts.
proof fn lemma_split(b: Seq<u8>, pos: int, s1: Seq<u8>, s2: Seq<u8>)
    requires
        0 <= pos,
        pos + s1.len() + s2.len() <= b.len(),
        b.subrange(pos, pos + s1.len() + s2.len()) == s1 + s2,
    ensures
        b.subrange(pos, pos + s1.len()) == s1,
        b.subrange(pos + s1.len(), pos + s1.len() + s2.len()) == s2,
{
    let whole = b.subrange(pos, pos + s1.len() + s2.len());
    assert forall|i: int| 0 <= i < s1.len() implies b[pos + i] == s1[i] by {
        assert(whole[i] == b[pos + i]);
        assert((s1 + s2)[i] == s1[i]);
    }
    assert forall|i: int| 0 <= i < s2.len() implies b[pos + s1.len() + i] == s2[i] by {
        assert(whole[s1.len() + i] == b[pos + s1.len() + i]);
        assert((s1 + s2)[s1.len() + i] == s2[i]);
    }
    assert(b.subrange(pos, pos + s1.len()) =~= s1);
    assert(b.subrange(pos + s1.len(), pos + s1.len() + s2.len()) =~= s2);
}

// --------------------------------------------------------------------------
// Decimal numbers
// --------------------------------------------------------------------------

/// An ASCII decimal digit.
pub open spec fn is_digit(b: u8) -> bool {
    48 <= b <= 57
}

/// The decimal digits of `n`, most significant first, without leading
/// zeros.
pub open spec fn spec_digits(n: nat) -> Seq<u8>
    decreases n,
{
    if n < 10 {
        seq![(48 + n) as u8]
    } else {
        spec_digits(n / 10).push((48 + n % 10) as u8)
    }
}

/// Powers of ten.
pub open spec fn pow10(k: nat) -> nat
    decreases k,
{
    if k == 0 {
        1
    } else {
        10 * pow10((k - 1) as nat)
    }
}

/// Greedily read digits from `pos`, folding them into `acc`; stops at the
/// first non-digit and returns the value and the stop position.
pub open spec fn spec_parse_digits(b: Seq<u8>, pos: int, acc: nat) -> (nat, int)
    decreases b.len() - pos,
{
    if 0 <= pos && pos < b.len() && is_digit(b[pos]) {
        spec_parse_digits(b, pos + 1, acc * 10 + (b[pos] - 48) as nat)
    } else {
        (acc, pos)
    }
}

/// A digit string is non-empty and all digits.
proof fn lemma_digits_are_digits(n: nat)
    ensures
        spec_digits(n).len() >= 1,
        forall|i: int| 0 <= i < spec_digits(n).len() ==> is_digit(#[trigger] spec_digits(n)[i]),
    decreases n,
{
    if n >= 10 {
        lemma_digits_are_digits(n / 10);
        assert forall|i: int|
            0 <= i < spec_digits(n).len() implies is_digit(#[trigger] spec_digits(n)[i]) by {
            if i < spec_digits(n).len() - 1 {
                assert(spec_digits(n)[i] == spec_digits(n / 10)[i]);
            }
        }
    }
}

/// Folding accumulates: the parsed value never falls below the accumulator,
/// and the stop position never moves left.
proof fn lemma_parse_digits_grows(b: Seq<u8>, pos: int, acc: nat)
    ensures
        spec_parse_digits(b, pos, acc).0 >= acc,
        spec_parse_digits(b, pos, acc).1 >= pos,
    decreases b.len() - pos,
{
    if 0 <= pos && pos < b.len() && is_digit(b[pos]) {
        let acc2 = acc * 10 + (b[pos] - 48) as nat;
        assert(acc2 >= acc) by (nonlinear_arith)
            requires
                acc2 == acc * 10 + (b[pos] - 48) as nat,
                is_digit(b[pos]),
        ;
        lemma_parse_digits_grows(b, pos + 1, acc2);
    }
}

/// Reading the digit string of `n` folds it into the accumulator and moves
/// past it.
proof fn lemma_parse_over_digits(b: Seq<u8>, pos: int, n: nat, acc: nat)
    requires
        0 <= pos,
        pos + spec_digits(n).len() <= b.len(),
        b.subrange(pos, pos + spec_digits(n).len()) == spec_digits(n),
    ensures
        spec_parse_digits(b, pos, acc) == spec_parse_digits(
            b,
            pos + spec_digits(n).len(),
            acc * pow10(spec_digits(n).len()) + n,
        ),
    decreases n,
{
    if n < 10 {
        assert(b[pos] == (48 + n) as u8) by {
            assert(b.subrange(pos, pos + 1)[0] == b[pos]);
        }
        assert(pow10(1) == 10 * pow10(0));
        assert(acc * 10 + n == acc * pow10(1) + n) by (nonlinear_arith)
            requires
                pow10(1) == 10,
        ;
    } else {
        let q = n / 10;
        let r = n % 10;
        let dq = spec_digits(q);
        let last = seq![(48 + r) as u8];
        assert(spec_digits(n) =~= dq + last);
        lemma_split(b, pos, dq, last);
        lemma_parse_over_digits(b, pos, q, acc);
        let acc1 = acc * pow10(dq.len()) + q;
        assert(b[pos + dq.len()] == (48 + r) as u8) by {
            assert(b.subrange(pos + dq.len() as int, pos + dq.len() + 1)[0] == b[pos + dq.len()]);
        }
        assert(spec_digits(n).len() == dq.len() + 1);
        assert(pow10(dq.len() + 1) == 10 * pow10(dq.len()));
        assert(acc1 * 10 + r == acc * pow10(dq.len() + 1) + n) by (nonlinear_arith)
            requires
                acc1 == acc * pow10(dq.len()) + q,
                n == q * 10 + r,
                pow10(dq.len() + 1) == 10 * pow10(dq.len()),
        ;
    }
}

/// Append the decimal digits of `n`.
fn push_u64_digits(out: &mut Vec<u8>, n: u64)
    ensures
        final(out)@ == old(out)@ + spec_digits(n as nat),
    decreases n,
{
    if n < 10 {
        out.push(48 + n as u8);
        proof {
            assert(out@ =~= old(out)@ + spec_digits(n as nat));
        }
    } else {
        proof {
            vstd::arithmetic::div_mod::lemma_div_decreases(n as int, 10);
        }
        push_u64_digits(out, n / 10);
        out.push(48 + (n % 10) as u8);
        proof {
            assert(out@ =~= old(out)@ + spec_digits(n as nat));
        }
    }
}

/// Decode an unsigned 64-bit decimal number at `pos`.
pub open spec fn spec_dec_u64_json(b: Seq<u8>, pos: int) -> Option<(u64, int)> {
    if 0 <= pos && pos < b.len() && is_digit(b[pos]) {
        let (v, p) = spec_parse_digits(b, pos, 0);
        if v <= u64::MAX {
            Some((v as u64, p))
        } else {
            None
        }
    } else {
        None
    }
}

/// A 64-bit number decodes back from its digits whenever a non-digit (or
/// the end of the input) follows them.
proof fn lemma_dec_u64_json(b: Seq<u8>, pos: int, n: u64)
    requires
        0 <= pos,
        pos + spec_digits(n as nat).len() <= b.len(),
        b.subrange(pos, pos + spec_digits(n as nat).len()) == spec_digits(n as nat),
        pos + spec_digits(n as nat).len() == b.len() || !is_digit(
            b[pos + spec_digits(n as nat).len()],
        ),
    ensures
        spec_dec_u64_json(b, pos) == Some((n, pos + spec_digits(n as nat).len())),
{
    lemma_digits_are_digits(n as nat);
    assert(b[pos] == spec_digits(n as nat)[0]) by {
        assert(b.subrange(pos, pos + spec_digits(n as nat).len())[0] == b[pos]);
    }
    lemma_parse_over_digits(b, pos, n as nat, 0);
    assert(0 * pow10(spec_digits(n as nat).len()) + n as nat == n as nat) by (nonlinear_arith);
}

/// Decode an unsigned decimal number at `pos`, greedily; `None` without a
/// leading digit or past `u64::MAX`.
fn parse_u64(bytes: &[u8], pos: usize) -> (r: Option<(u64, usize)>)
    ensures
        match r {
            Some((v, p)) => spec_dec_u64_json(bytes@, pos as int) == Some((v, p as int)),
            None => spec_dec_u64_json(bytes@, pos as int) is None,
        },
{
    if !(pos < bytes.len() && 48 <= bytes[pos] && bytes[pos] <= 57) {
        return None;
    }
    let mut acc: u64 = 0;
    let mut p = pos;
    while p < bytes.len() && 48 <= bytes[p] && bytes[p] <= 57
        invariant
            pos <= p <= bytes@.len(),
            spec_parse_digits(bytes@, pos as int, 0) == spec_parse_digits(
                bytes@,
                p as int,
                acc as nat,
            ),
        decreases bytes@.len() - p,
    {
        let d = (bytes[p] - 48) as u64;
        let wide = acc as u128 * 10 + d as u128;
        if wide > u64::MAX as u128 {
            proof {
                lemma_parse_digits_grows(bytes@, p + 1, (acc * 10 + d) as nat);
            }
            return None;
        }
        acc = wide as u64;
        p = p + 1;
    }
    Some((acc, p))
}

/// The decimal encoding of a signed coordinate: a minus sign before the
/// magnitude when negative.
pub open spec fn spec_enc_i64_json(x: i64) -> Seq<u8> {
    if x >= 0 {
        spec_digits(x as nat)
    } else {
        seq![45u8] + spec_digits((-(x as int)) as nat)
    }
}

/// Decode a signed 64-bit decimal number at `pos`.
pub open spec fn spec_dec_i64_json(b: Seq<u8>, pos: int) -> Option<(i64, int)> {
    if 0 <= pos && pos < b.len() && b[pos] == 45 {
        match spec_dec_u64_json(b, pos + 1) {
            None => None,
            Some((v, p)) => if v <= 0x8000_0000_0000_0000u64 {
                Some(((0 - v as int) as i64, p))
            } else {
                None
            },
        }
    } else {
        match spec_dec_u64_json(b, pos) {
            None => None,
            Some((v, p)) => if v <= i64::MAX as u64 {
                Some((v as i64, p))
            } else {
                None
            },
        }
    }
}

/// A signed number decodes back from its encoding whenever a non-digit (or
/// the end of the input) follows it.
proof fn lemma_dec_i64_json(b: Seq<u8>, pos: int, x: i64)
    requires
        0 <= pos,
        pos + spec_enc_i64_json(x).len() <= b.len(),
        b.subrange(pos, pos + spec_enc_i64_json(x).len()) == spec_enc_i64_json(x),
        pos + spec_enc_i64_json(x).len() == b.len() || !is_digit(
            b[pos + spec_enc_i64_json(x).len()],
        ),
    ensures
        spec_dec_i64_json(b, pos) == Some((x, pos + spec_enc_i64_json(x).len())),
{
    if x >= 0 {
        lemma_dec_u64_json(b, pos, x as u64);
        lemma_digits_are_digits(x as nat);
        assert(b[pos] == spec_digits(x as nat)[0]) by {
            assert(b.subrange(pos, pos + spec_digits(x as nat).len())[0] == b[pos]);
        }
        assert(b[pos] != 45);
    } else {
        let mag = (-(x as int)) as nat;
        let dm = spec_digits(mag);
        assert(spec_enc_i64_json(x) =~= seq![45u8] + dm);
        lemma_split(b, pos, seq![45u8], dm);
        assert(b[pos] == 45) by {
            assert(b.subrange(pos, pos + 1)[0] == b[pos]);
        }
        lemma_dec_u64_json(b, pos + 1, mag as u64);
    }
}

/// Append the decimal encoding of a signed coordinate.
fn push_i64_json(out: &mut Vec<u8>, x: i64)
    ensures
        final(out)@ == old(out)@ + spec_enc_i64_json(x),
{
    if x >= 0 {
        push_u64_digits(out, x as u64);
    } else {
        out.push(45);
        let mag: u64 = ((-(x as i128)) as u64);
        push_u64_digits(out, mag);
        proof {
            assert(out@ =~= old(out)@ + spec_enc_i64_json(x));
        }
    }
}

/// Decode a signed decimal number at `pos`.
fn parse_i64(bytes: &[u8], pos: usize) -> (r: Option<(i64, usize)>)
    ensures
        match r {
            Some((v, p)) => spec_dec_i64_json(bytes@, pos as int) == Some((v, p as int)),
            None => spec_dec_i64_json(bytes@, pos as int) is None,
        },
{
    if pos < bytes.len() && bytes[pos] == 45 {
        match parse_u64(bytes, pos + 1) {
            None => None,
            Some((v, p)) => {
                if v <= 0x8000_0000_0000_0000u64 {
                    let x: i64 = if v == 0x8000_0000_0000_0000u64 {
                        i64::MIN
                    } else {
                        -(v as i64)
                    };
                    Some((x, p))
                } else {
                    None
                }
            },
        }
    } else {
        match parse_u64(bytes, pos) {
            None => None,
            Some((v, p)) => {
                if v <= i64::MAX as u64 {
                    Some((v as i64, p))
                } else {
                    None
                }
            },
        }
    }
}

// --------------------------------------------------------------------------
// The fixed tokens of the canonical checkpoint JSON
// --------------------------------------------------------------------------

/// The bytes at `pos` start with the token.
pub open spec fn spec_has_tok(b: Seq<u8>, pos: int, tok: Seq<u8>) -> bool {
    0 <= pos && pos + tok.len() <= b.len() && b.subrange(pos, pos + tok.len()) == tok
}

/// Whether the bytes at `pos` start with `lit`; `Some` returns the position
/// right after it.
fn expect_bytes(bytes: &[u8], pos: usize, lit: &Vec<u8>) -> (r: Option<usize>)
    ensures
        match r {
            Some(p) => spec_has_tok(bytes@, pos as int, lit@) && p as int == pos + lit@.len(),
            None => !spec_has_tok(bytes@, pos as int, lit@),
        },
{
    if bytes.len() < lit.len() || pos > bytes.len() - lit.len() {
        return None;
    }
    let mut i: usize = 0;
    while i < lit.len()
        invariant
            pos + lit@.len() <= bytes@.len(),
            bytes@.len() <= usize::MAX,
            i <= lit@.len(),
            forall|j: int| 0 <= j < i ==> bytes@[pos + j] == lit@[j],
        decreases lit@.len() - i,
    {
        if bytes[pos + i] != lit[i] {
            proof {
                assert(bytes@.subrange(pos as int, pos + lit@.len())[i as int] == bytes@[pos + i]);
            }
            return None;
        }
        i = i + 1;
    }
    proof {
        assert(bytes@.subrange(pos as int, pos + lit@.len()) =~= lit@);
    }
    Some(pos + lit.len())
}

/// The bytes of `{\"brains\":[`.
pub open spec fn spec_tok_cp_open() -> Seq<u8> {
    seq![123u8, 34u8, 98u8, 114u8, 97u8, 105u8, 110u8, 115u8, 34u8, 58u8, 91u8]
}

/// Append the bytes of `{\"brains\":[`.
fn push_tok_cp_open(out: &mut Vec<u8>)
    ensures
        final(out)@ == old(out)@ + spec_tok_cp_open(),
{
    out.push(123);
    out.push(34);
    out.push(98);
    out.push(114);
    out.push(97);
    out.push(105);
    out.push(110);
    out.push(115);
    out.push(34);
    out.push(58);
    out.push(91);
    proof {
        assert(out@ =~= old(out)@ + spec_tok_cp_open());
    }
}

/// The bytes of `{\"brains\":[`, as a vector.
fn tok_cp_open() -> (r: Vec<u8>)
    ensures
        r@ == spec_tok_cp_open(),
{
    let mut t: Vec<u8> = Vec::new();
    push_tok_cp_open(&mut t);
    proof {
        assert(t@ =~= spec_tok_cp_open());
    }
    t
}

/// The bytes of `],\"rng\":`.
pub open spec fn spec_tok_cp_rng() -> Seq<u8> {
    seq![93u8, 44u8, 34u8, 114u8, 110u8, 103u8, 34u8, 58u8]
}

/// Append the bytes of `],\"rng\":`.
fn push_tok_cp_rng(out: &mut Vec<u8>)
    ensures
        final(out)@ == old(out)@ + spec_tok_cp_rng(),
{
    out.push(93);
    out.push(44);
    out.push(34);
    out.push(114);
    out.push(110);
    out.push(103);
    out.push(34);
    out.push(58);
    proof {
        assert(out@ =~= old(out)@ + spec_tok_cp_rng());
    }
}

/// The bytes of `],\"rng\":`, as a vector.
fn tok_cp_rng() -> (r: Vec<u8>)
    ensures
        r@ == spec_tok_cp_rng(),
{
    let mut t: Vec<u8> = Vec::new();
    push_tok_cp_rng(&mut t);
    proof {
        assert(t@ =~= spec_tok_cp_rng());
    }
    t
}

/// The bytes of `,\"score\":`.
pub open spec fn spec_tok_cp_score() -> Seq<u8> {
    seq![44u8, 34u8, 115u8, 99u8, 111u8, 114u8, 101u8, 34u8, 58u8]
}

/// Append the bytes of `,\"score\":`.
fn push_tok_cp_score(out: &mut Vec<u8>)
    ensures
        final(out)@ == old(out)@ + spec_tok_cp_score(),
{
    out.push(44);
    out.push(34);
    out.push(115);
    out.push(99);
    out.push(111);
    out.push(114);
    out.push(101);
    out.push(34);
    out.push(58);
    proof {
        assert(out@ =~= old(out)@ + spec_tok_cp_score());
    }
}

/// The bytes of `,\"score\":`, as a vector.
fn tok_cp_score() -> (r: Vec<u8>)
    ensures
        r@ == spec_tok_cp_score(),
{
    let mut t: Vec<u8> = Vec::new();
    push_tok_cp_score(&mut t);
    proof {
        assert(t@ =~= spec_tok_cp_score());
    }
    t
}

/// The bytes of `{\"neurone_web\":[`.
pub open spec fn spec_tok_brain_open() -> Seq<u8> {
    seq![123u8, 34u8, 110u8, 101u8, 117u8, 114u8, 111u8, 110u8, 101u8, 95u8, 119u8, 101u8, 98u8, 34u8, 58u8, 91u8]
}

/// Append the bytes of `{\"neurone_web\":[`.
fn push_tok_brain_open(out: &mut Vec<u8>)
    ensures
        final(out)@ == old(out)@ + spec_tok_brain_open(),
{
    out.push(123);
    out.push(34);
    out.push(110);
    out.push(101);
    out.push(117);
    out.push(114);
    out.push(111);
    out.push(110);
    out.push(101);
    out.push(95);
    out.push(119);
    out.push(101);
    out.push(98);
    out.push(34);
    out.push(58);
    out.push(91);
    proof {
        assert(out@ =~= old(out)@ + spec_tok_brain_open());
    }
}

/// The bytes of `{\"neurone_web\":[`, as a vector.
fn tok_brain_open() -> (r: Vec<u8>)
    ensures
        r@ == spec_tok_brain_open(),
{
    let mut t: Vec<u8> = Vec::new();
    push_tok_brain_open(&mut t);
    proof {
        assert(t@ =~= spec_tok_brain_open());
    }
    t
}

/// The bytes of `]}`.
pub open spec fn spec_tok_brain_close() -> Seq<u8> {
    seq![93u8, 125u8]
}

/// Append the bytes of `]}`.
fn push_tok_brain_close(out: &mut Vec<u8>)
    ensures
        final(out)@ == old(out)@ + spec_tok_brain_close(),
{
    out.push(93);
    out.push(125);
    proof {
        assert(out@ =~= old(out)@ + spec_tok_brain_close());
    }
}

/// The bytes of `]}`, as a vector.
fn tok_brain_close() -> (r: Vec<u8>)
    ensures
        r@ == spec_tok_brain_close(),
{
    let mut t: Vec<u8> = Vec::new();
    push_tok_brain_close(&mut t);
    proof {
        assert(t@ =~= spec_tok_brain_close());
    }
    t
}

/// The bytes of `{\"neurones\":[`.
pub open spec fn spec_tok_web_open() -> Seq<u8> {
    seq![123u8, 34u8, 110u8, 101u8, 117u8, 114u8, 111u8, 110u8, 101u8, 115u8, 34u8, 58u8, 91u8]
}

/// Append the bytes of `{\"neurones\":[`.
fn push_tok_web_open(out: &mut Vec<u8>)
    ensures
        final(out)@ == old(out)@ + spec_tok_web_open(),
{
    out.push(123);
    out.push(34);
    out.push(110);
    out.push(101);
    out.push(117);
    out.push(114);
    out.push(111);
    out.push(110);
    out.push(101);
    out.push(115);
    out.push(34);
    out.push(58);
    out.push(91);
    proof {
        assert(out@ =~= old(out)@ + spec_tok_web_open());
    }
}

/// The bytes of `{\"neurones\":[`, as a vector.
fn tok_web_open() -> (r: Vec<u8>)
    ensures
        r@ == spec_tok_web_open(),
{
    let mut t: Vec<u8> = Vec::new();
    push_tok_web_open(&mut t);
    proof {
        assert(t@ =~= spec_tok_web_open());
    }
    t
}

/// The bytes of `],\"action\":`.
pub open spec fn spec_tok_web_action() -> Seq<u8> {
    seq![93u8, 44u8, 34u8, 97u8, 99u8, 116u8, 105u8, 111u8, 110u8, 34u8, 58u8]
}

/// Append the bytes of `],\"action\":`.
fn push_tok_web_action(out: &mut Vec<u8>)
    ensures
        final(out)@ == old(out)@ + spec_tok_web_action(),
{
    out.push(93);
    out.push(44);
    out.push(34);
    out.push(97);
    out.push(99);
    out.push(116);
    out.push(105);
    out.push(111);
    out.push(110);
    out.push(34);
    out.push(58);
    proof {
        assert(out@ =~= old(out)@ + spec_tok_web_action());
    }
}

/// The bytes of `],\"action\":`, as a vector.
fn tok_web_action() -> (r: Vec<u8>)
    ensures
        r@ == spec_tok_web_action(),
{
    let mut t: Vec<u8> = Vec::new();
    push_tok_web_action(&mut t);
    proof {
        assert(t@ =~= spec_tok_web_action());
    }
    t
}

/// The bytes of `{\"x\":`.
pub open spec fn spec_tok_n_x() -> Seq<u8> {
    seq![123u8, 34u8, 120u8, 34u8, 58u8]
}

/// Append the bytes of `{\"x\":`.
fn push_tok_n_x(out: &mut Vec<u8>)
    ensures
        final(out)@ == old(out)@ + spec_tok_n_x(),
{
    out.push(123);
    out.push(34);
    out.push(120);
    out.push(34);
    out.push(58);
    proof {
        assert(out@ =~= old(out)@ + spec_tok_n_x());
    }
}

/// The bytes of `{\"x\":`, as a vector.
fn tok_n_x() -> (r: Vec<u8>)
    ensures
        r@ == spec_tok_n_x(),
{
    let mut t: Vec<u8> = Vec::new();
    push_tok_n_x(&mut t);
    proof {
        assert(t@ =~= spec_tok_n_x());
    }
    t
}

/// The bytes of `,\"y\":`.
pub open spec fn spec_tok_n_y() -> Seq<u8> {
    seq![44u8, 34u8, 121u8, 34u8, 58u8]
}

/// Append the bytes of `,\"y\":`.
fn push_tok_n_y(out: &mut Vec<u8>)
    ensures
        final(out)@ == old(out)@ + spec_tok_n_y(),
{
    out.push(44);
    out.push(34);
    out.push(121);
    out.push(34);
    out.push(58);
    proof {
        assert(out@ =~= old(out)@ + spec_tok_n_y());
    }
}

/// The bytes of `,\"y\":`, as a vector.
fn tok_n_y() -> (r: Vec<u8>)
    ensures
        r@ == spec_tok_n_y(),
{
    let mut t: Vec<u8> = Vec::new();
    push_tok_n_y(&mut t);
    proof {
        assert(t@ =~= spec_tok_n_y());
    }
    t
}

/// The bytes of `,\"width\":`.
pub open spec fn spec_tok_n_width() -> Seq<u8> {
    seq![44u8, 34u8, 119u8, 105u8, 100u8, 116u8, 104u8, 34u8, 58u8]
}

/// Append the bytes of `,\"width\":`.
fn push_tok_n_width(out: &mut Vec<u8>)
    ensures
        final(out)@ == old(out)@ + spec_tok_n_width(),
{
    out.push(44);
    out.push(34);
    out.push(119);
    out.push(105);
    out.push(100);
    out.push(116);
    out.push(104);
    out.push(34);
    out.push(58);
    proof {
        assert(out@ =~= old(out)@ + spec_tok_n_width());
    }
}

/// The bytes of `,\"width\":`, as a vector.
fn tok_n_width() -> (r: Vec<u8>)
    ensures
        r@ == spec_tok_n_width(),
{
    let mut t: Vec<u8> = Vec::new();
    push_tok_n_width(&mut t);
    proof {
        assert(t@ =~= spec_tok_n_width());
    }
    t
}

/// The bytes of `,\"height\":`.
pub open spec fn spec_tok_n_height() -> Seq<u8> {
    seq![44u8, 34u8, 104u8, 101u8, 105u8, 103u8, 104u8, 116u8, 34u8, 58u8]
}

/// Append the bytes of `,\"height\":`.
fn push_tok_n_height(out: &mut Vec<u8>)
    ensures
        final(out)@ == old(out)@ + spec_tok_n_height(),
{
    out.push(44);
    out.push(34);
    out.push(104);
    out.push(101);
    out.push(105);
    out.push(103);
    out.push(104);
    out.push(116);
    out.push(34);
    out.push(58);
    proof {
        assert(out@ =~= old(out)@ + spec_tok_n_height());
    }
}

/// The bytes of `,\"height\":`, as a vector.
fn tok_n_height() -> (r: Vec<u8>)
    ensures
        r@ == spec_tok_n_height(),
{
    let mut t: Vec<u8> = Vec::new();
    push_tok_n_height(&mut t);
    proof {
        assert(t@ =~= spec_tok_n_height());
    }
    t
}

/// The bytes of `,\"activation_condition\":`.
pub open spec fn spec_tok_n_cond() -> Seq<u8> {
    seq![44u8, 34u8, 97u8, 99u8, 116u8, 105u8, 118u8, 97u8, 116u8, 105u8, 111u8, 110u8, 95u8, 99u8, 111u8, 110u8, 100u8, 105u8, 116u8, 105u8, 111u8, 110u8, 34u8, 58u8]
}

/// Append the bytes of `,\"activation_condition\":`.
fn push_tok_n_cond(out: &mut Vec<u8>)
    ensures
        final(out)@ == old(out)@ + spec_tok_n_cond(),
{
    out.push(44);
    out.push(34);
    out.push(97);
    out.push(99);
    out.push(116);
    out.push(105);
    out.push(118);
    out.push(97);
    out.push(116);
    out.push(105);
    out.push(111);
    out.push(110);
    out.push(95);
    out.push(99);
    out.push(111);
    out.push(110);
    out.push(100);
    out.push(105);
    out.push(116);
    out.push(105);
    out.push(111);
    out.push(110);
    out.push(34);
    out.push(58);
    proof {
        assert(out@ =~= old(out)@ + spec_tok_n_cond());
    }
}

/// The bytes of `,\"activation_condition\":`, as a vector.
fn tok_n_cond() -> (r: Vec<u8>)
    ensures
        r@ == spec_tok_n_cond(),
{
    let mut t: Vec<u8> = Vec::new();
    push_tok_n_cond(&mut t);
    proof {
        assert(t@ =~= spec_tok_n_cond());
    }
    t
}

/// The bytes of `,\"activation\":`.
pub open spec fn spec_tok_n_act() -> Seq<u8> {
    seq![44u8, 34u8, 97u8, 99u8, 116u8, 105u8, 118u8, 97u8, 116u8, 105u8, 111u8, 110u8, 34u8, 58u8]
}

/// Append the bytes of `,\"activation\":`.
fn push_tok_n_act(out: &mut Vec<u8>)
    ensures
        final(out)@ == old(out)@ + spec_tok_n_act(),
{
    out.push(44);
    out.push(34);
    out.push(97);
    out.push(99);
    out.push(116);
    out.push(105);
    out.push(118);
    out.push(97);
    out.push(116);
    out.push(105);
    out.push(111);
    out.push(110);
    out.push(34);
    out.push(58);
    proof {
        assert(out@ =~= old(out)@ + spec_tok_n_act());
    }
}

/// The bytes of `,\"activation\":`, as a vector.
fn tok_n_act() -> (r: Vec<u8>)
    ensures
        r@ == spec_tok_n_act(),
{
    let mut t: Vec<u8> = Vec::new();
    push_tok_n_act(&mut t);
    proof {
        assert(t@ =~= spec_tok_n_act());
    }
    t
}

/// The bytes of `\"Jump\"`.
pub open spec fn spec_tok_jump() -> Seq<u8> {
    seq![34u8, 74u8, 117u8, 109u8, 112u8, 34u8]
}

/// Append the bytes of `\"Jump\"`.
fn push_tok_jump(out: &mut Vec<u8>)
    ensures
        final(out)@ == old(out)@ + spec_tok_jump(),
{
    out.push(34);
    out.push(74);
    out.push(117);
    out.push(109);
    out.push(112);
    out.push(34);
    proof {
        assert(out@ =~= old(out)@ + spec_tok_jump());
    }
}

/// The bytes of `\"Jump\"`, as a vector.
fn tok_jump() -> (r: Vec<u8>)
    ensures
        r@ == spec_tok_jump(),
{
    let mut t: Vec<u8> = Vec::new();
    push_tok_jump(&mut t);
    proof {
        assert(t@ =~= spec_tok_jump());
    }
    t
}

/// The bytes of `\"Bend\"`.
pub open spec fn spec_tok_bend() -> Seq<u8> {
    seq![34u8, 66u8, 101u8, 110u8, 100u8, 34u8]
}

/// Append the bytes of `\"Bend\"`.
fn push_tok_bend(out: &mut Vec<u8>)
    ensures
        final(out)@ == old(out)@ + spec_tok_bend(),
{
    out.push(34);
    out.push(66);
    out.push(101);
    out.push(110);
    out.push(100);
    out.push(34);
    proof {
        assert(out@ =~= old(out)@ + spec_tok_bend());
    }
}

/// The bytes of `\"Bend\"`, as a vector.
fn tok_bend() -> (r: Vec<u8>)
    ensures
        r@ == spec_tok_bend(),
{
    let mut t: Vec<u8> = Vec::new();
    push_tok_bend(&mut t);
    proof {
        assert(t@ =~= spec_tok_bend());
    }
    t
}

/// The bytes of `\"Unbend\"`.
pub open spec fn spec_tok_unbend() -> Seq<u8> {
    seq![34u8, 85u8, 110u8, 98u8, 101u8, 110u8, 100u8, 34u8]
}

/// Append the bytes of `\"Unbend\"`.
fn push_tok_unbend(out: &mut Vec<u8>)
    ensures
        final(out)@ == old(out)@ + spec_tok_unbend(),
{
    out.push(34);
    out.push(85);
    out.push(110);
    out.push(98);
    out.push(101);
    out.push(110);
    out.push(100);
    out.push(34);
    proof {
        assert(out@ =~= old(out)@ + spec_tok_unbend());
    }
}

/// The bytes of `\"Unbend\"`, as a vector.
fn tok_unbend() -> (r: Vec<u8>)
    ensures
        r@ == spec_tok_unbend(),
{
    let mut t: Vec<u8> = Vec::new();
    push_tok_unbend(&mut t);
    proof {
        assert(t@ =~= spec_tok_unbend());
    }
    t
}

/// The bytes of `\"Air\"`.
pub open spec fn spec_tok_air() -> Seq<u8> {
    seq![34u8, 65u8, 105u8, 114u8, 34u8]
}

/// Append the bytes of `\"Air\"`.
fn push_tok_air(out: &mut Vec<u8>)
    ensures
        final(out)@ == old(out)@ + spec_tok_air(),
{
    out.push(34);
    out.push(65);
    out.push(105);
    out.push(114);
    out.push(34);
    proof {
        assert(out@ =~= old(out)@ + spec_tok_air());
    }
}

/// The bytes of `\"Air\"`, as a vector.
fn tok_air() -> (r: Vec<u8>)
    ensures
        r@ == spec_tok_air(),
{
    let mut t: Vec<u8> = Vec::new();
    push_tok_air(&mut t);
    proof {
        assert(t@ =~= spec_tok_air());
    }
    t
}

/// The bytes of `\"Obstacle\"`.
pub open spec fn spec_tok_obstacle() -> Seq<u8> {
    seq![34u8, 79u8, 98u8, 115u8, 116u8, 97u8, 99u8, 108u8, 101u8, 34u8]
}

/// Append the bytes of `\"Obstacle\"`.
fn push_tok_obstacle(out: &mut Vec<u8>)
    ensures
        final(out)@ == old(out)@ + spec_tok_obstacle(),
{
    out.push(34);
    out.push(79);
    out.push(98);
    out.push(115);
    out.push(116);
    out.push(97);
    out.push(99);
    out.push(108);
    out.push(101);
    out.push(34);
    proof {
        assert(out@ =~= old(out)@ + spec_tok_obstacle());
    }
}

/// The bytes of `\"Obstacle\"`, as a vector.
fn tok_obstacle() -> (r: Vec<u8>)
    ensures
        r@ == spec_tok_obstacle(),
{
    let mut t: Vec<u8> = Vec::new();
    push_tok_obstacle(&mut t);
    proof {
        assert(t@ =~= spec_tok_obstacle());
    }
    t
}

/// The bytes of `\"Activate\"`.
pub open spec fn spec_tok_activate() -> Seq<u8> {
    seq![34u8, 65u8, 99u8, 116u8, 105u8, 118u8, 97u8, 116u8, 101u8, 34u8]
}

/// Append the bytes of `\"Activate\"`.
fn push_tok_activate(out: &mut Vec<u8>)
    ensures
        final(out)@ == old(out)@ + spec_tok_activate(),
{
    out.push(34);
    out.push(65);
    out.push(99);
    out.push(116);
    out.push(105);
    out.push(118);
    out.push(97);
    out.push(116);
    out.push(101);
    out.push(34);
    proof {
        assert(out@ =~= old(out)@ + spec_tok_activate());
    }
}

/// The bytes of `\"Activate\"`, as a vector.
fn tok_activate() -> (r: Vec<u8>)
    ensures
        r@ == spec_tok_activate(),
{
    let mut t: Vec<u8> = Vec::new();
    push_tok_activate(&mut t);
    proof {
        assert(t@ =~= spec_tok_activate());
    }
    t
}

/// The bytes of `\"PreventActivate\"`.
pub open spec fn spec_tok_prevent() -> Seq<u8> {
    seq![34u8, 80u8, 114u8, 101u8, 118u8, 101u8, 110u8, 116u8, 65u8, 99u8, 116u8, 105u8, 118u8, 97u8, 116u8, 101u8, 34u8]
}

/// Append the bytes of `\"PreventActivate\"`.
fn push_tok_prevent(out: &mut Vec<u8>)
    ensures
        final(out)@ == old(out)@ + spec_tok_prevent(),
{
    out.push(34);
    out.push(80);
    out.push(114);
    out.push(101);
    out.push(118);
    out.push(101);
    out.push(110);
    out.push(116);
    out.push(65);
    out.push(99);
    out.push(116);
    out.push(105);
    out.push(118);
    out.push(97);
    out.push(116);
    out.push(101);
    out.push(34);
    proof {
        assert(out@ =~= old(out)@ + spec_tok_prevent());
    }
}

/// The bytes of `\"PreventActivate\"`, as a vector.
fn tok_prevent() -> (r: Vec<u8>)
    ensures
        r@ == spec_tok_prevent(),
{
    let mut t: Vec<u8> = Vec::new();
    push_tok_prevent(&mut t);
    proof {
        assert(t@ =~= spec_tok_prevent());
    }
    t
}

/// The bytes of `{\"state\":`.
pub open spec fn spec_tok_state_open() -> Seq<u8> {
    seq![123u8, 34u8, 115u8, 116u8, 97u8, 116u8, 101u8, 34u8, 58u8]
}

/// Append the bytes of `{\"state\":`.
fn push_tok_state_open(out: &mut Vec<u8>)
    ensures
        final(out)@ == old(out)@ + spec_tok_state_open(),
{
    out.push(123);
    out.push(34);
    out.push(115);
    out.push(116);
    out.push(97);
    out.push(116);
    out.push(101);
    out.push(34);
    out.push(58);
    proof {
        assert(out@ =~= old(out)@ + spec_tok_state_open());
    }
}

/// The bytes of `{\"state\":`, as a vector.
fn tok_state_open() -> (r: Vec<u8>)
    ensures
        r@ == spec_tok_state_open(),
{
    let mut t: Vec<u8> = Vec::new();
    push_tok_state_open(&mut t);
    proof {
        assert(t@ =~= spec_tok_state_open());
    }
    t
}

/// The bytes of `,\"increment\":`.
pub open spec fn spec_tok_state_incr() -> Seq<u8> {
    seq![44u8, 34u8, 105u8, 110u8, 99u8, 114u8, 101u8, 109u8, 101u8, 110u8, 116u8, 34u8, 58u8]
}

/// Append the bytes of `,\"increment\":`.
fn push_tok_state_incr(out: &mut Vec<u8>)
    ensures
        final(out)@ == old(out)@ + spec_tok_state_incr(),
{
    out.push(44);
    out.push(34);
    out.push(105);
    out.push(110);
    out.push(99);
    out.push(114);
    out.push(101);
    out.push(109);
    out.push(101);
    out.push(110);
    out.push(116);
    out.push(34);
    out.push(58);
    proof {
        assert(out@ =~= old(out)@ + spec_tok_state_incr());
    }
}

/// The bytes of `,\"increment\":`, as a vector.
fn tok_state_incr() -> (r: Vec<u8>)
    ensures
        r@ == spec_tok_state_incr(),
{
    let mut t: Vec<u8> = Vec::new();
    push_tok_state_incr(&mut t);
    proof {
        assert(t@ =~= spec_tok_state_incr());
    }
    t
}

/// The position of the first non-digit at or after `pos`.
pub open spec fn spec_skip_digits(b: Seq<u8>, pos: int) -> int
    decreases b.len() - pos,
{
    if 0 <= pos && pos < b.len() && is_digit(b[pos]) {
        spec_skip_digits(b, pos + 1)
    } else {
        pos
    }
}

/// Skipping never moves left, and stays within the input when it starts
/// within it.
proof fn lemma_skip_digits_bounds(b: Seq<u8>, pos: int)
    ensures
        spec_skip_digits(b, pos) >= pos,
        pos <= b.len() ==> spec_skip_digits(b, pos) <= b.len(),
    decreases b.len() - pos,
{
    if 0 <= pos && pos < b.len() && is_digit(b[pos]) {
        lemma_skip_digits_bounds(b, pos + 1);
    }
}

/// Skipping moves exactly over the digit string of `n` whenever a non-digit
/// (or the end of the input) follows it.
proof fn lemma_skip_over_digits(b: Seq<u8>, pos: int, n: nat)
    requires
        0 <= pos,
        pos + spec_digits(n).len() <= b.len(),
        b.subrange(pos, pos + spec_digits(n).len()) == spec_digits(n),
        pos + spec_digits(n).len() == b.len() || !is_digit(b[pos + spec_digits(n).len()]),
    ensures
        spec_skip_digits(b, pos) == pos + spec_digits(n).len(),
    decreases n,
{
    lemma_digits_are_digits(n);
    let len = spec_digits(n).len() as int;
    assert forall|i: int| pos <= i < pos + len implies is_digit(#[trigger] b[i]) by {
        assert(b.subrange(pos, pos + len)[i - pos] == b[i]);
        assert(is_digit(spec_digits(n)[i - pos]));
    }
    lemma_skip_over_digits_run(b, pos, len);
}

/// Skipping moves over any run of digits followed by a non-digit (or the
/// end).
proof fn lemma_skip_over_digits_run(b: Seq<u8>, pos: int, len: int)
    requires
        0 <= pos,
        0 <= len,
        pos + len <= b.len(),
        forall|i: int| pos <= i < pos + len ==> is_digit(#[trigger] b[i]),
        pos + len == b.len() || !is_digit(b[pos + len]),
    ensures
        spec_skip_digits(b, pos) == pos + len,
    decreases len,
{
    if len > 0 {
        lemma_skip_over_digits_run(b, pos + 1, len - 1);
    }
}

/// Skip a run of digits at `pos`; `None` without a leading digit.
fn skip_digits(bytes: &[u8], pos: usize) -> (r: Option<usize>)
    ensures
        match r {
            Some(p) => pos < bytes@.len() && is_digit(bytes@[pos as int]) && p as int
                == spec_skip_digits(bytes@, pos as int),
            None => !(pos < bytes@.len() && is_digit(bytes@[pos as int])),
        },
{
    if !(pos < bytes.len() && 48 <= bytes[pos] && bytes[pos] <= 57) {
        return None;
    }
    let mut p = pos;
    while p < bytes.len() && 48 <= bytes[p] && bytes[p] <= 57
        invariant
            pos <= p <= bytes@.len(),
            spec_skip_digits(bytes@, pos as int) == spec_skip_digits(bytes@, p as int),
        decreases bytes@.len() - p,
    {
        p = p + 1;
    }
    Some(p)
}

// --------------------------------------------------------------------------
// Encoding
// --------------------------------------------------------------------------

/// The JSON atom of a firing condition.
pub open spec fn spec_enc_cond(c: NeuroneActivationCondition) -> Seq<u8> {
    match c {
        NeuroneActivationCondition::Air => spec_tok_air(),
        NeuroneActivationCondition::Obstacle => spec_tok_obstacle(),
    }
}

/// The JSON atom of a polarity.
pub open spec fn spec_enc_act(a: NeuroneActivation) -> Seq<u8> {
    match a {
        NeuroneActivation::Activate => spec_tok_activate(),
        NeuroneActivation::PreventActivate => spec_tok_prevent(),
    }
}

/// The JSON atom of a web action.
pub open spec fn spec_enc_action(a: NeuroneWebAction) -> Seq<u8> {
    match a {
        NeuroneWebAction::Jump => spec_tok_jump(),
        NeuroneWebAction::Bend => spec_tok_bend(),
        NeuroneWebAction::Unbend => spec_tok_unbend(),
    }
}

/// The JSON object of one neurone.
pub open spec fn spec_enc_neurone(n: Neurone) -> Seq<u8> {
    spec_tok_n_x() + spec_enc_i64_json(n.x) + spec_tok_n_y() + spec_enc_i64_json(n.y)
        + spec_tok_n_width() + spec_enc_i64_json(n.width) + spec_tok_n_height()
        + spec_enc_i64_json(n.height) + spec_tok_n_cond() + spec_enc_cond(n.activation_condition)
        + spec_tok_n_act() + spec_enc_act(n.activation) + seq![125u8]
}

/// The comma-separated JSON objects of the neurones from index `i` on.
pub open spec fn spec_enc_neurones(ns: Seq<Neurone>, i: int) -> Seq<u8>
    decreases ns.len() - i,
{
    if i < 0 || i >= ns.len() {
        Seq::empty()
    } else if i == ns.len() - 1 {
        spec_enc_neurone(ns[i])
    } else {
        spec_enc_neurone(ns[i]) + seq![44u8] + spec_enc_neurones(ns, i + 1)
    }
}

/// The JSON object of one web.
pub open spec fn spec_enc_web(w: WebView) -> Seq<u8> {
    spec_tok_web_open() + spec_enc_neurones(w.neurones, 0) + spec_tok_web_action()
        + spec_enc_action(w.action) + seq![125u8]
}

/// The comma-separated JSON objects of the webs from index `i` on.
pub open spec fn spec_enc_webs(ws: Seq<WebView>, i: int) -> Seq<u8>
    decreases ws.len() - i,
{
    if i < 0 || i >= ws.len() {
        Seq::empty()
    } else if i == ws.len() - 1 {
        spec_enc_web(ws[i])
    } else {
        spec_enc_web(ws[i]) + seq![44u8] + spec_enc_webs(ws, i + 1)
    }
}

/// The JSON object of one brain.
pub open spec fn spec_enc_brain(bv: Seq<WebView>) -> Seq<u8> {
    spec_tok_brain_open() + spec_enc_webs(bv, 0) + spec_tok_brain_close()
}

/// The comma-separated JSON objects of the brains from index `i` on.
pub open spec fn spec_enc_brains(bs: Seq<Seq<WebView>>, i: int) -> Seq<u8>
    decreases bs.len() - i,
{
    if i < 0 || i >= bs.len() {
        Seq::empty()
    } else if i == bs.len() - 1 {
        spec_enc_brain(bs[i])
    } else {
        spec_enc_brain(bs[i]) + seq![44u8] + spec_enc_brains(bs, i + 1)
    }
}

/// The JSON object of a generator state: the canonical encoding the
/// serialization library emits for its two state words.
pub open spec fn spec_enc_state(s: nat, incr: nat) -> Seq<u8> {
    spec_tok_state_open() + spec_digits(s) + spec_tok_state_incr() + spec_digits(incr) + seq![
        125u8,
    ]
}

/// The blob is a canonical generator-state object.
pub open spec fn is_state_json(b: Seq<u8>) -> bool {
    exists|s: nat, incr: nat| b == #[trigger] spec_enc_state(s, incr)
}

/// The JSON object of a checkpoint: the brains, the generator state spliced
/// verbatim, and the best score.
pub open spec fn spec_enc_checkpoint(cv: CheckpointView) -> Seq<u8> {
    spec_tok_cp_open() + spec_enc_brains(cv.brains, 0) + spec_tok_cp_rng() + cv.rng
        + spec_tok_cp_score() + spec_digits(cv.score as nat) + seq![125u8]
}

// --------------------------------------------------------------------------
// Decoding (specification)
// --------------------------------------------------------------------------

/// Decode a firing condition at `pos`.
pub open spec fn spec_dec_cond(b: Seq<u8>, pos: int) -> Option<(NeuroneActivationCondition, int)> {
    if spec_has_tok(b, pos, spec_tok_air()) {
        Some((NeuroneActivationCondition::Air, pos + spec_tok_air().len()))
    } else if spec_has_tok(b, pos, spec_tok_obstacle()) {
        Some((NeuroneActivationCondition::Obstacle, pos + spec_tok_obstacle().len()))
    } else {
        None
    }
}

/// Decode a polarity at `pos`.
pub open spec fn spec_dec_act(b: Seq<u8>, pos: int) -> Option<(NeuroneActivation, int)> {
    if spec_has_tok(b, pos, spec_tok_activate()) {
        Some((NeuroneActivation::Activate, pos + spec_tok_activate().len()))
    } else if spec_has_tok(b, pos, spec_tok_prevent()) {
        Some((NeuroneActivation::PreventActivate, pos + spec_tok_prevent().len()))
    } else {
        None
    }
}

/// Decode a web action at `pos`.
pub open spec fn spec_dec_action(b: Seq<u8>, pos: int) -> Option<(NeuroneWebAction, int)> {
    if spec_has_tok(b, pos, spec_tok_jump()) {
        Some((NeuroneWebAction::Jump, pos + spec_tok_jump().len()))
    } else if spec_has_tok(b, pos, spec_tok_bend()) {
        Some((NeuroneWebAction::Bend, pos + spec_tok_bend().len()))
    } else if spec_has_tok(b, pos, spec_tok_unbend()) {
        Some((NeuroneWebAction::Unbend, pos + spec_tok_unbend().len()))
    } else {
        None
    }
}

/// Decode one neurone object at `pos`.
pub open spec fn spec_dec_neurone(b: Seq<u8>, pos: int) -> Option<(Neurone, int)> {
    if !spec_has_tok(b, pos, spec_tok_n_x()) {
        None
    } else {
        match spec_dec_i64_json(b, pos + spec_tok_n_x().len()) {
            None => None,
            Some((x, p1)) => if !spec_has_tok(b, p1, spec_tok_n_y()) {
                None
            } else {
                match spec_dec_i64_json(b, p1 + spec_tok_n_y().len()) {
                    None => None,
                    Some((y, p2)) => if !spec_has_tok(b, p2, spec_tok_n_width()) {
                        None
                    } else {
                        match spec_dec_i64_json(b, p2 + spec_tok_n_width().len()) {
                            None => None,
                            Some((w, p3)) => if !spec_has_tok(b, p3, spec_tok_n_height()) {
                                None
                            } else {
                                match spec_dec_i64_json(b, p3 + spec_tok_n_height().len()) {
                                    None => None,
                                    Some((h, p4)) => if !spec_has_tok(b, p4, spec_tok_n_cond()) {
                                        None
                                    } else {
                                        match spec_dec_cond(b, p4 + spec_tok_n_cond().len()) {
                                            None => None,
                                            Some((c, p5)) => if !spec_has_tok(
                                                b,
                                                p5,
                                                spec_tok_n_act(),
                                            ) {
                                                None
                                            } else {
                                                match spec_dec_act(
                                                    b,
                                                    p5 + spec_tok_n_act().len(),
                                                ) {
                                                    None => None,
                                                    Some((a, p6)) => if 0 <= p6 && p6 < b.len()
                                                        && b[p6] == 125 {
                                                        Some(
                                                            (
                                                                Neurone {
                                                                    x,
                                                                    y,
                                                                    width: w,
                                                                    height: h,
                                                                    activation_condition: c,
                                                                    activation: a,
                                                                },
                                                                p6 + 1,
                                                            ),
                                                        )
                                                    } else {
                                                        None
                                                    },
                                                }
                                            },
                                        }
                                    },
                                }
                            },
                        }
                    },
                }
            },
        }
    }
}

/// Decode one or more comma-separated neurones at `pos`, appended to `acc`.
pub open spec fn spec_dec_neurones(b: Seq<u8>, pos: int, acc: Seq<Neurone>) -> Option<
    (Seq<Neurone>, int),
>
    decreases b.len() - pos,
{
    match spec_dec_neurone(b, pos) {
        None => None,
        Some((n, p)) => if p <= pos || p > b.len() {
            None
        } else if p < b.len() && b[p] == 44 {
            spec_dec_neurones(b, p + 1, acc.push(n))
        } else {
            Some((acc.push(n), p))
        },
    }
}

/// Decode the action-and-close tail of a web at `pos`.
pub open spec fn spec_dec_web_tail(b: Seq<u8>, pos: int, ns: Seq<Neurone>) -> Option<
    (WebView, int),
> {
    match spec_dec_action(b, pos) {
        None => None,
        Some((a, p)) => if 0 <= p && p < b.len() && b[p] == 125 {
            Some((WebView { neurones: ns, action: a }, p + 1))
        } else {
            None
        },
    }
}

/// Decode one web object at `pos`.
pub open spec fn spec_dec_web(b: Seq<u8>, pos: int) -> Option<(WebView, int)> {
    if !spec_has_tok(b, pos, spec_tok_web_open()) {
        None
    } else {
        let p0 = pos + spec_tok_web_open().len();
        if spec_has_tok(b, p0, spec_tok_web_action()) {
            spec_dec_web_tail(b, p0 + spec_tok_web_action().len(), Seq::empty())
        } else {
            match spec_dec_neurones(b, p0, Seq::empty()) {
                None => None,
                Some((ns, p1)) => if spec_has_tok(b, p1, spec_tok_web_action()) {
                    spec_dec_web_tail(b, p1 + spec_tok_web_action().len(), ns)
                } else {
                    None
                },
            }
        }
    }
}

/// Decode one or more comma-separated webs at `pos`, appended to `acc`.
pub open spec fn spec_dec_webs(b: Seq<u8>, pos: int, acc: Seq<WebView>) -> Option<
    (Seq<WebView>, int),
>
    decreases b.len() - pos,
{
    match spec_dec_web(b, pos) {
        None => None,
        Some((w, p)) => if p <= pos || p > b.len() {
            None
        } else if p < b.len() && b[p] == 44 {
            spec_dec_webs(b, p + 1, acc.push(w))
        } else {
            Some((acc.push(w), p))
        },
    }
}

/// Decode one brain object at `pos`.
pub open spec fn spec_dec_brain(b: Seq<u8>, pos: int) -> Option<(Seq<WebView>, int)> {
    if !spec_has_tok(b, pos, spec_tok_brain_open()) {
        None
    } else {
        let p0 = pos + spec_tok_brain_open().len();
        if spec_has_tok(b, p0, spec_tok_brain_close()) {
            Some((Seq::empty(), p0 + spec_tok_brain_close().len()))
        } else {
            match spec_dec_webs(b, p0, Seq::empty()) {
                None => None,
                Some((ws, p1)) => if spec_has_tok(b, p1, spec_tok_brain_close()) {
                    Some((ws, p1 + spec_tok_brain_close().len()))
                } else {
                    None
                },
            }
        }
    }
}

/// Decode one or more comma-separated brains at `pos`, appended to `acc`.
pub open spec fn spec_dec_brains(b: Seq<u8>, pos: int, acc: Seq<Seq<WebView>>) -> Option<
    (Seq<Seq<WebView>>, int),
>
    decreases b.len() - pos,
{
    match spec_dec_brain(b, pos) {
        None => None,
        Some((bv, p)) => if p <= pos || p > b.len() {
            None
        } else if p < b.len() && b[p] == 44 {
            spec_dec_brains(b, p + 1, acc.push(bv))
        } else {
            Some((acc.push(bv), p))
        },
    }
}

/// Decode a generator-state object at `pos`, returning its exact bytes.
pub open spec fn spec_dec_state(b: Seq<u8>, pos: int) -> Option<(Seq<u8>, int)> {
    if !spec_has_tok(b, pos, spec_tok_state_open()) {
        None
    } else {
        let p0 = pos + spec_tok_state_open().len();
        if !(p0 < b.len() && is_digit(b[p0])) {
            None
        } else {
            let p1 = spec_skip_digits(b, p0);
            if !spec_has_tok(b, p1, spec_tok_state_incr()) {
                None
            } else {
                let p2 = p1 + spec_tok_state_incr().len();
                if !(p2 < b.len() && is_digit(b[p2])) {
                    None
                } else {
                    let p3 = spec_skip_digits(b, p2);
                    if 0 <= p3 && p3 < b.len() && b[p3] == 125 {
                        Some((b.subrange(pos, p3 + 1), p3 + 1))
                    } else {
                        None
                    }
                }
            }
        }
    }
}

/// Decode one checkpoint object at `pos`.
pub open spec fn spec_dec_checkpoint(b: Seq<u8>, pos: int) -> Option<(CheckpointView, int)> {
    if !spec_has_tok(b, pos, spec_tok_cp_open()) {
        None
    } else {
        let p0 = pos + spec_tok_cp_open().len();
        let brains_res: Option<(Seq<Seq<WebView>>, int)> = if spec_has_tok(
            b,
            p0,
            spec_tok_cp_rng(),
        ) {
            Some((Seq::empty(), p0))
        } else {
            spec_dec_brains(b, p0, Seq::empty())
        };
        match brains_res {
            None => None,
            Some((bs, p1)) => if !spec_has_tok(b, p1, spec_tok_cp_rng()) {
                None
            } else {
                match spec_dec_state(b, p1 + spec_tok_cp_rng().len()) {
                    None => None,
                    Some((rng, p2)) => if !spec_has_tok(b, p2, spec_tok_cp_score()) {
                        None
                    } else {
                        match spec_dec_u64_json(b, p2 + spec_tok_cp_score().len()) {
                            None => None,
                            Some((score, p3)) => if 0 <= p3 && p3 < b.len() && b[p3] == 125 {
                                Some((CheckpointView { brains: bs, rng, score }, p3 + 1))
                            } else {
                                None
                            },
                        }
                    },
                }
            },
        }
    }
}

// --------------------------------------------------------------------------
// Round-trip lemmas
// --------------------------------------------------------------------------

/// A condition atom decodes back from its encoding, wherever it stands.
proof fn lemma_dec_cond_enc(b: Seq<u8>, pos: int, c: NeuroneActivationCondition)
    requires
        0 <= pos,
        pos + spec_enc_cond(c).len() <= b.len(),
        b.subrange(pos, pos + spec_enc_cond(c).len()) == spec_enc_cond(c),
    ensures
        spec_dec_cond(b, pos) == Some((c, pos + spec_enc_cond(c).len())),
{
    match c {
        NeuroneActivationCondition::Air => {
        },
        NeuroneActivationCondition::Obstacle => {
            assert(b[pos + 1] == spec_tok_obstacle()[1]) by {
                assert(b.subrange(pos, pos + spec_tok_obstacle().len())[1] == b[pos + 1]);
            }
            assert(!spec_has_tok(b, pos, spec_tok_air())) by {
                if spec_has_tok(b, pos, spec_tok_air()) {
                    assert(b.subrange(pos, pos + spec_tok_air().len())[1] == b[pos + 1]);
                }
            }
        },
    }
}

/// A polarity atom decodes back from its encoding, wherever it stands.
proof fn lemma_dec_act_enc(b: Seq<u8>, pos: int, a: NeuroneActivation)
    requires
        0 <= pos,
        pos + spec_enc_act(a).len() <= b.len(),
        b.subrange(pos, pos + spec_enc_act(a).len()) == spec_enc_act(a),
    ensures
        spec_dec_act(b, pos) == Some((a, pos + spec_enc_act(a).len())),
{
    match a {
        NeuroneActivation::Activate => {
        },
        NeuroneActivation::PreventActivate => {
            assert(b[pos + 1] == spec_tok_prevent()[1]) by {
                assert(b.subrange(pos, pos + spec_tok_prevent().len())[1] == b[pos + 1]);
            }
            assert(!spec_has_tok(b, pos, spec_tok_activate())) by {
                if spec_has_tok(b, pos, spec_tok_activate()) {
                    assert(b.subrange(pos, pos + spec_tok_activate().len())[1] == b[pos + 1]);
                }
            }
        },
    }
}

/// An action atom decodes back from its encoding, wherever it stands.
proof fn lemma_dec_action_enc(b: Seq<u8>, pos: int, a: NeuroneWebAction)
    requires
        0 <= pos,
        pos + spec_enc_action(a).len() <= b.len(),
        b.subrange(pos, pos + spec_enc_action(a).len()) == spec_enc_action(a),
    ensures
        spec_dec_action(b, pos) == Some((a, pos + spec_enc_action(a).len())),
{
    match a {
        NeuroneWebAction::Jump => {
        },
        NeuroneWebAction::Bend => {
            assert(b[pos + 1] == spec_tok_bend()[1]) by {
                assert(b.subrange(pos, pos + spec_tok_bend().len())[1] == b[pos + 1]);
            }
            assert(!spec_has_tok(b, pos, spec_tok_jump())) by {
                if spec_has_tok(b, pos, spec_tok_jump()) {
                    assert(b.subrange(pos, pos + spec_tok_jump().len())[1] == b[pos + 1]);
                }
            }
        },
        NeuroneWebAction::Unbend => {
            assert(b[pos + 1] == spec_tok_unbend()[1]) by {
                assert(b.subrange(pos, pos + spec_tok_unbend().len())[1] == b[pos + 1]);
            }
            assert(!spec_has_tok(b, pos, spec_tok_jump())) by {
                if spec_has_tok(b, pos, spec_tok_jump()) {
                    assert(b.subrange(pos, pos + spec_tok_jump().len())[1] == b[pos + 1]);
                }
            }
            assert(!spec_has_tok(b, pos, spec_tok_bend())) by {
                if spec_has_tok(b, pos, spec_tok_bend()) {
                    assert(b.subrange(pos, pos + spec_tok_bend().len())[1] == b[pos + 1]);
                }
            }
        },
    }
}

/// One neurone object decodes back from its encoding, wherever it stands.
#[verifier::rlimit(100)]
proof fn lemma_dec_neurone_enc(b: Seq<u8>, pos: int, n: Neurone)
    requires
        0 <= pos,
        pos + spec_enc_neurone(n).len() <= b.len(),
        b.subrange(pos, pos + spec_enc_neurone(n).len()) == spec_enc_neurone(n),
    ensures
        spec_dec_neurone(b, pos) == Some((n, pos + spec_enc_neurone(n).len())),
{
    let t1 = spec_tok_n_x();
    let e1 = spec_enc_i64_json(n.x);
    let t2 = spec_tok_n_y();
    let e2 = spec_enc_i64_json(n.y);
    let t3 = spec_tok_n_width();
    let e3 = spec_enc_i64_json(n.width);
    let t4 = spec_tok_n_height();
    let e4 = spec_enc_i64_json(n.height);
    let t5 = spec_tok_n_cond();
    let ce = spec_enc_cond(n.activation_condition);
    let t6 = spec_tok_n_act();
    let ae = spec_enc_act(n.activation);
    let cl = seq![125u8];
    let r12 = ae + cl;
    let r11 = t6 + r12;
    let r10 = ce + r11;
    let r9 = t5 + r10;
    let r8 = e4 + r9;
    let r7 = t4 + r8;
    let r6 = e3 + r7;
    let r5 = t3 + r6;
    let r4 = e2 + r5;
    let r3 = t2 + r4;
    let r2 = e1 + r3;
    assert(spec_enc_neurone(n) =~= t1 + r2);
    lemma_split(b, pos, t1, r2);
    let q1 = pos + t1.len();
    lemma_split(b, q1, e1, r3);
    let q2 = q1 + e1.len();
    lemma_split(b, q2, t2, r4);
    let q3 = q2 + t2.len();
    lemma_split(b, q3, e2, r5);
    let q4 = q3 + e2.len();
    lemma_split(b, q4, t3, r6);
    let q5 = q4 + t3.len();
    lemma_split(b, q5, e3, r7);
    let q6 = q5 + e3.len();
    lemma_split(b, q6, t4, r8);
    let q7 = q6 + t4.len();
    lemma_split(b, q7, e4, r9);
    let q8 = q7 + e4.len();
    lemma_split(b, q8, t5, r10);
    let q9 = q8 + t5.len();
    lemma_split(b, q9, ce, r11);
    let q10 = q9 + ce.len();
    lemma_split(b, q10, t6, r12);
    let q11 = q10 + t6.len();
    lemma_split(b, q11, ae, cl);
    let q12 = q11 + ae.len();

    // each number is followed by a comma or a closing quote, never a digit
    assert(b[q2] == t2[0]) by {
        assert(b.subrange(q2, q2 + t2.len())[0] == b[q2]);
    }
    lemma_dec_i64_json(b, q1, n.x);
    assert(b[q4] == t3[0]) by {
        assert(b.subrange(q4, q4 + t3.len())[0] == b[q4]);
    }
    lemma_dec_i64_json(b, q3, n.y);
    assert(b[q6] == t4[0]) by {
        assert(b.subrange(q6, q6 + t4.len())[0] == b[q6]);
    }
    lemma_dec_i64_json(b, q5, n.width);
    assert(b[q8] == t5[0]) by {
        assert(b.subrange(q8, q8 + t5.len())[0] == b[q8]);
    }
    lemma_dec_i64_json(b, q7, n.height);
    lemma_dec_cond_enc(b, q9, n.activation_condition);
    lemma_dec_act_enc(b, q11, n.activation);
    assert(b[q12] == 125) by {
        assert(b.subrange(q12, q12 + 1)[0] == b[q12]);
    }
}

/// Every neurone encoding starts with an opening brace and is non-empty.
proof fn lemma_enc_neurones_first(ns: Seq<Neurone>, i: int)
    requires
        0 <= i < ns.len(),
    ensures
        spec_enc_neurones(ns, i).len() >= 1,
        spec_enc_neurones(ns, i)[0] == 123,
{
    assert(spec_enc_neurone(ns[i])[0] == spec_tok_n_x()[0]);
    if i < ns.len() - 1 {
        assert(spec_enc_neurones(ns, i)[0] == spec_enc_neurone(ns[i])[0]);
    }
}

/// A run of comma-separated neurones decodes back from its encoding when a
/// non-comma follows it.
#[verifier::rlimit(100)]
proof fn lemma_dec_neurones_enc(b: Seq<u8>, pos: int, ns: Seq<Neurone>, i: int, acc: Seq<Neurone>)
    requires
        0 <= i < ns.len(),
        0 <= pos,
        pos + spec_enc_neurones(ns, i).len() <= b.len(),
        b.subrange(pos, pos + spec_enc_neurones(ns, i).len()) == spec_enc_neurones(ns, i),
        pos + spec_enc_neurones(ns, i).len() == b.len() || b[pos + spec_enc_neurones(ns, i).len()]
            != 44,
    ensures
        spec_dec_neurones(b, pos, acc) == Some(
            (acc + ns.skip(i), pos + spec_enc_neurones(ns, i).len()),
        ),
    decreases ns.len() - i,
{
    if i == ns.len() - 1 {
        lemma_dec_neurone_enc(b, pos, ns[i]);
        assert(spec_enc_neurone(ns[i]).len() >= 1);
        assert(acc.push(ns[i]) =~= acc + ns.skip(i));
    } else {
        let head = spec_enc_neurone(ns[i]);
        let comma = seq![44u8];
        let rest = spec_enc_neurones(ns, i + 1);
        assert(spec_enc_neurones(ns, i) =~= head + (comma + rest));
        lemma_split(b, pos, head, comma + rest);
        let p = pos + head.len();
        lemma_split(b, p, comma, rest);
        lemma_dec_neurone_enc(b, pos, ns[i]);
        assert(head.len() >= 1);
        assert(b[p] == 44) by {
            assert(b.subrange(p, p + 1)[0] == b[p]);
        }
        lemma_dec_neurones_enc(b, p + 1, ns, i + 1, acc.push(ns[i]));
        assert(acc.push(ns[i]) + ns.skip(i + 1) =~= acc + ns.skip(i));
    }
}

/// One web object decodes back from its encoding, wherever it stands.
#[verifier::rlimit(100)]
proof fn lemma_dec_web_enc(b: Seq<u8>, pos: int, w: WebView)
    requires
        0 <= pos,
        pos + spec_enc_web(w).len() <= b.len(),
        b.subrange(pos, pos + spec_enc_web(w).len()) == spec_enc_web(w),
    ensures
        spec_dec_web(b, pos) == Some((w, pos + spec_enc_web(w).len())),
{
    let t_wo = spec_tok_web_open();
    let ns_enc = spec_enc_neurones(w.neurones, 0);
    let t_wa = spec_tok_web_action();
    let ae = spec_enc_action(w.action);
    let cl = seq![125u8];
    let r3 = ae + cl;
    let r2 = t_wa + r3;
    let r1 = ns_enc + r2;
    assert(spec_enc_web(w) =~= t_wo + r1);
    lemma_split(b, pos, t_wo, r1);
    let p0 = pos + t_wo.len();
    lemma_split(b, p0, ns_enc, r2);
    let p1 = p0 + ns_enc.len();
    lemma_split(b, p1, t_wa, r3);
    let p2 = p1 + t_wa.len();
    lemma_split(b, p2, ae, cl);
    let p3 = p2 + ae.len();
    lemma_dec_action_enc(b, p2, w.action);
    assert(b[p3] == 125) by {
        assert(b.subrange(p3, p3 + 1)[0] == b[p3]);
    }
    if w.neurones.len() == 0 {
        assert(spec_dec_web_tail(b, p2, Seq::empty()) == Some(
            (WebView { neurones: Seq::empty(), action: w.action }, p3 + 1),
        ));
        assert(WebView { neurones: Seq::empty(), action: w.action } =~= w);
    } else {
        lemma_enc_neurones_first(w.neurones, 0);
        assert(b[p0] == 123) by {
            assert(b.subrange(p0, p0 + ns_enc.len())[0] == b[p0]);
        }
        assert(!spec_has_tok(b, p0, t_wa)) by {
            if spec_has_tok(b, p0, t_wa) {
                assert(b.subrange(p0, p0 + t_wa.len())[0] == b[p0]);
            }
        }
        assert(b[p1] == t_wa[0]) by {
            assert(b.subrange(p1, p1 + t_wa.len())[0] == b[p1]);
        }
        lemma_dec_neurones_enc(b, p0, w.neurones, 0, Seq::empty());
        assert(Seq::<Neurone>::empty() + w.neurones.skip(0) =~= w.neurones);
    }
}

/// Every web encoding starts with an opening brace and is non-empty.
proof fn lemma_enc_webs_first(ws: Seq<WebView>, i: int)
    requires
        0 <= i < ws.len(),
    ensures
        spec_enc_webs(ws, i).len() >= 1,
        spec_enc_webs(ws, i)[0] == 123,
{
    assert(spec_enc_web(ws[i])[0] == spec_tok_web_open()[0]);
    if i < ws.len() - 1 {
        assert(spec_enc_webs(ws, i)[0] == spec_enc_web(ws[i])[0]);
    }
}

/// A run of comma-separated webs decodes back from its encoding when a
/// non-comma follows it.
#[verifier::rlimit(100)]
proof fn lemma_dec_webs_enc(b: Seq<u8>, pos: int, ws: Seq<WebView>, i: int, acc: Seq<WebView>)
    requires
        0 <= i < ws.len(),
        0 <= pos,
        pos + spec_enc_webs(ws, i).len() <= b.len(),
        b.subrange(pos, pos + spec_enc_webs(ws, i).len()) == spec_enc_webs(ws, i),
        pos + spec_enc_webs(ws, i).len() == b.len() || b[pos + spec_enc_webs(ws, i).len()] != 44,
    ensures
        spec_dec_webs(b, pos, acc) == Some((acc + ws.skip(i), pos + spec_enc_webs(ws, i).len())),
    decreases ws.len() - i,
{
    if i == ws.len() - 1 {
        lemma_dec_web_enc(b, pos, ws[i]);
        assert(spec_enc_web(ws[i]).len() >= 1);
        assert(acc.push(ws[i]) =~= acc + ws.skip(i));
    } else {
        let head = spec_enc_web(ws[i]);
        let comma = seq![44u8];
        let rest = spec_enc_webs(ws, i + 1);
        assert(spec_enc_webs(ws, i) =~= head + (comma + rest));
        lemma_split(b, pos, head, comma + rest);
        let p = pos + head.len();
        lemma_split(b, p, comma, rest);
        lemma_dec_web_enc(b, pos, ws[i]);
        assert(head.len() >= 1);
        assert(b[p] == 44) by {
            assert(b.subrange(p, p + 1)[0] == b[p]);
        }
        lemma_dec_webs_enc(b, p + 1, ws, i + 1, acc.push(ws[i]));
        assert(acc.push(ws[i]) + ws.skip(i + 1) =~= acc + ws.skip(i));
    }
}

/// One brain object decodes back from its encoding, wherever it stands.
#[verifier::rlimit(100)]
proof fn lemma_dec_brain_enc(b: Seq<u8>, pos: int, bv: Seq<WebView>)
    requires
        0 <= pos,
        pos + spec_enc_brain(bv).len() <= b.len(),
        b.subrange(pos, pos + spec_enc_brain(bv).len()) == spec_enc_brain(bv),
    ensures
        spec_dec_brain(b, pos) == Some((bv, pos + spec_enc_brain(bv).len())),
{
    let t_bo = spec_tok_brain_open();
    let ws_enc = spec_enc_webs(bv, 0);
    let t_bc = spec_tok_brain_close();
    let r1 = ws_enc + t_bc;
    assert(spec_enc_brain(bv) =~= t_bo + r1);
    lemma_split(b, pos, t_bo, r1);
    let p0 = pos + t_bo.len();
    lemma_split(b, p0, ws_enc, t_bc);
    let p1 = p0 + ws_enc.len();
    if bv.len() == 0 {
        assert(bv =~= Seq::<WebView>::empty());
    } else {
        lemma_enc_webs_first(bv, 0);
        assert(b[p0] == 123) by {
            assert(b.subrange(p0, p0 + ws_enc.len())[0] == b[p0]);
        }
        assert(!spec_has_tok(b, p0, t_bc)) by {
            if spec_has_tok(b, p0, t_bc) {
                assert(b.subrange(p0, p0 + t_bc.len())[0] == b[p0]);
            }
        }
        assert(b[p1] == t_bc[0]) by {
            assert(b.subrange(p1, p1 + t_bc.len())[0] == b[p1]);
        }
        lemma_dec_webs_enc(b, p0, bv, 0, Seq::empty());
        assert(Seq::<WebView>::empty() + bv.skip(0) =~= bv);
    }
}

/// Every brain encoding starts with an opening brace and is non-empty.
proof fn lemma_enc_brains_first(bs: Seq<Seq<WebView>>, i: int)
    requires
        0 <= i < bs.len(),
    ensures
        spec_enc_brains(bs, i).len() >= 1,
        spec_enc_brains(bs, i)[0] == 123,
{
    assert(spec_enc_brain(bs[i])[0] == spec_tok_brain_open()[0]);
    if i < bs.len() - 1 {
        assert(spec_enc_brains(bs, i)[0] == spec_enc_brain(bs[i])[0]);
    }
}

/// A run of comma-separated brains decodes back from its encoding when a
/// non-comma follows it.
#[verifier::rlimit(100)]
proof fn lemma_dec_brains_enc(
    b: Seq<u8>,
    pos: int,
    bs: Seq<Seq<WebView>>,
    i: int,
    acc: Seq<Seq<WebView>>,
)
    requires
        0 <= i < bs.len(),
        0 <= pos,
        pos + spec_enc_brains(bs, i).len() <= b.len(),
        b.subrange(pos, pos + spec_enc_brains(bs, i).len()) == spec_enc_brains(bs, i),
        pos + spec_enc_brains(bs, i).len() == b.len() || b[pos + spec_enc_brains(bs, i).len()]
            != 44,
    ensures
        spec_dec_brains(b, pos, acc) == Some(
            (acc + bs.skip(i), pos + spec_enc_brains(bs, i).len()),
        ),
    decreases bs.len() - i,
{
    if i == bs.len() - 1 {
        lemma_dec_brain_enc(b, pos, bs[i]);
        assert(spec_enc_brain(bs[i]).len() >= 1);
        assert(acc.push(bs[i]) =~= acc + bs.skip(i));
    } else {
        let head = spec_enc_brain(bs[i]);
        let comma = seq![44u8];
        let rest = spec_enc_brains(bs, i + 1);
        assert(spec_enc_brains(bs, i) =~= head + (comma + rest));
        lemma_split(b, pos, head, comma + rest);
        let p = pos + head.len();
        lemma_split(b, p, comma, rest);
        lemma_dec_brain_enc(b, pos, bs[i]);
        assert(head.len() >= 1);
        assert(b[p] == 44) by {
            assert(b.subrange(p, p + 1)[0] == b[p]);
        }
        lemma_dec_brains_enc(b, p + 1, bs, i + 1, acc.push(bs[i]));
        assert(acc.push(bs[i]) + bs.skip(i + 1) =~= acc + bs.skip(i));
    }
}

/// A generator-state object decodes back to its own bytes, wherever it
/// stands.
#[verifier::rlimit(100)]
proof fn lemma_dec_state_enc(b: Seq<u8>, pos: int, s: nat, incr: nat)
    requires
        0 <= pos,
        pos + spec_enc_state(s, incr).len() <= b.len(),
        b.subrange(pos, pos + spec_enc_state(s, incr).len()) == spec_enc_state(s, incr),
    ensures
        spec_dec_state(b, pos) == Some(
            (spec_enc_state(s, incr), pos + spec_enc_state(s, incr).len()),
        ),
{
    let t_so = spec_tok_state_open();
    let ds = spec_digits(s);
    let t_si = spec_tok_state_incr();
    let di = spec_digits(incr);
    let cl = seq![125u8];
    let r3 = di + cl;
    let r2 = t_si + r3;
    let r1 = ds + r2;
    assert(spec_enc_state(s, incr) =~= t_so + r1);
    lemma_split(b, pos, t_so, r1);
    let p0 = pos + t_so.len();
    lemma_split(b, p0, ds, r2);
    let p1 = p0 + ds.len();
    lemma_split(b, p1, t_si, r3);
    let p2 = p1 + t_si.len();
    lemma_split(b, p2, di, cl);
    let p3 = p2 + di.len();
    lemma_digits_are_digits(s);
    lemma_digits_are_digits(incr);
    assert(b[p0] == ds[0]) by {
        assert(b.subrange(p0, p0 + ds.len())[0] == b[p0]);
    }
    assert(b[p1] == t_si[0]) by {
        assert(b.subrange(p1, p1 + t_si.len())[0] == b[p1]);
    }
    lemma_skip_over_digits(b, p0, s);
    assert(b[p2] == di[0]) by {
        assert(b.subrange(p2, p2 + di.len())[0] == b[p2]);
    }
    assert(b[p3] == 125) by {
        assert(b.subrange(p3, p3 + 1)[0] == b[p3]);
    }
    lemma_skip_over_digits(b, p2, incr);
    assert(b.subrange(pos, p3 + 1) =~= spec_enc_state(s, incr));
}

/// The round-trip law for brains: decoding an encoded brain yields the
/// brain back, consuming exactly its encoding.
pub proof fn lemma_brain_round_trip(bv: Seq<WebView>)
    ensures
        spec_dec_brain(spec_enc_brain(bv), 0) == Some((bv, spec_enc_brain(bv).len() as int)),
{
    let b = spec_enc_brain(bv);
    assert(b.subrange(0, b.len() as int) =~= b);
    lemma_dec_brain_enc(b, 0, bv);
}

/// The brains region of a checkpoint decodes to exactly the encoded
/// brains, stopping right before the closing token that follows them.
#[verifier::rlimit(100)]
proof fn lemma_cp_brains_part(b: Seq<u8>, p0: int, bs: Seq<Seq<WebView>>)
    requires
        0 <= p0,
        p0 + spec_enc_brains(bs, 0).len() + spec_tok_cp_rng().len() <= b.len(),
        b.subrange(p0, p0 + spec_enc_brains(bs, 0).len()) == spec_enc_brains(bs, 0),
        b.subrange(
            p0 + spec_enc_brains(bs, 0).len(),
            p0 + spec_enc_brains(bs, 0).len() + spec_tok_cp_rng().len(),
        ) == spec_tok_cp_rng(),
    ensures
        ({
            let p1 = p0 + spec_enc_brains(bs, 0).len();
            let res: Option<(Seq<Seq<WebView>>, int)> = if spec_has_tok(
                b,
                p0,
                spec_tok_cp_rng(),
            ) {
                Some((Seq::empty(), p0))
            } else {
                spec_dec_brains(b, p0, Seq::empty())
            };
            res == Some((bs, p1)) && spec_has_tok(b, p1, spec_tok_cp_rng())
        }),
{
    let p1 = p0 + spec_enc_brains(bs, 0).len();
    if bs.len() == 0 {
        assert(bs =~= Seq::<Seq<WebView>>::empty());
    } else {
        lemma_enc_brains_first(bs, 0);
        assert(b[p0] == 123) by {
            assert(b.subrange(p0, p0 + spec_enc_brains(bs, 0).len())[0] == b[p0]);
        }
        assert(!spec_has_tok(b, p0, spec_tok_cp_rng())) by {
            if spec_has_tok(b, p0, spec_tok_cp_rng()) {
                assert(b.subrange(p0, p0 + spec_tok_cp_rng().len())[0] == b[p0]);
            }
        }
        assert(b[p1] == spec_tok_cp_rng()[0]) by {
            assert(b.subrange(p1, p1 + spec_tok_cp_rng().len())[0] == b[p1]);
        }
        lemma_dec_brains_enc(b, p0, bs, 0, Seq::empty());
        assert(Seq::<Seq<WebView>>::empty() + bs.skip(0) =~= bs);
    }
}

/// One checkpoint object decodes back from its encoding, wherever it
/// stands, given the canonical form of its state blob.
#[verifier::rlimit(100)]
#[verifier::spinoff_prover]
proof fn lemma_dec_checkpoint_enc(b: Seq<u8>, pos: int, cv: CheckpointView, s: nat, incr: nat)
    requires
        cv.rng == spec_enc_state(s, incr),
        0 <= pos,
        pos + spec_enc_checkpoint(cv).len() <= b.len(),
        b.subrange(pos, pos + spec_enc_checkpoint(cv).len()) == spec_enc_checkpoint(cv),
    ensures
        spec_dec_checkpoint(b, pos) == Some((cv, pos + spec_enc_checkpoint(cv).len())),
{
    let t_co = spec_tok_cp_open();
    let bs_enc = spec_enc_brains(cv.brains, 0);
    let t_cr = spec_tok_cp_rng();
    let t_cs = spec_tok_cp_score();
    let dscore = spec_digits(cv.score as nat);
    let cl = seq![125u8];
    let r5 = dscore + cl;
    let r4 = t_cs + r5;
    let r3 = cv.rng + r4;
    let r2 = t_cr + r3;
    let r1 = bs_enc + r2;
    assert(spec_enc_checkpoint(cv) =~= t_co + r1);
    lemma_split(b, pos, t_co, r1);
    let p0 = pos + t_co.len();
    lemma_split(b, p0, bs_enc, r2);
    let p1 = p0 + bs_enc.len();
    lemma_split(b, p1, t_cr, r3);
    let p2 = p1 + t_cr.len();
    lemma_split(b, p2, cv.rng, r4);
    let p3 = p2 + cv.rng.len();
    lemma_split(b, p3, t_cs, r5);
    let p4 = p3 + t_cs.len();
    lemma_split(b, p4, dscore, cl);
    let p5 = p4 + dscore.len();

    lemma_cp_brains_part(b, p0, cv.brains);
    lemma_dec_state_enc(b, p2, s, incr);
    assert(b[p4] == dscore[0]) by {
        assert(b.subrange(p4, p4 + dscore.len())[0] == b[p4]);
    }
    lemma_digits_are_digits(cv.score as nat);
    assert(b[p5] == 125) by {
        assert(b.subrange(p5, p5 + 1)[0] == b[p5]);
    }
    lemma_dec_u64_json(b, p4, cv.score);
    assert(CheckpointView { brains: cv.brains, rng: cv.rng, score: cv.score } =~= cv);
}

/// The round-trip law for checkpoints: decoding an encoded checkpoint
/// yields the checkpoint back, consuming exactly its encoding.  The
/// generator state blob must be the canonical state object, which is
/// exactly what the generator's own serializer emits.
pub proof fn lemma_checkpoint_round_trip(cv: CheckpointView)
    requires
        is_state_json(cv.rng),
    ensures
        spec_dec_checkpoint(spec_enc_checkpoint(cv), 0) == Some(
            (cv, spec_enc_checkpoint(cv).len() as int),
        ),
{
    let b = spec_enc_checkpoint(cv);
    let (s, incr): (nat, nat) = choose|s: nat, incr: nat| cv.rng == #[trigger] spec_enc_state(
        s,
        incr,
    );
    assert(b.subrange(0, b.len() as int) =~= b);
    lemma_dec_checkpoint_enc(b, 0, cv, s, incr);
}

// --------------------------------------------------------------------------
// Executable encoding
// --------------------------------------------------------------------------

/// Append the atom of a firing condition.
fn push_cond(out: &mut Vec<u8>, c: NeuroneActivationCondition)
    ensures
        final(out)@ == old(out)@ + spec_enc_cond(c),
{
    match c {
        NeuroneActivationCondition::Air => push_tok_air(out),
        NeuroneActivationCondition::Obstacle => push_tok_obstacle(out),
    }
}

/// Append the atom of a polarity.
fn push_act(out: &mut Vec<u8>, a: NeuroneActivation)
    ensures
        final(out)@ == old(out)@ + spec_enc_act(a),
{
    match a {
        NeuroneActivation::Activate => push_tok_activate(out),
        NeuroneActivation::PreventActivate => push_tok_prevent(out),
    }
}

/// Append the atom of a web action.
fn push_action(out: &mut Vec<u8>, a: NeuroneWebAction)
    ensures
        final(out)@ == old(out)@ + spec_enc_action(a),
{
    match a {
        NeuroneWebAction::Jump => push_tok_jump(out),
        NeuroneWebAction::Bend => push_tok_bend(out),
        NeuroneWebAction::Unbend => push_tok_unbend(out),
    }
}

/// Append the object of one neurone.
fn push_neurone(out: &mut Vec<u8>, n: &Neurone)
    ensures
        final(out)@ == old(out)@ + spec_enc_neurone(*n),
{
    push_tok_n_x(out);
    push_i64_json(out, n.x);
    push_tok_n_y(out);
    push_i64_json(out, n.y);
    push_tok_n_width(out);
    push_i64_json(out, n.width);
    push_tok_n_height(out);
    push_i64_json(out, n.height);
    push_tok_n_cond(out);
    push_cond(out, n.activation_condition);
    push_tok_n_act(out);
    push_act(out, n.activation);
    out.push(125);
    proof {
        assert(out@ =~= old(out)@ + spec_enc_neurone(*n));
    }
}

/// Append the comma-separated objects of the neurones.
#[verifier::loop_isolation(false)]
fn push_neurones(out: &mut Vec<u8>, ns: &Vec<Neurone>)
    ensures
        final(out)@ == old(out)@ + spec_enc_neurones(ns@, 0),
{
    let mut i: usize = 0;
    while i < ns.len()
        invariant
            i <= ns@.len(),
            out@ + spec_enc_neurones(ns@, i as int) == old(out)@ + spec_enc_neurones(ns@, 0),
        decreases ns@.len() - i,
    {
        push_neurone(out, &ns[i]);
        if i + 1 < ns.len() {
            out.push(44);
        }
        proof {
            assert(out@ + spec_enc_neurones(ns@, i as int + 1) =~= old(out)@ + spec_enc_neurones(
                ns@,
                0,
            ));
        }
        i = i + 1;
    }
    proof {
        assert(out@ =~= old(out)@ + spec_enc_neurones(ns@, 0));
    }
}

/// Append the object of one web.
fn push_web(out: &mut Vec<u8>, w: &NeuroneWeb)
    ensures
        final(out)@ == old(out)@ + spec_enc_web(w@),
{
    push_tok_web_open(out);
    push_neurones(out, &w.neurones);
    push_tok_web_action(out);
    push_action(out, w.action);
    out.push(125);
    proof {
        assert(out@ =~= old(out)@ + spec_enc_web(w@));
    }
}

/// Append the comma-separated objects of the webs.
#[verifier::loop_isolation(false)]
fn push_webs(out: &mut Vec<u8>, webs: &Vec<NeuroneWeb>)
    ensures
        final(out)@ == old(out)@ + spec_enc_webs(webs_view(webs@), 0),
{
    let mut i: usize = 0;
    while i < webs.len()
        invariant
            i <= webs@.len(),
            out@ + spec_enc_webs(webs_view(webs@), i as int) == old(out)@ + spec_enc_webs(
                webs_view(webs@),
                0,
            ),
        decreases webs@.len() - i,
    {
        proof {
            assert(webs_view(webs@)[i as int] == webs@[i as int]@);
        }
        push_web(out, &webs[i]);
        if i + 1 < webs.len() {
            out.push(44);
        }
        proof {
            assert(out@ + spec_enc_webs(webs_view(webs@), i as int + 1) =~= old(out)@
                + spec_enc_webs(webs_view(webs@), 0));
        }
        i = i + 1;
    }
    proof {
        assert(out@ =~= old(out)@ + spec_enc_webs(webs_view(webs@), 0));
    }
}

/// Append the object of one brain.
fn push_brain(out: &mut Vec<u8>, b: &Brain)
    ensures
        final(out)@ == old(out)@ + spec_enc_brain(b@),
{
    push_tok_brain_open(out);
    push_webs(out, &b.neurone_web);
    push_tok_brain_close(out);
    proof {
        assert(out@ =~= old(out)@ + spec_enc_brain(b@));
    }
}

/// Append every byte of `v`.
fn push_bytes(out: &mut Vec<u8>, v: &Vec<u8>)
    ensures
        final(out)@ == old(out)@ + v@,
{
    let mut i: usize = 0;
    while i < v.len()
        invariant
            i <= v@.len(),
            out@ == old(out)@ + v@.take(i as int),
        decreases v@.len() - i,
    {
        out.push(v[i]);
        proof {
            assert(old(out)@ + v@.take(i as int) + seq![v@[i as int]] =~= old(out)@ + v@.take(
                i as int + 1,
            ));
        }
        i = i + 1;
    }
    proof {
        assert(old(out)@ + v@.take(v@.len() as int) =~= old(out)@ + v@);
    }
}

/// Encode a brain into its checkpoint JSON bytes.
pub fn encode_brain(b: &Brain) -> (r: Vec<u8>)
    ensures
        r@ == spec_enc_brain(b@),
{
    let mut out: Vec<u8> = Vec::new();
    push_brain(&mut out, b);
    proof {
        assert(out@ =~= spec_enc_brain(b@));
    }
    out
}

/// Encode a checkpoint into its file bytes: the JSON object of its brains,
/// generator state and score.
#[verifier::loop_isolation(false)]
pub fn encode_checkpoint(cp: &IntermediateResult) -> (r: Vec<u8>)
    ensures
        r@ == spec_enc_checkpoint(cp@),
{
    let mut out: Vec<u8> = Vec::new();
    push_tok_cp_open(&mut out);
    let ghost mid = out@;
    let mut i: usize = 0;
    while i < cp.brains.len()
        invariant
            i <= cp.brains@.len(),
            out@ + spec_enc_brains(cp@.brains, i as int) == mid + spec_enc_brains(cp@.brains, 0),
        decreases cp.brains@.len() - i,
    {
        proof {
            assert(cp@.brains[i as int] == cp.brains@[i as int]@);
        }
        push_brain(&mut out, &cp.brains[i]);
        if i + 1 < cp.brains.len() {
            out.push(44);
        }
        proof {
            assert(out@ + spec_enc_brains(cp@.brains, i as int + 1) =~= mid + spec_enc_brains(
                cp@.brains,
                0,
            ));
        }
        i = i + 1;
    }
    proof {
        assert(out@ =~= mid + spec_enc_brains(cp@.brains, 0));
    }
    push_tok_cp_rng(&mut out);
    push_bytes(&mut out, &cp.rng);
    push_tok_cp_score(&mut out);
    push_u64_digits(&mut out, cp.score);
    out.push(125);
    proof {
        assert(out@ =~= spec_enc_checkpoint(cp@));
    }
    out
}

// --------------------------------------------------------------------------
// Executable decoding
// --------------------------------------------------------------------------

/// Decode a firing condition at `pos`.
fn dec_cond(bytes: &[u8], pos: usize) -> (r: Option<(NeuroneActivationCondition, usize)>)
    ensures
        match r {
            Some((c, p)) => spec_dec_cond(bytes@, pos as int) == Some((c, p as int)),
            None => spec_dec_cond(bytes@, pos as int) is None,
        },
{
    let air = tok_air();
    match expect_bytes(bytes, pos, &air) {
        Some(p) => {
            return Some((NeuroneActivationCondition::Air, p));
        },
        None => {},
    }
    let obstacle = tok_obstacle();
    match expect_bytes(bytes, pos, &obstacle) {
        Some(p) => Some((NeuroneActivationCondition::Obstacle, p)),
        None => None,
    }
}

/// Decode a polarity at `pos`.
fn dec_act(bytes: &[u8], pos: usize) -> (r: Option<(NeuroneActivation, usize)>)
    ensures
        match r {
            Some((a, p)) => spec_dec_act(bytes@, pos as int) == Some((a, p as int)),
            None => spec_dec_act(bytes@, pos as int) is None,
        },
{
    let activate = tok_activate();
    match expect_bytes(bytes, pos, &activate) {
        Some(p) => {
            return Some((NeuroneActivation::Activate, p));
        },
        None => {},
    }
    let prevent = tok_prevent();
    match expect_bytes(bytes, pos, &prevent) {
        Some(p) => Some((NeuroneActivation::PreventActivate, p)),
        None => None,
    }
}

/// Decode a web action at `pos`.
fn dec_action(bytes: &[u8], pos: usize) -> (r: Option<(NeuroneWebAction, usize)>)
    ensures
        match r {
            Some((a, p)) => spec_dec_action(bytes@, pos as int) == Some((a, p as int)),
            None => spec_dec_action(bytes@, pos as int) is None,
        },
{
    let jump = tok_jump();
    match expect_bytes(bytes, pos, &jump) {
        Some(p) => {
            return Some((NeuroneWebAction::Jump, p));
        },
        None => {},
    }
    let bend = tok_bend();
    match expect_bytes(bytes, pos, &bend) {
        Some(p) => {
            return Some((NeuroneWebAction::Bend, p));
        },
        None => {},
    }
    let unbend = tok_unbend();
    match expect_bytes(bytes, pos, &unbend) {
        Some(p) => Some((NeuroneWebAction::Unbend, p)),
        None => None,
    }
}

/// Decode one neurone object at `pos`.
#[verifier::rlimit(100)]
fn dec_neurone(bytes: &[u8], pos: usize) -> (r: Option<(Neurone, usize)>)
    ensures
        match r {
            Some((n, p)) => spec_dec_neurone(bytes@, pos as int) == Some((n, p as int)),
            None => spec_dec_neurone(bytes@, pos as int) is None,
        },
{
    let t = tok_n_x();
    let p = match expect_bytes(bytes, pos, &t) {
        Some(p) => p,
        None => {
            return None;
        },
    };
    let (x, p) = match parse_i64(bytes, p) {
        Some(v) => v,
        None => {
            return None;
        },
    };
    let t = tok_n_y();
    let p = match expect_bytes(bytes, p, &t) {
        Some(p) => p,
        None => {
            return None;
        },
    };
    let (y, p) = match parse_i64(bytes, p) {
        Some(v) => v,
        None => {
            return None;
        },
    };
    let t = tok_n_width();
    let p = match expect_bytes(bytes, p, &t) {
        Some(p) => p,
        None => {
            return None;
        },
    };
    let (w, p) = match parse_i64(bytes, p) {
        Some(v) => v,
        None => {
            return None;
        },
    };
    let t = tok_n_height();
    let p = match expect_bytes(bytes, p, &t) {
        Some(p) => p,
        None => {
            return None;
        },
    };
    let (h, p) = match parse_i64(bytes, p) {
        Some(v) => v,
        None => {
            return None;
        },
    };
    let t = tok_n_cond();
    let p = match expect_bytes(bytes, p, &t) {
        Some(p) => p,
        None => {
            return None;
        },
    };
    let (c, p) = match dec_cond(bytes, p) {
        Some(v) => v,
        None => {
            return None;
        },
    };
    let t = tok_n_act();
    let p = match expect_bytes(bytes, p, &t) {
        Some(p) => p,
        None => {
            return None;
        },
    };
    let (a, p) = match dec_act(bytes, p) {
        Some(v) => v,
        None => {
            return None;
        },
    };
    if p < bytes.len() && bytes[p] == 125 {
        Some(
            (
                Neurone {
                    x,
                    y,
                    width: w,
                    height: h,
                    activation_condition: c,
                    activation: a,
                },
                p + 1,
            ),
        )
    } else {
        None
    }
}

/// Decode one or more comma-separated neurones at `pos`, appended to `acc`.
fn dec_neurones(bytes: &[u8], pos: usize, acc: Vec<Neurone>) -> (r: Option<(Vec<Neurone>, usize)>)
    ensures
        match r {
            Some((ns, p)) => spec_dec_neurones(bytes@, pos as int, acc@) == Some(
                (ns@, p as int),
            ),
            None => spec_dec_neurones(bytes@, pos as int, acc@) is None,
        },
    decreases bytes@.len() - pos,
{
    match dec_neurone(bytes, pos) {
        None => None,
        Some((n, p)) => {
            if p <= pos || p > bytes.len() {
                None
            } else if p < bytes.len() && bytes[p] == 44 {
                let mut acc2 = acc;
                acc2.push(n);
                dec_neurones(bytes, p + 1, acc2)
            } else {
                let mut acc2 = acc;
                acc2.push(n);
                Some((acc2, p))
            }
        },
    }
}

/// Decode one web object at `pos`.
#[verifier::rlimit(100)]
fn dec_web(bytes: &[u8], pos: usize) -> (r: Option<(NeuroneWeb, usize)>)
    ensures
        match r {
            Some((w, p)) => spec_dec_web(bytes@, pos as int) == Some((w@, p as int)),
            None => spec_dec_web(bytes@, pos as int) is None,
        },
{
    let t = tok_web_open();
    let p0 = match expect_bytes(bytes, pos, &t) {
        Some(p) => p,
        None => {
            return None;
        },
    };
    let t_wa = tok_web_action();
    let (neurones, p1) = match expect_bytes(bytes, p0, &t_wa) {
        Some(p) => (Vec::new(), p),
        None => {
            let empty_ns: Vec<Neurone> = Vec::new();
            proof {
                assert(empty_ns@ =~= Seq::<Neurone>::empty());
            }
            let (ns, p) = match dec_neurones(bytes, p0, empty_ns) {
                Some(v) => v,
                None => {
                    return None;
                },
            };
            match expect_bytes(bytes, p, &t_wa) {
                Some(p2) => (ns, p2),
                None => {
                    return None;
                },
            }
        },
    };
    let (action, p2) = match dec_action(bytes, p1) {
        Some(v) => v,
        None => {
            return None;
        },
    };
    if p2 < bytes.len() && bytes[p2] == 125 {
        let w = NeuroneWeb { neurones, action };
        proof {
            assert(w@ =~= (WebView { neurones: w.neurones@, action: w.action }));
        }
        Some((w, p2 + 1))
    } else {
        None
    }
}

/// Decode one or more comma-separated webs at `pos`, appended to `acc`.
fn dec_webs(bytes: &[u8], pos: usize, acc: Vec<NeuroneWeb>) -> (r: Option<
    (Vec<NeuroneWeb>, usize),
>)
    ensures
        match r {
            Some((ws, p)) => spec_dec_webs(bytes@, pos as int, webs_view(acc@)) == Some(
                (webs_view(ws@), p as int),
            ),
            None => spec_dec_webs(bytes@, pos as int, webs_view(acc@)) is None,
        },
    decreases bytes@.len() - pos,
{
    match dec_web(bytes, pos) {
        None => None,
        Some((w, p)) => {
            if p <= pos || p > bytes.len() {
                None
            } else if p < bytes.len() && bytes[p] == 44 {
                let ghost pre = acc@;
                let mut acc2 = acc;
                acc2.push(w);
                proof {
                    assert(webs_view(acc2@) =~= webs_view(pre).push(w@));
                }
                dec_webs(bytes, p + 1, acc2)
            } else {
                let ghost pre = acc@;
                let mut acc2 = acc;
                acc2.push(w);
                proof {
                    assert(webs_view(acc2@) =~= webs_view(pre).push(w@));
                }
                Some((acc2, p))
            }
        },
    }
}

/// Decode one brain object at `pos`.
#[verifier::rlimit(100)]
fn dec_brain(bytes: &[u8], pos: usize) -> (r: Option<(Brain, usize)>)
    ensures
        match r {
            Some((b, p)) => spec_dec_brain(bytes@, pos as int) == Some((b@, p as int)),
            None => spec_dec_brain(bytes@, pos as int) is None,
        },
{
    let t = tok_brain_open();
    let p0 = match expect_bytes(bytes, pos, &t) {
        Some(p) => p,
        None => {
            return None;
        },
    };
    let t_bc = tok_brain_close();
    match expect_bytes(bytes, p0, &t_bc) {
        Some(p) => {
            let b = Brain { neurone_web: Vec::new() };
            proof {
                assert(b@ =~= Seq::<WebView>::empty());
            }
            return Some((b, p));
        },
        None => {},
    }
    let empty_ws: Vec<NeuroneWeb> = Vec::new();
    proof {
        assert(webs_view(empty_ws@) =~= Seq::<WebView>::empty());
    }
    let (ws, p1) = match dec_webs(bytes, p0, empty_ws) {
        Some(v) => v,
        None => {
            return None;
        },
    };
    match expect_bytes(bytes, p1, &t_bc) {
        Some(p2) => {
            let b = Brain { neurone_web: ws };
            proof {
                assert(b@ =~= webs_view(ws@));
            }
            Some((b, p2))
        },
        None => None,
    }
}

/// Decode one or more comma-separated brains at `pos`, appended to `acc`.
fn dec_brains(bytes: &[u8], pos: usize, acc: Vec<Brain>) -> (r: Option<(Vec<Brain>, usize)>)
    ensures
        match r {
            Some((bs, p)) => spec_dec_brains(bytes@, pos as int, brains_view(acc@)) == Some(
                (brains_view(bs@), p as int),
            ),
            None => spec_dec_brains(bytes@, pos as int, brains_view(acc@)) is None,
        },
    decreases bytes@.len() - pos,
{
    match dec_brain(bytes, pos) {
        None => None,
        Some((b, p)) => {
            if p <= pos || p > bytes.len() {
                None
            } else if p < bytes.len() && bytes[p] == 44 {
                let ghost pre = acc@;
                let mut acc2 = acc;
                acc2.push(b);
                proof {
                    assert(brains_view(acc2@) =~= brains_view(pre).push(b@));
                }
                dec_brains(bytes, p + 1, acc2)
            } else {
                let ghost pre = acc@;
                let mut acc2 = acc;
                acc2.push(b);
                proof {
                    assert(brains_view(acc2@) =~= brains_view(pre).push(b@));
                }
                Some((acc2, p))
            }
        },
    }
}

/// Decode a generator-state object at `pos`, returning its exact bytes.
fn dec_state(bytes: &[u8], pos: usize) -> (r: Option<(Vec<u8>, usize)>)
    ensures
        match r {
            Some((v, p)) => spec_dec_state(bytes@, pos as int) == Some((v@, p as int)),
            None => spec_dec_state(bytes@, pos as int) is None,
        },
{
    let t = tok_state_open();
    let p0 = match expect_bytes(bytes, pos, &t) {
        Some(p) => p,
        None => {
            return None;
        },
    };
    let p1 = match skip_digits(bytes, p0) {
        Some(p) => p,
        None => {
            return None;
        },
    };
    let t_si = tok_state_incr();
    let p2 = match expect_bytes(bytes, p1, &t_si) {
        Some(p) => p,
        None => {
            return None;
        },
    };
    let p3 = match skip_digits(bytes, p2) {
        Some(p) => p,
        None => {
            return None;
        },
    };
    if p3 < bytes.len() && bytes[p3] == 125 {
        proof {
            lemma_skip_digits_bounds(bytes@, p0 as int);
            lemma_skip_digits_bounds(bytes@, p2 as int);
        }
        let span = slice_subrange(bytes, pos, p3 + 1);
        Some((slice_to_vec(span), p3 + 1))
    } else {
        None
    }
}

/// Decode a whole brain from its checkpoint bytes; `None` unless the bytes
/// are exactly one valid encoding.
pub fn decode_brain(bytes: &[u8]) -> (r: Option<Brain>)
    ensures
        match r {
            Some(b) => spec_dec_brain(bytes@, 0) == Some((b@, bytes@.len() as int)),
            None => spec_dec_brain(bytes@, 0) matches Some(t) ==> t.1 != bytes@.len(),
        },
{
    match dec_brain(bytes, 0) {
        Some((b, p)) => {
            if p == bytes.len() {
                Some(b)
            } else {
                None
            }
        },
        None => None,
    }
}

/// Decode a whole checkpoint from its file bytes; `None` unless the bytes
/// are exactly one valid encoding.
#[verifier::rlimit(100)]
pub fn decode_checkpoint(bytes: &[u8]) -> (r: Option<IntermediateResult>)
    ensures
        match r {
            Some(cp) => spec_dec_checkpoint(bytes@, 0) == Some((cp@, bytes@.len() as int)),
            None => spec_dec_checkpoint(bytes@, 0) matches Some(t) ==> t.1 != bytes@.len(),
        },
{
    let t = tok_cp_open();
    let p0 = match expect_bytes(bytes, 0, &t) {
        Some(p) => p,
        None => {
            return None;
        },
    };
    let t_cr = tok_cp_rng();
    let (brains, p1) = match expect_bytes(bytes, p0, &t_cr) {
        Some(_) => {
            let empty_brains: Vec<Brain> = Vec::new();
            proof {
                assert(brains_view(empty_brains@) =~= Seq::<Seq<WebView>>::empty());
            }
            (empty_brains, p0)
        },
        None => {
            let empty_bs: Vec<Brain> = Vec::new();
            proof {
                assert(brains_view(empty_bs@) =~= Seq::<Seq<WebView>>::empty());
            }
            match dec_brains(bytes, p0, empty_bs) {
                Some(v) => v,
                None => {
                    return None;
                },
            }
        },
    };
    let p2 = match expect_bytes(bytes, p1, &t_cr) {
        Some(p) => p,
        None => {
            return None;
        },
    };
    let (rng, p3) = match dec_state(bytes, p2) {
        Some(v) => v,
        None => {
            return None;
        },
    };
    let t_cs = tok_cp_score();
    let p4 = match expect_bytes(bytes, p3, &t_cs) {
        Some(p) => p,
        None => {
            return None;
        },
    };
    let (score, p5) = match parse_u64(bytes, p4) {
        Some(v) => v,
        None => {
            return None;
        },
    };
    if p5 < bytes.len() && bytes[p5] == 125 && p5 + 1 == bytes.len() {
        let cp = IntermediateResult { brains, rng, score };
        proof {
            assert(cp@ =~= (CheckpointView {
                brains: brains_view(cp.brains@),
                rng: cp.rng@,
                score: cp.score,
            }));
        }
        Some(cp)
    } else {
        None
    }
}

/// The bytes of `brain`.
pub open spec fn spec_tok_file_prefix() -> Seq<u8> {
    seq![98u8, 114u8, 97u8, 105u8, 110u8]
}

/// Append the bytes of `brain`.
fn push_tok_file_prefix(out: &mut Vec<u8>)
    ensures
        final(out)@ == old(out)@ + spec_tok_file_prefix(),
{
    out.push(98);
    out.push(114);
    out.push(97);
    out.push(105);
    out.push(110);
    proof {
        assert(out@ =~= old(out)@ + spec_tok_file_prefix());
    }
}

/// The bytes of `brain`, as a vector.
fn tok_file_prefix() -> (r: Vec<u8>)
    ensures
        r@ == spec_tok_file_prefix(),
{
    let mut t: Vec<u8> = Vec::new();
    push_tok_file_prefix(&mut t);
    proof {
        assert(t@ =~= spec_tok_file_prefix());
    }
    t
}

/// The bytes of `.json`.
pub open spec fn spec_tok_file_suffix() -> Seq<u8> {
    seq![46u8, 106u8, 115u8, 111u8, 110u8]
}

/// Append the bytes of `.json`.
fn push_tok_file_suffix(out: &mut Vec<u8>)
    ensures
        final(out)@ == old(out)@ + spec_tok_file_suffix(),
{
    out.push(46);
    out.push(106);
    out.push(115);
    out.push(111);
    out.push(110);
    proof {
        assert(out@ =~= old(out)@ + spec_tok_file_suffix());
    }
}

/// The bytes of `.json`, as a vector.
fn tok_file_suffix() -> (r: Vec<u8>)
    ensures
        r@ == spec_tok_file_suffix(),
{
    let mut t: Vec<u8> = Vec::new();
    push_tok_file_suffix(&mut t);
    proof {
        assert(t@ =~= spec_tok_file_suffix());
    }
    t
}

/// The checkpoint index of a file name of the form `brain<N>.json`, where
/// `<N>` is a decimal 64-bit number; `None` for any other name.
pub open spec fn spec_brain_file_index(b: Seq<u8>) -> Option<u64> {
    if !spec_has_tok(b, 0, spec_tok_file_prefix()) {
        None
    } else {
        match spec_dec_u64_json(b, spec_tok_file_prefix().len() as int) {
            None => None,
            Some((n, p)) => if spec_has_tok(b, p, spec_tok_file_suffix()) && p
                + spec_tok_file_suffix().len() == b.len() {
                Some(n)
            } else {
                None
            },
        }
    }
}

/// Parse the checkpoint index out of a file name of the form
/// `brain<N>.json`.
pub fn brain_file_index(name: &str) -> (r: Option<u64>)
    ensures
        r == spec_brain_file_index(name.spec_bytes()),
{
    let bytes = name.as_bytes();
    let prefix = tok_file_prefix();
    let p = match expect_bytes(bytes, 0, &prefix) {
        Some(p) => p,
        None => {
            return None;
        },
    };
    let (n, p) = match parse_u64(bytes, p) {
        Some(v) => v,
        None => {
            return None;
        },
    };
    let suffix = tok_file_suffix();
    match expect_bytes(bytes, p, &suffix) {
        Some(p2) => {
            if p2 == bytes.len() {
                Some(n)
            } else {
                None
            }
        },
        None => None,
    }
}

} // verus!
