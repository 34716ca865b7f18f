//! The BIP34 block-height push that opens every coinbase `script_sig`.

use vstd::prelude::*;

verus! {

/// Little-endian base-256 digits of `n`, without trailing zero digits.
pub open spec fn le_digits(n: nat) -> Seq<u8>
    decreases n,
{
    if n == 0 {
        Seq::empty()
    } else {
        seq![(n % 256) as u8] + le_digits(n / 256)
    }
}

/// The body of a positive script number: its little-endian digits, followed by a
/// zero byte when the top bit of the last digit would otherwise read as a sign.
pub open spec fn script_num_body(n: nat) -> Seq<u8> {
    let digits = le_digits(n);
    if digits.len() > 0 && digits.last() >= 0x80 {
        digits.push(0u8)
    } else {
        digits
    }
}

/// The push of `height` that BIP34 places at the start of the coinbase
/// `script_sig`: a length byte, then the script-number body. Height zero is
/// pushed as the single byte `0x00`.
pub open spec fn bip34_push(height: nat) -> Seq<u8> {
    if height == 0 {
        seq![1u8, 0u8]
    } else {
        let body = script_num_body(height);
        seq![body.len() as u8] + body
    }
}

/// Little-endian value of a byte string.
pub open spec fn le_value(bytes: Seq<u8>) -> nat
    decreases bytes.len(),
{
    if bytes.len() == 0 {
        0
    } else {
        bytes[0] as nat + 256 * le_value(bytes.drop_first())
    }
}

/// The value a script-number body denotes: little-endian magnitude, with the top
/// bit of the last byte as the sign.
pub open spec fn script_num_value(body: Seq<u8>) -> int {
    if body.len() == 0 {
        0
    } else {
        let last = body.last();
        let magnitude = body.drop_last().push((last % 128) as u8);
        if last >= 128 {
            -(le_value(magnitude) as int)
        } else {
            le_value(magnitude) as int
        }
    }
}

/// A script-number body is minimal when it has no superfluous trailing byte.
pub open spec fn is_minimal_script_num(body: Seq<u8>) -> bool {
    body.len() > 0 ==> (body.last() % 128 != 0 || (body.len() > 1 && body[body.len() - 2] >= 128))
}

/// Encode block height for BIP34 coinbase script_sig.
pub fn encode_bip34_height(height: u64) -> (script: Vec<u8>)
    ensures
        script@ == bip34_push(height as nat),
{
    if height == 0 {
        return vec![1, 0];
    }
    let mut height_bytes: Vec<u8> = Vec::new();
    let mut h: u64 = height;
    proof {
        reveal_with_fuel(pow256, 9);
        assert(pow256(8) == 0x1_0000_0000_0000_0000);
        lemma_le_digits_len_bound(height as nat, 8);
    }
    while h > 0
        invariant
            height_bytes@ + le_digits(h as nat) == le_digits(height as nat),
            le_digits(height as nat).len() <= 8,
        decreases h,
    {
        let ghost before = height_bytes@;
        let ghost h0 = h as nat;
        height_bytes.push((h % 256) as u8);
        h = h / 256;
        proof {
            assert(le_digits(h0) == seq![(h0 % 256) as u8] + le_digits(h as nat));
            assert(height_bytes@ + le_digits(h as nat) == before + le_digits(h0));
        }
    }
    let ghost digits = height_bytes@;
    proof {
        assert(le_digits(0) == Seq::<u8>::empty());
        assert(digits + Seq::<u8>::empty() == digits);
    }
    let last = height_bytes[height_bytes.len() - 1];
    if last >= 0x80 {
        height_bytes.push(0x00);
    }
    let mut script: Vec<u8> = vec![height_bytes.len() as u8];
    let mut i: usize = 0;
    while i < height_bytes.len()
        invariant
            i <= height_bytes@.len(),
            script@ == seq![height_bytes@.len() as u8] + height_bytes@.subrange(0, i as int),
        decreases height_bytes@.len() - i,
    {
        script.push(height_bytes[i]);
        i = i + 1;
        proof {
            assert(height_bytes@.subrange(0, i as int) == height_bytes@.subrange(0, i - 1).push(height_bytes@[i - 1]));
        }
    }
    proof {
        assert(height_bytes@.subrange(0, height_bytes@.len() as int) == height_bytes@);
    }
    script
}

pub open spec fn pow256(k: nat) -> nat
    decreases k,
{
    if k == 0 { 1 } else { 256 * pow256((k - 1) as nat) }
}

proof fn lemma_le_digits_len_bound(n: nat, k: nat)
    requires
        n < pow256(k),
    ensures
        le_digits(n).len() <= k,
    decreases k,
{
    if n > 0 {
        lemma_le_digits_len_bound(n / 256, (k - 1) as nat);
    }
}

proof fn lemma_le_value_digits(n: nat)
    ensures
        le_value(le_digits(n)) == n,
        n > 0 ==> le_digits(n).len() > 0 && le_digits(n).last() != 0,
    decreases n,
{
    if n > 0 {
        lemma_le_value_digits(n / 256);
        let d = le_digits(n);
        assert(d.drop_first() == le_digits(n / 256));
    }
}

proof fn lemma_le_value_trailing_zero(s: Seq<u8>)
    ensures
        le_value(s.push(0u8)) == le_value(s),
    decreases s.len(),
{
    if s.len() > 0 {
        lemma_le_value_trailing_zero(s.drop_first());
        assert(s.push(0u8).drop_first() == s.drop_first().push(0u8));
        assert(s.push(0u8)[0] == s[0]);
    } else {
        assert(s.push(0u8).drop_first() == Seq::<u8>::empty());
        reveal_with_fuel(le_value, 2);
    }
}

/// The BIP34 push of any height is a direct push of at most nine bytes whose
/// length byte counts the body, and the body reads back as the height; for a
/// positive height the body is the minimal script-number encoding.
pub proof fn lemma_bip34_push_roundtrip(height: u64)
    ensures
        bip34_push(height as nat).len() >= 2,
        bip34_push(height as nat)[0] as int == bip34_push(height as nat).len() - 1,
        bip34_push(height as nat)[0] <= 9,
        script_num_value(bip34_push(height as nat).drop_first()) == height as int,
        height > 0 ==> is_minimal_script_num(bip34_push(height as nat).drop_first()),
{
    let push = bip34_push(height as nat);
    if height == 0 {
        let body = push.drop_first();
        assert(body == seq![0u8]);
        assert(body.drop_last().push(0u8) == seq![0u8]);
        reveal_with_fuel(le_value, 2);
    } else {
        let n = height as nat;
        let digits = le_digits(n);
        lemma_le_value_digits(n);
        reveal_with_fuel(pow256, 9);
        lemma_le_digits_len_bound(n, 8);
        let body = script_num_body(n);
        assert(push.drop_first() == body);
        if digits.last() >= 0x80 {
            assert(body.drop_last() == digits);
            assert(body.last() == 0u8);
            assert(body.drop_last().push((body.last() % 128) as u8) == digits.push(0u8));
            lemma_le_value_trailing_zero(digits);
            assert(body[body.len() - 2] == digits.last());
        } else {
            assert(body.drop_last().push((body.last() % 128) as u8) == digits);
        }
    }
}

} // verus!
