//! The canonical byte encoding of a settlement claim.
//!
//! A claim is the tuple (call identifier, outcome code, final price,
//! timestamp). Its canonical message is the exact input to signature
//! verification, so a signer and this crate must agree on it bit for bit:
//!
//! ```text
//! tag (15) | call_id (8, BE) | ':' | outcome ('0' or '1') | ':' | price (16, BE) | ':' | timestamp (8, BE)
//! ```
//!
//! The outcome code is deliberately reduced to a single bit: every nonzero
//! code is written as `'1'`.

use vstd::prelude::*;

verus! {

/// The bytes of the domain tag that opens every canonical message:
/// the ASCII text `BACKit:Outcome:`.
pub const DOMAIN_TAG: [u8; 15] = [
    0x42, 0x41, 0x43, 0x4b, 0x69, 0x74, 0x3a, 0x4f, 0x75, 0x74, 0x63, 0x6f, 0x6d, 0x65, 0x3a,
];

/// The byte between two fields of a canonical message: an ASCII colon.
pub const SEPARATOR: u8 = 0x3a;

/// The outcome byte of a claim whose outcome code is zero: ASCII `0`.
pub const OUTCOME_ZERO: u8 = 0x30;

/// The outcome byte of a claim whose outcome code is not zero: ASCII `1`.
pub const OUTCOME_NONZERO: u8 = 0x31;

/// The length of every canonical message.
pub const MESSAGE_LEN: usize = 51;

/// The domain tag as a sequence of bytes.
pub open spec fn domain_tag() -> Seq<u8> {
    seq![
        0x42u8, 0x41u8, 0x43u8, 0x4bu8, 0x69u8, 0x74u8, 0x3au8, 0x4fu8, 0x75u8, 0x74u8, 0x63u8,
        0x6fu8, 0x6du8, 0x65u8, 0x3au8,
    ]
}

/// The big-endian encoding of `value` in `width` bytes: the most significant
/// byte first, and only the `width` least significant bytes of `value`.
pub open spec fn be_bytes(value: nat, width: nat) -> Seq<u8>
    decreases width,
{
    if width == 0 {
        Seq::empty()
    } else {
        be_bytes(value / 256, (width - 1) as nat).push((value % 256) as u8)
    }
}

/// The number of values that `width` bytes can tell apart: 256 to the power `width`.
pub open spec fn be_limit(width: nat) -> nat
    decreases width,
{
    if width == 0 {
        1
    } else {
        256 * be_limit((width - 1) as nat)
    }
}

/// The 128-bit two's complement pattern of a signed price, read as a natural number.
pub open spec fn twos_complement(price: i128) -> nat {
    if price >= 0 {
        price as nat
    } else {
        (price + u128::MAX + 1) as nat
    }
}

/// The single byte that stands for an outcome code.
pub open spec fn outcome_byte(outcome: u32) -> u8 {
    if outcome == 0 {
        OUTCOME_ZERO
    } else {
        OUTCOME_NONZERO
    }
}

/// The canonical message of the claim (`call_id`, `outcome`, `price`, `timestamp`).
pub open spec fn canonical_message(call_id: u64, outcome: u32, price: i128, timestamp: u64) -> Seq<
    u8,
> {
    domain_tag() + be_bytes(call_id as nat, 8) + seq![SEPARATOR] + seq![outcome_byte(outcome)]
        + seq![SEPARATOR] + be_bytes(twos_complement(price), 16) + seq![SEPARATOR] + be_bytes(
        timestamp as nat,
        8,
    )
}

/// Two claims that every canonical message treats alike: they agree on the
/// call identifier, the price and the timestamp, and their outcome codes are
/// both zero or both nonzero.
pub open spec fn same_claim(
    call_id: u64,
    outcome: u32,
    price: i128,
    timestamp: u64,
    other_call_id: u64,
    other_outcome: u32,
    other_price: i128,
    other_timestamp: u64,
) -> bool {
    &&& call_id == other_call_id
    &&& (outcome == 0) == (other_outcome == 0)
    &&& price == other_price
    &&& timestamp == other_timestamp
}

/// A big-endian encoding is exactly as long as the width asked for.
pub proof fn lemma_be_bytes_len(value: nat, width: nat)
    ensures
        be_bytes(value, width).len() == width,
    decreases width,
{
    if width > 0 {
        lemma_be_bytes_len(value / 256, (width - 1) as nat);
    }
}

/// Every weight of base 256 is positive.
pub proof fn lemma_be_limit_positive(width: nat)
    ensures
        be_limit(width) > 0,
    decreases width,
{
    if width > 0 {
        lemma_be_limit_positive((width - 1) as nat);
    }
}

/// The byte at position `i` of a big-endian encoding is the base-256 digit
/// of `value` of weight 256 to the power `width - 1 - i`: the first byte is
/// the most significant one, the last byte is `value % 256`.
pub proof fn lemma_be_bytes_index(value: nat, width: nat, i: int)
    requires
        0 <= i < width,
    ensures
        be_bytes(value, width).len() == width,
        be_bytes(value, width)[i] == ((value / be_limit((width - 1 - i) as nat)) % 256) as u8,
    decreases width,
{
    let shorter = (width - 1) as nat;
    let digits = be_bytes(value / 256, shorter);
    lemma_be_bytes_len(value / 256, shorter);
    assert(be_bytes(value, width) == digits.push((value % 256) as u8));
    if i < width - 1 {
        let weight = be_limit((width - 2 - i) as nat);
        lemma_be_bytes_index(value / 256, shorter, i);
        lemma_be_limit_positive((width - 2 - i) as nat);
        assert(digits[i] == (((value / 256) / weight) % 256) as u8);
        vstd::arithmetic::div_mod::lemma_div_denominator(value as int, 256, weight as int);
        assert((value / 256) / weight == value / (256 * weight));
        assert(be_limit((width - 1 - i) as nat) == 256 * weight);
        assert(be_bytes(value, width)[i] == digits[i]);
    } else {
        assert(be_limit(0) == 1);
        assert(value / 1 == value);
        assert(be_bytes(value, width)[i] == (value % 256) as u8);
    }
}

/// Two values that fit in `width` bytes and have the same big-endian
/// encoding are the same value.
pub proof fn lemma_be_bytes_injective(a: nat, b: nat, width: nat)
    requires
        a < be_limit(width),
        b < be_limit(width),
        be_bytes(a, width) == be_bytes(b, width),
    ensures
        a == b,
    decreases width,
{
    if width > 0 {
        let shorter = (width - 1) as nat;
        let left = be_bytes(a / 256, shorter);
        let right = be_bytes(b / 256, shorter);
        lemma_be_bytes_len(a / 256, shorter);
        lemma_be_bytes_len(b / 256, shorter);
        assert(left.push((a % 256) as u8).last() == (a % 256) as u8);
        assert(right.push((b % 256) as u8).last() == (b % 256) as u8);
        assert(left.push((a % 256) as u8).drop_last() =~= left);
        assert(right.push((b % 256) as u8).drop_last() =~= right);
        lemma_be_bytes_injective(a / 256, b / 256, shorter);
    }
}

/// Eight bytes hold every `u64`, sixteen bytes every 128-bit pattern.
pub proof fn lemma_be_limits()
    ensures
        be_limit(8) == 0x1_0000_0000_0000_0000,
        be_limit(16) == 0x1_0000_0000_0000_0000_0000_0000_0000_0000,
{
    reveal_with_fuel(be_limit, 17);
}

/// Where each field of a claim lies in its canonical message.
pub proof fn lemma_message_layout(call_id: u64, outcome: u32, price: i128, timestamp: u64)
    ensures
        canonical_message(call_id, outcome, price, timestamp).len() == MESSAGE_LEN,
        canonical_message(call_id, outcome, price, timestamp).subrange(0, 15) == domain_tag(),
        canonical_message(call_id, outcome, price, timestamp).subrange(15, 23) == be_bytes(
            call_id as nat,
            8,
        ),
        canonical_message(call_id, outcome, price, timestamp)[23] == SEPARATOR,
        canonical_message(call_id, outcome, price, timestamp)[24] == outcome_byte(outcome),
        canonical_message(call_id, outcome, price, timestamp)[25] == SEPARATOR,
        canonical_message(call_id, outcome, price, timestamp).subrange(26, 42) == be_bytes(
            twos_complement(price),
            16,
        ),
        canonical_message(call_id, outcome, price, timestamp)[42] == SEPARATOR,
        canonical_message(call_id, outcome, price, timestamp).subrange(43, 51) == be_bytes(
            timestamp as nat,
            8,
        ),
{
    let message = canonical_message(call_id, outcome, price, timestamp);
    lemma_be_bytes_len(call_id as nat, 8);
    lemma_be_bytes_len(twos_complement(price), 16);
    lemma_be_bytes_len(timestamp as nat, 8);
    assert(domain_tag().len() == 15);
    assert(message.len() == 51);
    assert(message.subrange(0, 15) =~= domain_tag());
    assert(message.subrange(15, 23) =~= be_bytes(call_id as nat, 8));
    assert(message.subrange(26, 42) =~= be_bytes(twos_complement(price), 16));
    assert(message.subrange(43, 51) =~= be_bytes(timestamp as nat, 8));
}

/// Equal claims have equal canonical messages: the message depends on
/// nothing but the four fields of the claim.
pub proof fn lemma_message_deterministic(
    call_id: u64,
    outcome: u32,
    price: i128,
    timestamp: u64,
    other_call_id: u64,
    other_outcome: u32,
    other_price: i128,
    other_timestamp: u64,
)
    requires
        call_id == other_call_id,
        outcome == other_outcome,
        price == other_price,
        timestamp == other_timestamp,
    ensures
        canonical_message(call_id, outcome, price, timestamp) == canonical_message(
            other_call_id,
            other_outcome,
            other_price,
            other_timestamp,
        ),
{
}

/// Every nonzero outcome code gives the message of outcome code 1, and that
/// message differs from the message of outcome code 0.
pub proof fn lemma_outcome_collapse(call_id: u64, outcome: u32, price: i128, timestamp: u64)
    requires
        outcome != 0,
    ensures
        canonical_message(call_id, outcome, price, timestamp) == canonical_message(
            call_id,
            1,
            price,
            timestamp,
        ),
        canonical_message(call_id, outcome, price, timestamp) != canonical_message(
            call_id,
            0,
            price,
            timestamp,
        ),
{
    lemma_message_layout(call_id, outcome, price, timestamp);
    lemma_message_layout(call_id, 0, price, timestamp);
}

/// Two claims have the same canonical message exactly when they agree on the
/// call identifier, the price and the timestamp and their outcome codes are
/// both zero or both nonzero.
pub proof fn lemma_message_injective(
    call_id: u64,
    outcome: u32,
    price: i128,
    timestamp: u64,
    other_call_id: u64,
    other_outcome: u32,
    other_price: i128,
    other_timestamp: u64,
)
    ensures
        canonical_message(call_id, outcome, price, timestamp) == canonical_message(
            other_call_id,
            other_outcome,
            other_price,
            other_timestamp,
        ) <==> same_claim(
            call_id,
            outcome,
            price,
            timestamp,
            other_call_id,
            other_outcome,
            other_price,
            other_timestamp,
        ),
{
    let message = canonical_message(call_id, outcome, price, timestamp);
    let other = canonical_message(other_call_id, other_outcome, other_price, other_timestamp);
    if message == other {
        lemma_message_layout(call_id, outcome, price, timestamp);
        lemma_message_layout(other_call_id, other_outcome, other_price, other_timestamp);
        lemma_be_limits();
        lemma_be_bytes_injective(call_id as nat, other_call_id as nat, 8);
        lemma_be_bytes_injective(twos_complement(price), twos_complement(other_price), 16);
        lemma_be_bytes_injective(timestamp as nat, other_timestamp as nat, 8);
    }
}

/// Appends the big-endian encoding of `value` in `width` bytes to `out`.
fn push_be_bytes(out: &mut Vec<u8>, value: u128, width: usize)
    ensures
        final(out)@ == old(out)@ + be_bytes(value as nat, width as nat),
    decreases width,
{
    if width > 0 {
        push_be_bytes(out, value / 256, width - 1);
        out.push((value % 256) as u8);
    }
    assert(out@ =~= old(out)@ + be_bytes(value as nat, width as nat));
}

/// The 128-bit two's complement pattern of `price`.
fn price_bits(price: i128) -> (bits: u128)
    ensures
        bits as nat == twos_complement(price),
{
    if price >= 0 {
        price as u128
    } else {
        let below: i128 = -(price + 1);
        u128::MAX - (below as u128)
    }
}

/// Builds the canonical message of the claim (`call_id`, `outcome`, `price`,
/// `timestamp`).
///
/// The result is a function of the four arguments alone, always
/// `MESSAGE_LEN` bytes long, and the same for every nonzero `outcome`.
pub fn build_message(call_id: u64, outcome: u32, price: i128, timestamp: u64) -> (message: Vec<u8>)
    ensures
        message@ == canonical_message(call_id, outcome, price, timestamp),
        message@.len() == MESSAGE_LEN,
{
    let mut message: Vec<u8> = Vec::new();
    let mut i: usize = 0;
    while i < 15
        invariant
            i <= 15,
            message@ == domain_tag().take(i as int),
        decreases 15 - i,
    {
        message.push(DOMAIN_TAG[i]);
        i = i + 1;
        assert(message@ =~= domain_tag().take(i as int));
    }
    assert(message@ =~= domain_tag());
    push_be_bytes(&mut message, call_id as u128, 8);
    message.push(SEPARATOR);
    message.push(if outcome == 0 { OUTCOME_ZERO } else { OUTCOME_NONZERO });
    message.push(SEPARATOR);
    let bits = price_bits(price);
    push_be_bytes(&mut message, bits, 16);
    message.push(SEPARATOR);
    push_be_bytes(&mut message, timestamp as u128, 8);
    proof {
        lemma_message_layout(call_id, outcome, price, timestamp);
        assert(message@ =~= canonical_message(call_id, outcome, price, timestamp));
    }
    message
}

} // verus!
