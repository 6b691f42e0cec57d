//! How ids are written out: as the hyphenated lowercase form of the UUID
//! whose 128-bit value they hold.

use vstd::prelude::*;

use crate::model::{MarketId, MessageId, OutcomeId, UserId};

verus! {

/// `16^e`.
pub open spec fn pow16(e: nat) -> nat
    decreases e,
{
    if e == 0 {
        1
    } else {
        16 * pow16((e - 1) as nat)
    }
}

/// The lowercase hexadecimal digit for `n` (below 16).
pub open spec fn hex_digit(n: nat) -> char {
    if n < 10 {
        (48 + n) as char
    } else {
        (87 + n) as char
    }
}

/// The `k`-th of the 32 hexadecimal digits of `v`, most significant first.
pub open spec fn nibble_of(v: u128, k: int) -> nat {
    ((v as nat) / pow16((31 - k) as nat)) % 16
}

/// Which digit of the value stands at position `i` of the hyphenated form.
pub open spec fn hyphenated_digit_index(i: int) -> int {
    if i < 8 {
        i
    } else if i < 13 {
        i - 1
    } else if i < 18 {
        i - 2
    } else if i < 23 {
        i - 3
    } else {
        i - 4
    }
}

/// `v` written as a hyphenated UUID: 32 lowercase hexadecimal digits, most
/// significant first, in groups of 8, 4, 4, 4 and 12.
pub open spec fn uuid_text(v: u128) -> Seq<char> {
    Seq::new(
        36,
        |i: int|
            if i == 8 || i == 13 || i == 18 || i == 23 {
                '-'
            } else {
                hex_digit(nibble_of(v, hyphenated_digit_index(i)))
            },
    )
}

/// `v` as 32 lowercase hexadecimal digits without hyphens.
pub open spec fn uuid_simple_text(v: u128) -> Seq<char> {
    Seq::new(32, |i: int| hex_digit(nibble_of(v, i)))
}

/// `bytes` as lowercase hexadecimal, two digits per byte.
pub open spec fn lower_hex(bytes: Seq<u8>) -> Seq<char>
    decreases bytes.len(),
{
    if bytes.len() == 0 {
        Seq::empty()
    } else {
        lower_hex(bytes.drop_last()).push(hex_digit((bytes.last() / 16) as nat)).push(
            hex_digit((bytes.last() % 16) as nat),
        )
    }
}

/// `c` is a lowercase hexadecimal digit.
pub open spec fn is_lower_hex_digit(c: char) -> bool {
    ('0' <= c && c <= '9') || ('a' <= c && c <= 'f')
}

/// Hexadecimal text is two digits per byte, and nothing but digits.
pub proof fn lower_hex_shape(bytes: Seq<u8>)
    ensures
        lower_hex(bytes).len() == 2 * bytes.len(),
        forall|i: int| 0 <= i < lower_hex(bytes).len() ==> is_lower_hex_digit(#[trigger] lower_hex(bytes)[i]),
    decreases bytes.len(),
{
    if bytes.len() > 0 {
        lower_hex_shape(bytes.drop_last());
        let prev = lower_hex(bytes.drop_last());
        let hi = (bytes.last() / 16) as nat;
        let lo = (bytes.last() % 16) as nat;
        let cur = prev.push(hex_digit(hi)).push(hex_digit(lo));
        assert(cur == lower_hex(bytes));
        assert forall|i: int| 0 <= i < cur.len() implies is_lower_hex_digit(#[trigger] cur[i]) by {
            if i < prev.len() {
                assert(cur[i] == prev[i]);
            }
        }
    }
}

/// The simple form of a UUID is 32 lowercase hexadecimal digits.
pub proof fn simple_uuid_shape(v: u128)
    ensures
        uuid_simple_text(v).len() == 32,
        forall|i: int| 0 <= i < 32 ==> is_lower_hex_digit(#[trigger] uuid_simple_text(v)[i]),
{
    assert forall|i: int| 0 <= i < 32 implies is_lower_hex_digit(#[trigger] uuid_simple_text(v)[i]) by {
        assert(nibble_of(v, i) < 16);
    }
}

proof fn lemma_pow16_pos(e: nat)
    ensures
        pow16(e) > 0,
    decreases e,
{
    if e > 0 {
        lemma_pow16_pos((e - 1) as nat);
    }
}

proof fn lemma_quotient_step(v: nat, e: nat)
    ensures
        v / pow16(e) == 16 * (v / pow16(e + 1)) + (v / pow16(e)) % 16,
{
    lemma_pow16_pos(e);
    assert(pow16(e + 1) == 16 * pow16(e));
    vstd::arithmetic::div_mod::lemma_div_denominator(v as int, pow16(e) as int, 16);
    assert(pow16(e) * 16 == pow16(e + 1));
    vstd::arithmetic::div_mod::lemma_fundamental_div_mod((v / pow16(e)) as int, 16);
}

proof fn lemma_pow16_covers_u128()
    ensures
        pow16(32) == 0x1_0000_0000_0000_0000_0000_0000_0000_0000,
{
    reveal_with_fuel(pow16, 33);
}

proof fn lemma_quotients_agree(a: u128, b: u128, e: nat)
    requires
        e <= 32,
        forall|k: int| 0 <= k < 32 ==> nibble_of(a, k) == nibble_of(b, k),
    ensures
        (a as nat) / pow16(e) == (b as nat) / pow16(e),
    decreases 32 - e,
{
    if e == 32 {
        lemma_pow16_covers_u128();
        vstd::arithmetic::div_mod::lemma_basic_div(a as int, pow16(32) as int);
        vstd::arithmetic::div_mod::lemma_basic_div(b as int, pow16(32) as int);
    } else {
        lemma_quotients_agree(a, b, e + 1);
        lemma_quotient_step(a as nat, e);
        lemma_quotient_step(b as nat, e);
        let k = 31 - e;
        assert(nibble_of(a, k) == nibble_of(b, k));
        assert((31 - k) as nat == e);
    }
}

/// Where the `k`-th digit stands in the hyphenated form.
pub open spec fn digit_position(k: int) -> int {
    if k < 8 {
        k
    } else if k < 12 {
        k + 1
    } else if k < 16 {
        k + 2
    } else if k < 20 {
        k + 3
    } else {
        k + 4
    }
}

/// Two different ids never read the same, so no two markets share a channel
/// and no message names the wrong row.
pub proof fn distinct_ids_read_differently(a: u128, b: u128)
    requires
        a != b,
    ensures
        uuid_text(a) != uuid_text(b),
{
    if uuid_text(a) == uuid_text(b) {
        assert forall|k: int| 0 <= k < 32 implies nibble_of(a, k) == nibble_of(b, k) by {
            let i = digit_position(k);
            assert(hyphenated_digit_index(i) == k);
            assert(uuid_text(a)[i] == uuid_text(b)[i]);
            assert(hex_digit(nibble_of(a, k)) == hex_digit(nibble_of(b, k)));
        }
        lemma_quotients_agree(a, b, 0);
        assert(pow16(0) == 1);
    }
}

/// `uuid::Uuid::from_u128(v).to_string()`: the crate documents `from_u128` as
/// taking the value's bytes most significant first, and `Display` as the
/// hyphenated lowercase form.
#[verifier::external_body]
pub(crate) fn uuid_string(v: u128) -> (r: String)
    ensures
        r@ == uuid_text(v),
{
    uuid::Uuid::from_u128(v).to_string()
}

/// How a user id reads in messages.
pub open spec fn user_id_text(id: UserId) -> Seq<char> {
    uuid_text(id.0)
}

/// How a market id reads in messages and channel names.
pub open spec fn market_id_text(id: MarketId) -> Seq<char> {
    uuid_text(id.0)
}

/// How an outcome id reads in messages.
pub open spec fn outcome_id_text(id: OutcomeId) -> Seq<char> {
    uuid_text(id.0)
}

/// How a message id reads in messages.
pub open spec fn message_id_text(id: MessageId) -> Seq<char> {
    uuid_text(id.0)
}

impl UserId {
    pub fn to_text(&self) -> (r: String)
        ensures
            r@ == user_id_text(*self),
    {
        uuid_string(self.0)
    }
}

impl MarketId {
    pub fn to_text(&self) -> (r: String)
        ensures
            r@ == market_id_text(*self),
    {
        uuid_string(self.0)
    }
}

impl OutcomeId {
    pub fn to_text(&self) -> (r: String)
        ensures
            r@ == outcome_id_text(*self),
    {
        uuid_string(self.0)
    }
}

impl MessageId {
    pub fn to_text(&self) -> (r: String)
        ensures
            r@ == message_id_text(*self),
    {
        uuid_string(self.0)
    }
}

/// `prefix` followed by `rest`.
pub fn joined(prefix: &str, rest: &str) -> (r: String)
    ensures
        r@ == prefix@ + rest@,
{
    let mut s = String::from_str(prefix);
    s.append(rest);
    s
}

} // verus!
