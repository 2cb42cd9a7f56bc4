//! Tenant and document identifiers.
//!
//! A tenant is a UUID, held as its 128-bit value. A document that comes
//! without an identifier gets the text of a fresh random UUID.

use vstd::prelude::*;

verus! {

/// A tenant: the 128-bit value of its UUID.
pub type TenantId = u128;

/// The lower-case hexadecimal digit for `n`, where `0 <= n < 16`.
pub open spec fn hex_digit(n: int) -> char {
    if n < 10 {
        ((48 + n) as u8) as char
    } else {
        ((87 + n) as u8) as char
    }
}

/// The hexadecimal digit of `value` at place `k`, counted from the most
/// significant (`k == 0`) to the least (`k == 31`).
pub open spec fn hex_place(value: u128, k: int) -> int {
    ((value >> ((4 * (31 - k)) as u128)) & 0xf) as int
}

/// The four places of the 36 at which the hyphenated form has a hyphen.
pub open spec fn is_hyphen_place(i: int) -> bool {
    i == 8 || i == 13 || i == 18 || i == 23
}

/// The number of hyphens before place `i` of the hyphenated form.
pub open spec fn hyphens_before(i: int) -> int {
    if i < 8 {
        0
    } else if i < 13 {
        1
    } else if i < 18 {
        2
    } else if i < 23 {
        3
    } else {
        4
    }
}

/// The hyphenated lower-case form of a UUID: 32 hexadecimal digits in groups
/// of 8, 4, 4, 4 and 12.
pub open spec fn hyphenated(value: u128) -> Seq<char> {
    Seq::new(
        36,
        |i: int|
            if is_hyphen_place(i) {
                '-'
            } else {
                hex_digit(hex_place(value, i - hyphens_before(i)))
            },
    )
}

/// Whether a text is the hyphenated form of some UUID.
pub open spec fn is_uuid_text(text: Seq<char>) -> bool {
    exists|value: u128| text == #[trigger] hyphenated(value)
}

/// The UUID that a text denotes, in any of the forms that `Uuid::parse_str`
/// of the uuid crate reads; `None` for a text that it rejects.
pub uninterp spec fn uuid_of_text(text: Seq<char>) -> Option<u128>;

/// Calls `Uuid::new_v4` of the uuid crate and hands out the value of the
/// random UUID. Nothing is claimed of the value.
#[verifier::external_body]
pub(crate) fn random_uuid() -> u128 {
    uuid::Uuid::new_v4().as_u128()
}

/// Writes a UUID out through the `Display` impl of `uuid::Uuid`, which gives
/// the hyphenated lower-case form.
#[verifier::external_body]
pub(crate) fn uuid_text(value: u128) -> (text: String)
    ensures
        text@ == hyphenated(value),
{
    uuid::Uuid::from_u128(value).to_string()
}

/// Calls `Uuid::parse_str` of the uuid crate. The result is the named
/// `uuid_of_text`; a rejected text gives `None`.
#[verifier::external_body]
pub(crate) fn parse_uuid(text: &str) -> (value: Option<u128>)
    ensures
        value == uuid_of_text(text@),
{
    uuid::Uuid::parse_str(text).ok().map(|id| id.as_u128())
}

/// Mints the identifier of a document that came without one: the hyphenated
/// text of a fresh random UUID.
pub fn mint_document_id() -> (id: String)
    ensures
        is_uuid_text(id@),
        id@.len() == 36,
{
    let value = random_uuid();
    let id = uuid_text(value);
    assert(id@ == hyphenated(value));
    id
}

/// The text under which a tenant's directory is named.
pub fn tenant_text(tenant: TenantId) -> (text: String)
    ensures
        text@ == hyphenated(tenant),
{
    uuid_text(tenant)
}

/// A hexadecimal digit is below 16.
proof fn lemma_hex_place_small(value: u128, shift: u128)
    ensures
        (value >> shift) & 0xf < 16,
{
    assert((value >> shift) & 0xf < 16) by (bit_vector);
}

/// Two values with the same 32 hexadecimal digits are the same value.
proof fn lemma_same_digits(a: u128, b: u128)
    requires
        forall|k: int| 0 <= k < 32 ==> hex_place(a, k) == hex_place(b, k),
    ensures
        a == b,
{
    assert(hex_place(a, 0) == hex_place(b, 0));
    assert(hex_place(a, 1) == hex_place(b, 1));
    assert(hex_place(a, 2) == hex_place(b, 2));
    assert(hex_place(a, 3) == hex_place(b, 3));
    assert(hex_place(a, 4) == hex_place(b, 4));
    assert(hex_place(a, 5) == hex_place(b, 5));
    assert(hex_place(a, 6) == hex_place(b, 6));
    assert(hex_place(a, 7) == hex_place(b, 7));
    assert(hex_place(a, 8) == hex_place(b, 8));
    assert(hex_place(a, 9) == hex_place(b, 9));
    assert(hex_place(a, 10) == hex_place(b, 10));
    assert(hex_place(a, 11) == hex_place(b, 11));
    assert(hex_place(a, 12) == hex_place(b, 12));
    assert(hex_place(a, 13) == hex_place(b, 13));
    assert(hex_place(a, 14) == hex_place(b, 14));
    assert(hex_place(a, 15) == hex_place(b, 15));
    assert(hex_place(a, 16) == hex_place(b, 16));
    assert(hex_place(a, 17) == hex_place(b, 17));
    assert(hex_place(a, 18) == hex_place(b, 18));
    assert(hex_place(a, 19) == hex_place(b, 19));
    assert(hex_place(a, 20) == hex_place(b, 20));
    assert(hex_place(a, 21) == hex_place(b, 21));
    assert(hex_place(a, 22) == hex_place(b, 22));
    assert(hex_place(a, 23) == hex_place(b, 23));
    assert(hex_place(a, 24) == hex_place(b, 24));
    assert(hex_place(a, 25) == hex_place(b, 25));
    assert(hex_place(a, 26) == hex_place(b, 26));
    assert(hex_place(a, 27) == hex_place(b, 27));
    assert(hex_place(a, 28) == hex_place(b, 28));
    assert(hex_place(a, 29) == hex_place(b, 29));
    assert(hex_place(a, 30) == hex_place(b, 30));
    assert(hex_place(a, 31) == hex_place(b, 31));
    assert(a == b) by (bit_vector)
        requires
            (a >> 124u128) & 0xf == (b >> 124u128) & 0xf,
            (a >> 120u128) & 0xf == (b >> 120u128) & 0xf,
            (a >> 116u128) & 0xf == (b >> 116u128) & 0xf,
            (a >> 112u128) & 0xf == (b >> 112u128) & 0xf,
            (a >> 108u128) & 0xf == (b >> 108u128) & 0xf,
            (a >> 104u128) & 0xf == (b >> 104u128) & 0xf,
            (a >> 100u128) & 0xf == (b >> 100u128) & 0xf,
            (a >> 96u128) & 0xf == (b >> 96u128) & 0xf,
            (a >> 92u128) & 0xf == (b >> 92u128) & 0xf,
            (a >> 88u128) & 0xf == (b >> 88u128) & 0xf,
            (a >> 84u128) & 0xf == (b >> 84u128) & 0xf,
            (a >> 80u128) & 0xf == (b >> 80u128) & 0xf,
            (a >> 76u128) & 0xf == (b >> 76u128) & 0xf,
            (a >> 72u128) & 0xf == (b >> 72u128) & 0xf,
            (a >> 68u128) & 0xf == (b >> 68u128) & 0xf,
            (a >> 64u128) & 0xf == (b >> 64u128) & 0xf,
            (a >> 60u128) & 0xf == (b >> 60u128) & 0xf,
            (a >> 56u128) & 0xf == (b >> 56u128) & 0xf,
            (a >> 52u128) & 0xf == (b >> 52u128) & 0xf,
            (a >> 48u128) & 0xf == (b >> 48u128) & 0xf,
            (a >> 44u128) & 0xf == (b >> 44u128) & 0xf,
            (a >> 40u128) & 0xf == (b >> 40u128) & 0xf,
            (a >> 36u128) & 0xf == (b >> 36u128) & 0xf,
            (a >> 32u128) & 0xf == (b >> 32u128) & 0xf,
            (a >> 28u128) & 0xf == (b >> 28u128) & 0xf,
            (a >> 24u128) & 0xf == (b >> 24u128) & 0xf,
            (a >> 20u128) & 0xf == (b >> 20u128) & 0xf,
            (a >> 16u128) & 0xf == (b >> 16u128) & 0xf,
            (a >> 12u128) & 0xf == (b >> 12u128) & 0xf,
            (a >> 8u128) & 0xf == (b >> 8u128) & 0xf,
            (a >> 4u128) & 0xf == (b >> 4u128) & 0xf,
            (a >> 0u128) & 0xf == (b >> 0u128) & 0xf,
    ;
}

/// The place in the hyphenated form of the hexadecimal digit at place `k`.
spec fn text_place(k: int) -> int {
    if k < 8 {
        k
    } else if k < 12 {
        k + 1
    } else if k < 16 {
        k + 2
    } else if k < 20 {
        k + 3
    } else {
        k + 4
    }
}

/// Two values with the same hyphenated form are the same value.
pub proof fn lemma_hyphenated_injective(a: u128, b: u128)
    requires
        hyphenated(a) == hyphenated(b),
    ensures
        a == b,
{
    assert forall|k: int| 0 <= k < 32 implies hex_place(a, k) == hex_place(b, k) by {
        let i = text_place(k);
        assert(!is_hyphen_place(i));
        assert(i - hyphens_before(i) == k);
        assert(hyphenated(a)[i] == hex_digit(hex_place(a, k)));
        assert(hyphenated(b)[i] == hex_digit(hex_place(b, k)));
        lemma_hex_place_small(a, (4 * (31 - k)) as u128);
        lemma_hex_place_small(b, (4 * (31 - k)) as u128);
    }
    lemma_same_digits(a, b);
}

} // verus!
