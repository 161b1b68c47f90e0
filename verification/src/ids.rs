//! Random identifiers (version 4 UUIDs) and their text form.

use vstd::prelude::*;
use crate::text::{hex_char, push_hex_digit};

verus! {

/// The last `n` lowercase hexadecimal digits of `v`, most significant
/// first.
pub open spec fn hex_digits(v: nat, n: nat) -> Seq<char>
    decreases n,
{
    if n == 0 {
        Seq::empty()
    } else {
        hex_digits(v / 16, (n - 1) as nat).push(hex_char(v % 16))
    }
}

/// The 32 hexadecimal digits of a 128-bit value, most significant first.
pub open spec fn uuid_digits(id: u128) -> Seq<char> {
    hex_digits(id as nat, 32)
}

proof fn lemma_hex_digits_len(v: nat, n: nat)
    ensures
        hex_digits(v, n).len() == n,
    decreases n,
{
    if n > 0 {
        lemma_hex_digits_len(v / 16, (n - 1) as nat);
    }
}

fn push_hex_digits(s: &mut String, v: u128, n: u32)
    ensures
        final(s)@ == old(s)@ + hex_digits(v as nat, n as nat),
    decreases n,
{
    if n > 0 {
        push_hex_digits(s, v / 16, n - 1);
        push_hex_digit(s, (v % 16) as u8);
        assert(final(s)@ =~= old(s)@ + hex_digits(v as nat, n as nat));
    } else {
        assert(final(s)@ =~= old(s)@ + hex_digits(v as nat, n as nat));
    }
}

/// The hyphenated text of a UUID: its digits in groups of 8, 4, 4, 4 and
/// 12, joined by hyphens.
pub open spec fn uuid_text(id: u128) -> Seq<char> {
    let d = uuid_digits(id);
    d.subrange(0, 8) + seq!['-'] + d.subrange(8, 12) + seq!['-'] + d.subrange(12, 16) + seq!['-'] + d.subrange(16, 20)
        + seq!['-'] + d.subrange(20, 32)
}

/// Trusted: `uuid::Uuid::new_v4` draws a fresh random UUID; its 128-bit
/// value is returned, and nothing is promised of it.
#[verifier::external_body]
pub(crate) fn new_uuid() -> u128 {
    uuid::Uuid::new_v4().as_u128()
}

/// The hyphenated lowercase text of a UUID, as the `uuid` crate displays
/// `Uuid::from_u128(id)`.
pub(crate) fn uuid_string(id: u128) -> (r: String)
    ensures
        r@ == uuid_text(id),
{
    let mut d = String::new();
    push_hex_digits(&mut d, id, 32);
    proof { lemma_hex_digits_len(id as nat, 32); }
    let ghost dv = uuid_digits(id);
    assert(d@ =~= dv);
    let ds = d.as_str();
    assert(ds@.len() == 32);
    let mut r = String::from_str(ds.substring_char(0, 8));
    r.append("-");
    r.append(ds.substring_char(8, 12));
    r.append("-");
    r.append(ds.substring_char(12, 16));
    r.append("-");
    r.append(ds.substring_char(16, 20));
    r.append("-");
    r.append(ds.substring_char(20, 32));
    proof { reveal_strlit("-"); }
    assert(r@ =~= uuid_text(id));
    r
}

/// The text of a UUID has 36 characters.
pub proof fn lemma_uuid_text_len(id: u128)
    ensures
        uuid_text(id).len() == 36,
{
    lemma_hex_digits_len(id as nat, 32);
}

} // verus!
