//! Typed 128-bit identifiers with the canonical hyphenated text form,
//! and the checked bit-pattern mapping for 64-bit external ids.

use vstd::prelude::*;

use crate::hex::{
    all_hex, hex_value, lemma_hex_of_len, lemma_hex_value_bound, lemma_hex_value_of,
    lemma_pow16_32, parse_hex_at, pow16, push_hex, push_range, push_str_range, read_hex_vec,
};

verus! {

/// The canonical lower-case hyphenated text of a 128-bit id.
pub open spec fn uuid_text(x: nat) -> Seq<char> {
    let h = crate::hex::hex_of(x, 32);
    h.subrange(0, 8) + seq!['-'] + h.subrange(8, 12) + seq!['-'] + h.subrange(12, 16) + seq!['-']
        + h.subrange(16, 20) + seq!['-'] + h.subrange(20, 32)
}

/// The 32 hex digits of a hyphenated id text, hyphens removed.
pub open spec fn uuid_digits(s: Seq<char>) -> Seq<char> {
    s.subrange(0, 8) + s.subrange(9, 13) + s.subrange(14, 18) + s.subrange(19, 23) + s.subrange(
        24,
        36,
    )
}

/// What parsing an id text yields: the value, if the text is 36 characters
/// with hyphens in the canonical places and hex digits elsewhere.
pub open spec fn parse_uuid(s: Seq<char>) -> Option<nat> {
    if s.len() == 36 && s[8] == '-' && s[13] == '-' && s[18] == '-' && s[23] == '-' && all_hex(
        uuid_digits(s),
    ) {
        Some(hex_value(uuid_digits(s)))
    } else {
        None
    }
}

/// Printing an id and parsing it back gives the id, for every value.
pub proof fn lemma_uuid_round_trip(x: nat)
    requires
        x < pow16(32),
    ensures
        parse_uuid(uuid_text(x)) == Some(x),
{
    let h = crate::hex::hex_of(x, 32);
    lemma_hex_of_len(x, 32);
    let s = uuid_text(x);
    assert(s.len() == 36);
    assert(s[8] == '-');
    assert(s[13] == '-');
    assert(s[18] == '-');
    assert(s[23] == '-');
    assert(uuid_digits(s) =~= h);
    lemma_hex_value_of(x, 32);
}

/// Formats a 128-bit value in the canonical hyphenated form.
pub fn format_uuid(x: u128) -> (r: String)
    ensures
        r@ == uuid_text(x as nat),
{
    proof {
        lemma_pow16_32();
    }
    let mut h: Vec<char> = Vec::new();
    push_hex(&mut h, x, 32);
    proof {
        lemma_hex_of_len(x as nat, 32);
        assert(h@.len() == 32);
    }
    let mut out: Vec<char> = Vec::new();
    push_range(&mut out, &h, 0, 8);
    out.push('-');
    push_range(&mut out, &h, 8, 12);
    out.push('-');
    push_range(&mut out, &h, 12, 16);
    out.push('-');
    push_range(&mut out, &h, 16, 20);
    out.push('-');
    push_range(&mut out, &h, 20, 32);
    proof {
        assert(out@ =~= uuid_text(x as nat));
    }
    crate::utils::chars_to_string(&out)
}

/// Parses the canonical hyphenated form; `None` for anything else.
pub fn parse_uuid_str(s: &str) -> (r: Option<u128>)
    ensures
        match r {
            Some(x) => parse_uuid(s@) == Some(x as nat),
            None => parse_uuid(s@) is None,
        },
{
    let len = s.unicode_len();
    if len != 36 {
        return None;
    }
    if s.get_char(8) != '-' || s.get_char(13) != '-' || s.get_char(18) != '-' || s.get_char(23)
        != '-' {
        return None;
    }
    let mut d: Vec<char> = Vec::new();
    push_str_range(&mut d, s, 0, 8);
    push_str_range(&mut d, s, 9, 13);
    push_str_range(&mut d, s, 14, 18);
    push_str_range(&mut d, s, 19, 23);
    push_str_range(&mut d, s, 24, 36);
    proof {
        assert(d@ =~= uuid_digits(s@));
    }
    match read_hex_vec(&d, 0, 32) {
        Some(x) => {
            proof {
                assert(d@.subrange(0, 32) =~= d@);
            }
            Some(x)
        },
        None => {
            proof {
                assert(d@.subrange(0, 32) =~= d@);
            }
            None
        },
    }
}

/// A user's identifier.
#[derive(Clone, Copy, Debug, PartialEq, Eq, Structural)]
pub struct UserId {
    pub value: u128,
}

/// A registered application's identifier.
#[derive(Clone, Copy, Debug, PartialEq, Eq, Structural)]
pub struct UserAppId {
    pub value: u128,
}

/// A login session's identifier.
#[derive(Clone, Copy, Debug, PartialEq, Eq, Structural)]
pub struct SessionId {
    pub value: u128,
}

impl UserId {
    pub fn to_text(&self) -> (r: String)
        ensures
            r@ == uuid_text(self.value as nat),
    {
        format_uuid(self.value)
    }

    pub fn from_text(s: &str) -> (r: Option<UserId>)
        ensures
            match r {
                Some(id) => parse_uuid(s@) == Some(id.value as nat),
                None => parse_uuid(s@) is None,
            },
    {
        match parse_uuid_str(s) {
            Some(x) => Some(UserId { value: x }),
            None => None,
        }
    }
}

impl UserAppId {
    pub fn to_text(&self) -> (r: String)
        ensures
            r@ == uuid_text(self.value as nat),
    {
        format_uuid(self.value)
    }

    pub fn from_text(s: &str) -> (r: Option<UserAppId>)
        ensures
            match r {
                Some(id) => parse_uuid(s@) == Some(id.value as nat),
                None => parse_uuid(s@) is None,
            },
    {
        match parse_uuid_str(s) {
            Some(x) => Some(UserAppId { value: x }),
            None => None,
        }
    }
}

impl SessionId {
    pub fn to_text(&self) -> (r: String)
        ensures
            r@ == uuid_text(self.value as nat),
    {
        format_uuid(self.value)
    }

    pub fn from_text(s: &str) -> (r: Option<SessionId>)
        ensures
            match r {
                Some(id) => parse_uuid(s@) == Some(id.value as nat),
                None => parse_uuid(s@) is None,
            },
    {
        match parse_uuid_str(s) {
            Some(x) => Some(SessionId { value: x }),
            None => None,
        }
    }
}

/// The signed value with the same 64 bits as `x`, by the two's-complement
/// mapping: values above the signed maximum wrap below zero.
pub open spec fn external_id_signed(x: u64) -> int {
    if x <= i64::MAX {
        x as int
    } else {
        x - 0x1_0000_0000_0000_0000
    }
}

/// Stores a 64-bit external id in a signed column, by an explicit checked
/// mapping rather than a raw reinterpretation.
pub fn external_id_store(x: u64) -> (r: i64)
    ensures
        r as int == external_id_signed(x),
{
    if x <= i64::MAX as u64 {
        x as i64
    } else {
        let d: u64 = x - 0x8000_0000_0000_0000;
        i64::MIN + (d as i64)
    }
}

/// Reads a stored signed value back as the external id.
pub fn external_id_load(r: i64) -> (x: u64)
    ensures
        r as int == external_id_signed(x),
{
    if r >= 0 {
        r as u64
    } else {
        let d: i64 = r - i64::MIN;
        (d as u64) + 0x8000_0000_0000_0000
    }
}

/// The two mappings invert each other: storing then loading gives the id back.
pub proof fn lemma_external_id_round_trip(x: u64, y: u64)
    requires
        external_id_signed(x) == external_id_signed(y),
    ensures
        x == y,
{
}

} // verus!
