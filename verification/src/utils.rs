pub mod jwt;

use rand::RngExt;
use vstd::prelude::*;

verus! {

/// Relies on `String::from_iter` over `char`: collecting characters into a
/// string yields exactly those characters.
#[verifier::external_body]
pub(crate) fn chars_to_string(v: &Vec<char>) -> (s: String)
    ensures
        s@ == v@,
{
    v.iter().collect()
}

/// Relies on `rand`'s `Alphanumeric` distribution: sampling it yields one
/// alphanumeric ASCII byte (A-Z, a-z, 0-9); nothing is promised of which.
#[verifier::external_body]
fn random_alphanumeric_char() -> (c: char)
    ensures
        ('a' <= c && c <= 'z') || ('A' <= c && c <= 'Z') || ('0' <= c && c <= '9'),
{
    let b: u8 = rand::rng().sample(rand::distr::Alphanumeric);
    char::from(b)
}

/// A random alphanumeric bearer string of the asked length.
pub fn gen_alphanumeric(len: usize) -> (r: String)
    ensures
        r@.len() == len,
        forall|i: int|
            0 <= i < len ==> ('a' <= #[trigger] r@[i] && r@[i] <= 'z') || ('A' <= r@[i] && r@[i]
                <= 'Z') || ('0' <= r@[i] && r@[i] <= '9'),
{
    let mut out: Vec<char> = Vec::new();
    let mut i: usize = 0;
    while i < len
        invariant
            i <= len,
            out@.len() == i,
            forall|j: int|
                0 <= j < i ==> ('a' <= #[trigger] out@[j] && out@[j] <= 'z') || ('A' <= out@[j]
                    && out@[j] <= 'Z') || ('0' <= out@[j] && out@[j] <= '9'),
        decreases len - i,
    {
        out.push(random_alphanumeric_char());
        i = i + 1;
    }
    chars_to_string(&out)
}

/// Character-for-character string equality.
pub fn str_eq(a: &str, b: &str) -> (r: bool)
    ensures
        r == (a@ == b@),
{
    let la = a.unicode_len();
    let lb = b.unicode_len();
    if la != lb {
        return false;
    }
    let mut i: usize = 0;
    while i < la
        invariant
            i <= la,
            la == a@.len(),
            la == b@.len(),
            forall|k: int| 0 <= k < i ==> a@[k] == b@[k],
        decreases la - i,
    {
        if a.get_char(i) != b.get_char(i) {
            return false;
        }
        i = i + 1;
    }
    proof {
        assert(a@ =~= b@);
    }
    true
}

/// A copy of an optional string, same characters.
pub fn clone_opt_string(s: &Option<String>) -> (r: Option<String>)
    ensures
        match r {
            Some(x) => s matches Some(y) && x@ == y@,
            None => s is None,
        },
{
    match s {
        Some(x) => Some(x.clone()),
        None => None,
    }
}

/// Relies on `rand`'s thread rng: fills 32 bytes from a cryptographically
/// secure generator; nothing is promised of their values.
#[verifier::external_body]
pub(crate) fn random_key_bytes() -> (r: Vec<u8>)
    ensures
        r@.len() == 32,
{
    let bytes: [u8; 32] = rand::rng().random();
    bytes.to_vec()
}

/// Relies on `rand`'s thread rng: a uniformly random 128-bit value;
/// nothing is promised of it.
#[verifier::external_body]
pub(crate) fn random_u128() -> (r: u128)
{
    rand::rng().random()
}

} // verus!
