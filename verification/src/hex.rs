//! Fixed-width hexadecimal encoding of unsigned values.
//!
//! The signed-token payload and the textual form of ids are built from
//! fixed-width hex fields, so that parsing is unambiguous and the
//! print/parse round trip can be proved exactly.

use vstd::prelude::*;

verus! {

/// 16^w, the number of values a hex field of width `w` can hold.
pub open spec fn pow16(w: nat) -> nat
    decreases w,
{
    if w == 0 {
        1
    } else {
        16 * pow16((w - 1) as nat)
    }
}

/// The lower-case hex digit for a value below 16.
pub open spec fn hex_char_of(d: nat) -> char {
    if d == 0 {
        '0'
    } else if d == 1 {
        '1'
    } else if d == 2 {
        '2'
    } else if d == 3 {
        '3'
    } else if d == 4 {
        '4'
    } else if d == 5 {
        '5'
    } else if d == 6 {
        '6'
    } else if d == 7 {
        '7'
    } else if d == 8 {
        '8'
    } else if d == 9 {
        '9'
    } else if d == 10 {
        'a'
    } else if d == 11 {
        'b'
    } else if d == 12 {
        'c'
    } else if d == 13 {
        'd'
    } else if d == 14 {
        'e'
    } else {
        'f'
    }
}

/// The value of a hex digit; both cases are accepted when reading.
pub open spec fn hex_val(c: char) -> Option<nat> {
    if c == '0' {
        Some(0 as nat)
    } else if c == '1' {
        Some(1 as nat)
    } else if c == '2' {
        Some(2 as nat)
    } else if c == '3' {
        Some(3 as nat)
    } else if c == '4' {
        Some(4 as nat)
    } else if c == '5' {
        Some(5 as nat)
    } else if c == '6' {
        Some(6 as nat)
    } else if c == '7' {
        Some(7 as nat)
    } else if c == '8' {
        Some(8 as nat)
    } else if c == '9' {
        Some(9 as nat)
    } else if c == 'a' || c == 'A' {
        Some(10 as nat)
    } else if c == 'b' || c == 'B' {
        Some(11 as nat)
    } else if c == 'c' || c == 'C' {
        Some(12 as nat)
    } else if c == 'd' || c == 'D' {
        Some(13 as nat)
    } else if c == 'e' || c == 'E' {
        Some(14 as nat)
    } else if c == 'f' || c == 'F' {
        Some(15 as nat)
    } else {
        None
    }
}

/// `x` written as exactly `w` lower-case hex digits, most significant first
/// (the value is taken modulo 16^w).
pub open spec fn hex_of(x: nat, w: nat) -> Seq<char>
    decreases w,
{
    if w == 0 {
        Seq::<char>::empty()
    } else {
        hex_of(x / 16, (w - 1) as nat).push(hex_char_of(x % 16))
    }
}

/// Every character of `s` is a hex digit.
pub open spec fn all_hex(s: Seq<char>) -> bool {
    forall|i: int| 0 <= i < s.len() ==> (#[trigger] hex_val(s[i])) is Some
}

/// The value of a string of hex digits, most significant first.
pub open spec fn hex_value(s: Seq<char>) -> nat
    decreases s.len(),
{
    if s.len() == 0 {
        0
    } else {
        16 * hex_value(s.drop_last()) + hex_val(s.last()).unwrap_or(0)
    }
}

/// Reading `w` hex digits of `s` starting at `i`: the value, if they are
/// there and all are hex digits.
pub open spec fn parse_hex_at(s: Seq<char>, i: int, w: int) -> Option<nat> {
    if 0 <= i && 0 <= w && i + w <= s.len() && all_hex(s.subrange(i, i + w)) {
        Some(hex_value(s.subrange(i, i + w)))
    } else {
        None
    }
}

pub proof fn lemma_hex_char_of_val(d: nat)
    requires
        d < 16,
    ensures
        hex_val(hex_char_of(d)) == Some(d),
{
}

/// A fixed-width hex rendering has that width and holds hex digits only.
pub proof fn lemma_hex_of_len(x: nat, w: nat)
    ensures
        hex_of(x, w).len() == w,
        all_hex(hex_of(x, w)),
    decreases w,
{
    if w > 0 {
        lemma_hex_of_len(x / 16, (w - 1) as nat);
        lemma_hex_char_of_val(x % 16);
        assert forall|i: int| 0 <= i < w implies (#[trigger] hex_val(hex_of(x, w)[i]))
            is Some by {
            if i < w - 1 {
                assert(hex_of(x, w)[i] == hex_of(x / 16, (w - 1) as nat)[i]);
            } else {
                assert(hex_of(x, w)[i] == hex_char_of(x % 16));
            }
        }
    }
}

/// Print then read gives the value back, for values that fit the width.
pub proof fn lemma_hex_value_of(x: nat, w: nat)
    requires
        x < pow16(w),
    ensures
        hex_value(hex_of(x, w)) == x,
    decreases w,
{
    if w == 0 {
    } else {
        lemma_hex_of_len(x / 16, (w - 1) as nat);
        assert(x / 16 < pow16((w - 1) as nat)) by {
            assert(pow16(w) == 16 * pow16((w - 1) as nat));
        }
        lemma_hex_value_of(x / 16, (w - 1) as nat);
        let s = hex_of(x, w);
        assert(s.last() == hex_char_of(x % 16));
        assert(s.drop_last() =~= hex_of(x / 16, (w - 1) as nat));
        lemma_hex_char_of_val(x % 16);
        assert(hex_value(s) == 16 * (x / 16) + x % 16);
    }
}

/// `parse_hex_at` recovers a fixed-width field embedded in a larger string.
pub proof fn lemma_parse_hex_at(s: Seq<char>, i: int, x: nat, w: nat)
    requires
        0 <= i,
        i + w <= s.len(),
        s.subrange(i, i + w) =~= hex_of(x, w),
        x < pow16(w),
    ensures
        parse_hex_at(s, i, w as int) == Some(x),
{
    lemma_hex_of_len(x, w);
    lemma_hex_value_of(x, w);
}

/// The hex digit for `d`.
pub fn hex_digit_char(d: u8) -> (c: char)
    requires
        d < 16,
    ensures
        c == hex_char_of(d as nat),
{
    match d {
        0 => '0',
        1 => '1',
        2 => '2',
        3 => '3',
        4 => '4',
        5 => '5',
        6 => '6',
        7 => '7',
        8 => '8',
        9 => '9',
        10 => 'a',
        11 => 'b',
        12 => 'c',
        13 => 'd',
        14 => 'e',
        _ => 'f',
    }
}

/// The value of a hex digit, or `None` for any other character.
pub fn hex_char_value(c: char) -> (r: Option<u8>)
    ensures
        match r {
            Some(d) => hex_val(c) == Some(d as nat) && d < 16,
            None => hex_val(c) is None,
        },
{
    match c {
        '0' => Some(0),
        '1' => Some(1),
        '2' => Some(2),
        '3' => Some(3),
        '4' => Some(4),
        '5' => Some(5),
        '6' => Some(6),
        '7' => Some(7),
        '8' => Some(8),
        '9' => Some(9),
        'a' | 'A' => Some(10),
        'b' | 'B' => Some(11),
        'c' | 'C' => Some(12),
        'd' | 'D' => Some(13),
        'e' | 'E' => Some(14),
        'f' | 'F' => Some(15),
        _ => None,
    }
}

/// Appends `x` to `out` as exactly `w` lower-case hex digits.
pub fn push_hex(out: &mut Vec<char>, x: u128, w: usize)
    requires
        w <= 32,
        (x as nat) < pow16(w as nat),
    ensures
        final(out)@ == old(out)@ + hex_of(x as nat, w as nat),
{
    let ghost orig = out@;
    let mut digits: Vec<char> = Vec::new();
    let mut v: u128 = x;
    let mut j: usize = 0;
    while j < w
        invariant
            j <= w,
            w <= 32,
            digits@.len() == j,
            v as nat == hex_value_inverse_helper(x as nat, j as nat),
            forall|k: int|
                0 <= k < j ==> #[trigger] digits@[k] == hex_of(x as nat, w as nat)[w - 1 - k],
        decreases w - j,
    {
        proof {
            lemma_hex_of_len(x as nat, w as nat);
            lemma_hex_of_index(x as nat, w as nat, j as nat);
        }
        digits.push(hex_digit_char((v % 16) as u8));
        v = v / 16;
        j = j + 1;
    }
    let mut k: usize = w;
    while k > 0
        invariant
            k <= w,
            digits@.len() == w,
            forall|t: int|
                0 <= t < w ==> #[trigger] digits@[t] == hex_of(x as nat, w as nat)[w - 1 - t],
            out@ == orig + hex_of(x as nat, w as nat).take(w - k),
        decreases k,
    {
        proof {
            lemma_hex_of_len(x as nat, w as nat);
            assert(hex_of(x as nat, w as nat).take(w - (k - 1)) =~= hex_of(
                x as nat,
                w as nat,
            ).take(w - k).push(hex_of(x as nat, w as nat)[w - k]));
        }
        out.push(digits[k - 1]);
        k = k - 1;
    }
    proof {
        lemma_hex_of_len(x as nat, w as nat);
        assert(hex_of(x as nat, w as nat).take(w as int) =~= hex_of(x as nat, w as nat));
    }
}

/// x divided by 16, j times.
pub open spec fn hex_value_inverse_helper(x: nat, j: nat) -> nat
    decreases j,
{
    if j == 0 {
        x
    } else {
        hex_value_inverse_helper(x, (j - 1) as nat) / 16
    }
}

/// Digit `i` (from the most significant end) of the width-`w` rendering of `x`.
pub proof fn lemma_hex_of_index(x: nat, w: nat, j: nat)
    requires
        j < w,
    ensures
        hex_of(x, w)[w - 1 - j] == hex_char_of(hex_value_inverse_helper(x, j) % 16),
    decreases w,
{
    lemma_hex_of_len(x, w);
    if j == 0 {
        assert(hex_of(x, w)[w - 1] == hex_char_of(x % 16));
    } else {
        lemma_hex_of_index(x / 16, (w - 1) as nat, (j - 1) as nat);
        lemma_hex_of_len(x / 16, (w - 1) as nat);
        assert(hex_of(x, w)[w - 1 - j] == hex_of(x / 16, (w - 1) as nat)[w - 2 - (j - 1)]);
        lemma_hex_value_inverse_div(x, (j - 1) as nat);
    }
}

proof fn lemma_hex_value_inverse_div(x: nat, j: nat)
    ensures
        hex_value_inverse_helper(x / 16, j) == hex_value_inverse_helper(x, j + 1),
    decreases j,
{
    if j == 0 {
        assert(hex_value_inverse_helper(x / 16, 0) == x / 16);
        assert(hex_value_inverse_helper(x, 0) == x);
        assert(hex_value_inverse_helper(x, 1) == x / 16);
    } else {
        lemma_hex_value_inverse_div(x, (j - 1) as nat);
    }
}

/// Reads `w` hex digits of `s` starting at `i`, as `parse_hex_at` does.
pub fn read_hex(s: &str, i: usize, w: usize) -> (r: Option<u128>)
    requires
        w <= 32,
        i + w <= s@.len(),
        i + w <= usize::MAX,
    ensures
        match r {
            Some(x) => parse_hex_at(s@, i as int, w as int) == Some(x as nat),
            None => parse_hex_at(s@, i as int, w as int) is None,
        },
{
    let ghost sub = s@.subrange(i as int, i + w);
    let mut acc: u128 = 0;
    let mut j: usize = 0;
    while j < w
        invariant
            j <= w,
            w <= 32,
            i + w <= s@.len(),
            i + w <= usize::MAX,
            sub == s@.subrange(i as int, i + w),
            all_hex(sub.take(j as int)),
            acc as nat == hex_value(sub.take(j as int)),
            (acc as nat) < pow16(j as nat),
        decreases w - j,
    {
        let c = s.get_char(i + j);
        assert(c == sub[j as int]);
        match hex_char_value(c) {
            Some(d) => {
                proof {
                    assert(sub.take(j + 1).drop_last() =~= sub.take(j as int));
                    assert(sub.take(j + 1).last() == c);
                    assert(pow16(j as nat + 1) == 16 * pow16(j as nat));
                    lemma_pow16_mono(j as nat + 1, 32);
                    lemma_pow16_32();
                }
                acc = acc * 16 + (d as u128);
                j = j + 1;
            },
            None => {
                proof {
                    assert(hex_val(sub[j as int]) is None);
                    assert(!all_hex(sub));
                }
                return None;
            },
        }
    }
    proof {
        assert(sub.take(w as int) =~= sub);
    }
    Some(acc)
}

/// 16^32 written out, so that width-32 values are known to fit in a u128.
pub proof fn lemma_pow16_32()
    ensures
        pow16(32) == 0x1_0000_0000_0000_0000_0000_0000_0000_0000,
{
    assert(pow16(0) == 1);
    assert(pow16(1) == 0x10);
    assert(pow16(2) == 0x100);
    assert(pow16(3) == 0x1000);
    assert(pow16(4) == 0x1_0000);
    assert(pow16(5) == 0x10_0000);
    assert(pow16(6) == 0x100_0000);
    assert(pow16(7) == 0x1000_0000);
    assert(pow16(8) == 0x1_0000_0000);
    assert(pow16(9) == 0x10_0000_0000);
    assert(pow16(10) == 0x100_0000_0000);
    assert(pow16(11) == 0x1000_0000_0000);
    assert(pow16(12) == 0x1_0000_0000_0000);
    assert(pow16(13) == 0x10_0000_0000_0000);
    assert(pow16(14) == 0x100_0000_0000_0000);
    assert(pow16(15) == 0x1000_0000_0000_0000);
    assert(pow16(16) == 0x1_0000_0000_0000_0000);
    assert(pow16(17) == 0x10_0000_0000_0000_0000);
    assert(pow16(18) == 0x100_0000_0000_0000_0000);
    assert(pow16(19) == 0x1000_0000_0000_0000_0000);
    assert(pow16(20) == 0x1_0000_0000_0000_0000_0000);
    assert(pow16(21) == 0x10_0000_0000_0000_0000_0000);
    assert(pow16(22) == 0x100_0000_0000_0000_0000_0000);
    assert(pow16(23) == 0x1000_0000_0000_0000_0000_0000);
    assert(pow16(24) == 0x1_0000_0000_0000_0000_0000_0000);
    assert(pow16(25) == 0x10_0000_0000_0000_0000_0000_0000);
    assert(pow16(26) == 0x100_0000_0000_0000_0000_0000_0000);
    assert(pow16(27) == 0x1000_0000_0000_0000_0000_0000_0000);
    assert(pow16(28) == 0x1_0000_0000_0000_0000_0000_0000_0000);
    assert(pow16(29) == 0x10_0000_0000_0000_0000_0000_0000_0000);
    assert(pow16(30) == 0x100_0000_0000_0000_0000_0000_0000_0000);
    assert(pow16(31) == 0x1000_0000_0000_0000_0000_0000_0000_0000);
    assert(pow16(32) == 0x1_0000_0000_0000_0000_0000_0000_0000_0000);
}

/// pow16 is monotone in the width.
pub proof fn lemma_pow16_mono(a: nat, b: nat)
    requires
        a <= b,
    ensures
        pow16(a) <= pow16(b),
    decreases b,
{
    if a < b {
        lemma_pow16_mono(a, (b - 1) as nat);
        assert(pow16(b) == 16 * pow16((b - 1) as nat));
        lemma_pow16_pos((b - 1) as nat);
    }
}

pub proof fn lemma_pow16_pos(w: nat)
    ensures
        pow16(w) >= 1,
    decreases w,
{
    if w > 0 {
        lemma_pow16_pos((w - 1) as nat);
    }
}

/// The powers of 16 the wire format works with, written out.
pub proof fn lemma_pow16_values()
    ensures
        pow16(2) == 0x100,
        pow16(16) == 0x1_0000_0000_0000_0000,
        pow16(32) == 0x1_0000_0000_0000_0000_0000_0000_0000_0000,
{
    assert(pow16(0) == 1);
    assert(pow16(1) == 0x10);
    assert(pow16(2) == 0x100);
    assert(pow16(3) == 0x1000);
    assert(pow16(4) == 0x1_0000);
    assert(pow16(5) == 0x10_0000);
    assert(pow16(6) == 0x100_0000);
    assert(pow16(7) == 0x1000_0000);
    assert(pow16(8) == 0x1_0000_0000);
    assert(pow16(9) == 0x10_0000_0000);
    assert(pow16(10) == 0x100_0000_0000);
    assert(pow16(11) == 0x1000_0000_0000);
    assert(pow16(12) == 0x1_0000_0000_0000);
    assert(pow16(13) == 0x10_0000_0000_0000);
    assert(pow16(14) == 0x100_0000_0000_0000);
    assert(pow16(15) == 0x1000_0000_0000_0000);
    assert(pow16(16) == 0x1_0000_0000_0000_0000);
    lemma_pow16_32();
}

/// A string of w hex digits holds a value below 16^w.
pub proof fn lemma_hex_value_bound(s: Seq<char>)
    requires
        all_hex(s),
    ensures
        hex_value(s) < pow16(s.len()),
    decreases s.len(),
{
    if s.len() > 0 {
        assert(all_hex(s.drop_last())) by {
            assert(forall|i: int|
                0 <= i < s.len() - 1 ==> #[trigger] s.drop_last()[i] == s[i]);
        }
        lemma_hex_value_bound(s.drop_last());
        assert(hex_val(s.last()).unwrap_or(0) < 16);
        assert(pow16(s.len()) == 16 * pow16((s.len() - 1) as nat));
    }
}

/// Reads `w` hex digits of `v` starting at `i`, as `parse_hex_at` does.
pub fn read_hex_vec(v: &Vec<char>, i: usize, w: usize) -> (r: Option<u128>)
    requires
        w <= 32,
        i + w <= v@.len(),
        i + w <= usize::MAX,
    ensures
        match r {
            Some(x) => parse_hex_at(v@, i as int, w as int) == Some(x as nat),
            None => parse_hex_at(v@, i as int, w as int) is None,
        },
{
    let ghost sub = v@.subrange(i as int, i + w);
    let mut acc: u128 = 0;
    let mut j: usize = 0;
    while j < w
        invariant
            j <= w,
            w <= 32,
            i + w <= v@.len(),
            i + w <= usize::MAX,
            sub == v@.subrange(i as int, i + w),
            all_hex(sub.take(j as int)),
            acc as nat == hex_value(sub.take(j as int)),
            (acc as nat) < pow16(j as nat),
        decreases w - j,
    {
        let c = v[i + j];
        assert(c == sub[j as int]);
        match hex_char_value(c) {
            Some(d) => {
                proof {
                    assert(sub.take(j + 1).drop_last() =~= sub.take(j as int));
                    assert(sub.take(j + 1).last() == c);
                    assert(pow16(j as nat + 1) == 16 * pow16(j as nat));
                    lemma_pow16_mono(j as nat + 1, 32);
                    lemma_pow16_32();
                }
                acc = acc * 16 + (d as u128);
                j = j + 1;
            },
            None => {
                proof {
                    assert(hex_val(sub[j as int]) is None);
                    assert(!all_hex(sub));
                }
                return None;
            },
        }
    }
    proof {
        assert(sub.take(w as int) =~= sub);
    }
    Some(acc)
}

/// Appends characters `from..to` of `s` to `out`.
pub fn push_str_range(out: &mut Vec<char>, s: &str, from: usize, to: usize)
    requires
        from <= to <= s@.len(),
        to <= usize::MAX,
    ensures
        final(out)@ == old(out)@ + s@.subrange(from as int, to as int),
{
    let mut k: usize = from;
    while k < to
        invariant
            from <= k <= to <= s@.len(),
            to <= usize::MAX,
            out@ == old(out)@ + s@.subrange(from as int, k as int),
        decreases to - k,
    {
        proof {
            assert(s@.subrange(from as int, k + 1) =~= s@.subrange(from as int, k as int).push(
                s@[k as int],
            ));
        }
        out.push(s.get_char(k));
        k = k + 1;
    }
}

/// Appends `src[from..to]` to `out`.
pub fn push_range(out: &mut Vec<char>, src: &Vec<char>, from: usize, to: usize)
    requires
        from <= to <= src@.len(),
    ensures
        final(out)@ == old(out)@ + src@.subrange(from as int, to as int),
{
    let mut k: usize = from;
    while k < to
        invariant
            from <= k <= to <= src@.len(),
            out@ == old(out)@ + src@.subrange(from as int, k as int),
        decreases to - k,
    {
        proof {
            assert(src@.subrange(from as int, k + 1) =~= src@.subrange(from as int, k as int).push(
                src@[k as int],
            ));
        }
        out.push(src[k]);
        k = k + 1;
    }
}

} // verus!
