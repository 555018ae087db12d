//! Verified parsing and formatting of integers.
//!
//! The socket tables carry the local address and port in hexadecimal and
//! the owning inode in decimal.  The parsers here follow the standard
//! library's rules for integer strings — digits of the radix, optionally
//! preceded by a plus sign — and the callers' defaulting: a value that
//! does not parse, or does not fit, counts as zero.

use vstd::prelude::*;

verus! {

/// Whether `c` is a hexadecimal digit.
pub open spec fn is_hex_digit(c: char) -> bool {
    ('0' as u32 <= c as u32 && c as u32 <= '9' as u32) || ('a' as u32 <= c as u32 && c as u32
        <= 'f' as u32) || ('A' as u32 <= c as u32 && c as u32 <= 'F' as u32)
}

/// The value of a hexadecimal digit (zero on other characters).
pub open spec fn hex_digit_val(c: char) -> nat {
    if '0' as u32 <= c as u32 && c as u32 <= '9' as u32 {
        (c as u32 - '0' as u32) as nat
    } else if 'a' as u32 <= c as u32 && c as u32 <= 'f' as u32 {
        (c as u32 - 'a' as u32 + 10) as nat
    } else if 'A' as u32 <= c as u32 && c as u32 <= 'F' as u32 {
        (c as u32 - 'A' as u32 + 10) as nat
    } else {
        0
    }
}

/// Whether `c` is a decimal digit.
pub open spec fn is_dec_digit(c: char) -> bool {
    '0' as u32 <= c as u32 && c as u32 <= '9' as u32
}

/// The value of a decimal digit (zero on other characters).
pub open spec fn dec_digit_val(c: char) -> nat {
    if is_dec_digit(c) {
        (c as u32 - '0' as u32) as nat
    } else {
        0
    }
}

pub open spec fn all_hex(d: Seq<char>) -> bool {
    forall|k: int| 0 <= k < d.len() ==> is_hex_digit(d[k])
}

pub open spec fn all_dec(d: Seq<char>) -> bool {
    forall|k: int| 0 <= k < d.len() ==> is_dec_digit(d[k])
}

/// The number written in hexadecimal by `d`, most significant digit first.
pub open spec fn hex_num(d: Seq<char>) -> nat
    decreases d.len(),
{
    if d.len() == 0 {
        0
    } else {
        hex_num(d.drop_last()) * 16 + hex_digit_val(d.last())
    }
}

/// The number written in decimal by `d`, most significant digit first.
pub open spec fn dec_num(d: Seq<char>) -> nat
    decreases d.len(),
{
    if d.len() == 0 {
        0
    } else {
        dec_num(d.drop_last()) * 10 + dec_digit_val(d.last())
    }
}

/// The digits of an integer string after its optional leading plus sign.
/// A minus sign is not accepted for the unsigned values parsed here; it is
/// left in place and fails the digit test.
pub open spec fn after_sign(s: Seq<char>) -> Seq<char> {
    if s.len() > 0 && s[0] == '+' {
        s.drop_first()
    } else {
        s
    }
}

/// The value a hexadecimal field stands for, with every failure — no
/// digits, a stray character, a value above `max` — defaulting to zero.
pub open spec fn hex_or_zero(s: Seq<char>, max: nat) -> nat {
    let d = after_sign(s);
    if d.len() > 0 && all_hex(d) && hex_num(d) <= max {
        hex_num(d)
    } else {
        0
    }
}

/// The `u32` a decimal field stands for, with every failure defaulting
/// to zero.
pub open spec fn dec_or_zero(s: Seq<char>) -> u32 {
    match dec_parse(s) {
        Option::Some(v) => v,
        Option::None => 0,
    }
}

/// The `u32` a decimal string parses to, if it parses.
pub open spec fn dec_parse(s: Seq<char>) -> Option<u32> {
    let d = after_sign(s);
    if d.len() > 0 && all_dec(d) && dec_num(d) <= u32::MAX {
        Some(dec_num(d) as u32)
    } else {
        None
    }
}

/// A prefix of a digit string never stands for more than the whole string.
pub proof fn lemma_hex_prefix_le(d: Seq<char>, k: int)
    requires
        0 <= k <= d.len(),
    ensures
        hex_num(d.subrange(0, k)) <= hex_num(d),
    decreases d.len() - k,
{
    if k < d.len() {
        lemma_hex_prefix_le(d, k + 1);
        assert(d.subrange(0, k + 1).drop_last() =~= d.subrange(0, k));
        assert(hex_num(d.subrange(0, k + 1)) == hex_num(d.subrange(0, k)) * 16 + hex_digit_val(
            d.subrange(0, k + 1).last(),
        ));
    } else {
        assert(d.subrange(0, k) =~= d);
    }
}

/// See [`lemma_hex_prefix_le`].
pub proof fn lemma_dec_prefix_le(d: Seq<char>, k: int)
    requires
        0 <= k <= d.len(),
    ensures
        dec_num(d.subrange(0, k)) <= dec_num(d),
    decreases d.len() - k,
{
    if k < d.len() {
        lemma_dec_prefix_le(d, k + 1);
        assert(d.subrange(0, k + 1).drop_last() =~= d.subrange(0, k));
        assert(dec_num(d.subrange(0, k + 1)) == dec_num(d.subrange(0, k)) * 10 + dec_digit_val(
            d.subrange(0, k + 1).last(),
        ));
    } else {
        assert(d.subrange(0, k) =~= d);
    }
}

/// A leading zero never changes what a hexadecimal string stands for.
pub proof fn lemma_hex_leading_zero(d: Seq<char>)
    ensures
        hex_num(seq!['0'] + d) == hex_num(d),
    decreases d.len(),
{
    if d.len() == 0 {
        assert((seq!['0'] + d) =~= seq!['0']);
        assert(seq!['0'].drop_last() =~= Seq::<char>::empty());
        assert(hex_num(Seq::<char>::empty()) == 0);
        assert(seq!['0'].last() == '0');
        assert(hex_num(seq!['0']) == hex_digit_val('0'));
    } else {
        lemma_hex_leading_zero(d.drop_last());
        assert((seq!['0'] + d).drop_last() =~= seq!['0'] + d.drop_last());
        assert((seq!['0'] + d).last() == d.last());
    }
}

/// The value of one hexadecimal digit character, if it is one.
fn hex_digit(c: char) -> (r: Option<u8>)
    ensures
        r is Some <==> is_hex_digit(c),
        r matches Some(v) ==> v as nat == hex_digit_val(c),
{
    let u = c as u32;
    if 48 <= u && u <= 57 {
        Some((u - 48) as u8)
    } else if 97 <= u && u <= 102 {
        Some((u - 87) as u8)
    } else if 65 <= u && u <= 70 {
        Some((u - 55) as u8)
    } else {
        None
    }
}

/// The value of one decimal digit character, if it is one.
fn dec_digit(c: char) -> (r: Option<u8>)
    ensures
        r is Some <==> is_dec_digit(c),
        r matches Some(v) ==> v as nat == dec_digit_val(c),
{
    let u = c as u32;
    if 48 <= u && u <= 57 {
        Some((u - 48) as u8)
    } else {
        None
    }
}

/// Parses `v` as hexadecimal, defaulting to zero as [`hex_or_zero`] says.
pub fn parse_hex_capped(v: &Vec<char>, max: u64) -> (r: u64)
    requires
        max <= u32::MAX,
    ensures
        r as nat == hex_or_zero(v@, max as nat),
        r <= max,
{
    let start: usize = if v.len() > 0 && v[0] == '+' {
        1
    } else {
        0
    };
    let ghost d = after_sign(v@);
    proof {
        assert(d =~= v@.subrange(start as int, v@.len() as int));
    }
    if v.len() == start {
        return 0;
    }
    let mut acc: u64 = 0;
    let mut i: usize = start;
    while i < v.len()
        invariant
            start <= i <= v@.len(),
            d == after_sign(v@),
            d == v@.subrange(start as int, v@.len() as int),
            max <= u32::MAX,
            acc as nat == hex_num(d.subrange(0, i - start)),
            acc <= max,
            all_hex(d.subrange(0, i - start)),
        decreases v.len() - i,
    {
        let ghost pre = d.subrange(0, i - start);
        match hex_digit(v[i]) {
            None => {
                proof {
                    assert(!is_hex_digit(d[i - start]));
                    assert(!all_hex(d));
                    assert(hex_or_zero(v@, max as nat) == 0);
                }
                return 0;
            },
            Some(dv) => {
                let next: u64 = acc * 16 + dv as u64;
                proof {
                    assert(d.subrange(0, i + 1 - start).drop_last() =~= pre);
                    assert(d.subrange(0, i + 1 - start).last() == v@[i as int]);
                    assert(hex_num(d.subrange(0, i + 1 - start)) == acc as nat * 16
                        + hex_digit_val(v@[i as int]));
                }
                if next > max {
                    proof {
                        lemma_hex_prefix_le(d, i + 1 - start);
                        assert(hex_num(d) >= next as nat);
                        assert(hex_or_zero(v@, max as nat) == 0);
                    }
                    return 0;
                }
                acc = next;
                assert(forall|k: int|
                    0 <= k < i + 1 - start ==> is_hex_digit(
                        #[trigger] d.subrange(0, i + 1 - start)[k],
                    ));
            },
        }
        i += 1;
    }
    proof {
        assert(d.subrange(0, v@.len() - start) =~= d);
    }
    acc
}

/// Parses `v` as a decimal `u32`, as [`dec_parse`] says.
pub fn parse_u32_dec(v: &Vec<char>) -> (r: Option<u32>)
    ensures
        r == dec_parse(v@),
{
    let start: usize = if v.len() > 0 && v[0] == '+' {
        1
    } else {
        0
    };
    let ghost d = after_sign(v@);
    proof {
        assert(d =~= v@.subrange(start as int, v@.len() as int));
    }
    if v.len() == start {
        return None;
    }
    let mut acc: u64 = 0;
    let mut i: usize = start;
    while i < v.len()
        invariant
            start <= i <= v@.len(),
            d == after_sign(v@),
            d == v@.subrange(start as int, v@.len() as int),
            acc as nat == dec_num(d.subrange(0, i - start)),
            acc <= u32::MAX,
            all_dec(d.subrange(0, i - start)),
        decreases v.len() - i,
    {
        let ghost pre = d.subrange(0, i - start);
        match dec_digit(v[i]) {
            None => {
                proof {
                    assert(!is_dec_digit(d[i - start]));
                    assert(!all_dec(d));
                    assert(dec_parse(v@) is None);
                }
                return None;
            },
            Some(dv) => {
                let next: u64 = acc * 10 + dv as u64;
                proof {
                    assert(d.subrange(0, i + 1 - start).drop_last() =~= pre);
                    assert(d.subrange(0, i + 1 - start).last() == v@[i as int]);
                    assert(dec_num(d.subrange(0, i + 1 - start)) == acc as nat * 10
                        + dec_digit_val(v@[i as int]));
                }
                if next > u32::MAX as u64 {
                    proof {
                        lemma_dec_prefix_le(d, i + 1 - start);
                        assert(dec_num(d) >= next as nat);
                        assert(dec_parse(v@) is None);
                    }
                    return None;
                }
                acc = next;
                assert(forall|k: int|
                    0 <= k < i + 1 - start ==> is_dec_digit(
                        #[trigger] d.subrange(0, i + 1 - start)[k],
                    ));
            },
        }
        i += 1;
    }
    proof {
        assert(d.subrange(0, v@.len() - start) =~= d);
    }
    Some(acc as u32)
}

/// The decimal digit characters, least significant written last.
pub open spec fn dec_digit_char(d: nat) -> char {
    if d == 0 {
        '0'
    } else if d == 1 {
        '1'
    } else if d == 2 {
        '2'
    } else if d == 3 {
        '3'
    } else if d == 4 {
        '4'
    } else if d == 5 {
        '5'
    } else if d == 6 {
        '6'
    } else if d == 7 {
        '7'
    } else if d == 8 {
        '8'
    } else {
        '9'
    }
}

/// The decimal writing of `n`, without leading zeros.
pub open spec fn dec_chars(n: nat) -> Seq<char>
    decreases n,
{
    if n < 10 {
        seq![dec_digit_char(n)]
    } else {
        dec_chars(n / 10).push(dec_digit_char(n % 10))
    }
}

fn dec_digit_char_exec(d: u32) -> (c: char)
    requires
        d < 10,
    ensures
        c == dec_digit_char(d as nat),
{
    match d {
        0 => '0',
        1 => '1',
        2 => '2',
        3 => '3',
        4 => '4',
        5 => '5',
        6 => '6',
        7 => '7',
        8 => '8',
        _ => '9',
    }
}

/// Writes `n` in decimal, without leading zeros.
pub fn dec_chars_exec(n: u32) -> (r: Vec<char>)
    ensures
        r@ == dec_chars(n as nat),
    decreases n,
{
    if n < 10 {
        let mut r: Vec<char> = Vec::new();
        r.push(dec_digit_char_exec(n));
        assert(r@ =~= dec_chars(n as nat));
        r
    } else {
        let mut r = dec_chars_exec(n / 10);
        r.push(dec_digit_char_exec(n % 10));
        r
    }
}

} // verus!
