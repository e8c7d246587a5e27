//! Fixed-width hexadecimal encoding of unsigned values.
//!
//! The wire envelope writes every number as a fixed number of lower-case hex
//! digits: identifiers as 32 digits, lengths as 16.  This module gives the
//! digit alphabet, the spec-level encoding and its value function, the facts
//! that make the round trip go through, and the executable encoder and
//! decoder proved against them.

use vstd::prelude::*;

verus! {

/// 16 to the power `k`; the number of values a `k`-digit hex field can hold.
pub open spec fn pow16(k: nat) -> nat
    decreases k,
{
    if k == 0 {
        1
    } else {
        16 * pow16((k - 1) as nat)
    }
}

/// The hex digit standing for a value below 16 (lower case).
pub open spec fn hex_char_of(d: nat) -> char {
    if d == 0 {
        '0'
    } else if d == 1 {
        '1'
    } else if d == 2 {
        '2'
    } else if d == 3 {
        '3'
    } else if d == 4 {
        '4'
    } else if d == 5 {
        '5'
    } else if d == 6 {
        '6'
    } else if d == 7 {
        '7'
    } else if d == 8 {
        '8'
    } else if d == 9 {
        '9'
    } else if d == 10 {
        'a'
    } else if d == 11 {
        'b'
    } else if d == 12 {
        'c'
    } else if d == 13 {
        'd'
    } else if d == 14 {
        'e'
    } else {
        'f'
    }
}

/// The value of a hex digit; 16 for a character that is no hex digit.
pub open spec fn hex_val_of(c: char) -> nat {
    if c == '0' {
        0
    } else if c == '1' {
        1
    } else if c == '2' {
        2
    } else if c == '3' {
        3
    } else if c == '4' {
        4
    } else if c == '5' {
        5
    } else if c == '6' {
        6
    } else if c == '7' {
        7
    } else if c == '8' {
        8
    } else if c == '9' {
        9
    } else if c == 'a' {
        10
    } else if c == 'b' {
        11
    } else if c == 'c' {
        12
    } else if c == 'd' {
        13
    } else if c == 'e' {
        14
    } else if c == 'f' {
        15
    } else {
        16
    }
}

pub open spec fn is_hex_digit(c: char) -> bool {
    hex_val_of(c) < 16
}

pub open spec fn all_hex(s: Seq<char>) -> bool {
    forall|i: int| 0 <= i < s.len() ==> is_hex_digit(#[trigger] s[i])
}

/// The low `k` hex digits of `v`, most significant first.
pub open spec fn hex_seq(v: nat, k: nat) -> Seq<char>
    decreases k,
{
    if k == 0 {
        Seq::empty()
    } else {
        hex_seq(v / 16, (k - 1) as nat).push(hex_char_of(v % 16))
    }
}

/// The value of a string of hex digits, most significant first.
pub open spec fn hex_val(s: Seq<char>) -> nat
    decreases s.len(),
{
    if s.len() == 0 {
        0
    } else {
        hex_val(s.drop_last()) * 16 + hex_val_of(s.last())
    }
}

pub proof fn lemma_hex_digit_round_trip(d: nat)
    requires
        d < 16,
    ensures
        hex_val_of(hex_char_of(d)) == d,
{
}

pub proof fn lemma_hex_seq_len(v: nat, k: nat)
    ensures
        hex_seq(v, k).len() == k,
    decreases k,
{
    if k > 0 {
        lemma_hex_seq_len(v / 16, (k - 1) as nat);
    }
}

pub proof fn lemma_hex_seq_all_hex(v: nat, k: nat)
    ensures
        all_hex(hex_seq(v, k)),
    decreases k,
{
    if k > 0 {
        lemma_hex_seq_all_hex(v / 16, (k - 1) as nat);
        lemma_hex_digit_round_trip(v % 16);
        assert forall|i: int| 0 <= i < hex_seq(v, k).len() implies is_hex_digit(
            #[trigger] hex_seq(v, k)[i],
        ) by {
            lemma_hex_seq_len(v / 16, (k - 1) as nat);
            if i < k - 1 {
                assert(hex_seq(v, k)[i] == hex_seq(v / 16, (k - 1) as nat)[i]);
            }
        }
    }
}

/// The round trip on numbers: a value below `16^k` is recovered from its
/// `k`-digit rendering.
pub proof fn lemma_hex_seq_val(v: nat, k: nat)
    requires
        v < pow16(k),
    ensures
        hex_val(hex_seq(v, k)) == v,
    decreases k,
{
    if k == 0 {
    } else {
        let prefix = hex_seq(v / 16, (k - 1) as nat);
        let whole = prefix.push(hex_char_of(v % 16));
        lemma_hex_seq_len(v / 16, (k - 1) as nat);
        assert(whole.drop_last() =~= prefix);
        assert(whole.last() == hex_char_of(v % 16));
        vstd::arithmetic::div_mod::lemma_multiply_divide_lt(v as int, 16, pow16((k - 1) as nat) as int);
        lemma_hex_seq_val(v / 16, (k - 1) as nat);
        lemma_hex_digit_round_trip(v % 16);
        vstd::arithmetic::div_mod::lemma_fundamental_div_mod(v as int, 16);
    }
}

/// A string of `k` hex digits denotes a value below `16^k`.
pub proof fn lemma_hex_val_bound(s: Seq<char>)
    requires
        all_hex(s),
    ensures
        hex_val(s) < pow16(s.len()),
    decreases s.len(),
{
    if s.len() > 0 {
        assert(all_hex(s.drop_last()));
        lemma_hex_val_bound(s.drop_last());
        assert(hex_val_of(s.last()) < 16);
    }
}

/// Exponents add under multiplication.
pub proof fn lemma_pow16_add(a: nat, b: nat)
    ensures
        pow16(a + b) == pow16(a) * pow16(b),
    decreases a,
{
    if a == 0 {
        assert(pow16(a + b) == pow16(b));
        assert(pow16(a) == 1);
        assert(pow16(a + b) == pow16(a) * pow16(b));
    } else {
        lemma_pow16_add((a - 1) as nat, b);
        assert(pow16(a + b) == 16 * pow16((a - 1) as nat + b));
        assert(pow16(a) == 16 * pow16((a - 1) as nat));
        assert(pow16(a + b) == pow16(a) * pow16(b)) by (nonlinear_arith)
            requires
                pow16(a + b) == 16 * pow16((a - 1) as nat + b),
                pow16((a - 1) as nat + b) == pow16((a - 1) as nat) * pow16(b),
                pow16(a) == 16 * pow16((a - 1) as nat),
        ;
    }
}

/// The field widths the codec uses: 16 digits hold a 64-bit value, 32 digits
/// a 128-bit one.
pub proof fn lemma_pow16_values()
    ensures
        pow16(16) == 0x10000000000000000,
        pow16(32) == 0x100000000000000000000000000000000,
{
    assert(pow16(4) == 0x10000) by {
        reveal_with_fuel(pow16, 5);
    }
    lemma_pow16_add(4, 4);
    assert(pow16(8) == 0x100000000) by (nonlinear_arith)
        requires
            pow16(8) == pow16(4) * pow16(4),
            pow16(4) == 0x10000,
    ;
    lemma_pow16_add(8, 8);
    assert(pow16(16) == 0x10000000000000000) by (nonlinear_arith)
        requires
            pow16(16) == pow16(8) * pow16(8),
            pow16(8) == 0x100000000,
    ;
    lemma_pow16_add(16, 16);
    assert(pow16(32) == 0x100000000000000000000000000000000) by (nonlinear_arith)
        requires
            pow16(32) == pow16(16) * pow16(16),
            pow16(16) == 0x10000000000000000,
    ;
}

pub proof fn lemma_pow16_increases(j: nat, k: nat)
    requires
        j <= k,
    ensures
        pow16(j) <= pow16(k),
    decreases k,
{
    if j < k {
        lemma_pow16_increases(j, (k - 1) as nat);
        assert(pow16((k - 1) as nat) <= 16 * pow16((k - 1) as nat));
    }
}

/// Appending one digit to a digit string multiplies its value by 16 and adds
/// the digit.
pub proof fn lemma_hex_val_push(s: Seq<char>, c: char)
    ensures
        hex_val(s.push(c)) == hex_val(s) * 16 + hex_val_of(c),
{
    assert(s.push(c).drop_last() =~= s);
    assert(s.push(c).last() == c);
}

/// The executable digit table; one arm per digit.
fn hex_digit_str(d: u8) -> (r: &'static str)
    requires
        d < 16,
    ensures
        r@ =~= seq![hex_char_of(d as nat)],
{
    proof {
        reveal_strlit("0");
        reveal_strlit("1");
        reveal_strlit("2");
        reveal_strlit("3");
        reveal_strlit("4");
        reveal_strlit("5");
        reveal_strlit("6");
        reveal_strlit("7");
        reveal_strlit("8");
        reveal_strlit("9");
        reveal_strlit("a");
        reveal_strlit("b");
        reveal_strlit("c");
        reveal_strlit("d");
        reveal_strlit("e");
        reveal_strlit("f");
    }
    match d {
        0 => "0",
        1 => "1",
        2 => "2",
        3 => "3",
        4 => "4",
        5 => "5",
        6 => "6",
        7 => "7",
        8 => "8",
        9 => "9",
        10 => "a",
        11 => "b",
        12 => "c",
        13 => "d",
        14 => "e",
        _ => "f",
    }
}

/// The value of one character as a hex digit; 16 signals "no digit".
fn hex_digit_val(c: char) -> (r: u8)
    ensures
        r as nat == hex_val_of(c),
{
    match c {
        '0' => 0,
        '1' => 1,
        '2' => 2,
        '3' => 3,
        '4' => 4,
        '5' => 5,
        '6' => 6,
        '7' => 7,
        '8' => 8,
        '9' => 9,
        'a' => 10,
        'b' => 11,
        'c' => 12,
        'd' => 13,
        'e' => 14,
        'f' => 15,
        _ => 16,
    }
}

/// Renders the low `k` hex digits of `v`, most significant first.
pub fn hex_encode(v: u128, k: usize) -> (r: String)
    ensures
        r@ == hex_seq(v as nat, k as nat),
    decreases k,
{
    if k == 0 {
        String::new()
    } else {
        let mut s = hex_encode(v / 16, k - 1);
        s.append(hex_digit_str((v % 16) as u8));
        proof {
            assert(s@ =~= hex_seq(v as nat, k as nat));
        }
        s
    }
}

/// Reads `k` hex digits of `s` starting at character position `pos`.
/// Returns the value exactly when all `k` characters are hex digits.
pub fn hex_decode(s: &str, pos: usize, k: usize) -> (r: Option<u128>)
    requires
        pos + k <= s@.len(),
        s@.len() <= usize::MAX,
        k <= 32,
    ensures
        r is Some <==> all_hex(s@.subrange(pos as int, pos + k)),
        r matches Some(v) ==> v as nat == hex_val(s@.subrange(pos as int, pos + k)),
{
    let ghost field = s@.subrange(pos as int, pos + k);
    let mut acc: u128 = 0;
    let mut i: usize = 0;
    while i < k
        invariant
            pos + k <= s@.len(),
            s@.len() <= usize::MAX,
            k <= 32,
            i <= k,
            all_hex(field.take(i as int)),
            acc as nat == hex_val(field.take(i as int)),
            field =~= s@.subrange(pos as int, pos + k),
        decreases k - i,
    {
        let c = s.get_char(pos + i);
        let d = hex_digit_val(c);
        if d >= 16 {
            proof {
                assert(field[i as int] == c);
                assert(!is_hex_digit(field[i as int]));
            }
            return None;
        }
        proof {
            let taken = field.take(i as int);
            assert(field.take(i + 1) =~= taken.push(c));
            lemma_hex_val_push(taken, c);
            lemma_hex_val_bound(taken);
            lemma_pow16_increases(i as nat, 31);
            lemma_pow16_values();
            assert(hex_val(taken) * 16 + hex_val_of(c) < pow16(32)) by {
                assert(hex_val(taken) <= pow16(31) - 1);
                assert(hex_val(taken) * 16 <= (pow16(31) - 1) * 16) by (nonlinear_arith)
                    requires
                        hex_val(taken) <= pow16(31) - 1,
                ;
                assert((pow16(31) - 1) * 16 == 16 * pow16(31) - 16) by (nonlinear_arith);
                assert(16 * pow16(31) == pow16(32));
            }
        }
        acc = acc * 16 + (d as u128);
        i = i + 1;
    }
    proof {
        assert(field.take(k as int) =~= field);
    }
    Some(acc)
}

} // verus!
