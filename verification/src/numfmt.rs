//! Decimal and fixed-width hexadecimal renderings of machine integers,
//! together with hexadecimal parsing. Session tokens are built from the
//! hexadecimal forms; cache keys and capability tokens use the decimal ones.

use vstd::prelude::*;

verus! {

/// The decimal digit character for `d` (meaningful for `0 <= d < 10`).
pub open spec fn dec_digit_char(d: int) -> char {
    if d == 0 {
        '0'
    } else if d == 1 {
        '1'
    } else if d == 2 {
        '2'
    } else if d == 3 {
        '3'
    } else if d == 4 {
        '4'
    } else if d == 5 {
        '5'
    } else if d == 6 {
        '6'
    } else if d == 7 {
        '7'
    } else if d == 8 {
        '8'
    } else {
        '9'
    }
}

/// The canonical decimal rendering of `n`, without leading zeros.
pub open spec fn spec_dec_u64(n: nat) -> Seq<char>
    decreases n,
{
    if n < 10 {
        seq![dec_digit_char(n as int)]
    } else {
        spec_dec_u64(n / 10).push(dec_digit_char((n % 10) as int))
    }
}

/// The decimal rendering of a signed value: a `-` sign before the
/// rendering of its magnitude when it is negative.
pub open spec fn spec_dec_i64(n: int) -> Seq<char> {
    if n < 0 {
        seq!['-'] + spec_dec_u64((-n) as nat)
    } else {
        spec_dec_u64(n as nat)
    }
}

fn dec_digit_str(d: u64) -> (r: &'static str)
    requires
        d < 10,
    ensures
        r@ == seq![dec_digit_char(d as int)],
{
    let r: &'static str = match d {
        0 => "0",
        1 => "1",
        2 => "2",
        3 => "3",
        4 => "4",
        5 => "5",
        6 => "6",
        7 => "7",
        8 => "8",
        _ => "9",
    };
    proof {
        reveal_strlit("0");
        reveal_strlit("1");
        reveal_strlit("2");
        reveal_strlit("3");
        reveal_strlit("4");
        reveal_strlit("5");
        reveal_strlit("6");
        reveal_strlit("7");
        reveal_strlit("8");
        reveal_strlit("9");
        assert(r@ =~= seq![dec_digit_char(d as int)]);
    }
    r
}

/// Renders `n` in decimal.
pub fn u64_to_dec(n: u64) -> (s: String)
    ensures
        s@ == spec_dec_u64(n as nat),
    decreases n,
{
    if n < 10 {
        let s = dec_digit_str(n).to_owned();
        s
    } else {
        let mut s = u64_to_dec(n / 10);
        s.append(dec_digit_str(n % 10));
        proof {
            assert(s@ =~= spec_dec_u64((n / 10) as nat).push(dec_digit_char((n % 10) as int)));
        }
        s
    }
}

/// Renders `n` in decimal, with a leading `-` when it is negative.
pub fn i64_to_dec(n: i64) -> (s: String)
    ensures
        s@ == spec_dec_i64(n as int),
{
    if n >= 0 {
        u64_to_dec(n as u64)
    } else {
        // magnitude computed without overflowing i64::MIN
        let mag: u64 = ((-(n + 1)) as u64) + 1;
        assert(mag == (-(n as int)) as nat);
        let mut s = String::new();
        s.append("-");
        proof {
            reveal_strlit("-");
            assert(s@ =~= seq!['-']);
        }
        let digits = u64_to_dec(mag);
        s.append(digits.as_str());
        proof {
            assert(s@ =~= seq!['-'] + spec_dec_u64((-(n as int)) as nat));
        }
        s
    }
}

/// Renders `n` in decimal, with a leading `-` when it is negative.
pub fn i32_to_dec(n: i32) -> (s: String)
    ensures
        s@ == spec_dec_i64(n as int),
{
    i64_to_dec(n as i64)
}

/// The lowercase hexadecimal digit character for `d`
/// (meaningful for `0 <= d < 16`).
pub open spec fn hex_digit_char(d: int) -> char {
    if d == 10 {
        'a'
    } else if d == 11 {
        'b'
    } else if d == 12 {
        'c'
    } else if d == 13 {
        'd'
    } else if d == 14 {
        'e'
    } else if d == 15 {
        'f'
    } else {
        dec_digit_char(d)
    }
}

/// The value of a lowercase hexadecimal digit character, `-1` for any
/// other character.
pub open spec fn hex_char_val(c: char) -> int {
    if c == '0' {
        0
    } else if c == '1' {
        1
    } else if c == '2' {
        2
    } else if c == '3' {
        3
    } else if c == '4' {
        4
    } else if c == '5' {
        5
    } else if c == '6' {
        6
    } else if c == '7' {
        7
    } else if c == '8' {
        8
    } else if c == '9' {
        9
    } else if c == 'a' {
        10
    } else if c == 'b' {
        11
    } else if c == 'c' {
        12
    } else if c == 'd' {
        13
    } else if c == 'e' {
        14
    } else if c == 'f' {
        15
    } else {
        -1
    }
}

/// Whether `c` is a lowercase hexadecimal digit.
pub open spec fn is_hex_char(c: char) -> bool {
    0 <= hex_char_val(c) < 16
}

/// Reading a digit back gives the value it was rendered from.
pub proof fn lemma_hex_digit_val(d: int)
    requires
        0 <= d < 16,
    ensures
        hex_char_val(hex_digit_char(d)) == d,
{
}

/// 16 to the power `w`.
pub open spec fn pow16(w: nat) -> nat
    decreases w,
{
    if w == 0 {
        1
    } else {
        16 * pow16((w - 1) as nat)
    }
}

/// The `w` low-order hexadecimal digits of `n`, most significant first.
/// When `n < pow16(w)` this is the full fixed-width rendering of `n`.
pub open spec fn spec_hex_u64(n: nat, w: nat) -> Seq<char>
    decreases w,
{
    if w == 0 {
        Seq::empty()
    } else {
        spec_hex_u64(n / 16, (w - 1) as nat).push(hex_digit_char((n % 16) as int))
    }
}

pub proof fn lemma_spec_hex_len(n: nat, w: nat)
    ensures
        spec_hex_u64(n, w).len() == w,
    decreases w,
{
    if w > 0 {
        lemma_spec_hex_len(n / 16, (w - 1) as nat);
    }
}

pub proof fn lemma_spec_hex_chars(n: nat, w: nat)
    ensures
        forall|i: int| 0 <= i < spec_hex_u64(n, w).len() ==> is_hex_char(#[trigger] spec_hex_u64(n, w)[i]),
    decreases w,
{
    if w > 0 {
        lemma_spec_hex_len(n / 16, (w - 1) as nat);
        lemma_spec_hex_chars(n / 16, (w - 1) as nat);
        lemma_hex_digit_val((n % 16) as int);
        assert forall|i: int| 0 <= i < spec_hex_u64(n, w).len() implies is_hex_char(
            #[trigger] spec_hex_u64(n, w)[i],
        ) by {
            if i < w - 1 {
                assert(spec_hex_u64(n, w)[i] == spec_hex_u64(n / 16, (w - 1) as nat)[i]);
            } else {
                assert(spec_hex_u64(n, w)[i] == hex_digit_char((n % 16) as int));
            }
        }
    }
}

/// A fixed-width hexadecimal rendering identifies the rendered value.
pub proof fn lemma_spec_hex_inj(a: nat, b: nat, w: nat)
    requires
        a < pow16(w),
        b < pow16(w),
        spec_hex_u64(a, w) == spec_hex_u64(b, w),
    ensures
        a == b,
    decreases w,
{
    if w == 0 {
        assert(a == 0 && b == 0);
    } else {
        lemma_spec_hex_len(a / 16, (w - 1) as nat);
        lemma_spec_hex_len(b / 16, (w - 1) as nat);
        let sa = spec_hex_u64(a / 16, (w - 1) as nat);
        let sb = spec_hex_u64(b / 16, (w - 1) as nat);
        assert(sa.push(hex_digit_char((a % 16) as int)).last() == hex_digit_char((a % 16) as int));
        assert(sa.push(hex_digit_char((a % 16) as int)).drop_last() =~= sa);
        assert(sb.push(hex_digit_char((b % 16) as int)).drop_last() =~= sb);
        lemma_hex_digit_val((a % 16) as int);
        lemma_hex_digit_val((b % 16) as int);
        assert(a % 16 == b % 16);
        assert(sa == sb);
        assert(a / 16 < pow16((w - 1) as nat) && b / 16 < pow16((w - 1) as nat)) by {
            lemma_div_bound(a, pow16((w - 1) as nat));
            lemma_div_bound(b, pow16((w - 1) as nat));
        }
        lemma_spec_hex_inj(a / 16, b / 16, (w - 1) as nat);
        assert(a == 16 * (a / 16) + a % 16) by (nonlinear_arith);
        assert(b == 16 * (b / 16) + b % 16) by (nonlinear_arith);
    }
}

proof fn lemma_div_bound(a: nat, p: nat)
    requires
        a < 16 * p,
    ensures
        a / 16 < p,
{
    assert(a / 16 < p) by (nonlinear_arith)
        requires
            a < 16 * p,
    ;
}

fn hex_digit_str(d: u64) -> (r: &'static str)
    requires
        d < 16,
    ensures
        r@ == seq![hex_digit_char(d as int)],
{
    if d < 10 {
        dec_digit_str(d)
    } else {
        let r: &'static str = match d {
            10 => "a",
            11 => "b",
            12 => "c",
            13 => "d",
            14 => "e",
            _ => "f",
        };
        proof {
            reveal_strlit("a");
            reveal_strlit("b");
            reveal_strlit("c");
            reveal_strlit("d");
            reveal_strlit("e");
            reveal_strlit("f");
            assert(r@ =~= seq![hex_digit_char(d as int)]);
        }
        r
    }
}

/// Renders the `w` low-order hexadecimal digits of `n`.
pub fn u64_to_hex(n: u64, w: usize) -> (s: String)
    requires
        w <= 16,
    ensures
        s@ == spec_hex_u64(n as nat, w as nat),
        s@.len() == w,
    decreases w,
{
    proof {
        lemma_spec_hex_len(n as nat, w as nat);
    }
    if w == 0 {
        String::new()
    } else {
        let mut s = u64_to_hex(n / 16, w - 1);
        s.append(hex_digit_str(n % 16));
        proof {
            assert(s@ =~= spec_hex_u64((n / 16) as nat, (w - 1) as nat).push(
                hex_digit_char((n % 16) as int),
            ));
        }
        s
    }
}

/// The two-digit hexadecimal rendering of one byte.
pub open spec fn spec_hex_byte(b: u8) -> Seq<char> {
    seq![hex_digit_char(b as int / 16), hex_digit_char(b as int % 16)]
}

/// The hexadecimal rendering of a byte string, two digits per byte.
pub open spec fn spec_hex_bytes(s: Seq<u8>) -> Seq<char>
    decreases s.len(),
{
    if s.len() == 0 {
        Seq::empty()
    } else {
        spec_hex_bytes(s.drop_last()) + spec_hex_byte(s.last())
    }
}

/// Renders a byte string in hexadecimal, two digits per byte.
pub fn bytes_to_hex(bytes: &Vec<u8>) -> (s: String)
    ensures
        s@ == spec_hex_bytes(bytes@),
{
    let mut s = String::new();
    assert(s@ =~= spec_hex_bytes(bytes@.take(0)));
    let n = bytes.len();
    for i in 0..n
        invariant
            n == bytes.len(),
            s@ == spec_hex_bytes(bytes@.take(i as int)),
    {
        let b = bytes[i];
        s.append(hex_digit_str((b / 16) as u64));
        s.append(hex_digit_str((b % 16) as u64));
        proof {
            let t = bytes@.take(i + 1);
            assert(t.drop_last() =~= bytes@.take(i as int));
            assert(t.last() == bytes@[i as int]);
            assert(s@ =~= spec_hex_bytes(bytes@.take(i as int)) + spec_hex_byte(bytes@[i as int]));
        }
    }
    proof {
        assert(bytes@.take(n as int) =~= bytes@);
    }
    s
}

fn hex_val(c: char) -> (r: u64)
    requires
        is_hex_char(c),
    ensures
        r == hex_char_val(c),
{
    match c {
        '0' => 0,
        '1' => 1,
        '2' => 2,
        '3' => 3,
        '4' => 4,
        '5' => 5,
        '6' => 6,
        '7' => 7,
        '8' => 8,
        '9' => 9,
        'a' => 10,
        'b' => 11,
        'c' => 12,
        'd' => 13,
        'e' => 14,
        _ => 15,
    }
}

/// Reads the value rendered in `s[from..to]`, a run of at most 16
/// lowercase hexadecimal digits.
pub fn parse_hex_range(s: &str, from: usize, to: usize) -> (r: u64)
    requires
        from <= to <= s@.len(),
        to - from <= 16,
        forall|i: int| from <= i < to ==> is_hex_char(#[trigger] s@[i]),
    ensures
        spec_hex_u64(r as nat, (to - from) as nat) == s@.subrange(from as int, to as int),
        r < pow16((to - from) as nat),
{
    let mut acc: u64 = 0;
    let ghost mut p: nat = 1;
    assert(spec_hex_u64(0, 0) =~= s@.subrange(from as int, from as int));
    let mut i = from;
    while i < to
        invariant
            from <= i <= to <= s@.len(),
            to - from <= 16,
            forall|k: int| from <= k < to ==> is_hex_char(#[trigger] s@[k]),
            p == pow16((i - from) as nat),
            acc < p,
            spec_hex_u64(acc as nat, (i - from) as nat) == s@.subrange(from as int, i as int),
        decreases to - i,
    {
        let c = s.get_char(i);
        let d = hex_val(c);
        proof {
            lemma_pow16_mono((i - from) as nat, (to - from) as nat);
            assert(p <= pow16(15)) by {
                lemma_pow16_mono((i - from) as nat, 15);
            }
            assert(pow16(15) == 0x1000000000000000) by {
                reveal_with_fuel(pow16, 16);
            }
        }
        let next = acc * 16 + d;
        proof {
            let k = (i - from) as nat;
            assert((16 * (acc as int) + d) / 16 == acc as int && (16 * (acc as int) + d) % 16
                == d as int) by (nonlinear_arith)
                requires
                    0 <= d < 16,
                    0 <= acc,
            ;
            assert(spec_hex_u64(next as nat, (k + 1) as nat) == spec_hex_u64(acc as nat, k).push(
                hex_digit_char(d as int),
            ));
            assert(hex_digit_char(hex_char_val(c)) == c) by {
                lemma_hex_digit_val(hex_char_val(c));
                lemma_hex_char_canon(c);
            }
            assert(s@.subrange(from as int, i + 1) =~= s@.subrange(from as int, i as int).push(
                s@[i as int],
            ));
            assert(next < 16 * p) by (nonlinear_arith)
                requires
                    acc < p,
                    d < 16,
                    next == 16 * acc + d,
            ;
            p = 16 * p;
        }
        acc = next;
        i = i + 1;
    }
    acc
}

proof fn lemma_hex_char_canon(c: char)
    requires
        is_hex_char(c),
    ensures
        hex_digit_char(hex_char_val(c)) == c,
{
}

proof fn lemma_pow16_mono(a: nat, b: nat)
    requires
        a <= b,
    ensures
        pow16(a) <= pow16(b),
    decreases b,
{
    if a < b {
        lemma_pow16_mono(a, (b - 1) as nat);
        assert(pow16(b) == 16 * pow16((b - 1) as nat));
        assert(pow16((b - 1) as nat) >= 1) by {
            lemma_pow16_pos((b - 1) as nat);
        }
    }
}

proof fn lemma_pow16_pos(a: nat)
    ensures
        pow16(a) >= 1,
    decreases a,
{
    if a > 0 {
        lemma_pow16_pos((a - 1) as nat);
    }
}

} // verus!
