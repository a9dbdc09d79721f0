//! Verified text building blocks shared by the rendering and binding code:
//! decimal rendering of integers, parsing of decimal digit strings,
//! hexadecimal rendering of bytes, and separator joining.

use vstd::prelude::*;

verus! {

/// The decimal digit character for `d`, meaningful for `0 <= d < 10`.
pub open spec fn spec_digit(d: int) -> char {
    if d == 0 {
        '0'
    } else if d == 1 {
        '1'
    } else if d == 2 {
        '2'
    } else if d == 3 {
        '3'
    } else if d == 4 {
        '4'
    } else if d == 5 {
        '5'
    } else if d == 6 {
        '6'
    } else if d == 7 {
        '7'
    } else if d == 8 {
        '8'
    } else {
        '9'
    }
}

/// The numeric value of a decimal digit character, or -1 for any other char.
pub open spec fn spec_digit_val(c: char) -> int {
    if c == '0' {
        0
    } else if c == '1' {
        1
    } else if c == '2' {
        2
    } else if c == '3' {
        3
    } else if c == '4' {
        4
    } else if c == '5' {
        5
    } else if c == '6' {
        6
    } else if c == '7' {
        7
    } else if c == '8' {
        8
    } else if c == '9' {
        9
    } else {
        -1
    }
}

/// Decimal rendering of a natural number, most significant digit first,
/// with no leading zeros (a lone `0` for zero itself).
pub open spec fn spec_dec_nat(n: nat) -> Seq<char>
    decreases n,
{
    if n < 10 {
        seq![spec_digit(n as int)]
    } else {
        spec_dec_nat(n / 10).push(spec_digit((n % 10) as int))
    }
}

/// Decimal rendering of an integer: a minus sign before the magnitude of a
/// negative number, the bare magnitude otherwise.
pub open spec fn spec_dec_int(n: int) -> Seq<char> {
    if n < 0 {
        seq!['-'] + spec_dec_nat((-n) as nat)
    } else {
        spec_dec_nat(n as nat)
    }
}

/// True when every character of `s` is a decimal digit.
pub open spec fn spec_all_digits(s: Seq<char>) -> bool {
    forall|i: int| 0 <= i < s.len() ==> spec_digit_val(#[trigger] s[i]) >= 0
}

/// The number denoted by a string of decimal digits, most significant first.
pub open spec fn spec_parse_nat(s: Seq<char>) -> int
    decreases s.len(),
{
    if s.len() == 0 {
        0
    } else {
        spec_parse_nat(s.drop_last()) * 10 + spec_digit_val(s.last())
    }
}

/// A digit character denotes the digit it was rendered from.
proof fn lemma_digit_round_trip(d: int)
    requires
        0 <= d < 10,
    ensures
        spec_digit_val(spec_digit(d)) == d,
{
}

/// Rendering a natural number yields digits only, and parsing them back
/// recovers the number.
pub proof fn lemma_dec_nat_parses_back(n: nat)
    ensures
        spec_dec_nat(n).len() >= 1,
        spec_all_digits(spec_dec_nat(n)),
        spec_parse_nat(spec_dec_nat(n)) == n,
    decreases n,
{
    if n < 10 {
        lemma_digit_round_trip(n as int);
        assert(spec_dec_nat(n) =~= seq![spec_digit(n as int)]);
        assert(spec_dec_nat(n).drop_last() =~= Seq::<char>::empty());
        assert(spec_parse_nat(spec_dec_nat(n)) == spec_parse_nat(Seq::<char>::empty()) * 10
            + spec_digit_val(spec_digit(n as int)));
    } else {
        lemma_dec_nat_parses_back(n / 10);
        lemma_digit_round_trip((n % 10) as int);
        let prefix = spec_dec_nat(n / 10);
        let whole = spec_dec_nat(n);
        assert(whole =~= prefix.push(spec_digit((n % 10) as int)));
        assert(whole.drop_last() =~= prefix);
        assert(whole.last() == spec_digit((n % 10) as int));
        assert(spec_parse_nat(whole) == spec_parse_nat(prefix) * 10 + (n % 10));
    }
}

/// The exec form of `spec_digit`: a one-character string slice.
pub(crate) fn digit_str(d: u64) -> (r: &'static str)
    requires
        d < 10,
    ensures
        r@ =~= seq![spec_digit(d as int)],
{
    proof {
        reveal_strlit("0");
        reveal_strlit("1");
        reveal_strlit("2");
        reveal_strlit("3");
        reveal_strlit("4");
        reveal_strlit("5");
        reveal_strlit("6");
        reveal_strlit("7");
        reveal_strlit("8");
        reveal_strlit("9");
    }
    match d {
        0 => "0",
        1 => "1",
        2 => "2",
        3 => "3",
        4 => "4",
        5 => "5",
        6 => "6",
        7 => "7",
        8 => "8",
        _ => "9",
    }
}

/// Renders `n` in decimal, matching `spec_dec_nat`.
pub fn u64_to_string(n: u64) -> (s: String)
    ensures
        s@ == spec_dec_nat(n as nat),
    decreases n,
{
    if n < 10 {
        String::from_str(digit_str(n))
    } else {
        proof {
            assert(n / 10 < n) by (nonlinear_arith)
                requires
                    n >= 10,
            ;
        }
        let mut s = u64_to_string(n / 10);
        s.append(digit_str(n % 10));
        s
    }
}

/// Renders `n` in decimal, matching `spec_dec_int`.
pub fn i64_to_string(n: i64) -> (s: String)
    ensures
        s@ == spec_dec_int(n as int),
{
    if n >= 0 {
        u64_to_string(n as u64)
    } else {
        let magnitude: u64 = (-(n as i128)) as u64;
        proof {
            reveal_strlit("-");
        }
        let mut s = String::from_str("-");
        let rest = u64_to_string(magnitude);
        s.append(rest.as_str());
        proof {
            assert(s@ =~= seq!['-'] + spec_dec_nat(magnitude as nat));
        }
        s
    }
}

/// Parses a string of decimal digits into a `u64`.
///
/// Returns `None` when the string is empty, holds a non-digit character, or
/// denotes a number above `u64::MAX`; otherwise `Some` of the denoted number.
pub fn parse_u64_digits(s: &str) -> (r: Option<u64>)
    ensures
        match r {
            Some(v) => s@.len() >= 1 && spec_all_digits(s@) && spec_parse_nat(s@) == v,
            None => s@.len() == 0 || !spec_all_digits(s@) || spec_parse_nat(s@) > u64::MAX,
        },
{
    let len = s.unicode_len();
    if len == 0 {
        return None;
    }
    let mut acc: u64 = 0;
    let mut i: usize = 0;
    while i < len
        invariant
            0 <= i <= len,
            len == s@.len(),
            spec_all_digits(s@.take(i as int)),
            acc == spec_parse_nat(s@.take(i as int)),
        decreases len - i,
    {
        let c = s.get_char(i);
        let d: u64 = match c {
            '0' => 0,
            '1' => 1,
            '2' => 2,
            '3' => 3,
            '4' => 4,
            '5' => 5,
            '6' => 6,
            '7' => 7,
            '8' => 8,
            '9' => 9,
            _ => {
                proof {
                    lemma_parse_nat_overflow_prefix(s@, i as int);
                }
                return None;
            },
        };
        if acc > (u64::MAX - d) / 10 {
            proof {
                assert(s@.take(i as int + 1).drop_last() =~= s@.take(i as int));
                assert(s@.take(i as int + 1).last() == s@[i as int]);
                assert(spec_parse_nat(s@.take(i as int + 1)) == acc * 10 + d);
                assert(acc * 10 + d > u64::MAX) by (nonlinear_arith)
                    requires
                        acc > (u64::MAX - d) / 10,
                        d < 10,
                ;
                if spec_all_digits(s@) {
                    lemma_parse_nat_monotone(s@, i as int + 1);
                }
            }
            return None;
        }
        proof {
            assert(acc * 10 + d <= u64::MAX) by (nonlinear_arith)
                requires
                    acc <= (u64::MAX - d) / 10,
                    d < 10,
            ;
            assert(s@.take(i as int + 1).drop_last() =~= s@.take(i as int));
            assert(s@.take(i as int + 1).last() == s@[i as int]);
        }
        acc = acc * 10 + d;
        i = i + 1;
    }
    proof {
        assert(s@.take(len as int) =~= s@);
    }
    Some(acc)
}

/// A prefix that already holds a non-digit keeps the whole from being all
/// digits.
proof fn lemma_parse_nat_overflow_prefix(s: Seq<char>, i: int)
    requires
        0 <= i < s.len(),
        spec_digit_val(s[i]) < 0,
    ensures
        !spec_all_digits(s),
{
}

/// On an all-digit string, the number denoted by a longer prefix is at least
/// the number denoted by a shorter one times the added scale; in particular
/// the whole is at least any prefix's value.
proof fn lemma_parse_nat_monotone(s: Seq<char>, i: int)
    requires
        0 <= i <= s.len(),
        spec_all_digits(s),
    ensures
        spec_parse_nat(s.take(i)) <= spec_parse_nat(s),
    decreases s.len() - i,
{
    if i == s.len() {
        assert(s.take(i) =~= s);
    } else {
        lemma_parse_nat_monotone(s, i + 1);
        let shorter = s.take(i);
        let longer = s.take(i + 1);
        assert(longer.drop_last() =~= shorter);
        assert(spec_digit_val(longer.last()) >= 0 && spec_parse_nat(shorter) >= 0 ==> spec_parse_nat(
            shorter,
        ) <= spec_parse_nat(shorter) * 10 + spec_digit_val(longer.last())) by (nonlinear_arith);
        lemma_parse_nat_nonneg(shorter);
        assert(longer.last() == s[i]);
    }
}

/// A string of digits denotes a non-negative number.
proof fn lemma_parse_nat_nonneg(s: Seq<char>)
    requires
        spec_all_digits(s),
    ensures
        spec_parse_nat(s) >= 0,
    decreases s.len(),
{
    if s.len() > 0 {
        assert(spec_all_digits(s.drop_last())) by {
            assert(forall|i: int|
                0 <= i < s.drop_last().len() ==> #[trigger] s.drop_last()[i] == s[i]);
        }
        lemma_parse_nat_nonneg(s.drop_last());
        assert(spec_parse_nat(s.drop_last()) * 10 >= 0) by (nonlinear_arith)
            requires
                spec_parse_nat(s.drop_last()) >= 0,
        ;
    }
}

/// The hexadecimal digit character for `d`, meaningful for `0 <= d < 16`,
/// lower case.
pub open spec fn spec_hex_digit(d: int) -> char {
    if d < 10 {
        spec_digit(d)
    } else if d == 10 {
        'a'
    } else if d == 11 {
        'b'
    } else if d == 12 {
        'c'
    } else if d == 13 {
        'd'
    } else if d == 14 {
        'e'
    } else {
        'f'
    }
}

/// Two-digit, zero-padded hexadecimal rendering of one byte.
pub open spec fn spec_hex_byte(b: u8) -> Seq<char> {
    seq![spec_hex_digit(b as int / 16), spec_hex_digit(b as int % 16)]
}

/// Hexadecimal rendering of a byte string, two digits per byte, in order.
pub open spec fn spec_hex_bytes(bytes: Seq<u8>) -> Seq<char>
    decreases bytes.len(),
{
    if bytes.len() == 0 {
        Seq::empty()
    } else {
        spec_hex_bytes(bytes.drop_last()) + spec_hex_byte(bytes.last())
    }
}

/// The exec form of `spec_hex_digit`: a one-character string slice.
pub(crate) fn hex_digit_str(d: u64) -> (r: &'static str)
    requires
        d < 16,
    ensures
        r@ =~= seq![spec_hex_digit(d as int)],
{
    proof {
        reveal_strlit("a");
        reveal_strlit("b");
        reveal_strlit("c");
        reveal_strlit("d");
        reveal_strlit("e");
        reveal_strlit("f");
    }
    if d < 10 {
        digit_str(d)
    } else {
        match d {
            10 => "a",
            11 => "b",
            12 => "c",
            13 => "d",
            14 => "e",
            _ => "f",
        }
    }
}

/// Appends the hexadecimal rendering of `bytes` to `out`.
pub fn append_hex_bytes(out: &mut String, bytes: &Vec<u8>)
    ensures
        final(out)@ == old(out)@ + spec_hex_bytes(bytes@),
{
    let mut i: usize = 0;
    while i < bytes.len()
        invariant
            0 <= i <= bytes@.len(),
            out@ == old(out)@ + spec_hex_bytes(bytes@.take(i as int)),
        decreases bytes@.len() - i,
    {
        let b = bytes[i];
        out.append(hex_digit_str(b as u64 / 16));
        out.append(hex_digit_str(b as u64 % 16));
        proof {
            assert(bytes@.take(i as int + 1).drop_last() =~= bytes@.take(i as int));
            assert(bytes@.take(i as int + 1).last() == bytes@[i as int]);
        }
        i = i + 1;
    }
    proof {
        assert(bytes@.take(bytes@.len() as int) =~= bytes@);
    }
}

/// The number a signed decimal rendering denotes: an optional minus sign
/// followed by at least one digit; anything else denotes nothing.
pub open spec fn spec_parse_int_text(s: Seq<char>) -> Option<int> {
    if s.len() >= 1 && s[0] == '-' {
        let digits = s.skip(1);
        if digits.len() >= 1 && spec_all_digits(digits) {
            Some(-spec_parse_nat(digits))
        } else {
            None
        }
    } else if s.len() >= 1 && spec_all_digits(s) {
        Some(spec_parse_nat(s))
    } else {
        None
    }
}

/// Parses a signed decimal string into an `i64`.
///
/// Returns `Some` exactly when the text denotes a number and that number
/// fits in an `i64`.
pub fn parse_i64_digits(s: &str) -> (r: Option<i64>)
    ensures
        (match r {
            Some(v) => spec_parse_int_text(s@) == Some(v as int),
            None => spec_parse_int_text(s@) is None || !(i64::MIN <= spec_parse_int_text(
                s@,
            )->Some_0 <= i64::MAX),
        }),
{
    let len = s.unicode_len();
    if len == 0 {
        return None;
    }
    let first = s.get_char(0);
    match first {
        '-' => {
            let rest = s.substring_char(1, len);
            proof {
                assert(rest@ =~= s@.skip(1));
            }
            match parse_u64_digits(rest) {
                Some(magnitude) => {
                    if magnitude <= 9223372036854775807u64 {
                        Some(-(magnitude as i64))
                    } else if magnitude == 9223372036854775808u64 {
                        Some(i64::MIN)
                    } else {
                        None
                    }
                },
                None => {
                    proof {
                        if s@.skip(1).len() >= 1 && spec_all_digits(s@.skip(1)) {
                            lemma_parse_nat_nonneg(s@.skip(1));
                        }
                    }
                    None
                },
            }
        },
        _ => {
            match parse_u64_digits(s) {
                Some(v) => {
                    if v <= 9223372036854775807u64 {
                        Some(v as i64)
                    } else {
                        None
                    }
                },
                None => None,
            }
        },
    }
}

/// The number of times the character `c` occurs in `s`.
pub open spec fn spec_count_char(s: Seq<char>, c: char) -> nat
    decreases s.len(),
{
    if s.len() == 0 {
        0
    } else {
        spec_count_char(s.drop_last(), c) + if s.last() == c {
            1nat
        } else {
            0nat
        }
    }
}

/// Occurrence counts add up over concatenation.
pub proof fn lemma_count_char_concat(a: Seq<char>, b: Seq<char>, c: char)
    ensures
        spec_count_char(a + b, c) == spec_count_char(a, c) + spec_count_char(b, c),
    decreases b.len(),
{
    if b.len() == 0 {
        assert(a + b =~= a);
    } else {
        lemma_count_char_concat(a, b.drop_last(), c);
        assert((a + b).drop_last() =~= a + b.drop_last());
        assert((a + b).last() == b.last());
    }
}

/// A string without the character `c` counts zero occurrences of it.
pub proof fn lemma_count_char_absent(s: Seq<char>, c: char)
    requires
        forall|i: int| 0 <= i < s.len() ==> s[i] != c,
    ensures
        spec_count_char(s, c) == 0,
    decreases s.len(),
{
    if s.len() > 0 {
        assert(forall|i: int|
            0 <= i < s.drop_last().len() ==> #[trigger] s.drop_last()[i] == s[i]);
        lemma_count_char_absent(s.drop_last(), c);
    }
}

/// A one-character string counts one occurrence when it is that character.
pub proof fn lemma_count_char_unit(d: char, c: char)
    ensures
        spec_count_char(seq![d], c) == if d == c {
            1nat
        } else {
            0nat
        },
{
    assert(spec_count_char(Seq::<char>::empty(), c) == 0);
    assert(seq![d].drop_last() =~= Seq::<char>::empty());
    assert(seq![d].last() == d);
}

/// Joining rendered parts with a separator: empty for no parts, otherwise
/// the parts in order with the separator between each adjacent pair.
pub open spec fn spec_join(parts: Seq<Seq<char>>, sep: Seq<char>) -> Seq<char>
    decreases parts.len(),
{
    if parts.len() == 0 {
        Seq::empty()
    } else if parts.len() == 1 {
        parts[0]
    } else {
        spec_join(parts.drop_last(), sep) + sep + parts.last()
    }
}

/// Unfolds one step of `spec_join` over a growing prefix of the parts, the
/// shape every joining loop follows.
pub proof fn lemma_join_step(parts: Seq<Seq<char>>, sep: Seq<char>, i: int)
    requires
        0 <= i < parts.len(),
    ensures
        i == 0 ==> spec_join(parts.take(1), sep) == parts[0],
        i > 0 ==> spec_join(parts.take(i + 1), sep) == spec_join(parts.take(i), sep) + sep
            + parts[i],
{
    let grown = parts.take(i + 1);
    if i == 0 {
        assert(grown.len() == 1);
        assert(grown[0] == parts[0]);
    } else {
        assert(grown.drop_last() =~= parts.take(i));
        assert(grown.last() == parts[i]);
    }
}

/// The join of parts that each hold `c` exactly once, with a separator
/// free of `c`, holds `c` exactly once per part.
pub proof fn lemma_count_join_single(parts: Seq<Seq<char>>, sep: Seq<char>, c: char)
    requires
        forall|i: int| 0 <= i < parts.len() ==> spec_count_char(#[trigger] parts[i], c) == 1,
        spec_count_char(sep, c) == 0,
    ensures
        spec_count_char(spec_join(parts, sep), c) == parts.len(),
    decreases parts.len(),
{
    if parts.len() == 0 {
    } else if parts.len() == 1 {
        assert(spec_join(parts, sep) == parts[0]);
    } else {
        let shorter = parts.drop_last();
        assert(forall|i: int|
            0 <= i < shorter.len() ==> #[trigger] shorter[i] == parts[i]);
        lemma_count_join_single(shorter, sep, c);
        let joined_shorter = spec_join(shorter, sep);
        assert(spec_join(parts, sep) == joined_shorter + sep + parts.last());
        lemma_count_char_concat(joined_shorter, sep, c);
        lemma_count_char_concat(joined_shorter + sep, parts.last(), c);
        assert(parts.last() == parts[parts.len() - 1]);
    }
}

} // verus!
