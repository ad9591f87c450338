//! HTML color codes (`#RGB`, `#RRGGBB`, `#RRGGBBAA`) read into a packed
//! `0xRRGGBBAA` number. Turning the packed channels into floating-point
//! colors is left to the caller.
use vstd::prelude::*;

verus! {

/// `s` without its leading `#` characters.
pub open spec fn trim_hashes(s: Seq<char>) -> Seq<char>
    decreases s.len(),
{
    if s.len() > 0 && s[0] == '#' {
        trim_hashes(s.drop_first())
    } else {
        s
    }
}

/// Number of bytes of `c` in UTF-8.
pub open spec fn utf8_width(c: char) -> nat {
    if (c as int) < 0x80 {
        1
    } else if (c as int) < 0x800 {
        2
    } else if (c as int) < 0x10000 {
        3
    } else {
        4
    }
}

/// Number of bytes of `s` in UTF-8.
pub open spec fn byte_len(s: Seq<char>) -> nat
    decreases s.len(),
{
    if s.len() == 0 {
        0
    } else {
        byte_len(s.drop_last()) + utf8_width(s.last())
    }
}

/// Whether every character of `s` is ASCII.
pub open spec fn is_ascii_text(s: Seq<char>) -> bool {
    forall|i: int| 0 <= i < s.len() ==> (#[trigger] s[i] as int) < 0x80
}

/// The value of a hexadecimal digit (either case).
pub open spec fn hex_digit_value(c: char) -> Option<int> {
    if '0' <= c && c <= '9' {
        Some(c as int - 48)
    } else if 'a' <= c && c <= 'f' {
        Some(c as int - 87)
    } else if 'A' <= c && c <= 'F' {
        Some(c as int - 55)
    } else {
        None
    }
}

/// Whether every character of `s` is a hexadecimal digit.
pub open spec fn all_hex(s: Seq<char>) -> bool {
    forall|i: int| 0 <= i < s.len() ==> #[trigger] hex_digit_value(s[i]) is Some
}

/// The number written by the hexadecimal digits `s`.
pub open spec fn hex_number(s: Seq<char>) -> int
    decreases s.len(),
{
    if s.len() == 0 {
        0
    } else {
        hex_number(s.drop_last()) * 16 + hex_digit_value(s.last()).unwrap()
    }
}

/// A number in base 16 as `u32::from_str_radix` reads it: an optional `+`,
/// then one hexadecimal digit or more.
pub open spec fn radix16(t: Seq<char>) -> Option<int> {
    let d = if t.len() > 0 && t[0] == '+' { t.drop_first() } else { t };
    if d.len() > 0 && all_hex(d) {
        Some(hex_number(d))
    } else {
        None
    }
}

/// The color code written by `s`, packed as `0xRRGGBBAA`: leading `#`s are
/// ignored; three digits `RGB` stand for `RRGGBB` with full alpha; six
/// (a base-16 number of up to six digits) get full alpha; eight are taken as
/// they are. Any other length, or a character that is no digit, gives
/// nothing. Lengths count UTF-8 bytes, so three bytes that are not three
/// characters (a non-ASCII character) give nothing.
pub open spec fn html_color(s: Seq<char>) -> Option<u32> {
    let t = trim_hashes(s);
    let n = byte_len(t);
    if n == 3 {
        if t.len() != 3 {
            None
        } else {
            match (hex_digit_value(t[0]), hex_digit_value(t[1]), hex_digit_value(t[2])) {
                (Some(r), Some(g), Some(b)) => Some((17 * r * 0x1000000 + 17 * g * 0x10000 + 17 * b * 0x100 + 0xff) as u32),
                _ => None,
            }
        }
    } else if n == 6 {
        match radix16(t) {
            Some(v) => Some((v * 0x100 + 0xff) as u32),
            None => None,
        }
    } else if n == 8 {
        match radix16(t) {
            Some(v) => Some(v as u32),
            None => None,
        }
    } else {
        None
    }
}

/// `16` to the power `k`.
pub open spec fn pow16(k: nat) -> int
    decreases k,
{
    if k == 0 {
        1
    } else {
        16 * pow16((k - 1) as nat)
    }
}

proof fn lemma_pow16_mono(a: nat, b: nat)
    requires
        a <= b,
    ensures
        1 <= pow16(a) <= pow16(b),
    decreases b,
{
    if b > a {
        lemma_pow16_mono(a, (b - 1) as nat);
    } else {
        lemma_pow16_pos(a);
    }
}

proof fn lemma_pow16_pos(k: nat)
    ensures
        pow16(k) >= 1,
    decreases k,
{
    if k > 0 {
        lemma_pow16_pos((k - 1) as nat);
    }
}

proof fn lemma_byte_len_prefix(s: Seq<char>, k: int)
    requires
        0 <= k <= s.len(),
    ensures
        byte_len(s.take(k)) <= byte_len(s),
        byte_len(s.take(k)) >= k,
    decreases s.len(),
{
    if k < s.len() {
        assert(s.drop_last().take(k) =~= s.take(k));
        lemma_byte_len_prefix(s.drop_last(), k);
    } else {
        assert(s.take(k) =~= s);
        lemma_byte_len_at_least(s);
    }
}

proof fn lemma_byte_len_at_least(s: Seq<char>)
    ensures
        byte_len(s) >= s.len(),
        byte_len(s) == s.len() <==> is_ascii_text(s),
    decreases s.len(),
{
    if s.len() > 0 {
        lemma_byte_len_at_least(s.drop_last());
        if is_ascii_text(s) {
            assert forall|i: int| 0 <= i < s.drop_last().len() implies (#[trigger] s.drop_last()[i] as int) < 0x80 by {
                assert(s.drop_last()[i] == s[i]);
            }
            assert((s[s.len() - 1] as int) < 0x80);
        }
        if byte_len(s) == s.len() {
            assert forall|i: int| 0 <= i < s.len() implies (#[trigger] s[i] as int) < 0x80 by {
                if i < s.len() - 1 {
                    assert(s.drop_last()[i] == s[i]);
                }
            }
        }
    }
}

proof fn lemma_trim_suffix(s: Seq<char>, k: int)
    requires
        0 <= k <= s.len(),
        forall|j: int| 0 <= j < k ==> s[j] == '#',
        k == s.len() || s[k] != '#',
    ensures
        trim_hashes(s) == s.skip(k),
    decreases k,
{
    if k > 0 {
        assert forall|j: int| 0 <= j < k - 1 implies s.drop_first()[j] == '#' by {
            assert(s.drop_first()[j] == s[j + 1]);
        }
        lemma_trim_suffix(s.drop_first(), k - 1);
        assert(s.drop_first().skip(k - 1) =~= s.skip(k));
    } else {
        assert(s.skip(0) =~= s);
    }
}

/// The value of a hexadecimal digit, if `c` is one.
fn digit_value(c: char) -> (r: Option<u32>)
    ensures
        match hex_digit_value(c) {
            Some(v) => r == Some(v as u32),
            None => r is None,
        },
{
    if '0' <= c && c <= '9' {
        Some((c as u32) - 48)
    } else if 'a' <= c && c <= 'f' {
        Some((c as u32) - 87)
    } else if 'A' <= c && c <= 'F' {
        Some((c as u32) - 55)
    } else {
        None
    }
}

/// Reads the digits of `s` from `from` to its end as a base-16 number of at
/// most eight digits.
fn hex_run(s: &str, from: usize) -> (r: Option<u32>)
    requires
        from <= s@.len(),
        s@.len() - from <= 8,
    ensures
        match r {
            Some(v) => all_hex(s@.skip(from as int)) && v == hex_number(s@.skip(from as int)),
            None => !all_hex(s@.skip(from as int)),
        },
{
    let n = s.unicode_len();
    let mut v: u32 = 0;
    let mut i: usize = from;
    while i < n
        invariant
            n == s@.len(),
            from <= i <= n,
            n - from <= 8,
            all_hex(s@.subrange(from as int, i as int)),
            v == hex_number(s@.subrange(from as int, i as int)),
            v < pow16((i - from) as nat),
        decreases n - i,
    {
        let c = s.get_char(i);
        let ghost sub = s@.subrange(from as int, i as int);
        let ghost next = s@.subrange(from as int, i + 1);
        assert(next.drop_last() =~= sub);
        assert(next.last() == c);
        match digit_value(c) {
            Some(d) => {
                proof {
                    lemma_pow16_mono((i + 1 - from) as nat, 8);
                    reveal_with_fuel(pow16, 9);
                    assert(pow16(8) == 0x1_0000_0000);
                    assert(pow16((i + 1 - from) as nat) == 16 * pow16((i - from) as nat));
                    assert(v * 16 + d < pow16((i - from) as nat) * 16) by (nonlinear_arith)
                        requires
                            v < pow16((i - from) as nat),
                            d < 16;
                    assert forall|j: int| 0 <= j < next.len() implies #[trigger] hex_digit_value(next[j]) is Some by {
                        if j < sub.len() {
                            assert(next[j] == sub[j]);
                        }
                    }
                }
                v = v * 16 + d;
            },
            None => {
                proof {
                    let k = i - from;
                    assert(s@.skip(from as int)[k as int] == c);
                }
                return None;
            },
        }
        i = i + 1;
    }
    assert(s@.subrange(from as int, n as int) =~= s@.skip(from as int));
    Some(v)
}

/// The color code written by `s`, packed as `0xRRGGBBAA` (see `html_color`).
pub fn html_color_code(s: &str) -> (r: Option<u32>)
    ensures
        r == html_color(s@),
{
    let n = s.unicode_len();
    let mut k: usize = 0;
    while k < n && s.get_char(k) == '#'
        invariant
            n == s@.len(),
            k <= n,
            forall|j: int| 0 <= j < k ==> s@[j] == '#',
        decreases n - k,
    {
        k = k + 1;
    }
    proof {
        lemma_trim_suffix(s@, k as int);
    }
    let ghost t = s@.skip(k as int);
    // UTF-8 length of the rest, counted up to 9.
    let mut bytes: usize = 0;
    let mut i: usize = k;
    while i < n && bytes <= 8
        invariant
            n == s@.len(),
            k <= i <= n,
            t == s@.skip(k as int),
            bytes == byte_len(t.take(i - k)),
            bytes <= 12,
        decreases n - i,
    {
        let c = s.get_char(i);
        let w: usize = if (c as u32) < 0x80 {
            1
        } else if (c as u32) < 0x800 {
            2
        } else if (c as u32) < 0x10000 {
            3
        } else {
            4
        };
        assert(t.take(i + 1 - k).drop_last() =~= t.take(i - k));
        assert(t.take(i + 1 - k).last() == c);
        bytes = bytes + w;
        i = i + 1;
    }
    proof {
        lemma_byte_len_prefix(t, i - k);
        if i == n {
            assert(t.take(i - k) =~= t);
        }
        lemma_byte_len_at_least(t);
    }
    if i < n {
        // more than eight bytes
        return None;
    }
    assert(t.take(i - k) =~= t);
    if bytes == 3 {
        if n - k != 3 {
            return None;
        }
        assert(t.len() == 3);
        let r = digit_value(s.get_char(k));
        let g = digit_value(s.get_char(k + 1));
        let b = digit_value(s.get_char(k + 2));
        match (r, g, b) {
            (Some(r), Some(g), Some(b)) => Some(17 * r * 0x1000000 + 17 * g * 0x10000 + 17 * b * 0x100 + 0xff),
            _ => None,
        }
    } else if bytes == 6 || bytes == 8 {
        if n - k != bytes {
            // a non-ASCII character is no digit
            proof {
                let j = choose|j: int| 0 <= j < t.len() && !((#[trigger] t[j] as int) < 0x80);
                assert(hex_digit_value(t[j]) is None);
                if t.len() > 0 && t[0] == '+' {
                    if j > 0 {
                        assert(t.drop_first()[j - 1] == t[j]);
                    }
                }
            }
            return None;
        }
        let from = if k < n && s.get_char(k) == '+' { k + 1 } else { k };
        proof {
            if k < n && s@[k as int] == '+' {
                assert(s@.skip(from as int) =~= t.drop_first());
            } else {
                assert(s@.skip(from as int) =~= t);
            }
        }
        if from == n {
            return None;
        }
        match hex_run(s, from) {
            Some(v) => {
                if bytes == 6 {
                    proof {
                        assert(v < 0x100_0000) by {
                            lemma_hex_number_bound(s@.skip(from as int));
                            lemma_pow16_mono((n - from) as nat, 6);
                            reveal_with_fuel(pow16, 7);
                            assert(pow16(6) == 0x100_0000);
                        }
                    }
                    Some(v * 0x100 + 0xff)
                } else {
                    Some(v)
                }
            },
            None => None,
        }
    } else {
        None
    }
}

proof fn lemma_hex_number_bound(s: Seq<char>)
    requires
        all_hex(s),
    ensures
        0 <= hex_number(s) < pow16(s.len()),
    decreases s.len(),
{
    if s.len() > 0 {
        let init = s.drop_last();
        assert forall|i: int| 0 <= i < init.len() implies #[trigger] hex_digit_value(init[i]) is Some by {
            assert(init[i] == s[i]);
        }
        lemma_hex_number_bound(init);
        assert(hex_digit_value(s[s.len() - 1]) is Some);
        let d = hex_digit_value(s.last()).unwrap();
        assert(0 <= d < 16);
        let p = pow16(init.len());
        assert(pow16(s.len()) == 16 * p);
        assert(hex_number(init) * 16 + d < p * 16) by (nonlinear_arith)
            requires
                0 <= hex_number(init) < p,
                0 <= d < 16;
        assert(hex_number(init) * 16 + d >= 0) by (nonlinear_arith)
            requires
                0 <= hex_number(init),
                0 <= d;
    }
}

/// The hexadecimal digits in lowercase, in order of value.
pub open spec fn lower_hex_digits() -> Seq<char> {
    seq!['0', '1', '2', '3', '4', '5', '6', '7', '8', '9', 'a', 'b', 'c', 'd', 'e', 'f']
}

/// The hexadecimal digits in uppercase, in order of value.
pub open spec fn upper_hex_digits() -> Seq<char> {
    seq!['0', '1', '2', '3', '4', '5', '6', '7', '8', '9', 'A', 'B', 'C', 'D', 'E', 'F']
}

/// Every hexadecimal digit, in either case, is read with its standard value
/// (its place in `0123456789abcdef`), and no other character is a digit.
pub proof fn law_hex_digits(c: char)
    ensures
        forall|k: int| 0 <= k < 16 ==> hex_digit_value(#[trigger] lower_hex_digits()[k]) == Some(k),
        forall|k: int| 0 <= k < 16 ==> hex_digit_value(#[trigger] upper_hex_digits()[k]) == Some(k),
        !lower_hex_digits().contains(c) && !upper_hex_digits().contains(c) ==> hex_digit_value(c) is None,
{
    if hex_digit_value(c) is Some {
        let n = c as int;
        if '0' <= c && c <= '9' {
            assert(lower_hex_digits()[n - 48] == c);
        } else if 'a' <= c && c <= 'f' {
            assert(lower_hex_digits()[n - 87] == c);
        } else {
            assert(upper_hex_digits()[n - 55] == c);
        }
    }
}

/// Six hexadecimal digits after a `#` are read as the color with full alpha:
/// the base-16 number they write, shifted up one byte, with `ff` below.
pub proof fn law_six_digit_color(t: Seq<char>)
    requires
        t.len() == 6,
        forall|i: int| 0 <= i < 6 ==> lower_hex_digits().contains(#[trigger] t[i]) || upper_hex_digits().contains(t[i]),
    ensures
        all_hex(t),
        html_color(seq!['#'] + t) == Some((hex_number(t) * 0x100 + 0xff) as u32),
        hex_number(t) * 0x100 + 0xff <= 0xffff_ffff,
{
    assert forall|i: int| 0 <= i < t.len() implies #[trigger] hex_digit_value(t[i]) is Some by {
        law_hex_digits(t[i]);
        if lower_hex_digits().contains(t[i]) {
            let k = choose|k: int| 0 <= k < 16 && lower_hex_digits()[k] == t[i];
        } else {
            let k = choose|k: int| 0 <= k < 16 && upper_hex_digits()[k] == t[i];
        }
    }
    let s = seq!['#'] + t;
    assert(s.drop_first() =~= t);
    assert(t[0] != '#') by {
        assert(hex_digit_value(t[0]) is Some);
    }
    assert(s[0] == '#');
    assert(trim_hashes(t) == t);
    assert(trim_hashes(s) == trim_hashes(s.drop_first()));
    assert(trim_hashes(s) == t);
    assert(is_ascii_text(t)) by {
        assert forall|i: int| 0 <= i < t.len() implies (#[trigger] t[i] as int) < 0x80 by {
            assert(hex_digit_value(t[i]) is Some);
        }
    }
    lemma_byte_len_at_least(t);
    assert(t[0] != '+') by {
        assert(hex_digit_value(t[0]) is Some);
    }
    assert(radix16(t) == Some(hex_number(t)));
    lemma_hex_number_bound(t);
    reveal_with_fuel(pow16, 7);
    assert(pow16(6) == 0x100_0000);
}

} // verus!
