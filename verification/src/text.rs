//! Numbers and byte strings as text.

use vstd::prelude::*;
use vstd::utf8::*;

verus! {

/// `String::push` appends one character to the end of the string.
pub assume_specification[ String::push ](s: &mut String, ch: char)
    ensures
        final(s)@ == old(s)@.push(ch),
;

/// The digit that stands for `d` in bases up to sixteen, in lower case.
pub open spec fn digit(d: nat) -> char {
    if d < 10 {
        (d + 0x30) as char
    } else {
        (d - 10 + 0x61) as char
    }
}

/// `n` in base ten, without leading zeros.
pub open spec fn decimal(n: nat) -> Seq<char>
    decreases n,
{
    if n < 10 {
        seq![digit(n)]
    } else {
        decimal(n / 10).push(digit(n % 10))
    }
}

/// `n` in base sixteen, without leading zeros.
pub open spec fn hexadecimal(n: nat) -> Seq<char>
    decreases n,
{
    if n < 16 {
        seq![digit(n)]
    } else {
        hexadecimal(n / 16).push(digit(n % 16))
    }
}

/// `x` as exactly four hexadecimal digits.
pub open spec fn hex4(x: u16) -> Seq<char> {
    seq![
        digit((x / 0x1000) as nat),
        digit((x / 0x100 % 0x10) as nat),
        digit((x / 0x10 % 0x10) as nat),
        digit((x % 0x10) as nat),
    ]
}

/// The digit that stands for `d`.
pub fn digit_char(d: u8) -> (c: char)
    requires
        d < 16,
    ensures
        c == digit(d as nat),
{
    if d < 10 {
        (d + 0x30) as char
    } else {
        (d - 10 + 0x61) as char
    }
}

/// Appends `n` in base ten.
pub fn push_decimal(out: &mut String, n: u64)
    ensures
        final(out)@ == old(out)@ + decimal(n as nat),
    decreases n,
{
    if n >= 10 {
        push_decimal(out, n / 10);
    }
    out.push(digit_char((n % 10) as u8));
    assert(out@ =~= old(out)@ + decimal(n as nat));
}

/// Appends `n` in base sixteen.
pub fn push_hexadecimal(out: &mut String, n: u64)
    ensures
        final(out)@ == old(out)@ + hexadecimal(n as nat),
    decreases n,
{
    if n >= 16 {
        push_hexadecimal(out, n / 16);
    }
    out.push(digit_char((n % 16) as u8));
    assert(out@ =~= old(out)@ + hexadecimal(n as nat));
}

/// Appends `x` as exactly four hexadecimal digits.
pub fn push_hex4(out: &mut String, x: u16)
    ensures
        final(out)@ == old(out)@ + hex4(x),
{
    out.push(digit_char((x / 0x1000) as u8));
    out.push(digit_char((x / 0x100 % 0x10) as u8));
    out.push(digit_char((x / 0x10 % 0x10) as u8));
    out.push(digit_char((x % 0x10) as u8));
    assert(out@ =~= old(out)@ + hex4(x));
}

/// `x` as exactly eight hexadecimal digits.
pub open spec fn hex8(x: u32) -> Seq<char> {
    hex4((x / 0x1_0000) as u16) + hex4((x % 0x1_0000) as u16)
}

/// Appends `x` as exactly eight hexadecimal digits.
pub fn push_hex8(out: &mut String, x: u32)
    ensures
        final(out)@ == old(out)@ + hex8(x),
{
    push_hex4(out, (x / 0x1_0000) as u16);
    push_hex4(out, (x % 0x1_0000) as u16);
    assert(out@ =~= old(out)@ + hex8(x));
}

/// The number that decimal digits `s` stand for.
pub open spec fn decimal_value(s: Seq<char>) -> nat
    decreases s.len(),
{
    if s.len() == 0 {
        0
    } else {
        (decimal_value(s.drop_last()) * 10 + (s.last() as nat - 0x30)) as nat
    }
}

/// A decimal numeral is a nonempty string of digits that reads as its number.
pub proof fn decimal_reads_back(n: nat)
    ensures
        decimal(n).len() > 0,
        forall|i: int| 0 <= i < decimal(n).len() ==> '0' <= #[trigger] decimal(n)[i] <= '9',
        decimal_value(decimal(n)) == n,
    decreases n,
{
    reveal_with_fuel(decimal_value, 2);
    if n < 10 {
        assert(decimal(n).drop_last() =~= Seq::<char>::empty());
    } else {
        decimal_reads_back(n / 10);
        assert(decimal(n).drop_last() =~= decimal(n / 10));
    }
}

/// The value of a hexadecimal digit, upper or lower case.
pub open spec fn hex_digit_value(b: u8) -> Option<nat> {
    if 0x30 <= b <= 0x39 {
        Some((b - 0x30) as nat)
    } else if 0x61 <= b <= 0x66 {
        Some((b - 0x61 + 10) as nat)
    } else if 0x41 <= b <= 0x46 {
        Some((b - 0x41 + 10) as nat)
    } else {
        None
    }
}

/// The number that the hexadecimal digits `s` stand for, if they all are digits.
pub open spec fn hex_value(s: Seq<u8>) -> Option<nat>
    decreases s.len(),
{
    if s.len() == 0 {
        Some(0)
    } else {
        match (hex_value(s.drop_last()), hex_digit_value(s.last())) {
            (Some(high), Some(low)) => Some(high * 16 + low),
            _ => None,
        }
    }
}

/// The number that one to four hexadecimal digits stand for.
pub open spec fn hex_u16(s: Seq<u8>) -> Option<nat> {
    if 1 <= s.len() <= 4 {
        hex_value(s)
    } else {
        None
    }
}

/// Four hexadecimal digits stand for no more than sixteen bits.
pub proof fn hex_u16_in_range(s: Seq<u8>)
    ensures
        hex_u16(s) matches Some(n) ==> n < 0x1_0000,
{
    reveal_with_fuel(hex_value, 5);
}

/// The number that `s`, one to four hexadecimal digits, stands for.
pub fn parse_hex_u16(s: &[u8]) -> (r: Option<u16>)
    ensures
        match r {
            Some(n) => hex_u16(s@) == Some(n as nat),
            None => hex_u16(s@) is None,
        },
{
    if s.len() == 0 || s.len() > 4 {
        return None;
    }
    let mut n: u32 = 0;
    let mut i: usize = 0;
    assert(s@.take(0) =~= Seq::empty());
    while i < s.len()
        invariant
            i <= s@.len() <= 4,
            hex_value(s@.take(i as int)) == Some(n as nat),
            i == 0 ==> n == 0,
            i == 1 ==> n < 0x10,
            i == 2 ==> n < 0x100,
            i == 3 ==> n < 0x1000,
            i == 4 ==> n < 0x1_0000,
        decreases s@.len() - i,
    {
        let b: u8 = s[i];
        let ghost next = s@.take(i + 1);
        assert(next.drop_last() =~= s@.take(i as int));
        assert(next.last() == b);
        let low: u32 = if 0x30 <= b && b <= 0x39 {
            (b - 0x30) as u32
        } else if 0x61 <= b && b <= 0x66 {
            (b - 0x61 + 10) as u32
        } else if 0x41 <= b && b <= 0x46 {
            (b - 0x41 + 10) as u32
        } else {
            proof {
                hex_value_prefix(s@, i + 1);
            }
            return None;
        };
        n = n * 16 + low;
        i += 1;
    }
    assert(s@.take(i as int) =~= s@);
    Some(n as u16)
}

/// What does not start with a hexadecimal number is not one.
proof fn hex_value_prefix(s: Seq<u8>, n: int)
    requires
        0 <= n <= s.len(),
        hex_value(s.take(n)) is None,
    ensures
        hex_value(s) is None,
    decreases s.len(),
{
    if n < s.len() {
        assert(s.drop_last().take(n) =~= s.take(n));
        hex_value_prefix(s.drop_last(), n);
    } else {
        assert(s.take(n) =~= s);
    }
}

/// The bytes of `s` before the first NUL, or all of them.
pub open spec fn until_nul(s: Seq<u8>) -> Seq<u8> {
    match s.index_of_first(0u8) {
        Some(i) => s.take(i),
        None => s,
    }
}

/// What stands for a byte string that is not UTF-8: its text with U+FFFD in
/// place of the parts that are not.
pub uninterp spec fn utf8_repaired(bytes: Seq<u8>) -> Seq<char>;

/// `bytes` as text: decoded where they are UTF-8, repaired where they are not.
pub open spec fn lossy_text(bytes: Seq<u8>) -> Seq<char> {
    if valid_utf8(bytes) {
        decode_utf8(bytes)
    } else {
        utf8_repaired(bytes)
    }
}

/// `String::from_utf8_lossy` decodes UTF-8, and puts U+FFFD in place of the
/// sequences that are not UTF-8. So a NUL in the text comes from a zero byte. Which
/// sequences it replaces by one such character is not stated: the replaced text is
/// only named.
#[verifier::external_body]
fn from_utf8_lossy(bytes: &[u8]) -> (text: String)
    ensures
        text@ == (if valid_utf8(bytes@) {
            decode_utf8(bytes@)
        } else {
            utf8_repaired(bytes@)
        }),
        !valid_utf8(bytes@) ==> text@.contains('\u{FFFD}'),
        !bytes@.contains(0u8) ==> !text@.contains('\0'),
{
    String::from_utf8_lossy(bytes).into_owned()
}

/// `s` in `width` bytes: its UTF-8 form, cut or filled up with NUL.
pub open spec fn fixed_str(s: Seq<char>, width: nat) -> Seq<u8> {
    let bytes = encode_utf8(s);
    Seq::new(
        width,
        |i: int|
            if i < bytes.len() {
                bytes[i]
            } else {
                0u8
            },
    )
}

/// `s` goes into a field of `width` bytes and comes back unchanged: it is short
/// enough and holds no NUL.
pub open spec fn fits(s: Seq<char>, width: nat) -> bool {
    &&& encode_utf8(s).len() <= width
    &&& !s.contains('\0')
}

/// The text of a NUL-padded field.
pub open spec fn fixed_str_text(field: Seq<u8>) -> Seq<char> {
    lossy_text(until_nul(field))
}

/// Appends `s` in exactly `width` bytes, cut or filled up with NUL.
pub fn write_fixed_str(out: &mut Vec<u8>, s: &str, width: usize)
    ensures
        final(out)@ == old(out)@ + fixed_str(s@, width as nat),
{
    let bytes = s.as_bytes();
    let take: usize = if bytes.len() < width {
        bytes.len()
    } else {
        width
    };
    crate::wire::put_bytes(out, &bytes[0..take]);
    crate::wire::put_zeros(out, width - take);
    assert(out@ =~= old(out)@ + fixed_str(s@, width as nat));
}

/// The text of the NUL-padded field `buf`.
pub fn read_fixed_str(buf: &[u8]) -> (text: String)
    ensures
        text@ == fixed_str_text(buf@),
        !text@.contains('\0'),
{
    let mut end: usize = 0;
    while end < buf.len() && buf[end] != 0
        invariant
            end <= buf@.len(),
            forall|i: int| 0 <= i < end ==> buf@[i] != 0,
        decreases buf@.len() - end,
    {
        end += 1;
    }
    proof {
        until_nul_is(buf@, end as int);
    }
    let bytes: &[u8] = &buf[0..end];
    assert(!bytes@.contains(0u8));
    from_utf8_lossy(bytes)
}

/// Where the first NUL is, there the text ends.
pub proof fn until_nul_is(s: Seq<u8>, end: int)
    requires
        0 <= end <= s.len(),
        forall|i: int| 0 <= i < end ==> s[i] != 0,
        end == s.len() || s[end] == 0,
    ensures
        until_nul(s) == s.take(end),
{
    s.index_of_first_ensures(0u8);
    if end < s.len() {
        assert(s.contains(0u8));
    } else {
        assert(s.take(end) =~= s);
    }
}

/// Only the character NUL has a zero byte in its UTF-8 form.
pub proof fn encode_utf8_nul_free(s: Seq<char>)
    requires
        !s.contains('\0'),
    ensures
        !encode_utf8(s).contains(0u8),
    decreases s.len(),
{
    if s.len() > 0 {
        let c = s[0] as u32;
        assert(s.contains(s[0]));
        char_is_scalar(s[0]);
        char_u32_cast(s[0], c);
        assert(c != 0);
        let head = encode_scalar(c);
        assert(!head.contains(0u8)) by {
            scalar_bytes_nonzero(c);
        }
        let rest = s.drop_first();
        assert(!rest.contains('\0')) by {
            if rest.contains('\0') {
                let i = choose|i: int| 0 <= i < rest.len() && rest[i] == '\0';
                assert(s[i + 1] == '\0');
            }
        }
        encode_utf8_nul_free(rest);
        let whole = encode_utf8(s);
        if whole.contains(0u8) {
            let i = choose|i: int| 0 <= i < whole.len() && whole[i] == 0u8;
            if i < head.len() {
                assert(head[i] == 0u8);
            } else {
                assert(encode_utf8(rest)[i - head.len()] == 0u8);
            }
        }
    }
}

proof fn scalar_bytes_nonzero(c: u32)
    by (bit_vector)
    requires
        c != 0,
    ensures
        has_width_1_encoding(c) ==> leading_byte_width_1(c) != 0,
        leading_byte_width_2(c) != 0,
        leading_byte_width_3(c) != 0,
        leading_byte_width_4(c) != 0,
        last_continuation_byte(c) != 0,
        second_last_continuation_byte(c) != 0,
        third_last_continuation_byte(c) != 0,
{
}

/// A string that fits its field is read back from it unchanged.
pub proof fn fixed_str_round_trip(s: Seq<char>, width: nat)
    requires
        fits(s, width),
    ensures
        fixed_str(s, width).len() == width,
        fixed_str_text(fixed_str(s, width)) == s,
{
    let bytes = encode_utf8(s);
    let field = fixed_str(s, width);
    encode_utf8_nul_free(s);
    assert forall|i: int| 0 <= i < bytes.len() implies field[i] != 0 by {
        assert(bytes.contains(bytes[i]));
    }
    until_nul_is(field, bytes.len() as int);
    assert(field.take(bytes.len() as int) =~= bytes);
    encode_utf8_valid_utf8(s);
    encode_utf8_decode_utf8(s);
}

/// Digits count up from `0`, and from `a` when they are past nine.
pub proof fn digits_count_up(d: nat)
    requires
        d < 16,
    ensures
        d < 10 ==> digit(d) as int - '0' as int == d,
        d >= 10 ==> digit(d) as int - 'a' as int == d - 10,
{
}

/// A decimal numeral ends in the digit of the remainder by ten, before which stands the
/// numeral of the quotient. It starts with zero only if it is zero.
pub proof fn decimal_digits(n: nat)
    ensures
        decimal(n).len() > 0,
        decimal(n).last() as int - '0' as int == n % 10,
        n < 10 <==> decimal(n).len() == 1,
        n >= 10 ==> decimal(n).drop_last() == decimal(n / 10),
        decimal(n)[0] == '0' <==> n == 0,
    decreases n,
{
    if n >= 10 {
        decimal_digits(n / 10);
        assert(decimal(n).drop_last() =~= decimal(n / 10));
        assert(decimal(n)[0] == decimal(n / 10)[0]);
    }
}

/// A hexadecimal numeral ends in the digit of the remainder by sixteen, before which
/// stands the numeral of the quotient. It starts with zero only if it is zero.
pub proof fn hexadecimal_digits(n: nat)
    ensures
        hexadecimal(n).len() > 0,
        n % 16 < 10 ==> hexadecimal(n).last() as int - '0' as int == n % 16,
        n % 16 >= 10 ==> hexadecimal(n).last() as int - 'a' as int == n % 16 - 10,
        n < 16 <==> hexadecimal(n).len() == 1,
        n >= 16 ==> hexadecimal(n).drop_last() == hexadecimal(n / 16),
        hexadecimal(n)[0] == '0' <==> n == 0,
    decreases n,
{
    if n >= 16 {
        hexadecimal_digits(n / 16);
        assert(hexadecimal(n).drop_last() =~= hexadecimal(n / 16));
        assert(hexadecimal(n)[0] == hexadecimal(n / 16)[0]);
    }
}

proof fn digit_reads_back(d: nat)
    requires
        d < 16,
    ensures
        crate::json::nibble(digit(d)) == d,
        '0' <= digit(d) <= '9' || 'a' <= digit(d) <= 'f',
{
}

/// Four hexadecimal digits, the most significant first, are digits in lower case and
/// read as their number.
pub proof fn hex4_reads_back(x: u16)
    ensures
        hex4(x).len() == 4,
        crate::json::nibble(hex4(x)[0]) * 0x1000 + crate::json::nibble(hex4(x)[1]) * 0x100
            + crate::json::nibble(hex4(x)[2]) * 0x10 + crate::json::nibble(hex4(x)[3]) == x,
        forall|i: int|
            0 <= i < 4 ==> '0' <= (#[trigger] hex4(x)[i]) <= '9' || 'a' <= hex4(x)[i] <= 'f',
{
    let a = (x / 0x1000) as nat;
    let b = (x / 0x100 % 0x10) as nat;
    let c = (x / 0x10 % 0x10) as nat;
    let d = (x % 0x10) as nat;
    assert(a * 0x1000 + b * 0x100 + c * 0x10 + d == x);
    assert(a < 16);
    digit_reads_back(a);
    digit_reads_back(b);
    digit_reads_back(c);
    digit_reads_back(d);
    assert(hex4(x) =~= seq![digit(a), digit(b), digit(c), digit(d)]);
    assert(hex4(x)[0] == digit(a));
    assert(hex4(x)[1] == digit(b));
    assert(hex4(x)[2] == digit(c));
    assert(hex4(x)[3] == digit(d));
    assert forall|i: int| 0 <= i < 4 implies '0' <= (#[trigger] hex4(x)[i]) <= '9' || 'a' <= hex4(
        x,
    )[i] <= 'f' by {
        assert(i == 0 || i == 1 || i == 2 || i == 3);
    }
}

/// Eight hexadecimal digits are the four of the high half and the four of the low half.
pub proof fn hex8_halves(x: u32)
    ensures
        hex8(x).len() == 8,
        hex8(x).take(4) == hex4((x / 0x1_0000) as u16),
        hex8(x).skip(4) == hex4((x % 0x1_0000) as u16),
{
    assert(hex8(x).take(4) =~= hex4((x / 0x1_0000) as u16));
    assert(hex8(x).skip(4) =~= hex4((x % 0x1_0000) as u16));
}

/// The hexadecimal digits are `0` to `9` and `a` to `f` in both cases, and nothing else
/// is one.
pub proof fn hex_digits_are(b: u8)
    ensures
        hex_digit_value(b) is Some <==> 0x30 <= b <= 0x39 || 0x61 <= b <= 0x66 || 0x41 <= b
            <= 0x46,
        0x30 <= b <= 0x39 ==> hex_digit_value(b) == Some((b - 0x30) as nat),
        0x61 <= b <= 0x66 ==> hex_digit_value(b) == Some((b - 0x57) as nat),
        0x41 <= b <= 0x46 ==> hex_digit_value(b) == Some((b - 0x37) as nat),
{
}

/// A text of hexadecimal digits is a number of sixteen bits if it has one to four of
/// them. Each counts sixteen times as much as the next.
pub proof fn hex_u16_is_positional(s: Seq<u8>)
    ensures
        hex_u16(s) is Some <==> 1 <= s.len() <= 4 && forall|i: int|
            0 <= i < s.len() ==> hex_digit_value(#[trigger] s[i]) is Some,
        s.len() == 1 ==> hex_u16(s) == hex_digit_value(s[0]),
        2 <= s.len() <= 4 && hex_u16(s) is Some ==> hex_u16(s)->0 == hex_u16(s.drop_last())->0 * 16
            + hex_digit_value(s.last())->0,
{
    reveal_with_fuel(hex_value, 5);
    if 1 <= s.len() <= 4 {
        let n = s.len() as int;
        assert(s.last() == s[n - 1]);
        if n >= 2 {
            assert(s.drop_last().last() == s[n - 2]);
        }
        if n >= 3 {
            assert(s.drop_last().drop_last().last() == s[n - 3]);
        }
        if n >= 4 {
            assert(s.drop_last().drop_last().drop_last().last() == s[n - 4]);
        }
        if n == 1 {
            assert(s.drop_last() =~= Seq::empty());
        } else if n == 2 {
            assert(s.drop_last().drop_last() =~= Seq::empty());
        } else if n == 3 {
            assert(s.drop_last().drop_last().drop_last() =~= Seq::empty());
        } else {
            assert(s.drop_last().drop_last().drop_last().drop_last() =~= Seq::empty());
        }
        assert((forall|i: int| 0 <= i < n ==> hex_digit_value(#[trigger] s[i]) is Some) <==> (
        hex_digit_value(s[0]) is Some && (n >= 2 ==> hex_digit_value(s[1]) is Some) && (n >= 3
            ==> hex_digit_value(s[2]) is Some) && (n >= 4 ==> hex_digit_value(s[3]) is Some)));
    }
}

/// The text of a field starts where the field starts and ends before its first zero byte,
/// or where the field ends.
pub proof fn until_nul_ends(s: Seq<u8>)
    ensures
        until_nul(s).len() <= s.len(),
        forall|i: int|
            0 <= i < until_nul(s).len() ==> #[trigger] until_nul(s)[i] == s[i] && s[i] != 0,
        until_nul(s).len() < s.len() ==> s[until_nul(s).len() as int] == 0,
{
    s.index_of_first_ensures(0u8);
    if let Some(i) = s.index_of_first(0u8) {
        assert forall|k: int| 0 <= k < i implies s[k] != 0 by {
            assert(s.index_of_first(0u8) == Some(i));
        }
    } else {
        assert forall|k: int| 0 <= k < s.len() implies s[k] != 0 by {
            if s[k] == 0 {
                assert(s.contains(0u8));
            }
        }
    }
}

/// A field starts with the UTF-8 form of its text, as far as that goes into it, and the
/// rest of it is zero.
pub proof fn fixed_str_layout(s: Seq<char>, width: nat)
    ensures
        fixed_str(s, width).len() == width,
        forall|i: int|
            0 <= i < width && i < encode_utf8(s).len() ==> #[trigger] fixed_str(s, width)[i]
                == encode_utf8(s)[i],
        forall|i: int|
            encode_utf8(s).len() <= i < width ==> #[trigger] fixed_str(s, width)[i] == 0,
{
}

/// Bytes that are the UTF-8 form of a text are read as that text.
pub proof fn lossy_text_decodes(s: Seq<char>)
    ensures
        lossy_text(encode_utf8(s)) == s,
{
    encode_utf8_valid_utf8(s);
    encode_utf8_decode_utf8(s);
}

} // verus!
