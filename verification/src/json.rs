//! Strings and numbers in JSON text.

use vstd::prelude::*;

verus! {

/// What stands for the character `c` inside a JSON string.
pub open spec fn escape(c: char) -> Seq<char> {
    if c == '"' {
        seq!['\\', '"']
    } else if c == '\\' {
        seq!['\\', '\\']
    } else if c as u32 == 0x08 {
        seq!['\\', 'b']
    } else if c as u32 == 0x09 {
        seq!['\\', 't']
    } else if c as u32 == 0x0a {
        seq!['\\', 'n']
    } else if c as u32 == 0x0c {
        seq!['\\', 'f']
    } else if c as u32 == 0x0d {
        seq!['\\', 'r']
    } else if (c as u32) < 0x20 {
        seq![
            '\\',
            'u',
            '0',
            '0',
            crate::text::digit((c as u32 / 16) as nat),
            crate::text::digit((c as u32 % 16) as nat),
        ]
    } else {
        seq![c]
    }
}

/// What stands for `s` between the quotes of a JSON string.
pub open spec fn escaped(s: Seq<char>) -> Seq<char>
    decreases s.len(),
{
    if s.len() == 0 {
        Seq::empty()
    } else {
        escape(s[0]) + escaped(s.drop_first())
    }
}

/// The JSON string of `s`.
pub open spec fn quoted(s: Seq<char>) -> Seq<char> {
    seq!['"'] + escaped(s) + seq!['"']
}

/// `serde_json::to_string` of a string is its text in quotes, with the quote, the
/// backslash and the characters below U+0020 escaped: `\b`, `\t`, `\n`, `\f` and `\r`
/// by their letters, the others as `\u00` and two lower-case hexadecimal digits. It
/// does not fail on a string.
#[verifier::external_body]
pub(crate) fn quote(s: &str) -> (r: String)
    ensures
        r@ == quoted(s@),
{
    serde_json::to_string(s).expect("a string has a JSON form")
}

/// The value of a hexadecimal digit in lower case.
pub open spec fn nibble(c: char) -> int {
    if c as u32 >= 0x61 {
        c as u32 - 0x57
    } else {
        c as u32 - 0x30
    }
}

/// The character that starts the inside of a JSON string, and how many characters
/// stand for it.
pub open spec fn first_char(s: Seq<char>) -> (char, int) {
    if s[0] != '\\' {
        (s[0], 1)
    } else if s[1] == 'u' {
        (
            (nibble(s[2]) * 0x1000 + nibble(s[3]) * 0x100 + nibble(s[4]) * 0x10 + nibble(
                s[5],
            )) as char,
            6,
        )
    } else if s[1] == 'b' {
        (0x08u32 as char, 2)
    } else if s[1] == 't' {
        (0x09u32 as char, 2)
    } else if s[1] == 'n' {
        (0x0au32 as char, 2)
    } else if s[1] == 'f' {
        (0x0cu32 as char, 2)
    } else if s[1] == 'r' {
        (0x0du32 as char, 2)
    } else {
        (s[1], 2)
    }
}

/// The text of a JSON string that has lost its first quote, and what follows it.
pub open spec fn read_rest(s: Seq<char>) -> (Seq<char>, Seq<char>)
    decreases s.len(),
{
    if s.len() == 0 || s[0] == '"' {
        (Seq::empty(), s.skip(1))
    } else {
        let (c, n) = first_char(s);
        if n > s.len() {
            (Seq::empty(), Seq::empty())
        } else {
            let (text, rest) = read_rest(s.skip(n));
            (seq![c] + text, rest)
        }
    }
}

proof fn escape_reads_back(c: char, rest: Seq<char>)
    ensures
        escape(c).len() > 0,
        escape(c)[0] != '"',
        first_char(escape(c) + rest) == (c, escape(c).len() as int),
        forall|i: int| 0 <= i < escape(c).len() ==> (#[trigger] escape(c)[i]) as u32 >= 0x20,
{
    let s = escape(c) + rest;
    assert forall|i: int| 0 <= i < escape(c).len() implies s[i] == escape(c)[i] by {}
    if escape(c).len() == 6 {
        let hi = (c as u32 / 16) as nat;
        let lo = (c as u32 % 16) as nat;
        assert(nibble(crate::text::digit(hi)) == hi);
        assert(nibble(crate::text::digit(lo)) == lo);
        assert(nibble('0') == 0);
    }
}

proof fn escaped_reads_back(s: Seq<char>, rest: Seq<char>)
    ensures
        read_rest(escaped(s) + seq!['"'] + rest) == (s, rest),
    decreases s.len(),
{
    let whole = escaped(s) + seq!['"'] + rest;
    if s.len() == 0 {
        assert(whole =~= seq!['"'] + rest);
        assert(whole.skip(1) =~= rest);
        assert(s =~= Seq::empty());
    } else {
        let tail = s.drop_first();
        let next = escaped(tail) + seq!['"'] + rest;
        let n = escape(s[0]).len() as int;
        assert(whole =~= escape(s[0]) + next);
        escape_reads_back(s[0], next);
        escaped_reads_back(tail, rest);
        assert(whole[0] == escape(s[0])[0]);
        assert(whole.skip(n) =~= next);
        assert(seq![s[0]] + tail =~= s);
    }
}

/// Who reads a JSON string gets the text that was written, and goes on where the
/// string ends.
pub proof fn quoted_reads_back(s: Seq<char>, rest: Seq<char>)
    ensures
        quoted(s).len() >= 2,
        quoted(s)[0] == '"',
        read_rest((quoted(s) + rest).skip(1)) == (s, rest),
{
    escaped_reads_back(s, rest);
    assert((quoted(s) + rest).skip(1) =~= escaped(s) + seq!['"'] + rest);
}

/// No character of `s` is a control character: it is on one line.
pub open spec fn on_one_line(s: Seq<char>) -> bool {
    forall|i: int| 0 <= i < s.len() ==> (#[trigger] s[i]) as u32 >= 0x20
}

proof fn escaped_on_one_line(s: Seq<char>)
    ensures
        on_one_line(escaped(s)),
    decreases s.len(),
{
    if s.len() > 0 {
        escape_reads_back(s[0], Seq::empty());
        escaped_on_one_line(s.drop_first());
        let n = escape(s[0]).len();
        assert forall|i: int| 0 <= i < escaped(s).len() implies (#[trigger] escaped(
            s,
        )[i]) as u32 >= 0x20 by {
            if i < n {
                assert(escaped(s)[i] == escape(s[0])[i]);
            } else {
                assert(escaped(s)[i] == escaped(s.drop_first())[i - n]);
            }
        }
    }
}

/// A JSON string is on one line, whatever text it holds.
pub proof fn quoted_on_one_line(s: Seq<char>)
    ensures
        on_one_line(quoted(s)),
{
    escaped_on_one_line(s);
    let e = escaped(s);
    assert forall|i: int| 0 <= i < quoted(s).len() implies (#[trigger] quoted(s)[i]) as u32
        >= 0x20 by {
        if 0 < i && i <= e.len() {
            assert(quoted(s)[i] == e[i - 1]);
        }
    }
}

/// The digits `0` to `9` and `a` to `f` are worth zero to fifteen.
pub proof fn nibbles_are(c: char)
    ensures
        '0' <= c <= '9' ==> nibble(c) == c as int - '0' as int,
        'a' <= c <= 'f' ==> nibble(c) == c as int - 'a' as int + 10,
{
}

} // verus!
