//! JSON strings: how a text is escaped, how a parser reads it back, and the
//! proof that the two agree.

use vstd::prelude::*;

verus! {

broadcast use vstd::string::group_string_axioms;

/// The character that writes the digit `d` in base 16, in lower case.
pub open spec fn hex_digit(d: int) -> char {
    if d < 10 {
        (48 + d) as u8 as char
    } else {
        (87 + d) as u8 as char
    }
}

/// How one character is written inside a JSON string: the quote and the
/// backslash get a backslash in front, the control characters below U+0020
/// their short escape or `\u00` with two hexadecimal digits, and every other
/// character stands for itself.
pub open spec fn escape_char(c: char) -> Seq<char> {
    if c == '"' {
        seq!['\\', '"']
    } else if c == '\\' {
        seq!['\\', '\\']
    } else if c == '\n' {
        seq!['\\', 'n']
    } else if c == '\r' {
        seq!['\\', 'r']
    } else if c == '\t' {
        seq!['\\', 't']
    } else if c == '\u{8}' {
        seq!['\\', 'b']
    } else if c == '\u{c}' {
        seq!['\\', 'f']
    } else if (c as u32) < 0x20 {
        seq!['\\', 'u', '0', '0', hex_digit((c as u32) as int / 16), hex_digit((c as u32) as int % 16)]
    } else {
        seq![c]
    }
}

/// The body of the JSON string that stands for `s`: each character escaped
/// in turn, in the order of `s`.
pub open spec fn json_escaped(s: Seq<char>) -> Seq<char>
    decreases s.len(),
{
    if s.len() == 0 {
        Seq::empty()
    } else {
        json_escaped(s.drop_last()) + escape_char(s.last())
    }
}

/// Appends one character as it stands inside a JSON string.
pub fn push_escaped_char(out: &mut String, c: char)
    ensures
        final(out)@ == old(out)@ + escape_char(c),
{
    if c == '"' {
        out.push('\\');
        out.push('"');
    } else if c == '\\' {
        out.push('\\');
        out.push('\\');
    } else if c == '\n' {
        out.push('\\');
        out.push('n');
    } else if c == '\r' {
        out.push('\\');
        out.push('r');
    } else if c == '\t' {
        out.push('\\');
        out.push('t');
    } else if c == '\u{8}' {
        out.push('\\');
        out.push('b');
    } else if c == '\u{c}' {
        out.push('\\');
        out.push('f');
    } else if (c as u32) < 0x20 {
        let code: u8 = (c as u32) as u8;
        let high: u8 = code / 16;
        let low: u8 = code % 16;
        out.push('\\');
        out.push('u');
        out.push('0');
        out.push('0');
        out.push(hex_char(high));
        out.push(hex_char(low));
    } else {
        out.push(c);
    }
}

/// The lower-case hexadecimal digit for `d`.
fn hex_char(d: u8) -> (c: char)
    requires
        d < 16,
    ensures
        c == hex_digit(d as int),
{
    if d < 10 {
        (48u8 + d) as char
    } else {
        (87u8 + d) as char
    }
}

/// Appends `s` as the body of a JSON string.
pub fn push_json_escaped(out: &mut String, s: &str)
    ensures
        final(out)@ == old(out)@ + json_escaped(s@),
{
    let ghost before = out@;
    for c in it: s.chars()
        invariant
            it.seq() == s@,
            out@ == before + json_escaped(s@.subrange(0, it.index() as int)),
    {
        push_escaped_char(out, c);
        proof {
            let i = it.index() as int;
            assert(s@.subrange(0, i + 1).drop_last() =~= s@.subrange(0, i));
        }
    }
    assert(s@.subrange(0, s@.len() as int) =~= s@);
}

/// Escaping goes character by character: the escaped form of two texts in
/// a row is the escaped form of the first followed by that of the second.
pub proof fn lemma_json_escaped_concat(a: Seq<char>, b: Seq<char>)
    ensures
        json_escaped(a + b) == json_escaped(a) + json_escaped(b),
    decreases b.len(),
{
    if b.len() == 0 {
        assert(a + b =~= a);
        assert(json_escaped(a) + json_escaped(b) =~= json_escaped(a));
    } else {
        lemma_json_escaped_concat(a, b.drop_last());
        assert((a + b).drop_last() =~= a + b.drop_last());
        assert((a + b).last() == b.last());
        assert(json_escaped(a + b) =~= json_escaped(a) + json_escaped(b));
    }
}

/// The number that the hexadecimal digit `c` stands for.
pub open spec fn hex_value(c: char) -> Option<int> {
    if '0' <= c <= '9' {
        Some(c as int - 48)
    } else if 'a' <= c <= 'f' {
        Some(c as int - 87)
    } else if 'A' <= c <= 'F' {
        Some(c as int - 55)
    } else {
        None
    }
}

/// The character that a backslash followed by `c` stands for in a JSON
/// string, for the escapes of two characters.
pub open spec fn short_escape(c: char) -> Option<char> {
    if c == '"' || c == '\\' || c == '/' {
        Some(c)
    } else if c == 'b' {
        Some('\u{8}')
    } else if c == 'f' {
        Some('\u{c}')
    } else if c == 'n' {
        Some('\n')
    } else if c == 'r' {
        Some('\r')
    } else if c == 't' {
        Some('\t')
    } else {
        None
    }
}

/// The character that `\u` with four hexadecimal digits stands for, where
/// `digits` are the four characters after the `u`. Halves of surrogate pairs
/// are not read.
pub open spec fn unicode_escape(digits: Seq<char>) -> Option<char> {
    if digits.len() == 4 && hex_value(digits[0]) is Some && hex_value(digits[1]) is Some
        && hex_value(digits[2]) is Some && hex_value(digits[3]) is Some {
        let code = ((hex_value(digits[0])->0 * 16 + hex_value(digits[1])->0) * 16 + hex_value(
            digits[2],
        )->0) * 16 + hex_value(digits[3])->0;
        if code < 0xD800 || 0xE000 <= code {
            Some(code as u32 as char)
        } else {
            None
        }
    } else {
        None
    }
}

/// `c` put in front of the text that was read after it.
pub open spec fn read_after(c: char, rest: Option<(Seq<char>, Seq<char>)>) -> Option<
    (Seq<char>, Seq<char>),
> {
    match rest {
        Some((text, tail)) => Some((seq![c] + text, tail)),
        None => None,
    }
}

/// Reads a JSON string from just behind its opening quote, as a JSON parser
/// does: the text that the string stands for, and what follows its closing
/// quote. `None` where the string is not closed, holds a bare control
/// character or an escape that JSON does not have.
#[verifier::opaque]
pub open spec fn read_json_string(t: Seq<char>) -> Option<(Seq<char>, Seq<char>)>
    decreases t.len(),
{
    if t.len() == 0 {
        None
    } else if t[0] == '"' {
        Some((Seq::empty(), t.skip(1)))
    } else if t[0] == '\\' {
        if t.len() >= 2 && short_escape(t[1]) is Some {
            read_after(short_escape(t[1])->0, read_json_string(t.skip(2)))
        } else if t.len() >= 6 && t[1] == 'u' && unicode_escape(t.subrange(2, 6)) is Some {
            read_after(unicode_escape(t.subrange(2, 6))->0, read_json_string(t.skip(6)))
        } else {
            None
        }
    } else if (t[0] as u32) < 0x20 {
        None
    } else {
        read_after(t[0], read_json_string(t.skip(1)))
    }
}

/// One escaped character reads back as the character itself.
pub proof fn lemma_escape_char_reads_back(c: char, rest: Seq<char>)
    ensures
        read_json_string(escape_char(c) + rest) == read_after(c, read_json_string(rest)),
{
    reveal(read_json_string);
    let t = escape_char(c) + rest;
    if c == '"' || c == '\\' || c == '\n' || c == '\r' || c == '\t' || c == '\u{8}' || c
        == '\u{c}' {
        assert(t[0] == '\\');
        assert(short_escape(t[1]) == Some(c));
        assert(t.skip(2) =~= rest);
    } else if (c as u32) < 0x20 {
        let high = (c as u32) as int / 16;
        let low = (c as u32) as int % 16;
        assert(t[0] == '\\' && t[1] == 'u');
        assert(short_escape('u') is None);
        assert(t.subrange(2, 6) =~= seq!['0', '0', hex_digit(high), hex_digit(low)]);
        assert(hex_value('0') == Some(0int));
        assert(hex_value(hex_digit(high)) == Some(high));
        assert(hex_value(hex_digit(low)) == Some(low));
        assert(unicode_escape(t.subrange(2, 6)) == Some(c));
        assert(t.skip(6) =~= rest);
    } else {
        assert(t[0] == c);
        assert(t.skip(1) =~= rest);
    }
}

/// An escaped text between quotes reads back as the text itself, and the
/// reader stops at the closing quote: no character of the text can end the
/// string early or run into what follows it.
pub proof fn lemma_json_string_reads_back(s: Seq<char>, rest: Seq<char>)
    ensures
        read_json_string(json_escaped(s) + seq!['"'] + rest) == Some((s, rest)),
    decreases s.len(),
{
    let quoted = json_escaped(s) + seq!['"'] + rest;
    if s.len() == 0 {
        reveal(read_json_string);
        assert(quoted =~= seq!['"'] + rest);
        assert(quoted.skip(1) =~= rest);
        assert(s =~= Seq::<char>::empty());
    } else {
        let first = s[0];
        let others = s.skip(1);
        let tail = json_escaped(others) + seq!['"'] + rest;
        assert(s =~= seq![first] + others);
        lemma_json_escaped_concat(seq![first], others);
        assert(json_escaped(seq![first]) =~= escape_char(first)) by {
            assert(seq![first].drop_last() =~= Seq::<char>::empty());
            reveal_with_fuel(json_escaped, 2);
        }
        assert(quoted =~= escape_char(first) + tail);
        lemma_escape_char_reads_back(first, tail);
        lemma_json_string_reads_back(others, rest);
    }
}

/// A key and its value, as text.
pub type Member = (Seq<char>, Seq<char>);

/// One member of a JSON object whose value is a string: the key and the
/// value, each escaped and between quotes, with a colon in between.
pub open spec fn json_member(key: Seq<char>, value: Seq<char>) -> Seq<char> {
    seq!['"'] + json_escaped(key) + seq!['"', ':', '"'] + json_escaped(value) + seq!['"']
}

/// The members one after the other, each followed by a comma.
pub open spec fn json_members(members: Seq<Member>) -> Seq<char>
    decreases members.len(),
{
    if members.len() == 0 {
        Seq::empty()
    } else {
        json_members(members.drop_last()) + json_member(members.last().0, members.last().1)
            + seq![',']
    }
}

/// The JSON object with the given members, in their order, without any
/// white space. There is at least one member.
pub open spec fn json_object(members: Seq<Member>) -> Seq<char> {
    seq!['{'] + json_members(members.drop_last()) + json_member(
        members.last().0,
        members.last().1,
    ) + seq!['}']
}

/// Appends one member of a JSON object.
pub fn push_json_member(out: &mut String, key: &str, value: &str)
    ensures
        final(out)@ == old(out)@ + json_member(key@, value@),
{
    out.push('"');
    push_json_escaped(out, key);
    out.push('"');
    out.push(':');
    out.push('"');
    push_json_escaped(out, value);
    out.push('"');
}

/// Reads one member whose value is a string, as a JSON parser does: the key
/// and the value that the member stands for, and what follows it.
#[verifier::opaque]
pub open spec fn read_json_member(t: Seq<char>) -> Option<(Member, Seq<char>)> {
    if t.len() > 0 && t[0] == '"' {
        match read_json_string(t.skip(1)) {
            Some((key, rest)) => {
                if rest.len() >= 2 && rest[0] == ':' && rest[1] == '"' {
                    match read_json_string(rest.skip(2)) {
                        Some((value, tail)) => Some(((key, value), tail)),
                        None => None,
                    }
                } else {
                    None
                }
            },
            None => None,
        }
    } else {
        None
    }
}

/// Reads the members of a JSON object up to its closing brace: the members
/// in the order in which they stand, and what follows the brace.
#[verifier::opaque]
pub open spec fn read_json_members(t: Seq<char>) -> Option<(Seq<Member>, Seq<char>)>
    decreases t.len(),
{
    match read_json_member(t) {
        Some((member, tail)) => {
            if tail.len() > 0 && tail[0] == '}' {
                Some((seq![member], tail.skip(1)))
            } else if tail.len() > 0 && tail[0] == ',' && tail.len() <= t.len() {
                match read_json_members(tail.skip(1)) {
                    Some((members, rest)) => Some((seq![member] + members, rest)),
                    None => None,
                }
            } else {
                None
            }
        },
        None => None,
    }
}

/// Reads a JSON object whose values are all strings and that holds no white
/// space: its members in the order in which they stand, and what follows the
/// object.
pub open spec fn read_json_object(t: Seq<char>) -> Option<(Seq<Member>, Seq<char>)> {
    if t.len() > 0 && t[0] == '{' {
        read_json_members(t.skip(1))
    } else {
        None
    }
}

/// A member reads back as the key and the value that it was written from,
/// and the reader stops behind the member.
pub proof fn lemma_json_member_reads_back(key: Seq<char>, value: Seq<char>, rest: Seq<char>)
    ensures
        read_json_member(json_member(key, value) + rest) == Some(((key, value), rest)),
{
    reveal(read_json_member);
    let t = json_member(key, value) + rest;
    let after_key = seq![':', '"'] + json_escaped(value) + seq!['"'] + rest;
    assert(t.skip(1) =~= json_escaped(key) + seq!['"'] + after_key);
    lemma_json_string_reads_back(key, after_key);
    assert(after_key.skip(2) =~= json_escaped(value) + seq!['"'] + rest);
    lemma_json_string_reads_back(value, rest);
}

/// The members of two lists in a row are written as those of the first
/// followed by those of the second.
pub proof fn lemma_json_members_concat(a: Seq<Member>, b: Seq<Member>)
    ensures
        json_members(a + b) == json_members(a) + json_members(b),
    decreases b.len(),
{
    if b.len() == 0 {
        assert(a + b =~= a);
        assert(json_members(a) + json_members(b) =~= json_members(a));
    } else {
        lemma_json_members_concat(a, b.drop_last());
        assert((a + b).drop_last() =~= a + b.drop_last());
        assert((a + b).last() == b.last());
        assert(json_members(a + b) =~= json_members(a) + json_members(b));
    }
}

/// The reader at the last member of an object.
proof fn lemma_read_last_member(t: Seq<char>, member: Member, tail: Seq<char>)
    requires
        read_json_member(t) == Some((member, tail)),
        tail.len() > 0,
        tail[0] == '}',
    ensures
        read_json_members(t) == Some((seq![member], tail.skip(1))),
{
    reveal(read_json_members);
}

/// The reader at a member that is followed by another one.
proof fn lemma_read_next_member(
    t: Seq<char>,
    member: Member,
    tail: Seq<char>,
    members: Seq<Member>,
    rest: Seq<char>,
)
    requires
        read_json_member(t) == Some((member, tail)),
        0 < tail.len() <= t.len(),
        tail[0] == ',',
        read_json_members(tail.skip(1)) == Some((members, rest)),
    ensures
        read_json_members(t) == Some((seq![member] + members, rest)),
{
    reveal(read_json_members);
}

/// The text of a first member and of those behind it.
proof fn lemma_json_members_first(members: Seq<Member>)
    requires
        members.len() > 0,
    ensures
        json_members(members) == json_member(members[0].0, members[0].1) + seq![',']
            + json_members(members.skip(1)),
{
    let first = members[0];
    assert(members =~= seq![first] + members.skip(1));
    lemma_json_members_concat(seq![first], members.skip(1));
    assert(json_members(seq![first]) == json_member(first.0, first.1) + seq![',']) by {
        assert(seq![first].drop_last() =~= Seq::<Member>::empty());
        assert(json_members(seq![first].drop_last()) =~= Seq::<char>::empty());
        assert(Seq::<char>::empty() + json_member(first.0, first.1) =~= json_member(
            first.0,
            first.1,
        ));
    }
}

/// Members that are written one after the other, with a last one and the
/// closing brace behind them, read back as they were given, in their order.
pub proof fn lemma_json_members_read_back(
    members: Seq<Member>,
    last: Member,
    rest: Seq<char>,
)
    ensures
        read_json_members(
            json_members(members) + json_member(last.0, last.1) + seq!['}'] + rest,
        ) == Some((members.push(last), rest)),
    decreases members.len(),
{
    let t = json_members(members) + json_member(last.0, last.1) + seq!['}'] + rest;
    if members.len() == 0 {
        let tail = seq!['}'] + rest;
        assert(t == json_member(last.0, last.1) + tail) by {
            assert(t =~= json_member(last.0, last.1) + tail);
        }
        lemma_json_member_reads_back(last.0, last.1, tail);
        assert(tail.skip(1) == rest) by {
            assert(tail.skip(1) =~= rest);
        }
        lemma_read_last_member(t, last, tail);
        assert(members.push(last) == seq![last]) by {
            assert(members.push(last) =~= seq![last]);
        }
    } else {
        let first = members[0];
        let others = members.skip(1);
        let others_text = json_members(others) + json_member(last.0, last.1) + seq!['}'] + rest;
        let tail = seq![','] + others_text;
        let head = json_member(first.0, first.1);
        lemma_json_members_first(members);
        assert(t == head + tail) by {
            let m = json_members(others);
            let l = json_member(last.0, last.1);
            lemma_join(head, m, l, rest);
        }
        lemma_json_member_reads_back(first.0, first.1, tail);
        assert(tail.skip(1) == others_text) by {
            assert(tail.skip(1) =~= others_text);
        }
        assert(tail.len() <= t.len());
        lemma_json_members_read_back(others, last, rest);
        lemma_read_next_member(t, first, tail, others.push(last), rest);
        assert(seq![first] + others.push(last) == members.push(last)) by {
            assert(seq![first] + others.push(last) =~= members.push(last));
        }
    }
}

/// Moves the brackets in the text of an object's members.
proof fn lemma_join(head: Seq<char>, middle: Seq<char>, last: Seq<char>, rest: Seq<char>)
    ensures
        (head + seq![','] + middle) + last + seq!['}'] + rest == head + (seq![','] + (middle
            + last + seq!['}'] + rest)),
{
    assert((head + seq![','] + middle) + last + seq!['}'] + rest =~= head + (seq![','] + (middle
        + last + seq!['}'] + rest)));
}

/// A JSON object reads back as the members that it was written from, in
/// their order. Whatever the keys and the values hold, quotes, backslashes
/// and control characters too, a parser finds the same members, each with the
/// same key and the same value, and stops behind the closing brace.
pub proof fn lemma_json_object_reads_back(members: Seq<Member>, rest: Seq<char>)
    requires
        members.len() > 0,
    ensures
        read_json_object(json_object(members) + rest) == Some((members, rest)),
{
    let t = json_object(members) + rest;
    let last = members.last();
    let inner = json_members(members.drop_last()) + json_member(last.0, last.1) + seq!['}']
        + rest;
    assert(t.len() > 0 && t[0] == '{' && t.skip(1) == inner) by {
        assert(t =~= seq!['{'] + inner);
        assert(t.skip(1) =~= inner);
    }
    lemma_json_members_read_back(members.drop_last(), last, rest);
    assert(members.drop_last().push(last) == members) by {
        assert(members.drop_last().push(last) =~= members);
    }
}

/// Whether `t` holds no control character, that is none below U+0020: no
/// newline among others.
pub open spec fn is_plain(t: Seq<char>) -> bool {
    forall|i: int| 0 <= i < t.len() ==> (#[trigger] t[i]) as u32 >= 0x20
}

/// An escaped text holds no control character.
pub proof fn lemma_json_escaped_is_plain(s: Seq<char>)
    ensures
        is_plain(json_escaped(s)),
    decreases s.len(),
{
    if s.len() > 0 {
        lemma_json_escaped_is_plain(s.drop_last());
        assert(is_plain(escape_char(s.last())));
    }
}

/// The members of an object are written without any control character.
pub proof fn lemma_json_members_are_plain(members: Seq<Member>)
    ensures
        is_plain(json_members(members)),
    decreases members.len(),
{
    if members.len() > 0 {
        lemma_json_members_are_plain(members.drop_last());
        lemma_json_escaped_is_plain(members.last().0);
        lemma_json_escaped_is_plain(members.last().1);
    }
}

/// A JSON object is written without any control character, whatever its
/// keys and values hold: it stands on one line.
pub proof fn lemma_json_object_is_plain(members: Seq<Member>)
    requires
        members.len() > 0,
    ensures
        is_plain(json_object(members)),
{
    lemma_json_members_are_plain(members.drop_last());
    lemma_json_escaped_is_plain(members.last().0);
    lemma_json_escaped_is_plain(members.last().1);
}

} // verus!
