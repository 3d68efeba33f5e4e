//! What cutting and joining texts comes to, character by character.

use vstd::prelude::*;

use crate::paths;
use crate::text;

verus! {

/// The text holds no slash.
pub open spec fn slashless(part: Seq<char>) -> bool {
    forall|i: int| 0 <= i < part.len() ==> part[i] != '/'
}

/// A prefix is taken off exactly the texts that begin with it, and what is
/// left is the rest.
pub proof fn law_prefix_is_taken_off(prefix: Seq<char>, rest: Seq<char>, whole: Seq<char>)
    ensures
        text::after_prefix(prefix + rest, prefix) == Some(rest),
        text::after_prefix(whole, prefix) matches Some(left) ==> whole == prefix + left,
{
    assert((prefix + rest).skip(prefix.len() as int) =~= rest);
    if let Some(left) = text::after_prefix(whole, prefix) {
        assert(whole =~= prefix + left);
    }
}

/// Joining puts one slash between the parts, and what is below a directory is
/// what was joined to it.
pub proof fn law_joined_parts(top: Seq<char>, rest: Seq<char>, path: Seq<char>)
    ensures
        paths::joined(top, rest) == top + seq!['/'] + rest,
        paths::below(top + seq!['/'] + rest, top) == Some(rest),
        paths::below(path, top) matches Some(left) ==> path == top + seq!['/'] + left,
        paths::within(path, top) <==> path == top || exists|left: Seq<char>|
            path == #[trigger] (top + seq!['/'] + left),
{
    assert(top.push('/') =~= top + seq!['/']);
    law_prefix_is_taken_off(top + seq!['/'], rest, path);
    if top.push('/').is_prefix_of(path) {
        assert(path =~= top + seq!['/'] + path.skip(top.len() as int + 1));
    }
    assert forall|left: Seq<char>| path == #[trigger] (top + seq!['/'] + left) implies
        top.push('/').is_prefix_of(path) by {
        assert(path.subrange(0, top.len() as int + 1) =~= top.push('/'));
    }
}

proof fn lemma_last_slash_of(base: Seq<char>, name: Seq<char>)
    requires
        slashless(name),
    ensures
        text::last_slash(base + seq!['/'] + name) == base.len(),
        text::last_slash(name) == -1,
{
    let whole = base + seq!['/'] + name;
    text::lemma_last_slash(whole);
    text::lemma_last_slash(name);
    assert(whole[base.len() as int] == '/');
    let k = text::last_slash(whole);
    if k > base.len() {
        assert(whole[k] == name[k - base.len() - 1]);
    }
}

/// The parent of a path is what stands before its last slash and its name is
/// what stands behind it; a path without a slash is its own name, and its
/// parent is empty.
pub proof fn law_parent_and_name(base: Seq<char>, name: Seq<char>)
    requires
        slashless(name),
    ensures
        paths::parent(base + seq!['/'] + name) == base,
        paths::last_part(base + seq!['/'] + name) == name,
        paths::parent(name) == Seq::<char>::empty(),
        paths::last_part(name) == name,
{
    lemma_last_slash_of(base, name);
    assert((base + seq!['/'] + name).take(base.len() as int) =~= base);
    assert((base + seq!['/'] + name).skip(base.len() as int + 1) =~= name);
    assert(name.skip(0) =~= name);
}

proof fn lemma_without_tail(base: Seq<char>, tail: Seq<char>, unwanted: spec_fn(char) -> bool)
    requires
        base.len() == 0 || !unwanted(base.last()),
        forall|i: int| 0 <= i < tail.len() ==> unwanted(#[trigger] tail[i]),
    ensures
        text::without_tail(base + tail, unwanted) == base,
    decreases tail.len(),
{
    if tail.len() == 0 {
        assert(base + tail =~= base);
    } else {
        assert((base + tail).last() == tail.last());
        assert((base + tail).drop_last() =~= base + tail.drop_last());
        lemma_without_tail(base, tail.drop_last(), unwanted);
    }
}

proof fn lemma_without_front(head: Seq<char>, base: Seq<char>, unwanted: spec_fn(char) -> bool)
    requires
        base.len() == 0 || !unwanted(base[0]),
        forall|i: int| 0 <= i < head.len() ==> unwanted(#[trigger] head[i]),
    ensures
        text::without_front(head + base, unwanted) == base,
    decreases head.len(),
{
    if head.len() == 0 {
        assert(head + base =~= base);
    } else {
        assert((head + base)[0] == head[0]);
        assert((head + base).drop_first() =~= head.drop_first() + base);
        lemma_without_front(head.drop_first(), base, unwanted);
    }
}

/// Slashes are taken off an end until another character stands there, and
/// nothing else is.
pub proof fn law_slashes_are_taken_off(base: Seq<char>, slashes: Seq<char>)
    requires
        forall|i: int| 0 <= i < slashes.len() ==> slashes[i] == '/',
    ensures
        base.len() == 0 || base.last() != '/' ==> text::without_tail_slashes(base + slashes)
            == base,
        base.len() == 0 || base[0] != '/' ==> text::without_front_slashes(slashes + base) == base,
{
    let unwanted = |c: char| text::is_slash(c);
    assert forall|i: int| 0 <= i < slashes.len() implies unwanted(#[trigger] slashes[i]) by {}
    if base.len() == 0 || base.last() != '/' {
        lemma_without_tail(base, slashes, unwanted);
    }
    if base.len() == 0 || base[0] != '/' {
        lemma_without_front(slashes, base, unwanted);
    }
}

/// White space is taken off both ends of a text and nothing else is.
pub proof fn law_white_space_is_taken_off(head: Seq<char>, base: Seq<char>, tail: Seq<char>)
    requires
        forall|i: int| 0 <= i < head.len() ==> text::is_space(#[trigger] head[i]),
        forall|i: int| 0 <= i < tail.len() ==> text::is_space(#[trigger] tail[i]),
        base.len() > 0,
        !text::is_space(base[0]),
        !text::is_space(base.last()),
    ensures
        text::trimmed(head + base + tail) == base,
{
    let unwanted = |c: char| text::is_space(c);
    assert(head + base + tail =~= head + (base + tail));
    lemma_without_front(head, base + tail, unwanted);
    lemma_without_tail(base, tail, unwanted);
}

/// Blanks, tabs and line ends are white space; visible ASCII characters are
/// not.
pub proof fn law_white_space(c: char)
    ensures
        c == ' ' || c == '\t' || c == '\n' || c == '\r' ==> text::is_space(c),
        '!' <= c <= '~' ==> !text::is_space(c),
{
}

proof fn lemma_line_length_of(line: Seq<char>, rest: Seq<char>)
    requires
        forall|i: int| 0 <= i < line.len() ==> line[i] != '\n',
        rest.len() == 0 || rest[0] == '\n',
    ensures
        text::line_length(line + rest) == line.len(),
    decreases line.len(),
{
    if line.len() == 0 {
        assert(line + rest =~= rest);
    } else {
        assert((line + rest)[0] == line[0]);
        assert((line + rest).drop_first() =~= line.drop_first() + rest);
        lemma_line_length_of(line.drop_first(), rest);
    }
}

/// The lines of a text are what stands between its line feeds; a carriage
/// return before a line feed belongs to the line's end.
pub proof fn law_lines(line: Seq<char>, rest: Seq<char>)
    requires
        forall|i: int| 0 <= i < line.len() ==> line[i] != '\n',
    ensures
        text::lines(line) == if line.len() == 0 {
            Seq::empty()
        } else {
            seq![line]
        },
        line.len() == 0 || line.last() != '\r' ==> {
            &&& text::lines(line + seq!['\n'] + rest) == seq![line] + text::lines(rest)
            &&& text::lines(line + seq!['\r', '\n'] + rest) == seq![line] + text::lines(rest)
        },
{
    assert(line + Seq::empty() =~= line);
    lemma_line_length_of(line, Seq::empty());
    let ended = seq!['\n'] + rest;
    lemma_line_length_of(line, ended);
    assert(line + seq!['\n'] + rest =~= line + ended);
    assert((line + ended).take(line.len() as int) =~= line);
    assert((line + ended).skip(line.len() as int + 1) =~= rest);
    let returned = line.push('\r');
    lemma_line_length_of(returned, ended);
    assert(line + seq!['\r', '\n'] + rest =~= returned + ended);
    assert((returned + ended).take(returned.len() as int) =~= returned);
    assert((returned + ended).skip(returned.len() as int + 1) =~= rest);
    assert(returned.drop_last() =~= line);
}

/// A text holds what stands between any two parts of it, and nothing else.
pub proof fn law_held_text(front: Seq<char>, needle: Seq<char>, back: Seq<char>, whole: Seq<char>)
    ensures
        text::holds(front + needle + back, needle),
        text::holds(whole, needle) ==> exists|a: Seq<char>, b: Seq<char>|
            whole == #[trigger] (a + needle + b),
{
    let all = front + needle + back;
    let i = front.len() as int;
    assert(all.subrange(i, i + needle.len()) =~= needle);
    if text::holds(whole, needle) {
        let k = choose|k: int|
            0 <= k <= whole.len() - needle.len() && #[trigger] whole.subrange(k, k + needle.len())
                == needle;
        let a = whole.take(k);
        let b = whole.skip(k + needle.len());
        assert(whole =~= a + needle + b) by {
            assert forall|j: int| k <= j < k + needle.len() implies whole[j] == needle[j - k] by {
                assert(whole.subrange(k, k + needle.len())[j - k] == whole[j]);
            }
        }
    }
}

/// Capitals from A to Z become the small letter thirty-two places on; every
/// other character stays, and so does the length.
pub proof fn law_lowercase(whole: Seq<char>, i: int)
    requires
        0 <= i < whole.len(),
    ensures
        text::lowercase(whole).len() == whole.len(),
        'A' <= whole[i] <= 'Z' ==> text::lowercase(whole)[i] as int == whole[i] as int + 32,
        !('A' <= whole[i] <= 'Z') ==> text::lowercase(whole)[i] == whole[i],
{
}

/// The number that digits stand for.
pub open spec fn value_of(shown: Seq<char>) -> int
    decreases shown.len(),
{
    if shown.len() == 0 {
        0
    } else {
        10 * value_of(shown.drop_last()) + (shown.last() as int - '0' as int)
    }
}

/// A number is shown by digits that stand for it, without a zero in front.
pub proof fn law_digits_stand_for_the_number(number: nat)
    ensures
        value_of(text::digits(number)) == number,
        forall|i: int|
            0 <= i < text::digits(number).len() ==> '0' <= #[trigger] text::digits(number)[i]
                <= '9',
        text::digits(number).len() > 0,
        number > 0 ==> text::digits(number)[0] != '0',
        text::decimal(number as int) == text::digits(number),
        number > 0 ==> text::decimal(-(number as int)) == seq!['-'] + text::digits(number),
    decreases number,
{
    reveal_strlit("0123456789");
    reveal_strlit("-");
    let lowest = "0123456789"@[(number % 10) as int];
    assert(lowest as int == '0' as int + number % 10);
    if number < 10 {
        assert(seq![lowest].drop_last() =~= Seq::empty());
        assert(value_of(Seq::empty()) == 0);
        assert(text::digits(number) == seq![lowest]);
        assert(seq![lowest].last() == lowest);
    } else {
        law_digits_stand_for_the_number(number / 10);
        let higher = text::digits(number / 10);
        assert(higher.push(lowest).drop_last() =~= higher);
        assert(text::digits(number) == higher.push(lowest));
    }
    if number > 0 {
        assert("-"@ =~= seq!['-']);
    }
}

/// Texts are ordered by the first character in which they differ, and one that
/// begins another comes before it.
pub proof fn law_text_order(
    front: Seq<char>,
    one: char,
    other: char,
    rest: Seq<char>,
    more: Seq<char>,
)
    ensures
        one < other ==> text::text_lt(front + seq![one] + rest, front + seq![other] + more),
        one > other ==> !text::text_lt(front + seq![one] + rest, front + seq![other] + more),
        text::text_lt(front, front + seq![one] + rest),
        !text::text_lt(front + seq![one] + rest, front),
    decreases front.len(),
{
    let (a, b) = (front + seq![one] + rest, front + seq![other] + more);
    if front.len() > 0 {
        law_text_order(front.drop_first(), one, other, rest, more);
        assert(a.drop_first() =~= front.drop_first() + seq![one] + rest);
        assert(b.drop_first() =~= front.drop_first() + seq![other] + more);
        assert(a[0] == front[0] && b[0] == front[0]);
    }
}

/// A text is as long in bytes as its characters are together: one byte for
/// each ASCII character, two, three or four for the others.
pub proof fn law_length_in_bytes(front: Seq<char>, c: char)
    ensures
        text::byte_len(Seq::empty()) == 0,
        text::byte_len(front + seq![c]) == text::byte_len(front) + if c as u32 <= 0x7f {
            1int
        } else if c as u32 <= 0x7ff {
            2
        } else if c as u32 <= 0xffff {
            3
        } else {
            4
        },
{
    text::lemma_byte_len_concat(front, seq![c]);
    assert(seq![c].drop_first() =~= Seq::empty());
    vstd::utf8::char_is_scalar(c);
    reveal_with_fuel(vstd::utf8::encode_utf8, 2);
}

} // verus!
