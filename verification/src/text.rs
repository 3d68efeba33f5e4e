//! String operations with contracts over sequences of characters.

use vstd::prelude::*;

verus! {

/// The views of a sequence's elements.
pub open spec fn views<T: View>(items: Seq<T>) -> Seq<T::V> {
    items.map_values(|item: T| item@)
}

/// The view of an optional value.
pub open spec fn opt_view<T: View>(value: Option<T>) -> Option<T::V> {
    match value {
        Some(inner) => Some(inner@),
        None => None,
    }
}

/// Lexicographic order by code point.
pub open spec fn text_lt(a: Seq<char>, b: Seq<char>) -> bool
    decreases a.len(),
{
    if b.len() == 0 {
        false
    } else if a.len() == 0 {
        true
    } else if a[0] != b[0] {
        (a[0] as int) < (b[0] as int)
    } else {
        text_lt(a.drop_first(), b.drop_first())
    }
}

/// The order is strict: no text comes before itself.
pub proof fn lemma_text_lt_irreflexive(a: Seq<char>)
    ensures
        !text_lt(a, a),
    decreases a.len(),
{
    if a.len() > 0 {
        lemma_text_lt_irreflexive(a.drop_first());
    }
}

/// The order is transitive.
pub proof fn lemma_text_lt_transitive(a: Seq<char>, b: Seq<char>, c: Seq<char>)
    requires
        text_lt(a, b),
        text_lt(b, c),
    ensures
        text_lt(a, c),
    decreases a.len(),
{
    if a.len() > 0 && a[0] == b[0] && b[0] == c[0] {
        lemma_text_lt_transitive(a.drop_first(), b.drop_first(), c.drop_first());
    }
}

/// Of two different texts one comes first.
pub proof fn lemma_text_lt_total(a: Seq<char>, b: Seq<char>)
    ensures
        text_lt(a, b) || text_lt(b, a) || a == b,
    decreases a.len(),
{
    if a.len() > 0 && b.len() > 0 && a[0] == b[0] {
        lemma_text_lt_total(a.drop_first(), b.drop_first());
        if a.drop_first() == b.drop_first() {
            assert(a =~= seq![a[0]] + a.drop_first());
            assert(b =~= seq![b[0]] + b.drop_first());
        }
    } else if a.len() == 0 && b.len() == 0 {
        assert(a =~= b);
    }
}

/// Are the two texts equal?
pub fn same(a: &str, b: &str) -> (equal: bool)
    ensures
        equal == (a@ == b@),
{
    let mut left = a.chars();
    let mut right = b.chars();
    let ghost mut k: int = 0;
    loop
        invariant
            0 <= k <= a@.len(),
            k <= b@.len(),
            vstd::std_specs::iter::IteratorSpec::remaining(&left) == a@.skip(k),
            vstd::std_specs::iter::IteratorSpec::remaining(&right) == b@.skip(k),
            a@.take(k) == b@.take(k),
            vstd::std_specs::iter::IteratorSpec::obeys_prophetic_iter_laws(&left),
            vstd::std_specs::iter::IteratorSpec::obeys_prophetic_iter_laws(&right),
        decreases a@.len() - k,
    {
        match (left.next(), right.next()) {
            (None, None) => {
                assert(a@ =~= a@.take(k));
                assert(b@ =~= b@.take(k));
                return true;
            },
            (Some(c), Some(d)) => {
                if c != d {
                    assert(a@[k] == c && b@[k] == d);
                    return false;
                }
                proof {
                    assert(a@.take(k + 1) =~= a@.take(k).push(c));
                    assert(b@.take(k + 1) =~= b@.take(k).push(c));
                    assert(a@.skip(k).drop_first() =~= a@.skip(k + 1));
                    assert(b@.skip(k).drop_first() =~= b@.skip(k + 1));
                    k = k + 1;
                }
            },
            (None, Some(_)) => {
                assert(a@.len() == k);
                return false;
            },
            (Some(_), None) => {
                return false;
            },
        }
    }
}

/// Does `a` come strictly before `b` in code point order?
pub fn precedes(a: &str, b: &str) -> (before: bool)
    ensures
        before == text_lt(a@, b@),
{
    let mut left = a.chars();
    let mut right = b.chars();
    let ghost mut k: int = 0;
    assert(a@.skip(0) =~= a@);
    assert(b@.skip(0) =~= b@);
    loop
        invariant
            0 <= k <= a@.len(),
            k <= b@.len(),
            vstd::std_specs::iter::IteratorSpec::remaining(&left) == a@.skip(k),
            vstd::std_specs::iter::IteratorSpec::remaining(&right) == b@.skip(k),
            text_lt(a@, b@) == text_lt(a@.skip(k), b@.skip(k)),
            vstd::std_specs::iter::IteratorSpec::obeys_prophetic_iter_laws(&left),
            vstd::std_specs::iter::IteratorSpec::obeys_prophetic_iter_laws(&right),
        decreases a@.len() - k,
    {
        match (left.next(), right.next()) {
            (_, None) => {
                return false;
            },
            (None, Some(_)) => {
                return true;
            },
            (Some(c), Some(d)) => {
                if c != d {
                    return c < d;
                }
                proof {
                    assert(a@.skip(k).drop_first() =~= a@.skip(k + 1));
                    assert(b@.skip(k).drop_first() =~= b@.skip(k + 1));
                    k = k + 1;
                }
            },
        }
    }
}

/// Does `text` start with `prefix`?
pub fn starts_with(text: &str, prefix: &str) -> (found: bool)
    ensures
        found == prefix@.is_prefix_of(text@),
{
    let n: usize = prefix.unicode_len();
    if text.unicode_len() < n {
        return false;
    }
    let head = text.substring_char(0, n);
    let found = same(head, prefix);
    assert(found == prefix@.is_prefix_of(text@)) by {
        if head@ == prefix@ {
            assert(prefix@ =~= text@.subrange(0, n as int));
        }
    }
    found
}

/// Does `text` end with `suffix`?
pub fn ends_with(text: &str, suffix: &str) -> (found: bool)
    ensures
        found == suffix@.is_suffix_of(text@),
{
    let n: usize = suffix.unicode_len();
    let total: usize = text.unicode_len();
    if total < n {
        return false;
    }
    same(text.substring_char(total - n, total), suffix)
}

/// What is left of `text` behind `prefix`, where it starts with it.
pub open spec fn after_prefix(text: Seq<char>, prefix: Seq<char>) -> Option<Seq<char>> {
    if prefix.is_prefix_of(text) {
        Some(text.skip(prefix.len() as int))
    } else {
        None
    }
}

/// Removes `prefix` from the front of `text`, where it stands there.
pub fn strip_prefix(text: &str, prefix: &str) -> (rest: Option<String>)
    ensures
        opt_view(rest) == after_prefix(text@, prefix@),
{
    if starts_with(text, prefix) {
        let n: usize = prefix.unicode_len();
        let total: usize = text.unicode_len();
        Some(text.substring_char(n, total).to_owned())
    } else {
        None
    }
}

/// Does `text` hold the character `wanted`?
pub fn contains_char(text: &str, wanted: char) -> (found: bool)
    ensures
        found == text@.contains(wanted),
{
    let mut found = false;
    for c in it: text.chars()
        invariant
            it.seq() == text@,
            found == text@.take(it.index()).contains(wanted),
    {
        proof {
            let before = text@.take(it.index());
            let after = text@.take(it.index() + 1);
            assert(after =~= before.push(c));
            assert(after.contains(wanted) == (before.contains(wanted) || c == wanted)) by {
                if before.contains(wanted) {
                    let i = before.index_of(wanted);
                    assert(after[i] == wanted);
                }
                if c == wanted {
                    assert(after[it.index()] == wanted);
                }
            }
        }
        if c == wanted {
            found = true;
        }
    }
    assert(text@.take(text@.len() as int) =~= text@);
    found
}

/// The characters of `text`.
pub fn characters(text: &str) -> (list: Vec<char>)
    ensures
        list@ == text@,
{
    let mut list: Vec<char> = Vec::new();
    for c in it: text.chars()
        invariant
            it.seq() == text@,
            list@ == text@.take(it.index()),
    {
        list.push(c);
        assert(text@.take(it.index() + 1) =~= text@.take(it.index()).push(c));
    }
    assert(text@.take(text@.len() as int) =~= text@);
    list
}

/// Two texts one after the other.
pub fn concat(a: &str, b: &str) -> (whole: String)
    ensures
        whole@ == a@ + b@,
{
    let mut whole = a.to_owned();
    whole.append(b);
    whole
}

/// The digits of a number, the highest first.
pub open spec fn digits(number: nat) -> Seq<char>
    decreases number,
{
    let lowest = "0123456789"@[(number % 10) as int];
    if number < 10 {
        seq![lowest]
    } else {
        digits(number / 10).push(lowest)
    }
}

/// A number in decimal.
pub open spec fn decimal(number: int) -> Seq<char> {
    if number < 0 {
        "-"@ + digits((-number) as nat)
    } else {
        digits(number as nat)
    }
}

/// The digits of a number, the highest first.
pub fn write_digits(number: u64) -> (shown: String)
    ensures
        shown@ == digits(number as nat),
    decreases number,
{
    proof {
        reveal_strlit("0123456789");
    }
    let place: usize = (number % 10) as usize;
    let digit = "0123456789".substring_char(place, place + 1);
    assert(digit@ =~= seq!["0123456789"@[place as int]]);
    if number < 10 {
        digit.to_owned()
    } else {
        let mut shown = write_digits(number / 10);
        shown.append(digit);
        shown
    }
}

/// A number in decimal.
pub fn write_decimal(number: i64) -> (shown: String)
    ensures
        shown@ == decimal(number as int),
{
    if number < 0 {
        let size: u64 = (-(number + 1)) as u64 + 1;
        let shown = write_digits(size);
        concat("-", shown.as_str())
    } else {
        write_digits(number as u64)
    }
}

/// The place of the last `/` in `text`, or -1 where there is none.
pub open spec fn last_slash(text: Seq<char>) -> int
    decreases text.len(),
{
    if text.len() == 0 {
        -1
    } else if text.last() == '/' {
        text.len() - 1
    } else {
        last_slash(text.drop_last())
    }
}

/// Where the last slash stands, and that none follows it.
pub proof fn lemma_last_slash(text: Seq<char>)
    ensures
        -1 <= last_slash(text) < text.len(),
        last_slash(text) >= 0 ==> text[last_slash(text)] == '/',
        forall|i: int| last_slash(text) < i < text.len() ==> text[i] != '/',
    decreases text.len(),
{
    if text.len() > 0 && text.last() != '/' {
        lemma_last_slash(text.drop_last());
        let k = last_slash(text.drop_last());
        assert forall|i: int| k < i < text.len() implies text[i] != '/' by {
            if i < text.len() - 1 {
                assert(text[i] == text.drop_last()[i]);
            }
        }
    }
}

/// The position of the last `/`, where there is one.
pub fn find_last_slash(text: &str) -> (place: Option<usize>)
    ensures
        match place {
            Some(i) => last_slash(text@) == i && i < text@.len(),
            None => last_slash(text@) == -1,
        },
{
    let mut place: Option<usize> = None;
    let mut n: usize = 0;
    let total: usize = text.unicode_len();
    for c in it: text.chars()
        invariant
            it.seq() == text@,
            total == text@.len(),
            n == it.index(),
            n <= total,
            match place {
                Some(i) => last_slash(text@.take(it.index())) == i && i < it.index(),
                None => last_slash(text@.take(it.index())) == -1,
            },
    {
        proof {
            let after = text@.take(it.index() + 1);
            assert(after.last() == c);
            assert(after.drop_last() =~= text@.take(it.index()));
        }
        if c == '/' {
            place = Some(n);
        }
        n = n + 1;
    }
    assert(text@.take(text@.len() as int) =~= text@);
    place
}

/// `c` with an ASCII capital made small.
pub open spec fn lower(c: char) -> char {
    if 'A' <= c <= 'Z' {
        ((c as u8) + 32) as char
    } else {
        c
    }
}

/// `text` with every ASCII capital made small.
pub open spec fn lowercase(text: Seq<char>) -> Seq<char> {
    text.map_values(|c: char| lower(c))
}

/// Does `needle` stand anywhere in `text`?
pub open spec fn holds(text: Seq<char>, needle: Seq<char>) -> bool {
    exists|i: int|
        0 <= i <= text.len() - needle.len() && #[trigger] text.subrange(i, i + needle.len())
            == needle
}

/// `text`'s characters with every ASCII capital made small.
pub fn lowercase_characters(text: &str) -> (list: Vec<char>)
    ensures
        list@ == lowercase(text@),
{
    let mut list: Vec<char> = Vec::new();
    for c in it: text.chars()
        invariant
            it.seq() == text@,
            list@ == lowercase(text@.take(it.index())),
    {
        let small: char = if 'A' <= c && c <= 'Z' {
            ((c as u8) + 32) as char
        } else {
            c
        };
        list.push(small);
        assert(lowercase(text@.take(it.index() + 1)) =~= lowercase(text@.take(it.index())).push(
            lower(c),
        ));
    }
    assert(text@.take(text@.len() as int) =~= text@);
    list
}

/// Does `needle` stand anywhere in the characters `hay`?
pub fn holds_text(hay: &Vec<char>, needle: &str) -> (found: bool)
    ensures
        found == holds(hay@, needle@),
{
    let wanted = characters(needle);
    let n: usize = wanted.len();
    let total: usize = hay.len();
    if total < n {
        return false;
    }
    let last: usize = total - n;
    let mut i: usize = 0;
    loop
        invariant
            wanted@ == needle@,
            n == wanted@.len(),
            total == hay@.len(),
            last == total - n,
            i <= last,
            forall|k: int| 0 <= k < i ==> #[trigger] hay@.subrange(k, k + n) != needle@,
        decreases last - i,
    {
        let mut j: usize = 0;
        while j < n && hay[i + j] == wanted[j]
            invariant
                j <= n,
                n == wanted@.len(),
                total == hay@.len(),
                last == total - n,
                i <= last,
                forall|k: int| 0 <= k < j ==> hay@[i + k] == wanted@[k],
            decreases n - j,
        {
            j = j + 1;
        }
        if j == n {
            assert(hay@.subrange(i as int, i + n) =~= needle@);
            return true;
        }
        proof {
            assert(hay@.subrange(i as int, i + n)[j as int] != needle@[j as int]);
        }
        if i == last {
            return false;
        }
        i = i + 1;
    }
}

/// Is `c` white space (the Unicode property White_Space)?
pub open spec fn is_space(c: char) -> bool {
    ||| 0x9 <= c as int <= 0xd
    ||| c as int == 0x20
    ||| c as int == 0x85
    ||| c as int == 0xa0
    ||| c as int == 0x1680
    ||| 0x2000 <= c as int <= 0x200a
    ||| c as int == 0x2028
    ||| c as int == 0x2029
    ||| c as int == 0x202f
    ||| c as int == 0x205f
    ||| c as int == 0x3000
}

/// Is `c` a slash?
pub open spec fn is_slash(c: char) -> bool {
    c == '/'
}

/// `text` without the characters at its front that `unwanted` holds of.
pub open spec fn without_front(text: Seq<char>, unwanted: spec_fn(char) -> bool) -> Seq<char>
    decreases text.len(),
{
    if text.len() > 0 && unwanted(text[0]) {
        without_front(text.drop_first(), unwanted)
    } else {
        text
    }
}

/// `text` without the characters at its end that `unwanted` holds of.
pub open spec fn without_tail(text: Seq<char>, unwanted: spec_fn(char) -> bool) -> Seq<char>
    decreases text.len(),
{
    if text.len() > 0 && unwanted(text.last()) {
        without_tail(text.drop_last(), unwanted)
    } else {
        text
    }
}

/// `text` without white space at either end.
pub open spec fn trimmed(text: Seq<char>) -> Seq<char> {
    without_tail(without_front(text, |c: char| is_space(c)), |c: char| is_space(c))
}

/// `text` without slashes at its front.
pub open spec fn without_front_slashes(text: Seq<char>) -> Seq<char> {
    without_front(text, |c: char| is_slash(c))
}

/// `text` without slashes at its end.
pub open spec fn without_tail_slashes(text: Seq<char>) -> Seq<char> {
    without_tail(text, |c: char| is_slash(c))
}

/// Is `c` white space (the Unicode property White_Space)?
pub fn is_white_space(c: char) -> (space: bool)
    ensures
        space == is_space(c),
{
    ('\u{9}' <= c && c <= '\u{d}') || c == '\u{20}' || c == '\u{85}' || c == '\u{a0}' || c
        == '\u{1680}' || ('\u{2000}' <= c && c <= '\u{200a}') || c == '\u{2028}' || c
        == '\u{2029}' || c == '\u{202f}' || c == '\u{205f}' || c == '\u{3000}'
}

/// Removes white space from both ends.
pub fn trim(text: &str) -> (rest: String)
    ensures
        rest@ == trimmed(text@),
{
    let list = characters(text);
    let ghost space = |c: char| is_space(c);
    let mut from: usize = 0;
    assert(list@.skip(0) =~= list@);
    while from < list.len() && is_white_space(list[from])
        invariant
            from <= list@.len(),
            space == (|c: char| is_space(c)),
            without_front(list@, space) == without_front(list@.skip(from as int), space),
        decreases list@.len() - from,
    {
        assert(list@.skip(from as int).drop_first() =~= list@.skip(from + 1));
        from = from + 1;
    }
    let ghost front = list@.skip(from as int);
    let mut to: usize = list.len();
    assert(list@.subrange(from as int, to as int) =~= front);
    while to > from && is_white_space(list[to - 1])
        invariant
            from <= to <= list@.len(),
            space == (|c: char| is_space(c)),
            without_tail(front, space) == without_tail(
                list@.subrange(from as int, to as int),
                space,
            ),
        decreases to,
    {
        assert(list@.subrange(from as int, to as int).drop_last() =~= list@.subrange(
            from as int,
            to - 1,
        ));
        to = to - 1;
    }
    text.substring_char(from, to).to_owned()
}

/// Removes the slashes at the front.
pub fn trim_front_slashes(text: &str) -> (rest: String)
    ensures
        rest@ == without_front_slashes(text@),
{
    let list = characters(text);
    let ghost slash = |c: char| is_slash(c);
    let mut from: usize = 0;
    assert(list@.skip(0) =~= list@);
    while from < list.len() && list[from] == '/'
        invariant
            from <= list@.len(),
            slash == (|c: char| is_slash(c)),
            without_front(list@, slash) == without_front(list@.skip(from as int), slash),
        decreases list@.len() - from,
    {
        assert(list@.skip(from as int).drop_first() =~= list@.skip(from + 1));
        from = from + 1;
    }
    text.substring_char(from, list.len()).to_owned()
}

/// Removes the slashes at the end.
pub fn trim_tail_slashes(text: &str) -> (rest: String)
    ensures
        rest@ == without_tail_slashes(text@),
{
    let list = characters(text);
    let ghost slash = |c: char| is_slash(c);
    let mut to: usize = list.len();
    assert(list@.take(to as int) =~= list@);
    while to > 0 && list[to - 1] == '/'
        invariant
            to <= list@.len(),
            slash == (|c: char| is_slash(c)),
            without_tail(list@, slash) == without_tail(list@.take(to as int), slash),
        decreases to,
    {
        assert(list@.take(to as int).drop_last() =~= list@.take(to - 1));
        to = to - 1;
    }
    text.substring_char(0, to).to_owned()
}

/// How many characters stand before the first line feed.
pub open spec fn line_length(text: Seq<char>) -> nat
    decreases text.len(),
{
    if text.len() == 0 || text[0] == '\n' {
        0
    } else {
        1 + line_length(text.drop_first())
    }
}

/// A line without the carriage return that stood before its line feed.
pub open spec fn without_return(line: Seq<char>) -> Seq<char> {
    if line.len() > 0 && line.last() == '\r' {
        line.drop_last()
    } else {
        line
    }
}

/// The lines of `text`: each ends at a line feed, or at the end of the text
/// where something stands behind the last line feed.
pub open spec fn lines(text: Seq<char>) -> Seq<Seq<char>>
    decreases text.len(),
{
    if text.len() == 0 {
        Seq::empty()
    } else if line_length(text) >= text.len() {
        seq![text]
    } else {
        seq![without_return(text.take(line_length(text) as int))] + lines(
            text.skip(line_length(text) as int + 1),
        )
    }
}

proof fn lemma_line_length(text: Seq<char>, n: int)
    requires
        0 <= n <= text.len(),
        forall|i: int| 0 <= i < n ==> text[i] != '\n',
        n < text.len() ==> text[n] == '\n',
    ensures
        line_length(text) == n,
    decreases n,
{
    if n > 0 {
        assert forall|i: int| 0 <= i < n - 1 implies text.drop_first()[i] != '\n' by {
            assert(text.drop_first()[i] == text[i + 1]);
        }
        lemma_line_length(text.drop_first(), n - 1);
    }
}

/// Splits `text` into its lines.
pub fn split_lines(text: &str) -> (list: Vec<String>)
    ensures
        views(list@) == lines(text@),
{
    let chars = characters(text);
    let total: usize = chars.len();
    let mut list: Vec<String> = Vec::new();
    let mut start: usize = 0;
    let mut i: usize = 0;
    assert(chars@.skip(0) =~= chars@);
    assert(views(list@) + lines(text@) =~= lines(text@));
    while i < total
        invariant
            chars@ == text@,
            total == chars@.len(),
            start <= i <= total,
            forall|k: int| start <= k < i ==> chars@[k] != '\n',
            lines(text@) == views(list@) + lines(chars@.skip(start as int)),
        decreases total - i,
    {
        if chars[i] == '\n' {
            let ghost rest = chars@.skip(start as int);
            let ghost before = views(list@);
            proof {
                lemma_line_length(rest, i - start);
                assert(rest.skip(i - start + 1) =~= chars@.skip(i + 1));
                assert(rest.take(i - start) =~= chars@.subrange(start as int, i as int));
            }
            let end: usize = if i > start && chars[i - 1] == '\r' { i - 1 } else { i };
            let line = text.substring_char(start, end).to_owned();
            assert(line@ =~= without_return(rest.take(i - start)));
            list.push(line);
            assert(views(list@) =~= before.push(line@));
            start = i + 1;
            assert(before + (seq![line@] + lines(chars@.skip(start as int))) =~= views(list@)
                + lines(chars@.skip(start as int)));
        }
        i = i + 1;
    }
    let ghost rest = chars@.skip(start as int);
    let ghost before = views(list@);
    if start < total {
        proof {
            lemma_line_length(rest, total - start);
        }
        let line = text.substring_char(start, total).to_owned();
        assert(line@ =~= rest);
        list.push(line);
        assert(views(list@) =~= before + seq![line@]);
    } else {
        assert(views(list@) =~= before + lines(rest));
    }
    list
}

/// The number of bytes of `text` in UTF-8.
pub open spec fn byte_len(text: Seq<char>) -> nat {
    vstd::utf8::encode_utf8(text).len()
}

/// Lengths in bytes add up.
pub proof fn lemma_byte_len_concat(a: Seq<char>, b: Seq<char>)
    ensures
        byte_len(a + b) == byte_len(a) + byte_len(b),
    decreases a.len(),
{
    if a.len() == 0 {
        assert(a + b =~= b);
    } else {
        assert((a + b).drop_first() =~= a.drop_first() + b);
        lemma_byte_len_concat(a.drop_first(), b);
    }
}

/// The number of bytes of `text` in UTF-8.
pub fn byte_length(text: &str) -> (count: u128)
    ensures
        count == byte_len(text@),
{
    let mut count: u128 = 0;
    let total: usize = text.unicode_len();
    assert(text@.skip(0) =~= text@);
    for c in it: text.chars()
        invariant
            it.seq() == text@,
            total == text@.len(),
            count <= 4 * it.index(),
            byte_len(text@) == count + byte_len(text@.skip(it.index())),
    {
        proof {
            assert(text@.skip(it.index())[0] == c);
            assert(text@.skip(it.index()).drop_first() =~= text@.skip(it.index() + 1));
        }
        let code: u32 = c as u32;
        proof {
            vstd::utf8::char_is_scalar(c);
        }
        let width: u128 = if code <= 0x7f {
            1
        } else if code <= 0x7ff {
            2
        } else if code <= 0xffff {
            3
        } else {
            4
        };
        assert(width == vstd::utf8::encode_scalar(c as u32).len());
        count = count + width;
    }
    count
}

} // verus!
