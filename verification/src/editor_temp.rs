//! Editor and toolchain temp-file patterns that should never touch the
//! remote. Syncing these is always wrong: the file lives for seconds, then
//! the editor deletes it, and the sync layer ends up with half-uploaded
//! files, spurious "object not found" errors, and rows that provoke later
//! mirror-delete passes.

use vstd::prelude::*;

use crate::text::{ends_with, starts_with};

verus! {

/// The names that editors and browsers give to files they will remove again.
pub open spec fn editor_temp(name: Seq<char>) -> bool {
    // Kate swap.
    ||| ".kate-swp"@.is_suffix_of(name)
    // Vim swap files.
    ||| "."@.is_prefix_of(name) && (".swp"@.is_suffix_of(name) || ".swo"@.is_suffix_of(name)
        || ".swn"@.is_suffix_of(name))
    // Emacs lock symlinks and autosave.
    ||| ".#"@.is_prefix_of(name)
    ||| "#"@.is_prefix_of(name) && "#"@.is_suffix_of(name)
    // Generic backup.
    ||| "~"@.is_suffix_of(name)
    // GIO/Nautilus copy staging.
    ||| ".goutputstream-"@.is_prefix_of(name)
    // Browser partial downloads.
    ||| ".crdownload"@.is_suffix_of(name)
    ||| ".part"@.is_suffix_of(name)
}

/// Is `name` the name of a temp file that is never synced?
pub fn is_editor_temp(name: &str) -> (temp: bool)
    ensures
        temp == editor_temp(name@),
{
    if ends_with(name, ".kate-swp") {
        return true;
    }
    if starts_with(name, ".") && (ends_with(name, ".swp") || ends_with(name, ".swo") || ends_with(
        name,
        ".swn",
    )) {
        return true;
    }
    if starts_with(name, ".#") {
        return true;
    }
    if starts_with(name, "#") && ends_with(name, "#") {
        return true;
    }
    if ends_with(name, "~") {
        return true;
    }
    if starts_with(name, ".goutputstream-") {
        return true;
    }
    ends_with(name, ".crdownload") || ends_with(name, ".part")
}

/// Whatever stands before or behind them, the endings and beginnings of temp
/// files make a temp file.
pub proof fn law_temp_names(stem: Seq<char>)
    ensures
        editor_temp(stem + ".kate-swp"@),
        editor_temp("."@ + stem + ".swp"@),
        editor_temp("."@ + stem + ".swo"@),
        editor_temp("."@ + stem + ".swn"@),
        editor_temp(".#"@ + stem),
        editor_temp("#"@ + stem + "#"@),
        editor_temp(stem + "~"@),
        editor_temp(".goutputstream-"@ + stem),
        editor_temp(stem + ".crdownload"@),
        editor_temp(stem + ".part"@),
{
    lemma_ends(stem, ".kate-swp"@);
    lemma_ends("."@ + stem, ".swp"@);
    lemma_ends("."@ + stem, ".swo"@);
    lemma_ends("."@ + stem, ".swn"@);
    assert("."@ + stem + ".swp"@ =~= "."@ + (stem + ".swp"@));
    assert("."@ + stem + ".swo"@ =~= "."@ + (stem + ".swo"@));
    assert("."@ + stem + ".swn"@ =~= "."@ + (stem + ".swn"@));
    lemma_begins("."@, stem + ".swp"@);
    lemma_begins("."@, stem + ".swo"@);
    lemma_begins("."@, stem + ".swn"@);
    lemma_begins(".#"@, stem);
    assert("#"@ + stem + "#"@ =~= "#"@ + (stem + "#"@));
    lemma_begins("#"@, stem + "#"@);
    lemma_ends("#"@ + stem, "#"@);
    lemma_ends(stem, "~"@);
    lemma_begins(".goutputstream-"@, stem);
    lemma_ends(stem, ".crdownload"@);
    lemma_ends(stem, ".part"@);
}

proof fn lemma_begins(front: Seq<char>, rest: Seq<char>)
    ensures
        front.is_prefix_of(front + rest),
{
    assert((front + rest).subrange(0, front.len() as int) =~= front);
}

proof fn lemma_ends(rest: Seq<char>, tail: Seq<char>)
    ensures
        tail.is_suffix_of(rest + tail),
{
    let whole = rest + tail;
    assert(whole.subrange(whole.len() - tail.len(), whole.len() as int) =~= tail);
}

/// A name is no temp file's where it begins with neither a dot nor a hash and
/// ends in none of the letters of the endings, nor in a tilde.
pub proof fn law_ordinary_names(name: Seq<char>)
    requires
        name.len() > 0,
        name[0] != '.',
        name[0] != '#',
        name.last() != 'p',
        name.last() != 'd',
        name.last() != 't',
        name.last() != '~',
    ensures
        !editor_temp(name),
{
    reveal_strlit(".kate-swp");
    reveal_strlit(".");
    reveal_strlit(".#");
    reveal_strlit("#");
    reveal_strlit("~");
    reveal_strlit(".goutputstream-");
    reveal_strlit(".crdownload");
    reveal_strlit(".part");
    lemma_same_end(name, ".kate-swp"@);
    lemma_same_end(name, "~"@);
    lemma_same_end(name, ".crdownload"@);
    lemma_same_end(name, ".part"@);
    lemma_same_start(name, "."@);
    lemma_same_start(name, ".#"@);
    lemma_same_start(name, "#"@);
    lemma_same_start(name, ".goutputstream-"@);
}

proof fn lemma_same_end(name: Seq<char>, tail: Seq<char>)
    requires
        tail.len() > 0,
    ensures
        tail.is_suffix_of(name) ==> name.last() == tail.last(),
{
    if tail.is_suffix_of(name) {
        let ending = name.subrange(name.len() - tail.len(), name.len() as int);
        assert(ending.last() == name.last());
    }
}

proof fn lemma_same_start(name: Seq<char>, front: Seq<char>)
    requires
        front.len() > 0,
    ensures
        front.is_prefix_of(name) ==> name[0] == front[0],
{
    if front.is_prefix_of(name) {
        assert(name.subrange(0, front.len() as int)[0] == name[0]);
    }
}

/// What is left of a name before an ending of `n` characters.
spec fn before_end(name: Seq<char>, n: nat) -> Seq<char> {
    name.take(name.len() - n)
}

proof fn lemma_split_end(name: Seq<char>, tail: Seq<char>)
    requires
        tail.is_suffix_of(name),
    ensures
        name == before_end(name, tail.len()) + tail,
{
    let ending = name.subrange(name.len() - tail.len(), name.len() as int);
    assert(name =~= before_end(name, tail.len()) + ending);
}

proof fn lemma_split_start(name: Seq<char>, front: Seq<char>)
    requires
        front.is_prefix_of(name),
    ensures
        name == front + name.skip(front.len() as int),
{
    assert(name =~= name.subrange(0, front.len() as int) + name.skip(front.len() as int));
}

/// A temp file's name has one of the known beginnings or endings: nothing else
/// is taken for one.
pub proof fn law_only_temp_names(name: Seq<char>)
    requires
        editor_temp(name),
    ensures
        ends_like(name, ".kate-swp"@) || ends_like(name, "~"@) || ends_like(name, ".crdownload"@)
            || ends_like(name, ".part"@) || begins_like(name, ".#"@) || begins_like(
            name,
            ".goutputstream-"@,
        ) || (begins_like(name, "#"@) && ends_like(name, "#"@)) || (begins_like(name, "."@) && (
        ends_like(name, ".swp"@) || ends_like(name, ".swo"@) || ends_like(name, ".swn"@))),
{
    lemma_likeness(name, ".kate-swp"@);
    lemma_likeness(name, "~"@);
    lemma_likeness(name, ".crdownload"@);
    lemma_likeness(name, ".part"@);
    lemma_likeness(name, ".#"@);
    lemma_likeness(name, ".goutputstream-"@);
    lemma_likeness(name, "#"@);
    lemma_likeness(name, "."@);
    lemma_likeness(name, ".swp"@);
    lemma_likeness(name, ".swo"@);
    lemma_likeness(name, ".swn"@);
}

/// The name is something and then `tail`.
pub open spec fn ends_like(name: Seq<char>, tail: Seq<char>) -> bool {
    exists|stem: Seq<char>| name == #[trigger] (stem + tail)
}

/// The name is `front` and then something.
pub open spec fn begins_like(name: Seq<char>, front: Seq<char>) -> bool {
    exists|stem: Seq<char>| name == #[trigger] (front + stem)
}

proof fn lemma_likeness(name: Seq<char>, part: Seq<char>)
    ensures
        part.is_suffix_of(name) ==> ends_like(name, part),
        part.is_prefix_of(name) ==> begins_like(name, part),
{
    if part.is_suffix_of(name) {
        lemma_split_end(name, part);
    }
    if part.is_prefix_of(name) {
        lemma_split_start(name, part);
    }
}

} // verus!
