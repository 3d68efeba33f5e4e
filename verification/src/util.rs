//! Small path helpers. Environment variables come in as arguments.

use vstd::prelude::*;
use vstd::string::*;

use crate::text;
use crate::text::{concat, strip_prefix};

verus! {

/// `dir` with the home directory at its front shown as `~`.
pub open spec fn home_shown(dir: Seq<char>, home: Option<Seq<char>>) -> Seq<char> {
    match home {
        Some(home) => match text::after_prefix(dir, home) {
            Some(rest) => "~"@ + rest,
            None => dir,
        },
        None => dir,
    }
}

/// Replaces the user's home-directory prefix with `~` for friendlier UI
/// paths. `home` is the value of `$HOME`, empty where it is not valid
/// Unicode; without one the raw path is the answer.
pub fn fmt_home(dir: &str, home: Option<String>) -> (shown: String)
    ensures
        shown@ == home_shown(dir@, text::opt_view(home)),
{
    match home {
        Some(home) => match strip_prefix(dir, home.as_str()) {
            Some(rest) => concat("~", rest.as_str()),
            None => dir.to_owned(),
        },
        None => dir.to_owned(),
    }
}

/// `text` without one slash at its front and one at its end.
pub open spec fn slashes_stripped(text: Seq<char>) -> Seq<char> {
    let front = if text.len() > 0 && text[0] == '/' {
        text.drop_first()
    } else {
        text
    };
    if front.len() > 0 && front.last() == '/' {
        front.drop_last()
    } else {
        front
    }
}

/// Trims at most one leading and one trailing slash.
pub fn strip_slashes(string: &str) -> (stripped: String)
    ensures
        stripped@ == slashes_stripped(string@),
{
    let total: usize = string.unicode_len();
    let from: usize = if total > 0 && string.get_char(0) == '/' { 1 } else { 0 };
    let to: usize = if total > from && string.get_char(total - 1) == '/' {
        total - 1
    } else {
        total
    };
    let stripped = string.substring_char(from, to).to_owned();
    stripped
}

/// A path in bytes with one more component behind it.
pub open spec fn pushed(base: Seq<u8>, component: Seq<u8>) -> Seq<u8> {
    if base.len() == 0 || base.last() == 0x2f {
        base + component
    } else {
        base.push(0x2f) + component
    }
}

/// Puts one component behind a path, both in bytes. The component is a
/// relative one.
fn push_component(base: &mut Vec<u8>, component: &str)
    ensures
        final(base)@ == pushed(old(base)@, component.spec_bytes()),
{
    let n: usize = base.len();
    if n > 0 && base[n - 1] != 0x2f {
        base.push(0x2f);
    }
    let bytes = component.as_bytes();
    let ghost start = base@;
    let count: usize = bytes.len();
    let mut i: usize = 0;
    while i < count
        invariant
            count == bytes@.len(),
            i <= count,
            base@ == start + bytes@.take(i as int),
        decreases count - i,
    {
        base.push(bytes[i]);
        i = i + 1;
    }
}

/// The variable's value, where it is set and not empty.
pub open spec fn set_value(value: Option<Vec<u8>>) -> Option<Seq<u8>> {
    match value {
        Some(path) => if path@.len() > 0 {
            Some(path@)
        } else {
            None
        },
        None => None,
    }
}

/// The value of `$HOME`, empty where it is not set.
pub open spec fn home_or_empty(home: Option<Vec<u8>>) -> Seq<u8> {
    match home {
        Some(path) => path@,
        None => Seq::empty(),
    }
}

/// `${XDG_DATA_HOME:-$HOME/.local/share}/celeste`, as bytes.
///
/// The database and the remote configuration count as state, not as
/// human-edited configuration, so they belong under `$XDG_DATA_HOME`.
pub fn get_data_dir(xdg_data_home: Option<Vec<u8>>, home: Option<Vec<u8>>) -> (dir: Vec<u8>)
    ensures
        dir@ == pushed(
            match set_value(xdg_data_home) {
                Some(path) => path,
                None => pushed(
                    pushed(home_or_empty(home), ".local".spec_bytes()),
                    "share".spec_bytes(),
                ),
            },
            "celeste".spec_bytes(),
        ),
{
    match xdg_data_home {
        Some(path) => {
            if path.len() > 0 {
                let mut base = path;
                push_component(&mut base, "celeste");
                return base;
            }
        },
        None => {},
    }
    let mut base = match home {
        Some(path) => path,
        None => Vec::new(),
    };
    push_component(&mut base, ".local");
    push_component(&mut base, "share");
    push_component(&mut base, "celeste");
    base
}

/// Legacy `${XDG_CONFIG_HOME:-$HOME/.config}/celeste` location, as bytes.
pub fn get_legacy_config_dir(xdg_config_home: Option<Vec<u8>>, home: Option<Vec<u8>>) -> (dir:
    Vec<u8>)
    ensures
        dir@ == pushed(
            match set_value(xdg_config_home) {
                Some(path) => path,
                None => pushed(home_or_empty(home), ".config".spec_bytes()),
            },
            "celeste".spec_bytes(),
        ),
{
    match xdg_config_home {
        Some(path) => {
            if path.len() > 0 {
                let mut base = path;
                push_component(&mut base, "celeste");
                return base;
            }
        },
        None => {},
    }
    let mut base = match home {
        Some(path) => path,
        None => Vec::new(),
    };
    push_component(&mut base, ".config");
    push_component(&mut base, "celeste");
    base
}

/// `$XDG_RUNTIME_DIR/celeste`, as bytes, or `None` when the variable is unset
/// or empty.
pub fn get_runtime_dir(xdg_runtime_dir: Option<Vec<u8>>) -> (dir: Option<Vec<u8>>)
    ensures
        text::opt_view(dir) == match set_value(xdg_runtime_dir) {
            Some(path) => Some(pushed(path, "celeste".spec_bytes())),
            None => None,
        },
{
    match xdg_runtime_dir {
        Some(path) => {
            if path.len() > 0 {
                let mut base = path;
                push_component(&mut base, "celeste");
                return Some(base);
            }
            None
        },
        None => None,
    }
}

/// The home directory at the front of a path is shown as a tilde; a path that
/// does not begin with it is shown as it is, and so is any path where the home
/// directory is not known.
pub proof fn law_home_is_shown_as_a_tilde(home: Seq<char>, rest: Seq<char>, dir: Seq<char>)
    ensures
        home_shown(home + rest, Some(home)) == seq!['~'] + rest,
        !home.is_prefix_of(dir) ==> home_shown(dir, Some(home)) == dir,
        home_shown(dir, None) == dir,
{
    reveal_strlit("~");
    assert("~"@ =~= seq!['~']);
    assert((home + rest).subrange(0, home.len() as int) =~= home);
    assert((home + rest).skip(home.len() as int) =~= rest);
}

/// One slash at either end is taken off, a second one stays.
pub proof fn law_one_slash_is_stripped(inner: Seq<char>)
    requires
        inner.len() > 0,
    ensures
        slashes_stripped(seq!['/'] + inner + seq!['/']) == inner,
        inner[0] != '/' && inner.last() != '/' ==> slashes_stripped(inner) == inner
            && slashes_stripped(seq!['/'] + inner) == inner && slashes_stripped(inner + seq!['/'])
            == inner,
{
    assert((seq!['/'] + inner + seq!['/']).drop_first() =~= inner + seq!['/']);
    assert((inner + seq!['/']).drop_last() =~= inner);
    assert((seq!['/'] + inner).drop_first() =~= inner);
}

/// Between a path and a component stands exactly one slash.
pub proof fn law_components_are_parted_by_one_slash(base: Seq<u8>, component: Seq<u8>)
    ensures
        pushed(Seq::empty(), component) == component,
        base.len() > 0 && base.last() != 0x2f ==> pushed(base, component) == base + seq![0x2fu8]
            + component,
        pushed(base + seq![0x2fu8], component) == base + seq![0x2fu8] + component,
{
    assert(Seq::empty() + component =~= component);
    assert(base.push(0x2f) =~= base + seq![0x2fu8]);
}

/// A variable that is not set, or set to nothing, has no value.
pub proof fn law_empty_variables_count_as_unset(value: Vec<u8>)
    ensures
        set_value(None) is None,
        value@.len() == 0 ==> set_value(Some(value)) is None,
        value@.len() > 0 ==> set_value(Some(value)) == Some(value@),
        home_or_empty(Some(value)) == value@,
        home_or_empty(None).len() == 0,
{
}

} // verus!
