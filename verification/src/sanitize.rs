//! File names that are safe to show and to store.

use crate::text::{chars_of, string_of, trim_chars, trimmed};
use vstd::prelude::*;
use vstd::string::*;

verus! {

/// Longest path component that is kept, in characters.
pub const MAX_COMPONENT_CHARS: usize = 255;

/// Most components that a path keeps.
pub const MAX_PATH_DEPTH: usize = 100;

/// What `char::is_alphanumeric` answers for a character.
pub uninterp spec fn alphanumeric_char(c: char) -> bool;

/// Calls `char::is_alphanumeric`; the answer is named by
/// [`alphanumeric_char`].
#[verifier::external_body]
pub(crate) fn is_alphanumeric(c: char) -> (r: bool)
    ensures
        r == alphanumeric_char(c),
{
    c.is_alphanumeric()
}

/// What `char::is_control` answers for a character.
pub uninterp spec fn control_char(c: char) -> bool;

/// Calls `char::is_control`; the answer is named by [`control_char`].
#[verifier::external_body]
pub(crate) fn is_control(c: char) -> (r: bool)
    ensures
        r == control_char(c),
{
    c.is_control()
}

/// A punctuation character that may stand in a path component.
pub open spec fn safe_punctuation(c: char) -> bool {
    c == ' ' || c == '.' || c == '-' || c == '_' || c == '(' || c == ')' || c == '[' || c == ']'
        || c == '&' || c == '#' || c == '@' || c == '!' || c == '%' || c == '+' || c == '='
}

/// Whether a character is kept in a path component, given whether it is
/// alphanumeric.
pub fn keeps_char(c: char, alphanumeric: bool) -> (r: bool)
    ensures
        r == (alphanumeric || safe_punctuation(c)),
{
    alphanumeric || c == ' ' || c == '.' || c == '-' || c == '_' || c == '(' || c == ')' || c
        == '[' || c == ']' || c == '&' || c == '#' || c == '@' || c == '!' || c == '%' || c == '+'
        || c == '='
}

/// The characters of `s` that may stand in a path component, in order.
pub open spec fn kept_chars(s: Seq<char>) -> Seq<char>
    decreases s.len(),
{
    if s.len() == 0 {
        Seq::empty()
    } else if alphanumeric_char(s.last()) || safe_punctuation(s.last()) {
        kept_chars(s.drop_last()).push(s.last())
    } else {
        kept_chars(s.drop_last())
    }
}

/// The first `n` items of `s`, or all of `s` where it has fewer.
pub open spec fn capped<T>(s: Seq<T>, n: nat) -> Seq<T> {
    if s.len() <= n {
        s
    } else {
        s.take(n as int)
    }
}

/// A path component made safe: the characters that may stand in one, at
/// most [`MAX_COMPONENT_CHARS`] of them, without surrounding whitespace.
pub open spec fn safe_component(s: Seq<char>) -> Seq<char> {
    trimmed(capped(kept_chars(s), MAX_COMPONENT_CHARS as nat))
}

fn sanitize_component_chars(chars: &Vec<char>, from: usize, to: usize) -> (out: Vec<char>)
    requires
        from <= to <= chars.len(),
    ensures
        out@ == safe_component(chars@.subrange(from as int, to as int)),
{
    let ghost s = chars@.subrange(from as int, to as int);
    let mut kept: Vec<char> = Vec::new();
    let mut i: usize = from;
    while i < to
        invariant
            from <= i <= to <= chars.len(),
            s == chars@.subrange(from as int, to as int),
            kept.len() <= MAX_COMPONENT_CHARS,
            kept@ == capped(kept_chars(s.take(i - from)), MAX_COMPONENT_CHARS as nat),
        decreases to - i,
    {
        let c = chars[i];
        let ghost before = s.take(i - from);
        let ghost after = s.take(i - from + 1);
        proof {
            assert(after.drop_last() =~= before);
        }
        let keep = keeps_char(c, is_alphanumeric(c));
        if keep && kept.len() < MAX_COMPONENT_CHARS {
            kept.push(c);
        }
        i += 1;
    }
    proof {
        assert(s.take(to - from) =~= s);
    }
    trim_chars(&kept)
}

/// Makes one path component safe: keeps letters, digits and a few
/// punctuation characters, at most [`MAX_COMPONENT_CHARS`] of them, and
/// removes surrounding whitespace.
pub fn sanitize_path_component(component: &str) -> (out: String)
    ensures
        out@ == safe_component(component@),
{
    let chars = chars_of(component);
    assert(chars@.subrange(0, chars@.len() as int) =~= chars@);
    let out = sanitize_component_chars(&chars, 0, chars.len());
    string_of(out.as_slice())
}

/// A character that may not stand in a file name.
pub open spec fn reserved_char(c: char) -> bool {
    c == '/' || c == '\\' || c == ':' || c == '*' || c == '?' || c == '"' || c == '<' || c == '>'
        || c == '|'
}

/// What a character of a file name becomes, given whether it is a control
/// character: `_` in place of a reserved or control character.
pub fn fs_char(c: char, control: bool) -> (r: char)
    ensures
        r == if reserved_char(c) || control {
            '_'
        } else {
            c
        },
{
    if c == '/' || c == '\\' || c == ':' || c == '*' || c == '?' || c == '"' || c == '<' || c
        == '>' || c == '|' || control {
        '_'
    } else {
        c
    }
}

/// A file name with every reserved or control character replaced by `_`,
/// without surrounding whitespace.
pub open spec fn safe_fs_name(s: Seq<char>) -> Seq<char> {
    trimmed(
        s.map_values(
            |c: char|
                if reserved_char(c) || control_char(c) {
                    '_'
                } else {
                    c
                },
        ),
    )
}

/// Makes a file name safe: replaces every reserved or control character by
/// `_` and removes surrounding whitespace.
pub fn sanitize_fs_name(s: &str) -> (out: String)
    ensures
        out@ == safe_fs_name(s@),
{
    let chars = chars_of(s);
    let mut mapped: Vec<char> = Vec::new();
    let mut i: usize = 0;
    let ghost f = |c: char|
        if reserved_char(c) || control_char(c) {
            '_'
        } else {
            c
        };
    while i < chars.len()
        invariant
            i <= chars.len(),
            mapped@ == chars@.take(i as int).map_values(f),
            f == |c: char|
                if reserved_char(c) || control_char(c) {
                    '_'
                } else {
                    c
                },
        decreases chars.len() - i,
    {
        let c = chars[i];
        mapped.push(fs_char(c, is_control(c)));
        i += 1;
    }
    assert(chars@.take(chars.len() as int) =~= chars@);
    let out = trim_chars(&mapped);
    string_of(out.as_slice())
}

/// A character that separates the components of a path.
pub open spec fn separator(c: char) -> bool {
    c == '/' || c == '\\'
}

/// The component of `s` that starts at index `from`: it runs up to the
/// next separator or to the end.
pub open spec fn segment_end(s: Seq<char>, from: int) -> int
    decreases s.len() - from,
{
    if from < 0 || from >= s.len() || separator(s[from]) {
        from
    } else {
        segment_end(s, from + 1)
    }
}

/// What one segment of a path contributes: nothing where it is empty, `.`
/// or `..`, or where nothing is left of it once it is made safe.
pub open spec fn segment_component(seg: Seq<char>) -> Seq<Seq<char>> {
    if seg.len() == 0 || seg == seq!['.'] || seg == seq!['.', '.'] || safe_component(seg).len()
        == 0 {
        Seq::empty()
    } else {
        seq![safe_component(seg)]
    }
}

/// The safe components of the segments of `s` from index `from` on.
pub open spec fn components_from(s: Seq<char>, from: int) -> Seq<Seq<char>>
    decreases s.len() - from + 1,
{
    if from < 0 || from > s.len() {
        Seq::empty()
    } else {
        let end = segment_end(s, from);
        if from <= end < s.len() {
            segment_component(s.subrange(from, end)) + components_from(s, end + 1)
        } else {
            segment_component(s.subrange(from, s.len() as int))
        }
    }
}

/// The components of a file path: its segments made safe, at most
/// [`MAX_PATH_DEPTH`] of them, or the single component `file` where none
/// is left.
pub open spec fn path_components(name: Seq<char>) -> Seq<Seq<char>> {
    let all = capped(components_from(name, 0), MAX_PATH_DEPTH as nat);
    if all.len() == 0 {
        seq!["file"@]
    } else {
        all
    }
}

/// Splits a file path at `/` and `\` into safe components.
pub fn split_path_components(name: &str) -> (out: Vec<String>)
    ensures
        crate::text::texts(out@) == path_components(name@),
{
    let chars = chars_of(name);
    let n = chars.len();
    let mut out: Vec<String> = Vec::new();
    let mut from: usize = 0;
    let ghost mut all: Seq<Seq<char>> = Seq::empty();
    loop
        invariant_except_break
            from <= n,
            n == chars.len(),
            chars@ == name@,
            out.len() <= MAX_PATH_DEPTH,
            crate::text::texts(out@) == capped(all, MAX_PATH_DEPTH as nat),
            all + components_from(chars@, from as int) == components_from(chars@, 0),
        ensures
            chars@ == name@,
            crate::text::texts(out@) == capped(components_from(chars@, 0), MAX_PATH_DEPTH as nat),
        decreases n - from,
    {
        let mut end = from;
        while end < n && !(chars[end] == '/' || chars[end] == '\\')
            invariant
                from <= end <= n,
                n == chars.len(),
                segment_end(chars@, from as int) == segment_end(chars@, end as int),
            decreases n - end,
        {
            end += 1;
        }
        let ghost seg = chars@.subrange(from as int, end as int);
        let ghost old_all = all;
        let len = end - from;
        let dot = len == 1 && chars[from] == '.';
        let dots = len == 2 && chars[from] == '.' && chars[from + 1] == '.';
        proof {
            if dot {
                assert(seg =~= seq!['.']);
            }
            if dots {
                assert(seg =~= seq!['.', '.']);
            }
        }
        if len > 0 && !dot && !dots {
            let safe = sanitize_component_chars(&chars, from, end);
            if safe.len() > 0 {
                proof {
                    all = all.push(safe@);
                }
                if out.len() < MAX_PATH_DEPTH {
                    out.push(string_of(safe.as_slice()));
                }
            }
        }
        proof {
            if old_all.len() >= MAX_PATH_DEPTH {
                assert(all.take(MAX_PATH_DEPTH as int) =~= old_all.take(MAX_PATH_DEPTH as int));
            }
        }
        if end >= n {
            break ;
        }
        from = end + 1;
    }
    if out.len() == 0 {
        out.push("file".to_owned());
    }
    out
}

} // verus!
