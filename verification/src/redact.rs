//! What of a failure is shown to a client.
//!
//! A message leaves the daemon as one line, without the paths of the
//! user's directories, without anything that looks like a credential, and
//! cut to a bounded length.

use crate::text::{
    chars_of, contains_text, lowercased, string_of, text_contains, to_lowercase,
};
use vstd::prelude::*;
use vstd::string::*;

verus! {

/// Most characters of a message that are shown.
pub const MAX_MESSAGE_CHARS: usize = 200;

/// A text that is replaced wherever it stands in a message, and the tag
/// that takes its place.
#[derive(Debug)]
pub struct Redaction {
    pub needle: String,
    pub tag: String,
}

/// Where the first line of a text ends: at the first line feed, or at the
/// end of the text.
pub open spec fn line_end(s: Seq<char>, from: int) -> int
    decreases s.len() - from,
{
    if from < 0 || from >= s.len() || s[from] == '\n' {
        from
    } else {
        line_end(s, from + 1)
    }
}

/// The first line of a text, without the carriage return that may end it.
pub open spec fn first_line(s: Seq<char>) -> Seq<char> {
    let end = line_end(s, 0);
    if 0 < end <= s.len() && s[end - 1] == '\r' {
        s.take(end - 1)
    } else if 0 <= end <= s.len() {
        s.take(end)
    } else {
        s
    }
}

/// `needle` stands in `s` at index `k`.
pub open spec fn stands_at(s: Seq<char>, needle: Seq<char>, k: int) -> bool {
    0 <= k && k + needle.len() <= s.len() && s.subrange(k, k + needle.len()) == needle
}

/// The text from index `from` on with `tag` in place of every occurrence
/// of `needle`, from left to right; occurrences do not overlap.
pub open spec fn replaced(s: Seq<char>, needle: Seq<char>, tag: Seq<char>, from: int) -> Seq<char>
    decreases s.len() - from,
{
    if from < 0 || from >= s.len() {
        Seq::empty()
    } else if needle.len() > 0 && stands_at(s, needle, from) {
        tag + replaced(s, needle, tag, from + needle.len())
    } else {
        seq![s[from]] + replaced(s, needle, tag, from + 1)
    }
}

/// The text with every redaction applied, one after the other.
pub open spec fn redacted(s: Seq<char>, redactions: Seq<Redaction>) -> Seq<char>
    decreases redactions.len(),
{
    if redactions.len() == 0 {
        s
    } else {
        replaced(
            redacted(s, redactions.drop_last()),
            redactions.last().needle@,
            redactions.last().tag@,
            0,
        )
    }
}

/// A text that seems to speak of a credential: in lower case it holds
/// `token` or `secret`.
pub open spec fn looks_sensitive(s: Seq<char>) -> bool {
    contains_text(lowercased(s), "token"@) || contains_text(lowercased(s), "secret"@)
}

/// What is shown of a message: its first line with every redaction
/// applied; a fixed text in its place where it looks sensitive; and, where
/// it is longer than [`MAX_MESSAGE_CHARS`] characters, its first
/// [`MAX_MESSAGE_CHARS`] characters and an ellipsis.
pub open spec fn shown_message(message: Seq<char>, redactions: Seq<Redaction>) -> Seq<char> {
    let line = redacted(first_line(message), redactions);
    let safe = if looks_sensitive(line) {
        "An error occurred"@
    } else {
        line
    };
    if safe.len() > MAX_MESSAGE_CHARS {
        safe.take(MAX_MESSAGE_CHARS as int) + "..."@
    } else {
        safe
    }
}

/// Tells whether `needle` stands in `s` at index `k`.
fn stands(s: &Vec<char>, needle: &Vec<char>, k: usize) -> (r: bool)
    ensures
        r == stands_at(s@, needle@, k as int),
{
    if needle.len() > s.len() || k > s.len() - needle.len() {
        return false;
    }
    let mut j: usize = 0;
    while j < needle.len()
        invariant
            j <= needle.len(),
            k + needle.len() <= s.len(),
            forall|t: int| 0 <= t < j ==> s@[k + t] == needle@[t],
        decreases needle.len() - j,
    {
        if s[k + j] != needle[j] {
            return false;
        }
        j += 1;
    }
    assert(s@.subrange(k as int, k + needle@.len()) =~= needle@);
    true
}

/// Puts `tag` in place of every occurrence of `needle`; an empty needle
/// occurs nowhere.
pub fn replace_all(s: &Vec<char>, needle: &Vec<char>, tag: &Vec<char>) -> (out: Vec<char>)
    ensures
        out@ == replaced(s@, needle@, tag@, 0),
{
    let mut out: Vec<char> = Vec::new();
    let mut i: usize = 0;
    while i < s.len()
        invariant
            i <= s.len(),
            out@ + replaced(s@, needle@, tag@, i as int) == replaced(s@, needle@, tag@, 0),
        decreases s.len() - i,
    {
        let ghost before = out@;
        if needle.len() > 0 && stands(s, needle, i) {
            let mut j: usize = 0;
            while j < tag.len()
                invariant
                    j <= tag.len(),
                    out@ == before + tag@.take(j as int),
                decreases tag.len() - j,
            {
                out.push(tag[j]);
                j += 1;
            }
            i += needle.len();
        } else {
            out.push(s[i]);
            i += 1;
        }
    }
    out
}

/// Makes a message fit to be shown to a client.
pub fn sanitize_message(message: &str, redactions: &Vec<Redaction>) -> (out: String)
    ensures
        out@ == shown_message(message@, redactions@),
{
    let chars = chars_of(message);
    let mut end: usize = 0;
    while end < chars.len() && chars[end] != '\n'
        invariant
            end <= chars.len(),
            line_end(chars@, 0) == line_end(chars@, end as int),
        decreases chars.len() - end,
    {
        end += 1;
    }
    let cut = if end > 0 && chars[end - 1] == '\r' {
        end - 1
    } else {
        end
    };
    let mut line: Vec<char> = Vec::new();
    let mut i: usize = 0;
    while i < cut
        invariant
            i <= cut <= chars.len(),
            line@ == chars@.take(i as int),
        decreases cut - i,
    {
        line.push(chars[i]);
        i += 1;
    }
    let mut k: usize = 0;
    while k < redactions.len()
        invariant
            k <= redactions.len(),
            line@ == redacted(first_line(chars@), redactions@.take(k as int)),
        decreases redactions.len() - k,
    {
        proof {
            assert(redactions@.take(k + 1).drop_last() =~= redactions@.take(k as int));
        }
        let needle = chars_of(redactions[k].needle.as_str());
        let tag = chars_of(redactions[k].tag.as_str());
        line = replace_all(&line, &needle, &tag);
        k += 1;
    }
    assert(redactions@.take(redactions.len() as int) =~= redactions@);
    let text = string_of(line.as_slice());
    let lower = to_lowercase(text.as_str());
    let hay = chars_of(lower.as_str());
    let token = chars_of("token");
    let secret = chars_of("secret");
    if text_contains(hay.as_slice(), token.as_slice()) || text_contains(
        hay.as_slice(),
        secret.as_slice(),
    ) {
        line = chars_of("An error occurred");
    }
    if line.len() > MAX_MESSAGE_CHARS {
        let head = vstd::slice::slice_subrange(line.as_slice(), 0, MAX_MESSAGE_CHARS);
        let mut out = string_of(head);
        out.push('.');
        out.push('.');
        out.push('.');
        proof {
            reveal_strlit("...");
        }
        out
    } else {
        string_of(line.as_slice())
    }
}

} // verus!
