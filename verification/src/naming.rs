//! Note and folder names: trimming, extension handling, and the fallback
//! timestamp names used when the input buffer is empty.

use vstd::prelude::*;

use crate::clock::{folder_stamp_chars, folder_stamp_string, note_stamp_chars, note_stamp_string, ClockTime};
use crate::paths::NotePath;

verus! {

/// Whether the character counts as a unicode letter or number; what
/// `char::is_alphanumeric` returns.
pub uninterp spec fn alphanumeric(c: char) -> bool;

/// Relies on char::is_alphanumeric: whether the character is a letter or
/// a number, a property of the character alone.
#[verifier::external_body]
pub(crate) fn char_is_alphanumeric(c: char) -> (r: bool)
    ensures
        r == alphanumeric(c),
{
    c.is_alphanumeric()
}

/// Whether the character is a control character; what `char::is_control`
/// returns.
pub uninterp spec fn control_char(c: char) -> bool;

/// Relies on char::is_control: whether the character is a control code,
/// a property of the character alone.
#[verifier::external_body]
pub(crate) fn char_is_control(c: char) -> (r: bool)
    ensures
        r == control_char(c),
{
    c.is_control()
}

/// Relies on String::push: appends one character at the end.
#[verifier::external_body]
pub(crate) fn string_push(s: &mut String, c: char)
    ensures
        final(s)@ == old(s)@.push(c),
{
    s.push(c);
}

/// Relies on String::pop: removes and returns the last character, and
/// returns None on an empty string.
#[verifier::external_body]
pub(crate) fn string_pop(s: &mut String) -> (r: Option<char>)
    ensures
        old(s)@.len() == 0 ==> final(s)@ == old(s)@ && r is None,
        old(s)@.len() > 0 ==> final(s)@ == old(s)@.drop_last() && r == Some(old(s)@.last()),
{
    s.pop()
}

/// The characters a note or folder name may take from the keyboard.
pub open spec fn allowed_name_char(c: char) -> bool {
    alphanumeric(c) || c == ' ' || c == '-' || c == '_' || c == '.'
}

pub open spec fn trim_start(s: Seq<char>) -> Seq<char>
    decreases s.len(),
{
    if s.len() > 0 && s[0] == ' ' {
        trim_start(s.drop_first())
    } else {
        s
    }
}

pub open spec fn trim_end(s: Seq<char>) -> Seq<char>
    decreases s.len(),
{
    if s.len() > 0 && s.last() == ' ' {
        trim_end(s.drop_last())
    } else {
        s
    }
}

/// The buffer without its leading and trailing spaces; the only
/// whitespace the input rules let into a name buffer.
pub open spec fn trimmed(s: Seq<char>) -> Seq<char> {
    trim_end(trim_start(s))
}

proof fn lemma_trim_start_skip(s: Seq<char>, i: int)
    requires
        0 <= i <= s.len(),
        forall|j: int| 0 <= j < i ==> s[j] == ' ',
    ensures
        trim_start(s) == trim_start(s.skip(i)),
    decreases i,
{
    if i > 0 {
        assert(s[0] == ' ');
        lemma_trim_start_skip(s.drop_first(), i - 1);
        assert(s.drop_first().skip(i - 1) =~= s.skip(i));
    } else {
        assert(s.skip(0) =~= s);
    }
}

proof fn lemma_trim_end_take(s: Seq<char>, k: int)
    requires
        0 <= k <= s.len(),
        forall|j: int| k <= j < s.len() ==> s[j] == ' ',
        k == 0 || s[k - 1] != ' ',
    ensures
        trim_end(s) == s.take(k),
    decreases s.len() - k,
{
    if k < s.len() {
        assert(s.last() == ' ');
        lemma_trim_end_take(s.drop_last(), k);
        assert(s.drop_last().take(k) =~= s.take(k));
    } else {
        if s.len() == 0 {
            assert(s.take(0) =~= s);
        } else {
            assert(s.last() != ' ');
            assert(s.take(k) =~= s);
        }
    }
}

/// Strip leading and trailing spaces, exactly `trimmed`.
#[verifier::loop_isolation(false)]
pub fn trim_spaces(s: &str) -> (r: String)
    ensures
        r@ == trimmed(s@),
{
    let n = s.unicode_len();
    let mut start: usize = 0;
    while start < n && s.get_char(start) == ' '
        invariant
            start <= n,
            forall|j: int| 0 <= j < start ==> s@[j] == ' ',
        decreases n - start,
    {
        start = start + 1;
    }
    let mut end: usize = n;
    while end > start && s.get_char(end - 1) == ' '
        invariant
            start <= end <= n,
            forall|j: int| end <= j < n ==> s@[j] == ' ',
        decreases end,
    {
        end = end - 1;
    }
    let out = s.substring_char(start, end);
    proof {
        lemma_trim_start_skip(s@, start as int);
        let t = s@.skip(start as int);
        assert(trim_start(t) == t);
        lemma_trim_end_take(t, end - start);
        assert(t.take(end - start) =~= s@.subrange(start as int, end as int));
    }
    String::from_str(out)
}

/// `s` ends with the characters of `suffix`.
pub open spec fn ends_with(s: Seq<char>, suffix: Seq<char>) -> bool {
    suffix.len() <= s.len() && s.skip(s.len() - suffix.len()) == suffix
}

/// Character-for-character suffix test, exactly `ends_with`.
#[verifier::loop_isolation(false)]
pub fn has_suffix(s: &str, suffix: &str) -> (r: bool)
    ensures
        r == ends_with(s@, suffix@),
{
    let n = s.unicode_len();
    let m = suffix.unicode_len();
    if m > n {
        return false;
    }
    let mut k: usize = 0;
    while k < m
        invariant
            k <= m,
            m <= n,
            forall|j: int| 0 <= j < k ==> s@[n - m + j] == suffix@[j],
        decreases m - k,
    {
        if s.get_char(n - m + k) != suffix.get_char(k) {
            proof {
                assert(!ends_with(s@, suffix@)) by {
                    if ends_with(s@, suffix@) {
                        assert(s@.skip(n - m as int)[k as int] == suffix@[k as int]);
                    }
                }
            }
            return false;
        }
        k = k + 1;
    }
    proof {
        assert(s@.skip(n - m as int) =~= suffix@);
    }
    true
}

/// The file name a confirmed note gets: the trimmed buffer with the
/// default extension appended unless already present, or a
/// timestamp-based name when the buffer holds nothing but spaces.
pub open spec fn spec_note_file_name(buffer: Seq<char>, format: Seq<char>, t: ClockTime) -> Seq<
    char,
> {
    let tr = trimmed(buffer);
    if tr.len() == 0 {
        "notes-"@ + note_stamp_chars(t) + "."@ + format
    } else if ends_with(tr, "."@ + format) {
        tr
    } else {
        tr + "."@ + format
    }
}

pub fn note_file_name(buffer: &str, format: &str, t: &ClockTime) -> (r: String)
    requires
        t.wf(),
    ensures
        r@ == spec_note_file_name(buffer@, format@, *t),
{
    let tr = trim_spaces(buffer);
    if tr.as_str().unicode_len() == 0 {
        let mut s = String::from_str("notes-");
        let stamp = note_stamp_string(t);
        s.append(stamp.as_str());
        s.append(".");
        s.append(format);
        proof {
            assert(s@ =~= spec_note_file_name(buffer@, format@, *t));
        }
        s
    } else {
        let mut dotted = String::from_str(".");
        dotted.append(format);
        proof {
            assert(dotted@ =~= "."@ + format@);
        }
        if has_suffix(tr.as_str(), dotted.as_str()) {
            tr
        } else {
            let mut s = tr;
            s.append(dotted.as_str());
            proof {
                assert(s@ =~= trimmed(buffer@) + "."@ + format@);
            }
            s
        }
    }
}

/// The name a confirmed folder gets: the trimmed buffer, or the
/// minute-resolution timestamp when the buffer holds nothing but spaces.
pub open spec fn spec_folder_name(buffer: Seq<char>, t: ClockTime) -> Seq<char> {
    if trimmed(buffer).len() == 0 {
        folder_stamp_chars(t)
    } else {
        trimmed(buffer)
    }
}

pub fn folder_name(buffer: &str, t: &ClockTime) -> (r: String)
    requires
        t.wf(),
    ensures
        r@ == spec_folder_name(buffer@, *t),
{
    let tr = trim_spaces(buffer);
    if tr.as_str().unicode_len() == 0 {
        folder_stamp_string(t)
    } else {
        tr
    }
}

/// Join a new folder's name onto its parent folder.
pub fn make_new_folder(parent_folder: &NotePath, new_folder: String) -> (r: NotePath)
    ensures
        r@ == parent_folder@.push(new_folder@),
{
    parent_folder.child(new_folder)
}

} // verus!
