//! The field scanner: blanks, plain fields, bracketed fields with escapes,
//! and lines that a backslash continues.
//!
//! Each operation is stated once as a spec function on `Seq<char>`, and is
//! carried out by a function on a slice of characters that starts at a given
//! offset, and by one on `&str` that starts at the beginning. The functions
//! on slices count their offsets in characters; those on `&str` hand out
//! offsets in bytes, at which the `&str` can be cut.

use vstd::prelude::*;
use vstd::string::StrSliceExecFns;
use vstd::string::StringSliceAdditionalSpecFns;
use crate::text::{
    byte_offset, byte_offset_of, lemma_byte_before_offset, lemma_byte_offset_step, chars_of, string_of_range, scan_run, run_len, lemma_run_len,
    CharClass,
};

verus! {

/// The text after the leading blanks of `s`, and the number of those blanks.
pub open spec fn spec_skip_whitespace(s: Seq<char>) -> (Seq<char>, int) {
    let n = run_len(s, CharClass::Blank) as int;
    (s.skip(n), n)
}

/// The text before the first blank of `s` and the offset behind that blank;
/// all of `s` and its length where `s` holds no blank.
pub open spec fn spec_till_whitespace(s: Seq<char>) -> (Seq<char>, int) {
    let i = run_len(s, CharClass::NotBlank) as int;
    if i < s.len() {
        (s.take(i), i + 1)
    } else {
        (s, s.len() as int)
    }
}

/// `e` moved to the right by `by`.
pub open spec fn shifted(e: Option<int>, by: int) -> Option<int> {
    match e {
        Some(x) => Some(x + by),
        None => None,
    }
}

/// The character that stands for an escaped `c`.
pub open spec fn escaped_as(replacement: Option<char>, c: char) -> char {
    match replacement {
        Some(r) => r,
        None => c,
    }
}

/// Reads `s` up to the first `end` that no backslash escapes.
///
/// An `end` with a backslash right before it is escaped: the backslash is
/// dropped, and the `end` is kept, or gives way to `replacement` where there
/// is one. A backslash before anything else stays as it is. The result is the
/// text read, without the closing `end`, and the offset behind that `end`, or
/// `None` where `s` ran out first.
pub open spec fn spec_escape_end(s: Seq<char>, end: char, replacement: Option<char>) -> (
    Seq<char>,
    Option<int>,
)
    decreases s.len(),
{
    if s.len() == 0 {
        (Seq::empty(), None)
    } else if s[0] == end {
        (Seq::empty(), Some(1))
    } else if s[0] == '\\' && s.len() >= 2 && s[1] == end {
        let rest = spec_escape_end(s.skip(2), end, replacement);
        (seq![escaped_as(replacement, end)] + rest.0, shifted(rest.1, 2))
    } else {
        let rest = spec_escape_end(s.skip(1), end, replacement);
        (seq![s[0]] + rest.0, shifted(rest.1, 1))
    }
}

/// The logical line at the start of `s`, and the offset of what follows it.
///
/// A line feed ends the line; one behind a backslash does not, and the two
/// become a space.
pub open spec fn spec_till_end_of_line(s: Seq<char>) -> (Seq<char>, int) {
    let r = spec_escape_end(s, '\n', Some(' '));
    match r.1 {
        Some(e) => (r.0, e),
        None => (r.0, s.len() as int),
    }
}

/// The control field at the start of `s`, brackets included, and the offset
/// behind it. A field that opens with `[` runs to the first `]`, whatever
/// stands before that; there is none where `s` is empty or the `]` is missing.
pub open spec fn spec_take_control_string(s: Seq<char>) -> Option<(Seq<char>, int)> {
    if s.len() == 0 {
        None
    } else if s[0] != '[' {
        Some(spec_till_whitespace(s))
    } else {
        let p = run_len(s, CharClass::Other(']')) as int;
        if p < s.len() {
            Some((s.take(p + 1), p + 1))
        } else {
            None
        }
    }
}

/// The field at the start of `s` and the offset behind it. A field that opens
/// with `[` runs to the first `]` without a backslash before it, and comes
/// without its brackets and with `\]` read as `]`; there is none where that
/// `]` is missing.
pub open spec fn spec_take_string(s: Seq<char>) -> Option<(Seq<char>, int)> {
    if s.len() == 0 {
        Some((Seq::empty(), 0))
    } else if s[0] != '[' {
        Some(spec_till_whitespace(s))
    } else {
        let r = spec_escape_end(s.skip(1), ']', None);
        match r.1 {
            Some(e) => Some((r.0, e + 1)),
            None => None,
        }
    }
}

/// The fields of `s` in order, up to the end, a line feed at the start of a
/// field, or an empty field; `None` where a bracket is left open.
pub open spec fn spec_take_all_strings(s: Seq<char>) -> Option<Seq<Seq<char>>>
    decreases s.len(),
{
    let item = spec_skip_whitespace(s).0;
    if item.len() == 0 || item[0] == '\n' {
        Some(Seq::empty())
    } else {
        match spec_take_string(item) {
            None => None,
            Some((taken, length)) => {
                if taken.len() == 0 {
                    Some(Seq::empty())
                } else {
                    proof {
                        lemma_run_len(s, CharClass::Blank);
                        lemma_take_string_bounds(item);
                    }
                    match spec_take_all_strings(item.skip(length)) {
                        None => None,
                        Some(rest) => Some(seq![taken] + rest),
                    }
                }
            },
        }
    }
}

/// The offset behind the first `end` that `spec_escape_end` finds lies in `s`.
pub proof fn lemma_escape_end_bounds(s: Seq<char>, end: char, replacement: Option<char>)
    ensures
        spec_escape_end(s, end, replacement).1 matches Some(e) ==> 0 < e <= s.len(),
        spec_escape_end(s, end, replacement).0.len() <= s.len(),
    decreases s.len(),
{
    if s.len() == 0 {
    } else if s[0] == end {
    } else if s[0] == '\\' && s.len() >= 2 && s[1] == end {
        lemma_escape_end_bounds(s.skip(2), end, replacement);
    } else {
        lemma_escape_end_bounds(s.skip(1), end, replacement);
    }
}

/// The end that `spec_escape_end` finds is an `end`: the character right
/// before the offset that it gives.
pub proof fn lemma_escape_end_is_end(s: Seq<char>, end: char, replacement: Option<char>)
    ensures
        spec_escape_end(s, end, replacement).1 matches Some(e) ==> 0 < e <= s.len() && s[e - 1]
            == end,
    decreases s.len(),
{
    if s.len() == 0 {
    } else if s[0] == end {
    } else if s[0] == '\\' && s.len() >= 2 && s[1] == end {
        lemma_escape_end_is_end(s.skip(2), end, replacement);
        if let Some(e) = spec_escape_end(s.skip(2), end, replacement).1 {
            assert(s.skip(2)[e - 1] == s[e + 1]);
        }
    } else {
        lemma_escape_end_is_end(s.skip(1), end, replacement);
        if let Some(e) = spec_escape_end(s.skip(1), end, replacement).1 {
            assert(s.skip(1)[e - 1] == s[e]);
        }
    }
}

/// A field that `spec_take_string` finds in a text that is not empty ends
/// behind its start and inside the text.
pub proof fn lemma_take_string_bounds(s: Seq<char>)
    ensures
        spec_take_string(s) matches Some((taken, length)) ==> 0 <= length <= s.len() && (s.len() > 0
            ==> length > 0) && taken.len() <= s.len(),
{
    lemma_run_len(s, CharClass::NotBlank);
    if s.len() > 0 && s[0] == '[' {
        lemma_escape_end_bounds(s.skip(1), ']', None);
    }
}

/// `skip_whitespace` on `s[from..]`: the offset of the first character at or
/// behind `from` that is no blank.
pub fn skip_whitespace_at(s: &[char], from: usize) -> (to: usize)
    requires
        from <= s@.len(),
    ensures
        from <= to <= s@.len(),
        to == from + spec_skip_whitespace(s@.skip(from as int)).1,
        s@.skip(to as int) == spec_skip_whitespace(s@.skip(from as int)).0,
{
    let to = scan_run(s, from, CharClass::Blank);
    assert(s@.skip(from as int).skip(to - from) =~= s@.skip(to as int));
    to
}

/// `till_whitespace` on `s[from..]`: the field is `s[from..end]`, and `after`
/// is where the scan goes on.
pub fn till_whitespace_at(s: &[char], from: usize) -> (r: (usize, usize))
    requires
        from <= s@.len(),
    ensures
        from <= r.0 <= r.1 <= s@.len(),
        s@.subrange(from as int, r.0 as int) == spec_till_whitespace(s@.skip(from as int)).0,
        r.1 == from + spec_till_whitespace(s@.skip(from as int)).1,
{
    let end = scan_run(s, from, CharClass::NotBlank);
    proof {
        let t = s@.skip(from as int);
        assert(t.take(end - from) =~= s@.subrange(from as int, end as int));
        assert(t =~= s@.subrange(from as int, s@.len() as int));
    }
    if end < s.len() {
        (end, end + 1)
    } else {
        (end, end)
    }
}

/// `escape_end_in_str` on `s[from..]`.
pub fn escape_end_at(s: &[char], from: usize, end_char: char, replacement: Option<char>) -> (r: (
    String,
    Option<usize>,
))
    requires
        from <= s@.len(),
    ensures
        r.0@ == spec_escape_end(s@.skip(from as int), end_char, replacement).0,
        match r.1 {
            Some(e) => from < e <= s@.len() && spec_escape_end(
                s@.skip(from as int),
                end_char,
                replacement,
            ).1 == Some(e - from),
            None => spec_escape_end(s@.skip(from as int), end_char, replacement).1 is None,
        },
{
    let mut out = String::new();
    let mut i: usize = from;
    let ghost whole = spec_escape_end(s@.skip(from as int), end_char, replacement);
    loop
        invariant
            from <= i <= s@.len(),
            whole == spec_escape_end(s@.skip(from as int), end_char, replacement),
            whole.0 == out@ + spec_escape_end(s@.skip(i as int), end_char, replacement).0,
            whole.1 == shifted(
                spec_escape_end(s@.skip(i as int), end_char, replacement).1,
                i - from,
            ),
        decreases s@.len() - i,
    {
        let ghost here = s@.skip(i as int);
        if i >= s.len() {
            assert(out@ + Seq::<char>::empty() =~= out@);
            return (out, None);
        }
        let c = s[i];
        assert(here[0] == c);
        if c == end_char {
            assert(out@ + Seq::<char>::empty() =~= out@);
            return (out, Some(i + 1));
        }
        if c == '\\' && i + 1 < s.len() && s[i + 1] == end_char {
            let ghost before = out@;
            let ghost rest = spec_escape_end(here.skip(2), end_char, replacement);
            assert(here[1] == end_char);
            assert(here.skip(2) =~= s@.skip(i + 2));
            let kept = match replacement {
                Some(r) => r,
                None => end_char,
            };
            out.push(kept);
            assert(out@ + rest.0 =~= before + (seq![kept] + rest.0));
            i += 2;
        } else {
            let ghost before = out@;
            let ghost rest = spec_escape_end(here.skip(1), end_char, replacement);
            assert(here.skip(1) =~= s@.skip(i + 1));
            if i + 1 < s.len() {
                assert(here[1] == s@[i + 1]);
            }
            out.push(c);
            assert(out@ + rest.0 =~= before + (seq![c] + rest.0));
            i += 1;
        }
    }
}

/// `till_end_of_line` on `s[from..]`.
pub fn till_end_of_line_at(s: &[char], from: usize) -> (r: (String, usize))
    requires
        from <= s@.len(),
    ensures
        from <= r.1 <= s@.len(),
        r.0@ == spec_till_end_of_line(s@.skip(from as int)).0,
        r.1 == from + spec_till_end_of_line(s@.skip(from as int)).1,
{
    let (taken, end_of_line) = escape_end_at(s, from, '\n', Some(' '));
    match end_of_line {
        Some(e) => (taken, e),
        None => (taken, s.len()),
    }
}

/// `take_control_string` on `s[from..]`: the field is `s[from..end]`, and
/// `after` is where the scan goes on.
pub fn take_control_string_at(s: &[char], from: usize) -> (r: Option<(usize, usize)>)
    requires
        from <= s@.len(),
    ensures
        match r {
            Some((end, after)) => from <= end <= after <= s@.len() && spec_take_control_string(
                s@.skip(from as int),
            ) == Some((s@.subrange(from as int, end as int), after - from)),
            None => spec_take_control_string(s@.skip(from as int)) is None,
        },
{
    if from >= s.len() {
        return None;
    }
    assert(s@.skip(from as int)[0] == s@[from as int]);
    if s[from] != '[' {
        return Some(till_whitespace_at(s, from));
    }
    let p = scan_run(s, from, CharClass::Other(']'));
    if p < s.len() {
        assert(s@.skip(from as int).take(p - from + 1) =~= s@.subrange(
            from as int,
            p as int + 1,
        ));
        Some((p + 1, p + 1))
    } else {
        None
    }
}

/// `take_string` on `s[from..]`.
pub fn take_string_at(s: &[char], from: usize) -> (r: Option<(String, usize)>)
    requires
        from <= s@.len(),
    ensures
        match r {
            Some((taken, after)) => from <= after <= s@.len() && spec_take_string(
                s@.skip(from as int),
            ) == Some((taken@, after - from)),
            None => spec_take_string(s@.skip(from as int)) is None,
        },
{
    if from >= s.len() {
        return Some((String::new(), from));
    }
    assert(s@.skip(from as int)[0] == s@[from as int]);
    if s[from] != '[' {
        let (end, after) = till_whitespace_at(s, from);
        return Some((string_of_range(s, from, end), after));
    }
    assert(s@.skip(from as int).skip(1) =~= s@.skip(from + 1));
    let (taken, end) = escape_end_at(s, from + 1, ']', None);
    match end {
        Some(e) => Some((taken, e)),
        None => None,
    }
}

/// `take_all_strings` on `s[from..]`.
pub fn take_all_strings_at(s: &[char], from: usize) -> (r: Option<Vec<String>>)
    requires
        from <= s@.len(),
    ensures
        match r {
            Some(strings) => spec_take_all_strings(s@.skip(from as int)) == Some(
                strings.deep_view(),
            ),
            None => spec_take_all_strings(s@.skip(from as int)) is None,
        },
{
    let mut strings: Vec<String> = Vec::new();
    let mut start_item: usize = from;
    let ghost whole = spec_take_all_strings(s@.skip(from as int));
    loop
        invariant
            from <= start_item <= s@.len(),
            whole == spec_take_all_strings(s@.skip(from as int)),
            whole == match spec_take_all_strings(s@.skip(start_item as int)) {
                Some(rest) => Some(strings.deep_view() + rest),
                None => None,
            },
        decreases s@.len() - start_item,
    {
        let item_start = skip_whitespace_at(s, start_item);
        let ghost item = s@.skip(item_start as int);
        if item_start >= s.len() || s[item_start] == '\n' {
            assert(strings.deep_view() + Seq::<Seq<char>>::empty() =~= strings.deep_view());
            return Some(strings);
        }
        assert(item[0] == s@[item_start as int]);
        match take_string_at(s, item_start) {
            None => {
                return None;
            },
            Some((taken, after)) => {
                if taken.as_str().is_empty() {
                    assert(strings.deep_view() + Seq::<Seq<char>>::empty()
                        =~= strings.deep_view());
                    return Some(strings);
                }
                proof {
                    lemma_take_string_bounds(item);
                    assert(item.skip(after - item_start) =~= s@.skip(after as int));
                }
                let ghost before = strings.deep_view();
                let ghost rest = spec_take_all_strings(s@.skip(after as int));
                strings.push(taken);
                proof {
                    assert(strings.deep_view() =~= before.push(taken@));
                    if rest is Some {
                        assert(strings.deep_view() + rest->0 =~= before + (seq![taken@]
                            + rest->0));
                    }
                }
                start_item = after;
            },
        }
    }
}

/// Skips the blanks at the start of `s`: what is left, and the offset in
/// bytes at which it starts.
pub fn skip_whitespace(s: &str) -> (r: (&str, usize))
    ensures
        r.0@ == spec_skip_whitespace(s@).0,
        r.1 == byte_offset(s@, spec_skip_whitespace(s@).1),
        r.1 <= s.spec_bytes().len(),
{
    let chars = chars_of(s);
    assert(chars@.skip(0) =~= chars@);
    let to = skip_whitespace_at(chars.as_slice(), 0);
    assert(chars@.skip(to as int) =~= chars@.subrange(to as int, chars@.len() as int));
    (s.substring_char(to, chars.len()), byte_offset_of(s, chars.as_slice(), to))
}

/// Takes the text before the first blank of `s`, and tells the offset in
/// bytes at which to go on.
pub fn till_whitespace(s: &str) -> (r: (&str, usize))
    ensures
        r.0@ == spec_till_whitespace(s@).0,
        r.1 == byte_offset(s@, spec_till_whitespace(s@).1),
        r.1 <= s.spec_bytes().len(),
{
    let chars = chars_of(s);
    assert(chars@.skip(0) =~= chars@);
    let (end, after) = till_whitespace_at(chars.as_slice(), 0);
    (s.substring_char(0, end), byte_offset_of(s, chars.as_slice(), after))
}

/// The replacement character that a byte stands for.
pub open spec fn replacement_char(escaped_replacement: Option<u8>) -> Option<char> {
    match escaped_replacement {
        Some(b) => Some(b as char),
        None => None,
    }
}

/// Reads `s` up to the first `end_char` that no backslash escapes, and
/// resolves the escapes on the way. The offset that comes with the text is
/// the offset in bytes behind that `end_char`: the byte before it writes the
/// `end_char`, where that is a character of ASCII.
pub fn escape_end_in_str(s: &str, end_char: char, escaped_replacement: Option<u8>) -> (r: (
    String,
    Option<usize>,
))
    ensures
        r.0@ == spec_escape_end(s@, end_char, replacement_char(escaped_replacement)).0,
        match r.1 {
            Some(e) => spec_escape_end(
                s@,
                end_char,
                replacement_char(escaped_replacement),
            ).1 matches Some(k) && e == byte_offset(s@, k) && 0 < e <= s.spec_bytes().len() && (
            (end_char as u32) < 0x80 ==> s.spec_bytes()[e - 1] as u32 == end_char as u32),
            None => spec_escape_end(s@, end_char, replacement_char(escaped_replacement)).1 is None,
        },
{
    let chars = chars_of(s);
    assert(chars@.skip(0) =~= chars@);
    let replacement = match escaped_replacement {
        Some(b) => Some(b as char),
        None => None,
    };
    let (taken, end) = escape_end_at(chars.as_slice(), 0, end_char, replacement);
    proof {
        lemma_escape_end_is_end(s@, end_char, replacement);
        if let Some(e) = end {
            lemma_byte_offset_step(s@, e - 1);
            if (end_char as u32) < 0x80 {
                lemma_byte_before_offset(s@, e as int);
            }
        }
    }
    match end {
        Some(e) => (taken, Some(byte_offset_of(s, chars.as_slice(), e))),
        None => (taken, None),
    }
}

/// Takes the logical line at the start of `s`, and tells the offset in bytes
/// at which the next begins.
pub fn till_end_of_line(s: &str) -> (r: (String, usize))
    ensures
        r.0@ == spec_till_end_of_line(s@).0,
        r.1 == byte_offset(s@, spec_till_end_of_line(s@).1),
        r.1 <= s.spec_bytes().len(),
{
    let chars = chars_of(s);
    assert(chars@.skip(0) =~= chars@);
    let (taken, after) = till_end_of_line_at(chars.as_slice(), 0);
    (taken, byte_offset_of(s, chars.as_slice(), after))
}

/// Takes the control field at the start of `s`, brackets included, and tells
/// the offset in bytes behind it.
pub fn take_control_string(s: &str) -> (r: Option<(&str, usize)>)
    ensures
        match r {
            Some((taken, after)) => spec_take_control_string(s@) matches Some((field, k))
                && taken@ == field && after == byte_offset(s@, k) && after
                <= s.spec_bytes().len(),
            None => spec_take_control_string(s@) is None,
        },
{
    let chars = chars_of(s);
    assert(chars@.skip(0) =~= chars@);
    match take_control_string_at(chars.as_slice(), 0) {
        Some((end, after)) => Some(
            (s.substring_char(0, end), byte_offset_of(s, chars.as_slice(), after)),
        ),
        None => None,
    }
}

/// Takes the field at the start of `s`, without the brackets round it, and
/// tells the offset in bytes behind it.
pub fn take_string(s: &str) -> (r: Option<(String, usize)>)
    ensures
        match r {
            Some((taken, after)) => spec_take_string(s@) matches Some((field, k)) && taken@
                == field && after == byte_offset(s@, k) && after <= s.spec_bytes().len(),
            None => spec_take_string(s@) is None,
        },
{
    let chars = chars_of(s);
    assert(chars@.skip(0) =~= chars@);
    match take_string_at(chars.as_slice(), 0) {
        Some((taken, after)) => Some((taken, byte_offset_of(s, chars.as_slice(), after))),
        None => None,
    }
}

/// Takes all the fields of `s`.
pub fn take_all_strings(s: &str) -> (r: Option<Vec<String>>)
    ensures
        match r {
            Some(strings) => spec_take_all_strings(s@) == Some(strings.deep_view()),
            None => spec_take_all_strings(s@) is None,
        },
{
    let chars = chars_of(s);
    assert(chars@.skip(0) =~= chars@);
    take_all_strings_at(chars.as_slice(), 0)
}

} // verus!
