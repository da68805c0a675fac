//! Characters and strings: the few facts about `std` strings that the rest of
//! the crate relies on, classes of characters, runs of them, and the offsets
//! of characters in bytes.

use vstd::prelude::*;
use vstd::string::StringSliceAdditionalSpecFns;
use vstd::utf8::{char_is_scalar, encode_scalar, encode_utf8, leading_byte_width_1};

verus! {

/// `String::push` appends the given character and changes nothing else.
pub assume_specification[ String::push ](s: &mut String, c: char)
    ensures
        final(s)@ == old(s)@.push(c),
;

/// `str::eq` holds exactly of two strings with the same characters.
pub assume_specification[ <str as PartialEq>::eq ](a: &str, b: &str) -> (r: bool)
    ensures
        r == (a@ == b@),
;

/// White space as Unicode defines it: the characters with the property
/// White_Space.
pub open spec fn is_white_space(c: char) -> bool {
    let u = c as u32;
    ||| 0x0009 <= u <= 0x000D
    ||| u == 0x0020
    ||| u == 0x0085
    ||| u == 0x00A0
    ||| u == 0x1680
    ||| 0x2000 <= u <= 0x200A
    ||| u == 0x2028
    ||| u == 0x2029
    ||| u == 0x202F
    ||| u == 0x205F
    ||| u == 0x3000
}

/// Tests whether `c` is white space as Unicode defines it.
pub fn is_whitespace(c: char) -> (r: bool)
    ensures
        r == is_white_space(c),
{
    let u: u32 = c as u32;
    (0x0009 <= u && u <= 0x000D) || u == 0x0020 || u == 0x0085 || u == 0x00A0 || u == 0x1680 || (
    0x2000 <= u && u <= 0x200A) || u == 0x2028 || u == 0x2029 || u == 0x202F || u == 0x205F || u
        == 0x3000
}

/// The number of bytes that write `c` in UTF-8.
pub open spec fn char_width(c: char) -> int {
    let u = c as u32;
    if u < 0x80 {
        1
    } else if u < 0x800 {
        2
    } else if u < 0x10000 {
        3
    } else {
        4
    }
}

/// The number of bytes that write the first `n` characters of `s` in UTF-8:
/// the offset in bytes of the character at `n`.
pub open spec fn byte_offset(s: Seq<char>, n: int) -> int {
    encode_utf8(s.take(n)).len() as int
}

/// A text that is put together from two is written by the bytes of both.
pub proof fn lemma_encode_add(a: Seq<char>, b: Seq<char>)
    ensures
        encode_utf8(a + b) == encode_utf8(a) + encode_utf8(b),
    decreases a.len(),
{
    if a.len() == 0 {
        assert(a + b =~= b);
        assert(encode_utf8(a) + encode_utf8(b) =~= encode_utf8(b));
    } else {
        assert((a + b)[0] == a[0]);
        assert((a + b).drop_first() =~= a.drop_first() + b);
        lemma_encode_add(a.drop_first(), b);
        assert(encode_utf8(a + b) =~= encode_utf8(a) + encode_utf8(b));
    }
}

/// The byte right before the offset of the character at `n` writes the
/// character at `n - 1`, where that is a character of ASCII.
pub proof fn lemma_byte_before_offset(s: Seq<char>, n: int)
    requires
        0 < n <= s.len(),
        (s[n - 1] as u32) < 0x80,
    ensures
        0 < byte_offset(s, n) <= encode_utf8(s).len(),
        encode_utf8(s)[byte_offset(s, n) - 1] as u32 == s[n - 1] as u32,
{
    let c = s[n - 1];
    let one = seq![c];
    let u = c as u32;
    assert(one[0] == c);
    assert(one.drop_first() =~= Seq::<char>::empty());
    assert(encode_utf8(one.drop_first()) =~= Seq::<u8>::empty());
    assert(encode_scalar(u) =~= seq![leading_byte_width_1(u)]);
    assert(encode_utf8(one) =~= seq![leading_byte_width_1(u)]);
    assert(u < 0x80 ==> ((u & 0x7F) as u8) as u32 == u) by (bit_vector);
    assert(s.take(n) =~= s.take(n - 1) + one);
    lemma_encode_add(s.take(n - 1), one);
    assert(s =~= s.take(n) + s.skip(n));
    lemma_encode_add(s.take(n), s.skip(n));
}

/// The offset of a character grows by the width of the character before it,
/// and no offset lies behind the end of the text.
pub proof fn lemma_byte_offset_step(s: Seq<char>, n: int)
    requires
        0 <= n < s.len(),
    ensures
        byte_offset(s, n + 1) == byte_offset(s, n) + char_width(s[n]),
        byte_offset(s, n + 1) <= encode_utf8(s).len(),
{
    let one = seq![s[n]];
    char_is_scalar(s[n]);
    assert(one.drop_first() =~= Seq::<char>::empty());
    assert(encode_utf8(one.drop_first()).len() == 0);
    assert(encode_utf8(one).len() == char_width(s[n]));
    assert(s.take(n + 1) =~= s.take(n) + one);
    lemma_encode_add(s.take(n), one);
    assert(s =~= s.take(n + 1) + s.skip(n + 1));
    lemma_encode_add(s.take(n + 1), s.skip(n + 1));
}

/// The offset in bytes of the character at `n` of `s`, whose characters are
/// `chars`.
pub fn byte_offset_of(s: &str, chars: &[char], n: usize) -> (r: usize)
    requires
        chars@ == s@,
        n <= chars@.len(),
    ensures
        r == byte_offset(s@, n as int),
        r <= s.spec_bytes().len(),
{
    let total = s.as_bytes().len();
    let mut bytes: usize = 0;
    let mut i: usize = 0;
    assert(s@.take(0) =~= Seq::<char>::empty());
    while i < n
        invariant
            chars@ == s@,
            i <= n <= chars@.len(),
            bytes == byte_offset(s@, i as int),
            bytes <= total,
            total == encode_utf8(s@).len(),
        decreases n - i,
    {
        proof {
            lemma_byte_offset_step(s@, i as int);
        }
        let u: u32 = chars[i] as u32;
        let width: usize = if u < 0x80 {
            1
        } else if u < 0x800 {
            2
        } else if u < 0x10000 {
            3
        } else {
            4
        };
        bytes = bytes + width;
        i += 1;
    }
    bytes
}

/// The characters of `s`, in order.
pub fn chars_of(s: &str) -> (v: Vec<char>)
    ensures
        v@ == s@,
{
    let mut v: Vec<char> = Vec::new();
    for c in it: s.chars()
        invariant
            v@ == s@.take(it.index() as int),
            it.seq() == s@,
    {
        v.push(c);
    }
    v
}

/// The string made of the characters `s[from..to]`.
pub fn string_of_range(s: &[char], from: usize, to: usize) -> (r: String)
    requires
        from <= to <= s@.len(),
    ensures
        r@ == s@.subrange(from as int, to as int),
{
    let mut r = String::new();
    let mut i: usize = from;
    while i < to
        invariant
            from <= i <= to <= s@.len(),
            r@ == s@.subrange(from as int, i as int),
        decreases to - i,
    {
        r.push(s[i]);
        i += 1;
    }
    r
}

/// Appends the characters `s[from..to]` to `out`.
pub fn push_range(out: &mut String, s: &[char], from: usize, to: usize)
    requires
        from <= to <= s@.len(),
    ensures
        final(out)@ == old(out)@ + s@.subrange(from as int, to as int),
{
    let mut i: usize = from;
    assert(out@ =~= old(out)@ + s@.subrange(from as int, i as int));
    while i < to
        invariant
            from <= i <= to <= s@.len(),
            out@ == old(out)@ + s@.subrange(from as int, i as int),
        decreases to - i,
    {
        out.push(s[i]);
        i += 1;
        assert(out@ =~= old(out)@ + s@.subrange(from as int, i as int));
    }
}

/// A set of characters that the scanner tests for.
#[derive(Clone, Copy, Debug)]
pub enum CharClass {
    /// A space or a tab.
    Blank,
    /// Anything but a space or a tab.
    NotBlank,
    /// A space, a tab or a line feed.
    Spacing,
    /// Anything but a space, a tab or a line feed.
    NotSpacing,
    /// Anything but the given character.
    Other(char),
    /// A letter or digit of ASCII, `_` or `-`.
    Name,
    /// A digit of ASCII.
    Digit,
    /// White space as Unicode defines it.
    Whitespace,
}

/// A space or a tab: what parts the fields of a line.
pub open spec fn is_blank(c: char) -> bool {
    c == ' ' || c == '\t'
}

/// A space, a tab or a line feed.
pub open spec fn is_spacing(c: char) -> bool {
    c == ' ' || c == '\t' || c == '\n'
}

/// A character that the name of a service may hold.
pub open spec fn is_name_char(c: char) -> bool {
    ||| 'a' <= c <= 'z'
    ||| 'A' <= c <= 'Z'
    ||| '0' <= c <= '9'
    ||| c == '_'
    ||| c == '-'
}

/// A digit of ASCII.
pub open spec fn is_digit(c: char) -> bool {
    '0' <= c <= '9'
}

impl CharClass {
    /// Whether `c` belongs to the class.
    pub open spec fn has(self, c: char) -> bool {
        match self {
            CharClass::Blank => is_blank(c),
            CharClass::NotBlank => !is_blank(c),
            CharClass::Spacing => is_spacing(c),
            CharClass::NotSpacing => !is_spacing(c),
            CharClass::Other(x) => c != x,
            CharClass::Name => is_name_char(c),
            CharClass::Digit => is_digit(c),
            CharClass::Whitespace => is_white_space(c),
        }
    }

    /// Tests whether `c` belongs to the class.
    pub fn contains(self, c: char) -> (b: bool)
        ensures
            b == self.has(c),
    {
        match self {
            CharClass::Blank => c == ' ' || c == '\t',
            CharClass::NotBlank => !(c == ' ' || c == '\t'),
            CharClass::Spacing => c == ' ' || c == '\t' || c == '\n',
            CharClass::NotSpacing => !(c == ' ' || c == '\t' || c == '\n'),
            CharClass::Other(x) => c != x,
            CharClass::Name => {
                (c >= 'a' && c <= 'z') || (c >= 'A' && c <= 'Z') || (c >= '0' && c <= '9') || c
                    == '_' || c == '-'
            },
            CharClass::Digit => c >= '0' && c <= '9',
            CharClass::Whitespace => is_whitespace(c),
        }
    }
}

/// The length of the longest prefix of `s` that lies within `class`: the
/// index of the first character outside it, or `s.len()` where there is none.
pub open spec fn run_len(s: Seq<char>, class: CharClass) -> nat
    decreases s.len(),
{
    if s.len() > 0 && class.has(s[0]) {
        1 + run_len(s.drop_first(), class)
    } else {
        0
    }
}

/// What `run_len` is: it stays inside `s`, all before it is within `class`,
/// and the character at it, where there is one, is not.
pub proof fn lemma_run_len(s: Seq<char>, class: CharClass)
    ensures
        0 <= run_len(s, class) <= s.len(),
        forall|i: int| 0 <= i < run_len(s, class) ==> class.has(#[trigger] s[i]),
        run_len(s, class) < s.len() ==> !class.has(s[run_len(s, class) as int]),
    decreases s.len(),
{
    if s.len() > 0 && class.has(s[0]) {
        let t = s.drop_first();
        lemma_run_len(t, class);
        assert forall|i: int| 0 <= i < run_len(s, class) implies class.has(#[trigger] s[i]) by {
            if i > 0 {
                assert(s[i] == t[i - 1]);
            }
        }
        if run_len(s, class) < s.len() {
            assert(s[run_len(s, class) as int] == t[run_len(t, class) as int]);
        }
    }
}

/// The one number with the three properties of `lemma_run_len` is `run_len`.
pub proof fn lemma_run_len_is(s: Seq<char>, class: CharClass, n: int)
    requires
        0 <= n <= s.len(),
        forall|i: int| 0 <= i < n ==> class.has(#[trigger] s[i]),
        n < s.len() ==> !class.has(s[n]),
    ensures
        run_len(s, class) == n,
    decreases s.len(),
{
    if n > 0 {
        let t = s.drop_first();
        assert(class.has(s[0]));
        assert forall|i: int| 0 <= i < n - 1 implies class.has(#[trigger] t[i]) by {
            assert(t[i] == s[i + 1]);
        }
        if n - 1 < t.len() {
            assert(t[n - 1] == s[n]);
        }
        lemma_run_len_is(t, class, n - 1);
    }
}

/// The end of the run of `class` that starts at `from`.
pub fn scan_run(s: &[char], from: usize, class: CharClass) -> (to: usize)
    requires
        from <= s@.len(),
    ensures
        from <= to <= s@.len(),
        to == from + run_len(s@.skip(from as int), class),
{
    let mut i: usize = from;
    while i < s.len() && class.contains(s[i])
        invariant
            from <= i <= s@.len(),
            forall|k: int| from <= k < i ==> class.has(#[trigger] s@[k]),
        decreases s@.len() - i,
    {
        i += 1;
    }
    proof {
        let t = s@.skip(from as int);
        assert forall|k: int| 0 <= k < i - from implies class.has(#[trigger] t[k]) by {
            assert(t[k] == s@[from + k]);
        }
        lemma_run_len_is(t, class, i - from);
    }
    i
}

/// The number that a digit stands for.
pub open spec fn digit_of(c: char) -> nat {
    (c as int - '0' as int) as nat
}

/// The digit that stands for a number below ten.
pub open spec fn digit_char(d: nat) -> char {
    (d + '0' as nat) as char
}

/// The number that `s` writes in base ten, where `s` is made of digits; 0 for
/// the empty text.
pub open spec fn decimal_value(s: Seq<char>) -> nat
    decreases s.len(),
{
    if s.len() == 0 {
        0
    } else {
        decimal_value(s.drop_last()) * 10 + digit_of(s.last())
    }
}

/// `n` written in base ten, without leading zeros.
pub open spec fn decimal_text(n: nat) -> Seq<char>
    decreases n,
{
    if n < 10 {
        seq![digit_char(n)]
    } else {
        decimal_text(n / 10).push(digit_char(n % 10))
    }
}

/// A longer prefix of digits writes no smaller number.
pub proof fn lemma_decimal_value_grows(s: Seq<char>, j: int, k: int)
    requires
        0 <= j <= k <= s.len(),
    ensures
        decimal_value(s.take(j)) <= decimal_value(s.take(k)),
    decreases k - j,
{
    if j < k {
        lemma_decimal_value_grows(s, j, k - 1);
        assert(s.take(k).drop_last() =~= s.take(k - 1));
        assert(decimal_value(s.take(k - 1)) * 10 >= decimal_value(s.take(k - 1)))
            by (nonlinear_arith);
    }
}

/// Appends `n`, written in base ten, to `out`.
pub fn push_decimal(out: &mut String, n: u32)
    ensures
        final(out)@ == old(out)@ + decimal_text(n as nat),
    decreases n,
{
    if n >= 10 {
        push_decimal(out, n / 10);
    }
    let d: u8 = (n % 10) as u8;
    let c: char = (48u8 + d) as char;
    assert(c == digit_char((n % 10) as nat));
    out.push(c);
    proof {
        if n >= 10 {
            assert(out@ =~= old(out)@ + decimal_text((n / 10) as nat).push(c));
        } else {
            assert(out@ =~= old(out)@ + seq![c]);
        }
    }
}

} // verus!
