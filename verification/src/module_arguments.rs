//! The arguments that a rule hands to its module.

use vstd::prelude::*;
use vstd::string::StringExecFns;
use crate::parsing::{spec_escape_end, spec_take_string};
use crate::text::{
    chars_of, string_of_range, scan_run, run_len, lemma_run_len, lemma_run_len_is, CharClass,
};

verus! {

/// One argument of a module: a key with a value, or a key alone.
#[derive(Debug, Clone, PartialEq, Eq)]
pub enum ModuleArgument {
    KeyValue { key: String, value: String },
    /// A key alone, which switches something on.
    Flag(String),
}

/// A `ModuleArgument` with its texts as sequences of characters.
pub enum ModuleArgumentView {
    KeyValue { key: Seq<char>, value: Seq<char> },
    Flag(Seq<char>),
}

impl View for ModuleArgument {
    type V = ModuleArgumentView;

    open spec fn view(&self) -> ModuleArgumentView {
        match self {
            ModuleArgument::KeyValue { key, value } => ModuleArgumentView::KeyValue {
                key: key@,
                value: value@,
            },
            ModuleArgument::Flag(key) => ModuleArgumentView::Flag(key@),
        }
    }
}

/// Whether `s` holds a space or a tab.
pub open spec fn has_blank(s: Seq<char>) -> bool {
    run_len(s, CharClass::NotBlank) < s.len()
}

/// Whether `s` holds a space, a tab or a line feed.
pub open spec fn has_spacing(s: Seq<char>) -> bool {
    run_len(s, CharClass::NotSpacing) < s.len()
}

/// The argument that `s` writes.
///
/// Where `s` holds a `=`, the key stands before the first one and the value
/// behind it, and the key may not be empty. Where it holds none, `s` is a key
/// alone, and may hold no space, tab or line feed.
pub open spec fn spec_parse_argument(s: Seq<char>) -> Result<ModuleArgumentView, ()> {
    let equals = run_len(s, CharClass::Other('=')) as int;
    if equals >= s.len() {
        if has_spacing(s) {
            Err(())
        } else {
            Ok(ModuleArgumentView::Flag(s))
        }
    } else if equals == 0 {
        Err(())
    } else {
        Ok(ModuleArgumentView::KeyValue { key: s.take(equals), value: s.skip(equals + 1) })
    }
}

/// The text of an argument: `key`, `key=value`, or `[key=value]` where the
/// value holds a space or a tab.
pub open spec fn argument_text(argument: ModuleArgumentView) -> Seq<char> {
    match argument {
        ModuleArgumentView::Flag(key) => key,
        ModuleArgumentView::KeyValue { key, value } => {
            if has_blank(value) {
                seq!['['] + key + seq!['='] + value + seq![']']
            } else {
                key + seq!['='] + value
            }
        },
    }
}

impl ModuleArgument {
    /// Reads an argument from one field of a rule.
    pub fn from_str(s: &str) -> (r: Result<ModuleArgument, ()>)
        ensures
            match r {
                Ok(argument) => spec_parse_argument(s@) == Ok::<ModuleArgumentView, ()>(argument@),
                Err(_) => spec_parse_argument(s@) is Err,
            },
    {
        let chars = chars_of(s);
        assert(chars@.skip(0) =~= chars@);
        let equals_position = scan_run(chars.as_slice(), 0, CharClass::Other('='));
        if equals_position >= chars.len() {
            if scan_run(chars.as_slice(), 0, CharClass::NotSpacing) < chars.len() {
                return Err(());
            }
            return Ok(ModuleArgument::Flag(String::from_str(s)));
        }
        if equals_position == 0 {
            return Err(());
        }
        let key = string_of_range(chars.as_slice(), 0, equals_position);
        let value = string_of_range(chars.as_slice(), equals_position + 1, chars.len());
        assert(key@ =~= s@.take(equals_position as int));
        assert(value@ =~= s@.skip(equals_position + 1));
        Ok(ModuleArgument::KeyValue { key, value })
    }

    /// Writes the argument as it stands in a rule.
    pub fn to_string(&self) -> (r: String)
        ensures
            r@ == argument_text(self@),
    {
        match self {
            ModuleArgument::KeyValue { key, value } => {
                let chars = chars_of(value.as_str());
                assert(chars@.skip(0) =~= chars@);
                let blank = scan_run(chars.as_slice(), 0, CharClass::NotBlank) < chars.len();
                let mut out = String::new();
                if blank {
                    out.push('[');
                }
                out.append(key.as_str());
                out.push('=');
                out.append(value.as_str());
                if blank {
                    out.push(']');
                }
                assert(out@ =~= argument_text(self@));
                out
            },
            ModuleArgument::Flag(key) => key.clone(),
        }
    }
}

/// Whether `s` holds the character `c`.
pub open spec fn holds(s: Seq<char>, c: char) -> bool {
    run_len(s, CharClass::Other(c)) < s.len()
}

/// Whether the text of an argument can be read back as one field.
///
/// The key holds no `=`, and the key of a pair is not empty. An argument that
/// is written without brackets holds no space, tab or line feed in its key,
/// and does not start with `[`. A pair that is written between brackets holds
/// no `]`, and its value does not end with a backslash.
pub open spec fn reads_back(argument: ModuleArgumentView) -> bool {
    match argument {
        ModuleArgumentView::Flag(key) => {
            &&& !holds(key, '=')
            &&& !has_spacing(key)
            &&& key.len() > 0 ==> key[0] != '['
        },
        ModuleArgumentView::KeyValue { key, value } => {
            &&& key.len() > 0
            &&& !holds(key, '=')
            &&& if has_blank(value) {
                !holds(key, ']') && !holds(value, ']') && value.last() != '\\'
            } else {
                !has_blank(key) && key[0] != '['
            }
        },
    }
}

/// A text without `end` that does not end with a backslash, and `end` behind
/// it, is read up to that `end` and comes out as it is.
pub proof fn lemma_escape_end_plain(t: Seq<char>, end: char)
    requires
        !holds(t, end),
        t.len() > 0 ==> t.last() != '\\',
    ensures
        spec_escape_end(t + seq![end], end, None) == (t, Some(t.len() as int + 1)),
    decreases t.len(),
{
    let s = t + seq![end];
    lemma_run_len(t, CharClass::Other(end));
    if t.len() == 0 {
        assert(s[0] == end);
        assert(t =~= Seq::<char>::empty());
    } else {
        let rest = t.drop_first();
        assert(s[0] == t[0]);
        assert(t[0] != end);
        if t.len() >= 2 {
            assert(s[1] == t[1]);
            assert(t[1] != end);
            assert(rest.last() == t.last());
        }
        assert forall|i: int| 0 <= i < rest.len() implies CharClass::Other(end).has(
            #[trigger] rest[i],
        ) by {
            assert(rest[i] == t[i + 1]);
        }
        lemma_run_len_is(rest, CharClass::Other(end), rest.len() as int);
        lemma_escape_end_plain(rest, end);
        assert(s.skip(1) =~= rest + seq![end]);
        assert(seq![t[0]] + rest =~= t);
    }
}

/// An argument that can be read back is read back: its text is one field,
/// and that field writes the argument.
pub proof fn lemma_argument_round_trip(argument: ModuleArgumentView)
    requires
        reads_back(argument),
    ensures
        spec_take_string(argument_text(argument)) matches Some((field, after)) && after
            == argument_text(argument).len() && spec_parse_argument(field) == Ok::<
            ModuleArgumentView,
            (),
        >(argument),
{
    let text = argument_text(argument);
    match argument {
        ModuleArgumentView::Flag(key) => {
            lemma_run_len(key, CharClass::NotSpacing);
            assert forall|i: int| 0 <= i < key.len() implies CharClass::NotBlank.has(
                #[trigger] key[i],
            ) by {
                assert(CharClass::NotSpacing.has(key[i]));
            }
            lemma_run_len_is(key, CharClass::NotBlank, key.len() as int);
            lemma_run_len(key, CharClass::Other('='));
            if key.len() == 0 {
                assert(key =~= Seq::<char>::empty());
            }
        },
        ModuleArgumentView::KeyValue { key, value } => {
            let pair = key + seq!['='] + value;
            lemma_run_len(key, CharClass::Other('='));
            assert forall|i: int| 0 <= i < key.len() implies CharClass::Other('=').has(
                #[trigger] pair[i],
            ) by {
                assert(pair[i] == key[i]);
            }
            assert(pair[key.len() as int] == '=');
            lemma_run_len_is(pair, CharClass::Other('='), key.len() as int);
            assert(pair.take(key.len() as int) =~= key);
            assert(pair.skip(key.len() as int + 1) =~= value);
            assert(spec_parse_argument(pair) == Ok::<ModuleArgumentView, ()>(argument));
            if has_blank(value) {
                lemma_run_len(value, CharClass::NotBlank);
                lemma_run_len(key, CharClass::Other(']'));
                lemma_run_len(value, CharClass::Other(']'));
                assert forall|i: int| 0 <= i < pair.len() implies CharClass::Other(']').has(
                    #[trigger] pair[i],
                ) by {
                    if i < key.len() {
                        assert(pair[i] == key[i]);
                    } else if i > key.len() {
                        assert(pair[i] == value[i - key.len() - 1]);
                    }
                }
                lemma_run_len_is(pair, CharClass::Other(']'), pair.len() as int);
                assert(pair.last() == value.last());
                lemma_escape_end_plain(pair, ']');
                assert(text =~= seq!['['] + (pair + seq![']']));
                assert(text[0] == '[');
                assert(text.skip(1) =~= pair + seq![']']);
            } else {
                lemma_run_len(value, CharClass::NotBlank);
                lemma_run_len(key, CharClass::NotBlank);
                assert forall|i: int| 0 <= i < pair.len() implies CharClass::NotBlank.has(
                    #[trigger] pair[i],
                ) by {
                    if i < key.len() {
                        assert(pair[i] == key[i]);
                    } else if i > key.len() {
                        assert(pair[i] == value[i - key.len() - 1]);
                    }
                }
                lemma_run_len_is(pair, CharClass::NotBlank, pair.len() as int);
                assert(pair[0] == key[0]);
            }
        },
    }
}

} // verus!
