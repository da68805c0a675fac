//! The scanner of whole files: logical lines, the fields of a line, and the
//! fields of a rule by their place in the line.

use vstd::prelude::*;
use vstd::string::StrSliceExecFns;
use vstd::string::StringExecFns;
use crate::error::{PamConfigSyntaxError, PamConfigSyntaxErrorView};
use crate::parsing::{escape_end_at, spec_escape_end, lemma_escape_end_bounds};
use crate::rule::{InclusionMethod, spec_inclusion_method};
use crate::text::{
    byte_offset, byte_offset_of, chars_of, push_range, string_of_range, scan_run, run_len, lemma_run_len, CharClass,
};

verus! {

/// What the line scanner makes of the text `s` that is left to it, where
/// `buffer` holds what it has read of a line that goes on: the logical line,
/// if there is one, and how much of `s` it has read.
///
/// Spacing before a line is skipped, and with it any empty line. A line that
/// starts with `#` is skipped whole. Otherwise the line runs to the first
/// `#` or to the line feed; a `#` starts a comment wherever it stands, between
/// brackets too. Where no `#` was met and a backslash stands right before the
/// line feed, the two give way to one space and the line goes on with the
/// next. The last line needs no line feed. A line that goes on into a
/// comment or into the end of the text ends there, and is kept.
pub open spec fn spec_next_line(s: Seq<char>, buffer: Seq<char>) -> (Option<Seq<char>>, int)
    decreases s.len(),
{
    let skipped = run_len(s, CharClass::Spacing) as int;
    let source = s.skip(skipped);
    let newline = run_len(source, CharClass::Other('\n')) as int;
    let line = source.take(newline);
    let comment = run_len(line, CharClass::Other('#')) as int;
    let after = skipped + newline + 1;
    if newline >= source.len() {
        if buffer.len() == 0 && comment == 0 {
            (None, s.len() as int)
        } else {
            (Some(buffer + line.take(comment)), s.len() as int)
        }
    } else if source[0] == '#' {
        proof {
            lemma_run_len(s, CharClass::Spacing);
            lemma_run_len(source, CharClass::Other('\n'));
        }
        let next = spec_next_line(s.skip(after), buffer);
        (next.0, after + next.1)
    } else if comment < line.len() {
        (Some(buffer + line.take(comment)), after)
    } else if line.len() > 0 && line.last() == '\\' {
        proof {
            lemma_run_len(s, CharClass::Spacing);
            lemma_run_len(source, CharClass::Other('\n'));
        }
        let next = spec_next_line(s.skip(after), buffer + line.drop_last() + seq![' ']);
        (next.0, after + next.1)
    } else {
        (Some(buffer + line), after)
    }
}

/// The scan never reads more than there is.
pub proof fn lemma_next_line_bounds(s: Seq<char>, buffer: Seq<char>)
    ensures
        0 <= spec_next_line(s, buffer).1 <= s.len(),
        s.len() > 0 ==> spec_next_line(s, buffer).1 > 0,
    decreases s.len(),
{
    let skipped = run_len(s, CharClass::Spacing) as int;
    lemma_run_len(s, CharClass::Spacing);
    let source = s.skip(skipped);
    let newline = run_len(source, CharClass::Other('\n')) as int;
    lemma_run_len(source, CharClass::Other('\n'));
    let line = source.take(newline);
    let after = skipped + newline + 1;
    if newline < source.len() {
        if source[0] == '#' {
            lemma_next_line_bounds(s.skip(after), buffer);
        } else {
            lemma_next_line_bounds(s.skip(after), buffer + line.drop_last() + seq![' ']);
        }
    }
}

/// Where the scan finds no line, it has read all there is.
pub proof fn lemma_next_line_none(s: Seq<char>, buffer: Seq<char>)
    ensures
        spec_next_line(s, buffer).0 is None ==> spec_next_line(s, buffer).1 == s.len(),
    decreases s.len(),
{
    let skipped = run_len(s, CharClass::Spacing) as int;
    lemma_run_len(s, CharClass::Spacing);
    let source = s.skip(skipped);
    let newline = run_len(source, CharClass::Other('\n')) as int;
    lemma_run_len(source, CharClass::Other('\n'));
    let line = source.take(newline);
    let after = skipped + newline + 1;
    if newline < source.len() {
        if source[0] == '#' {
            lemma_next_line_none(s.skip(after), buffer);
        } else {
            lemma_next_line_none(s.skip(after), buffer + line.drop_last() + seq![' ']);
        }
    }
}

/// The logical lines of `s`, in their order.
pub open spec fn spec_lines(s: Seq<char>) -> Seq<Seq<char>>
    decreases s.len(),
{
    let next = spec_next_line(s, Seq::empty());
    match next.0 {
        None => Seq::empty(),
        Some(line) => {
            if s.len() == 0 {
                Seq::empty()
            } else {
                proof {
                    lemma_next_line_bounds(s, Seq::empty());
                }
                seq![line] + spec_lines(s.skip(next.1))
            }
        },
    }
}

/// The text behind the leading spaces, tabs and line feeds of `s`, and how
/// many of them there are.
pub open spec fn spec_trim_start(s: Seq<char>) -> (Seq<char>, int) {
    let n = run_len(s, CharClass::Spacing) as int;
    (s.skip(n), n)
}

/// Drops the spaces, tabs and line feeds at the start of `source`: what is
/// left, and the offset in bytes at which it starts.
pub fn trim_start_with_length(source: &str) -> (r: (&str, usize))
    ensures
        r.0@ == spec_trim_start(source@).0,
        r.1 == byte_offset(source@, spec_trim_start(source@).1),
{
    let chars = chars_of(source);
    assert(chars@.skip(0) =~= chars@);
    let n = scan_run(chars.as_slice(), 0, CharClass::Spacing);
    assert(chars@.skip(n as int) =~= chars@.subrange(n as int, chars@.len() as int));
    (source.substring_char(n, chars.len()), byte_offset_of(source, chars.as_slice(), n))
}

/// Reads a text line by line.
pub struct LineIterator {
    source: Vec<char>,
    current_offset: usize,
}

impl View for LineIterator {
    type V = Seq<char>;

    /// The text that is left to read.
    closed spec fn view(&self) -> Seq<char> {
        self.source@.skip(self.current_offset as int)
    }
}

impl LineIterator {
    #[verifier::type_invariant]
    spec fn well_formed(self) -> bool {
        self.current_offset <= self.source@.len()
    }

    /// A scanner at the start of `source`.
    pub fn new(source: &str) -> (r: Self)
        ensures
            r@ == source@,
    {
        let source = chars_of(source);
        assert(source@.skip(0) =~= source@);
        Self { source, current_offset: 0 }
    }

    /// The next logical line, or `None` where the text holds no more.
    #[verifier::loop_isolation(false)]
    pub fn next(&mut self) -> (r: Option<String>)
        ensures
            match r {
                Some(line) => spec_next_line(old(self)@, Seq::empty()).0 == Some(line@),
                None => spec_next_line(old(self)@, Seq::empty()).0 is None,
            },
            final(self)@ == old(self)@.skip(spec_next_line(old(self)@, Seq::empty()).1),
    {
        proof {
            use_type_invariant(&*self);
        }
        let mut buffer = String::new();
        let mut pos: usize = self.current_offset;
        let ghost start = pos;
        let ghost whole = spec_next_line(self@, Seq::empty());
        loop
            invariant
                start <= pos <= self.source@.len(),
                self.source@ == old(self).source@,
                whole.0 == spec_next_line(self.source@.skip(pos as int), buffer@).0,
                whole.1 == (pos - start) + spec_next_line(self.source@.skip(pos as int), buffer@).1,
            decreases self.source@.len() - pos,
        {
            let s = self.source.as_slice();
            let ghost here = s@.skip(pos as int);
            let begin = scan_run(s, pos, CharClass::Spacing);
            let ghost source = s@.skip(begin as int);
            let end = scan_run(s, begin, CharClass::Other('\n'));
            let line: &[char] = &s[begin..end];
            assert(line@.skip(0) =~= line@);
            let comment = scan_run(line, 0, CharClass::Other('#'));
            let ghost before = buffer@;
            proof {
                assert(here.skip(begin - pos) =~= source);
                assert(source.take(end - begin) =~= line@);
                lemma_run_len(line@, CharClass::Other('#'));
            }
            if end >= s.len() {
                let whole_len = s.len();
                proof {
                    assert(here.len() == whole_len - pos);
                    assert(s@.skip(whole_len as int) =~= here.skip(here.len() as int));
                }
                if buffer.as_str().is_empty() && comment == 0 {
                    self.current_offset = whole_len;
                    return None;
                }
                push_range(&mut buffer, line, 0, comment);
                assert(line@.subrange(0, comment as int) =~= line@.take(comment as int));
                self.current_offset = whole_len;
                return Some(buffer);
            }
            let after = end + 1;
            proof {
                assert(source[0] == s@[begin as int]);
                assert(here.skip(after - pos) =~= s@.skip(after as int));
            }
            if s[begin] == '#' {
                pos = after;
            } else if comment < line.len() {
                push_range(&mut buffer, line, 0, comment);
                assert(line@.subrange(0, comment as int) =~= line@.take(comment as int));
                self.current_offset = after;
                return Some(buffer);
            } else if line.len() > 0 && line[line.len() - 1] == '\\' {
                push_range(&mut buffer, line, 0, line.len() - 1);
                buffer.push(' ');
                assert(buffer@ =~= before + line@.drop_last() + seq![' ']);
                pos = after;
            } else {
                push_range(&mut buffer, line, 0, line.len());
                assert(line@.subrange(0, line@.len() as int) =~= line@);
                self.current_offset = after;
                return Some(buffer);
            }
        }
    }

    /// All the logical lines that are left, in their order. Nothing is left
    /// behind them.
    #[verifier::loop_isolation(false)]
    pub fn collect(&mut self) -> (r: Vec<String>)
        ensures
            r.deep_view() == spec_lines(old(self)@),
            final(self)@.len() == 0,
    {
        let mut lines: Vec<String> = Vec::new();
        let ghost whole = spec_lines(self@);
        assert(lines.deep_view() =~= Seq::<Seq<char>>::empty());
        loop
            invariant
                whole == lines.deep_view() + spec_lines(self@),
            decreases self@.len(),
        {
            let ghost here = self@;
            proof {
                lemma_next_line_bounds(here, Seq::empty());
                lemma_next_line_none(here, Seq::empty());
            }
            match self.next() {
                None => {
                    assert(lines.deep_view() + Seq::<Seq<char>>::empty() =~= lines.deep_view());
                    return lines;
                },
                Some(line) => {
                    let ghost before = lines.deep_view();
                    lines.push(line);
                    proof {
                        assert(lines.deep_view() =~= before.push(line@));
                        assert(lines.deep_view() + spec_lines(self@) =~= before + (seq![line@]
                            + spec_lines(self@)));
                    }
                },
            }
        }
    }
}

/// What the field scanner makes of the text `s` that is left to it: the next
/// field, if there is one, and how much of `s` it has read.
///
/// Spacing before a field is skipped. A field that opens with `[` runs to
/// the first `]` with no backslash right before it, and comes without its
/// brackets and with each `\]` read as `]`; where that `]` is missing the
/// field is an error, and the rest of the text is given up. Any other field
/// runs to the next space, tab or line feed.
pub open spec fn spec_next_token(s: Seq<char>) -> (
    Option<Result<Seq<char>, PamConfigSyntaxErrorView>>,
    int,
) {
    let skipped = run_len(s, CharClass::Spacing) as int;
    let source = s.skip(skipped);
    if source.len() == 0 {
        (None, s.len() as int)
    } else if source[0] == '[' {
        let group = spec_escape_end(source.skip(1), ']', None);
        match group.1 {
            Some(end) => (Some(Ok(group.0)), skipped + 1 + end),
            None => (Some(Err(PamConfigSyntaxErrorView::UnclosedBracket)), s.len() as int),
        }
    } else {
        let length = run_len(source, CharClass::NotSpacing) as int;
        (Some(Ok(source.take(length))), skipped + length)
    }
}

/// The scan never reads more than there is, and a field takes some of it.
pub proof fn lemma_next_token_bounds(s: Seq<char>)
    ensures
        0 <= spec_next_token(s).1 <= s.len(),
        spec_next_token(s).0 is Some ==> spec_next_token(s).1 > 0,
{
    let skipped = run_len(s, CharClass::Spacing) as int;
    lemma_run_len(s, CharClass::Spacing);
    let source = s.skip(skipped);
    lemma_run_len(source, CharClass::NotSpacing);
    if source.len() > 0 {
        lemma_escape_end_bounds(source.skip(1), ']', None);
    }
}

/// All the fields of `s`, or the error of the first that is one.
pub open spec fn spec_tokens(s: Seq<char>) -> Result<Seq<Seq<char>>, PamConfigSyntaxErrorView>
    decreases s.len(),
{
    let next = spec_next_token(s);
    match next.0 {
        None => Ok(Seq::empty()),
        Some(Err(e)) => Err(e),
        Some(Ok(token)) => {
            proof {
                lemma_next_token_bounds(s);
            }
            match spec_tokens(s.skip(next.1)) {
                Err(e) => Err(e),
                Ok(rest) => Ok(seq![token] + rest),
            }
        },
    }
}

/// Reads a logical line field by field.
pub struct StringTokenIterator {
    source: Vec<char>,
    current_offset: usize,
}

impl View for StringTokenIterator {
    type V = Seq<char>;

    /// The text that is left to read.
    closed spec fn view(&self) -> Seq<char> {
        self.source@.skip(self.current_offset as int)
    }
}

impl StringTokenIterator {
    #[verifier::type_invariant]
    spec fn well_formed(self) -> bool {
        self.current_offset <= self.source@.len()
    }

    /// A scanner at the start of `source`.
    pub fn new(source: &str) -> (r: Self)
        ensures
            r@ == source@,
    {
        let source = chars_of(source);
        assert(source@.skip(0) =~= source@);
        Self { source, current_offset: 0 }
    }

    /// A scanner of `source` that starts at `offset`.
    pub(crate) fn starting_at(source: Vec<char>, offset: usize) -> (r: Self)
        requires
            offset <= source@.len(),
        ensures
            r@ == source@.skip(offset as int),
    {
        Self { source, current_offset: offset }
    }

    /// Whether the next field opens with a bracket.
    pub fn at_bracket(&self) -> (r: bool)
        ensures
            r == spec_at_bracket(self@),
    {
        proof {
            use_type_invariant(self);
        }
        let s = self.source.as_slice();
        let begin = scan_run(s, self.current_offset, CharClass::Spacing);
        proof {
            let source = s@.skip(begin as int);
            assert(self@.skip(begin - self.current_offset) =~= source);
            if begin < s@.len() {
                assert(source[0] == s@[begin as int]);
            }
        }
        begin < s.len() && s[begin] == '['
    }

    /// The next field, or `None` where the text holds no more.
    pub fn next(&mut self) -> (r: Option<Result<String, PamConfigSyntaxError>>)
        ensures
            match r {
                Some(Ok(token)) => spec_next_token(old(self)@).0 == Some(
                    Ok::<Seq<char>, PamConfigSyntaxErrorView>(token@),
                ),
                Some(Err(e)) => spec_next_token(old(self)@).0 == Some(
                    Err::<Seq<char>, PamConfigSyntaxErrorView>(e@),
                ),
                None => spec_next_token(old(self)@).0 is None,
            },
            final(self)@ == old(self)@.skip(spec_next_token(old(self)@).1),
    {
        proof {
            use_type_invariant(&*self);
        }
        let s = self.source.as_slice();
        let ghost here = self@;
        let begin = scan_run(s, self.current_offset, CharClass::Spacing);
        let ghost source = s@.skip(begin as int);
        proof {
            assert(here.skip(begin - self.current_offset) =~= source);
            assert(s@.skip(s@.len() as int) =~= here.skip(here.len() as int));
        }
        if begin >= s.len() {
            self.current_offset = begin;
            return None;
        }
        assert(source[0] == s@[begin as int]);
        if s[begin] == '[' {
            assert(source.skip(1) =~= s@.skip(begin + 1));
            let (taken, end) = escape_end_at(s, begin + 1, ']', None);
            match end {
                Some(e) => {
                    assert(here.skip(e - self.current_offset) =~= s@.skip(e as int));
                    self.current_offset = e;
                    Some(Ok(taken))
                },
                None => {
                    self.current_offset = s.len();
                    Some(Err(PamConfigSyntaxError::UnclosedBracket))
                },
            }
        } else {
            let end = scan_run(s, begin, CharClass::NotSpacing);
            let token = string_of_range(s, begin, end);
            proof {
                assert(source.take(end - begin) =~= token@);
                assert(here.skip(end - self.current_offset) =~= s@.skip(end as int));
            }
            self.current_offset = end;
            Some(Ok(token))
        }
    }

    /// All the fields that are left, in their order, or the error of the
    /// first that is one. Nothing is left to read behind them.
    #[verifier::loop_isolation(false)]
    pub fn collect(&mut self) -> (r: Result<Vec<String>, PamConfigSyntaxError>)
        ensures
            final(self)@.len() == 0,
            match r {
                Ok(tokens) => spec_tokens(old(self)@) == Ok::<
                    Seq<Seq<char>>,
                    PamConfigSyntaxErrorView,
                >(tokens.deep_view()),
                Err(e) => spec_tokens(old(self)@) == Err::<
                    Seq<Seq<char>>,
                    PamConfigSyntaxErrorView,
                >(e@),
            },
    {
        let mut tokens: Vec<String> = Vec::new();
        let ghost whole = spec_tokens(self@);
        assert(tokens.deep_view() =~= Seq::<Seq<char>>::empty());
        loop
            invariant
                whole == match spec_tokens(self@) {
                    Ok(rest) => Ok(tokens.deep_view() + rest),
                    Err(e) => Err(e),
                },
            decreases self@.len(),
        {
            let ghost here = self@;
            proof {
                lemma_next_token_bounds(here);
            }
            match self.next() {
                None => {
                    assert(tokens.deep_view() + Seq::<Seq<char>>::empty() =~= tokens.deep_view());
                    return Ok(tokens);
                },
                Some(Err(e)) => {
                    return Err(e);
                },
                Some(Ok(token)) => {
                    let ghost before = tokens.deep_view();
                    tokens.push(token);
                    proof {
                        assert(tokens.deep_view() =~= before.push(token@));
                        if let Ok(rest) = spec_tokens(self@) {
                            assert(tokens.deep_view() + rest =~= before + (seq![token@] + rest));
                        }
                    }
                },
            }
        }
    }
}

/// The fields of one rule, as they stand in its line.
#[derive(Debug, Clone, PartialEq, Eq)]
pub struct RuleToken {
    pub do_log: bool,
    pub service: String,
    pub facility: String,
    pub content: RuleTokenContent,
}

/// What a rule asks for: the chain of another service, or a module.
#[derive(Debug, Clone, PartialEq, Eq)]
pub enum RuleTokenContent {
    ServiceInclusion { method: InclusionMethod, service: String },
    Entry { control_flag: String, module: String, module_arguments: Vec<String> },
}

/// A `RuleToken` with its texts as sequences of characters.
pub struct RuleTokenView {
    pub do_log: bool,
    pub service: Seq<char>,
    pub facility: Seq<char>,
    pub content: RuleTokenContentView,
}

/// A `RuleTokenContent` with its texts as sequences of characters.
pub enum RuleTokenContentView {
    ServiceInclusion { method: InclusionMethod, service: Seq<char> },
    Entry { control_flag: Seq<char>, module: Seq<char>, module_arguments: Seq<Seq<char>> },
}

impl View for RuleTokenContent {
    type V = RuleTokenContentView;

    open spec fn view(&self) -> RuleTokenContentView {
        match self {
            RuleTokenContent::ServiceInclusion { method, service } => {
                RuleTokenContentView::ServiceInclusion { method: *method, service: service@ }
            },
            RuleTokenContent::Entry { control_flag, module, module_arguments } => {
                RuleTokenContentView::Entry {
                    control_flag: control_flag@,
                    module: module@,
                    module_arguments: module_arguments.deep_view(),
                }
            },
        }
    }
}

impl View for RuleToken {
    type V = RuleTokenView;

    open spec fn view(&self) -> RuleTokenView {
        RuleTokenView {
            do_log: self.do_log,
            service: self.service@,
            facility: self.facility@,
            content: self.content@,
        }
    }
}

/// Whether the next field of `s` opens with a bracket.
pub open spec fn spec_at_bracket(s: Seq<char>) -> bool {
    let source = s.skip(run_len(s, CharClass::Spacing) as int);
    source.len() > 0 && source[0] == '['
}

/// The next field of `s` as it goes into a rule, and what is left of `s`
/// behind it. Where no field is left, the field is the empty text.
pub open spec fn spec_field(s: Seq<char>) -> Result<
    (Seq<char>, Seq<char>),
    PamConfigSyntaxErrorView,
> {
    let next = spec_next_token(s);
    match next.0 {
        None => Ok((Seq::empty(), s.skip(next.1))),
        Some(Ok(token)) => Ok((token, s.skip(next.1))),
        Some(Err(e)) => Err(e),
    }
}

/// The next field of `s` as the control of a rule: a field that stood
/// between brackets is put between brackets again.
pub open spec fn spec_control_field(s: Seq<char>) -> Result<
    (Seq<char>, Seq<char>),
    PamConfigSyntaxErrorView,
> {
    match spec_field(s) {
        Err(e) => Err(e),
        Ok((text, rest)) => {
            if spec_at_bracket(s) {
                Ok((seq!['['] + text + seq![']'], rest))
            } else {
                Ok((text, rest))
            }
        },
    }
}

/// The fields of the rule that `line` writes.
///
/// A `-` at the start of the line switches logging off and is then left out.
/// The fields are, in this order: the service, unless `known_service` gives
/// it; the facility; the control; the module path; the arguments of the
/// module. A field that the line does not have is the empty text. Where the
/// control is `include` or `substack`, the module path names a service and
/// what follows it is not read. A bracket that is left open in what is read
/// voids the line.
pub open spec fn spec_rule_token(line: Seq<char>, known_service: Option<Seq<char>>) -> Result<
    RuleTokenView,
    PamConfigSyntaxErrorView,
> {
    let do_log = !(line.len() > 0 && line[0] == '-');
    let body = if do_log {
        line
    } else {
        line.skip(1)
    };
    let first = match known_service {
        Some(service) => Ok((service, body)),
        None => spec_field(body),
    };
    match first {
        Err(e) => Err(e),
        Ok((service, rest)) => match spec_field(rest) {
            Err(e) => Err(e),
            Ok((facility, rest)) => match spec_control_field(rest) {
                Err(e) => Err(e),
                Ok((control_flag, rest)) => match spec_field(rest) {
                    Err(e) => Err(e),
                    Ok((module, rest)) => match spec_inclusion_method(control_flag) {
                        Ok(method) => Ok(
                            RuleTokenView {
                                do_log,
                                service,
                                facility,
                                content: RuleTokenContentView::ServiceInclusion {
                                    method,
                                    service: module,
                                },
                            },
                        ),
                        Err(_) => match spec_tokens(rest) {
                            Err(e) => Err(e),
                            Ok(module_arguments) => Ok(
                                RuleTokenView {
                                    do_log,
                                    service,
                                    facility,
                                    content: RuleTokenContentView::Entry {
                                        control_flag,
                                        module,
                                        module_arguments,
                                    },
                                },
                            ),
                        },
                    },
                },
            },
        },
    }
}

/// The service that a scan was given, as a sequence of characters.
pub open spec fn known_service_view(known_service: Option<&str>) -> Option<Seq<char>> {
    match known_service {
        Some(service) => Some(service@),
        None => None,
    }
}

/// Takes the next field for a rule.
fn take_field(tokens: &mut StringTokenIterator) -> (r: Result<String, PamConfigSyntaxError>)
    ensures
        match r {
            Ok(field) => spec_field(old(tokens)@) == Ok::<
                (Seq<char>, Seq<char>),
                PamConfigSyntaxErrorView,
            >((field@, final(tokens)@)),
            Err(e) => spec_field(old(tokens)@) == Err::<
                (Seq<char>, Seq<char>),
                PamConfigSyntaxErrorView,
            >(e@),
        },
{
    match tokens.next() {
        None => Ok(String::new()),
        Some(Ok(token)) => Ok(token),
        Some(Err(e)) => Err(e),
    }
}

/// Takes the next field as the control of a rule.
fn take_control_field(tokens: &mut StringTokenIterator) -> (r: Result<
    String,
    PamConfigSyntaxError,
>)
    ensures
        match r {
            Ok(field) => spec_control_field(old(tokens)@) == Ok::<
                (Seq<char>, Seq<char>),
                PamConfigSyntaxErrorView,
            >((field@, final(tokens)@)),
            Err(e) => spec_control_field(old(tokens)@) == Err::<
                (Seq<char>, Seq<char>),
                PamConfigSyntaxErrorView,
            >(e@),
        },
{
    let bracketed = tokens.at_bracket();
    let text = match take_field(tokens) {
        Ok(text) => text,
        Err(e) => {
            return Err(e);
        },
    };
    if !bracketed {
        return Ok(text);
    }
    let mut field = String::new();
    field.push('[');
    field.append(text.as_str());
    field.push(']');
    assert(field@ =~= seq!['['] + text@ + seq![']']);
    Ok(field)
}

/// Reads the fields of the rule that `line` writes.
pub fn rule_token_of_line(line: &str, known_service: Option<&str>) -> (r: Result<
    RuleToken,
    PamConfigSyntaxError,
>)
    ensures
        match r {
            Ok(token) => spec_rule_token(line@, known_service_view(known_service)) == Ok::<
                RuleTokenView,
                PamConfigSyntaxErrorView,
            >(token@),
            Err(e) => spec_rule_token(line@, known_service_view(known_service)) == Err::<
                RuleTokenView,
                PamConfigSyntaxErrorView,
            >(e@),
        },
{
    let chars = chars_of(line);
    let do_log = !(chars.len() > 0 && chars[0] == '-');
    let offset: usize = if do_log {
        0
    } else {
        1
    };
    assert(chars@.skip(0) =~= chars@);
    let mut str_tokens = StringTokenIterator::starting_at(chars, offset);
    let service = match known_service {
        Some(known) => String::from_str(known),
        None => match take_field(&mut str_tokens) {
            Ok(service) => service,
            Err(e) => {
                return Err(e);
            },
        },
    };
    let facility = match take_field(&mut str_tokens) {
        Ok(facility) => facility,
        Err(e) => {
            return Err(e);
        },
    };
    let control_flag = match take_control_field(&mut str_tokens) {
        Ok(control_flag) => control_flag,
        Err(e) => {
            return Err(e);
        },
    };
    let module = match take_field(&mut str_tokens) {
        Ok(path) => path,
        Err(e) => {
            return Err(e);
        },
    };
    let content = match InclusionMethod::from_str(control_flag.as_str()) {
        Ok(method) => RuleTokenContent::ServiceInclusion { method, service: module },
        Err(_) => {
            let module_arguments = match str_tokens.collect() {
                Ok(arguments) => arguments,
                Err(e) => {
                    return Err(e);
                },
            };
            RuleTokenContent::Entry { control_flag, module, module_arguments }
        },
    };
    Ok(RuleToken { do_log, service, facility, content })
}

/// What reading one rule gave, with its texts as sequences of characters.
pub open spec fn rule_token_result_view(r: Result<RuleToken, PamConfigSyntaxError>) -> Result<
    RuleTokenView,
    PamConfigSyntaxErrorView,
> {
    match r {
        Ok(token) => Ok(token@),
        Err(e) => Err(e@),
    }
}

/// What reading some rules gave, with their texts as sequences of characters.
pub open spec fn rule_token_results_view(
    results: Seq<Result<RuleToken, PamConfigSyntaxError>>,
) -> Seq<Result<RuleTokenView, PamConfigSyntaxErrorView>> {
    results.map_values(|r: Result<RuleToken, PamConfigSyntaxError>| rule_token_result_view(r))
}

/// What reading the rules of `s` gives, line by line: the fields of each
/// rule, or the fault of its line.
pub open spec fn spec_rule_tokens(s: Seq<char>, known_service: Option<Seq<char>>) -> Seq<
    Result<RuleTokenView, PamConfigSyntaxErrorView>,
> {
    spec_lines(s).map_values(|line: Seq<char>| spec_rule_token(line, known_service))
}

/// Reads a text rule by rule.
pub struct RuleTokenIterator {
    known_service: Option<String>,
    line_iterator: LineIterator,
}

impl View for RuleTokenIterator {
    type V = Seq<char>;

    /// The text that is left to read.
    closed spec fn view(&self) -> Seq<char> {
        self.line_iterator@
    }
}

impl RuleTokenIterator {
    /// The service that every rule of the text belongs to, where the text
    /// itself does not name it.
    pub closed spec fn known_service(&self) -> Option<Seq<char>> {
        match self.known_service {
            Some(service) => Some(service@),
            None => None,
        }
    }

    /// A scanner of the rules of one service: no line of `source` names it.
    pub fn with_service(source: &str, service: &str) -> (r: Self)
        ensures
            r@ == source@,
            r.known_service() == Some(service@),
    {
        Self {
            known_service: Some(String::from_str(service)),
            line_iterator: LineIterator::new(source),
        }
    }

    /// A scanner of rules that each start with the name of their service.
    pub fn new(source: &str) -> (r: Self)
        ensures
            r@ == source@,
            r.known_service() is None,
    {
        Self { known_service: None, line_iterator: LineIterator::new(source) }
    }

    /// The fields of the next rule or the fault of its line, or `None` where
    /// the text holds no more lines.
    pub fn next(&mut self) -> (r: Option<Result<RuleToken, PamConfigSyntaxError>>)
        ensures
            final(self).known_service() == old(self).known_service(),
            final(self)@ == old(self)@.skip(spec_next_line(old(self)@, Seq::empty()).1),
            match r {
                Some(token) => spec_next_line(old(self)@, Seq::empty()).0 matches Some(line)
                    && rule_token_result_view(token) == spec_rule_token(
                    line,
                    old(self).known_service(),
                ),
                None => spec_next_line(old(self)@, Seq::empty()).0 is None,
            },
    {
        let line = match self.line_iterator.next() {
            Some(line) => line,
            None => {
                return None;
            },
        };
        let known: Option<&str> = match &self.known_service {
            Some(service) => Some(service.as_str()),
            None => None,
        };
        Some(rule_token_of_line(line.as_str(), known))
    }

    /// What reading all the rules that are left gives, in their order.
    #[verifier::loop_isolation(false)]
    pub fn collect(&mut self) -> (r: Vec<Result<RuleToken, PamConfigSyntaxError>>)
        ensures
            rule_token_results_view(r@) == spec_rule_tokens(old(self)@, old(self).known_service()),
            final(self).known_service() == old(self).known_service(),
            final(self)@.len() == 0,
    {
        let mut tokens: Vec<Result<RuleToken, PamConfigSyntaxError>> = Vec::new();
        let ghost known = self.known_service();
        let ghost whole = spec_rule_tokens(self@, known);
        let ghost read = |line: Seq<char>| spec_rule_token(line, known);
        assert(rule_token_results_view(tokens@) =~= Seq::empty());
        loop
            invariant
                self.known_service() == known,
                whole == rule_token_results_view(tokens@) + spec_lines(self@).map_values(read),
            decreases self@.len(),
        {
            let ghost here = self@;
            proof {
                lemma_next_line_bounds(here, Seq::empty());
                lemma_next_line_none(here, Seq::empty());
            }
            match self.next() {
                None => {
                    assert(spec_lines(here).map_values(read) =~= Seq::empty());
                    assert(rule_token_results_view(tokens@) + Seq::empty()
                        =~= rule_token_results_view(tokens@));
                    return tokens;
                },
                Some(token) => {
                    let ghost before = rule_token_results_view(tokens@);
                    let ghost line = spec_next_line(here, Seq::empty()).0->0;
                    let ghost this = rule_token_result_view(token);
                    tokens.push(token);
                    proof {
                        assert(rule_token_results_view(tokens@) =~= before.push(this));
                        assert(spec_lines(here) == seq![line] + spec_lines(self@));
                        assert(spec_lines(here).map_values(read) =~= seq![read(line)] + spec_lines(
                            self@,
                        ).map_values(read));
                        assert(rule_token_results_view(tokens@) + spec_lines(self@).map_values(
                            read,
                        ) =~= before + (seq![read(line)] + spec_lines(self@).map_values(read)));
                    }
                },
            }
        }
    }
}

} // verus!
