//! Rules of the packed form, where each line names its service, and of the
//! separated form, where a whole text belongs to one service: the fields of a
//! line, the lines of a text, and the readers that go through a text line by
//! line.

use vstd::prelude::*;
use crate::control::{Control, ControlView, spec_parse_control};
use crate::error::{PamConfigSyntaxError, PamConfigSyntaxErrorView};
use crate::management_group::{Domain, spec_parse_domain};
use crate::module::{ModulePath, ModulePathView, spec_parse_module};
use crate::module_arguments::{ModuleArgument, ModuleArgumentView};
use crate::parsing::{
    lemma_escape_end_bounds, skip_whitespace_at, spec_skip_whitespace, spec_take_all_strings,
    spec_take_control_string, spec_take_string, spec_till_end_of_line, spec_till_whitespace,
    take_all_strings_at, take_control_string_at, take_string_at, till_end_of_line_at,
    till_whitespace_at,
};
use crate::rule::{InclusionMethod, arguments_view, module_arguments_of, spec_parse_arguments};
use crate::service::{Service, is_proper_service_name, is_service_name};
use crate::text::{
    chars_of, string_of_range, scan_run, run_len, lemma_run_len, lemma_run_len_is, CharClass,
};

verus! {

/// Single line of a PAM configuration file
///
/// A rule whose control is `include` or `substack` takes in the chain of
/// another service: what stands in the place of the module path is the name
/// of that service, and the rule has no arguments.
#[derive(Debug, PartialEq, Eq)]
pub struct PamRule {
    is_logging_enabled: bool,
    domain: Domain,
    control: Control,
    module: ModulePath,
    module_arguments: Vec<ModuleArgument>,
}

/// What a rule asks for.
pub enum PamRuleContentView {
    /// The chain of another service is run in place of the rule.
    ServiceInclusion { method: InclusionMethod, target_service: Seq<char> },
    /// A module is called.
    Entry { control: ControlView, module: ModulePathView, module_arguments: Seq<ModuleArgumentView> },
}

/// A `PamRule` with its texts as sequences of characters.
pub struct PamRuleView {
    pub is_logging_enabled: bool,
    pub domain: Domain,
    pub content: PamRuleContentView,
}

impl PamRuleView {
    /// The control of the rule.
    pub open spec fn control(self) -> ControlView {
        match self.content {
            PamRuleContentView::ServiceInclusion { method, .. } => match method {
                InclusionMethod::Include => ControlView::Include,
                InclusionMethod::Substack => ControlView::Substack,
            },
            PamRuleContentView::Entry { control, .. } => control,
        }
    }

    /// What stands in the place of the module path: the path of the module,
    /// or the name of the service that the rule takes in.
    pub open spec fn module_text(self) -> Seq<char> {
        match self.content {
            PamRuleContentView::ServiceInclusion { target_service, .. } => target_service,
            PamRuleContentView::Entry { module, .. } => module.path,
        }
    }

    /// The arguments of the module; none where the rule takes in a service.
    pub open spec fn module_arguments(self) -> Seq<ModuleArgumentView> {
        match self.content {
            PamRuleContentView::ServiceInclusion { .. } => Seq::empty(),
            PamRuleContentView::Entry { module_arguments, .. } => module_arguments,
        }
    }
}

/// The way of taking in a service that a control stands for, if it stands
/// for one.
pub open spec fn inclusion_method(control: ControlView) -> Option<InclusionMethod> {
    match control {
        ControlView::Include => Some(InclusionMethod::Include),
        ControlView::Substack => Some(InclusionMethod::Substack),
        _ => None,
    }
}

impl View for PamRule {
    type V = PamRuleView;

    closed spec fn view(&self) -> PamRuleView {
        PamRuleView {
            is_logging_enabled: self.is_logging_enabled,
            domain: self.domain,
            content: match inclusion_method(self.control@) {
                Some(method) => PamRuleContentView::ServiceInclusion {
                    method,
                    target_service: self.module@.path,
                },
                None => PamRuleContentView::Entry {
                    control: self.control@,
                    module: self.module@,
                    module_arguments: arguments_view(self.module_arguments@),
                },
            },
        }
    }
}

/// The name of the service at the start of `s`, and the offset behind it.
/// The name may stand between brackets; it must be the name of a service.
pub open spec fn spec_take_service_name(s: Seq<char>) -> Result<
    (int, Seq<char>),
    PamConfigSyntaxErrorView,
> {
    match spec_take_string(s) {
        Some((name, after)) => {
            if is_service_name(name) {
                Ok((after, name))
            } else {
                Err(PamConfigSyntaxErrorView::WrongServiceName(name))
            }
        },
        None => Err(PamConfigSyntaxErrorView::UnclosedBracket),
    }
}

/// The domain at the start of `s`, whether its rule is logged, and the offset
/// behind the field. A `-` before the word switches logging off; the word
/// without it must name a domain.
pub open spec fn spec_take_domain(s: Seq<char>) -> Result<
    (int, Domain, bool),
    PamConfigSyntaxErrorView,
> {
    let (field, after) = spec_till_whitespace(s);
    let is_logging_enabled = !(field.len() > 0 && field[0] == '-');
    let word = if is_logging_enabled {
        field
    } else {
        field.skip(1)
    };
    match spec_parse_domain(word) {
        Ok(domain) => Ok((after, domain, is_logging_enabled)),
        Err(_) => Err(PamConfigSyntaxErrorView::WrongDomain(word)),
    }
}

/// The control at the start of `s`, and the offset behind it.
pub open spec fn spec_take_control(s: Seq<char>) -> Result<
    (int, ControlView),
    PamConfigSyntaxErrorView,
> {
    match spec_take_control_string(s) {
        None => Err(PamConfigSyntaxErrorView::UnclosedBracket),
        Some((field, after)) => match spec_parse_control(field) {
            Ok(control) => Ok((after, control)),
            Err(e) => Err(PamConfigSyntaxErrorView::WrongControl(e)),
        },
    }
}

/// The module path at the start of `s`, and the offset behind it.
pub open spec fn spec_take_module(s: Seq<char>) -> Result<
    (int, ModulePathView),
    PamConfigSyntaxErrorView,
> {
    let (field, after) = spec_till_whitespace(s);
    match spec_parse_module(field) {
        Ok(module) => Ok((after, module)),
        Err(_) => Err(PamConfigSyntaxErrorView::WrongModulePath(field)),
    }
}

/// The arguments that the rest of a line writes.
pub open spec fn spec_take_module_arguments(s: Seq<char>) -> Result<
    Seq<ModuleArgumentView>,
    PamConfigSyntaxErrorView,
> {
    match spec_take_all_strings(s) {
        None => Err(PamConfigSyntaxErrorView::UnclosedBracket),
        Some(fields) => spec_parse_arguments(fields),
    }
}

/// What is left of `s` behind `after` and the blanks that follow.
pub open spec fn spec_next_field(s: Seq<char>, after: int) -> Seq<char> {
    spec_skip_whitespace(s.skip(after)).0
}

/// The name of the service that a rule takes in: the field at the start of
/// `s`, which must be the name of a service.
pub open spec fn spec_take_target_service(s: Seq<char>) -> Result<
    Seq<char>,
    PamConfigSyntaxErrorView,
> {
    let field = spec_till_whitespace(s).0;
    if is_service_name(field) {
        Ok(field)
    } else {
        Err(PamConfigSyntaxErrorView::WrongServiceName(field))
    }
}

/// What a line asks for behind its control: where the control is `include`
/// or `substack`, the service whose name stands next, and nothing behind
/// that name is read; otherwise the module whose path stands next, with the
/// arguments that follow.
pub open spec fn spec_take_content(control: ControlView, s: Seq<char>) -> Result<
    PamRuleContentView,
    PamConfigSyntaxErrorView,
> {
    match inclusion_method(control) {
        Some(method) => match spec_take_target_service(s) {
            Err(e) => Err(e),
            Ok(target_service) => Ok(
                PamRuleContentView::ServiceInclusion { method, target_service },
            ),
        },
        None => match spec_take_module(s) {
            Err(e) => Err(e),
            Ok((after, module)) => match spec_take_module_arguments(spec_next_field(s, after)) {
                Err(e) => Err(e),
                Ok(module_arguments) => Ok(
                    PamRuleContentView::Entry { control, module, module_arguments },
                ),
            },
        },
    }
}

/// The rule that a line of the separated form writes: domain, control, and
/// what the control bears on, with blanks between them. The first field that
/// is at fault gives the error.
pub open spec fn spec_separated_rule(line: Seq<char>) -> Result<
    PamRuleView,
    PamConfigSyntaxErrorView,
> {
    match spec_take_domain(line) {
        Err(e) => Err(e),
        Ok((after, domain, is_logging_enabled)) => {
            let line = spec_next_field(line, after);
            match spec_take_control(line) {
                Err(e) => Err(e),
                Ok((after, control)) => match spec_take_content(
                    control,
                    spec_next_field(line, after),
                ) {
                    Err(e) => Err(e),
                    Ok(content) => Ok(PamRuleView { is_logging_enabled, domain, content }),
                },
            }
        },
    }
}

/// The rule that a line of the packed form writes, with the name of its
/// service, which stands first.
pub open spec fn spec_packed_rule(line: Seq<char>) -> Result<
    (Seq<char>, PamRuleView),
    PamConfigSyntaxErrorView,
> {
    match spec_take_service_name(line) {
        Err(e) => Err(e),
        Ok((after, service_name)) => match spec_separated_rule(spec_next_field(line, after)) {
            Err(e) => Err(e),
            Ok(rule) => Ok((service_name, rule)),
        },
    }
}

/// Takes the name of a service from `s[from..]`.
pub fn take_service_name(s: &[char], from: usize) -> (r: Result<
    (usize, Service),
    PamConfigSyntaxError,
>)
    requires
        from <= s@.len(),
    ensures
        match r {
            Ok((after, name)) => from <= after <= s@.len() && spec_take_service_name(
                s@.skip(from as int),
            ) == Ok::<(int, Seq<char>), PamConfigSyntaxErrorView>((after - from, name@)),
            Err(e) => spec_take_service_name(s@.skip(from as int)) == Err::<
                (int, Seq<char>),
                PamConfigSyntaxErrorView,
            >(e@),
        },
{
    let Some((service_name, after)) = take_string_at(s, from) else {
        return Err(PamConfigSyntaxError::UnclosedBracket);
    };
    match Service::try_from(service_name) {
        Ok(service) => Ok((after, service)),
        Err(e) => Err(PamConfigSyntaxError::WrongServiceName(e.1)),
    }
}

/// Takes the domain of a rule from `s[from..]`.
pub fn take_domain(s: &[char], from: usize) -> (r: Result<
    (usize, Domain, bool),
    PamConfigSyntaxError,
>)
    requires
        from <= s@.len(),
    ensures
        match r {
            Ok((after, domain, is_logging_enabled)) => from <= after <= s@.len()
                && spec_take_domain(s@.skip(from as int)) == Ok::<
                (int, Domain, bool),
                PamConfigSyntaxErrorView,
            >((after - from, domain, is_logging_enabled)),
            Err(e) => spec_take_domain(s@.skip(from as int)) == Err::<
                (int, Domain, bool),
                PamConfigSyntaxErrorView,
            >(e@),
        },
{
    // Take group ('account', 'auth', 'password', 'session')
    let (end, after) = till_whitespace_at(s, from);
    // We disable logging if the '-' is prepended
    let is_logging_enabled = !(from < end && s[from] == '-');
    let start: usize = if is_logging_enabled {
        from
    } else {
        from + 1
    };
    let word = string_of_range(s, start, end);
    proof {
        let field = s@.subrange(from as int, end as int);
        if from < end {
            assert(field[0] == s@[from as int]);
        }
        if !is_logging_enabled {
            assert(field.skip(1) =~= word@);
        }
    }
    match Domain::from_str(word.as_str()) {
        Ok(domain) => Ok((after, domain, is_logging_enabled)),
        Err(_) => Err(PamConfigSyntaxError::WrongDomain(word)),
    }
}

/// Takes the control of a rule from `s[from..]`.
pub fn take_control(s: &[char], from: usize) -> (r: Result<(usize, Control), PamConfigSyntaxError>)
    requires
        from <= s@.len(),
    ensures
        match r {
            Ok((after, control)) => from <= after <= s@.len() && spec_take_control(
                s@.skip(from as int),
            ) == Ok::<(int, ControlView), PamConfigSyntaxErrorView>((after - from, control@)),
            Err(e) => spec_take_control(s@.skip(from as int)) == Err::<
                (int, ControlView),
                PamConfigSyntaxErrorView,
            >(e@),
        },
{
    let Some((end, after)) = take_control_string_at(s, from) else {
        return Err(PamConfigSyntaxError::UnclosedBracket);
    };
    let field = string_of_range(s, from, end);
    match Control::from_str(field.as_str()) {
        Ok(control) => Ok((after, control)),
        Err(e) => Err(PamConfigSyntaxError::WrongControl(e)),
    }
}

/// Takes the path of the module of a rule from `s[from..]`.
pub fn take_module(s: &[char], from: usize) -> (r: Result<
    (usize, ModulePath),
    PamConfigSyntaxError,
>)
    requires
        from <= s@.len(),
    ensures
        match r {
            Ok((after, module)) => from <= after <= s@.len() && spec_take_module(
                s@.skip(from as int),
            ) == Ok::<(int, ModulePathView), PamConfigSyntaxErrorView>((after - from, module@)),
            Err(e) => spec_take_module(s@.skip(from as int)) == Err::<
                (int, ModulePathView),
                PamConfigSyntaxErrorView,
            >(e@),
        },
{
    let (end, after) = till_whitespace_at(s, from);
    let field = string_of_range(s, from, end);
    match ModulePath::from_str(field.as_str()) {
        Ok(module) => Ok((after, module)),
        Err(_) => Err(PamConfigSyntaxError::WrongModulePath(field)),
    }
}

/// Takes the arguments of the module of a rule from `s[from..]`: all that is
/// left of the line.
pub fn take_module_arguments(s: &[char], from: usize) -> (r: Result<
    Vec<ModuleArgument>,
    PamConfigSyntaxError,
>)
    requires
        from <= s@.len(),
    ensures
        match r {
            Ok(arguments) => spec_take_module_arguments(s@.skip(from as int)) == Ok::<
                Seq<ModuleArgumentView>,
                PamConfigSyntaxErrorView,
            >(arguments_view(arguments@)),
            Err(e) => spec_take_module_arguments(s@.skip(from as int)) == Err::<
                Seq<ModuleArgumentView>,
                PamConfigSyntaxErrorView,
            >(e@),
        },
{
    match take_all_strings_at(s, from) {
        None => Err(PamConfigSyntaxError::UnclosedBracket),
        Some(fields) => module_arguments_of(fields),
    }
}

/// `take_separated_rule` on `s[from..]`.
pub fn take_separated_rule_at(s: &[char], from: usize) -> (r: Result<PamRule, PamConfigSyntaxError>)
    requires
        from <= s@.len(),
    ensures
        match r {
            Ok(rule) => spec_separated_rule(s@.skip(from as int)) == Ok::<
                PamRuleView,
                PamConfigSyntaxErrorView,
            >(rule@),
            Err(e) => spec_separated_rule(s@.skip(from as int)) == Err::<
                PamRuleView,
                PamConfigSyntaxErrorView,
            >(e@),
        },
{
    let ghost line = s@.skip(from as int);
    let (after, domain, is_logging_enabled) = match take_domain(s, from) {
        Ok(taken) => taken,
        Err(e) => {
            return Err(e);
        },
    };
    assert(line.skip(after - from) =~= s@.skip(after as int));
    let from = skip_whitespace_at(s, after);
    let ghost line = s@.skip(from as int);
    let (after, control) = match take_control(s, from) {
        Ok(taken) => taken,
        Err(e) => {
            return Err(e);
        },
    };
    assert(line.skip(after - from) =~= s@.skip(after as int));
    let from = skip_whitespace_at(s, after);
    let ghost line = s@.skip(from as int);
    let included = match &control {
        Control::Include => true,
        Control::Substack => true,
        _ => false,
    };
    if included {
        let (end, _) = till_whitespace_at(s, from);
        let target = string_of_range(s, from, end);
        if !is_proper_service_name(target.as_str()) {
            return Err(PamConfigSyntaxError::WrongServiceName(target));
        }
        // The name of a service is not empty, so only the first arm is ever taken.
        let module = match ModulePath::from_str(target.as_str()) {
            Ok(module) => module,
            Err(_) => {
                return Err(PamConfigSyntaxError::WrongServiceName(target));
            },
        };
        return Ok(
            PamRule { domain, is_logging_enabled, control, module, module_arguments: Vec::new() },
        );
    }
    let (after, module) = match take_module(s, from) {
        Ok(taken) => taken,
        Err(e) => {
            return Err(e);
        },
    };
    assert(line.skip(after - from) =~= s@.skip(after as int));
    let from = skip_whitespace_at(s, after);
    let module_arguments = match take_module_arguments(s, from) {
        Ok(taken) => taken,
        Err(e) => {
            return Err(e);
        },
    };
    Ok(PamRule { domain, is_logging_enabled, control, module, module_arguments })
}

/// Reads one line of the separated form.
pub fn take_separated_rule(escaped_line: &str) -> (r: Result<PamRule, PamConfigSyntaxError>)
    ensures
        match r {
            Ok(rule) => spec_separated_rule(escaped_line@) == Ok::<
                PamRuleView,
                PamConfigSyntaxErrorView,
            >(rule@),
            Err(e) => spec_separated_rule(escaped_line@) == Err::<
                PamRuleView,
                PamConfigSyntaxErrorView,
            >(e@),
        },
{
    let chars = chars_of(escaped_line);
    assert(chars@.skip(0) =~= chars@);
    take_separated_rule_at(chars.as_slice(), 0)
}

/// Reads one line of the packed form.
pub fn take_packed_rule(escaped_line: &str) -> (r: Result<(Service, PamRule), PamConfigSyntaxError>)
    ensures
        match r {
            Ok((service_name, rule)) => spec_packed_rule(escaped_line@) == Ok::<
                (Seq<char>, PamRuleView),
                PamConfigSyntaxErrorView,
            >((service_name@, rule@)),
            Err(e) => spec_packed_rule(escaped_line@) == Err::<
                (Seq<char>, PamRuleView),
                PamConfigSyntaxErrorView,
            >(e@),
        },
{
    let chars = chars_of(escaped_line);
    assert(chars@.skip(0) =~= chars@);
    let (after, service_name) = match take_service_name(chars.as_slice(), 0) {
        Ok(taken) => taken,
        Err(e) => {
            return Err(e);
        },
    };
    let from = skip_whitespace_at(chars.as_slice(), after);
    match take_separated_rule_at(chars.as_slice(), from) {
        Ok(rule) => Ok((service_name, rule)),
        Err(e) => Err(e),
    }
}

impl PamRule {
    #[verifier::type_invariant]
    spec fn well_formed(self) -> bool {
        inclusion_method(self.control@) is Some ==> is_service_name(self.module@.path)
            && self.module_arguments@.len() == 0
    }

    /// Get whether to log for this rule or not
    pub fn is_logging_enabled(&self) -> (r: bool)
        ensures
            r == self@.is_logging_enabled,
    {
        self.is_logging_enabled
    }

    /// Get the [`Domain`]
    ///
    /// In the PAM configuration this can have one of 4 values: 'account', 'auth', 'password' or
    /// 'session'
    pub fn domain(&self) -> (r: Domain)
        ensures
            r == self@.domain,
    {
        self.domain
    }

    /// Get the service that the rule takes in, and the way in which it does,
    /// where the control of the rule is `include` or `substack`.
    pub fn inclusion(&self) -> (r: Option<(InclusionMethod, &str)>)
        ensures
            match r {
                Some((method, target_service)) => self@.content
                    == (PamRuleContentView::ServiceInclusion {
                    method,
                    target_service: target_service@,
                }) && is_service_name(target_service@),
                None => self@.content is Entry,
            },
    {
        proof {
            use_type_invariant(self);
        }
        match &self.control {
            Control::Include => Some((InclusionMethod::Include, self.module.as_str())),
            Control::Substack => Some((InclusionMethod::Substack, self.module.as_str())),
            _ => None,
        }
    }

    /// Get the control parameters
    pub fn control(&self) -> (r: &Control)
        ensures
            r@ == self@.control(),
    {
        &self.control
    }

    /// Get the module path, or what stands in its place: the name of the
    /// service that the rule takes in.
    pub fn module(&self) -> (r: &ModulePath)
        ensures
            r@.path == self@.module_text(),
            self@.content matches PamRuleContentView::Entry { module, .. } ==> r@ == module,
    {
        &self.module
    }

    /// Get the module arguments. A rule that takes in a service has none.
    pub fn module_arguments(&self) -> (r: &[ModuleArgument])
        ensures
            arguments_view(r@) == self@.module_arguments(),
    {
        proof {
            use_type_invariant(self);
            if inclusion_method(self.control@) is Some {
                assert(arguments_view(self.module_arguments@) =~= Seq::empty());
            }
        }
        self.module_arguments.as_slice()
    }
}

/// The start of a line up to its first `#`: the line without its comment. A
/// `#` starts a comment wherever it stands, between brackets too.
pub open spec fn without_comment(line: Seq<char>) -> Seq<char> {
    line.take(run_len(line, CharClass::Other('#')) as int)
}

/// Whether a line holds nothing but white space.
pub open spec fn is_blank_line(line: Seq<char>) -> bool {
    run_len(line, CharClass::Whitespace) >= line.len()
}

/// The next line of `s` that holds a rule, and the offset behind it.
///
/// A line ends at a line feed that no backslash stands right before; a
/// backslash and the line feed behind it become one space. What follows the
/// first `#` of a line is a comment and is dropped. A line that then holds
/// nothing but white space is passed over. There is no line where `s` has
/// run out.
pub open spec fn spec_take_escaped_line(s: Seq<char>) -> Option<(int, Seq<char>)>
    decreases s.len(),
{
    let (raw, after) = spec_till_end_of_line(s);
    let line = without_comment(raw);
    if s.len() == 0 {
        None
    } else if is_blank_line(line) {
        proof {
            lemma_till_end_of_line_bounds(s);
        }
        match spec_take_escaped_line(s.skip(after)) {
            None => None,
            Some((next_after, next_line)) => Some((after + next_after, next_line)),
        }
    } else {
        Some((after, line))
    }
}

/// A line takes some of the text, and no more than there is.
pub proof fn lemma_till_end_of_line_bounds(s: Seq<char>)
    ensures
        0 <= spec_till_end_of_line(s).1 <= s.len(),
        s.len() > 0 ==> spec_till_end_of_line(s).1 > 0,
{
    lemma_escape_end_bounds(s, '\n', Some(' '));
}

/// The line that `spec_take_escaped_line` finds ends inside the text and
/// behind its start.
pub proof fn lemma_take_escaped_line_bounds(s: Seq<char>)
    ensures
        spec_take_escaped_line(s) matches Some((after, _)) ==> 0 < after <= s.len(),
    decreases s.len(),
{
    lemma_till_end_of_line_bounds(s);
    if s.len() > 0 {
        lemma_take_escaped_line_bounds(s.skip(spec_till_end_of_line(s).1));
    }
}

/// The lines of `s` that hold a rule, in their order.
pub open spec fn spec_escaped_lines(s: Seq<char>) -> Seq<Seq<char>>
    decreases s.len(),
{
    match spec_take_escaped_line(s) {
        None => Seq::empty(),
        Some((after, line)) => {
            proof {
                lemma_take_escaped_line_bounds(s);
            }
            seq![line] + spec_escaped_lines(s.skip(after))
        },
    }
}

/// Takes the next line that holds a rule from `s[from..]`.
pub fn take_escaped_line(s: &[char], from: usize) -> (r: Option<(usize, String)>)
    requires
        from <= s@.len(),
    ensures
        match r {
            Some((after, line)) => from < after <= s@.len() && spec_take_escaped_line(
                s@.skip(from as int),
            ) == Some((after - from, line@)),
            None => spec_take_escaped_line(s@.skip(from as int)) is None,
        },
{
    let mut pos: usize = from;
    let ghost whole = spec_take_escaped_line(s@.skip(from as int));
    loop
        invariant
            from <= pos <= s@.len(),
            whole == spec_take_escaped_line(s@.skip(from as int)),
            whole == match spec_take_escaped_line(s@.skip(pos as int)) {
                None => None,
                Some((after, line)) => Some((pos - from + after, line)),
            },
        decreases s@.len() - pos,
    {
        if pos >= s.len() {
            return None;
        }
        let ghost here = s@.skip(pos as int);
        proof {
            lemma_till_end_of_line_bounds(here);
            lemma_take_escaped_line_bounds(here);
        }
        let (raw, after) = till_end_of_line_at(s, pos);
        let raw_chars = chars_of(raw.as_str());
        assert(raw_chars@.skip(0) =~= raw_chars@);
        let cut = scan_run(raw_chars.as_slice(), 0, CharClass::Other('#'));
        let kept: &[char] = &raw_chars.as_slice()[0..cut];
        assert(kept@ =~= without_comment(raw@));
        assert(kept@.skip(0) =~= kept@);
        let blank = scan_run(kept, 0, CharClass::Whitespace) >= cut;
        assert(here.skip(after - pos) =~= s@.skip(after as int));
        if !blank {
            let line = string_of_range(kept, 0, cut);
            assert(line@ =~= kept@);
            return Some((after, line));
        }
        pos = after;
    }
}

/// What reading the lines of the separated form in `s` gives, line by line.
pub open spec fn spec_separated_rules(s: Seq<char>) -> Seq<
    Result<PamRuleView, PamConfigSyntaxErrorView>,
> {
    spec_escaped_lines(s).map_values(|line: Seq<char>| spec_separated_rule(line))
}

/// What reading the lines of the packed form in `s` gives, line by line.
pub open spec fn spec_packed_rules(s: Seq<char>) -> Seq<
    Result<(Seq<char>, PamRuleView), PamConfigSyntaxErrorView>,
> {
    spec_escaped_lines(s).map_values(|line: Seq<char>| spec_packed_rule(line))
}

/// All that `results` hold, in their order, or the first error among them.
pub open spec fn all_or_first_error<T, E>(results: Seq<Result<T, E>>) -> Result<Seq<T>, E>
    decreases results.len(),
{
    if results.len() == 0 {
        Ok(Seq::empty())
    } else {
        match all_or_first_error(results.drop_last()) {
            Err(e) => Err(e),
            Ok(values) => match results.last() {
                Err(e) => Err(e),
                Ok(value) => Ok(values.push(value)),
            },
        }
    }
}

/// An error among the first results is the first error of them all.
pub proof fn lemma_first_error_stays<T, E>(results: Seq<Result<T, E>>, n: int)
    requires
        0 <= n <= results.len(),
        all_or_first_error(results.take(n)) is Err,
    ensures
        all_or_first_error(results) == all_or_first_error(results.take(n)),
    decreases results.len() - n,
{
    if n < results.len() {
        assert(results.drop_last().take(n) =~= results.take(n));
        lemma_first_error_stays(results.drop_last(), n);
    } else {
        assert(results.take(n) =~= results);
    }
}

/// The rules with their texts as sequences of characters.
pub open spec fn rules_view(rules: Seq<PamRule>) -> Seq<PamRuleView> {
    rules.map_values(|rule: PamRule| rule@)
}

/// Rules and the names that come with them, with their texts as sequences of
/// characters.
pub open spec fn pairs_view(pairs: Seq<(Service, PamRule)>) -> Seq<(Seq<char>, PamRuleView)> {
    pairs.map_values(|pair: (Service, PamRule)| (pair.0@, pair.1@))
}

/// The rules of the separated form in `s`, or the fault of the first line
/// that is at fault.
pub open spec fn spec_service_rules(s: Seq<char>) -> Result<
    Seq<PamRuleView>,
    PamConfigSyntaxErrorView,
> {
    all_or_first_error(spec_separated_rules(s))
}

/// The rules of the packed form in `s`, each with the name of its service,
/// or the fault of the first line that is at fault.
pub open spec fn spec_packed_service_rules(s: Seq<char>) -> Result<
    Seq<(Seq<char>, PamRuleView)>,
    PamConfigSyntaxErrorView,
> {
    all_or_first_error(spec_packed_rules(s))
}

/// Iterator over the packed configuration format
///
/// # Packed Syntax
///
/// This format is used within the `/etc/pam.conf` file and has the following line by line syntax
///
/// ```text
/// service     domain      control     module      module-arguments
/// ```
///
/// Lines that only contain white space or a comment are ignored.
///
/// # Note
///
/// If a error is found on a line, the iterator will move to the next line. The iterator is stopped
/// when the end of file (`EOF`) is reached.
pub struct PackedRuleIterator {
    source: Vec<char>,
    offset: usize,
}

/// Iterator over the separated configuration format
///
/// # Separated Syntax
///
/// This format is used within the `/etc/pam.d` file and has the following line by line syntax
///
/// ```text
/// domain      control     module      module-arguments
/// ```
///
/// Lines that only contain white space or a comment are ignored.
///
/// # Note
///
/// If a error is found on a line, the iterator will move to the next line. The iterator is stopped
/// when the end of file (`EOF`) is reached.
pub struct SeparatedRuleIterator {
    source: Vec<char>,
    offset: usize,
}

impl View for PackedRuleIterator {
    type V = Seq<char>;

    /// The text that is left to read.
    closed spec fn view(&self) -> Seq<char> {
        self.source@.skip(self.offset as int)
    }
}

impl View for SeparatedRuleIterator {
    type V = Seq<char>;

    /// The text that is left to read.
    closed spec fn view(&self) -> Seq<char> {
        self.source@.skip(self.offset as int)
    }
}

/// What reading one line of the packed form gave, with its texts as
/// sequences of characters.
pub open spec fn packed_result_view(r: Result<(Service, PamRule), PamConfigSyntaxError>) -> Result<
    (Seq<char>, PamRuleView),
    PamConfigSyntaxErrorView,
> {
    match r {
        Ok((service_name, rule)) => Ok((service_name@, rule@)),
        Err(e) => Err(e@),
    }
}

/// What reading one line of the separated form gave, with its texts as
/// sequences of characters.
pub open spec fn separated_result_view(r: Result<PamRule, PamConfigSyntaxError>) -> Result<
    PamRuleView,
    PamConfigSyntaxErrorView,
> {
    match r {
        Ok(rule) => Ok(rule@),
        Err(e) => Err(e@),
    }
}

impl PackedRuleIterator {
    #[verifier::type_invariant]
    spec fn well_formed(self) -> bool {
        self.offset <= self.source@.len()
    }

    /// The rule of the next line that holds one, with the name of its
    /// service, or the fault of that line; `None` where no such line is left.
    pub fn next(&mut self) -> (r: Option<Result<(Service, PamRule), PamConfigSyntaxError>>)
        ensures
            match r {
                Some(rule) => spec_take_escaped_line(old(self)@) matches Some((after, line))
                    && packed_result_view(rule) == spec_packed_rule(line) && final(self)@ == old(
                    self,
                )@.skip(after),
                None => spec_take_escaped_line(old(self)@) is None && final(self)@ == old(self)@,
            },
    {
        proof {
            use_type_invariant(&*self);
        }
        let ghost here = self@;
        match take_escaped_line(self.source.as_slice(), self.offset) {
            None => None,
            Some((after, escaped_line)) => {
                assert(here.skip(after - self.offset) =~= self.source@.skip(after as int));
                self.offset = after;
                Some(take_packed_rule(escaped_line.as_str()))
            },
        }
    }

    /// The rules of all the lines that are left, each with the name of its
    /// service. The first line that is at fault ends the reading with its
    /// error.
    #[verifier::loop_isolation(false)]
    pub fn collect(&mut self) -> (r: Result<Vec<(Service, PamRule)>, PamConfigSyntaxError>)
        ensures
            match r {
                Ok(rules) => spec_packed_service_rules(old(self)@) == Ok::<
                    Seq<(Seq<char>, PamRuleView)>,
                    PamConfigSyntaxErrorView,
                >(pairs_view(rules@)),
                Err(e) => spec_packed_service_rules(old(self)@) == Err::<
                    Seq<(Seq<char>, PamRuleView)>,
                    PamConfigSyntaxErrorView,
                >(e@),
            },
    {
        let mut rules: Vec<(Service, PamRule)> = Vec::new();
        let ghost whole = spec_packed_rules(self@);
        let ghost read = |line: Seq<char>| spec_packed_rule(line);
        let ghost mut done: Seq<Result<(Seq<char>, PamRuleView), PamConfigSyntaxErrorView>> =
            Seq::empty();
        assert(pairs_view(rules@) =~= Seq::empty());
        assert(done + spec_escaped_lines(self@).map_values(read) =~= whole);
        loop
            invariant
                whole == done + spec_escaped_lines(self@).map_values(read),
                all_or_first_error(done) == Ok::<
                    Seq<(Seq<char>, PamRuleView)>,
                    PamConfigSyntaxErrorView,
                >(pairs_view(rules@)),
            decreases self@.len(),
        {
            let ghost here = self@;
            proof {
                lemma_take_escaped_line_bounds(here);
            }
            match self.next() {
                None => {
                    assert(spec_escaped_lines(here).map_values(read) =~= Seq::empty());
                    assert(done + Seq::empty() =~= done);
                    return Ok(rules);
                },
                Some(result) => {
                    let ghost this = packed_result_view(result);
                    let ghost before = done;
                    proof {
                        done = done.push(this);
                        assert(done.drop_last() =~= before);
                        assert(spec_escaped_lines(here).map_values(read) =~= seq![this]
                            + spec_escaped_lines(self@).map_values(read));
                        assert(whole =~= done + spec_escaped_lines(self@).map_values(read));
                        assert(whole.take(done.len() as int) =~= done);
                    }
                    match result {
                        Ok(pair) => {
                            let ghost rules_before = pairs_view(rules@);
                            rules.push(pair);
                            assert(pairs_view(rules@) =~= rules_before.push((pair.0@, pair.1@)));
                        },
                        Err(e) => {
                            proof {
                                lemma_first_error_stays(whole, done.len() as int);
                            }
                            return Err(e);
                        },
                    }
                },
            }
        }
    }
}

impl SeparatedRuleIterator {
    #[verifier::type_invariant]
    spec fn well_formed(self) -> bool {
        self.offset <= self.source@.len()
    }

    /// The rule of the next line that holds one, or the fault of that line;
    /// `None` where no such line is left.
    pub fn next(&mut self) -> (r: Option<Result<PamRule, PamConfigSyntaxError>>)
        ensures
            match r {
                Some(rule) => spec_take_escaped_line(old(self)@) matches Some((after, line))
                    && separated_result_view(rule) == spec_separated_rule(line) && final(self)@
                    == old(self)@.skip(after),
                None => spec_take_escaped_line(old(self)@) is None && final(self)@ == old(self)@,
            },
    {
        proof {
            use_type_invariant(&*self);
        }
        let ghost here = self@;
        match take_escaped_line(self.source.as_slice(), self.offset) {
            None => None,
            Some((after, escaped_line)) => {
                assert(here.skip(after - self.offset) =~= self.source@.skip(after as int));
                self.offset = after;
                Some(take_separated_rule(escaped_line.as_str()))
            },
        }
    }

    /// The rules of all the lines that are left. The first line that is at
    /// fault ends the reading with its error.
    #[verifier::loop_isolation(false)]
    pub fn collect(&mut self) -> (r: Result<Vec<PamRule>, PamConfigSyntaxError>)
        ensures
            match r {
                Ok(rules) => spec_service_rules(old(self)@) == Ok::<
                    Seq<PamRuleView>,
                    PamConfigSyntaxErrorView,
                >(rules_view(rules@)),
                Err(e) => spec_service_rules(old(self)@) == Err::<
                    Seq<PamRuleView>,
                    PamConfigSyntaxErrorView,
                >(e@),
            },
    {
        let mut rules: Vec<PamRule> = Vec::new();
        let ghost whole = spec_separated_rules(self@);
        let ghost read = |line: Seq<char>| spec_separated_rule(line);
        let ghost mut done: Seq<Result<PamRuleView, PamConfigSyntaxErrorView>> =
            Seq::empty();
        assert(rules_view(rules@) =~= Seq::empty());
        assert(done + spec_escaped_lines(self@).map_values(read) =~= whole);
        loop
            invariant
                whole == done + spec_escaped_lines(self@).map_values(read),
                all_or_first_error(done) == Ok::<
                    Seq<PamRuleView>,
                    PamConfigSyntaxErrorView,
                >(rules_view(rules@)),
            decreases self@.len(),
        {
            let ghost here = self@;
            proof {
                lemma_take_escaped_line_bounds(here);
            }
            match self.next() {
                None => {
                    assert(spec_escaped_lines(here).map_values(read) =~= Seq::empty());
                    assert(done + Seq::empty() =~= done);
                    return Ok(rules);
                },
                Some(result) => {
                    let ghost this = separated_result_view(result);
                    let ghost before = done;
                    proof {
                        done = done.push(this);
                        assert(done.drop_last() =~= before);
                        assert(spec_escaped_lines(here).map_values(read) =~= seq![this]
                            + spec_escaped_lines(self@).map_values(read));
                        assert(whole =~= done + spec_escaped_lines(self@).map_values(read));
                        assert(whole.take(done.len() as int) =~= done);
                    }
                    match result {
                        Ok(rule) => {
                            let ghost rules_before = rules_view(rules@);
                            rules.push(rule);
                            assert(rules_view(rules@) =~= rules_before.push(rule@));
                        },
                        Err(e) => {
                            proof {
                                lemma_first_error_stays(whole, done.len() as int);
                            }
                            return Err(e);
                        },
                    }
                },
            }
        }
    }
}

impl PamRule {
    /// Create an iterator over rules in the packed configuration format
    ///
    /// The packed configuration format is the same format as used in `/etc/pam.conf`.
    pub fn packed_iter(s: &str) -> (r: PackedRuleIterator)
        ensures
            r@ == s@,
    {
        let source = chars_of(s);
        assert(source@.skip(0) =~= source@);
        PackedRuleIterator { source, offset: 0 }
    }

    /// Create an iterator over rules in the separated configuration format
    ///
    /// The separated configuration format is the same format as used in `/etc/pam.d`.
    pub fn separated_iter(s: &str) -> (r: SeparatedRuleIterator)
        ensures
            r@ == s@,
    {
        let source = chars_of(s);
        assert(source@.skip(0) =~= source@);
        SeparatedRuleIterator { source, offset: 0 }
    }
}

/// Whether `line` starts with `-`.
pub open spec fn starts_with_dash(line: Seq<char>) -> bool {
    line.len() > 0 && line[0] == '-'
}

/// A rule of the separated form is logged exactly where its line does not
/// start with `-`.
pub proof fn lemma_dash_switches_logging_off(line: Seq<char>)
    ensures
        spec_separated_rule(line) matches Ok(rule) ==> rule.is_logging_enabled == !starts_with_dash(
            line,
        ),
{
    lemma_run_len(line, CharClass::NotBlank);
    let field = spec_till_whitespace(line).0;
    if field.len() > 0 {
        assert(field[0] == line[0]);
    }
}

/// A rule of the packed form is logged exactly where no `-` stands at the
/// start of what follows the name of the service and the blanks behind it.
pub proof fn lemma_dash_switches_logging_off_packed(line: Seq<char>)
    ensures
        spec_packed_rule(line) matches Ok((_, rule)) ==> spec_take_service_name(line) matches Ok(
            (after, _),
        ) && rule.is_logging_enabled == !starts_with_dash(spec_next_field(line, after)),
{
    if let Ok((after, _)) = spec_take_service_name(line) {
        lemma_dash_switches_logging_off(spec_next_field(line, after));
    }
}

/// A `-` before a line of the separated form changes nothing but the logging
/// of its rule: the fields are read as without it, and so are the faults.
pub proof fn lemma_dash_changes_logging_only(line: Seq<char>)
    requires
        !starts_with_dash(line),
    ensures
        spec_separated_rule(seq!['-'] + line) == match spec_separated_rule(line) {
            Ok(rule) => Ok::<PamRuleView, PamConfigSyntaxErrorView>(
                PamRuleView {
                    is_logging_enabled: false,
                    domain: rule.domain,
                    content: rule.content,
                },
            ),
            Err(e) => Err(e),
        },
{
    let dashed = seq!['-'] + line;
    let n = run_len(line, CharClass::NotBlank) as int;
    lemma_run_len(line, CharClass::NotBlank);
    assert forall|i: int| 0 <= i < n + 1 implies CharClass::NotBlank.has(#[trigger] dashed[i]) by {
        if i > 0 {
            assert(dashed[i] == line[i - 1]);
        }
    }
    if n < line.len() {
        assert(dashed[n + 1] == line[n]);
    }
    lemma_run_len_is(dashed, CharClass::NotBlank, n + 1);
    let field = spec_till_whitespace(line).0;
    let dashed_field = spec_till_whitespace(dashed).0;
    assert(dashed_field =~= seq!['-'] + field);
    assert(dashed_field.skip(1) =~= field);
    assert(dashed_field[0] == '-');
    if field.len() > 0 {
        assert(field[0] == line[0]);
    }
    assert(dashed.skip(spec_till_whitespace(dashed).1) =~= line.skip(spec_till_whitespace(line).1));
}

} // verus!
