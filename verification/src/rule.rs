//! Rules: the lines of a configuration, decoded field by field.

use vstd::prelude::*;
use crate::control::{Control, ControlView, spec_parse_control};
use crate::error::{PamConfigSyntaxError, PamConfigSyntaxErrorView};
use crate::facility::{Facility, spec_parse_facility};
use crate::module::{ModulePath, ModulePathView, spec_parse_module};
use crate::module_arguments::{ModuleArgument, ModuleArgumentView, spec_parse_argument};
use crate::parse::{
    RuleToken, RuleTokenContent, RuleTokenContentView, RuleTokenIterator, RuleTokenView,
    spec_lines, spec_next_line, spec_rule_token, lemma_next_line_bounds, lemma_next_line_none,
};
use crate::service::{Service, UnproperServiceName, is_service_name, spec_parse_service};

verus! {

/// How a rule takes in the chain of another service.
#[derive(Debug, Clone, Copy, PartialEq, Eq)]
pub enum InclusionMethod {
    Include,
    Substack,
}

/// The method that `s` names.
pub open spec fn spec_inclusion_method(s: Seq<char>) -> Result<InclusionMethod, ()> {
    if s == "include"@ {
        Ok(InclusionMethod::Include)
    } else if s == "substack"@ {
        Ok(InclusionMethod::Substack)
    } else {
        Err(())
    }
}

impl InclusionMethod {
    /// Reads `include` or `substack`.
    pub fn from_str(s: &str) -> (r: Result<InclusionMethod, ()>)
        ensures
            r == spec_inclusion_method(s@),
    {
        if s.eq("include") {
            Ok(InclusionMethod::Include)
        } else if s.eq("substack") {
            Ok(InclusionMethod::Substack)
        } else {
            Err(())
        }
    }
}

/// One line of a configuration, decoded.
#[derive(Debug, PartialEq, Eq)]
pub struct Rule {
    do_log: bool,
    service: Service,
    facility: Facility,
    content: RuleContent,
}

/// What a rule asks for.
#[derive(Debug, PartialEq, Eq)]
pub enum RuleContent {
    /// The chain of another service is run in place of this rule.
    ServiceInclusion { method: InclusionMethod, service: Service },
    /// A module is called.
    Entry { control_flag: Control, module: ModulePath, module_arguments: Vec<ModuleArgument> },
}

/// Why a line gave no rule.
#[derive(Debug, PartialEq, Eq)]
pub enum RuleError {
    /// A field of the line is not what the grammar asks for.
    Syntax(PamConfigSyntaxError),
    /// The service that the line names, for itself or to include, has no
    /// proper name.
    Service(UnproperServiceName),
}

/// A `RuleContent` with its texts as sequences of characters.
pub enum RuleContentView {
    ServiceInclusion { method: InclusionMethod, service: Seq<char> },
    Entry {
        control_flag: ControlView,
        module: ModulePathView,
        module_arguments: Seq<ModuleArgumentView>,
    },
}

/// A `Rule` with its texts as sequences of characters.
pub struct RuleView {
    pub do_log: bool,
    pub service: Seq<char>,
    pub facility: Facility,
    pub content: RuleContentView,
}

/// A `RuleError` with its texts as sequences of characters.
pub enum RuleErrorView {
    Syntax(PamConfigSyntaxErrorView),
    Service((int, Seq<char>)),
}

/// The arguments with their texts as sequences of characters.
pub open spec fn arguments_view(arguments: Seq<ModuleArgument>) -> Seq<ModuleArgumentView> {
    arguments.map_values(|argument: ModuleArgument| argument@)
}

impl View for RuleContent {
    type V = RuleContentView;

    open spec fn view(&self) -> RuleContentView {
        match self {
            RuleContent::ServiceInclusion { method, service } => {
                RuleContentView::ServiceInclusion { method: *method, service: service@ }
            },
            RuleContent::Entry { control_flag, module, module_arguments } => {
                RuleContentView::Entry {
                    control_flag: control_flag@,
                    module: module@,
                    module_arguments: arguments_view(module_arguments@),
                }
            },
        }
    }
}

impl View for Rule {
    type V = RuleView;

    closed spec fn view(&self) -> RuleView {
        RuleView {
            do_log: self.do_log,
            service: self.service@,
            facility: self.facility,
            content: self.content@,
        }
    }
}

impl View for RuleError {
    type V = RuleErrorView;

    open spec fn view(&self) -> RuleErrorView {
        match self {
            RuleError::Syntax(e) => RuleErrorView::Syntax(e@),
            RuleError::Service(e) => RuleErrorView::Service(e@),
        }
    }
}

/// The arguments that `fields` write, or the first field that writes none.
pub open spec fn spec_parse_arguments(fields: Seq<Seq<char>>) -> Result<
    Seq<ModuleArgumentView>,
    PamConfigSyntaxErrorView,
>
    decreases fields.len(),
{
    if fields.len() == 0 {
        Ok(Seq::empty())
    } else {
        match spec_parse_arguments(fields.drop_last()) {
            Err(e) => Err(e),
            Ok(arguments) => match spec_parse_argument(fields.last()) {
                Err(_) => Err(PamConfigSyntaxErrorView::WrongModuleArgs(fields.last())),
                Ok(argument) => Ok(arguments.push(argument)),
            },
        }
    }
}

/// What the fields of a rule ask for, decoded: the service to include, or the
/// control, the module and its arguments. The first field that cannot be
/// decoded is the error.
pub open spec fn spec_rule_content(content: RuleTokenContentView) -> Result<
    RuleContentView,
    RuleErrorView,
> {
    match content {
        RuleTokenContentView::ServiceInclusion { method, service } => {
            match spec_parse_service(service) {
                Err(e) => Err(RuleErrorView::Service(e)),
                Ok(service) => Ok(RuleContentView::ServiceInclusion { method, service }),
            }
        },
        RuleTokenContentView::Entry { control_flag, module, module_arguments } => {
            match spec_parse_control(control_flag) {
                Err(e) => Err(RuleErrorView::Syntax(PamConfigSyntaxErrorView::WrongControl(e))),
                Ok(control_flag) => match spec_parse_module(module) {
                    Err(_) => Err(
                        RuleErrorView::Syntax(PamConfigSyntaxErrorView::WrongModulePath(module)),
                    ),
                    Ok(module) => match spec_parse_arguments(module_arguments) {
                        Err(e) => Err(RuleErrorView::Syntax(e)),
                        Ok(module_arguments) => Ok(
                            RuleContentView::Entry { control_flag, module, module_arguments },
                        ),
                    },
                },
            }
        },
    }
}

/// The rule that the fields of a line write. The service is decoded first,
/// then the facility, then the rest.
pub open spec fn spec_rule(token: RuleTokenView) -> Result<RuleView, RuleErrorView> {
    match spec_parse_service(token.service) {
        Err(e) => Err(RuleErrorView::Service(e)),
        Ok(service) => match spec_parse_facility(token.facility) {
            Err(_) => Err(
                RuleErrorView::Syntax(PamConfigSyntaxErrorView::WrongDomain(token.facility)),
            ),
            Ok(facility) => match spec_rule_content(token.content) {
                Err(e) => Err(e),
                Ok(content) => Ok(RuleView { do_log: token.do_log, service, facility, content }),
            },
        },
    }
}

/// The rule that `line` writes, or the fault of the line.
pub open spec fn spec_rule_of_line(line: Seq<char>, known_service: Option<Seq<char>>) -> Result<
    RuleView,
    RuleErrorView,
> {
    match spec_rule_token(line, known_service) {
        Err(e) => Err(RuleErrorView::Syntax(e)),
        Ok(token) => spec_rule(token),
    }
}

/// What reading one rule gave, with its texts as sequences of characters.
pub open spec fn rule_result_view(r: Result<Rule, RuleError>) -> Result<RuleView, RuleErrorView> {
    match r {
        Ok(rule) => Ok(rule@),
        Err(e) => Err(e@),
    }
}

/// Decodes the arguments of a module.
pub fn module_arguments_of(fields: Vec<String>) -> (r: Result<
    Vec<ModuleArgument>,
    PamConfigSyntaxError,
>)
    ensures
        match r {
            Ok(arguments) => spec_parse_arguments(fields.deep_view()) == Ok::<
                Seq<ModuleArgumentView>,
                PamConfigSyntaxErrorView,
            >(arguments_view(arguments@)),
            Err(e) => spec_parse_arguments(fields.deep_view()) == Err::<
                Seq<ModuleArgumentView>,
                PamConfigSyntaxErrorView,
            >(e@),
        },
{
    let mut arguments: Vec<ModuleArgument> = Vec::new();
    let mut i: usize = 0;
    let ghost all = fields.deep_view();
    assert(all.take(0) =~= Seq::<Seq<char>>::empty());
    assert(arguments_view(arguments@) =~= Seq::<ModuleArgumentView>::empty());
    while i < fields.len()
        invariant
            i <= fields@.len(),
            all == fields.deep_view(),
            spec_parse_arguments(all.take(i as int)) == Ok::<
                Seq<ModuleArgumentView>,
                PamConfigSyntaxErrorView,
            >(arguments_view(arguments@)),
        decreases fields@.len() - i,
    {
        let ghost before = arguments_view(arguments@);
        proof {
            assert(all.take(i + 1).drop_last() =~= all.take(i as int));
            assert(all.take(i + 1).last() == fields@[i as int]@);
        }
        match ModuleArgument::from_str(fields[i].as_str()) {
            Ok(argument) => {
                arguments.push(argument);
                assert(arguments_view(arguments@) =~= before.push(argument@));
            },
            Err(_) => {
                proof {
                    lemma_arguments_error(all, i + 1);
                }
                return Err(PamConfigSyntaxError::WrongModuleArgs(fields[i].clone()));
            },
        }
        i += 1;
    }
    assert(all.take(i as int) =~= all);
    Ok(arguments)
}

/// An error among the first fields stays the error of all the fields.
pub proof fn lemma_arguments_error(fields: Seq<Seq<char>>, n: int)
    requires
        0 <= n <= fields.len(),
        spec_parse_arguments(fields.take(n)) is Err,
    ensures
        spec_parse_arguments(fields) == spec_parse_arguments(fields.take(n)),
    decreases fields.len() - n,
{
    if n < fields.len() {
        assert(fields.drop_last().take(n) =~= fields.take(n));
        lemma_arguments_error(fields.drop_last(), n);
    } else {
        assert(fields.take(n) =~= fields);
    }
}

impl Rule {
    /// Whether what this rule does is logged: it is, unless the line of the
    /// rule started with `-`.
    pub fn do_log(&self) -> (r: bool)
        ensures
            r == self@.do_log,
    {
        self.do_log
    }

    /// The name of the service that this rule belongs to. It is not empty
    /// and holds nothing but letters and digits of ASCII, `_` and `-`.
    pub fn service(&self) -> (r: &str)
        ensures
            r@ == self@.service,
            is_service_name(r@),
    {
        self.service.as_ref()
    }

    /// The facility that this rule applies to.
    pub fn facility(&self) -> (r: Facility)
        ensures
            r == self@.facility,
    {
        self.facility
    }

    /// What this rule asks for.
    pub fn content(&self) -> (r: &RuleContent)
        ensures
            r@ == self@.content,
    {
        &self.content
    }

    /// Decodes the fields of a rule.
    pub fn from_token(token: RuleToken) -> (r: Result<Rule, RuleError>)
        ensures
            rule_result_view(r) == spec_rule(token@),
    {
        let RuleToken { do_log, service, facility, content } = token;
        let service = match Service::try_from(service) {
            Ok(service) => service,
            Err(e) => {
                return Err(RuleError::Service(e));
            },
        };
        let facility = match Facility::from_str(facility.as_str()) {
            Ok(facility) => facility,
            Err(_) => {
                return Err(RuleError::Syntax(PamConfigSyntaxError::WrongDomain(facility)));
            },
        };
        let content = match content {
            RuleTokenContent::ServiceInclusion { method, service } => {
                match Service::try_from(service) {
                    Ok(service) => RuleContent::ServiceInclusion { method, service },
                    Err(e) => {
                        return Err(RuleError::Service(e));
                    },
                }
            },
            RuleTokenContent::Entry { control_flag, module, module_arguments } => {
                let control_flag = match Control::from_str(control_flag.as_str()) {
                    Ok(control_flag) => control_flag,
                    Err(e) => {
                        return Err(RuleError::Syntax(PamConfigSyntaxError::WrongControl(e)));
                    },
                };
                let module = match ModulePath::from_str(module.as_str()) {
                    Ok(path) => path,
                    Err(_) => {
                        return Err(
                            RuleError::Syntax(PamConfigSyntaxError::WrongModulePath(module)),
                        );
                    },
                };
                let module_arguments = match module_arguments_of(module_arguments) {
                    Ok(arguments) => arguments,
                    Err(e) => {
                        return Err(RuleError::Syntax(e));
                    },
                };
                RuleContent::Entry { control_flag, module, module_arguments }
            },
        };
        Ok(Rule { do_log, service, facility, content })
    }
}

/// What reading the rules of `s` gives, line by line: each rule, or the fault
/// of its line.
pub open spec fn spec_rules(s: Seq<char>, known_service: Option<Seq<char>>) -> Seq<
    Result<RuleView, RuleErrorView>,
> {
    spec_lines(s).map_values(|line: Seq<char>| spec_rule_of_line(line, known_service))
}

/// What reading some rules gave, with their texts as sequences of characters.
pub open spec fn rule_results_view(results: Seq<Result<Rule, RuleError>>) -> Seq<
    Result<RuleView, RuleErrorView>,
> {
    results.map_values(|r: Result<Rule, RuleError>| rule_result_view(r))
}

/// Reads a text rule by rule. A line that is at fault gives an error and
/// leaves the lines behind it to be read.
pub struct RuleIterator {
    rule_token_iterator: RuleTokenIterator,
}

impl View for RuleIterator {
    type V = Seq<char>;

    /// The text that is left to read.
    closed spec fn view(&self) -> Seq<char> {
        self.rule_token_iterator@
    }
}

impl RuleIterator {
    /// The service that every rule of the text belongs to, where the text
    /// itself does not name it.
    pub closed spec fn known_service(&self) -> Option<Seq<char>> {
        self.rule_token_iterator.known_service()
    }

    /// A reader of the rules of one service: no line of `source` names it.
    pub fn with_service(source: &str, service: &str) -> (r: Self)
        ensures
            r@ == source@,
            r.known_service() == Some(service@),
    {
        Self { rule_token_iterator: RuleTokenIterator::with_service(source, service) }
    }

    /// A reader of rules that each start with the name of their service.
    pub fn new(source: &str) -> (r: Self)
        ensures
            r@ == source@,
            r.known_service() is None,
    {
        Self { rule_token_iterator: RuleTokenIterator::new(source) }
    }

    /// The next rule or the fault of its line, or `None` where the text holds
    /// no more lines.
    pub fn next(&mut self) -> (r: Option<Result<Rule, RuleError>>)
        ensures
            final(self).known_service() == old(self).known_service(),
            final(self)@ == old(self)@.skip(spec_next_line(old(self)@, Seq::empty()).1),
            match r {
                Some(rule) => spec_next_line(old(self)@, Seq::empty()).0 matches Some(line)
                    && rule_result_view(rule) == spec_rule_of_line(line, old(self).known_service()),
                None => spec_next_line(old(self)@, Seq::empty()).0 is None,
            },
    {
        match self.rule_token_iterator.next() {
            None => None,
            Some(Err(e)) => Some(Err(RuleError::Syntax(e))),
            Some(Ok(rule_token)) => Some(Rule::from_token(rule_token)),
        }
    }

    /// What reading all the rules that are left gives, in their order.
    #[verifier::loop_isolation(false)]
    pub fn collect(&mut self) -> (r: Vec<Result<Rule, RuleError>>)
        ensures
            rule_results_view(r@) == spec_rules(old(self)@, old(self).known_service()),
            final(self).known_service() == old(self).known_service(),
            final(self)@.len() == 0,
    {
        let mut rules: Vec<Result<Rule, RuleError>> = Vec::new();
        let ghost known = self.known_service();
        let ghost whole = spec_rules(self@, known);
        let ghost read = |line: Seq<char>| spec_rule_of_line(line, known);
        assert(rule_results_view(rules@) =~= Seq::empty());
        loop
            invariant
                self.known_service() == known,
                whole == rule_results_view(rules@) + spec_lines(self@).map_values(read),
            decreases self@.len(),
        {
            let ghost here = self@;
            proof {
                lemma_next_line_bounds(here, Seq::empty());
                lemma_next_line_none(here, Seq::empty());
            }
            match self.next() {
                None => {
                    assert(spec_lines(here).map_values(read) =~= Seq::empty());
                    assert(rule_results_view(rules@) + Seq::empty() =~= rule_results_view(
                        rules@,
                    ));
                    return rules;
                },
                Some(rule) => {
                    let ghost before = rule_results_view(rules@);
                    let ghost line = spec_next_line(here, Seq::empty()).0->0;
                    let ghost this = rule_result_view(rule);
                    rules.push(rule);
                    proof {
                        assert(rule_results_view(rules@) =~= before.push(this));
                        assert(spec_lines(here) == seq![line] + spec_lines(self@));
                        assert(spec_lines(here).map_values(read) =~= seq![read(line)] + spec_lines(
                            self@,
                        ).map_values(read));
                        assert(rule_results_view(rules@) + spec_lines(self@).map_values(read)
                            =~= before + (seq![read(line)] + spec_lines(self@).map_values(read)));
                    }
                },
            }
        }
    }
}

/// A rule is logged exactly where its line does not start with `-`.
pub proof fn lemma_dash_switches_logging_off(line: Seq<char>, known_service: Option<Seq<char>>)
    ensures
        spec_rule_token(line, known_service) matches Ok(token) ==> token.do_log == !(line.len() > 0
            && line[0] == '-'),
        spec_rule_of_line(line, known_service) matches Ok(rule) ==> rule.do_log == !(line.len() > 0
            && line[0] == '-'),
{
}

/// A `-` before a line changes nothing but the logging of its rule: the
/// fields are read as without it, and so are the faults.
pub proof fn lemma_dash_changes_logging_only(line: Seq<char>, known_service: Option<Seq<char>>)
    requires
        !(line.len() > 0 && line[0] == '-'),
    ensures
        spec_rule_token(seq!['-'] + line, known_service) == match spec_rule_token(
            line,
            known_service,
        ) {
            Ok(token) => Ok::<RuleTokenView, PamConfigSyntaxErrorView>(
                RuleTokenView {
                    do_log: false,
                    service: token.service,
                    facility: token.facility,
                    content: token.content,
                },
            ),
            Err(e) => Err(e),
        },
        spec_rule_of_line(seq!['-'] + line, known_service) == match spec_rule_of_line(
            line,
            known_service,
        ) {
            Ok(rule) => Ok::<RuleView, RuleErrorView>(
                RuleView {
                    do_log: false,
                    service: rule.service,
                    facility: rule.facility,
                    content: rule.content,
                },
            ),
            Err(e) => Err(e),
        },
{
    let dashed = seq!['-'] + line;
    assert(dashed.skip(1) =~= line);
}

} // verus!
