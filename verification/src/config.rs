//! Services and configurations: the rules of a text gathered under the names
//! of their services.

use vstd::prelude::*;
use crate::error::{
    PamConfigError, PamConfigErrorView, PamConfigSyntaxError, PamConfigSyntaxErrorView,
};
use crate::service::{Service, is_service_name};
use crate::pam_rule::{
    PamRule, PamRuleView, pairs_view, rules_view, spec_packed_service_rules, spec_service_rules,
};

verus! {
/// Named set of [`PamRule`]
#[derive(Debug, PartialEq, Eq)]
pub struct PamService {
    name: Service,
    rules: Vec<PamRule>,
}

/// Configuration environment present on a system consisting of several services
///
/// No two of its services have the same name. The services stand in the order
/// in which the text first names them, and the rules of a service stand in the
/// order of their lines.
#[derive(Debug, PartialEq, Eq)]
pub struct PamConfig {
    services: Vec<PamService>,
}

/// A `PamService` with its texts as sequences of characters.
pub struct PamServiceView {
    pub name: Seq<char>,
    pub rules: Seq<PamRuleView>,
}

/// The services with their texts as sequences of characters.
pub open spec fn services_view(services: Seq<PamService>) -> Seq<PamServiceView> {
    services.map_values(|service: PamService| service@)
}

impl View for PamService {
    type V = PamServiceView;

    closed spec fn view(&self) -> PamServiceView {
        PamServiceView { name: self.name@, rules: rules_view(self.rules@) }
    }
}

impl View for PamConfig {
    type V = Seq<PamServiceView>;

    closed spec fn view(&self) -> Seq<PamServiceView> {
        services_view(self.services@)
    }
}

/// The names and texts of service files as sequences of characters.
pub open spec fn files_view(files: Seq<(String, String)>) -> Seq<(Seq<char>, Seq<char>)> {
    files.map_values(|file: (String, String)| (file.0@, file.1@))
}

/// The place of the first service called `name`, or `services.len()` where
/// none is.
pub open spec fn position_of(services: Seq<PamServiceView>, name: Seq<char>) -> int
    decreases services.len(),
{
    if services.len() == 0 || services[0].name == name {
        0
    } else {
        1 + position_of(services.drop_first(), name)
    }
}

/// No two services of a configuration have the same name.
pub open spec fn distinct_names(services: Seq<PamServiceView>) -> bool {
    forall|i: int, j: int|
        0 <= i < j < services.len() ==> (#[trigger] services[i]).name != (
        #[trigger] services[j]).name
}

/// `services` with one more rule: at the end of the service called `name`,
/// or in a new service behind the others where none is called so.
pub open spec fn with_rule(services: Seq<PamServiceView>, name: Seq<char>, rule: PamRuleView) -> Seq<
    PamServiceView,
> {
    let i = position_of(services, name);
    if 0 <= i < services.len() {
        services.update(i, PamServiceView { name, rules: services[i].rules.push(rule) })
    } else {
        services.push(PamServiceView { name, rules: seq![rule] })
    }
}

/// The services that the rules of `pairs` make up, each rule under the name
/// that stands with it.
pub open spec fn grouped(pairs: Seq<(Seq<char>, PamRuleView)>) -> Seq<PamServiceView>
    decreases pairs.len(),
{
    if pairs.len() == 0 {
        Seq::empty()
    } else {
        with_rule(grouped(pairs.drop_last()), pairs.last().0, pairs.last().1)
    }
}

/// The rules that stand under `name` in `pairs`, in their order.
pub open spec fn rules_named(pairs: Seq<(Seq<char>, PamRuleView)>, name: Seq<char>) -> Seq<
    PamRuleView,
>
    decreases pairs.len(),
{
    if pairs.len() == 0 {
        Seq::empty()
    } else if pairs.last().0 == name {
        rules_named(pairs.drop_last(), name).push(pairs.last().1)
    } else {
        rules_named(pairs.drop_last(), name)
    }
}

/// `services` with one more service: its rules go to the end of the service
/// of the same name, or it is put behind the others where none has its name.
pub open spec fn with_service(services: Seq<PamServiceView>, service: PamServiceView) -> Seq<
    PamServiceView,
> {
    let i = position_of(services, service.name);
    if 0 <= i < services.len() {
        services.update(
            i,
            PamServiceView { name: service.name, rules: services[i].rules + service.rules },
        )
    } else {
        services.push(service)
    }
}

/// The services that service files make up, each file given by its name and
/// its text in the separated form. The name of a file must be the name of a
/// service. The first file that is at fault gives the error: its name, or
/// else the first line of its text that is at fault.
pub open spec fn gathered(files: Seq<(Seq<char>, Seq<char>)>) -> Result<
    Seq<PamServiceView>,
    PamConfigErrorView,
>
    decreases files.len(),
{
    if files.len() == 0 {
        Ok(Seq::empty())
    } else {
        let name = files.last().0;
        match gathered(files.drop_last()) {
            Err(e) => Err(e),
            Ok(services) => if !is_service_name(name) {
                Err(PamConfigErrorView::Syntax(PamConfigSyntaxErrorView::WrongServiceName(name)))
            } else {
                match spec_service_rules(files.last().1) {
                    Err(e) => Err(PamConfigErrorView::Syntax(e)),
                    Ok(rules) => Ok(with_service(services, PamServiceView { name, rules })),
                }
            },
        }
    }
}

/// The services of the packed form in `s`, or the fault of the first line
/// that is at fault.
pub open spec fn spec_config(s: Seq<char>) -> Result<
    Seq<PamServiceView>,
    PamConfigSyntaxErrorView,
> {
    match spec_packed_service_rules(s) {
        Err(e) => Err(e),
        Ok(pairs) => Ok(grouped(pairs)),
    }
}

/// The configuration that the service files of a directory make up. The name
/// of a file is the name of its service. A directory without a file gives
/// none.
pub open spec fn spec_directory_config(files: Seq<(Seq<char>, Seq<char>)>) -> Result<
    Seq<PamServiceView>,
    PamConfigErrorView,
> {
    if files.len() == 0 {
        Err(PamConfigErrorView::EmptyFileList)
    } else {
        gathered(files)
    }
}

/// What `position_of` is: it lies in `0..=services.len()`, no service before
/// it is called `name`, and the service at it is.
pub proof fn lemma_position_of(services: Seq<PamServiceView>, name: Seq<char>)
    ensures
        0 <= position_of(services, name) <= services.len(),
        forall|i: int| 0 <= i < position_of(services, name) ==> (#[trigger] services[i]).name != name,
        position_of(services, name) < services.len() ==> services[position_of(
            services,
            name,
        )].name == name,
    decreases services.len(),
{
    if !(services.len() == 0 || services[0].name == name) {
        let rest = services.drop_first();
        lemma_position_of(rest, name);
        assert forall|i: int| 0 <= i < position_of(services, name) implies (
        #[trigger] services[i]).name != name by {
            if i > 0 {
                assert(services[i] == rest[i - 1]);
            }
        }
        if position_of(services, name) < services.len() {
            assert(services[position_of(services, name)] == rest[position_of(rest, name)]);
        }
    }
}

/// The one place with the properties of `lemma_position_of` is `position_of`.
pub proof fn lemma_position_of_is(services: Seq<PamServiceView>, name: Seq<char>, n: int)
    requires
        0 <= n <= services.len(),
        forall|i: int| 0 <= i < n ==> (#[trigger] services[i]).name != name,
        n < services.len() ==> services[n].name == name,
    ensures
        position_of(services, name) == n,
{
    lemma_position_of(services, name);
    let p = position_of(services, name);
    if p < n {
        assert(services[p].name != name);
    }
}

/// Gathering rules under their names never gives one name to two services,
/// and leaves no service without a rule.
pub proof fn lemma_grouped_names(pairs: Seq<(Seq<char>, PamRuleView)>)
    ensures
        distinct_names(grouped(pairs)),
        forall|i: int| 0 <= i < grouped(pairs).len() ==> (#[trigger] grouped(pairs)[i]).rules.len() > 0,
    decreases pairs.len(),
{
    if pairs.len() > 0 {
        let before = grouped(pairs.drop_last());
        lemma_grouped_names(pairs.drop_last());
        lemma_position_of(before, pairs.last().0);
        let after = grouped(pairs);
        assert forall|i: int, j: int| 0 <= i < j < after.len() implies (#[trigger] after[i]).name != (
        #[trigger] after[j]).name by {
            if j < before.len() {
                assert(after[i].name == before[i].name);
                assert(after[j].name == before[j].name);
            } else {
                assert(after[i].name == before[i].name);
            }
        }
    }
}

/// Gathering loses no rule and keeps the order of the lines: each service
/// holds the rules that stand under its name, in their order, and a name
/// without a service has no rule.
pub proof fn lemma_grouped_rules(pairs: Seq<(Seq<char>, PamRuleView)>)
    ensures
        forall|i: int|
            0 <= i < grouped(pairs).len() ==> (#[trigger] grouped(pairs)[i]).rules == rules_named(
                pairs,
                grouped(pairs)[i].name,
            ),
        forall|name: Seq<char>|
            position_of(grouped(pairs), name) >= grouped(pairs).len() ==> (#[trigger] rules_named(
                pairs,
                name,
            )).len() == 0,
    decreases pairs.len(),
{
    if pairs.len() > 0 {
        let rest = pairs.drop_last();
        let before = grouped(rest);
        let after = grouped(pairs);
        let name = pairs.last().0;
        let p = position_of(before, name);
        lemma_grouped_rules(rest);
        lemma_grouped_names(rest);
        lemma_position_of(before, name);
        assert forall|i: int| 0 <= i < after.len() implies (#[trigger] after[i]).rules
            == rules_named(pairs, after[i].name) by {
            if i < before.len() && i != p {
                assert(after[i] == before[i]);
                if p < before.len() {
                    assert(before[i].name != before[p].name);
                }
            } else if i < before.len() {
                assert(after[i].rules == before[i].rules.push(pairs.last().1));
            } else {
                assert(rules_named(rest, name).len() == 0);
                assert(after[i].rules =~= rules_named(pairs, name));
            }
        }
        assert forall|other: Seq<char>| position_of(after, other) >= after.len() implies (
        #[trigger] rules_named(pairs, other)).len() == 0 by {
            lemma_position_of(after, other);
            if other == name {
                if p < before.len() {
                    assert(after[p].name == name);
                } else {
                    assert(after[before.len() as int].name == name);
                }
            } else {
                assert forall|k: int| 0 <= k < before.len() implies (#[trigger] before[k]).name
                    != other by {
                    assert(after[k].name == before[k].name);
                }
                lemma_position_of_is(before, other, before.len() as int);
                assert(rules_named(rest, other).len() == 0);
                assert(rules_named(pairs, other) == rules_named(rest, other));
            }
        }
    }
}

/// Putting a service to services with distinct names leaves the names
/// distinct.
pub proof fn lemma_with_service_names(services: Seq<PamServiceView>, service: PamServiceView)
    requires
        distinct_names(services),
    ensures
        distinct_names(with_service(services, service)),
{
    lemma_position_of(services, service.name);
    let after = with_service(services, service);
    assert forall|i: int, j: int| 0 <= i < j < after.len() implies (#[trigger] after[i]).name != (
    #[trigger] after[j]).name by {
        if j < services.len() {
            assert(after[i].name == services[i].name);
            assert(after[j].name == services[j].name);
        } else {
            assert(after[i].name == services[i].name);
        }
    }
}

/// An error among the first files is the error of them all.
pub proof fn lemma_gathered_error_stays(files: Seq<(Seq<char>, Seq<char>)>, n: int)
    requires
        0 <= n <= files.len(),
        gathered(files.take(n)) is Err,
    ensures
        gathered(files) == gathered(files.take(n)),
    decreases files.len() - n,
{
    if n < files.len() {
        assert(files.drop_last().take(n) =~= files.take(n));
        lemma_gathered_error_stays(files.drop_last(), n);
    } else {
        assert(files.take(n) =~= files);
    }
}

impl PamService {
    /// Get the name of the service. It is not empty and holds nothing but
    /// letters and digits of ASCII, `_` and `-`.
    pub fn name(&self) -> (r: &str)
        ensures
            r@ == self@.name,
            is_service_name(r@),
    {
        self.name.as_ref()
    }

    /// Get the rules belonging to the current service
    pub fn rules(&self) -> (r: &[PamRule])
        ensures
            rules_view(r@) == self@.rules,
    {
        self.rules.as_slice()
    }

    /// Append a rule to the rules list
    pub fn push(&mut self, rule: PamRule)
        ensures
            final(self)@.name == old(self)@.name,
            final(self)@.rules == old(self)@.rules.push(rule@),
    {
        self.rules.push(rule);
        assert(rules_view(self.rules@) =~= rules_view(old(self).rules@).push(rule@));
    }

    /// Create a new [`PamService`]
    pub fn new(name: Service, rules: Vec<PamRule>) -> (r: Self)
        ensures
            r@.name == name@,
            r@.rules == rules_view(rules@),
    {
        Self { name, rules }
    }

    /// Read a vector of [`PamRule`]s from a [`&str`]
    ///
    /// This is read in the separated service file syntax. This can then be used to create a
    /// [`PamService`]. The first line that is at fault ends the reading with its error.
    pub fn from_str(s: &str) -> (r: Result<Vec<PamRule>, PamConfigSyntaxError>)
        ensures
            match r {
                Ok(rules) => spec_service_rules(s@) == Ok::<
                    Seq<PamRuleView>,
                    PamConfigSyntaxErrorView,
                >(rules_view(rules@)),
                Err(e) => spec_service_rules(s@) == Err::<
                    Seq<PamRuleView>,
                    PamConfigSyntaxErrorView,
                >(e@),
            },
    {
        let mut rules = PamRule::separated_iter(s);
        rules.collect()
    }
}

/// Puts `rule` at the end of the service called `service_name`, or into a
/// new service behind the others where none is called so.
#[verifier::loop_isolation(false)]
pub fn add_rule(services: &mut Vec<PamService>, service_name: Service, rule: PamRule)
    ensures
        services_view(final(services)@) == with_rule(
            services_view(old(services)@),
            service_name@,
            rule@,
        ),
{
    let ghost before = services_view(services@);
    let mut i: usize = 0;
    while i < services.len() && !services[i].name().eq(service_name.as_ref())
        invariant
            i <= services@.len(),
            services@ == old(services)@,
            forall|k: int| 0 <= k < i ==> (#[trigger] before[k]).name != service_name@,
        decreases services@.len() - i,
    {
        assert(before[i as int] == services@[i as int]@);
        i += 1;
    }
    proof {
        if i < services@.len() {
            assert(before[i as int] == services@[i as int]@);
        }
        lemma_position_of_is(before, service_name@, i as int);
    }
    if i < services.len() {
        let mut service = services.remove(i);
        service.push(rule);
        services.insert(i, service);
        assert(services_view(services@) =~= with_rule(before, service_name@, rule@));
    } else {
        let mut rules: Vec<PamRule> = Vec::new();
        rules.push(rule);
        let service = PamService { name: service_name, rules };
        assert(service@.rules =~= seq![rule@]);
        services.push(service);
        assert(services_view(services@) =~= with_rule(before, service_name@, rule@));
    }
}

/// Puts `service` to `services`: its rules go to the end of the service of
/// the same name, or it is put behind the others where none has its name.
#[verifier::loop_isolation(false)]
pub fn add_service(services: &mut Vec<PamService>, service: PamService)
    ensures
        services_view(final(services)@) == with_service(services_view(old(services)@), service@),
{
    let ghost before = services_view(services@);
    let mut i: usize = 0;
    while i < services.len() && !services[i].name().eq(service.name())
        invariant
            i <= services@.len(),
            services@ == old(services)@,
            forall|k: int| 0 <= k < i ==> (#[trigger] before[k]).name != service@.name,
        decreases services@.len() - i,
    {
        assert(before[i as int] == services@[i as int]@);
        i += 1;
    }
    proof {
        if i < services@.len() {
            assert(before[i as int] == services@[i as int]@);
        }
        lemma_position_of_is(before, service@.name, i as int);
    }
    if i < services.len() {
        let mut found = services.remove(i);
        let PamService { name, rules } = service;
        let mut rules = rules;
        let ghost old_rules = found.rules@;
        let ghost new_rules = rules@;
        found.rules.append(&mut rules);
        assert(rules_view(found.rules@) =~= rules_view(old_rules) + rules_view(new_rules));
        services.insert(i, found);
        assert(services_view(services@) =~= with_service(before, service@));
    } else {
        services.push(service);
        assert(services_view(services@) =~= with_service(before, service@));
    }
}

impl PamConfig {
    #[verifier::type_invariant]
    spec fn well_formed(self) -> bool {
        distinct_names(services_view(self.services@))
    }

    /// Get the associated [`PamService`]s. No two of them have the same name.
    pub fn services(&self) -> (r: &[PamService])
        ensures
            services_view(r@) == self@,
            distinct_names(self@),
    {
        proof {
            use_type_invariant(self);
        }
        self.services.as_slice()
    }

    /// Looks up the service called `name`: the one service of that name, or
    /// `None` where the configuration has none.
    #[verifier::loop_isolation(false)]
    pub fn service(&self, name: &str) -> (r: Option<&PamService>)
        ensures
            match r {
                Some(service) => 0 <= position_of(self@, name@) < self@.len() && service@
                    == self@[position_of(self@, name@)] && service@.name == name@,
                None => position_of(self@, name@) == self@.len(),
            },
    {
        let mut i: usize = 0;
        while i < self.services.len() && !self.services[i].name().eq(name)
            invariant
                i <= self.services@.len(),
                forall|k: int| 0 <= k < i ==> (#[trigger] self@[k]).name != name@,
            decreases self.services@.len() - i,
        {
            assert(self@[i as int] == self.services@[i as int]@);
            i += 1;
        }
        proof {
            if i < self.services@.len() {
                assert(self@[i as int] == self.services@[i as int]@);
            }
            lemma_position_of_is(self@, name@, i as int);
        }
        if i < self.services.len() {
            Some(&self.services[i])
        } else {
            None
        }
    }

    /// Gathers rules into services, each rule under the name that comes with
    /// it. The services stand in the order in which their names first come,
    /// and the rules of a service in the order in which they come.
    pub fn from_rules(rules: Vec<(Service, PamRule)>) -> (r: PamConfig)
        ensures
            r@ == grouped(pairs_view(rules@)),
            distinct_names(r@),
    {
        let ghost all = pairs_view(rules@);
        let mut services: Vec<PamService> = Vec::new();
        assert(all.take(0) =~= Seq::empty());
        assert(services_view(services@) =~= Seq::empty());
        for pair in it: rules.into_iter()
            invariant
                it.seq() == rules@,
                all == pairs_view(rules@),
                services_view(services@) == grouped(all.take(it.index() as int)),
        {
            let (service_name, rule) = pair;
            proof {
                let n = it.index() as int;
                assert(all.take(n + 1).drop_last() =~= all.take(n));
                assert(all.take(n + 1).last() == (service_name@, rule@));
            }
            add_rule(&mut services, service_name, rule);
        }
        proof {
            assert(all.take(rules@.len() as int) =~= all);
            lemma_grouped_names(all);
        }
        PamConfig { services }
    }

    /// Read a [`PamConfig`] from a text in the packed form, in which each
    /// line starts with the name of its service. The first line that is at
    /// fault ends the reading with its error.
    pub fn from_str(s: &str) -> (r: Result<PamConfig, PamConfigSyntaxError>)
        ensures
            match r {
                Ok(config) => spec_config(s@) == Ok::<
                    Seq<PamServiceView>,
                    PamConfigSyntaxErrorView,
                >(config@) && distinct_names(config@),
                Err(e) => spec_config(s@) == Err::<Seq<PamServiceView>, PamConfigSyntaxErrorView>(
                    e@,
                ),
            },
    {
        let mut packed_rules = PamRule::packed_iter(s);
        match packed_rules.collect() {
            Ok(packed_rules) => Ok(PamConfig::from_rules(packed_rules)),
            Err(e) => Err(e),
        }
    }

    /// Read a [`PamConfig`] from the service files of a directory, each given
    /// by its name and its text.
    ///
    /// The name of a file is the name of its service, and its text holds the
    /// rules of the service in the separated form. The first line that is at
    /// fault ends the reading with its error. A directory without a file
    /// gives no configuration.
    #[verifier::loop_isolation(false)]
    pub fn from_service_texts(files: &[(String, String)]) -> (r: Result<PamConfig, PamConfigError>)
        ensures
            match r {
                Ok(config) => spec_directory_config(files_view(files@)) == Ok::<
                    Seq<PamServiceView>,
                    PamConfigErrorView,
                >(config@) && distinct_names(config@),
                Err(e) => spec_directory_config(files_view(files@)) == Err::<
                    Seq<PamServiceView>,
                    PamConfigErrorView,
                >(e@),
            },
    {
        if files.len() == 0 {
            return Err(PamConfigError::EmptyFileList);
        }
        let ghost all = files_view(files@);
        let mut services: Vec<PamService> = Vec::new();
        let mut i: usize = 0;
        assert(all.take(0) =~= Seq::empty());
        assert(services_view(services@) =~= Seq::empty());
        while i < files.len()
            invariant
                i <= files@.len(),
                gathered(all.take(i as int)) == Ok::<Seq<PamServiceView>, PamConfigErrorView>(
                    services_view(services@),
                ),
                distinct_names(services_view(services@)),
            decreases files@.len() - i,
        {
            proof {
                assert(all.take(i + 1).drop_last() =~= all.take(i as int));
                assert(all.take(i + 1).last() == (files@[i as int].0@, files@[i as int].1@));
            }
            let name = match Service::try_from(files[i].0.clone()) {
                Ok(name) => name,
                Err(e) => {
                    proof {
                        lemma_gathered_error_stays(all, i + 1);
                    }
                    return Err(
                        PamConfigError::Syntax(PamConfigSyntaxError::WrongServiceName(e.1)),
                    );
                },
            };
            let rules = match PamService::from_str(files[i].1.as_str()) {
                Ok(rules) => rules,
                Err(e) => {
                    proof {
                        lemma_gathered_error_stays(all, i + 1);
                    }
                    return Err(PamConfigError::Syntax(e));
                },
            };
            let service = PamService::new(name, rules);
            proof {
                lemma_with_service_names(services_view(services@), service@);
            }
            add_service(&mut services, service);
            i += 1;
        }
        assert(all.take(i as int) =~= all);
        Ok(PamConfig { services })
    }
}

} // verus!
