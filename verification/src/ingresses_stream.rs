//! The Ingress record stream: every host that an Ingress of the configured class declares,
//! mapped to the address of the ingress controller.
use crate::compact::chars_of;
use crate::config::Config;
use crate::error::Error;
use crate::name::{format_name, hostname};
use crate::record::{Record, RecordView};
use crate::resource::{
    routable,
    Ingress,
    IngressRuleView,
    IngressView,
    Service,
    ServiceView,
};
use crate::sequences::{
    first_yield,
    lemma_first_yield,
    lemma_first_yield_from,
    lemma_first_yield_is,
    lemma_flat_map_contains,
    lemma_flat_map_from_first_yield,
    lemma_flat_map_without,
};
use compact_str::CompactString;
use vstd::prelude::*;
use vstd::string::*;

verus! {

/// The address of the ingress controller: that of the first Service called `name`, where
/// that Service has a routable address. There is none where no Service has that name, and
/// none where the first that has it is headless.
pub open spec fn controller_address(services: Seq<ServiceView>, name: Seq<char>) -> Option<
    Seq<char>,
>
    decreases services.len(),
{
    if services.len() == 0 {
        None
    } else if services[0].name == Some(name) {
        if routable(services[0].cluster_ip) {
            services[0].cluster_ip
        } else {
            None
        }
    } else {
        controller_address(services.drop_first(), name)
    }
}

/// Looks the ingress controller's Service up by name among the Services of its namespace,
/// and returns its address.
pub fn find_ingress_controller_service(services: &Vec<Service>, service_name: &str) -> (found:
    Result<String, Error>)
    ensures
        match found {
            Ok(address) => controller_address(services.deep_view(), service_name@) == Some(
                address@,
            ),
            Err(error) => error == Error::IngressNotFound && controller_address(
                services.deep_view(),
                service_name@,
            ) is None,
        },
{
    let wanted = String::from_str(service_name);
    let headless = String::from_str("None");
    let ghost list = services.deep_view();
    let mut i: usize = 0;
    assert(list.skip(0) =~= list);
    while i < services.len()
        invariant
            i <= services.len(),
            list == services.deep_view(),
            list.len() == services.len(),
            wanted@ == service_name@,
            headless@ == "None"@,
            controller_address(list, service_name@) == controller_address(
                list.skip(i as int),
                service_name@,
            ),
        decreases services.len() - i,
    {
        let service = &services[i];
        proof {
            let rest = list.skip(i as int);
            assert(rest[0] == service@);
            assert(rest.drop_first() =~= list.skip(i + 1));
        }
        let named = match &service.name {
            Some(name) => *name == wanted,
            None => false,
        };
        if named {
            return match &service.cluster_ip {
                None => Err(Error::IngressNotFound),
                Some(s) => if *s == headless {
                    Err(Error::IngressNotFound)
                } else {
                    Ok(s.clone())
                },
            };
        }
        i = i + 1;
    }
    Err(Error::IngressNotFound)
}

/// The records that one rule yields: none where it names no host, else one, from the
/// controller's address to the host's hostname.
pub open spec fn rule_record(rule: IngressRuleView, address: Seq<char>, suffix: Seq<char>) -> Seq<
    RecordView,
> {
    if rule.host is Some {
        seq![RecordView { address, hostname: hostname(rule.host->0, suffix) }]
    } else {
        Seq::empty()
    }
}

/// `rule_record` for a fixed address and suffix.
pub open spec fn rule_record_of(address: Seq<char>, suffix: Seq<char>) -> spec_fn(
    IngressRuleView,
) -> Seq<RecordView> {
    |rule: IngressRuleView| rule_record(rule, address, suffix)
}

/// The records of a list of rules: those of each rule, in order.
pub open spec fn rule_records(rules: Seq<IngressRuleView>, address: Seq<char>, suffix: Seq<char>)
    -> Seq<RecordView> {
    rules.flat_map(rule_record_of(address, suffix))
}

/// The rules of an Ingress that are served: all of them where the Ingress is of the class
/// `class` and declares a rule list, none otherwise.
pub open spec fn admitted_rules(ingress: IngressView, class: Seq<char>) -> Seq<IngressRuleView> {
    if ingress.ingress_class_name == Some(class) && ingress.rules is Some {
        ingress.rules->0
    } else {
        Seq::empty()
    }
}

/// The records that one Ingress yields: those of its served rules.
pub open spec fn ingress_record(
    ingress: IngressView,
    class: Seq<char>,
    address: Seq<char>,
    suffix: Seq<char>,
) -> Seq<RecordView> {
    rule_records(admitted_rules(ingress, class), address, suffix)
}

/// `ingress_record` for a fixed class, address and suffix.
pub open spec fn ingress_record_of(class: Seq<char>, address: Seq<char>, suffix: Seq<char>)
    -> spec_fn(IngressView) -> Seq<RecordView> {
    |ingress: IngressView| ingress_record(ingress, class, address, suffix)
}

/// The records of a list of Ingresses: those of each Ingress, in listing order.
pub open spec fn ingress_records(
    ingresses: Seq<IngressView>,
    class: Seq<char>,
    address: Seq<char>,
    suffix: Seq<char>,
) -> Seq<RecordView> {
    ingresses.flat_map(ingress_record_of(class, address, suffix))
}

/// An `IngressStream` as a state.
pub struct IngressStreamView {
    /// Appended to every host.
    pub suffix: Seq<char>,
    /// The ingress controller's address, which every record carries.
    pub address: Seq<char>,
    /// The class of the Ingresses that are served.
    pub class: Seq<char>,
    /// The rules of the Ingress being walked that are still to be looked at.
    pub rules: Seq<IngressRuleView>,
    /// The Ingresses that are still to be looked at.
    pub ingresses: Seq<IngressView>,
}

impl IngressStreamView {
    /// The records that the stream has yet to emit.
    pub open spec fn pending(self) -> Seq<RecordView> {
        rule_records(self.rules, self.address, self.suffix) + ingress_records(
            self.ingresses,
            self.class,
            self.address,
            self.suffix,
        )
    }

    /// Whether the stream is exhausted.
    pub open spec fn done(self) -> bool {
        self.rules.len() == 0 && self.ingresses.len() == 0
    }

    /// The records emitted by the first `pulls` pulls from this state; nothing is counted
    /// after the stream has ended.
    pub open spec fn emitted(self, pulls: nat) -> Seq<RecordView>
        decreases pulls,
    {
        if pulls == 0 {
            Seq::empty()
        } else {
            let (next, item) = advance(self);
            match item {
                Some(record) => seq![record] + next.emitted((pulls - 1) as nat),
                None => Seq::empty(),
            }
        }
    }
}

/// One walk over the rules still to be looked at: the record of the first that yields one,
/// with the rules after it; nothing where none yields.
pub open spec fn walk_rules(rules: Seq<IngressRuleView>, address: Seq<char>, suffix: Seq<char>)
    -> Option<(RecordView, Seq<IngressRuleView>)> {
    let found = first_yield(rules, rule_record_of(address, suffix));
    if found < rules.len() {
        Some((rule_record(rules[found], address, suffix)[0], rules.skip(found + 1)))
    } else {
        None
    }
}

/// One pull: the state that follows, and the record emitted, if any.
///
/// The rules of the Ingress being walked come first. When none of them yields, the first
/// Ingress that yields a record is entered, the record of its first rule with a host is
/// emitted, and the walk goes on behind that rule. When no Ingress yields, nothing is left
/// and nothing is emitted.
pub open spec fn advance(state: IngressStreamView) -> (IngressStreamView, Option<RecordView>) {
    match walk_rules(state.rules, state.address, state.suffix) {
        Some((record, rest)) => (IngressStreamView { rules: rest, ..state }, Some(record)),
        None => {
            let entered = first_yield(
                state.ingresses,
                ingress_record_of(state.class, state.address, state.suffix),
            );
            if entered < state.ingresses.len() {
                let rules = admitted_rules(state.ingresses[entered], state.class);
                let (record, rest) = walk_rules(rules, state.address, state.suffix)->0;
                (
                    IngressStreamView {
                        rules: rest,
                        ingresses: state.ingresses.skip(entered + 1),
                        ..state
                    },
                    Some(record),
                )
            } else {
                (
                    IngressStreamView { rules: Seq::empty(), ingresses: Seq::empty(), ..state },
                    None,
                )
            }
        },
    }
}

/// The Ingress record stream.
pub struct IngressStream {
    tld: CompactString,
    service_ip: CompactString,
    class: String,
    ingresses: Vec<Ingress>,
    /// The index of the next Ingress to look at.
    next_ingress: usize,
    /// The index of the Ingress being walked, and that of its next rule to look at.
    current_ingress: Option<(usize, usize)>,
}

impl View for IngressStream {
    type V = IngressStreamView;

    closed spec fn view(&self) -> IngressStreamView {
        IngressStreamView {
            suffix: chars_of(self.tld),
            address: chars_of(self.service_ip),
            class: self.class@,
            rules: self.current_rules(),
            ingresses: self.ingresses.deep_view().skip(self.next_ingress as int),
        }
    }
}

impl IngressStream {
    #[verifier::type_invariant]
    spec fn cursors_in_lists(self) -> bool {
        &&& self.next_ingress <= self.ingresses.len()
        &&& self.current_ingress matches Some((i, j)) ==> {
            &&& i < self.next_ingress
            &&& self.ingresses[i as int].rules is Some
            &&& j <= self.ingresses[i as int].rules->0.len()
        }
    }

    /// The rules of the Ingress being walked that the cursor has not passed.
    spec fn current_rules(self) -> Seq<IngressRuleView> {
        match self.current_ingress {
            Some((i, j)) => self.ingresses[i as int].rules->0.deep_view().skip(j as int),
            None => Seq::empty(),
        }
    }

    /// A stream over the Ingresses of the cluster, which were listed beforehand, routed
    /// through the ingress controller that is found among `controller_services`.
    pub fn new(ingresses: Vec<Ingress>, controller_services: &Vec<Service>, config: &Config) -> (made:
        Result<IngressStream, Error>)
        ensures
            match made {
                Ok(stream) => {
                    &&& controller_address(
                        controller_services.deep_view(),
                        config.controller_service_name@,
                    ) == Some(stream@.address)
                    &&& stream@.suffix == config.suffix@
                    &&& stream@.class == config.ingress_class@
                    &&& stream@.rules == Seq::<IngressRuleView>::empty()
                    &&& stream@.ingresses == ingresses.deep_view()
                },
                Err(error) => {
                    &&& error == Error::IngressNotFound
                    &&& controller_address(
                        controller_services.deep_view(),
                        config.controller_service_name@,
                    ) is None
                },
            },
    {
        let service_ip = match find_ingress_controller_service(
            controller_services,
            config.controller_service_name.as_str(),
        ) {
            Ok(address) => address,
            Err(error) => {
                return Err(error);
            },
        };
        assert(ingresses.deep_view().skip(0) =~= ingresses.deep_view());
        Ok(
            IngressStream {
                tld: CompactString::from(config.suffix.as_str()),
                service_ip: CompactString::from(service_ip.as_str()),
                class: config.ingress_class.clone(),
                ingresses,
                next_ingress: 0,
                current_ingress: None,
            },
        )
    }

    /// Moves the rule cursor behind the first rule that yields a record, and builds that
    /// record; leaves the Ingress being walked where none of its remaining rules yields.
    fn next_rule(&mut self) -> (found: Option<Record>)
        ensures
            final(self).tld == old(self).tld,
            final(self).service_ip == old(self).service_ip,
            final(self).class == old(self).class,
            final(self).ingresses == old(self).ingresses,
            final(self).next_ingress == old(self).next_ingress,
            match walk_rules(
                old(self).current_rules(),
                chars_of(old(self).service_ip),
                chars_of(old(self).tld),
            ) {
                Some((record, rest)) => {
                    &&& found is Some
                    &&& found->0@ == record
                    &&& final(self).current_rules() == rest
                },
                None => found is None && final(self).current_ingress is None,
            },
    {
        proof {
            use_type_invariant(&*self);
        }
        let ghost yields = rule_record_of(chars_of(self.service_ip), chars_of(self.tld));
        let (walked, start) = match self.current_ingress {
            Some(cursor) => cursor,
            None => {
                proof {
                    lemma_first_yield_is(Seq::<IngressRuleView>::empty(), yields, 0);
                }
                return None;
            },
        };
        let ghost list = self.ingresses[walked as int].rules->0.deep_view();
        let mut at: usize = start;
        let rules = match &self.ingresses[walked].rules {
            Some(rules) => rules,
            // An Ingress is only walked where it declares rules.
            None => {
                self.current_ingress = None;
                return None;
            },
        };
        while at < rules.len()
            invariant
                *self == *old(self),
                self.current_ingress == Some((walked, start)),
                walked < self.next_ingress <= self.ingresses.len(),
                self.ingresses[walked as int].rules == Some(*rules),
                start <= at <= rules.len(),
                list == rules.deep_view(),
                list.len() == rules.len(),
                yields == rule_record_of(chars_of(self.service_ip), chars_of(self.tld)),
                forall|j: int| start <= j < at ==> (#[trigger] yields(list[j])).len() == 0,
            decreases rules.len() - at,
        {
            let rule = &rules[at];
            if let Some(host) = &rule.host {
                let record = Record {
                    address: self.service_ip.clone(),
                    hostname: format_name(host.as_str(), self.tld.as_str()),
                };
                proof {
                    assert(yields(list[at as int]) == seq![record@]);
                    lemma_first_yield_from(list, yields, start as int, at as int);
                }
                self.current_ingress = Some((walked, at + 1));
                return Some(record);
            }
            proof {
                assert(list[at as int] == rule@);
            }
            at = at + 1;
        }
        proof {
            lemma_first_yield_from(list, yields, start as int, list.len() as int);
        }
        self.current_ingress = None;
        None
    }

    /// Emits the next record, if there is one: see `advance`.
    pub fn next(&mut self) -> (item: Option<Record>)
        ensures
            (final(self)@, item.deep_view()) == advance(old(self)@),
    {
        if let Some(record) = self.next_rule() {
            return Some(record);
        }
        proof {
            use_type_invariant(&*self);
        }
        let ghost begin = self.next_ingress as int;
        let ghost list = self.ingresses.deep_view();
        let ghost class = self.class@;
        let ghost address = chars_of(self.service_ip);
        let ghost suffix = chars_of(self.tld);
        let ghost yields = ingress_record_of(class, address, suffix);
        while self.next_ingress < self.ingresses.len()
            invariant
                begin == old(self).next_ingress,
                begin <= self.next_ingress <= self.ingresses.len(),
                self.current_ingress is None,
                self.ingresses == old(self).ingresses,
                self.tld == old(self).tld,
                self.service_ip == old(self).service_ip,
                self.class == old(self).class,
                list == self.ingresses.deep_view(),
                list.len() == self.ingresses.len(),
                class == self.class@,
                address == chars_of(self.service_ip),
                suffix == chars_of(self.tld),
                yields == ingress_record_of(class, address, suffix),
                walk_rules(old(self).current_rules(), address, suffix) is None,
                forall|j: int| begin <= j < self.next_ingress ==> (#[trigger] yields(list[j])).len()
                    == 0,
            decreases self.ingresses.len() - self.next_ingress,
        {
            let entered = self.next_ingress;
            self.next_ingress = self.next_ingress + 1;
            let ingress = &self.ingresses[entered];
            let admitted = match &ingress.ingress_class_name {
                None => false,
                Some(class_name) => *class_name == self.class && ingress.rules.is_some(),
            };
            proof {
                assert(list[entered as int] == ingress@);
            }
            if admitted {
                self.current_ingress = Some((entered, 0));
                let ghost rules = admitted_rules(list[entered as int], class);
                proof {
                    assert(self.current_rules() =~= rules);
                    lemma_flat_map_from_first_yield(rules, rule_record_of(address, suffix));
                    lemma_first_yield(rules, rule_record_of(address, suffix));
                }
                if let Some(record) = self.next_rule() {
                    proof {
                        lemma_first_yield_from(list, yields, begin, entered as int);
                    }
                    return Some(record);
                }
                proof {
                    use_type_invariant(&*self);
                }
            }
        }
        proof {
            lemma_first_yield_from(list, yields, begin, list.len() as int);
            assert(list.skip(list.len() as int) =~= Seq::<IngressView>::empty());
        }
        None
    }
}

/// A walk splits the records of a list of rules: the record it finds is the first of them,
/// and the records of the rules that it leaves are the others. Where it finds none there
/// are none.
pub proof fn lemma_walk_rules(rules: Seq<IngressRuleView>, address: Seq<char>, suffix: Seq<char>)
    ensures
        match walk_rules(rules, address, suffix) {
            Some((record, rest)) => {
                &&& rule_records(rules, address, suffix) == seq![record] + rule_records(
                    rest,
                    address,
                    suffix,
                )
                &&& rest.len() < rules.len()
            },
            None => rule_records(rules, address, suffix) == Seq::<RecordView>::empty(),
        },
{
    let yields = rule_record_of(address, suffix);
    lemma_first_yield(rules, yields);
    lemma_flat_map_from_first_yield(rules, yields);
    let found = first_yield(rules, yields);
    if found < rules.len() {
        assert(yields(rules[found]) =~= seq![yields(rules[found])[0]]);
    }
}

/// A pull emits the first of the pending records and leaves the others pending, in their
/// order; it emits nothing only where nothing is pending, and the stream is then exhausted.
/// An exhausted stream stays as it is. The suffix, the address and the class never change.
pub proof fn lemma_advance_emits_pending(state: IngressStreamView)
    ensures
        ({
            let (next, item) = advance(state);
            &&& next.suffix == state.suffix
            &&& next.address == state.address
            &&& next.class == state.class
            &&& next.ingresses.len() <= state.ingresses.len()
            &&& match item {
                Some(record) => state.pending() == seq![record] + next.pending(),
                None => state.pending() == Seq::<RecordView>::empty() && next.done(),
            }
            &&& state.done() ==> item is None && next == state
        }),
{
    let (next, item) = advance(state);
    let of_ingress = ingress_record_of(state.class, state.address, state.suffix);
    lemma_walk_rules(state.rules, state.address, state.suffix);
    match walk_rules(state.rules, state.address, state.suffix) {
        Some((record, rest)) => {
            assert(state.pending() =~= seq![record] + next.pending());
        },
        None => {
            lemma_first_yield(state.ingresses, of_ingress);
            lemma_flat_map_from_first_yield(state.ingresses, of_ingress);
            let entered = first_yield(state.ingresses, of_ingress);
            if entered < state.ingresses.len() {
                let rules = admitted_rules(state.ingresses[entered], state.class);
                lemma_walk_rules(rules, state.address, state.suffix);
                assert(state.pending() =~= seq![item->0] + next.pending());
            } else {
                lemma_flat_map_from_first_yield(
                    Seq::<IngressView>::empty(),
                    of_ingress,
                );
                lemma_first_yield(Seq::<IngressView>::empty(), of_ingress);
                lemma_walk_rules(Seq::<IngressRuleView>::empty(), state.address, state.suffix);
            }
        },
    }
    if state.done() {
        lemma_first_yield(state.rules, rule_record_of(state.address, state.suffix));
        assert(next.rules =~= state.rules);
        assert(next.ingresses =~= state.ingresses);
    }
}

/// A stream that is pulled until it ends emits exactly its pending records, in order: for
/// a new stream, the records of the Ingresses in listing order, the rules of each in their
/// own order.
pub proof fn lemma_emitted_is_pending(state: IngressStreamView, pulls: nat)
    requires
        pulls >= state.pending().len(),
    ensures
        state.emitted(pulls) == state.pending(),
    decreases pulls,
{
    lemma_advance_emits_pending(state);
    let (next, item) = advance(state);
    if item is Some {
        lemma_emitted_is_pending(next, (pulls - 1) as nat);
    }
}

/// An Ingress whose class is not the configured one yields no record, whatever its rules:
/// a list gives the same records with it as without it, and so does a stream that has it
/// among the Ingresses still to be looked at.
pub proof fn lemma_other_class_yields_nothing(
    before: Seq<IngressView>,
    ingress: IngressView,
    after: Seq<IngressView>,
    state: IngressStreamView,
)
    requires
        ingress.ingress_class_name != Some(state.class),
    ensures
        ingress_record(ingress, state.class, state.address, state.suffix) == Seq::<
            RecordView,
        >::empty(),
        ingress_records(
            before + seq![ingress] + after,
            state.class,
            state.address,
            state.suffix,
        ) == ingress_records(before + after, state.class, state.address, state.suffix),
        (IngressStreamView { ingresses: before + seq![ingress] + after, ..state }).pending() == (
        IngressStreamView { ingresses: before + after, ..state }).pending(),
{
    lemma_walk_rules(Seq::<IngressRuleView>::empty(), state.address, state.suffix);
    lemma_flat_map_without(
        before,
        ingress,
        after,
        ingress_record_of(state.class, state.address, state.suffix),
    );
}

/// A rule with a host yields its record among those of its list.
pub proof fn lemma_rule_with_host_yields_its_record(
    rules: Seq<IngressRuleView>,
    i: int,
    address: Seq<char>,
    suffix: Seq<char>,
)
    requires
        0 <= i < rules.len(),
        rules[i].host is Some,
    ensures
        rule_records(rules, address, suffix).contains(
            RecordView { address, hostname: hostname(rules[i].host->0, suffix) },
        ),
{
    lemma_flat_map_contains(rules, rule_record_of(address, suffix), i, 0);
}

/// A rule without a host yields no record, and takes none from its siblings: a served
/// Ingress yields the records of the rules before it and of the rules after it, as if the
/// rule were not there, so every sibling with a host still has its record.
pub proof fn lemma_rule_without_host_yields_nothing(
    ingress: IngressView,
    before: Seq<IngressRuleView>,
    rule: IngressRuleView,
    after: Seq<IngressRuleView>,
    class: Seq<char>,
    address: Seq<char>,
    suffix: Seq<char>,
)
    requires
        ingress.ingress_class_name == Some(class),
        ingress.rules == Some(before + seq![rule] + after),
        rule.host is None,
    ensures
        rule_record(rule, address, suffix) == Seq::<RecordView>::empty(),
        ingress_record(ingress, class, address, suffix) == rule_records(before, address, suffix)
            + rule_records(after, address, suffix),
        ingress_record(ingress, class, address, suffix) == rule_records(
            before + after,
            address,
            suffix,
        ),
        forall|i: int|
            0 <= i < (before + after).len() && (#[trigger] (before + after)[i]).host is Some
                ==> ingress_record(ingress, class, address, suffix).contains(
                RecordView { address, hostname: hostname((before + after)[i].host->0, suffix) },
            ),
{
    lemma_flat_map_without(before, rule, after, rule_record_of(address, suffix));
    assert forall|i: int|
        0 <= i < (before + after).len() && (#[trigger] (before + after)[i]).host is Some implies
        ingress_record(ingress, class, address, suffix).contains(
        RecordView { address, hostname: hostname((before + after)[i].host->0, suffix) },
    ) by {
        lemma_rule_with_host_yields_its_record(before + after, i, address, suffix);
    }
}

/// What a request is answered with depends on nothing but the text of what the cluster
/// lists: two requests that see the same Ingresses, with the same controller address, class
/// and suffix, emit the same records.
pub proof fn lemma_same_listing_same_records(
    first: Vec<Ingress>,
    second: Vec<Ingress>,
    class: Seq<char>,
    address: Seq<char>,
    suffix: Seq<char>,
    pulls: nat,
)
    requires
        first.deep_view() == second.deep_view(),
    ensures
        (IngressStreamView {
            suffix,
            address,
            class,
            rules: Seq::empty(),
            ingresses: first.deep_view(),
        }).emitted(pulls) == (IngressStreamView {
            suffix,
            address,
            class,
            rules: Seq::empty(),
            ingresses: second.deep_view(),
        }).emitted(pulls),
{
}

} // verus!
