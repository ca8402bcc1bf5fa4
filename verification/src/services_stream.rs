//! The Service record stream: the Services of the default namespace first, then, once the
//! cluster-wide list has been fetched, the Services of the whole cluster.
use crate::compact::chars_of;
use crate::error::KubeError;
use crate::name::{
    format_name,
    format_namespaced_name,
    hostname,
    lemma_namespace_label,
    namespace_label,
    namespaced_hostname,
};
use crate::record::{Record, RecordView};
use crate::resource::{routable, Service, ServiceView};
use crate::sequences::{
    first_yield,
    lemma_first_yield,
    lemma_first_yield_from,
    lemma_flat_map_from_first_yield,
    lemma_flat_map_source,
    lemma_flat_map_without,
};
use compact_str::CompactString;
use vstd::prelude::*;
use vstd::string::*;

verus! {

/// The records that one Service yields: none where it has no name or no routable address,
/// else one, from its address to its hostname. The hostname carries the namespace only in
/// the cluster-wide phase.
pub open spec fn service_record(service: ServiceView, suffix: Seq<char>, cluster_wide: bool) -> Seq<
    RecordView,
> {
    if service.name is Some && routable(service.cluster_ip) {
        seq![
            RecordView {
                address: service.cluster_ip->0,
                hostname: if cluster_wide {
                    namespaced_hostname(service.name->0, service.namespace, suffix)
                } else {
                    hostname(service.name->0, suffix)
                },
            },
        ]
    } else {
        Seq::empty()
    }
}

/// `service_record` for a fixed suffix and phase.
pub open spec fn record_of(suffix: Seq<char>, cluster_wide: bool) -> spec_fn(ServiceView) -> Seq<
    RecordView,
> {
    |service: ServiceView| service_record(service, suffix, cluster_wide)
}

/// The records of a list of Services: those of each Service, in listing order.
pub open spec fn service_records(
    services: Seq<ServiceView>,
    suffix: Seq<char>,
    cluster_wide: bool,
) -> Seq<RecordView> {
    services.flat_map(record_of(suffix, cluster_wide))
}

/// Where a stream stands.
pub enum Phase {
    /// Walking the Services of the default namespace; these are still to be looked at.
    NamespaceLocal(Seq<ServiceView>),
    /// The default namespace is exhausted and the cluster-wide list has been asked for.
    FetchingGlobal,
    /// Walking the Services of the whole cluster; these are still to be looked at.
    GlobalAll(Seq<ServiceView>),
    /// Nothing more will be emitted.
    Done,
}

impl Phase {
    /// How far a phase is along the way that every stream goes.
    pub open spec fn rank(self) -> nat {
        match self {
            Phase::NamespaceLocal(_) => 0,
            Phase::FetchingGlobal => 1,
            Phase::GlobalAll(_) => 2,
            Phase::Done => 3,
        }
    }

    /// The Services that a phase has still to look at.
    pub open spec fn remaining(self) -> Seq<ServiceView> {
        match self {
            Phase::NamespaceLocal(services) => services,
            Phase::GlobalAll(services) => services,
            _ => Seq::empty(),
        }
    }
}

/// A `ServiceStream` as a state: the suffix of its hostnames, and where it stands.
pub struct ServiceStreamView {
    pub suffix: Seq<char>,
    pub phase: Phase,
}

/// What the caller tells the stream.
#[derive(Debug, PartialEq, Eq)]
pub enum Event {
    /// The consumer asks for the next item.
    Pull,
    /// The fetch of the cluster-wide list has ended, with the list or with a failure.
    Loaded(Result<Vec<Service>, KubeError>),
}

/// What the stream asks of the caller.
#[derive(Clone, Debug, PartialEq, Eq)]
pub enum Action {
    /// Hand this record to the consumer.
    Emit(Record),
    /// Start fetching the cluster-wide list, and come back.
    Fetch,
    /// The state has moved on without an item: come back.
    Continue,
    /// The cluster-wide list has not arrived: come back with it.
    Wait,
    /// Hand this failure to the consumer, as the last item.
    Fail(KubeError),
    /// The stream has ended.
    End,
}

/// An `Event` as text.
pub enum EventView {
    Pull,
    Loaded(Result<Seq<ServiceView>, KubeError>),
}

/// An `Action` as text.
pub enum ActionView {
    Emit(RecordView),
    Fetch,
    Continue,
    Wait,
    Fail(KubeError),
    End,
}

impl View for Event {
    type V = EventView;

    open spec fn view(&self) -> EventView {
        match self {
            Event::Pull => EventView::Pull,
            Event::Loaded(Ok(services)) => EventView::Loaded(Ok(services.deep_view())),
            Event::Loaded(Err(error)) => EventView::Loaded(Err(*error)),
        }
    }
}

impl View for Action {
    type V = ActionView;

    open spec fn view(&self) -> ActionView {
        match self {
            Action::Emit(record) => ActionView::Emit(record@),
            Action::Fetch => ActionView::Fetch,
            Action::Continue => ActionView::Continue,
            Action::Wait => ActionView::Wait,
            Action::Fail(error) => ActionView::Fail(*error),
            Action::End => ActionView::End,
        }
    }
}

/// One walk over the Services still to be looked at: the record of the first that yields
/// one, with the Services after it; nothing where none yields.
pub open spec fn walk(services: Seq<ServiceView>, suffix: Seq<char>, cluster_wide: bool) -> Option<
    (RecordView, Seq<ServiceView>),
> {
    let found = first_yield(services, record_of(suffix, cluster_wide));
    if found < services.len() {
        Some((service_record(services[found], suffix, cluster_wide)[0], services.skip(found + 1)))
    } else {
        None
    }
}

/// The stream's transition: the state and the action that follow from a state and an event.
///
/// While a phase has a Service that yields a record, the record is emitted and the phase
/// goes on behind that Service. When the default namespace is exhausted the cluster-wide
/// list is asked for, and no item is emitted until the fetch has ended: its list opens the
/// cluster-wide phase, its failure is emitted and ends the stream. When the cluster-wide
/// phase is exhausted the stream ends. Only a stream that is fetching reads the event.
pub open spec fn step(state: ServiceStreamView, event: EventView) -> (
    ServiceStreamView,
    ActionView,
) {
    let suffix = state.suffix;
    match state.phase {
        Phase::NamespaceLocal(services) => match walk(services, suffix, false) {
            Some((record, rest)) => (
                ServiceStreamView { suffix, phase: Phase::NamespaceLocal(rest) },
                ActionView::Emit(record),
            ),
            None => (ServiceStreamView { suffix, phase: Phase::FetchingGlobal }, ActionView::Fetch),
        },
        Phase::FetchingGlobal => match event {
            EventView::Pull => (state, ActionView::Wait),
            EventView::Loaded(Ok(services)) => (
                ServiceStreamView { suffix, phase: Phase::GlobalAll(services) },
                ActionView::Continue,
            ),
            EventView::Loaded(Err(error)) => (
                ServiceStreamView { suffix, phase: Phase::Done },
                ActionView::Fail(error),
            ),
        },
        Phase::GlobalAll(services) => match walk(services, suffix, true) {
            Some((record, rest)) => (
                ServiceStreamView { suffix, phase: Phase::GlobalAll(rest) },
                ActionView::Emit(record),
            ),
            None => (ServiceStreamView { suffix, phase: Phase::Done }, ActionView::End),
        },
        Phase::Done => (state, ActionView::End),
    }
}

/// One item of a stream: a record, or the failure that ends it.
pub type ItemView = Result<RecordView, KubeError>;

/// Records as the items of a stream.
pub open spec fn as_items(records: Seq<RecordView>) -> Seq<ItemView> {
    records.map_values(|record: RecordView| Ok::<RecordView, KubeError>(record))
}

/// The items that follow the default namespace's, once the cluster-wide fetch has ended with
/// `answer`: the records of the Services listed, or the failure alone.
pub open spec fn cluster_wide_items(
    answer: Result<Seq<ServiceView>, KubeError>,
    suffix: Seq<char>,
) -> Seq<ItemView> {
    match answer {
        Ok(services) => as_items(service_records(services, suffix, true)),
        Err(error) => seq![Err::<RecordView, KubeError>(error)],
    }
}

impl ServiceStreamView {
    /// The items that the stream has yet to emit, where the cluster-wide fetch ends with
    /// `answer`: what is left of the default namespace first, then the whole cluster.
    pub open spec fn pending(self, answer: Result<Seq<ServiceView>, KubeError>) -> Seq<ItemView> {
        match self.phase {
            Phase::NamespaceLocal(services) => as_items(
                service_records(services, self.suffix, false),
            ) + cluster_wide_items(answer, self.suffix),
            Phase::FetchingGlobal => cluster_wide_items(answer, self.suffix),
            Phase::GlobalAll(services) => as_items(service_records(services, self.suffix, true)),
            Phase::Done => Seq::empty(),
        }
    }

    /// A number of steps that takes the stream to its end, where the cluster-wide fetch ends
    /// with `answer` as soon as it is asked for.
    pub open spec fn steps_to_end(self, answer: Result<Seq<ServiceView>, KubeError>) -> nat {
        let cluster_wide: nat = match answer {
            Ok(services) => services.len() + 2,
            Err(_) => 1,
        };
        match self.phase {
            Phase::NamespaceLocal(services) => services.len() + 1 + cluster_wide,
            Phase::FetchingGlobal => cluster_wide,
            Phase::GlobalAll(services) => services.len() + 1,
            Phase::Done => 1,
        }
    }

    /// The event that a stream in this state is due: the outcome of the cluster-wide fetch
    /// where it is fetching, a pull otherwise.
    pub open spec fn due(self, answer: Result<Seq<ServiceView>, KubeError>) -> EventView {
        if self.phase is FetchingGlobal {
            EventView::Loaded(answer)
        } else {
            EventView::Pull
        }
    }

    /// The items emitted by the first `steps` steps from this state, each step given the
    /// event that is due; nothing is counted after the stream has ended.
    pub open spec fn emitted(self, answer: Result<Seq<ServiceView>, KubeError>, steps: nat) -> Seq<
        ItemView,
    >
        decreases steps,
    {
        if steps == 0 {
            Seq::empty()
        } else {
            let (next, action) = step(self, self.due(answer));
            match action {
                ActionView::Emit(record) => seq![Ok::<RecordView, KubeError>(record)]
                    + next.emitted(answer, (steps - 1) as nat),
                ActionView::Fail(error) => seq![Err::<RecordView, KubeError>(error)],
                ActionView::End => Seq::empty(),
                _ => next.emitted(answer, (steps - 1) as nat),
            }
        }
    }
}

/// The record that `service` yields in the given phase, if it yields one.
fn make_record(service: &Service, tld: &str, cluster_wide: bool, headless: &String) -> (made:
    Option<Record>)
    requires
        headless@ == "None"@,
    ensures
        made matches Some(record) ==> service_record(service@, tld@, cluster_wide) == seq![
            record@,
        ],
        made is None ==> service_record(service@, tld@, cluster_wide) == Seq::<
            RecordView,
        >::empty(),
{
    let name = match &service.name {
        None => {
            return None;
        },
        Some(n) => n,
    };
    let cluster_ip = match &service.cluster_ip {
        None => {
            return None;
        },
        Some(s) => s,
    };
    if *cluster_ip == *headless {
        return None;
    }
    let formatted = if cluster_wide {
        format_namespaced_name(name.as_str(), &service.namespace, tld)
    } else {
        format_name(name.as_str(), tld)
    };
    Some(Record { address: CompactString::from(cluster_ip.as_str()), hostname: formatted })
}

enum State {
    Default,
    LoadingAll,
    All,
    Done,
}

/// The Service record stream.
pub struct ServiceStream {
    tld: CompactString,
    state: State,
    services: Vec<Service>,
    position: usize,
}

impl View for ServiceStream {
    type V = ServiceStreamView;

    closed spec fn view(&self) -> ServiceStreamView {
        ServiceStreamView {
            suffix: chars_of(self.tld),
            phase: match self.state {
                State::Default => Phase::NamespaceLocal(self.remaining()),
                State::LoadingAll => Phase::FetchingGlobal,
                State::All => Phase::GlobalAll(self.remaining()),
                State::Done => Phase::Done,
            },
        }
    }
}

impl ServiceStream {
    #[verifier::type_invariant]
    spec fn cursor_in_list(self) -> bool {
        self.position <= self.services.len()
    }

    /// The Services of the current list that the cursor has not passed.
    spec fn remaining(self) -> Seq<ServiceView> {
        self.services.deep_view().skip(self.position as int)
    }

    /// A stream over the Services of the default namespace, which were listed beforehand.
    pub fn new(services: Vec<Service>, tld: &str) -> (stream: ServiceStream)
        ensures
            stream@ == (ServiceStreamView {
                suffix: tld@,
                phase: Phase::NamespaceLocal(services.deep_view()),
            }),
    {
        assert(services.deep_view().skip(0) =~= services.deep_view());
        ServiceStream {
            tld: CompactString::from(tld),
            state: State::Default,
            services,
            position: 0,
        }
    }

    /// Moves the cursor behind the first Service that yields a record, and builds that record.
    fn advance(&mut self, cluster_wide: bool) -> (found: Option<Record>)
        ensures
            final(self).tld == old(self).tld,
            final(self).state == old(self).state,
            match walk(old(self).remaining(), chars_of(old(self).tld), cluster_wide) {
                Some((record, rest)) => {
                    &&& found is Some
                    &&& found->0@ == record
                    &&& final(self).remaining() == rest
                },
                None => found is None,
            },
    {
        proof {
            use_type_invariant(&*self);
        }
        let headless = String::from_str("None");
        let ghost start = self.position as int;
        let ghost list = self.services.deep_view();
        let ghost yields = record_of(chars_of(self.tld), cluster_wide);
        while self.position < self.services.len()
            invariant
                start == old(self).position,
                start <= self.position <= self.services.len(),
                self.services == old(self).services,
                self.tld == old(self).tld,
                self.state == old(self).state,
                list == self.services.deep_view(),
                list.len() == self.services.len(),
                yields == record_of(chars_of(self.tld), cluster_wide),
                headless@ == "None"@,
                forall|j: int| start <= j < self.position ==> (#[trigger] yields(list[j])).len() == 0,
            decreases self.services.len() - self.position,
        {
            let made = make_record(
                &self.services[self.position],
                self.tld.as_str(),
                cluster_wide,
                &headless,
            );
            let ghost at = self.position as int;
            self.position = self.position + 1;
            if let Some(record) = made {
                proof {
                    assert(yields(list[at]) == seq![record@]);
                    lemma_first_yield_from(list, yields, start, at);
                }
                return Some(record);
            }
        }
        proof {
            lemma_first_yield_from(list, yields, start, list.len() as int);
        }
        None
    }

    /// Takes the stream one step on: see `step`.
    pub fn poll_next(&mut self, event: Event) -> (action: Action)
        ensures
            (final(self)@, action@) == step(old(self)@, event@),
    {
        proof {
            use_type_invariant(&*self);
        }
        match self.state {
            State::Default => match self.advance(false) {
                Some(record) => Action::Emit(record),
                None => {
                    self.position = 0;
                    self.services = Vec::new();
                    self.state = State::LoadingAll;
                    Action::Fetch
                },
            },
            State::LoadingAll => match event {
                Event::Pull => Action::Wait,
                Event::Loaded(Ok(services)) => {
                    assert(services.deep_view().skip(0) =~= services.deep_view());
                    self.position = 0;
                    self.services = services;
                    self.state = State::All;
                    Action::Continue
                },
                Event::Loaded(Err(error)) => {
                    self.state = State::Done;
                    Action::Fail(error)
                },
            },
            State::All => match self.advance(true) {
                Some(record) => Action::Emit(record),
                None => {
                    proof {
                        use_type_invariant(&*self);
                    }
                    self.state = State::Done;
                    Action::End
                },
            },
            State::Done => Action::End,
        }
    }
}

/// A walk splits the records of a list: the record it finds is the first of them, and the
/// records of the Services that it leaves are the others. Where it finds none there are none.
pub proof fn lemma_walk(services: Seq<ServiceView>, suffix: Seq<char>, cluster_wide: bool)
    ensures
        match walk(services, suffix, cluster_wide) {
            Some((record, rest)) => {
                &&& service_records(services, suffix, cluster_wide) == seq![record]
                    + service_records(rest, suffix, cluster_wide)
                &&& rest.len() < services.len()
            },
            None => service_records(services, suffix, cluster_wide) == Seq::<RecordView>::empty(),
        },
{
    let yields = record_of(suffix, cluster_wide);
    lemma_first_yield(services, yields);
    lemma_flat_map_from_first_yield(services, yields);
    let found = first_yield(services, yields);
    if found < services.len() {
        assert(yields(services[found]) =~= seq![yields(services[found])[0]]);
    }
}

/// A stream that is stepped to its end emits exactly its pending items, in order: the
/// records of the default namespace, each before any record of the cluster-wide list, then
/// those of the cluster-wide list or, where the fetch failed, the failure as the last item.
pub proof fn lemma_emitted_is_pending(
    state: ServiceStreamView,
    answer: Result<Seq<ServiceView>, KubeError>,
    steps: nat,
)
    requires
        steps >= state.steps_to_end(answer),
    ensures
        state.emitted(answer, steps) == state.pending(answer),
    decreases steps,
{
    let (next, action) = step(state, state.due(answer));
    let rest = (steps - 1) as nat;
    match state.phase {
        Phase::NamespaceLocal(services) => {
            lemma_walk(services, state.suffix, false);
            lemma_emitted_is_pending(next, answer, rest);
            match walk(services, state.suffix, false) {
                Some((record, left)) => {
                    assert(as_items(service_records(services, state.suffix, false)) =~= seq![
                        Ok::<RecordView, KubeError>(record),
                    ] + as_items(service_records(left, state.suffix, false)));
                    assert(state.pending(answer) =~= seq![Ok::<RecordView, KubeError>(record)]
                        + next.pending(answer));
                },
                None => {
                    assert(state.pending(answer) =~= next.pending(answer));
                },
            }
        },
        Phase::FetchingGlobal => {
            match answer {
                Ok(services) => {
                    lemma_emitted_is_pending(next, answer, rest);
                },
                Err(error) => {},
            }
        },
        Phase::GlobalAll(services) => {
            lemma_walk(services, state.suffix, true);
            match walk(services, state.suffix, true) {
                Some((record, left)) => {
                    lemma_emitted_is_pending(next, answer, rest);
                    assert(state.pending(answer) =~= seq![Ok::<RecordView, KubeError>(record)]
                        + next.pending(answer));
                },
                None => {
                    assert(state.pending(answer) =~= Seq::<ItemView>::empty());
                },
            }
        },
        Phase::Done => {},
    }
}

/// A stream over the default namespace's Services `local` whose cluster-wide fetch brings
/// `global` emits the records of `local` first and those of `global` after them, whatever
/// the two lists hold.
pub proof fn lemma_default_namespace_comes_first(
    local: Seq<ServiceView>,
    global: Seq<ServiceView>,
    suffix: Seq<char>,
    steps: nat,
)
    requires
        steps >= local.len() + global.len() + 3,
    ensures
        (ServiceStreamView { suffix, phase: Phase::NamespaceLocal(local) }).emitted(
            Ok(global),
            steps,
        ) == as_items(service_records(local, suffix, false)) + as_items(
            service_records(global, suffix, true),
        ),
{
    lemma_emitted_is_pending(
        ServiceStreamView { suffix, phase: Phase::NamespaceLocal(local) },
        Ok(global),
        steps,
    );
}

/// A Service whose address is unset, or is the word `None`, yields no record in either
/// phase: a list gives the same records with it as without it.
pub proof fn lemma_headless_service_yields_nothing(
    before: Seq<ServiceView>,
    service: ServiceView,
    after: Seq<ServiceView>,
    suffix: Seq<char>,
    cluster_wide: bool,
)
    requires
        service.cluster_ip is None || service.cluster_ip == Some("None"@),
    ensures
        service_record(service, suffix, cluster_wide) == Seq::<RecordView>::empty(),
        service_records(before + seq![service] + after, suffix, cluster_wide) == service_records(
            before + after,
            suffix,
            cluster_wide,
        ),
        forall|answer: Result<Seq<ServiceView>, KubeError>|
            #![trigger cluster_wide_items(answer, suffix)]
            (ServiceStreamView {
                suffix,
                phase: Phase::NamespaceLocal(before + seq![service] + after),
            }).pending(answer) == (ServiceStreamView {
                suffix,
                phase: Phase::NamespaceLocal(before + after),
            }).pending(answer),
        forall|answer: Result<Seq<ServiceView>, KubeError>|
            #![trigger cluster_wide_items(answer, suffix)]
            (ServiceStreamView {
                suffix,
                phase: Phase::GlobalAll(before + seq![service] + after),
            }).pending(answer) == (ServiceStreamView {
                suffix,
                phase: Phase::GlobalAll(before + after),
            }).pending(answer),
{
    lemma_flat_map_without(before, service, after, record_of(suffix, false));
    lemma_flat_map_without(before, service, after, record_of(suffix, true));
}

/// Every record of a list of Services comes from a Service of the list that has a name and
/// a routable address, and carries that address.
pub proof fn lemma_record_has_a_source(
    services: Seq<ServiceView>,
    suffix: Seq<char>,
    cluster_wide: bool,
    n: int,
)
    requires
        0 <= n < service_records(services, suffix, cluster_wide).len(),
    ensures
        exists|i: int|
            {
                &&& 0 <= i < services.len()
                &&& (#[trigger] services[i]).name is Some
                &&& routable(services[i].cluster_ip)
                &&& service_records(services, suffix, cluster_wide)[n].address
                    == services[i].cluster_ip->0
                &&& service_record(services[i], suffix, cluster_wide) == seq![
                    service_records(services, suffix, cluster_wide)[n],
                ]
            },
{
    let yields = record_of(suffix, cluster_wide);
    lemma_flat_map_source(services, yields, n);
    let (i, k) = choose|i: int, k: int|
        0 <= i < services.len() && 0 <= k < yields(services[i]).len() && #[trigger] yields(
            services[i],
        )[k] == services.flat_map(yields)[n];
    assert(service_record(services[i], suffix, cluster_wide) =~= seq![
        service_records(services, suffix, cluster_wide)[n],
    ]);
    assert(service_record(services[i], suffix, cluster_wide)[0] == service_records(
        services,
        suffix,
        cluster_wide,
    )[n]);
}

/// A step never goes back: the phase stays or moves on to a later one, and within a phase
/// an emitted record leaves fewer Services to look at. The suffix never changes. A phase is
/// only left once it is exhausted: the cluster-wide list is asked for when none of the
/// default namespace's remaining Services yields a record, and from that state alone. A
/// stream that has ended stays as it is and emits nothing more.
pub proof fn lemma_step_moves_forward(state: ServiceStreamView, event: EventView)
    ensures
        ({
            let (next, action) = step(state, event);
            &&& next.suffix == state.suffix
            &&& next.phase.rank() >= state.phase.rank()
            &&& action is Emit ==> next.phase.rank() == state.phase.rank()
                && next.phase.remaining().len() < state.phase.remaining().len()
            &&& action is Fetch <==> state.phase is NamespaceLocal && service_records(
                state.phase.remaining(),
                state.suffix,
                false,
            ).len() == 0
            &&& action is Fetch ==> next.phase is FetchingGlobal
            &&& action is Fail || action is End ==> next.phase is Done
            &&& state.phase is Done ==> next == state && action is End
        }),
{
    lemma_walk(state.phase.remaining(), state.suffix, false);
    lemma_walk(state.phase.remaining(), state.suffix, true);
}

/// Every hostname of the default namespace's phase is the name of a Service of the list
/// and the suffix, with no namespace between them.
pub proof fn lemma_default_namespace_hostname_has_no_namespace(
    services: Seq<ServiceView>,
    suffix: Seq<char>,
    n: int,
)
    requires
        0 <= n < service_records(services, suffix, false).len(),
    ensures
        exists|i: int|
            {
                &&& 0 <= i < services.len()
                &&& (#[trigger] services[i]).name is Some
                &&& service_records(services, suffix, false)[n].hostname == services[i].name->0
                    + suffix
            },
{
    lemma_record_has_a_source(services, suffix, false, n);
    let i = choose|i: int|
        {
            &&& 0 <= i < services.len()
            &&& (#[trigger] services[i]).name is Some
            &&& routable(services[i].cluster_ip)
            &&& service_records(services, suffix, false)[n].address == services[i].cluster_ip->0
            &&& service_record(services[i], suffix, false) == seq![
                service_records(services, suffix, false)[n],
            ]
        };
    assert(service_record(services[i], suffix, false)[0] == service_records(
        services,
        suffix,
        false,
    )[n]);
}

/// Every hostname of the cluster-wide phase is the name of a Service of the list, a dot, one
/// label for that Service's namespace, and the suffix. The label is never empty: it is the
/// namespace, or `default` where the namespace is unset or empty.
pub proof fn lemma_cluster_wide_hostname_has_one_namespace(
    services: Seq<ServiceView>,
    suffix: Seq<char>,
    n: int,
)
    requires
        0 <= n < service_records(services, suffix, true).len(),
    ensures
        exists|i: int|
            {
                let service = #[trigger] services[i];
                let label = namespace_label(service.namespace);
                &&& 0 <= i < services.len()
                &&& service.name is Some
                &&& service_records(services, suffix, true)[n].hostname == service.name->0
                    + seq!['.'] + label + suffix
                &&& label.len() > 0
                &&& service.namespace is Some && service.namespace->0.len() > 0 ==> label
                    == service.namespace->0
                &&& service.namespace is None || service.namespace->0.len() == 0 ==> label
                    == seq!['d', 'e', 'f', 'a', 'u', 'l', 't']
            },
{
    lemma_record_has_a_source(services, suffix, true, n);
    let i = choose|i: int|
        {
            &&& 0 <= i < services.len()
            &&& (#[trigger] services[i]).name is Some
            &&& routable(services[i].cluster_ip)
            &&& service_records(services, suffix, true)[n].address == services[i].cluster_ip->0
            &&& service_record(services[i], suffix, true) == seq![
                service_records(services, suffix, true)[n],
            ]
        };
    assert(service_record(services[i], suffix, true)[0] == service_records(
        services,
        suffix,
        true,
    )[n]);
    reveal_strlit(".");
    assert("."@ =~= seq!['.']);
    lemma_namespace_label(services[i].namespace);
}

/// What a request is answered with depends on nothing but the text of what the cluster
/// lists: two requests that see the same Services, under the same suffix, emit the same
/// items.
pub proof fn lemma_same_listing_same_items(
    first_local: Vec<Service>,
    first_global: Vec<Service>,
    second_local: Vec<Service>,
    second_global: Vec<Service>,
    suffix: Seq<char>,
    steps: nat,
)
    requires
        first_local.deep_view() == second_local.deep_view(),
        first_global.deep_view() == second_global.deep_view(),
    ensures
        (ServiceStreamView {
            suffix,
            phase: Phase::NamespaceLocal(first_local.deep_view()),
        }).emitted(Ok(first_global.deep_view()), steps) == (ServiceStreamView {
            suffix,
            phase: Phase::NamespaceLocal(second_local.deep_view()),
        }).emitted(Ok(second_global.deep_view()), steps),
{
}

} // verus!
