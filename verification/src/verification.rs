//! Verifying another device by comparing a short authentication string.
//!
//! Flows are addressed by an opaque identifier, and the handles behind one
//! live in a registry. The registry here holds, for every flow, the handles
//! the caller gave it (opaque to this module) together with the phases those
//! handles were last observed in, and decides from those phases alone what
//! stage a flow is at, which flows to release, what to announce, and what
//! each call may do.

use vstd::prelude::*;

use crate::identity::TrustState;
use crate::machine::MachineError;
use crate::observer::CryptoSignal;
use crate::machine::{parse_user_id, spec_user_id_parses};
use crate::text::{contains_text, decimal, occurs_in, push_decimal, sorted_unique, strictly_sorted, views};

verus! {

/// The opaque name of one verification flow.
#[derive(Debug, Clone, PartialEq, Eq, PartialOrd, Ord, Hash)]
pub struct FlowId(pub String);

/// One symbol of a short authentication string, with the word for it.
#[derive(Clone, PartialEq, Eq)]
pub struct SasEmoji {
    pub symbol: String,
    pub description: String,
}

/// The short authentication string, in both forms the protocol can produce.
#[derive(PartialEq, Eq)]
pub struct SasMaterial {
    pub emoji: Option<Vec<SasEmoji>>,
    pub decimals: (u16, u16, u16),
}

/// How far along a flow is.
#[derive(Debug, Clone, Copy, PartialEq, Eq, Structural)]
pub enum FlowStage {
    /// Asked for, by one side or the other, and not yet answered.
    Requested,
    /// Both sides agreed to verify; either may now start the comparison.
    Ready,
    /// The comparison has started; nothing to show yet.
    Started,
    /// The short authentication string is available.
    KeysExchanged,
    /// This side said the strings match; the other has not yet.
    Confirmed,
    /// Both sides said the strings match.
    Done,
    /// Over without a verification.
    Cancelled,
}

/// The phase a comparison handle reports, one value per upstream state.
#[derive(Debug, Clone, Copy, PartialEq, Eq, Structural)]
pub enum ComparisonPhase {
    Created,
    Started,
    Accepted,
    KeysExchanged,
    Confirmed,
    Done,
    Cancelled,
}

/// The phase a request handle reports, one value per upstream state.
///
/// `Transitioned` carries the phase of the comparison the request turned
/// into, when that comparison is a short-string one.
#[derive(Debug, Clone, Copy, PartialEq, Eq, Structural)]
pub enum RequestPhase {
    Created,
    Requested,
    Ready,
    Transitioned { comparison: Option<ComparisonPhase> },
    Done,
    Cancelled,
}

/// What the registry knows about one flow: the phases of its handles, and
/// whether its completion has been announced.
///
/// `request` is `None` for a flow that began as a bare start event, which
/// has no request behind it. `comparison` is the comparison handle once the
/// registry has one.
#[derive(Debug, Clone, Copy, PartialEq, Eq, Structural)]
pub struct FlowRecord {
    pub request: Option<RequestPhase>,
    pub comparison: Option<ComparisonPhase>,
    pub completion_announced: bool,
}

impl FlowRecord {
    /// A flow that began with a request.
    pub fn from_request(request: RequestPhase) -> (record: FlowRecord)
        ensures
            record == (FlowRecord { request: Some(request), comparison: None, completion_announced: false }),
    {
        FlowRecord { request: Some(request), comparison: None, completion_announced: false }
    }

    /// A flow that began as a bare start event, with its comparison.
    pub fn from_comparison(comparison: ComparisonPhase) -> (record: FlowRecord)
        ensures
            record == (FlowRecord { request: None, comparison: Some(comparison), completion_announced: false }),
    {
        FlowRecord { request: None, comparison: Some(comparison), completion_announced: false }
    }
}

/// The stage a comparison is at: three upstream phases with nothing to
/// show fold into `Started`.
pub open spec fn comparison_stage(phase: ComparisonPhase) -> FlowStage {
    match phase {
        ComparisonPhase::Created => FlowStage::Started,
        ComparisonPhase::Started => FlowStage::Started,
        ComparisonPhase::Accepted => FlowStage::Started,
        ComparisonPhase::KeysExchanged => FlowStage::KeysExchanged,
        ComparisonPhase::Confirmed => FlowStage::Confirmed,
        ComparisonPhase::Done => FlowStage::Done,
        ComparisonPhase::Cancelled => FlowStage::Cancelled,
    }
}

/// The stage a request is at, when it has not become a comparison.
pub open spec fn request_stage(phase: RequestPhase) -> FlowStage {
    match phase {
        RequestPhase::Created => FlowStage::Requested,
        RequestPhase::Requested => FlowStage::Requested,
        RequestPhase::Ready => FlowStage::Ready,
        RequestPhase::Transitioned { .. } => FlowStage::Started,
        RequestPhase::Done => FlowStage::Done,
        RequestPhase::Cancelled => FlowStage::Cancelled,
    }
}

/// The comparison a record has once the one its request carries is cached.
pub open spec fn filled_comparison(record: FlowRecord) -> Option<ComparisonPhase> {
    if record.comparison is Some {
        record.comparison
    } else {
        match record.request {
            Some(RequestPhase::Transitioned { comparison }) => comparison,
            _ => None,
        }
    }
}

/// A record with its comparison cache filled in.
pub open spec fn filled(record: FlowRecord) -> FlowRecord {
    FlowRecord { comparison: filled_comparison(record), ..record }
}

/// The stage of one flow: its comparison's, when it has one; otherwise its
/// request's; and `Cancelled` for a record with neither handle.
pub open spec fn record_stage(record: FlowRecord) -> FlowStage {
    match filled_comparison(record) {
        Some(comparison) => comparison_stage(comparison),
        None => match record.request {
            Some(request) => request_stage(request),
            None => FlowStage::Cancelled,
        },
    }
}

/// A flow that is over, one way or the other.
pub open spec fn spec_is_finished(stage: FlowStage) -> bool {
    stage == FlowStage::Done || stage == FlowStage::Cancelled
}

/// Whether the registry keeps a record when it sweeps: every live flow, and
/// a completed one whose completion has not been taken while something will
/// announce it.
pub open spec fn survives_sweep(record: FlowRecord, something_will_announce: bool) -> bool {
    !spec_is_finished(record_stage(record)) || (record_stage(record) == FlowStage::Done
        && !record.completion_announced && something_will_announce)
}

/// The stage of a comparison.
pub fn stage_of_comparison(phase: ComparisonPhase) -> (stage: FlowStage)
    ensures
        stage == comparison_stage(phase),
{
    match phase {
        ComparisonPhase::Created => FlowStage::Started,
        ComparisonPhase::Started => FlowStage::Started,
        ComparisonPhase::Accepted => FlowStage::Started,
        ComparisonPhase::KeysExchanged => FlowStage::KeysExchanged,
        ComparisonPhase::Confirmed => FlowStage::Confirmed,
        ComparisonPhase::Done => FlowStage::Done,
        ComparisonPhase::Cancelled => FlowStage::Cancelled,
    }
}

/// Fills in a record's comparison from its request, if the flow has become
/// one, and returns the comparison.
pub fn comparison_of(record: &mut FlowRecord) -> (comparison: Option<ComparisonPhase>)
    ensures
        *final(record) == filled(*old(record)),
        comparison == filled_comparison(*old(record)),
{
    if record.comparison.is_none() {
        match record.request {
            Some(RequestPhase::Transitioned { comparison }) => {
                record.comparison = comparison;
            },
            _ => {},
        }
    }
    record.comparison
}

/// The stage of a record, filling its comparison cache on the way.
pub fn stage_of(record: &mut FlowRecord) -> (stage: FlowStage)
    ensures
        *final(record) == filled(*old(record)),
        stage == record_stage(*old(record)),
{
    if let Some(comparison) = comparison_of(record) {
        return stage_of_comparison(comparison);
    }
    match record.request {
        None => FlowStage::Cancelled,
        Some(RequestPhase::Created) => FlowStage::Requested,
        Some(RequestPhase::Requested) => FlowStage::Requested,
        Some(RequestPhase::Ready) => FlowStage::Ready,
        Some(RequestPhase::Transitioned { .. }) => FlowStage::Started,
        Some(RequestPhase::Done) => FlowStage::Done,
        Some(RequestPhase::Cancelled) => FlowStage::Cancelled,
    }
}

/// The stage a pair of already-observed handles describes.
pub fn stage_from(request: Option<RequestPhase>, comparison: Option<ComparisonPhase>) -> (stage: FlowStage)
    ensures
        stage == record_stage(FlowRecord { request, comparison, completion_announced: false }),
{
    let mut record = FlowRecord { request, comparison, completion_announced: false };
    stage_of(&mut record)
}

/// Whether a flow is over.
pub fn is_finished(stage: FlowStage) -> (finished: bool)
    ensures
        finished == spec_is_finished(stage),
{
    match stage {
        FlowStage::Done => true,
        FlowStage::Cancelled => true,
        _ => false,
    }
}


/// What taking a flow's pending completion does to its record: an
/// unannounced record has its comparison filled in, and is marked announced
/// when it has reached `Done`.
pub open spec fn after_taking_completion(record: FlowRecord) -> FlowRecord {
    if record.completion_announced {
        record
    } else if record_stage(record) == FlowStage::Done {
        FlowRecord { completion_announced: true, ..filled(record) }
    } else {
        filled(record)
    }
}

/// Whether a record yields a completion to announce: not announced yet, at
/// `Done`, and with a comparison that reached `Done` and can say which
/// devices it verified.
pub open spec fn yields_completion(record: FlowRecord) -> bool {
    !record.completion_announced && record_stage(record) == FlowStage::Done
        && filled_comparison(record) == Some(ComparisonPhase::Done)
}

/// The identifiers of the first `n` flows that yield a completion, in
/// registry order.
pub open spec fn completions_of(ids: Seq<Seq<char>>, records: Seq<FlowRecord>, n: nat) -> Seq<Seq<char>>
    decreases n,
{
    if n == 0 {
        Seq::empty()
    } else {
        let before = completions_of(ids, records, (n - 1) as nat);
        if yields_completion(records[n - 1]) {
            before.push(ids[n - 1])
        } else {
            before
        }
    }
}

/// The identifiers of the first `n` flows that survive a sweep.
pub open spec fn swept_ids(ids: Seq<Seq<char>>, records: Seq<FlowRecord>, w: bool, n: nat) -> Seq<Seq<char>>
    decreases n,
{
    if n == 0 {
        Seq::empty()
    } else {
        let before = swept_ids(ids, records, w, (n - 1) as nat);
        if survives_sweep(records[n - 1], w) {
            before.push(ids[n - 1])
        } else {
            before
        }
    }
}

/// The records of the first `n` flows that survive a sweep, filled in.
pub open spec fn swept_records(records: Seq<FlowRecord>, w: bool, n: nat) -> Seq<FlowRecord>
    decreases n,
{
    if n == 0 {
        Seq::empty()
    } else {
        let before = swept_records(records, w, (n - 1) as nat);
        if survives_sweep(records[n - 1], w) {
            before.push(filled(records[n - 1]))
        } else {
            before
        }
    }
}

/// The handles of the first `n` flows that survive a sweep, or that do not.
pub open spec fn swept_handles<H>(records: Seq<FlowRecord>, handles: Seq<H>, w: bool, keep: bool, n: nat) -> Seq<H>
    decreases n,
{
    if n == 0 {
        Seq::empty()
    } else {
        let before = swept_handles(records, handles, w, keep, (n - 1) as nat);
        if survives_sweep(records[n - 1], w) == keep {
            before.push(handles[n - 1])
        } else {
            before
        }
    }
}

/// A record after a fresh observation of its handles: each handle the
/// record has takes the observed phase, when one was observed.
pub open spec fn observed(record: FlowRecord, request: Option<RequestPhase>, comparison: Option<ComparisonPhase>) -> FlowRecord {
    FlowRecord {
        request: if record.request is Some && request is Some { request } else { record.request },
        comparison: if record.comparison is Some && comparison is Some { comparison } else { record.comparison },
        completion_announced: record.completion_announced,
    }
}

/// A flow the announcement pass found outside the registry: an inbound
/// request, or a comparison nobody requested, with its handles.
pub struct InboundFlow<H> {
    pub flow_id: String,
    /// The user on the other side.
    pub user: String,
    /// The device on the other side.
    pub device_id: String,
    pub record: FlowRecord,
    pub handles: H,
}

/// Whether an inbound flow is one to announce: a request still waiting for
/// this side's answer, or a comparison that is not over.
pub open spec fn announceable<H>(flow: InboundFlow<H>, is_request: bool) -> bool {
    if is_request {
        flow.record.request == Some(RequestPhase::Requested)
    } else {
        !spec_is_finished(record_stage(flow.record))
    }
}

/// The identifiers, among the first `n` inbound flows, that an announcement
/// pass registers, given the identifiers already `held`: each announceable
/// flow not held and not registered earlier in the same pass.
pub open spec fn newly_registered<H>(held: Seq<Seq<char>>, flows: Seq<InboundFlow<H>>, is_request: bool, n: nat) -> Seq<Seq<char>>
    decreases n,
{
    if n == 0 {
        Seq::empty()
    } else {
        let before = newly_registered(held, flows, is_request, (n - 1) as nat);
        let flow = flows[n - 1];
        if announceable(flow, is_request) && !(held + before).contains(flow.flow_id@) {
            before.push(flow.flow_id@)
        } else {
            before
        }
    }
}

/// The records of the flows `newly_registered` names, in the same order,
/// as each flow brought it.
pub open spec fn registered_records<H>(held: Seq<Seq<char>>, flows: Seq<InboundFlow<H>>, is_request: bool, n: nat) -> Seq<FlowRecord>
    decreases n,
{
    if n == 0 {
        Seq::empty()
    } else {
        let before = registered_records(held, flows, is_request, (n - 1) as nat);
        let flow = flows[n - 1];
        if announceable(flow, is_request) && !(held + newly_registered(held, flows, is_request, (n - 1) as nat)).contains(flow.flow_id@) {
            before.push(flow.record)
        } else {
            before
        }
    }
}

/// The handles of the flows `newly_registered` names, in the same order.
pub open spec fn registered_handles<H>(held: Seq<Seq<char>>, flows: Seq<InboundFlow<H>>, is_request: bool, n: nat) -> Seq<H>
    decreases n,
{
    if n == 0 {
        Seq::empty()
    } else {
        let before = registered_handles(held, flows, is_request, (n - 1) as nat);
        let flow = flows[n - 1];
        if announceable(flow, is_request) && !(held + newly_registered(held, flows, is_request, (n - 1) as nat)).contains(flow.flow_id@) {
            before.push(flow.handles)
        } else {
            before
        }
    }
}

/// The invitations, among the first `n` inbound flows, that an announcement
/// pass produces: one for each flow it registers.
pub open spec fn invitations<H>(held: Seq<Seq<char>>, flows: Seq<InboundFlow<H>>, is_request: bool, n: nat) -> Seq<SignalView>
    decreases n,
{
    if n == 0 {
        Seq::empty()
    } else {
        let before = invitations(held, flows, is_request, (n - 1) as nat);
        let flow = flows[n - 1];
        if announceable(flow, is_request) && !(held + newly_registered(held, flows, is_request, (n - 1) as nat)).contains(flow.flow_id@) {
            before.push(SignalView::Invitation { user: flow.user@, device_id: flow.device_id@, flow_id: flow.flow_id@ })
        } else {
            before
        }
    }
}

/// A signal, with its text as sequences of characters.
pub enum SignalView {
    Trust { user: Seq<char>, state: TrustState },
    Invitation { user: Seq<char>, device_id: Seq<char>, flow_id: Seq<char> },
    Completed { flow_id: Seq<char> },
}

/// The view of a signal.
pub open spec fn signal_view(signal: CryptoSignal) -> SignalView {
    match signal {
        CryptoSignal::TrustChanged { user, state } => SignalView::Trust { user: user@, state },
        CryptoSignal::VerificationRequested { user, device_id, flow_id } => SignalView::Invitation {
            user: user@,
            device_id: device_id@,
            flow_id: flow_id@,
        },
        CryptoSignal::VerificationCompleted { flow_id } => SignalView::Completed { flow_id: flow_id@ },
    }
}

/// The views of a sequence of signals.
pub open spec fn signal_views(signals: Seq<CryptoSignal>) -> Seq<SignalView> {
    signals.map_values(|s: CryptoSignal| signal_view(s))
}

/// Whether a signal is an invitation naming `flow_id`.
pub open spec fn invites(signal: CryptoSignal, flow_id: Seq<char>) -> bool {
    signal matches CryptoSignal::VerificationRequested { flow_id: f, .. } && f@ == flow_id
}

/// Whether one delivery is an invitation naming `flow_id` that no observer
/// took.
pub open spec fn unheard(delivery: (CryptoSignal, bool), flow_id: Seq<char>) -> bool {
    !delivery.1 && invites(delivery.0, flow_id)
}

/// Whether some delivery is an invitation naming `flow_id` that no
/// observer took.
pub open spec fn invited_unheard(deliveries: Seq<(CryptoSignal, bool)>, flow_id: Seq<char>) -> bool {
    exists|i: int| 0 <= i < deliveries.len() && unheard(#[trigger] deliveries[i], flow_id)
}

/// The users whose completed devices read verified.
pub open spec fn verified_users(completions: Seq<(String, bool)>) -> Seq<Seq<char>>
    decreases completions.len(),
{
    if completions.len() == 0 {
        Seq::empty()
    } else {
        let before = verified_users(completions.drop_last());
        if completions.last().1 {
            before.push(completions.last().0@)
        } else {
            before
        }
    }
}

/// Everything one announcement pass produced.
pub struct AnnouncementPass<H> {
    /// The signals to deliver, in order.
    pub signals: Vec<CryptoSignal>,
    /// How many of them, from the front, are trust changes read off
    /// completed comparisons.
    pub trust_changes: usize,
    /// The handles the registry's sweep released.
    pub released: Vec<H>,
    /// The handles of inbound flows that were not registered.
    pub refused: Vec<H>,
}

/// The result of offering a flow to the registry.
pub struct Registration<H> {
    /// Whether the flow was new and is now registered.
    pub inserted: bool,
    /// The handles the sweep before the insertion released.
    pub released: Vec<H>,
    /// The offered handles, handed back when the flow was already held.
    pub refused: Option<H>,
}

/// The flows this process is taking part in: for each, its identifier, the
/// phases its handles were last observed in, and the handles themselves,
/// which this registry stores and hands back but never looks inside.
pub struct FlowRegistry<H> {
    ids: Vec<String>,
    records: Vec<FlowRecord>,
    handles: Vec<H>,
}

impl<H> FlowRegistry<H> {
    /// The identifiers, in registration order.
    pub closed spec fn ids(&self) -> Seq<Seq<char>> {
        self.ids@.map_values(|id: String| id@)
    }

    /// The records, aligned with `ids`.
    pub closed spec fn records(&self) -> Seq<FlowRecord> {
        self.records@
    }

    /// The handles, aligned with `ids`.
    pub closed spec fn handle_seq(&self) -> Seq<H> {
        self.handles@
    }

    /// The identifiers a sweep would keep.
    pub open spec fn sweep_ids(&self, w: bool) -> Seq<Seq<char>> {
        swept_ids(self.ids(), self.records(), w, self.ids().len())
    }

    /// The records a sweep would keep, filled in.
    pub open spec fn sweep_records(&self, w: bool) -> Seq<FlowRecord> {
        swept_records(self.records(), w, self.ids().len())
    }

    /// The handles a sweep would keep, or release.
    pub open spec fn sweep_handles(&self, w: bool, keep: bool) -> Seq<H> {
        swept_handles(self.records(), self.handle_seq(), w, keep, self.ids().len())
    }

    /// Aligned sequences, and no identifier held twice.
    pub open spec fn wf(&self) -> bool {
        &&& self.ids().len() == self.records().len()
        &&& self.records().len() == self.handle_seq().len()
        &&& self.ids().no_duplicates()
    }

    /// Whether the registry holds a flow.
    pub open spec fn holds(&self, flow_id: Seq<char>) -> bool {
        self.ids().contains(flow_id)
    }

    /// The record of a held flow.
    pub open spec fn record_of(&self, flow_id: Seq<char>) -> FlowRecord {
        self.records()[self.ids().index_of(flow_id)]
    }

    /// The handles of a held flow.
    pub open spec fn handles_of(&self, flow_id: Seq<char>) -> H {
        self.handle_seq()[self.ids().index_of(flow_id)]
    }

    /// An empty registry.
    pub fn new() -> (registry: FlowRegistry<H>)
        ensures
            registry.wf(),
            registry.ids().len() == 0,
    {
        let registry = FlowRegistry { ids: Vec::new(), records: Vec::new(), handles: Vec::new() };
        proof {
            assert(registry.ids() =~= Seq::<Seq<char>>::empty());
        }
        registry
    }

    /// How many flows the registry holds.
    pub fn flow_count(&self) -> (count: usize)
        requires
            self.wf(),
        ensures
            count == self.ids().len(),
    {
        self.ids.len()
    }

    /// Empties the registry, handing back every handle it held so that the
    /// caller decides where they are dropped.
    pub fn reset_flows_for_test(&mut self) -> (released: Vec<H>)
        ensures
            final(self).wf(),
            final(self).ids().len() == 0,
            released@ == old(self).handle_seq(),
    {
        let mut ids: Vec<String> = Vec::new();
        let mut records: Vec<FlowRecord> = Vec::new();
        let mut handles: Vec<H> = Vec::new();
        std::mem::swap(&mut ids, &mut self.ids);
        std::mem::swap(&mut records, &mut self.records);
        std::mem::swap(&mut handles, &mut self.handles);
        proof {
            assert(self.ids() =~= Seq::<Seq<char>>::empty());
        }
        handles
    }

    /// The position of a flow, if the registry holds it.
    fn position(&self, flow_id: &String) -> (position: Option<usize>)
        requires
            self.wf(),
        ensures
            position is Some <==> self.holds(flow_id@),
            position is Some ==> position->0 < self.ids().len() && self.ids()[position->0 as int] == flow_id@
                && self.ids().index_of(flow_id@) == position->0,
    {
        let mut i: usize = 0;
        while i < self.ids.len()
            invariant
                self.wf(),
                i <= self.ids().len(),
                forall|j: int| 0 <= j < i ==> self.ids()[j] != flow_id@,
            decreases self.ids().len() - i,
        {
            if self.ids[i] == *flow_id {
                proof {
                    assert(self.ids()[i as int] == flow_id@);
                    assert(self.ids().contains(flow_id@));
                    let k = self.ids().index_of(flow_id@);
                    assert(self.ids()[k] == flow_id@);
                }
                return Some(i);
            }
            i = i + 1;
        }
        proof {
            assert forall|j: int| 0 <= j < self.ids().len() implies self.ids()[j] != flow_id@ by {}
        }
        None
    }

    /// The handles of a flow, if the registry holds it.
    pub fn handles(&self, flow_id: &String) -> (handles: Option<&H>)
        requires
            self.wf(),
        ensures
            handles is Some <==> self.holds(flow_id@),
            handles is Some ==> *handles->0 == self.handles_of(flow_id@),
    {
        match self.position(flow_id) {
            Some(i) => Some(&self.handles[i]),
            None => None,
        }
    }

    /// The stage of a flow the registry holds, filling its comparison cache
    /// on the way; `None` for a flow it does not hold.
    pub fn cached(&mut self, flow_id: &String) -> (stage: Option<FlowStage>)
        requires
            old(self).wf(),
        ensures
            final(self).wf(),
            final(self).ids() == old(self).ids(),
            final(self).handle_seq() == old(self).handle_seq(),
            stage is Some <==> old(self).holds(flow_id@),
            !old(self).holds(flow_id@) ==> final(self).records() == old(self).records(),
            old(self).holds(flow_id@) ==> {
                &&& stage->0 == record_stage(old(self).record_of(flow_id@))
                &&& final(self).records() == old(self).records().update(
                    old(self).ids().index_of(flow_id@),
                    filled(old(self).record_of(flow_id@)),
                )
            },
    {
        match self.position(flow_id) {
            Some(i) => {
                let mut record = self.records[i];
                let stage = stage_of(&mut record);
                self.records.set(i, record);
                Some(stage)
            },
            None => None,
        }
    }

    /// Takes in what a fresh observation of one flow's handles reported.
    pub fn observe(&mut self, flow_id: &String, request: Option<RequestPhase>, comparison: Option<ComparisonPhase>) -> (held: bool)
        requires
            old(self).wf(),
        ensures
            final(self).wf(),
            held == old(self).holds(flow_id@),
            final(self).ids() == old(self).ids(),
            final(self).handle_seq() == old(self).handle_seq(),
            !held ==> final(self).records() == old(self).records(),
            held ==> final(self).records() == old(self).records().update(
                old(self).ids().index_of(flow_id@),
                observed(old(self).record_of(flow_id@), request, comparison),
            ),
    {
        match self.position(flow_id) {
            Some(i) => {
                let old_record = self.records[i];
                let record = FlowRecord {
                    request: if old_record.request.is_some() && request.is_some() { request } else { old_record.request },
                    comparison: if old_record.comparison.is_some() && comparison.is_some() { comparison } else { old_record.comparison },
                    completion_announced: old_record.completion_announced,
                };
                self.records.set(i, record);
                true
            },
            None => false,
        }
    }


    /// Drops every finished flow, except a completed one whose completion
    /// nobody has taken yet while something will announce it, and hands
    /// back the handles of the flows it dropped. Records it keeps have their
    /// comparison filled in.
    pub fn release_finished(&mut self, something_will_announce: bool) -> (released: Vec<H>)
        requires
            old(self).wf(),
        ensures
            final(self).wf(),
            final(self).ids() == swept_ids(old(self).ids(), old(self).records(), something_will_announce, old(self).ids().len()),
            final(self).records() == swept_records(old(self).records(), something_will_announce, old(self).ids().len()),
            final(self).handle_seq() == swept_handles(old(self).records(), old(self).handle_seq(), something_will_announce, true, old(self).ids().len()),
            released@ == swept_handles(old(self).records(), old(self).handle_seq(), something_will_announce, false, old(self).ids().len()),
    {
        let ghost orig_ids = old(self).ids();
        let ghost orig_records = old(self).records();
        let ghost orig_handles = old(self).handle_seq();
        let ghost n = orig_ids.len();
        let w = something_will_announce;
        let mut kept_ids: Vec<String> = Vec::new();
        let mut kept_records: Vec<FlowRecord> = Vec::new();
        let mut kept_handles: Vec<H> = Vec::new();
        let mut released: Vec<H> = Vec::new();
        let ghost mut k: nat = 0;
        while self.ids.len() > 0
            invariant
                k <= n,
                n == orig_ids.len(),
                orig_ids.len() == orig_records.len(),
                orig_records.len() == orig_handles.len(),
                orig_ids.no_duplicates(),
                self.ids@.map_values(|id: String| id@) == orig_ids.skip(k as int),
                self.records@ == orig_records.skip(k as int),
                self.handles@ == orig_handles.skip(k as int),
                kept_ids@.map_values(|id: String| id@) == swept_ids(orig_ids, orig_records, w, k),
                kept_records@ == swept_records(orig_records, w, k),
                kept_handles@ == swept_handles(orig_records, orig_handles, w, true, k),
                released@ == swept_handles(orig_records, orig_handles, w, false, k),
                kept_ids@.map_values(|id: String| id@).no_duplicates(),
                forall|a: int| 0 <= a < kept_ids@.len() ==> exists|j: int| 0 <= j < k && orig_ids[j] == #[trigger] kept_ids@[a]@,
            decreases n - k,
        {
            proof {
                assert(self.ids@.map_values(|id: String| id@).len() == self.ids@.len());
                assert(self.ids@.map_values(|id: String| id@)[0] == self.ids@[0]@);
                assert(orig_ids.skip(k as int)[0] == orig_ids[k as int]);
            }
            let ghost rest_ids = self.ids@;
            let id = self.ids.remove(0);
            proof {
                assert(self.ids@ =~= rest_ids.drop_first());
                assert(self.ids@.map_values(|id: String| id@) =~= rest_ids.map_values(|id: String| id@).drop_first());
            }
            let mut record = self.records.remove(0);
            let handle = self.handles.remove(0);
            proof {
                assert(id@ == orig_ids[k as int]);
                assert(record == orig_records[k as int]);
                assert(handle == orig_handles[k as int]);
            }
            let stage = stage_of(&mut record);
            let survives = !is_finished(stage) || (match stage {
                FlowStage::Done => true,
                _ => false,
            } && !record.completion_announced && w);
            let ghost old_kept = kept_ids@;
            if survives {
                kept_ids.push(id);
                kept_records.push(record);
                kept_handles.push(handle);
                proof {
                    assert(kept_ids@.map_values(|id: String| id@) =~= old_kept.map_values(|id: String| id@).push(orig_ids[k as int]));
                    assert forall|a: int, b: int| 0 <= a < b < kept_ids@.len() implies kept_ids@[a]@ != kept_ids@[b]@ by {
                        if b == kept_ids@.len() - 1 {
                            let j = choose|j: int| 0 <= j < k && orig_ids[j] == #[trigger] old_kept[a]@;
                            assert(orig_ids[j] != orig_ids[k as int]);
                        } else {
                            assert(old_kept.map_values(|id: String| id@)[a] == old_kept[a]@);
                            assert(old_kept.map_values(|id: String| id@)[b] == old_kept[b]@);
                        }
                    }
                    assert forall|a: int| 0 <= a < kept_ids@.len() implies exists|j: int| 0 <= j < k + 1 && orig_ids[j] == #[trigger] kept_ids@[a]@ by {
                        if a == kept_ids@.len() - 1 {
                            assert(orig_ids[k as int] == kept_ids@[a]@);
                        } else {
                            assert(kept_ids@[a] == old_kept[a]);
                            let j = choose|j: int| 0 <= j < k && orig_ids[j] == #[trigger] old_kept[a]@;
                            assert(orig_ids[j] == kept_ids@[a]@);
                        }
                    }
                }
            } else {
                released.push(handle);
                proof {
                    assert forall|a: int| 0 <= a < kept_ids@.len() implies exists|j: int| 0 <= j < k + 1 && orig_ids[j] == #[trigger] kept_ids@[a]@ by {
                        let j = choose|j: int| 0 <= j < k && orig_ids[j] == #[trigger] old_kept[a]@;
                        assert(orig_ids[j] == kept_ids@[a]@);
                    }
                }
            }
            proof {
                assert(orig_ids.skip(k as int).drop_first() =~= orig_ids.skip((k + 1) as int));
                assert(orig_records.skip(k as int).drop_first() =~= orig_records.skip((k + 1) as int));
                assert(orig_handles.skip(k as int).drop_first() =~= orig_handles.skip((k + 1) as int));
                assert(self.ids@.map_values(|id: String| id@) =~= orig_ids.skip((k + 1) as int));
                k = k + 1;
            }
        }
        proof {
            assert(self.ids@.map_values(|id: String| id@).len() == 0);
            assert(k == n);
        }
        self.ids = kept_ids;
        self.records = kept_records;
        self.handles = kept_handles;
        proof {
            lemma_swept_lengths::<H>(orig_ids, orig_records, orig_handles, w, n);
        }
        released
    }


    /// Sweeps finished flows, then registers `flow_id` unless the registry
    /// already holds it. Registering is the deduplication: a flow is
    /// inserted at most once, and the offered handles come back when it was
    /// already held.
    pub fn register(&mut self, flow_id: String, record: FlowRecord, handles: H, something_will_announce: bool) -> (outcome: Registration<H>)
        requires
            old(self).wf(),
        ensures
            final(self).wf(),
            final(self).holds(flow_id@),
            outcome.released@ == old(self).sweep_handles(something_will_announce, false),
            outcome.inserted == !old(self).sweep_ids(something_will_announce).contains(flow_id@),
            outcome.inserted ==> {
                &&& outcome.refused is None
                &&& final(self).ids() == old(self).sweep_ids(something_will_announce).push(flow_id@)
                &&& final(self).records() == old(self).sweep_records(something_will_announce).push(record)
                &&& final(self).handle_seq() == old(self).sweep_handles(something_will_announce, true).push(handles)
            },
            !outcome.inserted ==> {
                &&& outcome.refused == Some(handles)
                &&& final(self).ids() == old(self).sweep_ids(something_will_announce)
                &&& final(self).records() == old(self).sweep_records(something_will_announce)
                &&& final(self).handle_seq() == old(self).sweep_handles(something_will_announce, true)
            },
    {
        let released = self.release_finished(something_will_announce);
        match self.position(&flow_id) {
            Some(_) => Registration { inserted: false, released, refused: Some(handles) },
            None => {
                let ghost before = self.ids@;
                self.ids.push(flow_id);
                self.records.push(record);
                self.handles.push(handles);
                proof {
                    assert(self.ids() =~= before.map_values(|id: String| id@).push(self.ids@.last()@));
                    assert(self.ids()[self.ids().len() - 1] == self.ids@.last()@);
                    assert(self.ids().contains(self.ids@.last()@));
                }
                Registration { inserted: true, released, refused: None }
            },
        }
    }

    /// Registers a flow found outside the registry, unless it is already
    /// over: adopting a finished flow would undo the sweep, so it is
    /// reported unknown and its handles come back.
    pub fn adopt(&mut self, flow_id: String, record: FlowRecord, handles: H, something_will_announce: bool) -> (outcome: Result<Registration<H>, (MachineError, H)>)
        requires
            old(self).wf(),
        ensures
            final(self).wf(),
            spec_is_finished(record_stage(record)) <==> outcome is Err,
            outcome is Err ==> outcome->Err_0 == (MachineError::UnknownFlow, handles) && *final(self) == *old(self),
            outcome is Ok ==> {
                &&& final(self).holds(flow_id@)
                &&& outcome->Ok_0.inserted == !old(self).sweep_ids(something_will_announce).contains(flow_id@)
                &&& outcome->Ok_0.released@ == old(self).sweep_handles(something_will_announce, false)
                &&& outcome->Ok_0.inserted ==> {
                    &&& outcome->Ok_0.refused is None
                    &&& final(self).ids() == old(self).sweep_ids(something_will_announce).push(flow_id@)
                    &&& final(self).records() == old(self).sweep_records(something_will_announce).push(filled(record))
                    &&& final(self).handle_seq() == old(self).sweep_handles(something_will_announce, true).push(handles)
                }
                &&& !outcome->Ok_0.inserted ==> {
                    &&& outcome->Ok_0.refused == Some(handles)
                    &&& final(self).ids() == old(self).sweep_ids(something_will_announce)
                    &&& final(self).records() == old(self).sweep_records(something_will_announce)
                    &&& final(self).handle_seq() == old(self).sweep_handles(something_will_announce, true)
                }
            },
    {
        let mut record = record;
        let stage = stage_of(&mut record);
        if is_finished(stage) {
            return Err((MachineError::UnknownFlow, handles));
        }
        Ok(self.register(flow_id, record, handles, something_will_announce))
    }

    /// Releases one flow and hands back its handles.
    ///
    /// The undo of an insertion the announcement pass made and could not
    /// deliver; nothing else releases a flow a caller may hold.
    pub fn forget_flow(&mut self, flow_id: &String) -> (forgotten: Option<H>)
        requires
            old(self).wf(),
        ensures
            final(self).wf(),
            forgotten is Some <==> old(self).holds(flow_id@),
            !final(self).holds(flow_id@),
            forgotten is None ==> *final(self) == *old(self),
            forall|k: Seq<char>| k != flow_id@ ==> {
                &&& final(self).holds(k) == old(self).holds(k)
                &&& old(self).holds(k) ==> final(self).record_of(k) == old(self).record_of(k)
                &&& old(self).holds(k) ==> final(self).handles_of(k) == old(self).handles_of(k)
            },
            forgotten is Some ==> {
                let i = old(self).ids().index_of(flow_id@);
                &&& forgotten->0 == old(self).handles_of(flow_id@)
                &&& final(self).ids() == old(self).ids().remove(i)
                &&& final(self).records() == old(self).records().remove(i)
                &&& final(self).handle_seq() == old(self).handle_seq().remove(i)
            },
    {
        match self.position(flow_id) {
            Some(i) => {
                let ghost before = self.ids();
                self.ids.remove(i);
                self.records.remove(i);
                let handles = self.handles.remove(i);
                proof {
                    assert(self.ids() =~= before.remove(i as int));
                    assert forall|a: int, b: int| 0 <= a < self.ids().len() && 0 <= b < self.ids().len() && a != b
                        implies self.ids()[a] != self.ids()[b] by {
                        let oa = if a < i { a } else { a + 1 };
                        let ob = if b < i { b } else { b + 1 };
                        assert(self.ids()[a] == before[oa]);
                        assert(self.ids()[b] == before[ob]);
                    }
                    assert forall|a: int| 0 <= a < self.ids().len() implies self.ids()[a] != flow_id@ by {
                        let oa = if a < i { a } else { a + 1 };
                        assert(self.ids()[a] == before[oa]);
                    }
                    assert forall|k: Seq<char>| k != flow_id@ implies {
                        &&& self.holds(k) == old(self).holds(k)
                        &&& old(self).holds(k) ==> self.record_of(k) == old(self).record_of(k)
                        &&& old(self).holds(k) ==> self.handles_of(k) == old(self).handles_of(k)
                    } by {
                        if old(self).holds(k) {
                            let j = before.index_of(k);
                            assert(before[j] == k);
                            assert(j != i);
                            let nj = if j < i { j } else { j - 1 };
                            assert(self.ids()[nj] == k);
                            assert(self.holds(k));
                            let m = self.ids().index_of(k);
                            let om = if m < i { m } else { m + 1 };
                            assert(before[om] == k);
                            assert(om == j);
                        }
                        if self.holds(k) {
                            let m = self.ids().index_of(k);
                            let om = if m < i { m } else { m + 1 };
                            assert(before[om] == k);
                            assert(old(self).holds(k));
                        }
                    }
                }
                Some(handles)
            },
            None => None,
        }
    }

    /// Records a comparison handle, and the phase it is in, against a flow
    /// already held, and hands back the handles it replaced; a miss stores
    /// nothing and hands back what it was given.
    pub fn remember_comparison(&mut self, flow_id: &String, comparison: ComparisonPhase, handles: H) -> (displaced: H)
        requires
            old(self).wf(),
        ensures
            final(self).wf(),
            final(self).ids() == old(self).ids(),
            !old(self).holds(flow_id@) ==> *final(self) == *old(self) && displaced == handles,
            old(self).holds(flow_id@) ==> {
                let i = old(self).ids().index_of(flow_id@);
                &&& displaced == old(self).handles_of(flow_id@)
                &&& final(self).records() == old(self).records().update(i, FlowRecord { comparison: Some(comparison), ..old(self).records()[i] })
                &&& final(self).handle_seq() == old(self).handle_seq().update(i, handles)
            },
    {
        match self.position(flow_id) {
            Some(i) => {
                let mut record = self.records[i];
                record.comparison = Some(comparison);
                self.records.set(i, record);
                let ghost before = self.handles@;
                let displaced = self.handles.remove(i);
                self.handles.insert(i, handles);
                proof {
                    assert(self.handles@ =~= before.update(i as int, handles));
                }
                displaced
            },
            None => handles,
        }
    }

    /// Collects the flows whose completion has not been announced and that
    /// a comparison finished, marking every completed record announced on
    /// the way, whether or not it produced a completion.
    pub fn take_pending_completions(&mut self) -> (completed: Vec<String>)
        requires
            old(self).wf(),
        ensures
            final(self).wf(),
            final(self).ids() == old(self).ids(),
            final(self).handle_seq() == old(self).handle_seq(),
            final(self).records() == old(self).records().map_values(|r: FlowRecord| after_taking_completion(r)),
            completed@.map_values(|id: String| id@) == completions_of(old(self).ids(), old(self).records(), old(self).ids().len()),
    {
        let ghost orig = self.records@;
        let mut completed: Vec<String> = Vec::new();
        let mut i: usize = 0;
        while i < self.records.len()
            invariant
                self.wf(),
                self.ids() == old(self).ids(),
                self.handle_seq() == old(self).handle_seq(),
                orig == old(self).records(),
                i <= self.records@.len(),
                self.records@.len() == orig.len(),
                forall|j: int| 0 <= j < i ==> self.records@[j] == after_taking_completion(orig[j]),
                forall|j: int| i <= j < self.records@.len() ==> self.records@[j] == orig[j],
                completed@.map_values(|id: String| id@) == completions_of(old(self).ids(), orig, i as nat),
            decreases self.records@.len() - i,
        {
            let mut record = self.records[i];
            let ghost before = completed@;
            if !record.completion_announced {
                let stage = stage_of(&mut record);
                match stage {
                    FlowStage::Done => {
                        record.completion_announced = true;
                        match record.comparison {
                            Some(ComparisonPhase::Done) => {
                                let id = self.ids[i].clone();
                                completed.push(id);
                                proof {
                                    assert(self.ids()[i as int] == self.ids@[i as int]@);
                                    assert(completed@.map_values(|id: String| id@) =~= before.map_values(|id: String| id@).push(self.ids()[i as int]));
                                }
                            },
                            _ => {},
                        }
                    },
                    _ => {},
                }
                self.records.set(i, record);
            }
            i = i + 1;
        }
        proof {
            assert(self.records@ =~= orig.map_values(|r: FlowRecord| after_taking_completion(r)));
        }
        completed
    }


    /// Registers a flow unless the registry already holds it, without
    /// sweeping first; the offered handles come back when it was held.
    fn insert_if_absent(&mut self, flow_id: String, record: FlowRecord, handles: H) -> (refused: Option<H>)
        requires
            old(self).wf(),
        ensures
            final(self).wf(),
            refused is Some <==> old(self).holds(flow_id@),
            refused is Some ==> refused->0 == handles && *final(self) == *old(self),
            refused is None ==> {
                &&& final(self).ids() == old(self).ids().push(flow_id@)
                &&& final(self).records() == old(self).records().push(record)
                &&& final(self).handle_seq() == old(self).handle_seq().push(handles)
            },
    {
        match self.position(&flow_id) {
            Some(_) => Some(handles),
            None => {
                let ghost before = self.ids@;
                self.ids.push(flow_id);
                self.records.push(record);
                self.handles.push(handles);
                proof {
                    assert(self.ids() =~= before.map_values(|id: String| id@).push(self.ids@.last()@));
                }
                None
            },
        }
    }

    /// Registers every announceable inbound flow the registry does not hold
    /// yet, appending one invitation per flow it registers.
    fn register_inbound(
        &mut self,
        flows: Vec<InboundFlow<H>>,
        is_request: bool,
        signals: &mut Vec<CryptoSignal>,
        refused: &mut Vec<H>,
    )
        requires
            old(self).wf(),
        ensures
            final(self).wf(),
            final(self).ids() == old(self).ids() + newly_registered(old(self).ids(), flows@, is_request, flows@.len()),
            final(self).records() == old(self).records() + registered_records(old(self).ids(), flows@, is_request, flows@.len()),
            final(self).handle_seq() == old(self).handle_seq() + registered_handles(old(self).ids(), flows@, is_request, flows@.len()),
            signal_views(final(signals)@) == signal_views(old(signals)@) + invitations(old(self).ids(), flows@, is_request, flows@.len()),
            final(signals)@.len() >= old(signals)@.len(),
            forall|i: int| 0 <= i < old(signals)@.len() ==> final(signals)@[i] == old(signals)@[i],
    {
        let ghost held = self.ids();
        let ghost held_records = self.records();
        let ghost held_handles = self.handle_seq();
        let ghost all = flows@;
        let ghost n = flows@.len();
        let ghost start_signals = signal_views(signals@);
        let mut flows = flows;
        let ghost mut k: nat = 0;
        while flows.len() > 0
            invariant
                self.wf(),
                k <= n,
                n == all.len(),
                flows@ == all.skip(k as int),
                self.ids() == held + newly_registered(held, all, is_request, k),
                self.records() == held_records + registered_records(held, all, is_request, k),
                self.handle_seq() == held_handles + registered_handles(held, all, is_request, k),
                signal_views(signals@) == start_signals + invitations(held, all, is_request, k),
                signals@.len() >= old(signals)@.len(),
                forall|i: int| 0 <= i < old(signals)@.len() ==> signals@[i] == old(signals)@[i],
            decreases n - k,
        {
            proof {
                assert(all.skip(k as int)[0] == all[k as int]);
            }
            let flow = flows.remove(0);
            let InboundFlow { flow_id, user, device_id, record, handles } = flow;
            let wanted = if is_request {
                match record.request {
                    Some(RequestPhase::Requested) => true,
                    _ => false,
                }
            } else {
                let mut probe = record;
                !is_finished(stage_of(&mut probe))
            };
            let ghost before_ids = self.ids();
            let ghost before_signals = signals@;
            if wanted {
                let announced_id = flow_id.clone();
                match self.insert_if_absent(flow_id, record, handles) {
                    Some(back) => {
                        refused.push(back);
                    },
                    None => {
                        signals.push(CryptoSignal::VerificationRequested { user, device_id, flow_id: announced_id });
                        proof {
                            assert(signal_views(signals@) =~= signal_views(before_signals).push(signal_view(signals@.last())));
                        }
                    },
                }
            } else {
                refused.push(handles);
            }
            proof {
                assert(all.skip(k as int).drop_first() =~= all.skip((k + 1) as int));
                assert(self.ids() =~= held + newly_registered(held, all, is_request, (k + 1) as nat));
                assert(self.records() =~= held_records + registered_records(held, all, is_request, (k + 1) as nat));
                assert(self.handle_seq() =~= held_handles + registered_handles(held, all, is_request, (k + 1) as nat));
                assert(signal_views(signals@) =~= start_signals + invitations(held, all, is_request, (k + 1) as nat));
                k = k + 1;
            }
        }
    }

    /// Everything one announcement pass owes the crypto channel, and the
    /// registrations that producing it makes.
    ///
    /// With nobody listening it does nothing at all. Otherwise it sweeps
    /// once, then emits, in order: one trust change per distinct user a
    /// completed comparison verified a device of, sorted; one for this
    /// account when its private signing keys have just arrived; and one
    /// invitation for each inbound request, then each inbound comparison,
    /// that is announceable and not already registered, registering it.
    /// Registering is the deduplication, so a flow is announced once.
    pub fn announce_state_changes(
        &mut self,
        observer_present: bool,
        completions: &Vec<(String, bool)>,
        own_user: &String,
        private_keys_arrived: bool,
        inbound_requests: Vec<InboundFlow<H>>,
        inbound_comparisons: Vec<InboundFlow<H>>,
    ) -> (pass: AnnouncementPass<H>)
        requires
            old(self).wf(),
        ensures
            final(self).wf(),
            !observer_present ==> *final(self) == *old(self) && pass.signals@.len() == 0 && pass.released@.len() == 0,
            observer_present ==> {
                let swept = old(self).sweep_ids(true);
                let requests = newly_registered(swept, inbound_requests@, true, inbound_requests@.len());
                let trust = pass.trust_changes as int;
                let own = if private_keys_arrived { 1int } else { 0int };
                &&& pass.released@ == old(self).sweep_handles(true, false)
                &&& final(self).ids() == swept + requests + newly_registered(
                    swept + requests, inbound_comparisons@, false, inbound_comparisons@.len())
                &&& final(self).records() == old(self).sweep_records(true)
                    + registered_records(swept, inbound_requests@, true, inbound_requests@.len())
                    + registered_records(swept + requests, inbound_comparisons@, false, inbound_comparisons@.len())
                &&& final(self).handle_seq() == old(self).sweep_handles(true, true)
                    + registered_handles(swept, inbound_requests@, true, inbound_requests@.len())
                    + registered_handles(swept + requests, inbound_comparisons@, false, inbound_comparisons@.len())
                &&& trust + own <= pass.signals@.len()
                &&& forall|i: int| 0 <= i < trust ==> (#[trigger] pass.signals@[i] matches CryptoSignal::TrustChanged { state, .. }
                    && state == TrustState::Verified)
                &&& strictly_sorted(Seq::new(trust as nat, |i: int| match pass.signals@[i] {
                    CryptoSignal::TrustChanged { user, .. } => user@,
                    _ => Seq::empty(),
                }))
                &&& forall|u: Seq<char>| verified_users(completions@).contains(u) <==> exists|i: int| 0 <= i < trust
                    && (#[trigger] pass.signals@[i] matches CryptoSignal::TrustChanged { user, .. } && user@ == u)
                &&& private_keys_arrived ==> signal_view(pass.signals@[trust]) == (SignalView::Trust { user: own_user@, state: TrustState::Verified })
                &&& signal_views(pass.signals@).skip(trust + own) == invitations(swept, inbound_requests@, true, inbound_requests@.len())
                    + invitations(swept + requests, inbound_comparisons@, false, inbound_comparisons@.len())
            },
    {
        let mut signals: Vec<CryptoSignal> = Vec::new();
        let mut refused: Vec<H> = Vec::new();
        if !observer_present {
            return AnnouncementPass { signals, trust_changes: 0, released: Vec::new(), refused };
        }
        let released = self.release_finished(true);

        let mut users: Vec<String> = Vec::new();
        let mut i: usize = 0;
        while i < completions.len()
            invariant
                i <= completions@.len(),
                views(users@) == verified_users(completions@.take(i as int)),
            decreases completions@.len() - i,
        {
            let ghost before = users@;
            if completions[i].1 {
                users.push(completions[i].0.clone());
            }
            proof {
                assert(completions@.take((i + 1) as int).drop_last() =~= completions@.take(i as int));
                assert(views(users@) =~= verified_users(completions@.take((i + 1) as int)));
            }
            i = i + 1;
        }
        proof {
            assert(completions@.take(i as int) =~= completions@);
        }
        let changed = sorted_unique(&users);
        let mut j: usize = 0;
        while j < changed.len()
            invariant
                j <= changed@.len(),
                signals@.len() == j,
                forall|a: int| 0 <= a < j ==> (#[trigger] signals@[a] matches CryptoSignal::TrustChanged { user, state }
                    && state == TrustState::Verified && user@ == changed@[a]@),
            decreases changed@.len() - j,
        {
            signals.push(CryptoSignal::TrustChanged { user: changed[j].clone(), state: TrustState::Verified });
            j = j + 1;
        }
        let trust_changes = signals.len();
        if private_keys_arrived {
            signals.push(CryptoSignal::TrustChanged { user: own_user.clone(), state: TrustState::Verified });
        }
        let ghost prefix = signals@;
        let ghost swept = self.ids();
        self.register_inbound(inbound_requests, true, &mut signals, &mut refused);
        let ghost after_requests = signals@;
        self.register_inbound(inbound_comparisons, false, &mut signals, &mut refused);
        proof {
            let trust = trust_changes as int;
            let tu = Seq::new(trust as nat, |i: int| match signals@[i] {
                CryptoSignal::TrustChanged { user, .. } => user@,
                _ => Seq::empty(),
            });
            assert(tu =~= views(changed@));
            assert forall|u: Seq<char>| verified_users(completions@).contains(u) <==> exists|i: int| 0 <= i < trust
                && (#[trigger] signals@[i] matches CryptoSignal::TrustChanged { user, .. } && user@ == u) by {
                if verified_users(completions@).contains(u) {
                    assert(views(users@).contains(u));
                    assert(views(changed@).contains(u));
                    let k = choose|k: int| 0 <= k < views(changed@).len() && views(changed@)[k] == u;
                    assert(signals@[k] == prefix[k]);
                }
                if exists|i: int| 0 <= i < trust && (#[trigger] signals@[i] matches CryptoSignal::TrustChanged { user, .. } && user@ == u) {
                    let k = choose|i: int| 0 <= i < trust && (#[trigger] signals@[i] matches CryptoSignal::TrustChanged { user, .. } && user@ == u);
                    assert(signals@[k] == prefix[k]);
                    assert(views(changed@)[k] == u);
                    assert(views(changed@).contains(u));
                }
            }
            let own = if private_keys_arrived { 1int } else { 0int };
            if private_keys_arrived {
                assert(signal_views(signals@)[trust] == signal_views(prefix)[trust]);
            }
            assert(signal_views(signals@).skip(trust + own) =~= invitations(swept, inbound_requests@, true, inbound_requests@.len())
                + invitations(swept + newly_registered(swept, inbound_requests@, true, inbound_requests@.len()), inbound_comparisons@, false, inbound_comparisons@.len()));
            assert(self.records() =~= old(self).sweep_records(true)
                + registered_records(swept, inbound_requests@, true, inbound_requests@.len())
                + registered_records(swept + newly_registered(swept, inbound_requests@, true, inbound_requests@.len()), inbound_comparisons@, false, inbound_comparisons@.len()));
            assert(self.handle_seq() =~= old(self).sweep_handles(true, true)
                + registered_handles(swept, inbound_requests@, true, inbound_requests@.len())
                + registered_handles(swept + newly_registered(swept, inbound_requests@, true, inbound_requests@.len()), inbound_comparisons@, false, inbound_comparisons@.len()));
            assert(self.ids() =~= swept + newly_registered(swept, inbound_requests@, true, inbound_requests@.len()) + newly_registered(
                swept + newly_registered(swept, inbound_requests@, true, inbound_requests@.len()), inbound_comparisons@, false, inbound_comparisons@.len()));
        }
        AnnouncementPass { signals, trust_changes, released, refused }
    }


    /// Puts back what announcing an invitation to nobody consumed: given
    /// each signal of one pass with whether an observer took it, releases
    /// every flow an invitation nobody took names, so that the next pass
    /// with somebody listening finds and announces it afresh. A trust
    /// change nobody took releases nothing: it is re-askable, an invitation
    /// is not. Every other flow is left as it was.
    ///
    /// Only ever called with the signals one announcement pass just
    /// produced, whose invitations name flows that pass registered.
    pub fn announce(&mut self, deliveries: Vec<(CryptoSignal, bool)>) -> (released: Vec<H>)
        requires
            old(self).wf(),
        ensures
            final(self).wf(),
            forall|k: Seq<char>| #[trigger] final(self).holds(k) <==> (old(self).holds(k) && !invited_unheard(deliveries@, k)),
            forall|k: Seq<char>| #[trigger] final(self).holds(k) ==> final(self).record_of(k) == old(self).record_of(k)
                && final(self).handles_of(k) == old(self).handles_of(k),
            (forall|k: Seq<char>| !invited_unheard(deliveries@, k)) ==> *final(self) == *old(self),
    {
        let mut released: Vec<H> = Vec::new();
        let mut i: usize = 0;
        while i < deliveries.len()
            invariant
                self.wf(),
                i <= deliveries@.len(),
                forall|k: Seq<char>| #[trigger] self.holds(k) <==> (old(self).holds(k) && !invited_unheard(deliveries@.take(i as int), k)),
                forall|k: Seq<char>| #[trigger] self.holds(k) ==> self.record_of(k) == old(self).record_of(k)
                    && self.handles_of(k) == old(self).handles_of(k),
                (forall|k: Seq<char>| !invited_unheard(deliveries@.take(i as int), k)) ==> *self == *old(self),
            decreases deliveries@.len() - i,
        {
            let ghost before = *self;
            let (signal, taken) = &deliveries[i];
            if !*taken {
                match signal {
                    CryptoSignal::VerificationRequested { flow_id, .. } => {
                        match self.forget_flow(flow_id) {
                            Some(handles) => released.push(handles),
                            None => {},
                        }
                    },
                    _ => {},
                }
            }
            proof {
                let done = deliveries@.take(i as int);
                let next = deliveries@.take((i + 1) as int);
                assert(next =~= done.push(deliveries@[i as int]));
                assert forall|k: Seq<char>| invited_unheard(next, k) <==> (invited_unheard(done, k) || unheard(deliveries@[i as int], k)) by {
                    if invited_unheard(next, k) {
                        let a = choose|a: int| 0 <= a < next.len() && unheard(#[trigger] next[a], k);
                        if a < done.len() {
                            assert(done[a] == next[a]);
                        }
                    }
                    if invited_unheard(done, k) {
                        let a = choose|a: int| 0 <= a < done.len() && unheard(#[trigger] done[a], k);
                        assert(next[a] == done[a]);
                    }
                    if unheard(deliveries@[i as int], k) {
                        assert(next[i as int] == deliveries@[i as int]);
                    }
                }
                if forall|k: Seq<char>| !invited_unheard(next, k) {
                    assert forall|k: Seq<char>| !invited_unheard(done, k) by {
                        if invited_unheard(done, k) {
                            assert(invited_unheard(next, k));
                        }
                    }
                    if !*taken {
                        if let CryptoSignal::VerificationRequested { flow_id, .. } = signal {
                            assert(unheard(deliveries@[i as int], flow_id@));
                            assert(invited_unheard(next, flow_id@));
                        }
                    }
                }
            }
            i = i + 1;
        }
        proof {
            assert(deliveries@.take(i as int) =~= deliveries@);
        }
        released
    }

} // impl FlowRegistry

/// The three sequences a sweep keeps stay aligned.
proof fn lemma_swept_lengths<H>(ids: Seq<Seq<char>>, records: Seq<FlowRecord>, handles: Seq<H>, w: bool, n: nat)
    requires
        n <= ids.len(),
        n <= records.len(),
        n <= handles.len(),
    ensures
        swept_ids(ids, records, w, n).len() == swept_records(records, w, n).len(),
        swept_records(records, w, n).len() == swept_handles(records, handles, w, true, n).len(),
    decreases n,
{
    if n > 0 {
        lemma_swept_lengths(ids, records, handles, w, (n - 1) as nat);
    }
}

/// The comparison a call that shows or confirms the short authentication
/// string needs: keys exchanged. Before that the material is not ready;
/// after it, or with no comparison at all, the call no longer applies.
pub open spec fn spec_material_check(comparison: Option<ComparisonPhase>) -> Result<(), MachineError> {
    match comparison {
        Some(ComparisonPhase::KeysExchanged) => Ok(()),
        Some(ComparisonPhase::Created) => Err(MachineError::MaterialNotReady),
        Some(ComparisonPhase::Started) => Err(MachineError::MaterialNotReady),
        Some(ComparisonPhase::Accepted) => Err(MachineError::MaterialNotReady),
        _ => Err(MachineError::WrongStage),
    }
}

/// Whether the short authentication string can be read, or confirmed, for
/// a flow whose comparison is in `comparison`.
///
/// `MaterialNotReady` means the flow is live and has not got there yet;
/// `WrongStage` means it never will.
pub fn material_check(comparison: Option<ComparisonPhase>) -> (r: Result<(), MachineError>)
    ensures
        r == spec_material_check(comparison),
{
    match comparison {
        Some(ComparisonPhase::KeysExchanged) => Ok(()),
        Some(ComparisonPhase::Created) => Err(MachineError::MaterialNotReady),
        Some(ComparisonPhase::Started) => Err(MachineError::MaterialNotReady),
        Some(ComparisonPhase::Accepted) => Err(MachineError::MaterialNotReady),
        _ => Err(MachineError::WrongStage),
    }
}

/// Whether this side may start the comparison: only a request-shaped flow
/// at `Ready`. The same side calling twice is refused, because by then the
/// flow is no longer ready.
pub fn begin_comparison_check(stage: FlowStage, has_request: bool) -> (r: Result<(), MachineError>)
    ensures
        r is Ok <==> (stage == FlowStage::Ready && has_request),
        r is Err ==> r == Err::<(), MachineError>(MachineError::WrongStage),
{
    match stage {
        FlowStage::Ready => {
            if has_request {
                Ok(())
            } else {
                Err(MachineError::WrongStage)
            }
        },
        _ => Err(MachineError::WrongStage),
    }
}

/// Which handle a cancellation goes through.
#[derive(Debug, Clone, Copy, PartialEq, Eq, Structural)]
pub enum CancelTarget {
    /// The comparison, which cancels the request behind it too.
    Comparison,
    /// The request, for a flow that has not become a comparison.
    Request,
}

/// Cancels the comparison if there is one, and the request otherwise.
pub fn cancel_target(has_request: bool, has_comparison: bool) -> (r: Result<CancelTarget, MachineError>)
    ensures
        has_comparison ==> r == Ok::<CancelTarget, MachineError>(CancelTarget::Comparison),
        !has_comparison && has_request ==> r == Ok::<CancelTarget, MachineError>(CancelTarget::Request),
        !has_comparison && !has_request ==> r == Err::<CancelTarget, MachineError>(MachineError::WrongStage),
{
    if has_comparison {
        Ok(CancelTarget::Comparison)
    } else if has_request {
        Ok(CancelTarget::Request)
    } else {
        Err(MachineError::WrongStage)
    }
}

/// Why a self-verification cannot start when this machine holds no public
/// identity for the account: nobody has asked, or the answer named none.
pub fn self_flow_refusal(account_keys_answered: bool) -> (error: MachineError)
    ensures
        account_keys_answered ==> error == MachineError::IdentityNotKnown,
        !account_keys_answered ==> error == MachineError::AccountKeysNotFetched,
{
    if account_keys_answered {
        MachineError::IdentityNotKnown
    } else {
        MachineError::AccountKeysNotFetched
    }
}

/// How many symbols a material carries, if it carries the symbol form.
pub open spec fn emoji_count(material: SasMaterial) -> Option<nat> {
    match material.emoji {
        Some(symbols) => Some(symbols@.len()),
        None => None,
    }
}

/// The redacted rendering of a material: how many symbols it has, and
/// nothing of the symbols or the digits themselves.
pub open spec fn material_render(count: Option<nat>) -> Seq<char> {
    "SasMaterial { emoji_count: "@ + (match count {
        Some(n) => "Some("@ + decimal(n) + ")"@,
        None => "None"@,
    }) + ", decimals: \"[redacted]\" }"@
}

/// The redacted rendering of one symbol.
pub open spec fn emoji_render() -> Seq<char> {
    "SasEmoji { symbol: \"[redacted]\" }"@
}

impl SasMaterial {
    /// The material as a debug line may show it: this record is the
    /// authentication material, so only the number of symbols is written.
    pub fn debug_string(&self) -> (rendered: String)
        ensures
            rendered@ == material_render(emoji_count(*self)),
    {
        let mut out = String::from_str("SasMaterial { emoji_count: ");
        match &self.emoji {
            Some(symbols) => {
                out.append("Some(");
                push_decimal(&mut out, symbols.len());
                out.append(")");
            },
            None => out.append("None"),
        }
        out.append(", decimals: \"[redacted]\" }");
        proof {
            assert(out@ =~= material_render(emoji_count(*self)));
        }
        out
    }
}

impl SasEmoji {
    /// One symbol as a debug line may show it: not at all, since one symbol
    /// is a seventh of the answer.
    pub fn debug_string(&self) -> (rendered: String)
        ensures
            rendered@ == emoji_render(),
    {
        String::from_str("SasEmoji { symbol: \"[redacted]\" }")
    }
}

/// The redaction law: two materials with the same number of symbols render
/// identically, whatever their digits and symbols, so no rendering carries
/// the string being compared.
pub proof fn the_material_never_reaches_its_rendering(a: SasMaterial, b: SasMaterial)
    requires
        emoji_count(a) == emoji_count(b),
    ensures
        material_render(emoji_count(a)) == material_render(emoji_count(b)),
{
}

/// The type of the to-device event that opens a comparison.
pub open spec fn start_event_text() -> Seq<char> {
    "m.key.verification.start"@
}

/// The type of the to-device event that opens a comparison.
pub fn start_event_type() -> (event_type: &'static str)
    ensures
        event_type@ == start_event_text(),
{
    "m.key.verification.start"
}

/// Whether the raw text of an event mentions the start event type at all:
/// the test that precedes any parse, since most to-device traffic is not
/// a verification.
pub fn mentions_start_event(raw: &str) -> (found: bool)
    ensures
        found == occurs_in(raw@, start_event_text()),
{
    contains_text(raw, start_event_type())
}

/// What one processed to-device event says of itself: its type, its sender
/// and the transaction id in its content, each absent where the event has
/// none as text.
pub struct ToDeviceFields {
    pub event_type: Option<String>,
    pub sender: Option<String>,
    pub transaction_id: Option<String>,
}

/// An optional text by its view.
pub open spec fn opt_view(text: Option<String>) -> Option<Seq<char>> {
    match text {
        Some(t) => Some(t@),
        None => None,
    }
}

/// What an event's type, sender and transaction id read as.
pub open spec fn fields_view(fields: ToDeviceFields) -> (Option<Seq<char>>, Option<Seq<char>>, Option<Seq<char>>) {
    (opt_view(fields.event_type), opt_view(fields.sender), opt_view(fields.transaction_id))
}

/// The fields a raw event's JSON holds as text, if it parses.
pub uninterp spec fn spec_event_fields(raw: Seq<char>) -> Option<(Option<Seq<char>>, Option<Seq<char>>, Option<Seq<char>>)>;

/// Reads an event's type, its sender and the transaction id in its content.
///
/// Calls `serde_json::from_str` into a `serde_json::Value`, then `get` and
/// `as_str` on each field; a field that is missing or not a string reads
/// as absent. The contract names the outcome as a function of the text.
#[verifier::external_body]
fn event_fields(raw: &str) -> (fields: Option<ToDeviceFields>)
    ensures
        fields is Some <==> spec_event_fields(raw@) is Some,
        fields is Some ==> fields_view(fields->0) == spec_event_fields(raw@)->0,
{
    let event: serde_json::Value = serde_json::from_str(raw).ok()?;
    Some(ToDeviceFields {
        event_type: event.get("type").and_then(serde_json::Value::as_str).map(str::to_owned),
        sender: event.get("sender").and_then(serde_json::Value::as_str).map(str::to_owned),
        transaction_id: event.get("content").and_then(|c| c.get("transaction_id")).and_then(serde_json::Value::as_str).map(str::to_owned),
    })
}

/// The `(sender, transaction id)` an event's fields offer as a comparison
/// that may have begun without a request: a start event with a sender that
/// parses as a user id and a transaction id.
pub open spec fn field_candidate(fields: (Option<Seq<char>>, Option<Seq<char>>, Option<Seq<char>>)) -> Option<(Seq<char>, Seq<char>)> {
    match fields {
        (Some(t), Some(s), Some(x)) => if t == start_event_text() && spec_user_id_parses(s) {
            Some((s, x))
        } else {
            None
        },
        _ => None,
    }
}

/// The candidate a raw event offers: none unless its text mentions the
/// start event type and parses.
pub open spec fn raw_candidate(raw: Seq<char>) -> Option<(Seq<char>, Seq<char>)> {
    if !occurs_in(raw, start_event_text()) {
        None
    } else {
        match spec_event_fields(raw) {
            None => None,
            Some(fields) => field_candidate(fields),
        }
    }
}

/// Every candidate among `raws`, in order.
pub open spec fn start_candidates(raws: Seq<Seq<char>>) -> Seq<(Seq<char>, Seq<char>)>
    decreases raws.len(),
{
    if raws.len() == 0 {
        Seq::empty()
    } else {
        let before = start_candidates(raws.drop_last());
        match raw_candidate(raws.last()) {
            Some(c) => before.push(c),
            None => before,
        }
    }
}

/// Pairs of texts by their views.
pub open spec fn pair_views(pairs: Seq<(String, String)>) -> Seq<(Seq<char>, Seq<char>)> {
    pairs.map_values(|p: (String, String)| (p.0@, p.1@))
}

/// The `(sender, transaction id)` of every start event among one sync's
/// processed to-device events, given as their raw JSON, in the order they
/// came. The text is searched for the start event type before any parse,
/// since most to-device traffic is not a verification. A candidate is no
/// more than an identifier that might name a flow.
pub fn bare_start_candidates(raws: &Vec<String>) -> (candidates: Vec<(String, String)>)
    ensures
        pair_views(candidates@) == start_candidates(views(raws@)),
{
    let start = String::from_str(start_event_type());
    let mut candidates: Vec<(String, String)> = Vec::new();
    let mut i: usize = 0;
    while i < raws.len()
        invariant
            i <= raws@.len(),
            start@ == start_event_text(),
            pair_views(candidates@) == start_candidates(views(raws@).take(i as int)),
        decreases raws@.len() - i,
    {
        proof {
            assert(views(raws@).take(i as int + 1).drop_last() =~= views(raws@).take(i as int));
            assert(views(raws@).take(i as int + 1).last() == raws@[i as int]@);
        }
        let raw = raws[i].as_str();
        if mentions_start_event(raw) {
            match event_fields(raw) {
                Some(fields) => {
                    match (&fields.event_type, &fields.sender, &fields.transaction_id) {
                        (Some(t), Some(s), Some(x)) => {
                            if *t == start && parse_user_id(s.as_str()).is_ok() {
                                candidates.push((s.clone(), x.clone()));
                                proof {
                                    assert(pair_views(candidates@) =~= start_candidates(views(raws@).take(i as int)).push((s@, x@)));
                                }
                            }
                        },
                        _ => {},
                    }
                },
                None => {},
            }
        }
        i = i + 1;
    }
    proof {
        assert(views(raws@).take(raws@.len() as int) =~= views(raws@));
    }
    candidates
}

/// A comparison that has not reached its keys is at `Started`, never at a
/// finished stage, whether it came as its own handle or inside the request
/// that turned into it.
pub proof fn a_comparison_before_its_keys_is_started(
    phase: ComparisonPhase,
    request: Option<RequestPhase>,
    announced: bool,
)
    requires
        phase == ComparisonPhase::Created || phase == ComparisonPhase::Started || phase == ComparisonPhase::Accepted,
    ensures
        record_stage(FlowRecord { request, comparison: Some(phase), completion_announced: announced }) == FlowStage::Started,
        record_stage(FlowRecord {
            request: Some(RequestPhase::Transitioned { comparison: Some(phase) }),
            comparison: None,
            completion_announced: announced,
        }) == FlowStage::Started,
        !spec_is_finished(record_stage(FlowRecord { request, comparison: Some(phase), completion_announced: announced })),
{
}

/// The string is not ready, and asking again after pumping is the remedy,
/// exactly while the comparison has not reached its keys; it is the wrong
/// stage exactly once the comparison is past them or there is none.
pub proof fn the_string_is_not_ready_before_its_keys(phase: ComparisonPhase)
    ensures
        spec_material_check(Some(phase)) == Err::<(), MachineError>(MachineError::MaterialNotReady)
            <==> (phase == ComparisonPhase::Created || phase == ComparisonPhase::Started || phase == ComparisonPhase::Accepted),
        spec_material_check(Some(phase)) == Err::<(), MachineError>(MachineError::WrongStage)
            <==> (phase == ComparisonPhase::Confirmed || phase == ComparisonPhase::Done || phase == ComparisonPhase::Cancelled),
        spec_material_check(None) == Err::<(), MachineError>(MachineError::WrongStage),
{
}

/// An inbound comparison that began without a request, and that the
/// registry does not hold, is registered and announced exactly when it is
/// not over: one invitation naming its user, device and flow, with its
/// handles kept. A comparison that is done or cancelled is neither.
pub proof fn an_unrequested_comparison_is_announced_while_live<H>(
    held: Seq<Seq<char>>,
    flow: InboundFlow<H>,
    phase: ComparisonPhase,
)
    requires
        flow.record.request is None,
        flow.record.comparison == Some(phase),
        !held.contains(flow.flow_id@),
    ensures
        phase != ComparisonPhase::Done && phase != ComparisonPhase::Cancelled ==> {
            &&& newly_registered(held, seq![flow], false, 1) == seq![flow.flow_id@]
            &&& registered_handles(held, seq![flow], false, 1) == seq![flow.handles]
            &&& registered_records(held, seq![flow], false, 1) == seq![flow.record]
            &&& invitations(held, seq![flow], false, 1)
                == seq![SignalView::Invitation { user: flow.user@, device_id: flow.device_id@, flow_id: flow.flow_id@ }]
        },
        phase == ComparisonPhase::Done || phase == ComparisonPhase::Cancelled ==> {
            &&& newly_registered(held, seq![flow], false, 1).len() == 0
            &&& invitations(held, seq![flow], false, 1).len() == 0
        },
{
    let flows = seq![flow];
    assert(flows[0] == flow);
    assert(newly_registered(held, flows, false, 0) == Seq::<Seq<char>>::empty());
    assert(registered_handles(held, flows, false, 0) == Seq::<H>::empty());
    assert(registered_records(held, flows, false, 0) == Seq::<FlowRecord>::empty());
    assert(invitations(held, flows, false, 0) == Seq::<SignalView>::empty());
    assert(held + newly_registered(held, flows, false, 0) =~= held);
    assert(filled_comparison(flow.record) == Some(phase));
    assert(record_stage(flow.record) == comparison_stage(phase));
    assert(announceable(flow, false) <==> (phase != ComparisonPhase::Done && phase != ComparisonPhase::Cancelled));
    assert(newly_registered(held, flows, false, 1) =~= newly_registered(held, flows, false, 0)
        + (if announceable(flow, false) { seq![flow.flow_id@] } else { Seq::empty() }));
    assert(registered_handles(held, flows, false, 1) =~= registered_handles(held, flows, false, 0)
        + (if announceable(flow, false) { seq![flow.handles] } else { Seq::empty() }));
    assert(registered_records(held, flows, false, 1) =~= registered_records(held, flows, false, 0)
        + (if announceable(flow, false) { seq![flow.record] } else { Seq::empty() }));
    assert(invitations(held, flows, false, 1) =~= invitations(held, flows, false, 0)
        + (if announceable(flow, false) {
            seq![SignalView::Invitation { user: flow.user@, device_id: flow.device_id@, flow_id: flow.flow_id@ }]
        } else {
            Seq::empty()
        }));
}

/// Reading and confirming the string are served in exactly one phase.
pub proof fn the_string_is_confirmed_only_while_it_is_shown(comparison: Option<ComparisonPhase>)
    ensures
        spec_material_check(comparison) is Ok <==> comparison == Some(ComparisonPhase::KeysExchanged),
{
}

/// A flow that began as a bare start event is never `Ready`, so starting a
/// comparison on one is always refused.
pub proof fn a_bare_start_is_never_ready(comparison: ComparisonPhase, announced: bool)
    ensures
        record_stage(FlowRecord { request: None, comparison: Some(comparison), completion_announced: announced }) != FlowStage::Ready,
{
}

/// Filling the comparison cache never changes a flow's stage, nor whether a
/// sweep keeps it.
pub proof fn filling_preserves_stage(record: FlowRecord, w: bool)
    ensures
        record_stage(filled(record)) == record_stage(record),
        survives_sweep(filled(record), w) == survives_sweep(record, w),
{
}

/// A surviving record is among what a sweep keeps.
proof fn lemma_swept_keeps(ids: Seq<Seq<char>>, records: Seq<FlowRecord>, w: bool, n: nat, k: int)
    requires
        0 <= k < n,
        n <= ids.len(),
        n <= records.len(),
        survives_sweep(records[k], w),
    ensures
        swept_ids(ids, records, w, n).contains(ids[k]),
    decreases n,
{
    if k < n - 1 {
        lemma_swept_keeps(ids, records, w, (n - 1) as nat, k);
        let before = swept_ids(ids, records, w, (n - 1) as nat);
        let a = choose|a: int| 0 <= a < before.len() && before[a] == ids[k];
        if survives_sweep(records[n - 1], w) {
            assert(before.push(ids[n - 1])[a] == ids[k]);
        }
    } else {
        let before = swept_ids(ids, records, w, (n - 1) as nat);
        assert(before.push(ids[k])[before.len() as int] == ids[k]);
    }
}

/// What a sweep keeps is exactly what survives it.
proof fn lemma_swept_all_survive(records: Seq<FlowRecord>, w: bool, n: nat)
    requires
        n <= records.len(),
    ensures
        forall|j: int| 0 <= j < swept_records(records, w, n).len() ==> survives_sweep(#[trigger] swept_records(records, w, n)[j], w),
    decreases n,
{
    if n > 0 {
        lemma_swept_all_survive(records, w, (n - 1) as nat);
        let before = swept_records(records, w, (n - 1) as nat);
        if survives_sweep(records[n - 1], w) {
            filling_preserves_stage(records[n - 1], w);
            assert forall|j: int| 0 <= j < before.push(filled(records[n - 1])).len() implies survives_sweep(
                #[trigger] before.push(filled(records[n - 1]))[j], w) by {
                if j < before.len() {
                    assert(before.push(filled(records[n - 1]))[j] == before[j]);
                }
            }
        }
    }
}

/// A live flow the registry holds survives the sweep the next registration
/// makes, so registering the same live flow again inserts nothing: a flow
/// is registered, and announced, at most once while it lives.
pub proof fn a_live_flow_is_never_registered_twice<H>(registry: FlowRegistry<H>, flow_id: Seq<char>, w: bool)
    requires
        registry.wf(),
        registry.holds(flow_id),
        !spec_is_finished(record_stage(registry.record_of(flow_id))),
    ensures
        registry.sweep_ids(w).contains(flow_id),
{
    let k = registry.ids().index_of(flow_id);
    lemma_swept_keeps(registry.ids(), registry.records(), w, registry.ids().len(), k);
}

/// After a sweep every flow left is live, except a completion nobody has
/// taken yet while something will announce it; with nobody to announce, no
/// finished flow is left at all.
pub proof fn a_sweep_leaves_only_live_flows<H>(registry: FlowRegistry<H>, w: bool)
    requires
        registry.wf(),
    ensures
        forall|j: int| 0 <= j < registry.sweep_records(w).len() ==> {
            let r = #[trigger] registry.sweep_records(w)[j];
            !spec_is_finished(record_stage(r)) || (record_stage(r) == FlowStage::Done && !r.completion_announced && w)
        },
{
    lemma_swept_all_survive(registry.records(), w, registry.ids().len());
}

/// Once taken, a completion is not taken again: a second collection over
/// the records the first one left yields nothing.
pub proof fn a_completion_is_taken_once(ids: Seq<Seq<char>>, records: Seq<FlowRecord>, n: nat)
    requires
        n <= ids.len(),
        n <= records.len(),
    ensures
        completions_of(ids, records.map_values(|r: FlowRecord| after_taking_completion(r)), n).len() == 0,
    decreases n,
{
    if n > 0 {
        a_completion_is_taken_once(ids, records, (n - 1) as nat);
        let r = records.map_values(|r: FlowRecord| after_taking_completion(r))[n - 1];
        assert(r == after_taking_completion(records[n - 1]));
        filling_preserves_stage(records[n - 1], false);
        assert(!yields_completion(r));
    }
}

/// A flow already registered is never registered, nor announced, by a later
/// pass.
pub proof fn a_registered_flow_is_not_announced_again<H>(
    held: Seq<Seq<char>>,
    flows: Seq<InboundFlow<H>>,
    is_request: bool,
    n: nat,
    flow_id: Seq<char>,
)
    requires
        held.contains(flow_id),
        n <= flows.len(),
    ensures
        !newly_registered(held, flows, is_request, n).contains(flow_id),
    decreases n,
{
    if n > 0 {
        a_registered_flow_is_not_announced_again(held, flows, is_request, (n - 1) as nat, flow_id);
        let before = newly_registered(held, flows, is_request, (n - 1) as nat);
        let flow = flows[n - 1];
        if announceable(flow, is_request) && !(held + before).contains(flow.flow_id@) {
            let j = choose|j: int| 0 <= j < held.len() && held[j] == flow_id;
            assert((held + before)[j] == flow_id);
            assert(flow.flow_id@ != flow_id);
            assert forall|a: int| 0 <= a < before.push(flow.flow_id@).len() implies before.push(flow.flow_id@)[a] != flow_id by {
                if a < before.len() {
                    assert(before.push(flow.flow_id@)[a] == before[a]);
                }
            }
        }
    }
}

} // verus!
