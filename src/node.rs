//! The node: its outputs, its shared-memory regions and the protocol that
//! returns them.

use vstd::prelude::*;

use crate::cache::{after_push, has_fit, is_best_fit, CachedRegion, ShmCache};
use crate::ids::IdSet;
use crate::sample::{DataMessage, DataSample};
use crate::shm::{create_region, zeroed_buffer, ShmemHandle};
use crate::tracker::{DropToken, DropTokenTracker};
use crate::{MAX_CACHE_SIZE, ZERO_COPY_THRESHOLD};

verus! {

#[verifier::external_type_specification]
#[verifier::external_body]
pub struct ExYamlValue(serde_yaml::Value);

/// Errors of the node's operations.
#[derive(Debug)]
pub enum NodeError {
    /// The operating system could not create a shared-memory region.
    ShmAlloc,
    /// `close_outputs` was given an identifier that is not an active output.
    UnknownOutput(String),
    /// The drop-token stream closed while tokens were still expected.
    ChannelClosed,
    /// The dataflow descriptor could not be parsed; the message says why.
    DescriptorUnavailable(String),
}

/// What to do with a message for an output.
#[derive(PartialEq, Eq, Structural, Clone, Copy, Debug)]
pub enum OutputCheck {
    /// The output is active: send.
    Active,
    /// Unknown output, seen for the first time: drop the message and warn.
    IgnoredWarn,
    /// Unknown output that was warned about before: drop the message quietly.
    IgnoredQuiet,
}

/// Inputs and the active outputs of a node.
pub struct NodeRunConfig {
    pub inputs: IdSet,
    pub outputs: IdSet,
}

impl NodeRunConfig {
    pub open spec fn wf(&self) -> bool {
        self.inputs.wf() && self.outputs.wf()
    }

    pub fn new(inputs: Vec<String>, outputs: Vec<String>) -> (r: Self)
        ensures
            r.wf(),
            r.inputs@ == crate::ids::id_views(inputs@).to_set(),
            r.outputs@ == crate::ids::id_views(outputs@).to_set(),
    {
        NodeRunConfig { inputs: IdSet::from_vec(inputs), outputs: IdSet::from_vec(outputs) }
    }
}

/// The decision for a message to `id`.
pub open spec fn output_check(outputs: Set<Seq<char>>, warned: Set<Seq<char>>, id: Seq<char>) -> OutputCheck {
    if outputs.contains(id) {
        OutputCheck::Active
    } else if warned.contains(id) {
        OutputCheck::IgnoredQuiet
    } else {
        OutputCheck::IgnoredWarn
    }
}

/// The warned set after a message to `id`.
pub open spec fn warned_after(outputs: Set<Seq<char>>, warned: Set<Seq<char>>, id: Seq<char>) -> Set<
    Seq<char>,
> {
    if outputs.contains(id) {
        warned
    } else {
        warned.insert(id)
    }
}

/// A region that was handed to the daemon under `token`, to be kept until the
/// token returns.
pub struct RetainedRegion {
    region: ShmemHandle,
    token: DropToken,
}

impl RetainedRegion {
    pub closed spec fn spec_token(&self) -> DropToken {
        self.token
    }

    pub closed spec fn spec_region(&self) -> ShmemHandle {
        self.region
    }

    pub fn token(&self) -> (r: DropToken)
        ensures
            r == self.spec_token(),
    {
        self.token
    }
}

/// A message ready for the control channel, and the region to retain once
/// the channel has accepted it.
pub struct OutgoingOutput {
    pub output_id: String,
    pub data: Option<DataMessage>,
    pub retained: Option<RetainedRegion>,
}

/// The cache entry for a free region.
pub open spec fn cache_entry(h: ShmemHandle) -> CachedRegion<ShmemHandle> {
    CachedRegion { capacity: h.capacity() as usize, region: h }
}

/// Tracker and cache after the drop tokens `tokens` came back, in order: a
/// known token moves its region to the cache, an unknown one changes nothing.
pub open spec fn after_acks(
    tracker: Map<u64, ShmemHandle>,
    cache: Seq<CachedRegion<ShmemHandle>>,
    tokens: Seq<DropToken>,
) -> (Map<u64, ShmemHandle>, Seq<CachedRegion<ShmemHandle>>)
    decreases tokens.len(),
{
    if tokens.len() == 0 {
        (tracker, cache)
    } else {
        let prev = after_acks(tracker, cache, tokens.drop_last());
        let t = tokens.last().id;
        if prev.0.contains_key(t) {
            (prev.0.remove(t), after_push(prev.1, cache_entry(prev.0[t])))
        } else {
            prev
        }
    }
}

/// Active outputs after closing `ids` in order, and the position of the
/// first identifier that was not active, if any; closing stops there.
pub open spec fn after_close(outputs: Set<Seq<char>>, ids: Seq<Seq<char>>) -> (Set<Seq<char>>, Option<
    int,
>)
    decreases ids.len(),
{
    if ids.len() == 0 {
        (outputs, None)
    } else {
        let prev = after_close(outputs, ids.drop_last());
        if prev.1 is Some {
            prev
        } else if prev.0.contains(ids.last()) {
            (prev.0.remove(ids.last()), None)
        } else {
            (prev.0, Some(ids.len() - 1))
        }
    }
}

/// Taking back returned regions only removes entries from the tracker.
proof fn lemma_acks_only_remove(
    tracker: Map<u64, ShmemHandle>,
    cache: Seq<CachedRegion<ShmemHandle>>,
    tokens: Seq<DropToken>,
)
    ensures
        after_acks(tracker, cache, tokens).0.dom().subset_of(tracker.dom()),
    decreases tokens.len(),
{
    if tokens.len() > 0 {
        lemma_acks_only_remove(tracker, cache, tokens.drop_last());
    }
}

/// Once closing fails at some point of `ids`, later identifiers change nothing.
proof fn lemma_close_failure_stays(outputs: Set<Seq<char>>, ids: Seq<Seq<char>>, j: int)
    requires
        0 <= j <= ids.len(),
        after_close(outputs, ids.subrange(0, j)).1 is Some,
    ensures
        after_close(outputs, ids) == after_close(outputs, ids.subrange(0, j)),
    decreases ids.len() - j,
{
    if j < ids.len() {
        assert(ids.subrange(0, j + 1).drop_last() =~= ids.subrange(0, j));
        lemma_close_failure_stays(outputs, ids, j + 1);
    } else {
        assert(ids.subrange(0, j) =~= ids);
    }
}

/// A region recorded under a drop token stays in the tracker as its only
/// entry for that token until the token returns; then the entry is gone and
/// the region is at the back of the cache. The same token returning again
/// changes nothing.
pub proof fn lemma_ack_releases_region(
    tracker: Map<u64, ShmemHandle>,
    cache: Seq<CachedRegion<ShmemHandle>>,
    token: DropToken,
    region: ShmemHandle,
)
    ensures
        tracker.insert(token.id, region).contains_key(token.id),
        tracker.insert(token.id, region)[token.id] == region,
        after_acks(tracker.insert(token.id, region), cache, seq![token]) == (
            tracker.remove(token.id),
            after_push(cache, cache_entry(region)),
        ),
        !after_acks(tracker.insert(token.id, region), cache, seq![token]).0.contains_key(token.id),
        after_acks(tracker.insert(token.id, region), cache, seq![token, token]) == after_acks(
            tracker.insert(token.id, region),
            cache,
            seq![token],
        ),
{
    let t1 = tracker.insert(token.id, region);
    assert(seq![token].drop_last() =~= Seq::<DropToken>::empty());
    assert(seq![token, token].drop_last() =~= seq![token]);
    assert(t1.remove(token.id) =~= tracker.remove(token.id));
    assert(after_acks(t1, cache, Seq::<DropToken>::empty()) == (t1, cache));
    assert(seq![token].last() == token);
    assert(after_acks(t1, cache, seq![token]) == (t1.remove(token.id), after_push(cache, cache_entry(region))));
    assert(seq![token, token].last() == token);
}

/// An unknown output is warned about at most once: after one message to it,
/// no later message warns again, whatever the active outputs are then, as
/// long as the warned set has only grown.
pub proof fn lemma_unknown_output_warned_once(
    outputs: Set<Seq<char>>,
    warned: Set<Seq<char>>,
    later_outputs: Set<Seq<char>>,
    later_warned: Set<Seq<char>>,
    id: Seq<char>,
)
    requires
        !outputs.contains(id),
        warned_after(outputs, warned, id).subset_of(later_warned),
    ensures
        output_check(later_outputs, later_warned, id) != OutputCheck::IgnoredWarn,
{
    assert(warned_after(outputs, warned, id).contains(id));
}

/// Closing outputs keeps every identifier it closed out of the active set.
proof fn lemma_closed_not_active(outputs: Set<Seq<char>>, ids: Seq<Seq<char>>, id: Seq<char>)
    requires
        after_close(outputs, ids).1 is None,
        ids.contains(id),
    ensures
        !after_close(outputs, ids).0.contains(id),
    decreases ids.len(),
{
    let prev = after_close(outputs, ids.drop_last());
    if prev.1 is Some {
    } else if ids.last() == id {
    } else {
        let k = choose|k: int| 0 <= k < ids.len() && ids[k] == id;
        assert(ids.drop_last()[k] == id);
        lemma_closed_not_active(outputs, ids.drop_last(), id);
    }
}

/// After outputs were closed successfully, a message to one of them is not
/// sent but ignored (with at most one warning), and is no error.
pub proof fn lemma_closed_output_ignored(
    outputs: Set<Seq<char>>,
    ids: Seq<Seq<char>>,
    warned: Set<Seq<char>>,
    id: Seq<char>,
)
    requires
        after_close(outputs, ids).1 is None,
        ids.contains(id),
    ensures
        output_check(after_close(outputs, ids).0, warned, id) != OutputCheck::Active,
{
    lemma_closed_not_active(outputs, ids, id);
}

/// An event of the shutdown drain: a returned token, or the end of a timed
/// wait without one.
pub enum DrainEvent {
    Token(DropToken),
    Timeout,
    Disconnected,
}

/// One step of the shutdown drain: the regions still outstanding and what
/// the drain does next, after a timed wait that ended with `event`.
pub open spec fn drain_outcome(in_flight: Map<u64, ShmemHandle>, event: DrainEvent) -> (Map<
    u64,
    ShmemHandle,
>, DrainStep) {
    match event {
        DrainEvent::Token(t) => {
            let rest = in_flight.remove(t.id);
            (rest, if rest.len() == 0 {
                DrainStep::Done
            } else {
                DrainStep::Continue
            })
        },
        _ => (in_flight, DrainStep::GaveUp { outstanding: in_flight.len() as usize }),
    }
}

/// Number of timed waits the shutdown drain makes, stepping as `drain_step`
/// does, when the waits end with `events` in order, starting with the
/// regions `in_flight` outstanding.
pub open spec fn drain_waits(in_flight: Map<u64, ShmemHandle>, events: Seq<DrainEvent>) -> nat
    decreases events.len(),
{
    if in_flight.len() == 0 || events.len() == 0 {
        0
    } else {
        let next = drain_outcome(in_flight, events[0]);
        1 + if next.1 is Continue {
            drain_waits(next.0, events.skip(1))
        } else {
            0
        }
    }
}

/// The shutdown drain never waits past the first wait that times out or
/// finds the stream closed, however many regions are outstanding.
pub proof fn lemma_drain_stops_at_first_timeout(
    in_flight: Map<u64, ShmemHandle>,
    events: Seq<DrainEvent>,
    k: int,
)
    requires
        0 <= k < events.len(),
        !(events[k] is Token),
    ensures
        drain_waits(in_flight, events) <= k + 1,
    decreases k,
{
    if in_flight.len() != 0 && k > 0 {
        let next = drain_outcome(in_flight, events[0]);
        if next.1 is Continue {
            assert(events.skip(1)[k - 1] == events[k]);
            lemma_drain_stops_at_first_timeout(next.0, events.skip(1), k - 1);
        }
    }
}

/// What the shutdown drain does next.
#[derive(PartialEq, Eq, Structural, Clone, Copy, Debug)]
pub enum DrainStep {
    /// Regions are still outstanding: wait again.
    Continue,
    /// Every region came back.
    Done,
    /// The wait timed out or the stream closed; `outstanding` regions are
    /// released without their token.
    GaveUp { outstanding: usize },
}

/// Allows sending outputs and retrieving node information.
pub struct DoraNode {
    id: String,
    dataflow_id: String,
    node_config: NodeRunConfig,
    sent_out_shared_memory: DropTokenTracker<ShmemHandle>,
    cache: ShmCache<ShmemHandle>,
    dataflow_descriptor: Result<serde_yaml::Value, String>,
    warned_unknown_output: IdSet,
}

impl DoraNode {
    pub closed spec fn outputs(&self) -> Set<Seq<char>> {
        self.node_config.outputs@
    }

    pub closed spec fn warned(&self) -> Set<Seq<char>> {
        self.warned_unknown_output@
    }

    pub closed spec fn in_flight(&self) -> Map<u64, ShmemHandle> {
        self.sent_out_shared_memory@
    }

    pub closed spec fn cached(&self) -> Seq<CachedRegion<ShmemHandle>> {
        self.cache@
    }

    pub closed spec fn spec_id(&self) -> Seq<char> {
        self.id@
    }

    pub closed spec fn spec_dataflow_id(&self) -> Seq<char> {
        self.dataflow_id@
    }

    pub closed spec fn inputs(&self) -> Set<Seq<char>> {
        self.node_config.inputs@
    }

    /// The stored dataflow descriptor, or why it could not be parsed.
    pub closed spec fn descriptor(&self) -> Result<serde_yaml::Value, Seq<char>> {
        match self.dataflow_descriptor {
            Ok(d) => Ok(d),
            Err(m) => Err(m@),
        }
    }

    /// Identity, inputs and descriptor are the same as those of `other`.
    pub open spec fn same_identity(&self, other: Self) -> bool {
        &&& self.spec_id() == other.spec_id()
        &&& self.spec_dataflow_id() == other.spec_dataflow_id()
        &&& self.inputs() == other.inputs()
        &&& self.descriptor() == other.descriptor()
    }

    pub closed spec fn wf(&self) -> bool {
        &&& self.node_config.wf()
        &&& self.warned_unknown_output.wf()
        &&& self.cache.wf()
        &&& forall|i: int| 0 <= i < self.cache@.len() ==> #[trigger] self.cache@[i] == cache_entry(self.cache@[i].region)
    }

    /// A node with the given identity and configuration, no region in use and
    /// none cached.
    pub fn new(
        id: String,
        dataflow_id: String,
        node_config: NodeRunConfig,
        dataflow_descriptor: Result<serde_yaml::Value, String>,
    ) -> (r: Self)
        requires
            node_config.wf(),
        ensures
            r.wf(),
            r.spec_id() == id@,
            r.spec_dataflow_id() == dataflow_id@,
            r.inputs() == node_config.inputs@,
            r.outputs() == node_config.outputs@,
            r.warned() == Set::<Seq<char>>::empty(),
            r.in_flight() == Map::<u64, ShmemHandle>::empty(),
            r.cached() == Seq::<CachedRegion<ShmemHandle>>::empty(),
            r.descriptor() == (match dataflow_descriptor {
                Ok(d) => Ok(d),
                Err(m) => Err(m@),
            }),
    {
        DoraNode {
            id,
            dataflow_id,
            node_config,
            sent_out_shared_memory: DropTokenTracker::new(),
            cache: ShmCache::new(),
            dataflow_descriptor,
            warned_unknown_output: IdSet::new(),
        }
    }

    /// Returns the ID of the node as specified in the dataflow configuration file.
    pub fn id(&self) -> (r: &String)
        ensures
            r@ == self.spec_id(),
    {
        &self.id
    }

    /// Returns the unique identifier for the running dataflow instance.
    pub fn dataflow_id(&self) -> (r: &String)
        ensures
            r@ == self.spec_dataflow_id(),
    {
        &self.dataflow_id
    }

    /// Returns the input and output configuration of this node.
    pub fn node_config(&self) -> (r: &NodeRunConfig)
        ensures
            r.outputs@ == self.outputs(),
            r.inputs@ == self.inputs(),
    {
        &self.node_config
    }

    /// Number of regions handed out whose drop token has not come back.
    pub fn outstanding_regions(&self) -> (r: usize)
        ensures
            r == self.in_flight().len(),
    {
        self.sent_out_shared_memory.len()
    }

    /// Whether a region sent under `token` still waits for it.
    pub fn is_outstanding(&self, token: DropToken) -> (r: bool)
        ensures
            r == self.in_flight().contains_key(token.id),
    {
        self.sent_out_shared_memory.contains(token)
    }

    /// Number of free regions kept for reuse.
    pub fn cached_regions(&self) -> (r: usize)
        ensures
            r == self.cached().len(),
    {
        self.cache.len()
    }

    /// Returns the parsed dataflow descriptor of this node's dataflow.
    pub fn dataflow_descriptor(&self) -> (r: Result<&serde_yaml::Value, NodeError>)
        ensures
            r matches Ok(d) ==> self.descriptor() == Ok::<serde_yaml::Value, Seq<char>>(*d),
            r matches Err(e) ==> (e matches NodeError::DescriptorUnavailable(m) && self.descriptor()
                == Err::<serde_yaml::Value, Seq<char>>(m@)),
    {
        match &self.dataflow_descriptor {
            Ok(d) => Ok(d),
            Err(msg) => Err(NodeError::DescriptorUnavailable(msg.clone())),
        }
    }

    /// Decides whether a message to `output_id` is sent. An unknown output is
    /// warned about once; later messages to it are dropped quietly.
    pub fn validate_output(&mut self, output_id: &String) -> (r: OutputCheck)
        requires
            old(self).wf(),
        ensures
            final(self).wf(),
            r == output_check(old(self).outputs(), old(self).warned(), output_id@),
            final(self).warned() == warned_after(old(self).outputs(), old(self).warned(), output_id@),
            final(self).outputs() == old(self).outputs(),
            final(self).in_flight() == old(self).in_flight(),
            final(self).cached() == old(self).cached(),
            final(self).same_identity(*old(self)),
    {
        if !self.node_config.outputs.contains(output_id) {
            if !self.warned_unknown_output.contains(output_id) {
                let _fresh = self.warned_unknown_output.insert(output_id.clone());
                OutputCheck::IgnoredWarn
            } else {
                assert(self.warned_unknown_output@.insert(output_id@) =~= self.warned_unknown_output@);
                OutputCheck::IgnoredQuiet
            }
        } else {
            OutputCheck::Active
        }
    }

    /// A region of at least `data_len` bytes: the best-fitting cached one, or
    /// a new one of exactly `data_len` bytes.
    pub fn allocate_shared_memory(&mut self, data_len: usize) -> (r: Result<ShmemHandle, NodeError>)
        requires
            old(self).wf(),
        ensures
            final(self).wf(),
            final(self).outputs() == old(self).outputs(),
            final(self).warned() == old(self).warned(),
            final(self).in_flight() == old(self).in_flight(),
            final(self).same_identity(*old(self)),
            r is Err ==> !has_fit(old(self).cached(), data_len) && final(self).cached() == old(self).cached(),
            r matches Err(e) ==> e is ShmAlloc,
            r matches Ok(h) ==> h.capacity() >= data_len,
            r matches Ok(h) ==> if has_fit(old(self).cached(), data_len) {
                exists|i: int|
                    is_best_fit(old(self).cached(), data_len, i) && h == old(self).cached()[i].region
                        && final(self).cached() == old(self).cached().remove(i)
            } else {
                h.capacity() == data_len && final(self).cached() == old(self).cached()
            },
    {
        let ghost before = self.cache@;
        match self.cache.take(data_len) {
            Some(entry) => {
                proof {
                    let i = choose|i: int|
                        is_best_fit(before, data_len, i) && entry == before[i] && self.cache@ == before.remove(i);
                    assert(before[i] == cache_entry(before[i].region));
                    assert forall|j: int| 0 <= j < self.cache@.len() implies #[trigger] self.cache@[j]
                        == cache_entry(self.cache@[j].region) by {
                        if j < i {
                            assert(self.cache@[j] == before[j]);
                        } else {
                            assert(self.cache@[j] == before[j + 1]);
                        }
                    }
                }
                Ok(entry.region)
            },
            None => match create_region(data_len) {
                Ok(h) => Ok(h),
                Err(_) => Err(NodeError::ShmAlloc),
            },
        }
    }

    /// Allocates a sample of `data_len` bytes: in shared memory from
    /// `ZERO_COPY_THRESHOLD` bytes on, else zeroed on the heap.
    pub fn allocate_data_sample(&mut self, data_len: usize) -> (r: Result<DataSample, NodeError>)
        requires
            old(self).wf(),
        ensures
            final(self).wf(),
            final(self).outputs() == old(self).outputs(),
            final(self).warned() == old(self).warned(),
            final(self).in_flight() == old(self).in_flight(),
            final(self).same_identity(*old(self)),
            r is Err ==> data_len >= ZERO_COPY_THRESHOLD && !has_fit(old(self).cached(), data_len)
                && final(self).cached() == old(self).cached(),
            r matches Err(e) ==> e is ShmAlloc,
            data_len < ZERO_COPY_THRESHOLD ==> r is Ok && final(self).cached() == old(self).cached(),
            r matches Ok(s) ==> s.spec_is_shared() ==> if has_fit(old(self).cached(), data_len) {
                exists|i: int|
                    is_best_fit(old(self).cached(), data_len, i) && s.shared_region()
                        == old(self).cached()[i].region && final(self).cached() == old(
                        self,
                    ).cached().remove(i)
            } else {
                s.shared_capacity() == data_len && final(self).cached() == old(self).cached()
            },
            r matches Ok(s) ==> {
                &&& s.wf()
                &&& s.spec_len() == data_len
                &&& s.spec_is_shared() == (data_len >= ZERO_COPY_THRESHOLD)
                &&& !s.spec_is_shared() ==> s.inline_bytes() == Seq::new(data_len as nat, |i: int| 0u8)
                &&& s.spec_is_shared() ==> s.shared_capacity() >= data_len
            },
    {
        if data_len >= ZERO_COPY_THRESHOLD {
            let shared_memory = self.allocate_shared_memory(data_len)?;
            Ok(DataSample::from_shared(shared_memory, data_len))
        } else {
            let buf = zeroed_buffer(data_len);
            Ok(DataSample::from_buffer(buf, data_len))
        }
    }

    /// Keeps a free region for reuse.
    fn add_to_cache(&mut self, memory: ShmemHandle)
        requires
            old(self).wf(),
        ensures
            final(self).wf(),
            final(self).cached() == after_push(old(self).cached(), cache_entry(memory)),
            final(self).outputs() == old(self).outputs(),
            final(self).warned() == old(self).warned(),
            final(self).in_flight() == old(self).in_flight(),
            final(self).same_identity(*old(self)),
    {
        let ghost before = self.cache@;
        let capacity = memory.len();
        self.cache.push(capacity, memory);
        proof {
            let e = cache_entry(memory);
            assert forall|j: int| 0 <= j < self.cache@.len() implies #[trigger] self.cache@[j]
                == cache_entry(self.cache@[j].region) by {
                if before.len() + 1 > MAX_CACHE_SIZE {
                    assert(self.cache@[j] == before.push(e)[j + 1]);
                } else {
                    assert(self.cache@[j] == before.push(e)[j]);
                }
            }
        }
    }

    /// Takes back the regions whose drop tokens returned, in order: each
    /// known token moves its region to the cache; an unknown one is skipped.
    /// `disconnected` tells that the token stream closed after these tokens.
    pub fn handle_finished_drop_tokens(&mut self, tokens: &Vec<DropToken>, disconnected: bool) -> (r: Result<(), NodeError>)
        requires
            old(self).wf(),
        ensures
            final(self).wf(),
            (final(self).in_flight(), final(self).cached()) == after_acks(
                old(self).in_flight(),
                old(self).cached(),
                tokens@,
            ),
            r is Err <==> disconnected,
            r matches Err(e) ==> e is ChannelClosed,
            final(self).outputs() == old(self).outputs(),
            final(self).warned() == old(self).warned(),
            final(self).same_identity(*old(self)),
    {
        let ghost tracker0 = self.sent_out_shared_memory@;
        let ghost cache0 = self.cache@;
        let mut i: usize = 0;
        while i < tokens.len()
            invariant
                self.wf(),
                i <= tokens@.len(),
                (self.in_flight(), self.cached()) == after_acks(tracker0, cache0, tokens@.subrange(0, i as int)),
                self.outputs() == old(self).outputs(),
                self.warned() == old(self).warned(),
                self.same_identity(*old(self)),
            decreases tokens@.len() - i,
        {
            let token = tokens[i];
            proof {
                assert(tokens@.subrange(0, i + 1).drop_last() =~= tokens@.subrange(0, i as int));
            }
            match self.sent_out_shared_memory.remove(token) {
                Some(region) => self.add_to_cache(region),
                None => {},
            }
            i = i + 1;
        }
        assert(tokens@.subrange(0, tokens@.len() as int) =~= tokens@);
        if disconnected {
            Err(NodeError::ChannelClosed)
        } else {
            Ok(())
        }
    }

    /// First half of sending `sample` on `output_id`. A message to an output
    /// that is not active is ignored (`Ok(None)`, see `validate_output`).
    /// Otherwise the returned regions are taken back (see
    /// `handle_finished_drop_tokens`) and the sample becomes a message; a
    /// shared sample is bound to `drop_token`, and its region is to be passed
    /// to `record_sent` once the control channel took the message.
    pub fn send_output_sample(
        &mut self,
        output_id: String,
        sample: Option<DataSample>,
        drop_token: DropToken,
        finished: &Vec<DropToken>,
        disconnected: bool,
    ) -> (r: Result<Option<OutgoingOutput>, NodeError>)
        requires
            old(self).wf(),
            sample matches Some(s) ==> s.wf(),
            !old(self).in_flight().contains_key(drop_token.id),
        ensures
            final(self).wf(),
            final(self).same_identity(*old(self)),
            final(self).outputs() == old(self).outputs(),
            final(self).warned() == warned_after(old(self).outputs(), old(self).warned(), output_id@),
            !old(self).outputs().contains(output_id@) ==> {
                &&& r matches Ok(None)
                &&& final(self).in_flight() == old(self).in_flight()
                &&& final(self).cached() == old(self).cached()
            },
            old(self).outputs().contains(output_id@) ==> {
                &&& (final(self).in_flight(), final(self).cached()) == after_acks(
                    old(self).in_flight(),
                    old(self).cached(),
                    finished@,
                )
                &&& r is Err <==> disconnected
                &&& r is Ok ==> r matches Ok(Some(_))
            },
            r matches Err(e) ==> e is ChannelClosed,
            !final(self).in_flight().contains_key(drop_token.id),
            r matches Ok(Some(o)) ==> o.output_id@ == output_id@,
            r matches Ok(Some(o)) ==> match sample {
                None => o.data is None && o.retained is None,
                Some(s) => if s.spec_is_shared() {
                    &&& o.retained matches Some(k) && k.spec_token() == drop_token
                        && k.spec_region() == s.shared_region()
                    &&& o.data matches Some(DataMessage::SharedMemory { shared_memory_id, len, drop_token: t })
                        && shared_memory_id@ == s.shared_region().spec_os_id()
                        && len == s.spec_len() && t == drop_token
                } else {
                    &&& o.retained is None
                    &&& o.data matches Some(DataMessage::Vec(b)) && crate::shm::aligned_bytes(b) == s.inline_bytes()
                        && crate::shm::aligned_bytes(b).len() == s.spec_len()
                },
            },
    {
        match self.validate_output(&output_id) {
            OutputCheck::Active => {},
            _ => return Ok(None),
        }
        let ghost tracker0 = self.in_flight();
        let ghost cache0 = self.cached();
        let drained = self.handle_finished_drop_tokens(finished, disconnected);
        proof {
            lemma_acks_only_remove(tracker0, cache0, finished@);
        }
        drained?;
        match sample {
            None => Ok(Some(OutgoingOutput { output_id, data: None, retained: None })),
            Some(sample) => {
                let (data, shmem) = sample.finalize(drop_token);
                let retained = match shmem {
                    Some((region, token)) => Some(RetainedRegion { region, token }),
                    None => None,
                };
                Ok(Some(OutgoingOutput { output_id, data: Some(data), retained }))
            },
        }
    }

    /// Second half of a send, once the control channel accepted the message:
    /// the region stays alive until its drop token returns. A message that
    /// was not accepted is not recorded, and its region is released.
    pub fn record_sent(&mut self, retained: Option<RetainedRegion>)
        requires
            old(self).wf(),
            retained matches Some(k) ==> !old(self).in_flight().contains_key(k.spec_token().id),
        ensures
            final(self).wf(),
            retained is None ==> final(self).in_flight() == old(self).in_flight(),
            retained matches Some(k) ==> final(self).in_flight() == old(self).in_flight().insert(
                k.spec_token().id,
                k.spec_region(),
            ),
            final(self).cached() == old(self).cached(),
            final(self).outputs() == old(self).outputs(),
            final(self).warned() == old(self).warned(),
            final(self).same_identity(*old(self)),
    {
        if let Some(k) = retained {
            self.sent_out_shared_memory.insert(k.token, k.region);
        }
    }

    /// Closes the outputs `outputs_ids`, in order. Fails on the first one
    /// that is not active (any before it stay closed); the identifiers are
    /// then to be reported to the daemon.
    pub fn close_outputs(&mut self, outputs_ids: &Vec<String>) -> (r: Result<(), NodeError>)
        requires
            old(self).wf(),
        ensures
            final(self).wf(),
            final(self).outputs() == after_close(old(self).outputs(), crate::ids::id_views(outputs_ids@)).0,
            r is Ok <==> after_close(old(self).outputs(), crate::ids::id_views(outputs_ids@)).1 is None,
            r matches Err(e) ==> (e matches NodeError::UnknownOutput(id) && after_close(
                old(self).outputs(),
                crate::ids::id_views(outputs_ids@),
            ).1 matches Some(k) && id@ == outputs_ids@[k]@),
            final(self).warned() == old(self).warned(),
            final(self).in_flight() == old(self).in_flight(),
            final(self).cached() == old(self).cached(),
            final(self).same_identity(*old(self)),
    {
        let ghost outputs0 = self.outputs();
        let ghost all = crate::ids::id_views(outputs_ids@);
        let mut i: usize = 0;
        while i < outputs_ids.len()
            invariant
                self.wf(),
                i <= outputs_ids@.len(),
                all == crate::ids::id_views(outputs_ids@),
                outputs0 == old(self).outputs(),
                after_close(outputs0, all.subrange(0, i as int)) == (self.outputs(), Option::<int>::None),
                self.warned() == old(self).warned(),
                self.in_flight() == old(self).in_flight(),
                self.cached() == old(self).cached(),
                self.same_identity(*old(self)),
            decreases outputs_ids@.len() - i,
        {
            let ghost prefix = all.subrange(0, i + 1);
            let ghost before = self.outputs();
            proof {
                assert(prefix.drop_last() =~= all.subrange(0, i as int));
                assert(prefix.last() == outputs_ids@[i as int]@);
            }
            if !self.node_config.outputs.remove(&outputs_ids[i]) {
                proof {
                    assert(self.outputs() =~= before);
                    assert(after_close(outputs0, prefix) == (before, Some(i as int)));
                    lemma_close_failure_stays(outputs0, all, i as int + 1);
                    assert(after_close(outputs0, all) == (before, Some(i as int)));
                    assert(self.outputs() == before);
                    assert(outputs_ids@[i as int]@ == all[i as int]);
                }
                return Err(NodeError::UnknownOutput(outputs_ids[i].clone()));
            }
            i = i + 1;
        }
        assert(all.subrange(0, all.len() as int) =~= all);
        Ok(())
    }

    /// Starts the shutdown: every active output is closed, and the
    /// identifiers are handed out to be reported to the daemon.
    pub fn take_outputs(&mut self) -> (r: Vec<String>)
        requires
            old(self).wf(),
        ensures
            final(self).wf(),
            crate::ids::id_views(r@).to_set() == old(self).outputs(),
            final(self).outputs() == Set::<Seq<char>>::empty(),
            final(self).warned() == old(self).warned(),
            final(self).in_flight() == old(self).in_flight(),
            final(self).cached() == old(self).cached(),
            final(self).same_identity(*old(self)),
    {
        self.node_config.outputs.take_all()
    }

    /// One step of the shutdown drain, after a timed wait on the token
    /// stream. A returned token releases its region (which is not cached any
    /// more); a wait that ends without a token gives up on the rest.
    pub fn drain_step(&mut self, event: DrainEvent) -> (r: DrainStep)
        requires
            old(self).wf(),
        ensures
            final(self).wf(),
            final(self).cached() == old(self).cached(),
            final(self).outputs() == old(self).outputs(),
            final(self).warned() == old(self).warned(),
            final(self).same_identity(*old(self)),
            (final(self).in_flight(), r) == drain_outcome(old(self).in_flight(), event),
    {
        match event {
            DrainEvent::Token(t) => {
                let _released = self.sent_out_shared_memory.remove(t);
                if self.sent_out_shared_memory.is_empty() {
                    DrainStep::Done
                } else {
                    DrainStep::Continue
                }
            },
            _ => DrainStep::GaveUp { outstanding: self.sent_out_shared_memory.len() },
        }
    }
}

} // verus!
