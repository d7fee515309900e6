//! The runtime event log: every recorded event gets the next sequence number, and
//! numbering continues across drains.
use vstd::prelude::*;

use crate::failure::{copy_entries, same_error, RuntimeError, ScalarValue};

verus! {

#[derive(Clone, Copy, Debug, PartialEq, Eq, Structural)]
pub enum RuntimeEventKind {
    Lifecycle,
    Routing,
    Operation,
    Trace,
    Host,
}

#[derive(Clone, Debug, PartialEq, Eq)]
pub struct RuntimeEvent {
    pub sequence: u64,
    pub kind: RuntimeEventKind,
    pub name: String,
    pub agent_id: Option<String>,
    pub attributes: Vec<(String, ScalarValue)>,
    pub error: Option<RuntimeError>,
}

/// An event that is not numbered yet.
#[derive(Clone, Debug, PartialEq, Eq)]
pub struct EventDraft {
    pub kind: RuntimeEventKind,
    pub name: String,
    pub agent_id: Option<String>,
    pub attributes: Vec<(String, ScalarValue)>,
    pub error: Option<RuntimeError>,
}

pub open spec fn same_optional_error(a: Option<RuntimeError>, b: Option<RuntimeError>) -> bool {
    match (a, b) {
        (None, None) => true,
        (Some(x), Some(y)) => same_error(x, y),
        _ => false,
    }
}

/// `event` is `draft` numbered `sequence`.
pub open spec fn numbered(event: RuntimeEvent, draft: EventDraft, sequence: int) -> bool {
    &&& event.sequence == sequence
    &&& event.kind == draft.kind
    &&& event.name == draft.name
    &&& event.agent_id == draft.agent_id
    &&& event.attributes@ == draft.attributes@
    &&& same_optional_error(event.error, draft.error)
}

/// Two events carry the same content.
pub open spec fn same_event(a: RuntimeEvent, b: RuntimeEvent) -> bool {
    &&& a.sequence == b.sequence
    &&& a.kind == b.kind
    &&& a.name == b.name
    &&& a.agent_id == b.agent_id
    &&& a.attributes@ == b.attributes@
    &&& same_optional_error(a.error, b.error)
}

/// The sequence numbers of `events` increase strictly and do not pass `last`.
pub open spec fn numbered_below(events: Seq<RuntimeEvent>, last: u64) -> bool {
    &&& forall|i: int, j: int|
        0 <= i < j < events.len() ==> #[trigger] events[i].sequence < #[trigger] events[j].sequence
    &&& forall|i: int| 0 <= i < events.len() ==> #[trigger] events[i].sequence <= last
}

fn copy_error(e: &Option<RuntimeError>) -> (r: Option<RuntimeError>)
    ensures
        same_optional_error(r, *e),
{
    match e {
        Some(x) => Some(x.copy()),
        None => None,
    }
}

fn copy_agent(a: &Option<String>) -> (r: Option<String>)
    ensures
        r == *a,
{
    match a {
        Some(s) => Some(s.clone()),
        None => None,
    }
}

impl RuntimeEvent {
    pub fn copy(&self) -> (r: Self)
        ensures
            same_event(r, *self),
    {
        RuntimeEvent {
            sequence: self.sequence,
            kind: self.kind,
            name: self.name.clone(),
            agent_id: copy_agent(&self.agent_id),
            attributes: copy_entries(&self.attributes),
            error: copy_error(&self.error),
        }
    }
}

fn event_from_draft(sequence: u64, draft: &EventDraft) -> (r: RuntimeEvent)
    ensures
        numbered(r, *draft, sequence as int),
{
    RuntimeEvent {
        sequence,
        kind: draft.kind,
        name: draft.name.clone(),
        agent_id: copy_agent(&draft.agent_id),
        attributes: copy_entries(&draft.attributes),
        error: copy_error(&draft.error),
    }
}

#[derive(Clone, Debug)]
pub struct EventBook {
    events: Vec<RuntimeEvent>,
    next_sequence: u64,
}

impl Default for EventBook {
    fn default() -> (r: Self)
        ensures
            r.wf(),
            r.pending().len() == 0,
            r.last_sequence() == 0,
    {
        EventBook::new()
    }
}

impl EventBook {
    /// The events recorded since the last drain.
    pub closed spec fn pending(&self) -> Seq<RuntimeEvent> {
        self.events@
    }

    /// The sequence number of the last event ever recorded, 0 before the first.
    pub closed spec fn last_sequence(&self) -> u64 {
        self.next_sequence
    }

    /// Pending events are numbered in increasing order, none beyond the last number.
    pub closed spec fn wf(&self) -> bool {
        numbered_below(self.events@, self.next_sequence)
    }

    pub fn new() -> (r: Self)
        ensures
            r.wf(),
            r.pending().len() == 0,
            r.last_sequence() == 0,
    {
        EventBook { events: Vec::new(), next_sequence: 0 }
    }

    /// The pending events, oldest first.
    pub fn events(&self) -> (r: &[RuntimeEvent])
        ensures
            r@ == self.pending(),
    {
        self.events.as_slice()
    }

    /// Records an event under the next sequence number and returns a copy of it.
    pub fn record(
        &mut self,
        kind: RuntimeEventKind,
        name: String,
        agent_id: Option<String>,
        attributes: Vec<(String, ScalarValue)>,
        error: Option<RuntimeError>,
    ) -> (r: RuntimeEvent)
        requires
            old(self).wf(),
            old(self).last_sequence() < u64::MAX,
        ensures
            final(self).wf(),
            r.sequence == old(self).last_sequence() + 1,
            final(self).last_sequence() == r.sequence,
            final(self).pending().len() == old(self).pending().len() + 1,
            final(self).pending().take(old(self).pending().len() as int) == old(self).pending(),
            same_event(final(self).pending().last(), r),
            r.kind == kind,
            r.name == name,
            r.agent_id == agent_id,
            r.attributes@ == attributes@,
            same_optional_error(r.error, error),
    {
        self.next_sequence = self.next_sequence + 1;
        let event = RuntimeEvent {
            sequence: self.next_sequence,
            kind,
            name,
            agent_id,
            attributes,
            error,
        };
        let ghost before = self.events@;
        self.events.push(event.copy());
        assert(self.events@.take(before.len() as int) =~= before);
        event
    }

    /// The pending events followed by `drafts`, numbered as `append_drafts` would
    /// number them, without recording anything.
    pub fn snapshot_with_drafts(&self, drafts: &[EventDraft]) -> (r: Vec<RuntimeEvent>)
        requires
            self.wf(),
            self.last_sequence() + drafts@.len() <= u64::MAX,
        ensures
            r@.len() == self.pending().len() + drafts@.len(),
            forall|i: int| 0 <= i < self.pending().len() ==> same_event(#[trigger] r@[i], self.pending()[i]),
            forall|k: int|
                0 <= k < drafts@.len() ==> numbered(
                    #[trigger] r@[self.pending().len() + k],
                    drafts@[k],
                    self.last_sequence() + k + 1,
                ),
            numbered_below(r@, (self.last_sequence() + drafts@.len()) as u64),
    {
        let mut out: Vec<RuntimeEvent> = Vec::new();
        let mut i: usize = 0;
        while i < self.events.len()
            invariant
                self.wf(),
                0 <= i <= self.events@.len(),
                out@.len() == i,
                forall|j: int| 0 <= j < i ==> same_event(#[trigger] out@[j], self.events@[j]),
            decreases self.events@.len() - i,
        {
            out.push(self.events[i].copy());
            i = i + 1;
        }
        let mut next = self.next_sequence;
        let mut k: usize = 0;
        while k < drafts.len()
            invariant
                self.wf(),
                self.next_sequence + drafts@.len() <= u64::MAX,
                0 <= k <= drafts@.len(),
                next == self.next_sequence + k,
                out@.len() == self.events@.len() + k,
                forall|j: int| 0 <= j < self.events@.len() ==> same_event(#[trigger] out@[j], self.events@[j]),
                forall|j: int|
                    0 <= j < k ==> numbered(
                        #[trigger] out@[self.events@.len() + j],
                        drafts@[j],
                        self.next_sequence + j + 1,
                    ),
            decreases drafts@.len() - k,
        {
            next = next + 1;
            out.push(event_from_draft(next, &drafts[k]));
            k = k + 1;
        }
        proof {
            let n = self.events@.len() as int;
            assert forall|a: int, b: int| 0 <= a < b < out@.len() implies #[trigger] out@[a].sequence
                < #[trigger] out@[b].sequence by {
                if b < n {
                } else if a < n {
                    assert(out@[b] == out@[n + (b - n)]);
                } else {
                    assert(out@[a] == out@[n + (a - n)]);
                    assert(out@[b] == out@[n + (b - n)]);
                }
            }
            assert forall|a: int| 0 <= a < out@.len() implies #[trigger] out@[a].sequence
                <= self.next_sequence + drafts@.len() by {
                if a >= n {
                    assert(out@[a] == out@[n + (a - n)]);
                }
            }
        }
        out
    }

    /// Numbers and records `drafts` in order.
    pub fn append_drafts(&mut self, drafts: Vec<EventDraft>)
        requires
            old(self).wf(),
            old(self).last_sequence() + drafts@.len() <= u64::MAX,
        ensures
            final(self).wf(),
            final(self).last_sequence() == old(self).last_sequence() + drafts@.len(),
            final(self).pending().len() == old(self).pending().len() + drafts@.len(),
            final(self).pending().take(old(self).pending().len() as int) == old(self).pending(),
            forall|k: int|
                0 <= k < drafts@.len() ==> numbered(
                    #[trigger] final(self).pending()[old(self).pending().len() + k],
                    drafts@[k],
                    old(self).last_sequence() + k + 1,
                ),
    {
        let ghost start = self.events@;
        let ghost first = self.next_sequence;
        let mut k: usize = 0;
        while k < drafts.len()
            invariant
                0 <= k <= drafts@.len(),
                first + drafts@.len() <= u64::MAX,
                self.next_sequence == first + k,
                numbered_below(self.events@, self.next_sequence),
                self.events@.len() == start.len() + k,
                self.events@.take(start.len() as int) == start,
                forall|j: int|
                    0 <= j < k ==> numbered(
                        #[trigger] self.events@[start.len() + j],
                        drafts@[j],
                        first + j + 1,
                    ),
            decreases drafts@.len() - k,
        {
            self.next_sequence = self.next_sequence + 1;
            let event = event_from_draft(self.next_sequence, &drafts[k]);
            let ghost before = self.events@;
            self.events.push(event);
            assert(self.events@.take(start.len() as int) =~= before.take(start.len() as int));
            assert forall|j: int| 0 <= j < k + 1 implies numbered(
                #[trigger] self.events@[start.len() + j],
                drafts@[j],
                first + j + 1,
            ) by {
                if j < k {
                    assert(self.events@[start.len() + j] == before[start.len() + j]);
                }
            }
            k = k + 1;
        }
    }

    /// Hands out the pending events and empties the log; numbering is kept.
    pub fn drain(&mut self) -> (r: Vec<RuntimeEvent>)
        requires
            old(self).wf(),
        ensures
            final(self).wf(),
            r@ == old(self).pending(),
            final(self).pending().len() == 0,
            final(self).last_sequence() == old(self).last_sequence(),
            numbered_below(r@, old(self).last_sequence()),
    {
        let mut drained: Vec<RuntimeEvent> = Vec::new();
        std::mem::swap(&mut drained, &mut self.events);
        drained
    }
}

/// After a drain, the next recorded event is numbered above every drained event.
pub proof fn lemma_numbering_continues_after_drain(drained: Seq<RuntimeEvent>, last: u64, next: RuntimeEvent)
    requires
        numbered_below(drained, last),
        next.sequence == last + 1,
    ensures
        forall|i: int| 0 <= i < drained.len() ==> #[trigger] drained[i].sequence < next.sequence,
{
}

} // verus!
