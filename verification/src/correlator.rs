//! The request correlator: a one-shot completion primitive that pairs an
//! outgoing opaque request string with exactly one eventual result.
//!
//! A slot is created `Pending` when a request is dispatched to the external
//! sender. Exactly one resolution — a response body, a send failure, a
//! timeout, or abandonment — moves it to a terminal state; every later
//! resolution attempt is a no-op, and distinct slots never affect each
//! other.

use vstd::prelude::*;

use crate::errors::QueryError;

verus! {

/// The lifecycle state of one request:
/// `Pending` is the only initial state, the other four are terminal.
pub enum RequestState {
    /// Dispatched, no resolution yet.
    Pending,
    /// The sender delivered a response body.
    Delivered { body: String },
    /// The sender reported a send-level failure.
    Failed,
    /// The sender reported a timeout.
    TimedOut,
    /// Interest was abandoned before any resolution.
    Abandoned,
}

/// Model of `RequestState`.
pub ghost enum RequestModel {
    Pending,
    Delivered { body: Seq<char> },
    Failed,
    TimedOut,
    Abandoned,
}

impl View for RequestState {
    type V = RequestModel;

    open spec fn view(&self) -> RequestModel {
        match self {
            RequestState::Pending => RequestModel::Pending,
            RequestState::Delivered { body } => RequestModel::Delivered { body: body@ },
            RequestState::Failed => RequestModel::Failed,
            RequestState::TimedOut => RequestModel::TimedOut,
            RequestState::Abandoned => RequestModel::Abandoned,
        }
    }
}

/// One live request: the opaque string that went out, and where its
/// resolution stands.
pub struct RequestSlot {
    pub data: String,
    pub state: RequestState,
}

/// Model of `RequestSlot`.
pub ghost struct SlotModel {
    pub data: Seq<char>,
    pub state: RequestModel,
}

impl View for RequestSlot {
    type V = SlotModel;

    open spec fn view(&self) -> SlotModel {
        SlotModel { data: self.data@, state: self.state@ }
    }
}

/// The model of a correlator table.
pub open spec fn slot_models(slots: Seq<RequestSlot>) -> Seq<SlotModel> {
    Seq::new(slots.len(), |i: int| slots[i]@)
}

// ---------------------------------------------------------------------------
// Transition functions
// ---------------------------------------------------------------------------

/// Registering a request appends one pending slot.
pub open spec fn register_spec(s: Seq<SlotModel>, data: Seq<char>) -> Seq<SlotModel> {
    s.push(SlotModel { data: data, state: RequestModel::Pending })
}

/// Resolving a slot: only a pending slot moves, and only to the offered
/// terminal state; anything else — a second resolution, an unknown id — is
/// a no-op. The outgoing request body is dropped the instant the
/// resolution arrives: a terminal slot keeps only its outcome.
pub open spec fn resolve_spec(s: Seq<SlotModel>, id: int, outcome: RequestModel) -> Seq<
    SlotModel,
> {
    if 0 <= id < s.len() && s[id].state is Pending {
        s.update(id, SlotModel { data: Seq::empty(), state: outcome })
    } else {
        s
    }
}

/// What the awaiting caller sees of a slot's state.
pub open spec fn outcome_of(m: RequestModel) -> Option<Result<Seq<char>, QueryError>> {
    match m {
        RequestModel::Pending => None,
        RequestModel::Delivered { body } => Some(Ok(body)),
        RequestModel::Failed => Some(Err(QueryError::RequestFailed)),
        RequestModel::TimedOut => Some(Err(QueryError::TimeoutReached)),
        RequestModel::Abandoned => Some(Err(QueryError::RequestDropped)),
    }
}

/// What a caller polling slot `id` sees.
pub open spec fn response_spec(s: Seq<SlotModel>, id: int) -> Option<
    Result<Seq<char>, QueryError>,
> {
    if 0 <= id < s.len() {
        outcome_of(s[id].state)
    } else {
        None
    }
}

// ---------------------------------------------------------------------------
// The correlator table
// ---------------------------------------------------------------------------

/// The table of live requests a transport bridge owns. Slot ids are handed
/// out in registration order and never reused. A resolution drops the
/// request body at once; the terminal outcome itself — including a
/// delivered response — stays under its id so the awaiting side can read
/// it through `response`, which is a read-only poll. Keeping terminal
/// outcomes addressable is a deliberate simplification of the one-shot
/// lifecycle: nothing pending is ever retained past its resolution.
pub struct Correlator {
    slots: Vec<RequestSlot>,
}

impl View for Correlator {
    type V = Seq<SlotModel>;

    closed spec fn view(&self) -> Seq<SlotModel> {
        slot_models(self.slots@)
    }
}

impl Correlator {
    /// An empty table.
    pub fn new() -> (c: Correlator)
        ensures
            c@ == Seq::<SlotModel>::empty(),
    {
        let c = Correlator { slots: Vec::new() };
        proof {
            assert(c@ =~= Seq::<SlotModel>::empty());
        }
        c
    }

    /// Registers an outgoing request and returns its slot id.
    pub fn register(&mut self, data: &str) -> (id: usize)
        ensures
            final(self)@ == register_spec(old(self)@, data@),
            id as int == old(self)@.len(),
    {
        let id = self.slots.len();
        self.slots.push(RequestSlot { data: data.to_owned(), state: RequestState::Pending });
        proof {
            assert(slot_models(self.slots@) =~= register_spec(
                slot_models(old(self).slots@),
                data@,
            ));
        }
        id
    }

    /// Moves a pending slot to a terminal state; a no-op on anything else.
    fn resolve(&mut self, id: usize, outcome: RequestState)
        ensures
            final(self)@ == resolve_spec(old(self)@, id as int, outcome@),
    {
        let ghost s0 = slot_models(old(self).slots@);
        if id >= self.slots.len() {
            return ;
        }
        let pending = match &self.slots[id].state {
            RequestState::Pending => true,
            _ => false,
        };
        proof {
            assert(s0[id as int] == self.slots@[id as int]@);
        }
        if !pending {
            return ;
        }
        let _old_slot = self.slots.remove(id);
        self.slots.insert(id, RequestSlot { data: String::new(), state: outcome });
        proof {
            let target = s0.update(
                id as int,
                SlotModel { data: Seq::empty(), state: outcome@ },
            );
            assert forall|j: int| 0 <= j < target.len() implies slot_models(self.slots@)[j]
                == target[j] by {
                if j < id {
                    assert(old(self).slots@.remove(id as int)[j] == old(self).slots@[j]);
                } else if j > id {
                    assert(old(self).slots@.remove(id as int)[j - 1] == old(self).slots@[j]);
                }
            }
            assert(slot_models(self.slots@) =~= target);
        }
    }

    /// The sender delivered a response body.
    pub fn resolve_delivered(&mut self, id: usize, body: String)
        ensures
            final(self)@ == resolve_spec(
                old(self)@,
                id as int,
                RequestModel::Delivered { body: body@ },
            ),
    {
        self.resolve(id, RequestState::Delivered { body })
    }

    /// The sender reported a send-level failure.
    pub fn resolve_failed(&mut self, id: usize)
        ensures
            final(self)@ == resolve_spec(old(self)@, id as int, RequestModel::Failed),
    {
        self.resolve(id, RequestState::Failed)
    }

    /// The sender reported a timeout.
    pub fn resolve_timed_out(&mut self, id: usize)
        ensures
            final(self)@ == resolve_spec(old(self)@, id as int, RequestModel::TimedOut),
    {
        self.resolve(id, RequestState::TimedOut)
    }

    /// The awaiting side abandoned the request before any resolution.
    pub fn abandon(&mut self, id: usize)
        ensures
            final(self)@ == resolve_spec(old(self)@, id as int, RequestModel::Abandoned),
    {
        self.resolve(id, RequestState::Abandoned)
    }

    /// What slot `id` resolved to: `None` while it is still pending or
    /// unknown, otherwise the response body or the error the resolution
    /// carries.
    pub fn response(&self, id: usize) -> (r: Option<Result<String, QueryError>>)
        ensures
            match r {
                None => response_spec(self@, id as int) is None,
                Some(out) => match out {
                    Ok(body) => response_spec(self@, id as int) == Some(
                        Ok::<Seq<char>, QueryError>(body@),
                    ),
                    Err(e) => response_spec(self@, id as int) == Some(
                        Err::<Seq<char>, QueryError>(e),
                    ),
                },
            },
    {
        if id >= self.slots.len() {
            return None;
        }
        proof {
            assert(self@[id as int] == self.slots@[id as int]@);
        }
        match &self.slots[id].state {
            RequestState::Pending => None,
            RequestState::Delivered { body } => Some(Ok(body.clone())),
            RequestState::Failed => Some(Err(QueryError::RequestFailed)),
            RequestState::TimedOut => Some(Err(QueryError::TimeoutReached)),
            RequestState::Abandoned => Some(Err(QueryError::RequestDropped)),
        }
    }

    /// How many requests were ever registered.
    pub fn len(&self) -> (n: usize)
        ensures
            n as int == self@.len(),
    {
        self.slots.len()
    }
}

// ---------------------------------------------------------------------------
// Laws
// ---------------------------------------------------------------------------

/// Law: resolution is single-use. A pending slot takes the first terminal
/// state offered; after a timeout resolution, the awaiting caller sees
/// `TimeoutReached`, and a later delivery on the same slot changes nothing.
pub proof fn lemma_timeout_then_delivery(s: Seq<SlotModel>, id: int, body: Seq<char>)
    requires
        0 <= id < s.len(),
        s[id].state is Pending,
    ensures
        ({
            let s2 = resolve_spec(s, id, RequestModel::TimedOut);
            &&& response_spec(s2, id) == Some(
                Err::<Seq<char>, QueryError>(QueryError::TimeoutReached),
            )
            &&& resolve_spec(s2, id, RequestModel::Delivered { body }) == s2
        }),
{
}

/// Law: no pending slot resolves more than once, whatever the two offered
/// outcomes are.
pub proof fn lemma_resolution_single_use(
    s: Seq<SlotModel>,
    id: int,
    first: RequestModel,
    second: RequestModel,
)
    requires
        0 <= id < s.len(),
        s[id].state is Pending,
        !(first is Pending),
    ensures
        ({
            let s2 = resolve_spec(s, id, first);
            &&& s2[id].state == first
            &&& resolve_spec(s2, id, second) == s2
        }),
{
}

/// Law: distinct requests resolve independently — resolving one slot leaves
/// every other slot exactly as it was.
pub proof fn lemma_resolutions_independent(
    s: Seq<SlotModel>,
    id: int,
    other: int,
    outcome: RequestModel,
)
    requires
        0 <= other < s.len(),
        other != id,
    ensures
        resolve_spec(s, id, outcome)[other] == s[other],
{
}

} // verus!
