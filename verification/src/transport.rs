//! The transport bridges: one per wire protocol, each owning its own
//! correlator table and offering the same `post` contract.
//!
//! A bridge registers an outgoing opaque request and hands back a resolution
//! handle; the caller passes the request body and the handle to the external
//! sender, which fires exactly one of the handle's three entry points. The
//! awaiting side polls `response` for the slot's terminal outcome. The
//! bridge performs no retries and owns no timeout: a timeout arrives as
//! just another terminal resolution.

use vstd::prelude::*;

use crate::correlator::{
    register_spec, resolve_spec, response_spec, Correlator, RequestModel, SlotModel,
};
use crate::errors::QueryError;

verus! {

/// The bridge for the query-posting protocol.
pub struct GqlConnection {
    correlator: Correlator,
}

impl View for GqlConnection {
    type V = Seq<SlotModel>;

    closed spec fn view(&self) -> Seq<SlotModel> {
        self.correlator@
    }
}

/// The resolution handle of one query-protocol request: the narrow
/// capability the external sender receives. It is consumed by whichever of
/// its three entry points fires first; the correlator discards any later
/// resolution of the same slot.
pub struct GqlQuery {
    pub request_id: usize,
}

impl GqlConnection {
    /// A bridge with no requests in flight.
    pub fn new() -> (c: GqlConnection)
        ensures
            c@ == Seq::<SlotModel>::empty(),
    {
        GqlConnection { correlator: Correlator::new() }
    }

    /// Opens one request: records the outgoing body as pending and returns
    /// the handle to give the external sender beside the body.
    pub fn post(&mut self, data: &str) -> (q: GqlQuery)
        ensures
            final(self)@ == register_spec(old(self)@, data@),
            q.request_id as int == old(self)@.len(),
    {
        let id = self.correlator.register(data);
        GqlQuery { request_id: id }
    }

    /// What a request resolved to, `None` while it is still pending.
    pub fn response(&self, id: usize) -> (r: Option<Result<String, QueryError>>)
        ensures
            match r {
                None => response_spec(self@, id as int) is None,
                Some(out) => match out {
                    Ok(body) => response_spec(self@, id as int) == Some(
                        Ok::<Seq<char>, QueryError>(body@),
                    ),
                    Err(e) => response_spec(self@, id as int) == Some(
                        Err::<Seq<char>, QueryError>(e),
                    ),
                },
            },
    {
        self.correlator.response(id)
    }

    /// The awaiting side lost interest; a pending request resolves to
    /// `Abandoned`, anything else is left alone.
    pub fn abandon(&mut self, id: usize)
        ensures
            final(self)@ == resolve_spec(old(self)@, id as int, RequestModel::Abandoned),
    {
        self.correlator.abandon(id)
    }
}

impl GqlQuery {
    /// The sender delivered a response body.
    pub fn on_receive(self, connection: &mut GqlConnection, data: String)
        ensures
            final(connection)@ == resolve_spec(
                old(connection)@,
                self.request_id as int,
                RequestModel::Delivered { body: data@ },
            ),
    {
        connection.correlator.resolve_delivered(self.request_id, data)
    }

    /// The sender reported a send-level failure.
    pub fn on_error(self, connection: &mut GqlConnection)
        ensures
            final(connection)@ == resolve_spec(
                old(connection)@,
                self.request_id as int,
                RequestModel::Failed,
            ),
    {
        connection.correlator.resolve_failed(self.request_id)
    }

    /// The sender reported a timeout.
    pub fn on_timeout(self, connection: &mut GqlConnection)
        ensures
            final(connection)@ == resolve_spec(
                old(connection)@,
                self.request_id as int,
                RequestModel::TimedOut,
            ),
    {
        connection.correlator.resolve_timed_out(self.request_id)
    }
}

/// The bridge for the RPC-call protocol; it builds on the same correlator
/// contract as the query bridge.
pub struct JrpcConnection {
    correlator: Correlator,
}

impl View for JrpcConnection {
    type V = Seq<SlotModel>;

    closed spec fn view(&self) -> Seq<SlotModel> {
        self.correlator@
    }
}

/// The resolution handle of one RPC-protocol request.
pub struct JrpcQuery {
    pub request_id: usize,
}

impl JrpcConnection {
    /// A bridge with no requests in flight.
    pub fn new() -> (c: JrpcConnection)
        ensures
            c@ == Seq::<SlotModel>::empty(),
    {
        JrpcConnection { correlator: Correlator::new() }
    }

    /// Opens one request: records the outgoing body as pending and returns
    /// the handle to give the external sender beside the body.
    pub fn post(&mut self, data: &str) -> (q: JrpcQuery)
        ensures
            final(self)@ == register_spec(old(self)@, data@),
            q.request_id as int == old(self)@.len(),
    {
        let id = self.correlator.register(data);
        JrpcQuery { request_id: id }
    }

    /// What a request resolved to, `None` while it is still pending.
    pub fn response(&self, id: usize) -> (r: Option<Result<String, QueryError>>)
        ensures
            match r {
                None => response_spec(self@, id as int) is None,
                Some(out) => match out {
                    Ok(body) => response_spec(self@, id as int) == Some(
                        Ok::<Seq<char>, QueryError>(body@),
                    ),
                    Err(e) => response_spec(self@, id as int) == Some(
                        Err::<Seq<char>, QueryError>(e),
                    ),
                },
            },
    {
        self.correlator.response(id)
    }

    /// The awaiting side lost interest; a pending request resolves to
    /// `Abandoned`, anything else is left alone.
    pub fn abandon(&mut self, id: usize)
        ensures
            final(self)@ == resolve_spec(old(self)@, id as int, RequestModel::Abandoned),
    {
        self.correlator.abandon(id)
    }
}

impl JrpcQuery {
    /// The sender delivered a response body.
    pub fn on_receive(self, connection: &mut JrpcConnection, data: String)
        ensures
            final(connection)@ == resolve_spec(
                old(connection)@,
                self.request_id as int,
                RequestModel::Delivered { body: data@ },
            ),
    {
        connection.correlator.resolve_delivered(self.request_id, data)
    }

    /// The sender reported a send-level failure.
    pub fn on_error(self, connection: &mut JrpcConnection)
        ensures
            final(connection)@ == resolve_spec(
                old(connection)@,
                self.request_id as int,
                RequestModel::Failed,
            ),
    {
        connection.correlator.resolve_failed(self.request_id)
    }

    /// The sender reported a timeout.
    pub fn on_timeout(self, connection: &mut JrpcConnection)
        ensures
            final(connection)@ == resolve_spec(
                old(connection)@,
                self.request_id as int,
                RequestModel::TimedOut,
            ),
    {
        connection.correlator.resolve_timed_out(self.request_id)
    }
}

/// An identifier of one historical record: logical time beside its hash.
pub struct TransactionId {
    pub lt: u64,
    pub hash: Vec<u8>,
}

/// The exclusive upper bound a transaction-page request runs under: the
/// continuation's logical time where one is given, otherwise unbounded.
pub fn transaction_page_bound(continuation: &Option<TransactionId>) -> (r: u64)
    ensures
        r == match continuation {
            Some(id) => id.lt,
            None => u64::MAX,
        },
{
    match continuation {
        Some(id) => id.lt,
        None => u64::MAX,
    }
}

} // verus!
