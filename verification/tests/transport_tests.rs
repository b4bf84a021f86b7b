use nekoton::correlator::Correlator;
use nekoton::errors::QueryError;
use nekoton::transport::{
    transaction_page_bound, GqlConnection, GqlQuery, JrpcConnection, TransactionId,
};

#[test]
fn timeout_resolves_once_and_later_delivery_is_noop() {
    let mut conn = GqlConnection::new();
    let query = conn.post("{ blocks { id } }");
    let id = query.request_id;

    // the sender immediately reports a timeout
    query.on_timeout(&mut conn);
    assert_eq!(conn.response(id), Some(Err(QueryError::TimeoutReached)));

    // a later delivery attempt on the same slot changes nothing
    let late = GqlQuery { request_id: id };
    late.on_receive(&mut conn, String::from("{ \"data\": 1 }"));
    assert_eq!(conn.response(id), Some(Err(QueryError::TimeoutReached)));
}

#[test]
fn concurrent_posts_resolve_independently() {
    let mut conn = GqlConnection::new();
    let q1 = conn.post("first payload");
    let q2 = conn.post("second payload");
    let (id1, id2) = (q1.request_id, q2.request_id);
    assert_ne!(id1, id2);

    // resolving the second request first leaves the first one pending
    q2.on_receive(&mut conn, String::from("response two"));
    assert_eq!(conn.response(id1), None);
    assert_eq!(conn.response(id2), Some(Ok(String::from("response two"))));

    q1.on_receive(&mut conn, String::from("response one"));
    assert_eq!(conn.response(id1), Some(Ok(String::from("response one"))));
    assert_eq!(conn.response(id2), Some(Ok(String::from("response two"))));
}

#[test]
fn sender_error_surfaces_as_request_failed() {
    let mut conn = GqlConnection::new();
    let q = conn.post("payload");
    let id = q.request_id;
    q.on_error(&mut conn);
    assert_eq!(conn.response(id), Some(Err(QueryError::RequestFailed)));
}

#[test]
fn abandoned_request_reports_request_dropped() {
    let mut conn = GqlConnection::new();
    let q = conn.post("payload");
    let id = q.request_id;
    conn.abandon(id);
    assert_eq!(conn.response(id), Some(Err(QueryError::RequestDropped)));
    // the sender may still fire harmlessly afterwards
    q.on_receive(&mut conn, String::from("too late"));
    assert_eq!(conn.response(id), Some(Err(QueryError::RequestDropped)));
}

#[test]
fn unknown_request_id_has_no_response() {
    let conn = GqlConnection::new();
    assert_eq!(conn.response(0), None);
}

#[test]
fn jrpc_bridge_offers_the_same_post_contract() {
    let mut conn = JrpcConnection::new();
    let q1 = conn.post("{\"method\":\"getLatestBlock\"}");
    let q2 = conn.post("{\"method\":\"getContractState\"}");
    let (id1, id2) = (q1.request_id, q2.request_id);

    q1.on_timeout(&mut conn);
    assert_eq!(conn.response(id1), Some(Err(QueryError::TimeoutReached)));
    assert_eq!(conn.response(id2), None);

    q2.on_receive(&mut conn, String::from("{\"result\":{}}"));
    assert_eq!(conn.response(id2), Some(Ok(String::from("{\"result\":{}}"))));
}

#[test]
fn correlator_tracks_registration_order() {
    let mut c = Correlator::new();
    assert_eq!(c.len(), 0);
    let a = c.register("a");
    let b = c.register("b");
    assert_eq!((a, b), (0, 1));
    assert_eq!(c.len(), 2);
    assert_eq!(c.response(a), None);

    c.resolve_failed(a);
    assert_eq!(c.response(a), Some(Err(QueryError::RequestFailed)));
    // resolution is single-use at the correlator level too
    c.resolve_delivered(a, String::from("late"));
    assert_eq!(c.response(a), Some(Err(QueryError::RequestFailed)));
    assert_eq!(c.response(b), None);
}

#[test]
fn page_bound_takes_continuation_or_is_unbounded() {
    let cont = Some(TransactionId { lt: 42, hash: vec![9u8; 32] });
    assert_eq!(transaction_page_bound(&cont), 42);
    assert_eq!(transaction_page_bound(&None), u64::MAX);
}
