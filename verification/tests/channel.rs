use acond::channel::Demux;
use acond::errors::ApiError;

#[test]
fn correlation_identifiers_are_fresh_and_ordered() {
    let mut d = Demux::new(8);
    assert_eq!(d.submit(0, 10), Ok(0));
    assert_eq!(d.submit(1, 10), Ok(1));
    assert_eq!(d.submit(2, 10), Ok(2));
}

#[test]
fn responses_match_out_of_order() {
    let mut d = Demux::new(8);
    let a = d.submit(0, 10).unwrap();
    let b = d.submit(0, 10).unwrap();
    let c = d.submit(0, 10).unwrap();
    // responses arrive in a different order than the requests went out
    assert!(d.resolve(b));
    assert!(d.resolve(a));
    assert!(d.resolve(c));
    // a response nobody is waiting for matches nothing
    assert!(!d.resolve(b));
    assert!(!d.resolve(99));
}

#[test]
fn in_flight_bound_refuses_excess() {
    let mut d = Demux::new(2);
    let a = d.submit(0, 10).unwrap();
    assert!(d.submit(0, 10).is_ok());
    // the bound is reached: the next request is refused, not queued
    assert_eq!(d.submit(0, 10), Err(ApiError::Unavailable));
    // resolving one frees a slot
    assert!(d.resolve(a));
    assert!(d.submit(1, 10).is_ok());
}

#[test]
fn peer_close_resolves_everything_in_flight() {
    let mut d = Demux::new(8);
    let a = d.submit(0, 10).unwrap();
    let b = d.submit(0, 10).unwrap();
    let c = d.submit(0, 10).unwrap();
    assert!(d.resolve(b));
    // the peer endpoint closes: every request still in flight is handed
    // back so its caller resolves as unavailable instead of hanging
    let orphans = d.peer_closed();
    assert_eq!(orphans, vec![a, c]);
    // nothing is left waiting, and nothing can be submitted any more
    assert_eq!(d.submit(5, 10), Err(ApiError::Unavailable));
    assert!(!d.resolve(a));
}

#[test]
fn requests_time_out_at_their_deadline() {
    let mut d = Demux::new(8);
    let a = d.submit(0, 5).unwrap();
    let b = d.submit(0, 10).unwrap();
    // before any deadline nothing expires
    assert_eq!(d.expire(4), Vec::<u64>::new());
    // at the first deadline only the first request expires
    assert_eq!(d.expire(5), vec![a]);
    // the second stays matchable until its own deadline
    assert!(d.resolve(b));
    let c = d.submit(0, 10).unwrap();
    assert_eq!(d.expire(10), vec![c]);
}
