use cql_core::balancer::{Balancer, Policy};
use cql_core::error::{Error, ProtocolFault};
use cql_core::frame::{encode_frame, Frame, Opcode, Version};
use cql_core::pool::{Lease, Pool};
use cql_core::query::{encode_query_frame, Query, QueryValues};
use cql_core::record::{select_query, RowStruct};
use cql_core::response::{interpret_response, server_error};
use cql_core::session::{Action, Event, Phase, Request, Session};

#[test]
fn round_robin_starts_behind_the_first_node() {
    let mut b = Balancer::new(Policy::RoundRobin, 3);
    let picked: Vec<usize> = (0..10).map(|_| b.next().unwrap()).collect();
    assert_eq!(picked, vec![1, 2, 0, 1, 2, 0, 1, 2, 0, 1]);
}

#[test]
fn round_robin_visits_every_node_in_every_window() {
    for nodes in 1..6usize {
        let mut b = Balancer::new(Policy::RoundRobin, nodes);
        let picked: Vec<usize> = (0..4 * nodes).map(|_| b.next().unwrap()).collect();
        for window in picked.windows(nodes) {
            let mut seen = window.to_vec();
            seen.sort();
            assert_eq!(seen, (0..nodes).collect::<Vec<usize>>());
        }
    }
}

#[test]
fn round_robin_skips_unreachable_nodes() {
    let mut b = Balancer::new(Policy::RoundRobin, 4);
    b.set_up(1, false);
    b.set_up(2, false);
    assert_eq!(b.next(), Ok(3));
    assert_eq!(b.next(), Ok(0));
    assert_eq!(b.next(), Ok(3));
    b.set_up(2, true);
    assert_eq!(b.next(), Ok(0));
    assert_eq!(b.next(), Ok(2));
    assert!(b.is_up(2));
    assert!(!b.is_up(1));
    assert!(!b.is_up(4));
    assert_eq!(b.len(), 4);
}

#[test]
fn single_reachable_node_is_handed_out_again() {
    let mut b = Balancer::new(Policy::RoundRobin, 3);
    b.set_up(0, false);
    b.set_up(2, false);
    assert_eq!(b.next(), Ok(1));
    assert_eq!(b.next(), Ok(1));
}

#[test]
fn no_node_when_all_are_unreachable() {
    let mut b = Balancer::new(Policy::RoundRobin, 2);
    b.set_up(0, false);
    b.set_up(1, false);
    assert_eq!(b.next(), Err(Error::NoAvailableNode));
    assert_eq!(b.next(), Err(Error::NoAvailableNode));
    b.set_up(0, true);
    assert_eq!(b.next(), Ok(0));
}

#[test]
fn no_node_in_an_empty_cluster() {
    let mut b = Balancer::new(Policy::RoundRobin, 0);
    assert_eq!(b.next(), Err(Error::NoAvailableNode));
    let mut b = Balancer::new(Policy::FirstReachable, 0);
    assert_eq!(b.next(), Err(Error::NoAvailableNode));
}

#[test]
fn marking_a_node_that_is_not_there_changes_nothing() {
    let mut b = Balancer::new(Policy::RoundRobin, 2);
    b.set_up(2, false);
    assert_eq!(b, Balancer::new(Policy::RoundRobin, 2));
}

#[test]
fn first_reachable_sticks_to_the_first_node() {
    let mut b = Balancer::new(Policy::FirstReachable, 3);
    assert_eq!(b.next(), Ok(0));
    assert_eq!(b.next(), Ok(0));
    b.set_up(0, false);
    assert_eq!(b.next(), Ok(1));
    assert_eq!(b.next(), Ok(1));
    b.set_up(0, true);
    assert_eq!(b.next(), Ok(0));
}

#[test]
fn pool_opens_until_full_then_is_exhausted() {
    let mut p = Pool::new(2);
    assert_eq!(p.acquire(), Ok(Lease::Open(0)));
    assert_eq!(p.acquire(), Ok(Lease::Open(1)));
    assert_eq!(p.acquire(), Err(Error::PoolExhausted));
    assert_eq!(p.lent_count(), 2);
    assert_eq!(p.idle_count(), 0);
    assert!(p.is_lent(0));
    assert!(p.is_lent(1));
    assert!(!p.is_lent(2));
}

#[test]
fn pool_of_size_zero_is_exhausted_at_once() {
    let mut p = Pool::new(0);
    assert_eq!(p.acquire(), Err(Error::PoolExhausted));
}

#[test]
fn released_connection_is_reused_last_in_first_out() {
    let mut p = Pool::new(3);
    let a = p.acquire().unwrap().id();
    let b = p.acquire().unwrap().id();
    assert!(p.release(a));
    assert!(p.release(b));
    assert_eq!(p.idle_count(), 2);
    assert_eq!(p.acquire(), Ok(Lease::Reuse(b)));
    assert_eq!(p.acquire(), Ok(Lease::Reuse(a)));
    assert_eq!(p.acquire(), Ok(Lease::Open(2)));
    assert_eq!(p.acquire(), Err(Error::PoolExhausted));
}

#[test]
fn connection_is_never_lent_twice() {
    let mut p = Pool::new(4);
    let mut lent: Vec<u64> = Vec::new();
    for round in 0..50u64 {
        match p.acquire() {
            Ok(lease) => {
                assert!(!lent.contains(&lease.id()));
                lent.push(lease.id());
            }
            Err(e) => {
                assert_eq!(e, Error::PoolExhausted);
                assert_eq!(lent.len(), 4);
            }
        }
        if round % 3 == 0 && !lent.is_empty() {
            let id = lent.remove((round as usize) % lent.len());
            if round % 2 == 0 {
                assert!(p.release(id));
            } else {
                assert!(p.evict(id));
            }
        }
        assert_eq!(p.lent_count(), lent.len());
        for id in &lent {
            assert!(p.is_lent(*id));
        }
    }
}

#[test]
fn releasing_what_is_not_lent_changes_nothing() {
    let mut p = Pool::new(2);
    let a = p.acquire().unwrap().id();
    assert!(!p.release(a + 1));
    assert!(p.release(a));
    assert!(!p.release(a));
    assert!(!p.evict(a));
    assert_eq!(p.idle_count(), 1);
    assert_eq!(p.lent_count(), 0);
}

#[test]
fn evicted_connection_makes_room() {
    let mut p = Pool::new(1);
    let a = p.acquire().unwrap().id();
    assert_eq!(p.acquire(), Err(Error::PoolExhausted));
    assert!(p.evict(a));
    assert_eq!(p.acquire(), Ok(Lease::Open(a + 1)));
}

#[test]
fn renewed_connection_takes_the_place_of_the_old() {
    let mut p = Pool::new(1);
    let a = p.acquire().unwrap().id();
    assert!(p.release(a));
    assert_eq!(p.acquire(), Ok(Lease::Reuse(a)));
    assert_eq!(p.renew(a), Some(a + 1));
    assert!(!p.is_lent(a));
    assert!(p.is_lent(a + 1));
    assert_eq!(p.lent_count(), 1);
    assert_eq!(p.renew(a), None);
    assert_eq!(p.lent_count(), 1);
}

fn result_frame(stream: u16, body: Vec<u8>) -> Vec<u8> {
    encode_frame(&Frame { version: Version::Response, flags: 0, stream, opcode: Opcode::Result, body })
        .unwrap()
}

fn error_frame(stream: u16, code: i32, message: &str) -> Vec<u8> {
    let mut body = code.to_be_bytes().to_vec();
    body.extend((message.len() as u16).to_be_bytes());
    body.extend(message.as_bytes());
    encode_frame(&Frame { version: Version::Response, flags: 0, stream, opcode: Opcode::Error, body })
        .unwrap()
}

#[test]
fn result_frame_of_the_stream_is_the_answer() {
    let bytes = result_frame(7, vec![0, 0, 0, 1]);
    assert_eq!(
        interpret_response(&bytes, 7),
        Ok(Frame {
            version: Version::Response,
            flags: 0,
            stream: 7,
            opcode: Opcode::Result,
            body: vec![0, 0, 0, 1],
        })
    );
}

#[test]
fn answer_on_another_stream_is_rejected() {
    let bytes = result_frame(7, vec![0, 0, 0, 1]);
    assert_eq!(
        interpret_response(&bytes, 8),
        Err(Error::ProtocolError(ProtocolFault::StreamMismatch))
    );
}

#[test]
fn request_frame_is_no_answer() {
    let bytes = encode_query_frame(&Query::new("X"), 7).unwrap();
    assert_eq!(
        interpret_response(&bytes, 7),
        Err(Error::ProtocolError(ProtocolFault::UnexpectedDirection))
    );
}

#[test]
fn frame_that_answers_no_query_is_rejected() {
    let bytes = encode_frame(&Frame {
        version: Version::Response,
        flags: 0,
        stream: 7,
        opcode: Opcode::Ready,
        body: vec![],
    })
    .unwrap();
    assert_eq!(
        interpret_response(&bytes, 7),
        Err(Error::ProtocolError(ProtocolFault::UnexpectedOpcode))
    );
}

#[test]
fn error_frame_gives_the_servers_code_and_message() {
    let bytes = error_frame(7, 0x2200, "Invalid query");
    assert_eq!(
        interpret_response(&bytes, 7),
        Err(Error::ServerError { code: 0x2200, message: b"Invalid query".to_vec() })
    );
    assert_eq!(
        server_error(&[0, 0, 0x10, 0, 0, 2, b'n', b'o', 9, 9]),
        Error::ServerError { code: 0x1000, message: b"no".to_vec() }
    );
}

#[test]
fn malformed_error_body_is_a_protocol_error() {
    let malformed = Error::ProtocolError(ProtocolFault::MalformedBody);
    assert_eq!(server_error(&[]), malformed);
    assert_eq!(server_error(&[0, 0, 0]), malformed);
    assert_eq!(server_error(&[0, 0, 0, 1, 0]), malformed);
    assert_eq!(server_error(&[0, 0, 0, 1, 0, 3, b'a', b'b']), malformed);
    assert_eq!(
        server_error(&[0, 0, 0, 1, 0, 0]),
        Error::ServerError { code: 1, message: vec![] }
    );
}

#[test]
fn truncated_response_is_a_protocol_error() {
    let bytes = result_frame(7, vec![0, 0, 0, 1]);
    assert_eq!(
        interpret_response(&bytes[..bytes.len() - 1], 7),
        Err(Error::ProtocolError(ProtocolFault::TruncatedBody))
    );
    assert_eq!(
        interpret_response(&bytes[..5], 7),
        Err(Error::ProtocolError(ProtocolFault::TruncatedHeader))
    );
}

fn begin(session: &mut Session, q: &Query) -> (Request, Action) {
    session.begin(q)
}

#[test]
fn request_runs_from_open_to_done() {
    let mut s = Session::new(Policy::RoundRobin, 1, 2, 0);
    let q = select_query();
    let (mut req, action) = begin(&mut s, &q);
    assert_eq!(action, Action::Open { node: 0, conn: 0 });
    assert_eq!(req.phase(), Phase::Opening);
    assert_eq!(req.stream(), 0);
    assert_eq!(req.bytes(), &encode_query_frame(&q, 0).unwrap()[..]);
    assert_eq!(s.step(&mut req, Event::Ready), Action::Exchange { node: 0, conn: 0 });
    assert_eq!(req.phase(), Phase::Awaiting);
    let answer = result_frame(0, vec![0, 0, 0, 1]);
    let done = s.step(&mut req, Event::Response(answer.clone()));
    assert_eq!(done, Action::Done(interpret_response(&answer, 0)));
    assert!(matches!(done, Action::Done(Ok(_))));
    assert_eq!(req.phase(), Phase::Finished);
    assert_eq!(s.step(&mut req, Event::Ready), Action::Nothing);
}

#[test]
fn released_connection_is_probed_before_reuse() {
    let mut s = Session::new(Policy::RoundRobin, 1, 2, 0);
    let q = select_query();
    let (mut first, _) = begin(&mut s, &q);
    s.step(&mut first, Event::Ready);
    s.step(&mut first, Event::Response(result_frame(0, vec![0, 0, 0, 1])));
    let (mut second, action) = begin(&mut s, &q);
    assert_eq!(action, Action::Probe { node: 0, conn: 0 });
    assert_eq!(second.stream(), 1);
    assert_eq!(s.step(&mut second, Event::Ready), Action::Exchange { node: 0, conn: 0 });
}

#[test]
fn stale_connection_is_replaced_not_surfaced() {
    let mut s = Session::new(Policy::RoundRobin, 1, 1, 0);
    let q = select_query();
    let (mut first, _) = begin(&mut s, &q);
    s.step(&mut first, Event::Ready);
    s.step(&mut first, Event::Response(result_frame(0, vec![0, 0, 0, 1])));
    let (mut second, action) = begin(&mut s, &q);
    assert_eq!(action, Action::Probe { node: 0, conn: 0 });
    assert_eq!(s.step(&mut second, Event::Stale), Action::Open { node: 0, conn: 1 });
    assert_eq!(s.step(&mut second, Event::Ready), Action::Exchange { node: 0, conn: 1 });
}

#[test]
fn connection_is_released_even_when_the_answer_is_malformed() {
    let mut s = Session::new(Policy::RoundRobin, 1, 1, 0);
    let q = select_query();
    let (mut first, _) = begin(&mut s, &q);
    s.step(&mut first, Event::Ready);
    assert_eq!(
        s.step(&mut first, Event::Response(vec![1, 2, 3])),
        Action::Done(Err(Error::ProtocolError(ProtocolFault::TruncatedHeader)))
    );
    let (_, action) = begin(&mut s, &q);
    assert_eq!(action, Action::Probe { node: 0, conn: 0 });
}

#[test]
fn server_error_ends_the_request_without_retry() {
    let mut s = Session::new(Policy::RoundRobin, 2, 1, 5);
    let (mut req, _) = begin(&mut s, &select_query());
    s.step(&mut req, Event::Ready);
    assert_eq!(
        s.step(&mut req, Event::Response(error_frame(0, 0x2000, "syntax"))),
        Action::Done(Err(Error::ServerError { code: 0x2000, message: b"syntax".to_vec() }))
    );
    assert_eq!(req.phase(), Phase::Finished);
}

#[test]
fn answer_to_another_request_is_not_taken() {
    let mut s = Session::new(Policy::RoundRobin, 1, 1, 0);
    let (mut req, _) = begin(&mut s, &select_query());
    s.step(&mut req, Event::Ready);
    assert_eq!(
        s.step(&mut req, Event::Response(result_frame(9, vec![0, 0, 0, 1]))),
        Action::Done(Err(Error::ProtocolError(ProtocolFault::StreamMismatch)))
    );
}

#[test]
fn query_fails_at_once_when_all_nodes_are_unreachable() {
    let mut s = Session::new(Policy::RoundRobin, 3, 1, 4);
    for node in 0..3 {
        s.set_node_up(node, false);
    }
    let (req, action) = begin(&mut s, &select_query());
    assert_eq!(action, Action::Done(Err(Error::NoAvailableNode)));
    assert_eq!(req.phase(), Phase::Finished);
}

#[test]
fn failed_connect_marks_the_node_and_moves_on() {
    let mut s = Session::new(Policy::RoundRobin, 2, 1, 1);
    let (mut req, action) = begin(&mut s, &select_query());
    assert_eq!(action, Action::Open { node: 1, conn: 0 });
    assert_eq!(s.step(&mut req, Event::Broken), Action::Open { node: 0, conn: 0 });
    assert!(!s.is_node_up(1));
    assert!(s.is_node_up(0));
    assert_eq!(s.step(&mut req, Event::Broken), Action::Done(Err(Error::ConnectError)));
    assert!(!s.is_node_up(0));
    let (_, action) = begin(&mut s, &select_query());
    assert_eq!(action, Action::Done(Err(Error::NoAvailableNode)));
}

#[test]
fn retries_are_bounded() {
    let mut s = Session::new(Policy::RoundRobin, 1, 4, 2);
    let (mut req, mut action) = begin(&mut s, &select_query());
    let mut attempts = 0;
    loop {
        match action {
            Action::Open { .. } => action = s.step(&mut req, Event::Ready),
            Action::Exchange { .. } => {
                attempts += 1;
                action = s.step(&mut req, Event::TimedOut);
            }
            Action::Done(outcome) => {
                assert_eq!(outcome, Err(Error::Timeout));
                break;
            }
            other => panic!("unexpected {:?}", other),
        }
    }
    assert_eq!(attempts, 3);
}

#[test]
fn timeout_differs_from_connect_error() {
    let mut s = Session::new(Policy::RoundRobin, 1, 1, 0);
    let (mut req, _) = begin(&mut s, &select_query());
    assert_eq!(s.step(&mut req, Event::TimedOut), Action::Done(Err(Error::Timeout)));
    let mut s = Session::new(Policy::RoundRobin, 1, 1, 0);
    let (mut req, _) = begin(&mut s, &select_query());
    s.step(&mut req, Event::Ready);
    assert_eq!(s.step(&mut req, Event::Broken), Action::Done(Err(Error::ConnectError)));
    assert!(Error::Timeout.connection_failure());
    assert!(Error::ConnectError.connection_failure());
    assert!(!Error::PoolExhausted.connection_failure());
    assert!(!Error::ProtocolError(ProtocolFault::BadVersion).connection_failure());
}

#[test]
fn broken_connection_is_evicted_and_leaves_room() {
    let mut s = Session::new(Policy::RoundRobin, 1, 1, 0);
    let (mut req, _) = begin(&mut s, &select_query());
    s.step(&mut req, Event::Ready);
    assert_eq!(s.step(&mut req, Event::Broken), Action::Done(Err(Error::ConnectError)));
    let (_, action) = begin(&mut s, &select_query());
    assert_eq!(action, Action::Open { node: 0, conn: 1 });
}

#[test]
fn exhausted_pool_ends_the_request() {
    let mut s = Session::new(Policy::RoundRobin, 1, 1, 3);
    let (_held, action) = begin(&mut s, &select_query());
    assert_eq!(action, Action::Open { node: 0, conn: 0 });
    let (req, action) = begin(&mut s, &select_query());
    assert_eq!(action, Action::Done(Err(Error::PoolExhausted)));
    assert_eq!(req.phase(), Phase::Finished);
}

#[test]
fn event_that_does_not_fit_repeats_the_action() {
    let mut s = Session::new(Policy::RoundRobin, 1, 1, 0);
    let (mut req, _) = begin(&mut s, &select_query());
    assert_eq!(s.step(&mut req, Event::Stale), Action::Open { node: 0, conn: 0 });
    assert_eq!(s.step(&mut req, Event::Response(vec![])), Action::Open { node: 0, conn: 0 });
    s.step(&mut req, Event::Ready);
    assert_eq!(s.step(&mut req, Event::Ready), Action::Exchange { node: 0, conn: 0 });
    assert_eq!(s.step(&mut req, Event::Stale), Action::Exchange { node: 0, conn: 0 });
}

#[test]
fn request_of_another_session_is_left_alone() {
    let mut big = Session::new(Policy::RoundRobin, 3, 1, 0);
    let mut small = Session::new(Policy::RoundRobin, 1, 1, 0);
    let (mut req, action) = begin(&mut big, &select_query());
    assert_eq!(action, Action::Open { node: 1, conn: 0 });
    assert_eq!(small.step(&mut req, Event::Ready), Action::Nothing);
    assert_eq!(req.phase(), Phase::Opening);
    assert_eq!(small, Session::new(Policy::RoundRobin, 1, 1, 0));
}

#[test]
fn statement_that_cannot_be_framed_ends_at_once() {
    let mut s = Session::new(Policy::RoundRobin, 1, 1, 0);
    let q = Query::with_values("X", QueryValues::Simple(vec![None; 0x1_0000]));
    let (req, action) = begin(&mut s, &q);
    assert_eq!(action, Action::Done(Err(Error::ProtocolError(ProtocolFault::Oversized))));
    assert_eq!(req.phase(), Phase::Finished);
    assert_eq!(s, Session::new(Policy::RoundRobin, 1, 1, 0));
}

#[test]
fn stream_ids_advance_and_wrap() {
    let mut s = Session::new(Policy::FirstReachable, 1, 1, 0);
    assert_eq!(s.nodes(), 1);
    for expected in 0..=u16::MAX {
        let (mut req, _) = begin(&mut s, &select_query());
        assert_eq!(req.stream(), expected);
        s.step(&mut req, Event::Ready);
        s.step(&mut req, Event::Broken);
        s.set_node_up(0, true);
    }
    let (req, _) = begin(&mut s, &select_query());
    assert_eq!(req.stream(), 0);
}

#[test]
fn insert_then_select_in_one_session() {
    let mut s = Session::new(Policy::RoundRobin, 1, 1, 0);
    let row = RowStruct { key: 3, decimal: None };
    let (mut req, _) = begin(&mut s, &row.insert_query());
    assert_eq!(req.bytes(), &encode_query_frame(&row.insert_query(), 0).unwrap()[..]);
    s.step(&mut req, Event::Ready);
    let done = s.step(&mut req, Event::Response(result_frame(0, vec![0, 0, 0, 1])));
    assert!(matches!(done, Action::Done(Ok(_))));
    let (req, action) = begin(&mut s, &select_query());
    assert_eq!(action, Action::Probe { node: 0, conn: 0 });
    assert_eq!(req.stream(), 1);
}
