use nttp::engine::{Admission, Engine, Message, Phase};
use nttp::error::Error;
use nttp::exchange::Exchange;
use nttp::mailbox::Delivery;

fn started<H, C>(admission: Admission<H, C>) -> (H, usize) {
    match admission {
        Admission::Started { handle, token } => (handle, token),
        _ => panic!("the exchange was not taken on"),
    }
}

#[test]
fn new_engine_runs_with_nothing_in_flight() {
    let engine: Engine<u8> = Engine::new();
    assert_eq!(engine.phase(), Phase::Running);
    assert_eq!(engine.in_flight(), 0);
    assert!(engine.polls_mailbox());
}

#[test]
fn tokens_count_up_from_zero() {
    let mut engine = Engine::new();
    assert_eq!(engine.submit(Exchange::new('a')).ok(), Some(0));
    assert_eq!(engine.submit(Exchange::new('b')).ok(), Some(1));
    assert!(engine.complete(0, Ok(200)).is_some());
    assert_eq!(engine.submit(Exchange::new('c')).ok(), Some(2));
    assert_eq!(engine.in_flight(), 2);
}

#[test]
fn completion_fires_exactly_once_on_success() {
    let mut engine = Engine::new();
    let token = engine.submit(Exchange::new("callback")).ok().unwrap();
    assert!(engine.on_header(token, b"HTTP/1.1 200 OK\r\n"));
    assert!(engine.on_header(token, b"Header: res\r\n"));
    assert_eq!(engine.on_body(token, b"XYZ"), 3);
    let (callback, result) = engine.complete(token, Ok(200)).unwrap();
    assert_eq!(callback, "callback");
    let response = result.unwrap();
    assert_eq!(response.status_code(), 200);
    assert_eq!(response.body(), b"XYZ");
    assert_eq!(response.headers().get("Header"), Some("res"));
    assert!(engine.complete(token, Ok(200)).is_none());
    assert!(engine.complete(token, Err(Error::InvalidHeader)).is_none());
    assert_eq!(engine.in_flight(), 0);
}

#[test]
fn completion_fires_exactly_once_on_failure() {
    let mut engine = Engine::new();
    let token = engine.submit(Exchange::new(1u8)).ok().unwrap();
    assert_eq!(engine.on_body(token, b"half"), 4);
    let failure = Error::Transport { code: 56, description: "recv failure".to_string() };
    let (callback, result) = engine.complete(token, Err(failure.clone())).unwrap();
    assert_eq!(callback, 1);
    assert_eq!(result.unwrap_err(), failure);
    assert!(engine.complete(token, Ok(200)).is_none());
}

#[test]
fn concurrent_exchanges_do_not_mix() {
    let mut engine = Engine::new();
    let n = 8usize;
    for i in 0..n {
        assert_eq!(engine.submit(Exchange::new(i)).ok(), Some(i));
    }
    for round in 0..3 {
        for i in 0..n {
            if round == 0 {
                assert!(engine.on_header(i, b"HTTP/1.1 200 OK\r\n"));
                assert!(engine.on_header(i, format!("Index: {}\r\n", i).as_bytes()));
            }
            let piece = format!("[{}:{}]", i, round);
            assert_eq!(engine.on_body(i, piece.as_bytes()), piece.len());
        }
    }
    for i in (0..n).rev() {
        let (callback, result) = engine.complete(i, Ok(200 + i as u32)).unwrap();
        assert_eq!(callback, i);
        let response = result.unwrap();
        assert_eq!(response.status_code(), 200 + i as u32);
        assert_eq!(response.body(), format!("[{0}:0][{0}:1][{0}:2]", i).as_bytes());
        assert_eq!(response.headers().get("Index"), Some(i.to_string().as_str()));
        assert_eq!(response.headers().list().len(), 1);
    }
    assert_eq!(engine.in_flight(), 0);
}

#[test]
fn data_under_an_unknown_token_goes_nowhere() {
    let mut engine = Engine::new();
    let token = engine.submit(Exchange::new(())).ok().unwrap();
    assert_eq!(engine.on_body(token + 1, b"stray"), 0);
    assert!(!engine.on_header(token + 1, b"HTTP/1.1 200 OK\r\n"));
    let response = engine.complete(token, Ok(204)).unwrap().1.unwrap();
    assert_eq!(response.body(), b"");
    assert_eq!(response.headers().list().len(), 0);
}

#[test]
fn shutdown_waits_for_all_in_flight() {
    let mut engine = Engine::new();
    let k = 5usize;
    for i in 0..k {
        engine.submit(Exchange::new(i)).ok().unwrap();
    }
    engine.request_shutdown();
    assert!(!engine.polls_mailbox());
    let mut fired = Vec::new();
    for i in 0..k {
        assert_eq!(engine.phase(), Phase::Draining);
        assert_eq!(engine.in_flight(), k - i);
        let (callback, result) = engine.complete(i, Ok(200)).unwrap();
        assert!(result.is_ok());
        fired.push(callback);
    }
    assert_eq!(engine.phase(), Phase::Stopped);
    assert_eq!(fired, vec![0, 1, 2, 3, 4]);
}

#[test]
fn shutdown_with_nothing_in_flight_stops_at_once() {
    let mut engine: Engine<()> = Engine::new();
    engine.request_shutdown();
    assert_eq!(engine.phase(), Phase::Stopped);
}

#[test]
fn draining_engine_takes_nothing_on() {
    let mut engine = Engine::new();
    engine.submit(Exchange::new(1)).ok().unwrap();
    engine.request_shutdown();
    let back = engine.submit(Exchange::new(2)).err().unwrap();
    assert_eq!(back.finish(Ok(200)).0, 2);
    assert_eq!(engine.in_flight(), 1);
    assert_eq!(engine.phase(), Phase::Draining);
}

#[test]
fn receive_starts_a_new_exchange() {
    let mut engine = Engine::new();
    let admission = engine.receive(Delivery::Message(Message::Easy("handle", Exchange::new(9))));
    assert_eq!(started(admission), ("handle", 0));
    assert_eq!(engine.in_flight(), 1);
    assert_eq!(engine.complete(0, Ok(200)).unwrap().0, 9);
}

#[test]
fn receive_quit_begins_draining() {
    let mut engine = Engine::new();
    engine.submit(Exchange::new(())).ok().unwrap();
    let admission = engine.receive(Delivery::Message(Message::<u8, ()>::Quit));
    assert!(matches!(admission, Admission::Nothing));
    assert_eq!(engine.phase(), Phase::Draining);
}

#[test]
fn receive_closed_counts_as_shutdown() {
    let mut engine: Engine<()> = Engine::new();
    let admission = engine.receive(Delivery::<Message<u8, ()>>::Closed);
    assert!(matches!(admission, Admission::Nothing));
    assert_eq!(engine.phase(), Phase::Stopped);
}

#[test]
fn receive_empty_changes_nothing() {
    let mut engine: Engine<()> = Engine::new();
    let admission = engine.receive(Delivery::<Message<u8, ()>>::Empty);
    assert!(matches!(admission, Admission::Nothing));
    assert_eq!(engine.phase(), Phase::Running);
    assert!(engine.polls_mailbox());
}

#[test]
fn receive_refuses_work_after_shutdown() {
    let mut engine = Engine::new();
    engine.request_shutdown();
    match engine.receive(Delivery::Message(Message::Easy(5u8, Exchange::new("late")))) {
        Admission::Refused { handle, exchange } => {
            assert_eq!(handle, 5);
            assert_eq!(exchange.finish(Err(Error::InvalidHeader)).0, "late");
        }
        _ => panic!("the exchange was taken on"),
    }
    assert_eq!(engine.phase(), Phase::Stopped);
}
