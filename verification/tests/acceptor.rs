use request_framer::acceptor::{AcceptEvent, Acceptor, ConnState};
use request_framer::listener::Listener;

#[test]
fn bind_yields_bound_listener() {
    let l = Listener::bind((127, 0, 0, 1), 7878);
    assert!(l.is_bound());
    assert_eq!(l.port(), 7878);
    assert_eq!(l.addr(), (127, 0, 0, 1));
}

#[test]
fn default_endpoint_text() {
    let l = Listener::bind_default();
    assert!(l.is_bound());
    assert_eq!(l.endpoint_text(), "127.0.0.1:7878");
}

#[test]
fn endpoint_text_of_any_pair() {
    let l = Listener::bind((10, 0, 200, 31), 65535);
    assert_eq!(l.endpoint_text(), "10.0.200.31:65535");
}

#[test]
fn connections_in_arrival_order() {
    let l = Listener::bind((127, 0, 0, 1), 0);
    let mut acc = Acceptor::new(l);
    let mut c1 = acc.accept(AcceptEvent::Connected).unwrap();
    assert_eq!(c1.id(), 0);
    assert!(c1.frame_header(b"GET /\n\n").is_ok());
    c1.close();
    acc.finish(c1);
    let c2 = acc.accept(AcceptEvent::Connected).unwrap();
    assert_eq!(c2.id(), 1);
    assert_eq!(acc.accepted_count(), 2);
}

#[test]
fn one_connection_at_a_time() {
    let mut acc = Acceptor::new(Listener::bind_default());
    let mut c1 = acc.accept(AcceptEvent::Connected).unwrap();
    assert!(acc.is_handling());
    c1.frame_header(b"a\n\n").unwrap();
    assert!(matches!(c1.state(), ConnState::HeaderFramed));
    c1.close();
    assert!(matches!(c1.state(), ConnState::Closed));
    acc.finish(c1);
    assert!(!acc.is_handling());
    let c2 = acc.accept(AcceptEvent::Connected).unwrap();
    assert!(matches!(c2.state(), ConnState::Accepted));
    assert_eq!(c2.id(), 1);
}

#[test]
fn failed_accept_records_nothing() {
    let mut acc = Acceptor::new(Listener::bind_default());
    let r = acc.accept(AcceptEvent::Failed);
    assert!(r.is_err());
    assert!(!acc.is_handling());
    assert_eq!(acc.accepted_count(), 0);
}

#[test]
fn decode_error_closes_connection() {
    let mut acc = Acceptor::new(Listener::bind_default());
    let mut c = acc.accept(AcceptEvent::Connected).unwrap();
    let r = c.frame_header(&[0xFF, b'\n', b'\n']);
    assert!(r.is_err());
    assert!(matches!(c.state(), ConnState::Closed));
    acc.finish(c);
    assert!(!acc.is_handling());
}

#[test]
fn framed_header_reaches_the_handler() {
    let mut acc = Acceptor::new(Listener::bind_default());
    let mut c = acc.accept(AcceptEvent::Connected).unwrap();
    let h = c.frame_header(b"GET / HTTP/1.1\r\nHost: localhost\r\n\r\nBODYIGNORED").unwrap();
    assert_eq!(
        h.lines,
        vec!["GET / HTTP/1.1".to_string(), "Host: localhost".to_string()]
    );
    c.close();
    acc.finish(c);
}
