use relayer::handshake::{
    rejection_of, verdict_of, Accepted, AgentQuicListener, ClusterValidator, HandshakeError,
    Incoming, Verdict, HANDSHAKE_BUF_SIZE,
};

/// Takes a request that starts with `b'R'`; derives a domain from the rest
/// unless it starts with `b'!'`.
struct Stub;

impl ClusterValidator<Vec<u8>> for Stub {
    fn validate_connect_req(&self, req: &[u8]) -> Result<Vec<u8>, String> {
        if req.first() == Some(&b'R') {
            Ok(req[1..].to_vec())
        } else {
            Err(String::from("malformed"))
        }
    }

    fn generate_domain(&self, req: &Vec<u8>) -> Result<String, String> {
        if req.first() == Some(&b'!') {
            Err(String::from("taken"))
        } else {
            Ok(format!("{}.relay", String::from_utf8_lossy(req)))
        }
    }

    fn sign_response_res(&self, m: &Vec<u8>, err: Option<String>) -> Vec<u8> {
        let mut out = m.clone();
        match err {
            None => out.extend_from_slice(b"|ok"),
            Some(e) => {
                out.extend_from_slice(b"|err:");
                out.extend_from_slice(e.as_bytes());
            }
        }
        out
    }
}

#[test]
fn buffer_size() {
    assert_eq!(HANDSHAKE_BUF_SIZE, 4096);
}

#[test]
fn accepted_request_round_trip() {
    let listener = AgentQuicListener::new(Stub);
    let verdict = listener.process_incoming_conn(Some(b"Ralice"));
    let signed = Stub.sign_response_res(&b"alice".to_vec(), None);
    assert_eq!(
        verdict,
        Verdict::Accept { domain: String::from("alice.relay"), response: signed.clone() }
    );
    assert_eq!(verdict.response(), Some(&signed));
    assert_eq!(signed, b"alice|ok".to_vec());
    let conn = verdict.conclude(true).expect("accepted");
    assert_eq!(conn.domain(), "alice.relay");
    match listener.recv(Incoming::Attempt(Ok(conn))) {
        Accepted::Connection(conn) => assert_eq!(conn.domain(), "alice.relay"),
        other => panic!("unexpected {:?}", other),
    }
}

#[test]
fn rejected_request_is_answered_and_dropped() {
    let listener = AgentQuicListener::new(Stub);
    let verdict = listener.process_incoming_conn(Some(b"R!bob"));
    let signed = Stub.sign_response_res(&b"!bob".to_vec(), Some(String::from("taken")));
    assert_eq!(
        verdict,
        Verdict::Reject { error: String::from("taken"), response: signed.clone() }
    );
    assert_eq!(verdict.response(), Some(&signed));
    assert_eq!(signed, b"!bob|err:taken".to_vec());
    let end = verdict.conclude(true);
    assert_eq!(end, Err(HandshakeError::Rejected(String::from("taken"))));
    assert!(matches!(listener.recv(Incoming::Attempt(end)), Accepted::Retry));

    let next = listener.process_incoming_conn(Some(b"Rcarol"));
    let conn = next.conclude(true).expect("accepted");
    assert_eq!(conn.domain(), "carol.relay");
}

#[test]
fn unreadable_request_gets_no_answer() {
    let listener = AgentQuicListener::new(Stub);
    let verdict = listener.process_incoming_conn(Some(b"garbage"));
    assert_eq!(verdict, Verdict::Abandon(HandshakeError::Invalid(String::from("malformed"))));
    assert_eq!(verdict.response(), None);
    assert_eq!(
        verdict.clone().conclude(true),
        Err(HandshakeError::Invalid(String::from("malformed")))
    );
    assert_eq!(
        verdict.conclude(false),
        Err(HandshakeError::Invalid(String::from("malformed")))
    );
}

#[test]
fn empty_request_is_handed_to_the_validator() {
    let listener = AgentQuicListener::new(Stub);
    let verdict = listener.process_incoming_conn(Some(b""));
    assert_eq!(verdict, Verdict::Abandon(HandshakeError::Invalid(String::from("malformed"))));
}

#[test]
fn closed_stream_gives_no_data() {
    let listener = AgentQuicListener::new(Stub);
    let verdict = listener.process_incoming_conn(None);
    assert_eq!(verdict, Verdict::Abandon(HandshakeError::NoData));
    assert_eq!(verdict.response(), None);
    assert_eq!(verdict.conclude(true), Err(HandshakeError::NoData));
}

#[test]
fn failed_write_gives_no_connection() {
    let accept = Verdict::Accept { domain: String::from("d"), response: vec![1, 2] };
    assert_eq!(accept.conclude(false), Err(HandshakeError::Transport));
    let reject = Verdict::Reject { error: String::from("e"), response: vec![3] };
    assert_eq!(reject.conclude(false), Err(HandshakeError::Transport));
}

#[test]
fn reason_follows_the_domain() {
    assert_eq!(rejection_of(&Ok(String::from("d"))), None);
    assert_eq!(rejection_of(&Err(String::from("e"))), Some(String::from("e")));
}

#[test]
fn verdict_follows_the_domain() {
    assert_eq!(
        verdict_of(Ok(String::from("d")), vec![7]),
        Verdict::Accept { domain: String::from("d"), response: vec![7] }
    );
    assert_eq!(
        verdict_of(Err(String::from("e")), vec![8]),
        Verdict::Reject { error: String::from("e"), response: vec![8] }
    );
}

#[test]
fn accept_loop_steps() {
    let listener = AgentQuicListener::new(Stub);
    assert!(matches!(listener.recv(Incoming::EndpointClosed), Accepted::Fatal));
    assert!(matches!(listener.recv(Incoming::UpgradeFailed), Accepted::Retry));
    for error in [
        HandshakeError::NoData,
        HandshakeError::Invalid(String::from("x")),
        HandshakeError::Rejected(String::from("y")),
        HandshakeError::Transport,
    ] {
        assert!(matches!(listener.recv(Incoming::Attempt(Err(error))), Accepted::Retry));
    }
}
