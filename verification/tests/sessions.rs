use ql_bridge::errors::ApplicationError;
use ql_bridge::formats::TranslationError;
use ql_bridge::hub::ClientState;
use ql_bridge::ql::{QLAction, QLEvent, QLState, QL};
use ql_bridge::websocket::{
    negotiate, HandshakeError, Protocol, Session, SessionAction, SessionEvent,
};

#[test]
fn handshake_takes_the_two_subprotocols() {
    assert_eq!(negotiate(Some("ql-raw")), Ok(Protocol::Raw));
    assert_eq!(negotiate(Some("ql-json1")), Ok(Protocol::Json1));
    assert_eq!(Protocol::Raw.name(), "ql-raw");
    assert_eq!(Protocol::Json1.name(), "ql-json1");
}

#[test]
fn handshake_without_a_known_subprotocol_is_rejected() {
    assert_eq!(negotiate(None), Err(HandshakeError::Missing));
    for offer in ["", "ql", "QL-RAW", "ql-raw ", "ql-json", "ql-json2", "ql-raw, ql-json1", "chat"] {
        assert_eq!(negotiate(Some(offer)), Err(HandshakeError::Unsupported), "offer {:?}", offer);
    }
    assert_eq!(HandshakeError::Missing.message(), "Websocket subprotocol missing");
    assert_eq!(HandshakeError::Unsupported.message(), "Unsupported protocol");
}

#[test]
fn rejected_handshake_never_reaches_the_registry() {
    let mut clients = ClientState::new();
    clients.add_client();
    assert_eq!(Session::open(None, &mut clients), Err(HandshakeError::Missing));
    assert_eq!(Session::open(Some("mqtt"), &mut clients), Err(HandshakeError::Unsupported));
    assert_eq!(clients.len(), 1);
    assert_eq!(clients.recipients(), vec![0]);
}

#[test]
fn accepted_handshake_registers_the_client() {
    let mut clients = ClientState::new();
    let first = Session::open(Some("ql-raw"), &mut clients).unwrap();
    let second = Session::open(Some("ql-json1"), &mut clients).unwrap();
    assert_eq!(first, Session { protocol: Protocol::Raw, client: 0, active: true });
    assert_eq!(second, Session { protocol: Protocol::Json1, client: 1, active: true });
    assert_eq!(clients.recipients(), vec![0, 1]);
    first.release(&mut clients);
    assert_eq!(clients.recipients(), vec![1]);
    assert_eq!(clients.len(), 2);
}

#[test]
fn raw_session_passes_texts_on() {
    let mut clients = ClientState::new();
    let mut session = Session::open(Some("ql-raw"), &mut clients).unwrap();
    assert_eq!(
        session.process(SessionEvent::Frame("get MIXER:Current/InCh/Fader/Level 0 0".to_string())),
        SessionAction::Submit("get MIXER:Current/InCh/Fader/Level 0 0".to_string())
    );
    assert_eq!(
        session.process(SessionEvent::Message("OK get x".to_string())),
        SessionAction::Send("OK get x".to_string())
    );
    assert!(session.active);
}

#[test]
fn json_session_translates_both_ways() {
    let mut clients = ClientState::new();
    let mut session = Session::open(Some("ql-json1"), &mut clients).unwrap();
    assert_eq!(
        session.process(SessionEvent::Frame("{\"channel\":5,\"state\":false}".to_string())),
        SessionAction::Submit("set MIXER:Current/InCh/Fader/On 5 0 0".to_string())
    );
    assert_eq!(
        session.process(SessionEvent::Message("NOTIFY set MIXER:Current/InCh/Fader/On 5 0 1".to_string())),
        SessionAction::Send("{\"channel\":5,\"fader\":null,\"state\":true}".to_string())
    );
}

#[test]
fn json_session_sends_an_empty_frame_for_a_line_without_mapping() {
    let mut clients = ClientState::new();
    let mut session = Session::open(Some("ql-json1"), &mut clients).unwrap();
    assert_eq!(
        session.process(SessionEvent::Message("OK devstatus runmode".to_string())),
        SessionAction::Send(String::new())
    );
    assert_eq!(
        session.process(SessionEvent::Frame("{\"channel\":5}".to_string())),
        SessionAction::Submit(String::new())
    );
}

#[test]
fn json_session_drops_a_bad_text_and_goes_on() {
    let mut clients = ClientState::new();
    let mut session = Session::open(Some("ql-json1"), &mut clients).unwrap();
    assert_eq!(
        session.process(SessionEvent::Frame("{\"channel\":5,\"fader\":{}}".to_string())),
        SessionAction::Report(TranslationError::MissingLevel)
    );
    assert_eq!(
        session.process(SessionEvent::Frame("nonsense".to_string())),
        SessionAction::Report(TranslationError::InvalidJson)
    );
    assert!(session.active);
    assert_eq!(
        session.process(SessionEvent::Frame("{\"channel\":5,\"state\":true}".to_string())),
        SessionAction::Submit("set MIXER:Current/InCh/Fader/On 5 0 1".to_string())
    );
}

#[test]
fn session_closes_on_anything_but_a_text() {
    for ending in [
        SessionEvent::NonText,
        SessionEvent::SocketClosed,
        SessionEvent::HubClosed,
        SessionEvent::SubmitFailed,
        SessionEvent::SendFailed,
    ] {
        let mut clients = ClientState::new();
        let mut session = Session::open(Some("ql-raw"), &mut clients).unwrap();
        assert_eq!(session.process(ending), SessionAction::Close);
        assert!(!session.active);
        assert_eq!(session.process(SessionEvent::Frame("x".to_string())), SessionAction::Idle);
        assert_eq!(session.process(SessionEvent::Message("x".to_string())), SessionAction::Idle);
        assert_eq!(session.process(SessionEvent::SocketClosed), SessionAction::Idle);
    }
}

#[test]
fn console_session_starts_when_the_connection_is_open() {
    let session = QL::connect(Ok(())).ok().unwrap();
    assert_eq!(session.state, QLState::Active);
    match QL::connect(Err("connection refused".to_string())) {
        Err(error) => assert_eq!(error, ApplicationError::IoError("connection refused".to_string())),
        Ok(_) => panic!("no session without a connection"),
    }
}

#[test]
fn console_session_relays_lines() {
    let mut session = QL::connect(Ok(())).ok().unwrap();
    assert_eq!(session.process(QLEvent::Line("NOTIFY x".to_string())), QLAction::Forward("NOTIFY x".to_string()));
    assert_eq!(session.process(QLEvent::Message("set y".to_string())), QLAction::Write("set y".to_string()));
    assert_eq!(session.process(QLEvent::Line(String::new())), QLAction::Forward(String::new()));
    assert_eq!(session.state, QLState::Active);
}

#[test]
fn console_session_ends_with_an_error() {
    let endings = [
        (QLEvent::LineError("bad utf-8".to_string()), ApplicationError::LinesCodecError("bad utf-8".to_string())),
        (QLEvent::WriteFailed("broken pipe".to_string()), ApplicationError::LinesCodecError("broken pipe".to_string())),
        (QLEvent::SendFailed("receiver is gone".to_string()), ApplicationError::SendError("receiver is gone".to_string())),
        (QLEvent::StreamEnded, ApplicationError::IoError("console stream ended".to_string())),
        (QLEvent::ChannelClosed, ApplicationError::SendError("hub channel closed".to_string())),
    ];
    for (event, error) in endings {
        let mut session = QL::connect(Ok(())).ok().unwrap();
        assert_eq!(session.process(event), QLAction::Close(error));
        assert_eq!(session.state, QLState::Closed);
        assert_eq!(session.process(QLEvent::Line("x".to_string())), QLAction::Idle);
        assert_eq!(session.process(QLEvent::Message("x".to_string())), QLAction::Idle);
        assert_eq!(session.process(QLEvent::StreamEnded), QLAction::Idle);
        assert_eq!(session.state, QLState::Closed);
    }
}

#[test]
fn errors_are_worded_by_kind() {
    assert_eq!(ApplicationError::UsageError("gw <address> [<port>]".to_string()).message(), "Usage: gw <address> [<port>]");
    assert_eq!(ApplicationError::IoError("refused".to_string()).message(), "IO error refused");
    assert_eq!(
        ApplicationError::NameResolutionError("No addresses returned for x:1".to_string()).message(),
        "Name resolution error: No addresses returned for x:1"
    );
    assert_eq!(ApplicationError::SendError("closed".to_string()).message(), "Send error: closed");
    assert_eq!(ApplicationError::LinesCodecError("too long".to_string()).message(), "Lines codec error: too long");
    assert_eq!(ApplicationError::JoinError("panicked".to_string()).message(), "Async task join error: panicked");
}
