use knowls::relay::{
    client_read_step, client_send_step, ClientRead, ClientReadAction, ClientRecv, ClientSend, RelayAction, RelayState,
    RelayedMessage,
};
use knowls::rpc::{dispatch_lsp, handle_rpc_request, lsp_response, HealthRequest, HealthResponse, LspDispatch,
    LspMessageKind, LspRelayRequest, LspRelayResponse, Request, RequestHandling, Response};

fn msg(kind: LspMessageKind, payload: &str) -> Option<RelayedMessage> {
    Some(RelayedMessage { kind, payload: payload.to_string() })
}

#[test]
fn requests_are_handled() {
    assert_eq!(
        handle_rpc_request(Request::Health(HealthRequest {})),
        RequestHandling::Reply(Response::Health(HealthResponse {}))
    );
    let l = LspRelayRequest { payload: "{}".to_string() };
    assert_eq!(handle_rpc_request(Request::Lsp(LspRelayRequest { payload: "{}".to_string() })), RequestHandling::Lsp(l));
    assert_eq!(lsp_response(None), None);
    assert_eq!(
        lsp_response(Some("x".to_string())),
        Some(Response::Lsp(LspRelayResponse { payload: Some("x".to_string()) }))
    );
}

#[test]
fn lsp_messages_are_dispatched() {
    assert_eq!(dispatch_lsp(&LspMessageKind::Notification), LspDispatch::Notification);
    assert_eq!(dispatch_lsp(&LspMessageKind::Request { method: "shutdown".to_string() }), LspDispatch::Shutdown);
    assert_eq!(dispatch_lsp(&LspMessageKind::Request { method: "textDocument/hover".to_string() }), LspDispatch::Request);
    assert_eq!(dispatch_lsp(&LspMessageKind::Response), LspDispatch::NoHandler);
}

#[test]
fn relay_attaches_and_handles_messages() {
    let mut r = RelayState::new();
    assert_eq!(r.next_action(), RelayAction::Accept);
    r.on_accept();
    assert_eq!(r.next_action(), RelayAction::Wait);
    r.on_line(msg(LspMessageKind::Notification, "n"));
    r.on_line(None);
    r.on_line(msg(LspMessageKind::Request { method: "hover".to_string() }, "q"));
    r.on_line(msg(LspMessageKind::Response, "r"));
    assert_eq!(r.next_action(), RelayAction::RejectResponse);
    assert_eq!(r.next_action(), RelayAction::HandleRequest("q".to_string()));
    assert_eq!(r.next_action(), RelayAction::HandleNotification("n".to_string()));
    r.on_reader_closed();
    // A closed relay's reader marks itself running: the relay stays attached and waits.
    assert_eq!(r.next_action(), RelayAction::Wait);
    assert!(r.attached);
    r.reader_running = false;
    assert_eq!(r.next_action(), RelayAction::Detach);
    assert!(!r.attached);
    assert_eq!(r.next_action(), RelayAction::Accept);
}

#[test]
fn relay_stops_on_shutdown() {
    let mut r = RelayState::new();
    r.on_accept();
    r.on_line(msg(LspMessageKind::Request { method: "shutdown".to_string() }, "s"));
    assert_eq!(r.next_action(), RelayAction::Shutdown);
}

#[test]
fn client_side_steps() {
    assert_eq!(client_send_step(ClientRecv::Message("m".to_string()), true), ClientSend::Write("m".to_string()));
    assert_eq!(client_send_step(ClientRecv::Message("m".to_string()), false), ClientSend::Nothing);
    assert_eq!(client_send_step(ClientRecv::Empty, true), ClientSend::Nothing);
    assert_eq!(client_send_step(ClientRecv::Disconnected, true), ClientSend::StopDisconnected);
    assert_eq!(client_read_step(ClientRead::Closed), ClientReadAction::StopClosed);
    assert_eq!(client_read_step(ClientRead::Bytes("b".to_string())), ClientReadAction::Forward("b".to_string()));
    assert_eq!(client_read_step(ClientRead::WouldBlock), ClientReadAction::Continue);
    assert_eq!(client_read_step(ClientRead::Failed), ClientReadAction::Fail);
}
