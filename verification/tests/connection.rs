use knowls::connection::{
    ConnectionLoop, ReadEvent, ReadOutcome, Step, READ_TIMEOUT_MS, RETRY_DELAY_MS, THREAD_IDLE_TIMEOUT_MS,
};
use knowls::rpc::{HealthRequest, HealthResponse, LspRelayRequest, LspRelayResponse, Request, Response, RpcMessage};

fn health(id: &str) -> ReadEvent {
    ReadEvent::Message(RpcMessage::Req { id: id.to_string(), req: Request::Health(HealthRequest {}) })
}

fn health_answer(id: &str) -> RpcMessage {
    RpcMessage::Res { id: id.to_string(), res: Response::Health(HealthResponse {}) }
}

#[test]
fn a_fresh_connection_reads() {
    let mut c = ConnectionLoop::new();
    assert_eq!(c.next_step(), Step::Read { timeout_ms: READ_TIMEOUT_MS });
    assert_eq!(READ_TIMEOUT_MS, 500);
}

#[test]
fn health_requests_are_answered_with_their_id() {
    let mut c = ConnectionLoop::new();
    assert_eq!(c.on_read(health("7")), ReadOutcome::Continue);
    assert_eq!(c.next_step(), Step::Write(vec![health_answer("7")]));
}

#[test]
fn responses_are_written_last_queued_first() {
    let mut c = ConnectionLoop::new();
    c.on_read(health("1"));
    c.on_read(ReadEvent::Message(RpcMessage::Res { id: "x".to_string(), res: Response::Health(HealthResponse {}) }));
    c.on_read(health("2"));
    assert_eq!(c.next_step(), Step::Write(vec![health_answer("2"), health_answer("1")]));
    assert!(c.send_queue.is_empty());
    assert_eq!(c.next_step(), Step::Read { timeout_ms: 500 });
}

#[test]
fn relayed_messages_go_to_the_lsp_handlers() {
    let mut c = ConnectionLoop::new();
    let req = RpcMessage::Req {
        id: "9".to_string(),
        req: Request::Lsp(LspRelayRequest { payload: "{\"method\":\"x\"}".to_string() }),
    };
    assert_eq!(
        c.on_read(ReadEvent::Message(req)),
        ReadOutcome::HandleLsp {
            id: "9".to_string(),
            request: LspRelayRequest { payload: "{\"method\":\"x\"}".to_string() },
        }
    );
    assert!(c.send_queue.is_empty());
    c.on_lsp_answer("9".to_string(), None);
    assert!(c.send_queue.is_empty());
    c.on_lsp_answer("9".to_string(), Some("{}".to_string()));
    assert_eq!(
        c.next_step(),
        Step::Write(vec![RpcMessage::Res {
            id: "9".to_string(),
            res: Response::Lsp(LspRelayResponse { payload: Some("{}".to_string()) }),
        }])
    );
}

#[test]
fn idle_connections_close_after_thirty_seconds() {
    let mut c = ConnectionLoop::new();
    assert_eq!(c.on_read(ReadEvent::TimedOut { now_ms: 1_000 }), ReadOutcome::Continue);
    assert_eq!(c.last_idle, Some(1_000));
    assert_eq!(c.on_read(ReadEvent::TimedOut { now_ms: 30_999 }), ReadOutcome::Continue);
    assert_eq!(c.last_idle, Some(1_000));
    assert_eq!(c.on_read(ReadEvent::TimedOut { now_ms: 31_000 }), ReadOutcome::Close);
    assert_eq!(THREAD_IDLE_TIMEOUT_MS, 30_000);
}

#[test]
fn activity_ends_the_idle_period() {
    let mut c = ConnectionLoop::new();
    c.on_read(ReadEvent::TimedOut { now_ms: 0 });
    assert_eq!(c.on_read(health("1")), ReadOutcome::Continue);
    assert_eq!(c.last_idle, None);
    c.on_read(ReadEvent::TimedOut { now_ms: 40_000 });
    assert_eq!(c.on_read(ReadEvent::TimedOut { now_ms: 50_000 }), ReadOutcome::Continue);
    assert_eq!(c.on_read(ReadEvent::Empty), ReadOutcome::Sleep(RETRY_DELAY_MS));
    assert_eq!(c.last_idle, None);
}

#[test]
fn reads_that_end_the_connection() {
    let mut c = ConnectionLoop::new();
    assert_eq!(c.on_read(ReadEvent::WouldBlock), ReadOutcome::Sleep(10));
    assert_eq!(c.on_read(ReadEvent::Disconnected), ReadOutcome::Close);
    assert_eq!(c.on_read(ReadEvent::Failed), ReadOutcome::Fail);
}

#[test]
fn a_clock_that_reads_earlier_counts_as_no_time() {
    let mut c = ConnectionLoop::new();
    c.on_read(ReadEvent::TimedOut { now_ms: 50_000 });
    assert_eq!(c.on_read(ReadEvent::TimedOut { now_ms: 10 }), ReadOutcome::Continue);
}
