//! The decisions of the server's per-connection loop: when to flush queued responses, when to
//! read, and when an idle connection is closed. The loop itself (sockets, timers) runs outside.
use crate::rpc::{
    handle_rpc_request, HealthRequest, lsp_response, HealthResponse, LspRelayRequest, LspRelayResponse, Request,
    RequestHandling, Response, RpcMessage,
};
use vstd::prelude::*;

verus! {

/// How long a connection may stay idle before it is closed, in milliseconds.
pub const THREAD_IDLE_TIMEOUT_MS: u64 = 30000;

/// How long one read waits for a packet, in milliseconds.
pub const READ_TIMEOUT_MS: u64 = 500;

/// How long to wait before reading again after an empty or blocked read, in milliseconds.
pub const RETRY_DELAY_MS: u64 = 10;

/// What one read of the connection brought.
#[derive(Debug)]
pub enum ReadEvent {
    /// A message came in.
    Message(RpcMessage),
    /// The peer closed the connection.
    Disconnected,
    /// The read returned no packet.
    Empty,
    /// The read would have blocked.
    WouldBlock,
    /// The read failed for another reason.
    Failed,
    /// No packet came within the read timeout; `now_ms` is the monotonic clock at that moment.
    TimedOut { now_ms: u64 },
}

/// What the loop does next.
#[derive(Debug, PartialEq, Eq)]
pub enum Step {
    /// Write these messages, in this order, flushing after each.
    Write(Vec<RpcMessage>),
    /// Read one packet, waiting at most `timeout_ms`.
    Read { timeout_ms: u64 },
}

/// What the loop does after a read.
#[derive(Debug, PartialEq, Eq)]
pub enum ReadOutcome {
    /// Go on with the next step.
    Continue,
    /// Wait this many milliseconds, then go on.
    Sleep(u64),
    /// Close the connection.
    Close,
    /// Give up on the connection: reading failed.
    Fail,
    /// Hand the relayed message of request `id` to the language-server handlers, then report
    /// their answer with `on_lsp_answer`.
    HandleLsp { id: String, request: LspRelayRequest },
}

/// The state a connection's loop keeps between steps.
#[derive(Debug)]
pub struct ConnectionLoop {
    /// Since when (monotonic milliseconds) the connection has been idle, if it is.
    pub last_idle: Option<u64>,
    /// Responses waiting to be written; the last one queued is written first.
    pub send_queue: Vec<RpcMessage>,
}

/// Milliseconds from `since` to `now`, or zero if the clock reads earlier than `since`.
pub open spec fn elapsed(since: u64, now: u64) -> int {
    if now >= since {
        now - since
    } else {
        0
    }
}

/// The outcome of a read, and the idle mark after it, given the idle mark before it.
pub open spec fn read_step(last_idle: Option<u64>, event: ReadEvent) -> (ReadOutcome, Option<u64>) {
    match event {
        ReadEvent::Message(RpcMessage::Req { id, req: Request::Lsp(l) }) => (
            ReadOutcome::HandleLsp { id, request: l },
            None,
        ),
        ReadEvent::Message(_) => (ReadOutcome::Continue, None),
        ReadEvent::Disconnected => (ReadOutcome::Close, None),
        ReadEvent::Empty => (ReadOutcome::Sleep(RETRY_DELAY_MS), None),
        ReadEvent::WouldBlock => (ReadOutcome::Sleep(RETRY_DELAY_MS), None),
        ReadEvent::Failed => (ReadOutcome::Fail, None),
        ReadEvent::TimedOut { now_ms } => match last_idle {
            Some(since) => if elapsed(since, now_ms) >= THREAD_IDLE_TIMEOUT_MS {
                (ReadOutcome::Close, Some(since))
            } else {
                (ReadOutcome::Continue, Some(since))
            },
            None => (ReadOutcome::Continue, Some(now_ms)),
        },
    }
}

/// The response a read queues at once: a health request with id `id` is answered with a
/// health response carrying the same id; nothing else is answered at once.
pub open spec fn immediate_response(event: ReadEvent) -> Option<RpcMessage> {
    match event {
        ReadEvent::Message(RpcMessage::Req { id, req: Request::Health(_) }) => Some(
            RpcMessage::Res { id, res: Response::Health(HealthResponse {}) },
        ),
        _ => None,
    }
}

impl ConnectionLoop {
    /// A fresh connection: not idle, nothing to send.
    pub fn new() -> (r: Self)
        ensures
            r.last_idle is None,
            r.send_queue@.len() == 0,
    {
        ConnectionLoop { last_idle: None, send_queue: Vec::new() }
    }

    /// The next step: write every queued response (last queued first) when there are any,
    /// otherwise read with the read timeout.
    pub fn next_step(&mut self) -> (r: Step)
        ensures
            final(self).last_idle == old(self).last_idle,
            old(self).send_queue@.len() > 0 ==> (r matches Step::Write(v) && v@ == old(
                self,
            ).send_queue@.reverse()) && final(self).send_queue@.len() == 0,
            old(self).send_queue@.len() == 0 ==> r == (Step::Read { timeout_ms: READ_TIMEOUT_MS })
                && final(self).send_queue@ == old(self).send_queue@,
    {
        if self.send_queue.len() == 0 {
            return Step::Read { timeout_ms: READ_TIMEOUT_MS };
        }
        let ghost q = self.send_queue@;
        let mut out: Vec<RpcMessage> = Vec::new();
        while self.send_queue.len() > 0
            invariant
                self.send_queue@ == q.take(self.send_queue@.len() as int),
                self.send_queue@.len() <= q.len(),
                out@.len() + self.send_queue@.len() == q.len(),
                forall|t: int| 0 <= t < out@.len() ==> #[trigger] out@[t] == q[q.len() - 1 - t],
                self.last_idle == old(self).last_idle,
                q == old(self).send_queue@,
            decreases self.send_queue@.len(),
        {
            let m = self.send_queue.pop().unwrap();
            out.push(m);
            proof {
                assert(self.send_queue@ =~= q.take(self.send_queue@.len() as int));
            }
        }
        proof {
            assert(out@ =~= q.reverse());
        }
        Step::Write(out)
    }

    /// Takes in what a read brought: a health request is answered at once (with its id),
    /// a relayed language-server message is handed out, other messages get no reply; any read
    /// that brings something ends the idle period, and a timed-out read starts one or, after
    /// `THREAD_IDLE_TIMEOUT_MS` of idleness, closes the connection; see `read_step`.
    pub fn on_read(&mut self, event: ReadEvent) -> (r: ReadOutcome)
        ensures
            (r, final(self).last_idle) == read_step(old(self).last_idle, event),
            match immediate_response(event) {
                Some(res) => final(self).send_queue@ == old(self).send_queue@.push(res),
                None => final(self).send_queue@ == old(self).send_queue@,
            },
    {
        match event {
            ReadEvent::Message(msg) => {
                self.last_idle = None;
                match msg {
                    RpcMessage::Req { id, req } => match handle_rpc_request(req) {
                        RequestHandling::Reply(res) => {
                            self.send_queue.push(RpcMessage::Res { id, res });
                            ReadOutcome::Continue
                        },
                        RequestHandling::Lsp(request) => ReadOutcome::HandleLsp { id, request },
                    },
                    RpcMessage::Res { .. } => ReadOutcome::Continue,
                }
            },
            ReadEvent::Disconnected => {
                self.last_idle = None;
                ReadOutcome::Close
            },
            ReadEvent::Empty | ReadEvent::WouldBlock => {
                self.last_idle = None;
                ReadOutcome::Sleep(RETRY_DELAY_MS)
            },
            ReadEvent::Failed => {
                self.last_idle = None;
                ReadOutcome::Fail
            },
            ReadEvent::TimedOut { now_ms } => match self.last_idle {
                Some(since) => {
                    let idle_for = if now_ms >= since {
                        now_ms - since
                    } else {
                        0
                    };
                    if idle_for >= THREAD_IDLE_TIMEOUT_MS {
                        ReadOutcome::Close
                    } else {
                        ReadOutcome::Continue
                    }
                },
                None => {
                    self.last_idle = Some(now_ms);
                    ReadOutcome::Continue
                },
            },
        }
    }

    /// Takes in the language-server handlers' answer to the relayed message of request `id`:
    /// an answer is queued as the response to `id`; no answer queues nothing.
    pub fn on_lsp_answer(&mut self, id: String, answer: Option<String>)
        ensures
            final(self).last_idle == old(self).last_idle,
            match answer {
                Some(a) => final(self).send_queue@ == old(self).send_queue@.push(
                    RpcMessage::Res { id, res: Response::Lsp(LspRelayResponse { payload: Some(a) }) },
                ),
                None => final(self).send_queue@ == old(self).send_queue@,
            },
    {
        if let Some(res) = lsp_response(answer) {
            self.send_queue.push(RpcMessage::Res { id, res });
        }
    }
}

/// Law: a connection is closed for idleness only after a timed-out read that comes at least
/// `THREAD_IDLE_TIMEOUT_MS` after the one that started the idle period; a first timed-out read
/// never closes it.
pub proof fn lemma_idle_close_needs_timeout(last_idle: Option<u64>, now_ms: u64)
    ensures
        read_step(last_idle, ReadEvent::TimedOut { now_ms }).0 == ReadOutcome::Close
            <==> (last_idle matches Some(since) && elapsed(since, now_ms) >= THREAD_IDLE_TIMEOUT_MS),
        last_idle is None ==> read_step(None, ReadEvent::TimedOut { now_ms }) == (
            ReadOutcome::Continue,
            Some(now_ms),
        ),
{
}

/// Law: any read that brings something (a message, an empty packet, a block, a disconnect or
/// a failure) ends the idle period.
pub proof fn lemma_activity_resets_idle(last_idle: Option<u64>, event: ReadEvent)
    requires
        !(event is TimedOut),
    ensures
        read_step(last_idle, event).1 is None,
{
}

/// Law: a health request is answered at once with a health response that carries the
/// request's id, and the loop goes on.
pub proof fn lemma_health_answered_with_its_id(last_idle: Option<u64>, id: String, h: HealthRequest)
    ensures
        immediate_response(ReadEvent::Message(RpcMessage::Req { id, req: Request::Health(h) }))
            == Some(RpcMessage::Res { id, res: Response::Health(HealthResponse {}) }),
        read_step(last_idle, ReadEvent::Message(RpcMessage::Req { id, req: Request::Health(h) })).0
            == ReadOutcome::Continue,
{
}

} // verus!
