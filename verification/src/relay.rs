//! The decisions of the two relay loops: the server side, which takes language-server
//! messages from an attached editor relay and hands them to the handlers, and the client side,
//! which passes messages between the editor and the server's socket. Sockets, threads and
//! channels stay outside.
use crate::rpc::{dispatch_lsp, LspDispatch, LspMessageKind};
use vstd::prelude::*;

verus! {

/// A message read from the relay: its kind and its JSON text.
#[derive(Debug, PartialEq, Eq)]
pub struct RelayedMessage {
    pub kind: LspMessageKind,
    pub payload: String,
}

/// The state of the server side of the relay.
#[derive(Debug)]
pub struct RelayState {
    /// Whether a relay is attached.
    pub attached: bool,
    /// Whether the thread reading the attached relay still runs.
    pub reader_running: bool,
    /// Messages read and not yet handled; the last one read is handled first.
    pub queue: Vec<RelayedMessage>,
}

/// What the server side of the relay does next.
#[derive(Debug, PartialEq, Eq)]
pub enum RelayAction {
    /// Wait for a relay to connect.
    Accept,
    /// Hand this notification to the notification handlers.
    HandleNotification(String),
    /// Hand this request to the request handlers.
    HandleRequest(String),
    /// A `shutdown` request came: stop.
    Shutdown,
    /// A response came, which has no handler: report the error and go on.
    RejectResponse,
    /// The relay's reader has stopped and everything read is handled: detach it.
    Detach,
    /// Nothing to do yet: wait for the reader.
    Wait,
}

/// The action for a message, by its dispatch.
pub open spec fn action_for(m: RelayedMessage) -> RelayAction {
    match m.kind {
        LspMessageKind::Notification => RelayAction::HandleNotification(m.payload),
        LspMessageKind::Request { method } => if method@ == "shutdown"@ {
            RelayAction::Shutdown
        } else {
            RelayAction::HandleRequest(m.payload)
        },
        LspMessageKind::Response => RelayAction::RejectResponse,
    }
}

impl RelayState {
    /// No relay attached.
    pub fn new() -> (r: Self)
        ensures
            !r.attached,
            !r.reader_running,
            r.queue@.len() == 0,
    {
        RelayState { attached: false, reader_running: false, queue: Vec::new() }
    }

    /// A relay connected: it is attached, its reader runs, and nothing is queued yet.
    pub fn on_accept(&mut self)
        ensures
            final(self).attached,
            final(self).reader_running,
            final(self).queue@.len() == 0,
    {
        self.attached = true;
        self.reader_running = true;
        self.queue = Vec::new();
    }

    /// The reader read a line: a line that holds a message is queued, any other is skipped.
    pub fn on_line(&mut self, message: Option<RelayedMessage>)
        ensures
            final(self).attached == old(self).attached,
            final(self).reader_running == old(self).reader_running,
            match message {
                Some(m) => final(self).queue@ == old(self).queue@.push(m),
                None => final(self).queue@ == old(self).queue@,
            },
    {
        if let Some(m) = message {
            self.queue.push(m);
        }
    }

    /// The reader found the relay closed. It marks itself as running when it does, so the
    /// relay stays attached and the loop goes on waiting.
    pub fn on_reader_closed(&mut self)
        ensures
            final(self).attached == old(self).attached,
            final(self).reader_running,
            final(self).queue@ == old(self).queue@,
    {
        self.reader_running = true;
    }

    /// The next action: with no relay attached, accept one; otherwise handle the message read
    /// last, if any (see `action_for`); with none left, detach once the reader has stopped,
    /// or wait for it.
    pub fn next_action(&mut self) -> (r: RelayAction)
        ensures
            final(self).reader_running == old(self).reader_running,
            !old(self).attached ==> r == RelayAction::Accept && final(self).queue@ == old(
                self,
            ).queue@ && !final(self).attached,
            old(self).attached && old(self).queue@.len() > 0 ==> r == action_for(
                old(self).queue@.last(),
            ) && final(self).queue@ == old(self).queue@.drop_last() && final(self).attached,
            old(self).attached && old(self).queue@.len() == 0 ==> final(self).queue@.len() == 0
                && (if old(self).reader_running {
                r == RelayAction::Wait && final(self).attached
            } else {
                r == RelayAction::Detach && !final(self).attached
            }),
    {
        if !self.attached {
            return RelayAction::Accept;
        }
        match self.queue.pop() {
            Some(m) => match dispatch_lsp(&m.kind) {
                LspDispatch::Notification => RelayAction::HandleNotification(m.payload),
                LspDispatch::Request => RelayAction::HandleRequest(m.payload),
                LspDispatch::Shutdown => RelayAction::Shutdown,
                LspDispatch::NoHandler => RelayAction::RejectResponse,
            },
            None => if self.reader_running {
                RelayAction::Wait
            } else {
                self.attached = false;
                RelayAction::Detach
            },
        }
    }
}

/// What the client side got from the editor's channel.
#[derive(Debug, PartialEq, Eq)]
pub enum ClientRecv {
    Message(String),
    Empty,
    Disconnected,
}

/// What the client side does with it.
#[derive(Debug, PartialEq, Eq)]
pub enum ClientSend {
    /// Write this message to the server's socket.
    Write(String),
    /// Nothing to write.
    Nothing,
    /// The editor is gone: stop with an error.
    StopDisconnected,
}

/// The client side's answer to the editor's channel: a message is written when the socket is
/// writable (and dropped otherwise), a disconnected editor stops the client.
pub fn client_send_step(recv: ClientRecv, writable: bool) -> (r: ClientSend)
    ensures
        r == match recv {
            ClientRecv::Message(m) => if writable {
                ClientSend::Write(m)
            } else {
                ClientSend::Nothing
            },
            ClientRecv::Empty => ClientSend::Nothing,
            ClientRecv::Disconnected => ClientSend::StopDisconnected,
        },
{
    match recv {
        ClientRecv::Message(m) => if writable {
            ClientSend::Write(m)
        } else {
            ClientSend::Nothing
        },
        ClientRecv::Empty => ClientSend::Nothing,
        ClientRecv::Disconnected => ClientSend::StopDisconnected,
    }
}

/// What a read of the server's socket brought.
#[derive(Debug, PartialEq, Eq)]
pub enum ClientRead {
    /// The server closed the connection (a read of zero bytes).
    Closed,
    /// A message of the server, as JSON text.
    Bytes(String),
    WouldBlock,
    Failed,
}

/// What the client side does after a read of the server's socket.
#[derive(Debug, PartialEq, Eq)]
pub enum ClientReadAction {
    /// The server is gone: stop without error.
    StopClosed,
    /// Hand this message to the editor.
    Forward(String),
    /// Go on.
    Continue,
    /// Reading failed: give up.
    Fail,
}

/// The client side's answer to a read: a closed socket stops it, a message is passed to the
/// editor, a blocked read is retried, a failed one is fatal.
pub fn client_read_step(read: ClientRead) -> (r: ClientReadAction)
    ensures
        r == match read {
            ClientRead::Closed => ClientReadAction::StopClosed,
            ClientRead::Bytes(b) => ClientReadAction::Forward(b),
            ClientRead::WouldBlock => ClientReadAction::Continue,
            ClientRead::Failed => ClientReadAction::Fail,
        },
{
    match read {
        ClientRead::Closed => ClientReadAction::StopClosed,
        ClientRead::Bytes(b) => ClientReadAction::Forward(b),
        ClientRead::WouldBlock => ClientReadAction::Continue,
        ClientRead::Failed => ClientReadAction::Fail,
    }
}

} // verus!
