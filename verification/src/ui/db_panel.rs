//! The decisions of the database panel of the desktop interface: which controls it shows,
//! what each control asks of the database worker, and how the worker's replies change it.
//! Drawing the panel and running the worker happen outside.
use vstd::prelude::*;
use vstd::string::StringExecFns;

verus! {

/// What the panel asks of the database worker.
#[derive(Debug, Clone, Copy, PartialEq, Eq, Structural)]
pub enum DBUiMessageToThread {
    SpinUp,
    FlushStdout,
    CheckHealth,
    Kill,
}

/// What the database worker reports back.
#[derive(Debug, PartialEq, Eq)]
pub enum DBUiMessageFromThread {
    Healthy(bool),
    StdOut(String),
}

/// What a poll of the worker's reply channel brought.
#[derive(Debug, PartialEq, Eq)]
pub enum ThreadReply {
    /// Nothing was waiting.
    Empty,
    /// The worker is gone.
    Disconnected,
    Message(DBUiMessageFromThread),
}

/// A control of the panel.
#[derive(Debug, Clone, Copy, PartialEq, Eq, Structural)]
pub enum PanelButton {
    KillInstance,
    SpinUpInstance,
    HealthCheck,
    FlushStdout,
}

/// The state the panel keeps between frames.
#[derive(Debug)]
pub struct DBSectionState {
    /// Whether the worker has been started (and not found gone since).
    pub thread_started: bool,
    /// Whether the database instance runs.
    pub db_thread_alive: bool,
    /// The last health report, if any.
    pub health_status: Option<bool>,
    /// The last output of the database instance, if any.
    pub db_stdout: Option<String>,
}

/// The controls shown: kill or spin up (as the instance runs or not), the health check
/// while no report is in, and the output flush.
pub open spec fn panel_buttons(alive: bool, health: Option<bool>) -> Seq<PanelButton> {
    let first = if alive {
        PanelButton::KillInstance
    } else {
        PanelButton::SpinUpInstance
    };
    if health is None {
        seq![first, PanelButton::HealthCheck, PanelButton::FlushStdout]
    } else {
        seq![first, PanelButton::FlushStdout]
    }
}

impl DBSectionState {
    /// A panel with no worker, no instance and no reports.
    pub fn new() -> (r: Self)
        ensures
            !r.thread_started,
            !r.db_thread_alive,
            r.health_status is None,
            r.db_stdout is None,
    {
        DBSectionState { thread_started: false, db_thread_alive: false, health_status: None, db_stdout: None }
    }

    /// Marks the worker as started; answers whether it has to be spawned now (it is spawned
    /// only when none runs).
    pub fn start_thread(&mut self) -> (spawn: bool)
        ensures
            spawn == !old(self).thread_started,
            final(self).thread_started,
            final(self).db_thread_alive == old(self).db_thread_alive,
            final(self).health_status == old(self).health_status,
            final(self).db_stdout == old(self).db_stdout,
    {
        if self.thread_started {
            false
        } else {
            self.thread_started = true;
            true
        }
    }

    /// The controls to show, in order.
    pub fn buttons(&self) -> (r: Vec<PanelButton>)
        ensures
            r@ == panel_buttons(self.db_thread_alive, self.health_status),
    {
        let mut out: Vec<PanelButton> = Vec::new();
        if self.db_thread_alive {
            out.push(PanelButton::KillInstance);
        } else {
            out.push(PanelButton::SpinUpInstance);
        }
        if self.health_status.is_none() {
            out.push(PanelButton::HealthCheck);
        }
        out.push(PanelButton::FlushStdout);
        proof {
            assert(out@ =~= panel_buttons(self.db_thread_alive, self.health_status));
        }
        out
    }

    /// The health line, once a report is in: `DB is healthy` or `DB is not healthy`.
    pub fn health_label(&self) -> (r: Option<String>)
        ensures
            match self.health_status {
                None => r is None,
                Some(true) => (r matches Some(s) && s@ == "DB is healthy"@),
                Some(false) => (r matches Some(s) && s@ == "DB is not healthy"@),
            },
    {
        match self.health_status {
            None => None,
            Some(true) => Some(String::from_str("DB is healthy")),
            Some(false) => Some(String::from_str("DB is not healthy")),
        }
    }

    /// Takes in a poll of the worker's replies; replies count only while a worker runs.
    /// A health report or an output replaces the one shown; a vanished worker is forgotten,
    /// so that the next frame starts a new one.
    pub fn on_reply(&mut self, reply: ThreadReply)
        ensures
            final(self).db_thread_alive == old(self).db_thread_alive,
            !old(self).thread_started ==> final(self).thread_started == old(self).thread_started
                && final(self).health_status == old(self).health_status
                && final(self).db_stdout == old(self).db_stdout,
            old(self).thread_started ==> match reply {
                ThreadReply::Empty => final(self).thread_started && final(self).health_status
                    == old(self).health_status && final(self).db_stdout == old(self).db_stdout,
                ThreadReply::Disconnected => !final(self).thread_started && final(self).health_status
                    == old(self).health_status && final(self).db_stdout == old(self).db_stdout,
                ThreadReply::Message(DBUiMessageFromThread::Healthy(h)) => final(self).thread_started
                    && final(self).health_status == Some(h) && final(self).db_stdout == old(
                    self,
                ).db_stdout,
                ThreadReply::Message(DBUiMessageFromThread::StdOut(s)) => final(self).thread_started
                    && final(self).health_status == old(self).health_status && final(self).db_stdout
                    == Some(s),
            },
    {
        if !self.thread_started {
            return;
        }
        match reply {
            ThreadReply::Empty => {},
            ThreadReply::Disconnected => {
                self.thread_started = false;
            },
            ThreadReply::Message(DBUiMessageFromThread::Healthy(h)) => {
                self.health_status = Some(h);
            },
            ThreadReply::Message(DBUiMessageFromThread::StdOut(s)) => {
                self.db_stdout = Some(s);
            },
        }
    }
}

impl PanelButton {
    /// The request a click on the control sends to the worker.
    pub fn message(self) -> (r: DBUiMessageToThread)
        ensures
            r == match self {
                PanelButton::KillInstance => DBUiMessageToThread::Kill,
                PanelButton::SpinUpInstance => DBUiMessageToThread::SpinUp,
                PanelButton::HealthCheck => DBUiMessageToThread::CheckHealth,
                PanelButton::FlushStdout => DBUiMessageToThread::FlushStdout,
            },
    {
        match self {
            PanelButton::KillInstance => DBUiMessageToThread::Kill,
            PanelButton::SpinUpInstance => DBUiMessageToThread::SpinUp,
            PanelButton::HealthCheck => DBUiMessageToThread::CheckHealth,
            PanelButton::FlushStdout => DBUiMessageToThread::FlushStdout,
        }
    }
}

/// What the database worker does with a request from the panel.
#[derive(Debug, Clone, Copy, PartialEq, Eq, Structural)]
pub enum WorkerAction {
    /// Start the database's instance.
    InitDatabase,
    /// Ask the running instance for its health and report it.
    ReportHealth,
    /// Read the instance's output and report it.
    ReportStdout,
    /// Nothing to do: there is no database, or no running instance.
    Nothing,
    /// End the worker.
    Stop,
}

/// The worker's answer to a request, given whether a database is configured and whether its
/// instance runs: spin-up needs a database, health and output need a running instance, and
/// kill ends the worker.
pub fn worker_step(msg: DBUiMessageToThread, db_present: bool, thread_present: bool) -> (r: WorkerAction)
    ensures
        r == match msg {
            DBUiMessageToThread::SpinUp => if db_present {
                WorkerAction::InitDatabase
            } else {
                WorkerAction::Nothing
            },
            DBUiMessageToThread::CheckHealth => if db_present && thread_present {
                WorkerAction::ReportHealth
            } else {
                WorkerAction::Nothing
            },
            DBUiMessageToThread::FlushStdout => if db_present && thread_present {
                WorkerAction::ReportStdout
            } else {
                WorkerAction::Nothing
            },
            DBUiMessageToThread::Kill => WorkerAction::Stop,
        },
{
    match msg {
        DBUiMessageToThread::SpinUp => if db_present {
            WorkerAction::InitDatabase
        } else {
            WorkerAction::Nothing
        },
        DBUiMessageToThread::CheckHealth => if db_present && thread_present {
            WorkerAction::ReportHealth
        } else {
            WorkerAction::Nothing
        },
        DBUiMessageToThread::FlushStdout => if db_present && thread_present {
            WorkerAction::ReportStdout
        } else {
            WorkerAction::Nothing
        },
        DBUiMessageToThread::Kill => WorkerAction::Stop,
    }
}

} // verus!
