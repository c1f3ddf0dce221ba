use knowls::config::DatabaseConfig;
use knowls::database::{start_plan, surreal_start_args};
use knowls::ui::db_panel::{worker_step, DBSectionState, DBUiMessageFromThread, DBUiMessageToThread, PanelButton, ThreadReply, WorkerAction};

#[test]
fn a_new_panel_offers_spin_up_and_health_check() {
    let panel = DBSectionState::new();
    assert_eq!(
        panel.buttons(),
        vec![PanelButton::SpinUpInstance, PanelButton::HealthCheck, PanelButton::FlushStdout]
    );
    assert_eq!(panel.health_label(), None);
}

#[test]
fn the_worker_is_started_once() {
    let mut panel = DBSectionState::new();
    assert!(panel.start_thread());
    assert!(!panel.start_thread());
    panel.on_reply(ThreadReply::Disconnected);
    assert!(!panel.thread_started);
    assert!(panel.start_thread());
}

#[test]
fn replies_update_the_panel() {
    let mut panel = DBSectionState::new();
    panel.on_reply(ThreadReply::Message(DBUiMessageFromThread::Healthy(true)));
    assert_eq!(panel.health_status, None);
    panel.start_thread();
    panel.on_reply(ThreadReply::Message(DBUiMessageFromThread::Healthy(false)));
    assert_eq!(panel.health_label(), Some("DB is not healthy".to_string()));
    panel.on_reply(ThreadReply::Message(DBUiMessageFromThread::Healthy(true)));
    assert_eq!(panel.health_label(), Some("DB is healthy".to_string()));
    panel.on_reply(ThreadReply::Message(DBUiMessageFromThread::StdOut("started".to_string())));
    assert_eq!(panel.db_stdout, Some("started".to_string()));
    panel.on_reply(ThreadReply::Empty);
    assert_eq!(panel.db_stdout, Some("started".to_string()));
    panel.db_thread_alive = true;
    assert_eq!(panel.buttons(), vec![PanelButton::KillInstance, PanelButton::FlushStdout]);
}

#[test]
fn buttons_send_their_requests() {
    assert_eq!(PanelButton::KillInstance.message(), DBUiMessageToThread::Kill);
    assert_eq!(PanelButton::SpinUpInstance.message(), DBUiMessageToThread::SpinUp);
    assert_eq!(PanelButton::HealthCheck.message(), DBUiMessageToThread::CheckHealth);
    assert_eq!(PanelButton::FlushStdout.message(), DBUiMessageToThread::FlushStdout);
}

#[test]
fn database_start_command_line() {
    let config = DatabaseConfig::default();
    assert_eq!(
        surreal_start_args(&config, "/home/me/project/data/db.surql"),
        vec!["start", "--log", "debug", "--bind", "127.0.0.1:19917", "rocksdb:///home/me/project/data/db.surql"]
    );
}

#[test]
fn database_starts_only_on_the_local_host() {
    let local = DatabaseConfig::default();
    assert_eq!(
        start_plan(&local, "/d"),
        Some(vec!["start".to_string(), "--log".to_string(), "debug".to_string(), "--bind".to_string(),
            "127.0.0.1:19917".to_string(), "rocksdb:///d".to_string()])
    );
    let mut remote = DatabaseConfig::default();
    remote.host = "db.example.com".to_string();
    assert_eq!(start_plan(&remote, "/d"), None);
}

#[test]
fn worker_actions() {
    assert_eq!(worker_step(DBUiMessageToThread::SpinUp, true, false), WorkerAction::InitDatabase);
    assert_eq!(worker_step(DBUiMessageToThread::SpinUp, false, false), WorkerAction::Nothing);
    assert_eq!(worker_step(DBUiMessageToThread::CheckHealth, true, true), WorkerAction::ReportHealth);
    assert_eq!(worker_step(DBUiMessageToThread::CheckHealth, true, false), WorkerAction::Nothing);
    assert_eq!(worker_step(DBUiMessageToThread::FlushStdout, true, true), WorkerAction::ReportStdout);
    assert_eq!(worker_step(DBUiMessageToThread::FlushStdout, false, true), WorkerAction::Nothing);
    assert_eq!(worker_step(DBUiMessageToThread::Kill, false, false), WorkerAction::Stop);
}
