use sync_copy::app::config::Config;
use sync_copy::app::client_pool::ClientPool;
use sync_copy::app::lifecycle::{fatal_log_entry, finish_shutdown, Lifecycle, Phase, StartupError};
use sync_copy::peer::PeerRegistry;
use sync_copy::tray::{
    tray_click_action, tray_menu_action, TrayAction, MENU_HIDE_WINDOW, MENU_QUIT, MENU_SHOW_WINDOW, TRAY_ID,
    TRAY_QUIT_LOG_PATH, TRAY_QUIT_LOG_TARGET,
};

#[test]
fn phase_initial_is_booting() {
    let lc = Lifecycle::new();
    assert_eq!(lc.phase(), Phase::Booting, "initial phase must be Booting");
}

#[test]
fn phase_transitions_valid() {
    let mut lc = Lifecycle::new();
    assert_eq!(lc.phase(), Phase::Booting);
    assert!(lc.mark_running());
    assert_eq!(lc.phase(), Phase::Running);
    assert!(lc.begin_shutdown());
    assert_eq!(lc.phase(), Phase::Shutting);
    lc.mark_dead();
    assert_eq!(lc.phase(), Phase::Dead);
}

#[test]
fn shutdown_advances_phase_to_dead() {
    let mut lc = Lifecycle::new();
    lc.mark_running();
    assert!(lc.begin_shutdown());
    lc.mark_dead();
    assert_eq!(lc.phase(), Phase::Dead, "phase must be Dead after shutdown");
}

#[test]
fn shutdown_idempotent_reentry() {
    let mut lc = Lifecycle::new();
    lc.mark_running();
    assert!(lc.begin_shutdown());
    lc.mark_dead();
    assert!(!lc.begin_shutdown(), "second shutdown must do nothing (idempotent)");
    assert_eq!(lc.phase(), Phase::Dead);
}

#[test]
fn shutdown_idempotent_when_already_shutting() {
    let mut lc = Lifecycle::new();
    lc.mark_running();
    assert!(lc.begin_shutdown());
    assert!(!lc.begin_shutdown(), "shutdown when already Shutting must do nothing");
    assert_eq!(lc.phase(), Phase::Shutting);
}

#[test]
fn startup_failure_goes_to_dead_and_never_runs() {
    let mut lc = Lifecycle::new();
    lc.startup_failed();
    assert_eq!(lc.phase(), Phase::Dead);
    assert!(!lc.mark_running());
    assert_eq!(lc.phase(), Phase::Dead);
}

#[test]
fn rebuild_allowed_except_while_shutting() {
    let mut lc = Lifecycle::new();
    assert!(lc.allows_rebuild());
    lc.mark_running();
    assert!(lc.allows_rebuild());
    lc.begin_shutdown();
    assert!(!lc.allows_rebuild());
}

#[test]
fn startup_error_labels() {
    let e = StartupError::PortBind("port 5858: address in use".to_string());
    assert_eq!(e.label(), "port bind failed");
    assert_eq!(e.detail(), "port 5858: address in use");
    assert_eq!(StartupError::TracingInit(String::new()).label(), "tracing init failed");
    assert_eq!(StartupError::ConfigLoad(String::new()).label(), "config load failed");
    assert_eq!(StartupError::ClipboardSpawn(String::new()).label(), "clipboard thread spawn failed");
}

#[test]
fn default_config_has_valid_fields() {
    let cfg = Config::with_device_name(Config::default_device_name(None, None));
    assert!(!cfg.device_name.is_empty(), "device_name must not be empty");
    assert!(cfg.listen_port > 0, "listen_port must be > 0");
    assert!(cfg.peer_hint.is_none(), "peer_hint must be None by default");
}

#[test]
fn tray_menu_ids_match_spec() {
    let expected_ids = [MENU_SHOW_WINDOW, MENU_HIDE_WINDOW, MENU_QUIT];
    for id in &expected_ids {
        assert!(!id.is_empty(), "tray menu id must not be empty: {}", id);
    }
    assert_eq!(expected_ids, ["show_window", "hide_window", "quit"]);
    assert_eq!(TRAY_ID, "main-tray");
}

#[test]
fn tray_p0_bypass_warn_fields_match_adr010() {
    let target = TRAY_QUIT_LOG_TARGET;
    let path = TRAY_QUIT_LOG_PATH;
    assert_eq!(target, "lifecycle");
    assert_eq!(path, "tray-p0-bypass");
}

#[test]
fn tray_menu_actions() {
    assert_eq!(tray_menu_action("show_window"), TrayAction::ShowWindow);
    assert_eq!(tray_menu_action("hide_window"), TrayAction::HideWindow);
    assert_eq!(tray_menu_action("quit"), TrayAction::QuitNow);
    assert_eq!(tray_menu_action("Quit"), TrayAction::Ignore);
    assert_eq!(tray_menu_action(""), TrayAction::Ignore);
}

#[test]
fn tray_left_click_toggles_window() {
    assert_eq!(tray_click_action(true, Some(true)), TrayAction::HideWindow);
    assert_eq!(tray_click_action(true, Some(false)), TrayAction::ShowWindow);
    assert_eq!(tray_click_action(true, None), TrayAction::Ignore);
    assert_eq!(tray_click_action(false, Some(true)), TrayAction::Ignore);
}

#[test]
fn fatal_log_entry_format() {
    assert_eq!(
        fatal_log_entry(1000000, "port bind failed: os error 48"),
        "[1000000] FATAL: port bind failed: os error 48\n"
    );
    assert_eq!(fatal_log_entry(0, ""), "[0] FATAL: \n");
    assert!(fatal_log_entry(7, "x").contains("FATAL:"));
}

#[test]
fn finish_shutdown_forgets_every_peer_and_client() {
    let mut lc = Lifecycle::new();
    lc.mark_running();
    assert!(lc.begin_shutdown());
    let mut registry = PeerRegistry::new(ClientPool::new());
    registry.insert_client("p", reqwest::Client::builder().no_proxy().build().unwrap());
    registry.approve("p");
    registry.ban("q");
    finish_shutdown(&mut lc, &mut registry);
    assert_eq!(lc.phase(), Phase::Dead);
    assert_eq!(registry.count(), 0);
    assert!(registry.client_pool().is_empty());
    assert!(!registry.is_approved("p"));
    assert!(!registry.is_banned("q"));
}
