use http_server::OsSignalKind;
use http_server::Server;
use http_server::ServerState;
use http_server::Settings;
use http_server::ShutdownSignal;
use http_server::signal_for;

fn settings(port: &str, buffer_size: usize) -> Settings {
    Settings {
        hostname: "127.0.0.1".to_string(),
        port: port.to_string(),
        buffer_size,
    }
}

#[test]
fn test_server_new() {
    let server = Server::new(settings("0", 1024));
    assert!(matches!(server.state, ServerState::Running));
    assert_eq!(server.settings.hostname, "127.0.0.1");
    assert_eq!(server.settings.buffer_size, 1024);
}

#[test]
fn test_process_shutdown_signal_normal() {
    let mut server = Server::new(settings("0", 1024));
    assert!(server.process_shutdown_signal(Some(ShutdownSignal::NormalExit)));
    assert!(matches!(server.state, ServerState::Stopped(None)));
    assert_eq!(server.exit_code(), 0);
}

#[test]
fn test_process_shutdown_signal_error() {
    let mut server = Server::new(settings("0", 1024));
    assert!(server.process_shutdown_signal(Some(ShutdownSignal::ErrorExit(1))));
    assert!(matches!(server.state, ServerState::Stopped(Some(1))));
}

#[test]
fn test_process_shutdown_signal_reload() {
    let initial_settings = settings("0", 1024);
    let mut server = Server::new(initial_settings);

    assert!(!server.process_shutdown_signal(Some(ShutdownSignal::ReloadConfig)));
    assert!(matches!(server.state, ServerState::Reloading));

    let reloaded_settings = settings("1234", 2048);
    server.reload_server(reloaded_settings.clone());

    assert_eq!(server.settings.port, reloaded_settings.port);
    assert_eq!(server.settings.buffer_size, reloaded_settings.buffer_size);
    assert!(matches!(server.state, ServerState::Running));
}

#[test]
fn error_exit_seven_dictates_code_seven() {
    let mut server = Server::new(settings("0", 1024));
    assert!(server.process_shutdown_signal(Some(ShutdownSignal::ErrorExit(7))));
    assert_eq!(server.exit_code(), 7);
}

#[test]
fn closed_channel_is_normal_exit() {
    let mut server = Server::new(settings("0", 1024));
    assert!(server.process_shutdown_signal(None));
    assert!(matches!(server.state, ServerState::Stopped(None)));
    assert_eq!(server.exit_code(), 0);
}

#[test]
fn os_signals_map_to_shutdown_signals() {
    assert!(matches!(
        signal_for(OsSignalKind::Interrupt),
        ShutdownSignal::NormalExit
    ));
    assert!(matches!(
        signal_for(OsSignalKind::Terminate),
        ShutdownSignal::NormalExit
    ));
    assert!(matches!(
        signal_for(OsSignalKind::Hangup),
        ShutdownSignal::ReloadConfig
    ));
}
