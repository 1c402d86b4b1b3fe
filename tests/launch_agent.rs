use external_app_sync::config::Config;
use external_app_sync::launch_agent::LaunchAgent;

#[test]
fn plist_path_is_under_home() {
    let agent = LaunchAgent::with_home("/Users/kim".to_string(), "/opt/sync/daemon".to_string());
    assert_eq!(
        agent.plist_path(),
        "/Users/kim/Library/LaunchAgents/com.external-app-sync.daemon.plist"
    );
    assert_eq!(agent.executable_path(), "/opt/sync/daemon");
}

#[test]
fn log_paths_are_under_home() {
    let agent = LaunchAgent::with_home("/Users/kim".to_string(), "/opt/sync/daemon".to_string());
    assert_eq!(
        agent.stdout_log_path(),
        "/Users/kim/Library/Logs/com.external-app-sync.daemon.out"
    );
    assert_eq!(
        agent.stderr_log_path(),
        "/Users/kim/Library/Logs/com.external-app-sync.daemon.err"
    );
}

#[test]
fn plist_names_program_and_logs() {
    let agent = LaunchAgent::with_home("/Users/kim".to_string(), "/opt/sync/daemon".to_string());
    let text = agent.plist_contents();
    let expected = "<?xml version=\"1.0\" encoding=\"UTF-8\"?>
<!DOCTYPE plist PUBLIC \"-//Apple//DTD PLIST 1.0//EN\" \"http://www.apple.com/DTDs/PropertyList-1.0.dtd\">
<plist version=\"1.0\">
<dict>
    <key>Label</key>
    <string>com.external-app-sync.daemon</string>
    <key>ProgramArguments</key>
    <array>
        <string>/opt/sync/daemon</string>
    </array>
    <key>KeepAlive</key>
    <true/>
    <key>RunAtLoad</key>
    <true/>
    <key>StandardErrorPath</key>
    <string>/Users/kim/Library/Logs/com.external-app-sync.daemon.err</string>
    <key>StandardOutPath</key>
    <string>/Users/kim/Library/Logs/com.external-app-sync.daemon.out</string>
</dict>
</plist>";
    assert_eq!(text, expected);
}

#[test]
fn launchctl_arguments() {
    let agent = LaunchAgent::with_home("/home/kim/".to_string(), "d".to_string());
    let p = "/home/kim/Library/LaunchAgents/com.external-app-sync.daemon.plist".to_string();
    assert_eq!(agent.load_args(), vec!["load".to_string(), "-w".to_string(), p.clone()]);
    assert_eq!(agent.unload_args(), vec!["unload".to_string(), "-w".to_string(), p]);
}

#[test]
fn new_keeps_executable_path() {
    if let Some(agent) = LaunchAgent::new("/opt/sync/daemon".to_string()) {
        assert_eq!(agent.executable_path(), "/opt/sync/daemon");
        assert!(agent.plist_path().ends_with("/Library/LaunchAgents/com.external-app-sync.daemon.plist"));
    }
}

#[test]
fn config_holds_its_fields() {
    let c = Config { external_apps_path: "/Volumes/Ext".to_string(), notify_on_disconnect: true };
    assert_eq!(c.external_apps_path, "/Volumes/Ext");
    assert!(c.notify_on_disconnect);
}
