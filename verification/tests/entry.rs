use hrc_cli::cli::{AuditArgs, Cli, Command, ContextAction, ContextCommand, MessageIdArgs, SyncArgs};
use hrc_cli::entry::{error_report, json_refusal, route, Failure, Route};
use hrc_cli::error::CliError;
use hrc_cli::exit;
use hrc_cli::json::{get, get_str, Json};

fn cli(json: bool, command: Command) -> Cli {
    Cli { json, channel: None, command }
}

#[test]
fn json_is_refused_before_the_boundary_is_reached() {
    assert_eq!(route(&cli(true, Command::Review(MessageIdArgs { message_id: "m".to_owned() }))), Route::JsonRefused);
    assert_eq!(
        route(&cli(false, Command::Review(MessageIdArgs { message_id: "m".to_owned() }))),
        Route::AuthorizationRequired
    );
    assert_eq!(
        route(&cli(true, Command::Context(ContextCommand { action: ContextAction::Send {
            recipient: "a".to_owned(),
            id: "c".to_owned(),
        } }))),
        Route::JsonRefused
    );
}

#[test]
fn shipped_commands_run_and_the_rest_name_their_milestone() {
    assert_eq!(route(&cli(true, Command::Init)), Route::Run);
    assert_eq!(route(&cli(false, Command::Audit(AuditArgs { since: None }))), Route::Run);
    assert_eq!(route(&cli(false, Command::Sync(SyncArgs { once: true }))), Route::Run);
    assert!(matches!(route(&cli(false, Command::Sync(SyncArgs { once: false }))), Route::NotShipped { .. }));
    assert_eq!(route(&cli(false, Command::Daemon)), Route::Daemon);
    assert!(matches!(route(&cli(false, Command::Members)), Route::NotShipped { milestone } if milestone.starts_with('M')));
}

#[test]
fn every_failure_exits_unsuccessfully_with_its_code() {
    let boundary = Failure::AuthorizationRequired;
    assert_eq!(boundary.exit_code(), exit::AUTHORIZATION_REQUIRED);
    assert_eq!(boundary.code(), "authorization_required");
    assert!(boundary.message("review").contains("`hrc review` crosses the human authorization boundary"));
    let later = Failure::NotShipped { milestone: "M4" };
    assert_eq!(later.exit_code(), exit::UNIMPLEMENTED);
    assert_eq!(later.message("members"), "`hrc members` is not implemented yet; it ships in M4");
    let failed = Failure::Cli(CliError::NoChannel);
    assert_eq!(failed.exit_code(), exit::USAGE);
    assert_eq!(failed.code(), "no_channel");
}

#[test]
fn an_error_report_carries_code_and_milestone() {
    let report = error_report("unimplemented", "members", "not yet", Some("M4"));
    assert_eq!(get_str(&report, "code").unwrap(), "unimplemented");
    assert_eq!(get_str(&report, "milestone").unwrap(), "M4");
    let plain = error_report("no_channel", "inbox", "none", None);
    assert!(get(&plain, "milestone").is_none() || matches!(get(&plain, "milestone"), Some(Json::Null)));
    assert!(json_refusal("review").contains("review"));
}
