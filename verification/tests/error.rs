use hrc_cli::error::CliError;
use hrc_cli::exit;

#[test]
fn codes_and_exit_codes_follow_the_documented_contract() {
    let cases: Vec<(CliError, &str, i32)> = vec![
        (CliError::NoStateDirectory, "no_state_directory", exit::USAGE),
        (CliError::NotInteractive, "authorization_required", exit::AUTHORIZATION_REQUIRED),
        (CliError::Entropy, "entropy_unavailable", exit::FAILURE),
        (CliError::DaemonUnavailable, "daemon_unavailable", exit::FAILURE),
        (CliError::InvalidLifetime { value: "x".to_owned() }, "invalid_lifetime", exit::USAGE),
        (CliError::Ipc("bad".to_owned()), "ipc_error", exit::FAILURE),
        (CliError::LocalDeviceNotInChannel, "device_not_in_channel", exit::FAILURE),
    ];
    for (error, code, exit_code) in cases {
        assert_eq!(error.code(), code);
        assert_eq!(error.exit_code(), exit_code, "{code}");
        assert_ne!(error.exit_code(), exit::SUCCESS);
    }
}

#[test]
fn messages_name_what_went_wrong() {
    assert_eq!(
        CliError::NoSuchMessage { message_id: "m1".to_owned() }.message(),
        "no message m1 in this channel"
    );
    assert_eq!(
        CliError::Io { action: "read the manifest".to_owned(), detail: "not found".to_owned() }.message(),
        "could not read the manifest: not found"
    );
    assert_eq!(
        CliError::InviteChannelMismatch { expected: "a".to_owned(), found: "b".to_owned() }.message(),
        "the invite is for channel a, but the repository holds b"
    );
}
