use hrc_cli::paths::{default_home, Context, Paths, Platform, PASSPHRASE_VARIABLE};
use hrc_cli::error::CliError;

#[test]
fn an_explicit_home_is_used_verbatim() {
    let paths = Paths::at("/tmp/example");

    assert_eq!(paths.home(), "/tmp/example");
    assert_eq!(paths.database(), "/tmp/example/state.sqlite");
    assert_eq!(paths.keys(), "/tmp/example/keys");
}

#[test]
fn a_relative_xdg_value_is_ignored() {
    assert_eq!(
        default_home(&Platform::Other, None, Some(("relative/path", false)), Some("/home/u")),
        Some("/home/u/.local/share/hrc".to_owned())
    );
    assert_eq!(
        default_home(&Platform::Other, None, Some(("/xdg", true)), Some("/home/u")),
        Some("/xdg/hrc".to_owned())
    );
}

#[test]
fn each_platform_has_its_convention() {
    assert_eq!(
        default_home(&Platform::MacOs, None, None, Some("/Users/u")),
        Some("/Users/u/Library/Application Support/hrc".to_owned())
    );
    assert_eq!(default_home(&Platform::Other, None, None, None), None);
}

#[test]
fn an_empty_hrc_home_is_refused() {
    assert!(matches!(Paths::resolve(Some(""), None), Err(CliError::NoStateDirectory)));
    assert_eq!(Paths::resolve(Some("/x"), Some("/d".to_owned())).unwrap().home(), "/x");
    assert_eq!(Paths::resolve(None, Some("/d".to_owned())).unwrap().home(), "/d");
    assert!(matches!(Paths::resolve(None, None), Err(CliError::NoStateDirectory)));
}

#[test]
fn an_empty_passphrase_counts_as_none() {
    let context = Context::from_environment(Paths::at("/tmp/hrc"), Some(String::new()));
    assert!(context.passphrase.is_none());
    assert!(matches!(context.key_store_passphrase(), Err(CliError::NoPassphrase)));
    let unlocked = Context::from_environment(Paths::at("/tmp/hrc"), Some("secret".to_owned()));
    assert_eq!(unlocked.key_store_passphrase().unwrap(), "secret");
    assert_eq!(unlocked.paths.home(), "/tmp/hrc");
    assert_eq!(PASSPHRASE_VARIABLE, "HRC_PASSPHRASE");
}
