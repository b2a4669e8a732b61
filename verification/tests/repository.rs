use hrc_cli::repository::canonical_repository;

#[test]
fn the_documented_shorthand_becomes_a_url_git_can_use() {
    assert_eq!(
        canonical_repository("czinegeroland/hrc-test"),
        "https://github.com/czinegeroland/hrc-test.git"
    );
    assert_eq!(
        canonical_repository("  owner/name  "),
        "https://github.com/owner/name.git"
    );
    assert_eq!(
        canonical_repository("owner/name.git"),
        "https://github.com/owner/name.git"
    );
}

#[test]
fn anything_already_addressable_is_left_alone() {
    for locator in [
        "https://github.com/owner/name.git",
        "https://gitlab.com/owner/name.git",
        "ssh://git@github.com/owner/name.git",
        "git@github.com:owner/name.git",
    ] {
        assert_eq!(canonical_repository(locator), locator);
    }
}

#[test]
fn a_local_repository_is_not_rewritten_into_a_github_url() {
    for locator in [
        "/tmp/channel.git",
        "./channel.git",
        "../channel.git",
        "~/channels/one.git",
        "C:\\channels\\one.git",
        "\\\\server\\share\\one.git",
    ] {
        assert_eq!(canonical_repository(locator), locator);
    }
}

#[test]
fn something_that_is_not_the_shorthand_is_passed_through() {
    for locator in ["owner", "owner/name/extra", "owner/", "/name"] {
        assert_eq!(canonical_repository(locator), locator);
    }
}

#[test]
fn canonicalizing_twice_changes_nothing_more() {
    for repo in ["owner/name", " a/b.git ", "/tmp/x.git", "owner"] {
        let once = canonical_repository(repo);
        assert_eq!(canonical_repository(&once), once);
    }
}
