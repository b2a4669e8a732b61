use hrc_cli::cli::{
    AskArgs, Command, ContextAction, ContextCommand, CreateArgs, DelegateArgs, DeviceAction,
    DeviceCommand, HerdrAction, HerdrCommand, InboxArgs, InviteAction, InviteCommand, JoinAction,
    JoinCommand, MemberAction, MemberCommand, MessageIdArgs, SendArgs, SyncArgs, ThreadArgs,
    Visibility,
};
use hrc_cli::dispatch::{classify, command_path, milestone, requires_trusted_human, supports_json, Outcome};

fn message(id: &str) -> MessageIdArgs {
    MessageIdArgs { message_id: id.to_owned() }
}

fn create(repo: &str, visibility: Visibility) -> Command {
    Command::Create(CreateArgs { repo: repo.to_owned(), visibility })
}

fn join_action(action: JoinAction) -> Command {
    Command::Join(JoinCommand { invite_code: None, action: Some(action) })
}

fn member(action: MemberAction) -> Command {
    Command::Member(MemberCommand { action })
}

fn device(action: DeviceAction) -> Command {
    Command::Device(DeviceCommand { action })
}

fn invite(action: InviteAction) -> Command {
    Command::Invite(InviteCommand { action })
}

fn context(action: ContextAction) -> Command {
    Command::Context(ContextCommand { action })
}

fn herdr(action: HerdrAction) -> Command {
    Command::Herdr(HerdrCommand { action })
}

fn inbox(pending: bool) -> Command {
    Command::Inbox(InboxArgs { unread: false, pending, metadata_only: false })
}

#[test]
fn trusted_human_commands_are_recognized() {
    let trusted = [
        Command::Review(message("01ABC")),
        Command::Approve(message("01ABC")),
        Command::Rollover,
        create("o/n", Visibility::Public),
        join_action(JoinAction::Approve { id: "req-1".to_owned() }),
        join_action(JoinAction::Reject { id: "req-1".to_owned() }),
        member(MemberAction::Remove { id: "principal-1".to_owned() }),
        device(DeviceAction::Revoke { id: "device-1".to_owned() }),
    ];

    for command in trusted {
        assert!(requires_trusted_human(&command), "{} should require trusted human authorization", command_path(&command));
        assert_eq!(classify(&command), Outcome::AuthorizationRequired);
    }
}

#[test]
fn agent_safe_commands_do_not_require_authorization() {
    let agent_safe = [
        Command::Init,
        Command::Whoami,
        create("o/n", Visibility::Private),
        Command::Channels,
        Command::Status,
        Command::Doctor,
        invite(InviteAction::List),
        join_action(JoinAction::Pending),
        Command::Members,
        device(DeviceAction::List),
        device(DeviceAction::Rotate),
        inbox(true),
        Command::Show(message("01ABC")),
        Command::Thread(ThreadArgs { thread_id: "01ABC".to_owned() }),
    ];

    for command in agent_safe {
        assert!(
            !requires_trusted_human(&command),
            "{} should not require trusted human authorization",
            command_path(&command)
        );
    }
}

#[test]
fn create_defaults_to_private() {
    let command = create("owner/channel", Visibility::Private);
    assert!(!requires_trusted_human(&command));
    assert_eq!(command_path(&command), "create");
}

#[test]
fn only_the_trusted_interface_commands_refuse_json() {
    assert!(!supports_json(&Command::Review(message("01ABC"))));
    assert!(!supports_json(&Command::Approve(message("01ABC"))));
    assert!(!supports_json(&context(ContextAction::Preview { id: "ctx-1".to_owned() })));
    assert!(!supports_json(&context(ContextAction::Send {
        recipient: "alice".to_owned(),
        id: "ctx-1".to_owned(),
    })));
    assert!(supports_json(&inbox(false)));
    assert!(supports_json(&join_action(JoinAction::Approve { id: "r".to_owned() })));
}

#[test]
fn command_paths_are_stable_and_distinct() {
    let paths = [
        (
            invite(InviteAction::Create { github_user: "alice".to_owned(), expires: "24h".to_owned() }),
            "invite create",
        ),
        (invite(InviteAction::Revoke { id: "i-1".to_owned() }), "invite revoke"),
        (
            Command::Join(JoinCommand { invite_code: Some("code-1".to_owned()), action: None }),
            "join",
        ),
        (join_action(JoinAction::Pending), "join pending"),
        (member(MemberAction::Remove { id: "p-1".to_owned() }), "member remove"),
        (device(DeviceAction::Rotate), "device rotate"),
        (herdr(HerdrAction::Startup), "herdr startup"),
        (herdr(HerdrAction::Pane { name: "inbox".to_owned() }), "herdr pane"),
        (Command::Sync(SyncArgs { once: true }), "sync"),
    ];

    for (command, expected) in paths {
        assert_eq!(command_path(&command), expected);
    }
}

#[test]
fn every_command_has_a_roadmap_milestone() {
    let commands = [
        Command::Init,
        Command::Send(SendArgs {
            recipient: "alice".to_owned(),
            message: "hello".to_owned(),
            expires: None,
        }),
        herdr(HerdrAction::Event),
        Command::Delegate(DelegateArgs {
            recipient: "alice".to_owned(),
            description: String::new(),
            title: "t".to_owned(),
            criteria: Vec::new(),
            context: None,
            due: None,
        }),
    ];

    for command in commands {
        let Outcome::Unimplemented { milestone } = classify(&command) else {
            panic!("{} should be unimplemented", command_path(&command));
        };
        assert!(milestone.starts_with('M'), "unexpected milestone {milestone}");
    }
}

#[test]
fn a_milestone_is_what_classification_reports() {
    let command = Command::Ask(AskArgs {
        recipient: "alice/builder".to_owned(),
        question: "ready?".to_owned(),
        expires: Some("1h".to_owned()),
    });
    assert_eq!(classify(&command), Outcome::Unimplemented { milestone: milestone(&command) });
}

#[test]
fn naming_a_member_is_not_a_boundary_operation() {
    let command = member(MemberAction::Name {
        id: "p-1".to_owned(),
        display_name: Some("Alice".to_owned()),
        clear: false,
    });
    assert!(!requires_trusted_human(&command));
    assert_eq!(command_path(&command), "member name");
}
