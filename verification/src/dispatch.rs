//! Classification of a parsed command into an outcome.
//!
//! Every command resolves to one of two outcomes before anything runs: it is
//! still unimplemented, or it crosses the human authorization boundary and
//! can never be completed by a non-interactive caller. Keeping the
//! classification in one place means the boundary is enforced by a single
//! table.
use vstd::prelude::*;

use crate::cli::{
    Command, ContextAction, ContextCommand, CreateArgs, DeviceAction, DeviceCommand, HerdrAction,
    InviteAction, JoinAction, JoinCommand, MemberAction, MemberCommand, MessageIdArgs, Visibility,
};

verus! {

/// What the process should do with a parsed command.
#[derive(Debug, PartialEq, Eq)]
pub enum Outcome {
    /// The command is part of the published contract but does not act yet.
    Unimplemented {
        /// Milestone that will deliver the behavior.
        milestone: &'static str,
    },
    /// The command must be completed in the trusted local human interface.
    AuthorizationRequired,
}

/// Which command, down to its subcommand, a parsed command is: one number
/// per distinct command path.
pub open spec fn command_kind(c: Command) -> int {
    match c {
        Command::Init => 0,
        Command::Whoami => 1,
        Command::Create(_) => 2,
        Command::Channels => 3,
        Command::Status => 4,
        Command::Doctor => 5,
        Command::Rollover => 6,
        Command::Invite(i) => match i.action {
            InviteAction::Create { .. } => 7,
            InviteAction::List => 8,
            InviteAction::Revoke { .. } => 9,
        },
        Command::Join(j) => match j.action {
            None => 10,
            Some(JoinAction::Pending) => 11,
            Some(JoinAction::Approve { .. }) => 12,
            Some(JoinAction::Reject { .. }) => 13,
        },
        Command::Members => 14,
        Command::Member(m) => match m.action {
            MemberAction::Remove { .. } => 15,
            MemberAction::Name { .. } => 16,
        },
        Command::Device(d) => match d.action {
            DeviceAction::List => 17,
            DeviceAction::Revoke { .. } => 18,
            DeviceAction::Rotate => 19,
        },
        Command::Send(_) => 20,
        Command::Ask(_) => 21,
        Command::Reply(_) => 22,
        Command::Delegate(_) => 23,
        Command::TaskResult(_) => 24,
        Command::Context(c) => match c.action {
            ContextAction::Draft { .. } => 25,
            ContextAction::Preview { .. } => 26,
            ContextAction::Send { .. } => 27,
        },
        Command::Inbox(_) => 28,
        Command::Show(_) => 29,
        Command::Thread(_) => 30,
        Command::Wait(_) => 31,
        Command::Review(_) => 32,
        Command::Approve(_) => 33,
        Command::Sync(_) => 34,
        Command::Daemon => 35,
        Command::Audit(_) => 36,
        Command::Herdr(h) => match h.action {
            HerdrAction::Startup => 37,
            HerdrAction::Action { .. } => 38,
            HerdrAction::Event => 39,
            HerdrAction::Manifest => 40,
            HerdrAction::Pane { .. } => 41,
        },
    }
}

/// Whether a command may only be completed by a human in the trusted
/// interface.
pub open spec fn is_trusted_human_command(c: Command) -> bool {
    match c {
        Command::Review(_) | Command::Approve(_) | Command::Rollover => true,
        Command::Context(context) => !(context.action is Draft),
        Command::Create(args) => args.visibility == Visibility::Public,
        Command::Join(join) => match join.action {
            Some(JoinAction::Approve { .. }) | Some(JoinAction::Reject { .. }) => true,
            _ => false,
        },
        Command::Member(member) => member.action is Remove,
        Command::Device(device) => device.action is Revoke,
        _ => false,
    }
}

/// Whether a command may emit machine-readable output.
pub open spec fn is_json_capable(c: Command) -> bool {
    match c {
        Command::Invite(invite) => !(invite.action is Create),
        Command::Review(_) | Command::Approve(_) => false,
        Command::Context(context) => context.action is Draft,
        _ => true,
    }
}

/// The roadmap milestone that delivers a command.
pub open spec fn milestone_of(c: Command) -> Seq<char> {
    match c {
        Command::Init
        | Command::Whoami
        | Command::Create(_)
        | Command::Channels
        | Command::Invite(_)
        | Command::Join(_)
        | Command::Members
        | Command::Member(_)
        | Command::Device(_) => "M1"@,
        Command::Status
        | Command::Doctor
        | Command::Send(_)
        | Command::Ask(_)
        | Command::Reply(_)
        | Command::Inbox(_)
        | Command::Show(_)
        | Command::Thread(_)
        | Command::Wait(_)
        | Command::Sync(_)
        | Command::Daemon
        | Command::Audit(_) => "M2"@,
        Command::Review(_) | Command::Approve(_) | Command::Herdr(_) => "M3"@,
        Command::Delegate(_) | Command::TaskResult(_) | Command::Rollover | Command::Context(_) => "M4"@,
    }
}

/// The stable dotted path of each kind of command.
pub open spec fn path_of_kind(k: int) -> Seq<char> {
    if k == 0 {
        "init"@
    } else if k == 1 {
        "whoami"@
    } else if k == 2 {
        "create"@
    } else if k == 3 {
        "channels"@
    } else if k == 4 {
        "status"@
    } else if k == 5 {
        "doctor"@
    } else if k == 6 {
        "rollover"@
    } else if k == 7 {
        "invite create"@
    } else if k == 8 {
        "invite list"@
    } else if k == 9 {
        "invite revoke"@
    } else if k == 10 {
        "join"@
    } else if k == 11 {
        "join pending"@
    } else if k == 12 {
        "join approve"@
    } else if k == 13 {
        "join reject"@
    } else if k == 14 {
        "members"@
    } else if k == 15 {
        "member remove"@
    } else if k == 16 {
        "member name"@
    } else if k == 17 {
        "device list"@
    } else if k == 18 {
        "device revoke"@
    } else if k == 19 {
        "device rotate"@
    } else if k == 20 {
        "send"@
    } else if k == 21 {
        "ask"@
    } else if k == 22 {
        "reply"@
    } else if k == 23 {
        "delegate"@
    } else if k == 24 {
        "result"@
    } else if k == 25 {
        "context draft"@
    } else if k == 26 {
        "context preview"@
    } else if k == 27 {
        "context send"@
    } else if k == 28 {
        "inbox"@
    } else if k == 29 {
        "show"@
    } else if k == 30 {
        "thread"@
    } else if k == 31 {
        "wait"@
    } else if k == 32 {
        "review"@
    } else if k == 33 {
        "approve"@
    } else if k == 34 {
        "sync"@
    } else if k == 35 {
        "daemon"@
    } else if k == 36 {
        "audit"@
    } else if k == 37 {
        "herdr startup"@
    } else if k == 38 {
        "herdr action"@
    } else if k == 39 {
        "herdr event"@
    } else if k == 40 {
        "herdr manifest"@
    } else {
        "herdr pane"@
    }
}

/// Commands that may never be completed by an agent-safe or non-interactive
/// caller.
///
/// `hrc create --visibility public` is included because making a repository
/// public is on the same list.
pub fn requires_trusted_human(command: &Command) -> (r: bool)
    ensures
        r == is_trusted_human_command(*command),
{
    match command {
        Command::Review(_) | Command::Approve(_) | Command::Rollover => true,
        Command::Context(context) => !matches!(context.action, ContextAction::Draft { .. }),
        Command::Create(args) => args.visibility == Visibility::Public,
        Command::Join(join) => matches!(
            join.action,
            Some(JoinAction::Approve { .. }) | Some(JoinAction::Reject { .. })
        ),
        Command::Member(member) => matches!(member.action, MemberAction::Remove { .. }),
        Command::Device(device) => matches!(device.action, DeviceAction::Revoke { .. }),
        _ => false,
    }
}

/// Commands that may emit machine-readable output.
///
/// `hrc review` and `hrc approve` drive the trusted human interface and must
/// not print pending plaintext to standard output. The whole output of
/// `invite create` is a secret, so it has no JSON mode at all rather than a
/// filtered one.
pub fn supports_json(command: &Command) -> (r: bool)
    ensures
        r == is_json_capable(*command),
{
    if let Command::Invite(invite) = command {
        return !matches!(invite.action, InviteAction::Create { .. });
    }
    !matches!(
        command,
        Command::Review(_) | Command::Approve(_) | Command::Context(
            ContextCommand { action: ContextAction::Preview { .. } },
        ) | Command::Context(ContextCommand { action: ContextAction::Send { .. } })
    )
}

/// Resolves a command to its outcome.
pub fn classify(command: &Command) -> (r: Outcome)
    ensures
        is_trusted_human_command(*command) ==> r == Outcome::AuthorizationRequired,
        !is_trusted_human_command(*command) ==> (r matches Outcome::Unimplemented { milestone }
            && milestone@ == milestone_of(*command)),
{
    if requires_trusted_human(command) {
        return Outcome::AuthorizationRequired;
    }
    Outcome::Unimplemented { milestone: milestone(command) }
}

/// The roadmap milestone that delivers a command.
///
/// `result` is delivered with `delegate`, whose task it reports on.
pub fn milestone(command: &Command) -> (r: &'static str)
    ensures
        r@ == milestone_of(*command),
{
    match command {
        Command::Init
        | Command::Whoami
        | Command::Create(_)
        | Command::Channels
        | Command::Invite(_)
        | Command::Join(_)
        | Command::Members
        | Command::Member(_)
        | Command::Device(_) => "M1",
        Command::Status
        | Command::Doctor
        | Command::Send(_)
        | Command::Ask(_)
        | Command::Reply(_)
        | Command::Inbox(_)
        | Command::Show(_)
        | Command::Thread(_)
        | Command::Wait(_)
        | Command::Sync(_)
        | Command::Daemon
        | Command::Audit(_) => "M2",
        Command::Review(_) | Command::Approve(_) | Command::Herdr(_) => "M3",
        Command::Delegate(_) | Command::TaskResult(_) | Command::Rollover => "M4",
        Command::Context(_) => "M4",
    }
}

/// A stable dotted path naming the command, used in messages and JSON.
///
/// Every command has one, including those whose paths the command tree
/// alone fixes: `result` is the name the command is invoked by, and
/// `member name` and `herdr manifest` are the word the subcommand is
/// invoked by after its group, as for every other subcommand.
pub fn command_path(command: &Command) -> (r: String)
    ensures
        r@ == path_of_kind(command_kind(*command)),
{
    let p: &str = match command {
        Command::Init => "init",
        Command::Whoami => "whoami",
        Command::Create(_) => "create",
        Command::Channels => "channels",
        Command::Status => "status",
        Command::Doctor => "doctor",
        Command::Rollover => "rollover",
        Command::Invite(invite) => match invite.action {
            InviteAction::Create { .. } => "invite create",
            InviteAction::List => "invite list",
            InviteAction::Revoke { .. } => "invite revoke",
        },
        Command::Join(join) => match join.action {
            Some(JoinAction::Pending) => "join pending",
            Some(JoinAction::Approve { .. }) => "join approve",
            Some(JoinAction::Reject { .. }) => "join reject",
            None => "join",
        },
        Command::Members => "members",
        Command::Member(member) => match member.action {
            MemberAction::Remove { .. } => "member remove",
            MemberAction::Name { .. } => "member name",
        },
        Command::Device(device) => match device.action {
            DeviceAction::List => "device list",
            DeviceAction::Revoke { .. } => "device revoke",
            DeviceAction::Rotate => "device rotate",
        },
        Command::Send(_) => "send",
        Command::Ask(_) => "ask",
        Command::Reply(_) => "reply",
        Command::Delegate(_) => "delegate",
        Command::TaskResult(_) => "result",
        Command::Context(context) => match context.action {
            ContextAction::Draft { .. } => "context draft",
            ContextAction::Preview { .. } => "context preview",
            ContextAction::Send { .. } => "context send",
        },
        Command::Inbox(_) => "inbox",
        Command::Show(_) => "show",
        Command::Thread(_) => "thread",
        Command::Wait(_) => "wait",
        Command::Review(_) => "review",
        Command::Approve(_) => "approve",
        Command::Sync(_) => "sync",
        Command::Daemon => "daemon",
        Command::Audit(_) => "audit",
        Command::Herdr(herdr) => match herdr.action {
            HerdrAction::Startup => "herdr startup",
            HerdrAction::Action { .. } => "herdr action",
            HerdrAction::Event => "herdr event",
            HerdrAction::Manifest => "herdr manifest",
            HerdrAction::Pane { .. } => "herdr pane",
        },
    };
    p.to_owned()
}

/// Every command is delivered by one of the four roadmap milestones.
pub proof fn law_every_command_has_a_milestone(c: Command)
    ensures
        milestone_of(c) == "M1"@ || milestone_of(c) == "M2"@ || milestone_of(c) == "M3"@
            || milestone_of(c) == "M4"@,
        milestone_of(c).len() == 2,
        milestone_of(c)[0] == 'M',
{
    reveal_strlit("M1");
    reveal_strlit("M2");
    reveal_strlit("M3");
    reveal_strlit("M4");
}

/// Command paths are stable and distinct: two commands share a path exactly
/// when they are the same command down to the subcommand.
pub proof fn law_command_paths_are_distinct(a: Command, b: Command)
    ensures
        0 <= command_kind(a) <= 41,
        path_of_kind(command_kind(a)) == path_of_kind(command_kind(b)) <==> command_kind(a)
            == command_kind(b),
{
    if command_kind(a) != command_kind(b) {
        lemma_paths_distinct(command_kind(a), command_kind(b));
    }
}

proof fn lemma_paths_distinct(ka: int, kb: int)
    requires
        0 <= ka <= 41,
        0 <= kb <= 41,
        ka != kb,
    ensures
        path_of_kind(ka) != path_of_kind(kb),
{
    reveal_strlit("init");
    reveal_strlit("whoami");
    reveal_strlit("create");
    reveal_strlit("channels");
    reveal_strlit("status");
    reveal_strlit("doctor");
    reveal_strlit("rollover");
    reveal_strlit("invite create");
    reveal_strlit("invite list");
    reveal_strlit("invite revoke");
    reveal_strlit("join");
    reveal_strlit("join pending");
    reveal_strlit("join approve");
    reveal_strlit("join reject");
    reveal_strlit("members");
    reveal_strlit("member remove");
    reveal_strlit("member name");
    reveal_strlit("device list");
    reveal_strlit("device revoke");
    reveal_strlit("device rotate");
    reveal_strlit("send");
    reveal_strlit("ask");
    reveal_strlit("reply");
    reveal_strlit("delegate");
    reveal_strlit("result");
    reveal_strlit("context draft");
    reveal_strlit("context preview");
    reveal_strlit("context send");
    reveal_strlit("inbox");
    reveal_strlit("show");
    reveal_strlit("thread");
    reveal_strlit("wait");
    reveal_strlit("review");
    reveal_strlit("approve");
    reveal_strlit("sync");
    reveal_strlit("daemon");
    reveal_strlit("audit");
    reveal_strlit("herdr startup");
    reveal_strlit("herdr action");
    reveal_strlit("herdr event");
    reveal_strlit("herdr manifest");
    reveal_strlit("herdr pane");
    if path_of_kind(ka) == path_of_kind(kb) {
        let (pa, pb) = (path_of_kind(ka), path_of_kind(kb));
        assert(pa.len() == pb.len());
        assert(pa[0] == pb[0]);
        assert(pa[pa.len() - 1] == pb[pb.len() - 1]);
        if pa.len() > 5 {
            assert(pa[5] == pb[5]);
            assert(pa[pa.len() - 2] == pb[pb.len() - 2]);
        }
        if pa.len() > 3 {
            assert(pa[1] == pb[1]);
            assert(pa[2] == pb[2]);
        }
    }
}

/// The authorization boundary, command by command: reviewing, approving,
/// rolling a channel over, previewing or sending a context package,
/// creating a public channel, approving or rejecting a join, removing a
/// member and revoking a device cross it, whatever their arguments; drafting
/// a context package, creating a private channel, redeeming an invite or
/// listing join requests, naming a member, and listing or rotating devices
/// do not.
pub proof fn law_the_authorization_boundary(
    id: String,
    recipient: String,
    manifest: String,
    repository: Option<String>,
    repo: String,
    invite_code: Option<String>,
    display_name: Option<String>,
    clear: bool,
    message: MessageIdArgs,
)
    ensures
        is_trusted_human_command(
            Command::Context(ContextCommand { action: ContextAction::Preview { id } }),
        ),
        is_trusted_human_command(
            Command::Context(ContextCommand { action: ContextAction::Send { recipient, id } }),
        ),
        !is_trusted_human_command(
            Command::Context(ContextCommand { action: ContextAction::Draft { manifest, repository } }),
        ),
        is_trusted_human_command(Command::Review(message)),
        is_trusted_human_command(Command::Approve(message)),
        is_trusted_human_command(Command::Rollover),
        is_trusted_human_command(
            Command::Create(CreateArgs { repo, visibility: Visibility::Public }),
        ),
        !is_trusted_human_command(
            Command::Create(CreateArgs { repo, visibility: Visibility::Private }),
        ),
        is_trusted_human_command(
            Command::Join(JoinCommand { invite_code, action: Some(JoinAction::Approve { id }) }),
        ),
        is_trusted_human_command(
            Command::Join(JoinCommand { invite_code, action: Some(JoinAction::Reject { id }) }),
        ),
        !is_trusted_human_command(
            Command::Join(JoinCommand { invite_code, action: Some(JoinAction::Pending) }),
        ),
        !is_trusted_human_command(Command::Join(JoinCommand { invite_code, action: None })),
        is_trusted_human_command(
            Command::Member(MemberCommand { action: MemberAction::Remove { id } }),
        ),
        !is_trusted_human_command(
            Command::Member(MemberCommand { action: MemberAction::Name { id, display_name, clear } }),
        ),
        is_trusted_human_command(
            Command::Device(DeviceCommand { action: DeviceAction::Revoke { id } }),
        ),
        !is_trusted_human_command(Command::Device(DeviceCommand { action: DeviceAction::List })),
        !is_trusted_human_command(Command::Device(DeviceCommand { action: DeviceAction::Rotate })),
{
}

} // verus!
