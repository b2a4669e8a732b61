//! The public `hrc` command tree.
//!
//! The shape of this tree is a product contract: every non-interactive
//! command supports `--json` with stable output shapes and documented exit
//! codes. `hrc review` and `hrc approve` are the deliberate exceptions; they
//! belong to the trusted human surface and never emit machine-readable
//! output. The argument grammar that fills these values in lives with the
//! executable.
use vstd::prelude::*;

verus! {

/// Secure asynchronous communication between independent Herdr sessions.
pub struct Cli {
    /// Emit machine-readable JSON instead of human formatting.
    pub json: bool,
    /// Channel to operate on. Defaults to the configured current channel.
    pub channel: Option<String>,
    /// The subcommand.
    pub command: Command,
}

/// Top-level `hrc` subcommands.
pub enum Command {
    /// Create local principal and device identities.
    Init,
    /// Show the local principal and device fingerprints.
    Whoami,
    /// Create a channel backed by a Git repository.
    Create(CreateArgs),
    /// List configured channels.
    Channels,
    /// Show channel, synchronization, and queue state.
    Status,
    /// Diagnose the local installation and channel health.
    Doctor,
    /// Roll the channel over to a fresh repository.
    Rollover,
    /// Manage expiring, single-use invites.
    Invite(InviteCommand),
    /// Redeem an invite, or review pending join requests.
    Join(JoinCommand),
    /// List channel members.
    Members,
    /// Manage a member.
    Member(MemberCommand),
    /// Manage the devices of the local principal.
    Device(DeviceCommand),
    /// Send a note to a recipient.
    Send(SendArgs),
    /// Ask a question, optionally addressed to a logical endpoint.
    Ask(AskArgs),
    /// Reply in the thread of an existing message.
    Reply(ReplyArgs),
    /// Send a structured delegation request. HRC never executes it.
    Delegate(DelegateArgs),
    /// Report the outcome of a task someone delegated to you (`hrc result`).
    TaskResult(TaskResultArgs),
    /// Build, preview, and send explicit context packages.
    Context(ContextCommand),
    /// List inbox entries.
    Inbox(InboxArgs),
    /// Show one message. Pending bodies stay quarantined.
    Show(MessageIdArgs),
    /// Show a thread. Pending bodies are redacted.
    Thread(ThreadArgs),
    /// Wait for a message to reach a state.
    Wait(WaitArgs),
    /// Review a pending message in the trusted human interface.
    Review(MessageIdArgs),
    /// Complete an approval through the trusted human interface.
    Approve(MessageIdArgs),
    /// Synchronize with the transport.
    Sync(SyncArgs),
    /// Run the background daemon.
    Daemon,
    /// Show the local audit log.
    Audit(AuditArgs),
    /// Herdr plugin entry points dispatched by this same executable.
    Herdr(HerdrCommand),
}

/// Arguments of `hrc create`.
pub struct CreateArgs {
    /// Repository backing the channel, as `owner/name`.
    pub repo: String,
    /// Repository visibility. Public creation requires typed confirmation.
    pub visibility: Visibility,
}

/// Repository visibility for a channel. Private is the default.
#[derive(PartialEq, Eq, Structural)]
pub enum Visibility {
    /// Only invited collaborators can read the ciphertext.
    Private,
    /// Ciphertext, commit timing, and pusher identities are world readable.
    Public,
}

/// `hrc invite ...`
pub struct InviteCommand {
    /// The invite subcommand.
    pub action: InviteAction,
}

/// Invite subcommands.
pub enum InviteAction {
    /// Create an expiring, single-use invite.
    Create {
        /// GitHub user the invite is intended for.
        github_user: String,
        /// Lifetime of the invite, for example `24h`.
        expires: String,
    },
    /// List outstanding invites. Secrets are never printed.
    List,
    /// Revoke an outstanding invite.
    Revoke {
        /// Invite ID to revoke.
        id: String,
    },
}

/// `hrc join <invite-code>` and `hrc join pending|approve|reject`.
pub struct JoinCommand {
    /// Invite code to redeem.
    pub invite_code: Option<String>,
    /// The join subcommand, if any.
    pub action: Option<JoinAction>,
}

/// Join subcommands.
pub enum JoinAction {
    /// List join requests awaiting administrator approval.
    Pending,
    /// Approve a join request after comparing the safety phrase.
    Approve {
        /// Join request ID.
        id: String,
    },
    /// Reject a join request.
    Reject {
        /// Join request ID.
        id: String,
    },
}

/// `hrc member ...`
pub struct MemberCommand {
    /// The member subcommand.
    pub action: MemberAction,
}

/// Member subcommands.
pub enum MemberAction {
    /// Remove a member and advance the roster epoch.
    Remove {
        /// Principal ID of the member.
        id: String,
    },
    /// Record what this installation calls a member. Local only.
    Name {
        /// Principal ID of the member.
        id: String,
        /// The name to show.
        display_name: Option<String>,
        /// Forget the name on record and go back to the principal ID.
        clear: bool,
    },
}

/// `hrc device ...`
pub struct DeviceCommand {
    /// The device subcommand.
    pub action: DeviceAction,
}

/// Device subcommands.
pub enum DeviceAction {
    /// List the devices of the local principal.
    List,
    /// Revoke a device and advance the roster epoch.
    Revoke {
        /// Device ID to revoke.
        id: String,
    },
    /// Rotate the local device keys.
    Rotate,
}

/// Arguments of `hrc send`.
pub struct SendArgs {
    /// Recipient principal.
    pub recipient: String,
    /// Message text.
    pub message: String,
    /// Lifetime after which the message expires, for example `24h`.
    pub expires: Option<String>,
}

/// Arguments of `hrc ask`.
pub struct AskArgs {
    /// Recipient principal, optionally `principal/endpoint`.
    pub recipient: String,
    /// Question text.
    pub question: String,
    /// Lifetime after which the question expires, for example `24h`.
    pub expires: Option<String>,
}

/// Arguments of `hrc reply`.
pub struct ReplyArgs {
    /// Message being replied to.
    pub message_id: String,
    /// Reply text. Read from standard input when omitted.
    pub message: Option<String>,
}

/// Arguments of `hrc delegate`.
pub struct DelegateArgs {
    /// Recipient principal.
    pub recipient: String,
    /// What is being asked for.
    pub description: String,
    /// Short task title.
    pub title: String,
    /// How the requester will judge the result.
    pub criteria: Vec<String>,
    /// A context package already shared, named by its identifier.
    pub context: Option<String>,
    /// When the requester stops waiting, for example `7d`.
    pub due: Option<String>,
}

/// Arguments of `hrc result`.
pub struct TaskResultArgs {
    /// The task being reported on, by the message identifier it arrived as.
    pub task_id: String,
    /// What happened, for the person who asked.
    pub summary: String,
    /// Report that the task failed rather than that a result is ready.
    pub failed: bool,
    /// Commits the result claims exist, so the requester can check them.
    pub commits: Vec<String>,
    /// A context package already shared, named by its identifier.
    pub context: Option<String>,
}

/// `hrc context ...`
pub struct ContextCommand {
    /// The context subcommand.
    pub action: ContextAction,
}

/// Context-package commands.
pub enum ContextAction {
    /// Store an explicit context package described by a JSON manifest.
    Draft {
        /// JSON file containing a context package and its selected items.
        manifest: String,
        /// Git repository that owns excerpt paths in the package.
        repository: Option<String>,
    },
    /// Open the trusted human preview for a locally stored context package.
    Preview {
        /// Locally stored context package identifier.
        id: String,
    },
    /// Send a stored context package through the trusted human interface.
    Send {
        /// Recipient principal, optionally `principal/endpoint`.
        recipient: String,
        /// Locally stored context package identifier.
        id: String,
    },
}

/// Arguments of `hrc inbox`.
pub struct InboxArgs {
    /// Show only unread entries.
    pub unread: bool,
    /// Show only entries awaiting a local approval decision.
    pub pending: bool,
    /// Never include bodies, even for approved entries.
    pub metadata_only: bool,
}

/// A single message ID argument.
pub struct MessageIdArgs {
    /// Message ID.
    pub message_id: String,
}

/// Arguments of `hrc thread`.
pub struct ThreadArgs {
    /// Thread ID.
    pub thread_id: String,
}

/// Arguments of `hrc wait`.
pub struct WaitArgs {
    /// Message ID to watch.
    pub message_id: String,
    /// State to wait for, for example `delivered`.
    pub until: Option<String>,
    /// Give up after this duration, for example `5m`.
    pub timeout: Option<String>,
}

/// Arguments of `hrc sync`.
pub struct SyncArgs {
    /// Run one synchronization pass instead of staying resident.
    pub once: bool,
}

/// Arguments of `hrc audit`.
pub struct AuditArgs {
    /// Only show records at or after this RFC 3339 time.
    pub since: Option<String>,
}

/// `hrc herdr ...`
pub struct HerdrCommand {
    /// The Herdr entry point.
    pub action: HerdrAction,
}

/// Herdr integration entry points.
pub enum HerdrAction {
    /// Startup entry point registered in the Herdr manifest.
    Startup,
    /// Run a named Herdr action.
    Action {
        /// Action name, for example `inbox`.
        name: String,
    },
    /// Handle a Herdr event named in `HERDR_PLUGIN_EVENT`.
    Event,
    /// Print the `herdr-plugin.toml` this build advertises.
    Manifest,
    /// Render a named Herdr pane.
    Pane {
        /// Pane name, for example `inbox`.
        name: String,
    },
}

} // verus!
