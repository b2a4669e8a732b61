//! Errors surfaced by the command line.
//!
//! Each variant carries the exit code it maps to, so the mapping lives with
//! the error rather than in a match at the call site that could drift from
//! the documented contract.
//!
//! Failures reported by the storage, key, synchronization, transport, IPC
//! and protocol layers arrive here as their rendered messages.
use vstd::prelude::*;

use crate::exit;
use crate::text::{extend_str, string_of};

verus! {

/// Something went wrong running a command.
#[derive(Debug)]
pub enum CliError {
    /// No state directory could be determined.
    NoStateDirectory,
    /// The key store passphrase was not supplied.
    NoPassphrase,
    /// This installation already has device keys.
    AlreadyInitialized,
    /// A filesystem operation failed.
    Io {
        /// What was being attempted.
        action: String,
        /// The underlying failure, as reported.
        detail: String,
    },
    /// Local state could not be read or written.
    Storage(String),
    /// A key or cryptographic operation failed.
    Crypto(String),
    /// The synchronization core refused an operation.
    Core(String),
    /// The Git transport failed.
    Git(String),
    /// Local IPC failed.
    Ipc(String),
    /// A protocol object could not be built or validated.
    Protocol(String),
    /// The transport refused an operation.
    Transport(String),
    /// This installation already has local state for that channel.
    ChannelExists {
        /// The channel already registered.
        channel_id: String,
    },
    /// The operating system would not supply randomness.
    Entropy,
    /// This installation has no channel configured.
    NoChannel,
    /// The trusted approval screen was asked for without a human present.
    NotInteractive,
    /// A context send was reached without the preview that authorizes it.
    NoContextAuthorization,
    /// The daemon's trusted interface did not answer.
    DaemonUnavailable,
    /// The confirmation was recorded but the visibility change could not be
    /// made from here.
    PublicationUnavailable {
        /// What went wrong and what the human should do instead.
        reason: String,
    },
    /// A Herdr manifest named an action or pane this build does not have.
    UnknownHerdrTarget {
        /// Whether an action or a pane was named.
        kind: String,
        /// The name the manifest used.
        name: String,
    },
    /// Several channels exist and the command did not say which.
    AmbiguousChannel,
    /// The channel has no published control log to replay.
    ChannelNotPublished {
        /// The channel in question.
        channel_id: String,
    },
    /// This installation's device is not in the channel's roster.
    LocalDeviceNotInChannel,
    /// The invite lapsed before it was redeemed.
    InviteExpired {
        /// When it lapsed.
        expires_at: String,
    },
    /// A lifetime such as `24h` could not be understood.
    InvalidLifetime {
        /// What was supplied.
        value: String,
    },
    /// No message with that identifier is known locally.
    NoSuchMessage {
        /// The message asked about.
        message_id: String,
    },
    /// The invite names a different channel than the repository holds.
    InviteChannelMismatch {
        /// The channel the invite named.
        expected: String,
        /// The channel the repository actually holds.
        found: String,
    },
    /// A context package with file excerpts needs its source repository.
    ContextRepositoryRequired {
        /// The package that cannot be checked.
        package_id: String,
    },
    /// A source file or line range cannot form a safe excerpt.
    InvalidContextSource {
        /// The safe diagnostic; never source bytes.
        reason: String,
    },
}

/// The stable machine-readable code of a failure.
pub open spec fn code_of(e: CliError) -> Seq<char> {
    match e {
        CliError::NoStateDirectory => "no_state_directory"@,
        CliError::NoPassphrase => "no_passphrase"@,
        CliError::AlreadyInitialized => "already_initialized"@,
        CliError::Io { .. } => "io_error"@,
        CliError::Storage(_) => "storage_error"@,
        CliError::Crypto(_) => "crypto_error"@,
        CliError::Core(_) => "core_error"@,
        CliError::Git(_) => "git_error"@,
        CliError::Ipc(_) => "ipc_error"@,
        CliError::Protocol(_) => "protocol_error"@,
        CliError::Transport(_) => "transport_error"@,
        CliError::ChannelExists { .. } => "channel_exists"@,
        CliError::Entropy => "entropy_unavailable"@,
        CliError::NoChannel => "no_channel"@,
        CliError::NotInteractive => "authorization_required"@,
        CliError::DaemonUnavailable => "daemon_unavailable"@,
        CliError::NoContextAuthorization => "no_context_authorization"@,
        CliError::AmbiguousChannel => "ambiguous_channel"@,
        CliError::PublicationUnavailable { .. } => "publication_unavailable"@,
        CliError::UnknownHerdrTarget { .. } => "unknown_herdr_target"@,
        CliError::ChannelNotPublished { .. } => "channel_not_published"@,
        CliError::LocalDeviceNotInChannel => "device_not_in_channel"@,
        CliError::InviteExpired { .. } => "invite_expired"@,
        CliError::InvalidLifetime { .. } => "invalid_lifetime"@,
        CliError::NoSuchMessage { .. } => "no_such_message"@,
        CliError::InviteChannelMismatch { .. } => "invite_channel_mismatch"@,
        CliError::ContextRepositoryRequired { .. } => "context_repository_required"@,
        CliError::InvalidContextSource { .. } => "invalid_context_source"@,
    }
}

/// The documented exit code of a failure.
pub open spec fn exit_code_of(e: CliError) -> i32 {
    match e {
        CliError::NoStateDirectory
        | CliError::NoPassphrase
        | CliError::AlreadyInitialized
        | CliError::ChannelExists { .. }
        | CliError::NoChannel
        | CliError::AmbiguousChannel
        | CliError::InviteExpired { .. }
        | CliError::InvalidLifetime { .. }
        | CliError::NoSuchMessage { .. }
        | CliError::ContextRepositoryRequired { .. }
        | CliError::InvalidContextSource { .. }
        | CliError::UnknownHerdrTarget { .. } => exit::USAGE,
        CliError::NotInteractive => exit::AUTHORIZATION_REQUIRED,
        _ => exit::FAILURE,
    }
}

/// What a failure says to a person.
pub open spec fn message_of(e: CliError) -> Seq<char> {
    match e {
        CliError::NoStateDirectory => "could not determine where to keep local state; set HRC_HOME to a directory"@,
        CliError::NoPassphrase => "no key store passphrase; set HRC_PASSPHRASE for non-interactive use"@,
        CliError::AlreadyInitialized => "this installation is already initialized; remove its key first to start over"@,
        CliError::Io { action, detail } => "could not "@ + action@ + ": "@ + detail@,
        CliError::Storage(m) => m@,
        CliError::Crypto(m) => m@,
        CliError::Core(m) => m@,
        CliError::Git(m) => m@,
        CliError::Ipc(m) => m@,
        CliError::Protocol(m) => m@,
        CliError::Transport(m) => m@,
        CliError::ChannelExists { channel_id } => "channel "@ + channel_id@ + " already exists locally"@,
        CliError::Entropy => "could not obtain randomness from the operating system"@,
        CliError::NoChannel => "no channel is configured; run `hrc create` or `hrc join` first"@,
        CliError::NotInteractive => "this decision needs an interactive terminal; open the matching Herdr pane (`Remote channel review` for messages, `Remote channel join requests` for members), or run the command directly in a terminal"@,
        CliError::NoContextAuthorization => "no context preview authorized this send; preview the package again"@,
        CliError::DaemonUnavailable => "the hrc daemon is not running; start it with `hrc daemon`"@,
        CliError::PublicationUnavailable { reason } => reason@,
        CliError::UnknownHerdrTarget { kind, name } => "`"@ + name@ + "` is not a Herdr "@ + kind@ + " this build provides"@,
        CliError::AmbiguousChannel => "several channels are configured; pass --channel to choose one"@,
        CliError::ChannelNotPublished { channel_id } => "channel "@ + channel_id@ + " has no published control log"@,
        CliError::LocalDeviceNotInChannel => "this device is not a member of the channel"@,
        CliError::InviteExpired { expires_at } => "this invite expired at "@ + expires_at@,
        CliError::InvalidLifetime { value } => "`"@ + value@ + "` is not a lifetime like `30m`, `24h`, or `7d`"@,
        CliError::NoSuchMessage { message_id } => "no message "@ + message_id@ + " in this channel"@,
        CliError::InviteChannelMismatch { expected, found } => "the invite is for channel "@ + expected@ + ", but the repository holds "@ + found@,
        CliError::ContextRepositoryRequired { package_id } => "context package "@ + package_id@ + " has excerpts but no repository was supplied"@,
        CliError::InvalidContextSource { reason } => "cannot use this context source: "@ + reason@,
    }
}

impl CliError {
    /// What this failure says to a person.
    pub fn message(&self) -> (r: String)
        ensures
            r@ == message_of(*self),
    {
        let mut out: Vec<char> = Vec::new();
        match self {
            CliError::NoStateDirectory => {
                extend_str(&mut out, "could not determine where to keep local state; set HRC_HOME to a directory");
            },
            CliError::NoPassphrase => {
                extend_str(&mut out, "no key store passphrase; set HRC_PASSPHRASE for non-interactive use");
            },
            CliError::AlreadyInitialized => {
                extend_str(&mut out, "this installation is already initialized; remove its key first to start over");
            },
            CliError::Io { action, detail } => {
                extend_str(&mut out, "could not ");
                extend_str(&mut out, action.as_str());
                extend_str(&mut out, ": ");
                extend_str(&mut out, detail.as_str());
            },
            CliError::Storage(m) => {
                extend_str(&mut out, m.as_str());
            },
            CliError::Crypto(m) => {
                extend_str(&mut out, m.as_str());
            },
            CliError::Core(m) => {
                extend_str(&mut out, m.as_str());
            },
            CliError::Git(m) => {
                extend_str(&mut out, m.as_str());
            },
            CliError::Ipc(m) => {
                extend_str(&mut out, m.as_str());
            },
            CliError::Protocol(m) => {
                extend_str(&mut out, m.as_str());
            },
            CliError::Transport(m) => {
                extend_str(&mut out, m.as_str());
            },
            CliError::ChannelExists { channel_id } => {
                extend_str(&mut out, "channel ");
                extend_str(&mut out, channel_id.as_str());
                extend_str(&mut out, " already exists locally");
            },
            CliError::Entropy => {
                extend_str(&mut out, "could not obtain randomness from the operating system");
            },
            CliError::NoChannel => {
                extend_str(&mut out, "no channel is configured; run `hrc create` or `hrc join` first");
            },
            CliError::NotInteractive => {
                extend_str(&mut out, "this decision needs an interactive terminal; open the matching Herdr pane (`Remote channel review` for messages, `Remote channel join requests` for members), or run the command directly in a terminal");
            },
            CliError::NoContextAuthorization => {
                extend_str(&mut out, "no context preview authorized this send; preview the package again");
            },
            CliError::DaemonUnavailable => {
                extend_str(&mut out, "the hrc daemon is not running; start it with `hrc daemon`");
            },
            CliError::PublicationUnavailable { reason } => {
                extend_str(&mut out, reason.as_str());
            },
            CliError::UnknownHerdrTarget { kind, name } => {
                extend_str(&mut out, "`");
                extend_str(&mut out, name.as_str());
                extend_str(&mut out, "` is not a Herdr ");
                extend_str(&mut out, kind.as_str());
                extend_str(&mut out, " this build provides");
            },
            CliError::AmbiguousChannel => {
                extend_str(&mut out, "several channels are configured; pass --channel to choose one");
            },
            CliError::ChannelNotPublished { channel_id } => {
                extend_str(&mut out, "channel ");
                extend_str(&mut out, channel_id.as_str());
                extend_str(&mut out, " has no published control log");
            },
            CliError::LocalDeviceNotInChannel => {
                extend_str(&mut out, "this device is not a member of the channel");
            },
            CliError::InviteExpired { expires_at } => {
                extend_str(&mut out, "this invite expired at ");
                extend_str(&mut out, expires_at.as_str());
            },
            CliError::InvalidLifetime { value } => {
                extend_str(&mut out, "`");
                extend_str(&mut out, value.as_str());
                extend_str(&mut out, "` is not a lifetime like `30m`, `24h`, or `7d`");
            },
            CliError::NoSuchMessage { message_id } => {
                extend_str(&mut out, "no message ");
                extend_str(&mut out, message_id.as_str());
                extend_str(&mut out, " in this channel");
            },
            CliError::InviteChannelMismatch { expected, found } => {
                extend_str(&mut out, "the invite is for channel ");
                extend_str(&mut out, expected.as_str());
                extend_str(&mut out, ", but the repository holds ");
                extend_str(&mut out, found.as_str());
            },
            CliError::ContextRepositoryRequired { package_id } => {
                extend_str(&mut out, "context package ");
                extend_str(&mut out, package_id.as_str());
                extend_str(&mut out, " has excerpts but no repository was supplied");
            },
            CliError::InvalidContextSource { reason } => {
                extend_str(&mut out, "cannot use this context source: ");
                extend_str(&mut out, reason.as_str());
            },
        }
        assert(out@ =~= message_of(*self));
        string_of(out.as_slice())
    }

    /// A stable machine-readable code for this failure.
    pub fn code(&self) -> (r: &'static str)
        ensures
            r@ == code_of(*self),
    {
        match self {
            CliError::NoStateDirectory => "no_state_directory",
            CliError::NoPassphrase => "no_passphrase",
            CliError::AlreadyInitialized => "already_initialized",
            CliError::Io { .. } => "io_error",
            CliError::Storage(_) => "storage_error",
            CliError::Crypto(_) => "crypto_error",
            CliError::Core(_) => "core_error",
            CliError::Git(_) => "git_error",
            CliError::Ipc(_) => "ipc_error",
            CliError::Protocol(_) => "protocol_error",
            CliError::Transport(_) => "transport_error",
            CliError::ChannelExists { .. } => "channel_exists",
            CliError::Entropy => "entropy_unavailable",
            CliError::NoChannel => "no_channel",
            // Deliberately the same stable code as the boundary refusal: to
            // a program, "no human here" and "not allowed" mean the same.
            CliError::NotInteractive => "authorization_required",
            CliError::DaemonUnavailable => "daemon_unavailable",
            CliError::NoContextAuthorization => "no_context_authorization",
            CliError::AmbiguousChannel => "ambiguous_channel",
            CliError::PublicationUnavailable { .. } => "publication_unavailable",
            CliError::UnknownHerdrTarget { .. } => "unknown_herdr_target",
            CliError::ChannelNotPublished { .. } => "channel_not_published",
            CliError::LocalDeviceNotInChannel => "device_not_in_channel",
            CliError::InviteExpired { .. } => "invite_expired",
            CliError::InvalidLifetime { .. } => "invalid_lifetime",
            CliError::NoSuchMessage { .. } => "no_such_message",
            CliError::InviteChannelMismatch { .. } => "invite_channel_mismatch",
            CliError::ContextRepositoryRequired { .. } => "context_repository_required",
            CliError::InvalidContextSource { .. } => "invalid_context_source",
        }
    }

    /// The documented exit code for this failure.
    pub fn exit_code(&self) -> (r: i32)
        ensures
            r == exit_code_of(*self),
    {
        match self {
            // A missing passphrase or an uninitialized installation is the
            // user's command being wrong for the current state, not a
            // runtime fault.
            CliError::NoStateDirectory
            | CliError::NoPassphrase
            | CliError::AlreadyInitialized
            | CliError::ChannelExists { .. }
            | CliError::NoChannel
            | CliError::AmbiguousChannel
            | CliError::InviteExpired { .. }
            | CliError::InvalidLifetime { .. }
            | CliError::NoSuchMessage { .. }
            | CliError::ContextRepositoryRequired { .. }
            | CliError::InvalidContextSource { .. }
            | CliError::UnknownHerdrTarget { .. } => exit::USAGE,
            CliError::Io { .. }
            | CliError::Storage(_)
            | CliError::Crypto(_)
            | CliError::Core(_)
            | CliError::Git(_)
            | CliError::Ipc(_)
            | CliError::Protocol(_)
            | CliError::Transport(_)
            | CliError::Entropy
            | CliError::ChannelNotPublished { .. }
            | CliError::LocalDeviceNotInChannel
            | CliError::InviteChannelMismatch { .. }
            | CliError::DaemonUnavailable
            | CliError::NoContextAuthorization
            | CliError::PublicationUnavailable { .. } => exit::FAILURE,
            // To a program this is the authorization boundary refusing, and
            // it must exit like one.
            CliError::NotInteractive => exit::AUTHORIZATION_REQUIRED,
        }
    }
}

/// No failure exits as a success, and every failure exits with one of the
/// three documented failure codes.
pub proof fn law_failures_never_exit_successfully(e: CliError)
    ensures
        exit_code_of(e) != exit::SUCCESS,
        exit_code_of(e) == exit::USAGE || exit_code_of(e) == exit::FAILURE || exit_code_of(e)
            == exit::AUTHORIZATION_REQUIRED,
{
}

/// A missing human is reported exactly as the authorization boundary's
/// refusal: the same code and the same exit code.
pub proof fn law_no_human_is_the_boundary_refusal()
    ensures
        code_of(CliError::NotInteractive) == "authorization_required"@,
        exit_code_of(CliError::NotInteractive) == exit::AUTHORIZATION_REQUIRED,
{
}

/// A failure that is the user's command being wrong for the current state
/// exits with the usage code; a fault while running exits with the failure
/// code; a missing human exits as the authorization boundary does. Stated
/// for every kind of failure, whatever it carries.
pub proof fn law_each_failure_has_its_exit_code(a: String, b: String)
    ensures
        exit_code_of(CliError::NoStateDirectory) == exit::USAGE,
        exit_code_of(CliError::NoPassphrase) == exit::USAGE,
        exit_code_of(CliError::AlreadyInitialized) == exit::USAGE,
        exit_code_of(CliError::ChannelExists { channel_id: a }) == exit::USAGE,
        exit_code_of(CliError::NoChannel) == exit::USAGE,
        exit_code_of(CliError::AmbiguousChannel) == exit::USAGE,
        exit_code_of(CliError::InviteExpired { expires_at: a }) == exit::USAGE,
        exit_code_of(CliError::InvalidLifetime { value: a }) == exit::USAGE,
        exit_code_of(CliError::NoSuchMessage { message_id: a }) == exit::USAGE,
        exit_code_of(CliError::ContextRepositoryRequired { package_id: a }) == exit::USAGE,
        exit_code_of(CliError::InvalidContextSource { reason: a }) == exit::USAGE,
        exit_code_of(CliError::UnknownHerdrTarget { kind: a, name: b }) == exit::USAGE,
        exit_code_of(CliError::Io { action: a, detail: b }) == exit::FAILURE,
        exit_code_of(CliError::Storage(a)) == exit::FAILURE,
        exit_code_of(CliError::Crypto(a)) == exit::FAILURE,
        exit_code_of(CliError::Core(a)) == exit::FAILURE,
        exit_code_of(CliError::Git(a)) == exit::FAILURE,
        exit_code_of(CliError::Ipc(a)) == exit::FAILURE,
        exit_code_of(CliError::Protocol(a)) == exit::FAILURE,
        exit_code_of(CliError::Transport(a)) == exit::FAILURE,
        exit_code_of(CliError::Entropy) == exit::FAILURE,
        exit_code_of(CliError::ChannelNotPublished { channel_id: a }) == exit::FAILURE,
        exit_code_of(CliError::LocalDeviceNotInChannel) == exit::FAILURE,
        exit_code_of(CliError::InviteChannelMismatch { expected: a, found: b }) == exit::FAILURE,
        exit_code_of(CliError::DaemonUnavailable) == exit::FAILURE,
        exit_code_of(CliError::NoContextAuthorization) == exit::FAILURE,
        exit_code_of(CliError::PublicationUnavailable { reason: a }) == exit::FAILURE,
        exit_code_of(CliError::NotInteractive) == exit::AUTHORIZATION_REQUIRED,
        exit::USAGE == 2 && exit::FAILURE == 1 && exit::AUTHORIZATION_REQUIRED == 4,
{
}

} // verus!
