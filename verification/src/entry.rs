//! What the single `hrc` executable does with a parsed command line.
//!
//! The trusted interface commands never produce machine-readable output, so
//! `--json` is refused for them before anything else can be printed. The
//! authorization boundary is checked before anything runs, so a boundary
//! command cannot do work and then be refused.
use vstd::prelude::*;

use crate::cli::{Cli, Command};
use crate::dispatch::{
    is_json_capable, is_trusted_human_command, milestone, milestone_of, requires_trusted_human,
    supports_json,
};
use crate::error::{code_of, exit_code_of, message_of, CliError};
use crate::exit;
use crate::json::{jview, members, members_view, object, push_member, text, Json, JsonView};
use crate::text::{extend_str, string_of};

verus! {

/// Where a parsed command line goes.
#[derive(Debug, PartialEq, Eq)]
pub enum Route {
    /// `--json` was asked of a command that never emits it.
    JsonRefused,
    /// The long-running daemon.
    Daemon,
    /// The command crosses the human authorization boundary.
    AuthorizationRequired,
    /// The command has shipped and runs.
    Run,
    /// The command has no behavior yet.
    NotShipped {
        /// Milestone that delivers it.
        milestone: &'static str,
    },
}

/// The commands whose behavior has shipped.
pub open spec fn is_shipped(c: Command) -> bool {
    match c {
        Command::Init | Command::Whoami | Command::Channels | Command::Status | Command::Doctor
        | Command::Audit(_) => true,
        Command::Sync(args) => args.once,
        _ => false,
    }
}

/// Routes a parsed command line.
pub fn route(cli: &Cli) -> (r: Route)
    ensures
        cli.json && !is_json_capable(cli.command) ==> r == Route::JsonRefused,
        !(cli.json && !is_json_capable(cli.command)) ==> {
            if cli.command is Daemon {
                r == Route::Daemon
            } else if is_trusted_human_command(cli.command) {
                r == Route::AuthorizationRequired
            } else if is_shipped(cli.command) {
                r == Route::Run
            } else {
                r matches Route::NotShipped { milestone } && milestone@ == milestone_of(
                    cli.command,
                )
            }
        },
{
    if cli.json && !supports_json(&cli.command) {
        return Route::JsonRefused;
    }
    if matches!(cli.command, Command::Daemon) {
        return Route::Daemon;
    }
    if requires_trusted_human(&cli.command) {
        return Route::AuthorizationRequired;
    }
    match &cli.command {
        Command::Init | Command::Whoami | Command::Channels | Command::Status | Command::Doctor
        | Command::Audit(_) => Route::Run,
        Command::Sync(args) if args.once => Route::Run,
        other => Route::NotShipped { milestone: milestone(other) },
    }
}

/// A command line crossing the authorization boundary never runs, and the
/// daemon never starts from one.
pub proof fn law_boundary_commands_never_run(cli: Cli)
    requires
        is_trusted_human_command(cli.command),
    ensures
        !(cli.command is Daemon),
        !is_shipped(cli.command),
{
}

/// Why a command did not produce a result.
pub enum Failure {
    /// The command ran and failed.
    Cli(CliError),
    /// The command has no behavior yet.
    NotShipped {
        /// Milestone that delivers it.
        milestone: &'static str,
    },
    /// The command needs the trusted human interface.
    AuthorizationRequired,
}

/// The machine-readable code of a failure.
pub open spec fn failure_code_of(f: Failure) -> Seq<char> {
    match f {
        Failure::Cli(e) => code_of(e),
        Failure::NotShipped { .. } => "unimplemented"@,
        Failure::AuthorizationRequired => "authorization_required"@,
    }
}

/// The exit code of a failure.
pub open spec fn failure_exit_code_of(f: Failure) -> i32 {
    match f {
        Failure::Cli(e) => exit_code_of(e),
        Failure::NotShipped { .. } => exit::UNIMPLEMENTED,
        Failure::AuthorizationRequired => exit::AUTHORIZATION_REQUIRED,
    }
}

/// What a failure says, for a command at `path`.
pub open spec fn failure_message_of(f: Failure, path: Seq<char>) -> Seq<char> {
    match f {
        Failure::Cli(e) => message_of(e),
        Failure::NotShipped { milestone } => "`hrc "@ + path + "` is not implemented yet; it ships in "@
            + milestone@,
        Failure::AuthorizationRequired => "`hrc "@ + path
            + "` crosses the human authorization boundary and must be completed in the trusted local interface"@,
    }
}

impl Failure {
    /// The machine-readable code of this failure.
    pub fn code(&self) -> (r: &'static str)
        ensures
            r@ == failure_code_of(*self),
    {
        match self {
            Failure::Cli(error) => error.code(),
            Failure::NotShipped { .. } => "unimplemented",
            Failure::AuthorizationRequired => "authorization_required",
        }
    }

    /// The documented exit code of this failure.
    pub fn exit_code(&self) -> (r: i32)
        ensures
            r == failure_exit_code_of(*self),
    {
        match self {
            Failure::Cli(error) => error.exit_code(),
            Failure::NotShipped { .. } => exit::UNIMPLEMENTED,
            Failure::AuthorizationRequired => exit::AUTHORIZATION_REQUIRED,
        }
    }

    /// What this failure says, for the command at `path`.
    pub fn message(&self, path: &str) -> (r: String)
        ensures
            r@ == failure_message_of(*self, path@),
    {
        match self {
            Failure::Cli(error) => error.message(),
            Failure::NotShipped { milestone } => {
                let mut out: Vec<char> = Vec::new();
                extend_str(&mut out, "`hrc ");
                extend_str(&mut out, path);
                extend_str(&mut out, "` is not implemented yet; it ships in ");
                extend_str(&mut out, milestone);
                string_of(out.as_slice())
            },
            Failure::AuthorizationRequired => {
                let mut out: Vec<char> = Vec::new();
                extend_str(&mut out, "`hrc ");
                extend_str(&mut out, path);
                extend_str(
                    &mut out,
                    "` crosses the human authorization boundary and must be completed in the trusted local interface",
                );
                string_of(out.as_slice())
            },
        }
    }
}

/// No failure exits as a success; a command without behavior and a refusal
/// at the boundary each have a code of their own.
pub proof fn law_failures_exit_unsuccessfully(f: Failure)
    ensures
        failure_exit_code_of(f) != exit::SUCCESS,
        f is NotShipped ==> failure_exit_code_of(f) == exit::UNIMPLEMENTED,
        f is AuthorizationRequired ==> failure_exit_code_of(f) == exit::AUTHORIZATION_REQUIRED,
{
    if let Failure::Cli(e) = f {
        crate::error::law_failures_never_exit_successfully(e);
    }
}

/// What is printed when `--json` is asked of a trusted interface command.
pub fn json_refusal(path: &str) -> (r: String)
    ensures
        r@ == "error: `hrc "@ + path@
            + "` does not support --json; it runs in the trusted local interface"@,
{
    let mut out: Vec<char> = Vec::new();
    extend_str(&mut out, "error: `hrc ");
    extend_str(&mut out, path);
    extend_str(&mut out, "` does not support --json; it runs in the trusted local interface");
    string_of(out.as_slice())
}

/// The members of an error report in JSON mode.
pub open spec fn error_report_view(
    code: Seq<char>,
    path: Seq<char>,
    message: Seq<char>,
    milestone: Option<Seq<char>>,
) -> Seq<(Seq<char>, JsonView)> {
    let base = seq![
        ("status"@, JsonView::Str("error"@)),
        ("code"@, JsonView::Str(code)),
        ("command"@, JsonView::Str(path)),
        ("message"@, JsonView::Str(message)),
    ];
    match milestone {
        Some(m) => base.push(("milestone"@, JsonView::Str(m))),
        None => base,
    }
}

/// The error report: agents and the Herdr plugin read `status` and `code`
/// rather than parsing prose.
pub fn error_report(code: &str, path: &str, message: &str, milestone: Option<&str>) -> (r: Json)
    ensures
        jview(r) == JsonView::Object(
            error_report_view(
                code@,
                path@,
                message@,
                match milestone {
                    Some(m) => Some(m@),
                    None => None,
                },
            ),
        ),
{
    let mut pairs = members();
    push_member(&mut pairs, "status", text("error"));
    push_member(&mut pairs, "code", text(code));
    push_member(&mut pairs, "command", text(path));
    push_member(&mut pairs, "message", text(message));
    if let Some(m) = milestone {
        push_member(&mut pairs, "milestone", text(m));
    }
    assert(members_view(pairs@) =~= error_report_view(
        code@,
        path@,
        message@,
        match milestone {
            Some(m) => Some(m@),
            None => None,
        },
    ));
    object(pairs)
}

} // verus!
