//! One-shot provider commands (`list`, `close`, `activate`, `input`): the
//! command line to run and the reading of its outcome. Running the process
//! is the application's part.

use vstd::prelude::*;

use crate::paths::views;
use crate::text::{decimal, decimal_seq, string_from_str, trim, chars_of, trim_chars, string_of};

use super::provider::ProviderSpec;

verus! {

#[derive(Debug, Clone, PartialEq, Eq)]
pub enum CommandError {
    /// Provider command not configured.
    NoCommand,
    /// Failed to spawn the provider command (system message).
    Spawn(String),
    /// Failed to read the provider command output (system message).
    Io(String),
    /// The provider command exited unsuccessfully.
    Status { status: String, stderr: String },
}

/// A program and its arguments.
#[derive(Debug, Clone, PartialEq, Eq)]
pub struct CommandLine {
    pub program: String,
    pub args: Vec<String>,
}

/// The `--socket <path>` arguments that precede every subcommand.
pub open spec fn socket_args(socket: Option<String>) -> Seq<Seq<char>> {
    match socket {
        Some(s) => seq!["--socket"@, s@],
        None => Seq::empty(),
    }
}

/// The command line for `args`: the provider's program with the socket
/// flag (if any) before `args`; refused when no program is configured.
pub open spec fn command_line_is(
    r: Result<CommandLine, CommandError>,
    spec: ProviderSpec,
    args: Seq<Seq<char>>,
) -> bool {
    match spec.command {
        None => r == Err::<CommandLine, CommandError>(CommandError::NoCommand),
        Some(p) => r is Ok && r->Ok_0.program == p && views(r->Ok_0.args@) == socket_args(
            spec.socket,
        ) + args,
    }
}

/// Build the command line that runs `[provider].command` with the given
/// subcommand args (e.g. `["list"]`, `["close", "1"]`).
pub fn run_command(spec: &ProviderSpec, args: Vec<String>) -> (r: Result<CommandLine, CommandError>)
    ensures
        command_line_is(r, *spec, views(args@)),
{
    let program = match &spec.command {
        Some(p) => p.clone(),
        None => return Err(CommandError::NoCommand),
    };
    let mut all: Vec<String> = Vec::new();
    match &spec.socket {
        Some(s) => {
            all.push(string_from_str("--socket"));
            all.push(s.clone());
        },
        None => {},
    }
    let ghost head = all@;
    let mut rest = args;
    all.append(&mut rest);
    assert(views(all@) =~= views(head) + views(args@));
    assert(views(head) =~= socket_args(spec.socket));
    Ok(CommandLine { program, args: all })
}

/// `close <id>`.
pub fn close(spec: &ProviderSpec, id: u32) -> (r: Result<CommandLine, CommandError>)
    ensures
        command_line_is(r, *spec, seq!["close"@, decimal_seq(id as nat)]),
{
    let mut args: Vec<String> = Vec::new();
    args.push(string_from_str("close"));
    args.push(decimal(id));
    assert(views(args@) =~= seq!["close"@, decimal_seq(id as nat)]);
    run_command(spec, args)
}

/// `activate <id> [key]`.
pub fn activate(spec: &ProviderSpec, id: u32, key: Option<&str>) -> (r: Result<
    CommandLine,
    CommandError,
>)
    ensures
        command_line_is(
            r,
            *spec,
            match key {
                Some(k) => seq!["activate"@, decimal_seq(id as nat), k@],
                None => seq!["activate"@, decimal_seq(id as nat)],
            },
        ),
{
    let mut args: Vec<String> = Vec::new();
    args.push(string_from_str("activate"));
    args.push(decimal(id));
    match key {
        Some(k) => {
            args.push(string_from_str(k));
        },
        None => {},
    }
    assert(views(args@) =~= match key {
        Some(k) => seq!["activate"@, decimal_seq(id as nat), k@],
        None => seq!["activate"@, decimal_seq(id as nat)],
    });
    run_command(spec, args)
}

/// `input <id> <event_kind>`.
pub fn input(spec: &ProviderSpec, id: u32, event_kind: &str) -> (r: Result<
    CommandLine,
    CommandError,
>)
    ensures
        command_line_is(r, *spec, seq!["input"@, decimal_seq(id as nat), event_kind@]),
{
    let mut args: Vec<String> = Vec::new();
    args.push(string_from_str("input"));
    args.push(decimal(id));
    args.push(string_from_str(event_kind));
    assert(views(args@) =~= seq!["input"@, decimal_seq(id as nat), event_kind@]);
    run_command(spec, args)
}

/// Read a finished command: on success its stdout (which must be UTF-8),
/// otherwise a `Status` error carrying the exit status and the trimmed stderr.
pub fn check_output(
    success: bool,
    stdout: Result<String, String>,
    stderr: &str,
    status: String,
) -> (r: Result<String, CommandError>)
    ensures
        success ==> match stdout {
            Ok(s) => r == Ok::<String, CommandError>(s),
            Err(m) => r == Err::<String, CommandError>(CommandError::Io(m)),
        },
        !success ==> r is Err && r->Err_0 is Status && r->Err_0->status == status
            && r->Err_0->stderr@ == trim(stderr@),
{
    if success {
        match stdout {
            Ok(s) => Ok(s),
            Err(m) => Err(CommandError::Io(m)),
        }
    } else {
        let t = trim_chars(&chars_of(stderr));
        Err(CommandError::Status { status, stderr: string_of(&t) })
    }
}

} // verus!
