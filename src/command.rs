//! The decisions of the command-line front end: which registry operation a
//! command makes, what `run` launches, and the code the process ends with.
use vstd::prelude::*;

use crate::error::RegistryError;
use crate::profile::{ProfileView, ServerProfile};
use crate::registry::{is_record, listing_of, lookup, removed, saved, views_of, Lookup, Registry};

verus! {

/// The code the process ends with when `run` finds no profile, or when the
/// SSH client ended without a code.
pub const EXIT_FAILURE: i32 = 1;

/// A command of the front end, with its arguments.
#[derive(Debug)]
pub enum Command {
    /// Save a profile under its name, in place of any of that name.
    Register { name: String, user_ip: String, key_path: String },
    /// Open an SSH session to the profile of this name.
    Run { name: String },
    /// Show every profile.
    List,
    /// Remove the profile of this name.
    Remove { name: String },
}

/// What `run` does once the profile is looked up.
#[derive(Debug)]
pub enum RunStep {
    /// Start the SSH client with these arguments, wait for it, and end
    /// with its code.
    Launch { args: Vec<String> },
    /// End at once with this code; no client is started.
    Exit { code: i32 },
}

/// What a command did, for the front end to report.
#[derive(Debug)]
pub enum Outcome {
    /// `register` saved the profile, or failed to.
    Registered(Result<(), RegistryError>),
    /// What `run` does next.
    Run(RunStep),
    /// The profiles that `ls` found, or why it found none.
    Listed(Result<Vec<ServerProfile>, RegistryError>),
    /// `remove` removed the profile, or failed to.
    Removed(Result<(), RegistryError>),
}

/// The arguments handed to the SSH client: the key, then the destination.
pub open spec fn ssh_args(p: ProfileView) -> Seq<Seq<char>> {
    seq!["-i"@, p.key_path, p.user_ip]
}

/// The text of each argument.
pub open spec fn texts_of(args: Seq<String>) -> Seq<Seq<char>> {
    args.map_values(|a: String| a@)
}

/// The arguments handed to the SSH client for profile `p`.
pub fn ssh_arguments(p: &ServerProfile) -> (r: Vec<String>)
    ensures
        texts_of(r@) == ssh_args(p@),
{
    let mut args: Vec<String> = Vec::new();
    args.push("-i".to_owned());
    args.push(p.key_path.clone());
    args.push(p.user_ip.clone());
    assert(texts_of(args@) =~= ssh_args(p@));
    args
}

/// What `run` does with the result of looking the profile up: launch the
/// client when a profile was found, else end with the failure code.
pub fn plan_run(found: Result<Option<ServerProfile>, RegistryError>) -> (r: RunStep)
    ensures
        match found {
            Ok(Some(p)) => r matches RunStep::Launch { args } && texts_of(args@) == ssh_args(p@),
            _ => r == (RunStep::Exit { code: EXIT_FAILURE }),
        },
{
    match found {
        Ok(Some(p)) => RunStep::Launch { args: ssh_arguments(&p) },
        _ => RunStep::Exit { code: EXIT_FAILURE },
    }
}

/// The code this process ends with once the SSH client has ended: the
/// client's own code, or the failure code when it has none.
pub fn exit_code_of(child: Option<i32>) -> (r: i32)
    ensures
        r == match child {
            Some(c) => c,
            None => EXIT_FAILURE,
        },
{
    match child {
        Some(c) => c,
        None => EXIT_FAILURE,
    }
}

/// `step` is what `run` does on the store `m` for `name`: it launches the
/// client only for a profile found there, with that profile's arguments, and
/// else ends with the failure code.
pub open spec fn run_step_for(m: Map<Seq<u8>, Seq<u8>>, name: Seq<char>, step: RunStep) -> bool {
    &&& match step {
        RunStep::Launch { args } => (lookup(m, name) matches Lookup::Found(v) && texts_of(args@)
            == ssh_args(v)),
        RunStep::Exit { code } => code == EXIT_FAILURE,
    }
    &&& !(lookup(m, name) is Found) ==> step is Exit
}

/// `r` is what `command` did, taking the store from `before` to `after`.
pub open spec fn executed(
    before: Map<Seq<u8>, Seq<u8>>,
    after: Map<Seq<u8>, Seq<u8>>,
    command: Command,
    r: Outcome,
) -> bool {
    match command {
        Command::Register { name, user_ip, key_path } => match r {
            Outcome::Registered(Ok(())) => after == saved(
                before,
                ProfileView { name: name@, user_ip: user_ip@, key_path: key_path@ },
            ),
            Outcome::Registered(Err(e)) => e is StoreIo,
            _ => false,
        },
        Command::Run { name } => after == before && match r {
            Outcome::Run(step) => run_step_for(before, name@, step),
            _ => false,
        },
        Command::List => after == before && match r {
            Outcome::Listed(Ok(ps)) => listing_of(before, views_of(ps@)),
            Outcome::Listed(Err(RegistryError::Malformed { key })) => before.contains_key(key@)
                && !is_record(before[key@]),
            Outcome::Listed(Err(e)) => e is StoreIo,
            _ => false,
        },
        Command::Remove { name } => match r {
            Outcome::Removed(Ok(())) => after == removed(before, name@),
            Outcome::Removed(Err(e)) => e is StoreIo,
            _ => false,
        },
    }
}

/// Carries out one command on the registry.
pub fn execute(registry: &mut Registry, command: Command) -> (r: Outcome)
    ensures
        executed(old(registry)@, final(registry)@, command, r),
{
    match command {
        Command::Register { name, user_ip, key_path } => {
            let p = ServerProfile::new(name, user_ip, key_path);
            Outcome::Registered(registry.save_server(&p))
        },
        Command::Run { name } => Outcome::Run(plan_run(registry.get_server(name.as_str()))),
        Command::List => Outcome::Listed(registry.list_servers()),
        Command::Remove { name } => Outcome::Removed(registry.remove_server(name.as_str())),
    }
}

} // verus!
