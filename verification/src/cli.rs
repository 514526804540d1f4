//! The profile selection and its positional command words, as plain data,
//! and the dispatch that turns a selection into a prepared configuration
//! plus the words to run inside the sandbox.

use vstd::prelude::*;

use crate::config::{BwrapArgs, ConfigV};
use crate::model::{Error, ErrorV, HostEnv, HostEnvV};
use crate::profiles::{
    spec_ls_err, spec_ls_ok, spec_nvim, spec_nvim_candidate, spec_pass_files,
    spec_pass_files_err,
};

verus! {

/// One invocation: a profile and its positional words.
#[derive(Debug)]
pub struct Cli {
    pub command: Commands,
}

/// The supported profiles, each with its greedy positional list.
#[derive(Debug)]
pub enum Commands {
    Default(Default),
    PassFiles(PassFiles),
    Ls(Ls),
    Nvim(Nvim),
}

/// The bare jail: run the command as given.
#[derive(Debug)]
pub struct Default {
    /// The command to run in the sandbox.
    pub command: Vec<String>,
}

/// The bare jail plus a read-only bind of every file named in the command.
#[derive(Debug)]
pub struct PassFiles {
    /// The command to run in the sandbox.
    pub command: Vec<String>,
}

/// A directory-listing jail around an external lister.
#[derive(Debug)]
pub struct Ls {
    /// The directories to list; flag tokens are passed on to the lister.
    pub dirs: Vec<String>,
}

/// An editor jail.
#[derive(Debug)]
pub struct Nvim {
    /// Additional arguments passed on to the editor.
    pub args: Vec<String>,
}

/// Mathematical abstraction of [`Commands`].
pub ghost enum CommandsV {
    Default(Seq<Seq<char>>),
    PassFiles(Seq<Seq<char>>),
    Ls(Seq<Seq<char>>),
    Nvim(Seq<Seq<char>>),
}

impl DeepView for Commands {
    type V = CommandsV;

    open spec fn deep_view(&self) -> CommandsV {
        match self {
            Commands::Default(input) => CommandsV::Default(input.command.deep_view()),
            Commands::PassFiles(input) => CommandsV::PassFiles(input.command.deep_view()),
            Commands::Ls(input) => CommandsV::Ls(input.dirs.deep_view()),
            Commands::Nvim(input) => CommandsV::Nvim(input.args.deep_view()),
        }
    }
}

/// The positions `pass_files` reads when the first word is the program
/// name.
pub open spec fn spec_skip_program(input: Seq<Seq<char>>) -> Seq<Seq<char>> {
    if input.len() > 0 {
        input.skip(1)
    } else {
        input
    }
}

/// What a successful dispatch leaves behind: the configuration prepared by
/// the selected profile, and the words handed to the launcher — the
/// positional list, with the lister or editor program prepended where the
/// profile supplies one.
pub open spec fn spec_apply_ok(
    cmd: CommandsV,
    c0: ConfigV,
    envv: HostEnvV,
    cf: ConfigV,
    words: Seq<Seq<char>>,
) -> bool {
    match cmd {
        CommandsV::Default(input) => words == input && cf == c0,
        CommandsV::PassFiles(input) => words == input && spec_pass_files(
            c0,
            spec_skip_program(input),
        ) == Ok::<ConfigV, ErrorV>(cf),
        CommandsV::Ls(dirs) => words == seq!["eza"@] + dirs && spec_ls_ok(c0, envv, dirs, cf),
        CommandsV::Nvim(args) => words == seq!["nvim"@] + args && spec_nvim(c0, envv) == Ok::<
            ConfigV,
            ErrorV,
        >(cf),
    }
}

/// The ways a dispatch can fail; the bare jail itself never does.
pub open spec fn spec_apply_err(cmd: CommandsV, c0: ConfigV, envv: HostEnvV, e: ErrorV) -> bool {
    match cmd {
        CommandsV::Default(_) => false,
        CommandsV::PassFiles(input) => spec_pass_files_err(c0, spec_skip_program(input), e),
        CommandsV::Ls(dirs) => spec_ls_err(c0, envv, dirs, e),
        CommandsV::Nvim(_) => ((e is PathDoesNotExist && spec_nvim_candidate(
            envv,
            e->PathDoesNotExist_0,
        )) || spec_nvim(c0, envv) == Err::<ConfigV, ErrorV>(e)),
    }
}

/// Dispatch preserves the collection invariants: whatever profile ran,
/// a well-formed configuration stays well-formed.
pub proof fn lemma_apply_preserves_wf(
    cmd: CommandsV,
    c0: ConfigV,
    envv: HostEnvV,
    cf: ConfigV,
    words: Seq<Seq<char>>,
)
    requires
        c0.wf(),
        spec_apply_ok(cmd, c0, envv, cf, words),
    ensures
        cf.wf(),
{
    match cmd {
        CommandsV::Default(_) => {},
        CommandsV::PassFiles(input) => {
            crate::profiles::lemma_pass_files_preserves_wf(c0, spec_skip_program(input), cf);
        },
        CommandsV::Ls(dirs) => {
            crate::profiles::lemma_ls_preserves_wf(c0, envv, dirs, cf);
        },
        CommandsV::Nvim(_) => {
            crate::profiles::lemma_nvim_preserves_wf(c0, envv, cf);
        },
    }
}

impl Cli {
    /// Prepares `args` for the invocation's profile and returns the words
    /// to run inside the sandbox.
    pub fn apply(self, args: &mut BwrapArgs, env: &HostEnv) -> (r: Result<Vec<String>, Error>)
        ensures
            ({
                let c0 = old(args).deep_view();
                let envv = env.deep_view();
                match r {
                    Ok(words) => spec_apply_ok(
                        self.command.deep_view(),
                        c0,
                        envv,
                        final(args).deep_view(),
                        words.deep_view(),
                    ),
                    Err(e) => spec_apply_err(self.command.deep_view(), c0, envv, e.deep_view()),
                }
            }),
    {
        self.command.apply(args, env)
    }
}

impl Commands {
    /// Prepares `args` for the selected profile and returns the words to
    /// run inside the sandbox.
    pub fn apply(self, args: &mut BwrapArgs, env: &HostEnv) -> (r: Result<Vec<String>, Error>)
        ensures
            ({
                let c0 = old(args).deep_view();
                let envv = env.deep_view();
                match r {
                    Ok(words) => spec_apply_ok(
                        self.deep_view(),
                        c0,
                        envv,
                        final(args).deep_view(),
                        words.deep_view(),
                    ),
                    Err(e) => spec_apply_err(self.deep_view(), c0, envv, e.deep_view()),
                }
            }),
    {
        match self {
            Commands::Default(input) => Ok(input.command),
            Commands::PassFiles(input) => {
                match args.pass_files(&input.command, true) {
                    Ok(()) => Ok(input.command),
                    Err(e) => Err(e),
                }
            },
            Commands::Ls(input) => {
                match args.ls(&input.dirs, env) {
                    Ok(()) => {
                        let ghost dirsv = input.dirs.deep_view();
                        let mut words = input.dirs;
                        words.insert(0, String::from_str("eza"));
                        proof {
                            assert(words.deep_view() =~= seq!["eza"@] + dirsv);
                        }
                        Ok(words)
                    },
                    Err(e) => Err(e),
                }
            },
            Commands::Nvim(input) => {
                match args.nvim(env) {
                    Ok(()) => {
                        let ghost argsv = input.args.deep_view();
                        let mut words = input.args;
                        words.insert(0, String::from_str("nvim"));
                        proof {
                            assert(words.deep_view() =~= seq!["nvim"@] + argsv);
                        }
                        Ok(words)
                    },
                    Err(e) => Err(e),
                }
            },
        }
    }
}

} // verus!
