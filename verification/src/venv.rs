//! An environment directory and the commands that build and fill it.

use crate::paths::{join, joined_path};
use crate::text::texts;
use vstd::prelude::*;
use vstd::string::StringExecFns;

verus! {

/// A subprocess to run: the program, its arguments in order, the directory
/// to run it in and the environment variables to set for it.
#[derive(Debug)]
pub struct Command {
    pub program: String,
    pub args: Vec<String>,
    pub current_dir: Option<String>,
    pub env: Vec<(String, String)>,
}

/// What a `Command` says, as plain text.
pub struct CommandView {
    pub program: Seq<char>,
    pub args: Seq<Seq<char>>,
    pub current_dir: Option<Seq<char>>,
    pub env: Seq<(Seq<char>, Seq<char>)>,
}

/// The text of an optional string.
pub open spec fn text_of_string(s: Option<String>) -> Option<Seq<char>> {
    match s {
        Some(t) => Some(t@),
        None => None,
    }
}

/// The texts of a list of variable settings.
pub open spec fn settings(env: Seq<(String, String)>) -> Seq<(Seq<char>, Seq<char>)> {
    env.map_values(|kv: (String, String)| (kv.0@, kv.1@))
}

impl View for Command {
    type V = CommandView;

    open spec fn view(&self) -> CommandView {
        CommandView {
            program: self.program@,
            args: texts(self.args@),
            current_dir: text_of_string(self.current_dir),
            env: settings(self.env@),
        }
    }
}

/// The arguments that make the builder create an environment at `path`:
/// `venv`, then `--offline` if the network is not to be used, then
/// `--python` and the selector if one is given, then the path.
pub open spec fn create_args(offline: bool, python: Option<Seq<char>>, path: Seq<char>) -> Seq<
    Seq<char>,
> {
    seq!["venv"@] + (if offline {
        seq!["--offline"@]
    } else {
        Seq::empty()
    }) + (match python {
        Some(p) => seq!["--python"@, p],
        None => Seq::empty(),
    }) + seq![path]
}

/// The command that creates an environment at `path`.
pub open spec fn create_command(
    builder: Seq<char>,
    offline: bool,
    python: Option<Seq<char>>,
    path: Seq<char>,
) -> CommandView {
    CommandView {
        program: builder,
        args: create_args(offline, python, path),
        current_dir: None,
        env: Seq::empty(),
    }
}

/// The arguments that make the builder install what a manifest lists:
/// `pip`, `install`, then `--offline` if the network is not to be used, then
/// `-r` and the manifest's path.
pub open spec fn install_args(offline: bool, manifest: Seq<char>) -> Seq<Seq<char>> {
    seq!["pip"@, "install"@] + (if offline {
        seq!["--offline"@]
    } else {
        Seq::empty()
    }) + seq!["-r"@, manifest]
}

/// The command that installs into the environment at `path`: it runs in that
/// directory, with `VIRTUAL_ENV` set to it.
pub open spec fn install_command(
    builder: Seq<char>,
    offline: bool,
    path: Seq<char>,
    manifest: Seq<char>,
) -> CommandView {
    CommandView {
        program: builder,
        args: install_args(offline, manifest),
        current_dir: Some(path),
        env: seq![("VIRTUAL_ENV"@, path)],
    }
}

/// An environment: the directory that holds it and the interpreter selector
/// it was asked for with, if any.
#[derive(Debug)]
pub struct Venv {
    path: String,
    python: Option<String>,
}

/// What a `Venv` says, as plain text.
pub struct VenvView {
    pub path: Seq<char>,
    pub python: Option<Seq<char>>,
}

impl View for Venv {
    type V = VenvView;

    closed spec fn view(&self) -> VenvView {
        VenvView { path: self.path@, python: text_of_string(self.python) }
    }
}

/// Owned copy of an optional string.
pub fn copy_selector(python: Option<&String>) -> (r: Option<String>)
    ensures
        text_of_string(r) == match python {
            Some(p) => Some(p@),
            None => None,
        },
{
    match python {
        Some(p) => Some(p.clone()),
        None => None,
    }
}

impl Venv {
    /// The environment in the directory `path`, for the selector `python`.
    pub fn new(path: &str, python: Option<&String>) -> (venv: Venv)
        ensures
            venv@.path == path@,
            venv@.python == match python {
                Some(p) => Some(p@),
                None => None,
            },
    {
        Venv { path: String::from_str(path), python: copy_selector(python) }
    }

    /// The directory that holds the environment.
    pub fn path(&self) -> (path: &str)
        ensures
            path@ == self@.path,
    {
        self.path.as_str()
    }

    /// The interpreter selector, if any.
    pub fn python(&self) -> (python: Option<&String>)
        ensures
            match python {
                Some(p) => self@.python == Some(p@),
                None => self@.python is None,
            },
    {
        self.python.as_ref()
    }

    /// The command by which the builder at `builder` creates this
    /// environment.
    pub fn create_command(&self, builder: &str, offline: bool) -> (command: Command)
        ensures
            command@ == create_command(builder@, offline, self@.python, self@.path),
    {
        let mut args: Vec<String> = Vec::new();
        args.push(String::from_str("venv"));
        if offline {
            args.push(String::from_str("--offline"));
        }
        match &self.python {
            Some(p) => {
                args.push(String::from_str("--python"));
                args.push(p.clone());
            },
            None => {},
        }
        args.push(self.path.clone());
        let command = Command {
            program: String::from_str(builder),
            args,
            current_dir: None,
            env: Vec::new(),
        };
        assert(command@.args =~= create_args(offline, self@.python, self@.path));
        assert(command@.env =~= Seq::empty());
        command
    }

    /// The command by which the builder at `builder` installs into this
    /// environment what the manifest at `manifest` lists.
    pub fn install_command(&self, builder: &str, offline: bool, manifest: &str) -> (command:
        Command)
        ensures
            command@ == install_command(builder@, offline, self@.path, manifest@),
    {
        let mut args: Vec<String> = Vec::new();
        args.push(String::from_str("pip"));
        args.push(String::from_str("install"));
        if offline {
            args.push(String::from_str("--offline"));
        }
        args.push(String::from_str("-r"));
        args.push(String::from_str(manifest));
        let mut env: Vec<(String, String)> = Vec::new();
        env.push((String::from_str("VIRTUAL_ENV"), self.path.clone()));
        let command = Command {
            program: String::from_str(builder),
            args,
            current_dir: Some(self.path.clone()),
            env,
        };
        assert(command@.args =~= install_args(offline, manifest@));
        assert(command@.env =~= seq![("VIRTUAL_ENV"@, self@.path)]);
        command
    }

    /// The interpreter of this environment: `bin/python` in its directory.
    pub fn interpreter(&self) -> (path: String)
        ensures
            path@ == joined_path(self@.path, "bin/python"@),
    {
        join(self.path.as_str(), "bin/python")
    }
}

} // verus!
