//! Starting the interpreter, or a front end, inside an environment.

use crate::options::Opts;
use crate::paths::{join, joined_path};
use crate::text::texts;
use crate::venv::{Command, CommandView, Venv};
use vstd::prelude::*;
use vstd::string::StringExecFns;

verus! {

/// The arguments of the interpreter: those that select a front end, then the
/// user's command as it was given. IPython goes before the notebook server
/// where both were asked for.
pub open spec fn launch_args(ipython: bool, notebook: bool, cmd: Seq<Seq<char>>) -> Seq<
    Seq<char>,
> {
    (if ipython {
        seq!["-m"@, "IPython"@]
    } else if notebook {
        seq!["-m"@, "jupyter"@, "notebook"@]
    } else {
        Seq::empty()
    }) + cmd
}

/// The search path with the directory `bin` put first.
pub open spec fn search_path(bin: Seq<char>, existing: Option<Seq<char>>) -> Seq<char> {
    match existing {
        Some(rest) => bin + seq![':'] + rest,
        None => bin,
    }
}

/// The command that starts the environment in the directory `path`.
///
/// The program is `bin/python` in the environment. The notebook server
/// finds its parts through the search path, so `PATH` is set for it, with
/// the environment's `bin` directory first; no other front end has a
/// variable set.
pub open spec fn launch_command(
    path: Seq<char>,
    ipython: bool,
    notebook: bool,
    existing: Option<Seq<char>>,
    cmd: Seq<Seq<char>>,
) -> CommandView {
    CommandView {
        program: joined_path(path, "bin/python"@),
        args: launch_args(ipython, notebook, cmd),
        current_dir: None,
        env: if notebook && !ipython {
            seq![("PATH"@, search_path(joined_path(path, "bin"@), existing))]
        } else {
            Seq::empty()
        },
    }
}

/// The text of an optional string slice.
pub open spec fn existing_text(existing: Option<&str>) -> Option<Seq<char>> {
    match existing {
        Some(p) => Some(p@),
        None => None,
    }
}

/// The command that starts `venv` as `opts` asks. `existing` is the search
/// path of the caller's own environment, if it has one.
pub fn launch(venv: &Venv, opts: &Opts, existing: Option<&str>) -> (command: Command)
    ensures
        command@ == launch_command(
            venv@.path,
            opts.ipython,
            opts.notebook,
            existing_text(existing),
            texts(opts.cmd@),
        ),
{
    let mut args: Vec<String> = Vec::new();
    let mut env: Vec<(String, String)> = Vec::new();
    if opts.ipython {
        args.push(String::from_str("-m"));
        args.push(String::from_str("IPython"));
    } else if opts.notebook {
        let mut path = join(venv.path(), "bin");
        match existing {
            Some(rest) => {
                proof {
                    reveal_strlit(":");
                    assert(":"@ =~= seq![':']);
                }
                path.append(":");
                path.append(rest);
            },
            None => {},
        }
        env.push((String::from_str("PATH"), path));
        args.push(String::from_str("-m"));
        args.push(String::from_str("jupyter"));
        args.push(String::from_str("notebook"));
    }
    let ghost front = texts(args@);
    assert(front =~= launch_args(opts.ipython, opts.notebook, Seq::empty()));
    let mut i: usize = 0;
    while i < opts.cmd.len()
        invariant
            i <= opts.cmd@.len(),
            texts(args@) == front + texts(opts.cmd@).take(i as int),
        decreases opts.cmd@.len() - i,
    {
        let ghost before = texts(args@);
        let word = opts.cmd[i].clone();
        args.push(word);
        i += 1;
        assert(texts(args@) =~= before.push(opts.cmd@[i - 1]@));
        assert(texts(args@) =~= front + texts(opts.cmd@).take(i as int));
    }
    assert(texts(opts.cmd@).take(i as int) =~= texts(opts.cmd@));
    let command = Command { program: venv.interpreter(), args, current_dir: None, env };
    assert(command@.env =~= launch_command(
        venv@.path,
        opts.ipython,
        opts.notebook,
        existing_text(existing),
        texts(opts.cmd@),
    ).env);
    assert(command@.args =~= launch_args(opts.ipython, opts.notebook, texts(opts.cmd@)));
    command
}

} // verus!
