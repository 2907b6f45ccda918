//! What the user asked for, and the requirement set that follows from it.

use crate::reqs::{extracted, named, Requirements};
use crate::text::texts;
use vstd::prelude::*;

verus! {

/// The options of one invocation.
#[derive(Debug)]
pub struct Opts {
    /// Requirements named one by one.
    pub deps: Vec<String>,
    /// Paths of files that list requirements, one to a line.
    pub req_files: Vec<String>,
    /// Whether the network is not to be used.
    pub offline: bool,
    /// Whether IPython is started in place of the plain interpreter.
    pub ipython: bool,
    /// Whether Jupyter's notebook server is started in place of the plain
    /// interpreter. IPython goes first where both are asked for.
    pub notebook: bool,
    /// The interpreter to use: a version or a path.
    pub python: Option<String>,
    /// The command to run in the environment. Its first word may be the path
    /// of a script, which is then read for the modules it asks for.
    pub cmd: Vec<String>,
}

/// The requirements that the front ends bring with them: `ipython` for
/// IPython; `jupyter` and `notebook` for the notebook server.
pub open spec fn front_end_requirements(ipython: bool, notebook: bool) -> Set<Seq<char>> {
    (if ipython {
        set!["ipython"@]
    } else {
        Set::empty()
    }).union(
        if notebook {
            set!["jupyter"@, "notebook"@]
        } else {
            Set::empty()
        },
    )
}

/// The lines of each of a list of files, as text.
pub open spec fn file_texts(files: Seq<Vec<String>>) -> Seq<Seq<Seq<char>>> {
    files.map_values(|lines: Vec<String>| texts(lines@))
}

/// The names that requirement files list: every line of every file, empty
/// lines left out.
pub open spec fn listed(files: Seq<Seq<Seq<char>>>) -> Set<Seq<char>> {
    Set::new(
        |name: Seq<char>|
            name.len() > 0 && exists|i: int|
                0 <= i < files.len() && (#[trigger] files[i]).contains(name),
    )
}

/// The modules that a script asks for; none where there is no script.
pub open spec fn script_requirements(script: Option<Seq<Seq<char>>>) -> Set<Seq<char>> {
    match script {
        Some(lines) => extracted(lines),
        None => Set::empty(),
    }
}

/// The requirement set of an invocation: the requirements named one by one,
/// those of the front end, those that the script asks for and those that
/// the requirement files list.
pub open spec fn assembled(
    deps: Seq<Seq<char>>,
    ipython: bool,
    notebook: bool,
    script: Option<Seq<Seq<char>>>,
    files: Seq<Seq<Seq<char>>>,
) -> Set<Seq<char>> {
    named(deps).union(front_end_requirements(ipython, notebook)).union(
        script_requirements(script),
    ).union(listed(files))
}

/// The lines of an optional script, as text.
pub open spec fn script_texts(script: Option<&Vec<String>>) -> Option<Seq<Seq<char>>> {
    match script {
        Some(lines) => Some(texts(lines@)),
        None => None,
    }
}

impl Opts {
    /// The word of the command that may name a script: the first one.
    pub fn script(&self) -> (path: Option<&String>)
        ensures
            match path {
                Some(p) => self.cmd@.len() > 0 && *p == self.cmd@[0],
                None => self.cmd@.len() == 0,
            },
    {
        if self.cmd.len() > 0 {
            Some(&self.cmd[0])
        } else {
            None
        }
    }
}

/// Puts the requirement set of an invocation together.
///
/// `script` holds the lines of the script that the command names, if it
/// names one that could be read; `files` holds the lines of each requirement
/// file, in the order of `opts.req_files`.
pub fn assemble_requirements(
    opts: &Opts,
    script: Option<&Vec<String>>,
    files: &Vec<Vec<String>>,
) -> (reqs: Requirements)
    ensures
        reqs.wf(),
        reqs@ == assembled(
            texts(opts.deps@),
            opts.ipython,
            opts.notebook,
            script_texts(script),
            file_texts(files@),
        ),
{
    let mut reqs = Requirements::new();
    reqs.extend(&opts.deps);
    assert(reqs@ =~= named(texts(opts.deps@)));
    proof {
        reveal_strlit("ipython");
        reveal_strlit("jupyter");
        reveal_strlit("notebook");
    }
    if opts.ipython {
        reqs.add("ipython");
    }
    if opts.notebook {
        reqs.add("jupyter");
        reqs.add("notebook");
    }
    assert(reqs@ =~= named(texts(opts.deps@)).union(
        front_end_requirements(opts.ipython, opts.notebook),
    ));
    match script {
        Some(lines) => {
            reqs.parse_and_append(lines);
        },
        None => {},
    }
    let ghost base = reqs@;
    assert(base =~= named(texts(opts.deps@)).union(
        front_end_requirements(opts.ipython, opts.notebook),
    ).union(script_requirements(script_texts(script))));
    let ghost all = file_texts(files@);
    let mut i: usize = 0;
    while i < files.len()
        invariant
            all == file_texts(files@),
            i <= files@.len(),
            reqs.wf(),
            reqs@ == base.union(listed(all.take(i as int))),
        decreases files@.len() - i,
    {
        reqs.extend(&files[i]);
        proof {
            let done = all.take(i as int);
            let next = all.take(i + 1);
            let here = all[i as int];
            assert forall|e: Seq<char>| listed(next).contains(e) == (listed(done).contains(e)
                || named(here).contains(e)) by {
                if listed(done).contains(e) {
                    let k = choose|k: int| 0 <= k < done.len() && (#[trigger] done[k]).contains(e);
                    assert(next[k] == done[k]);
                }
                if named(here).contains(e) {
                    assert(next[i as int] == here);
                }
                if listed(next).contains(e) {
                    let k = choose|k: int| 0 <= k < next.len() && (#[trigger] next[k]).contains(e);
                    if k < i {
                        assert(done[k] == next[k]);
                    }
                }
            }
            assert(reqs@ =~= base.union(listed(next)));
        }
        i += 1;
    }
    assert(all.take(i as int) =~= all);
    reqs
}

} // verus!
