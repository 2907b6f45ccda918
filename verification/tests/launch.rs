use spyn::launch::launch;
use spyn::options::{assemble_requirements, Opts};
use spyn::timer::Timer;
use spyn::venv::Venv;

fn words(list: &[&str]) -> Vec<String> {
    list.iter().map(|w| w.to_string()).collect()
}

fn options(ipython: bool, notebook: bool, cmd: &[&str]) -> Opts {
    Opts {
        deps: Vec::new(),
        req_files: Vec::new(),
        offline: false,
        ipython,
        notebook,
        python: None,
        cmd: words(cmd),
    }
}

#[test]
fn venv_keeps_path_and_selector() {
    let selector = "3.11".to_string();
    let venv = Venv::new("/cache/abc", Some(&selector));
    assert_eq!(venv.path(), "/cache/abc");
    assert_eq!(venv.python(), Some(&selector));
    assert_eq!(venv.interpreter(), "/cache/abc/bin/python");
    let plain = Venv::new("e", None);
    assert_eq!(plain.path(), "e");
    assert_eq!(plain.python(), None);
}

#[test]
fn venv_commands() {
    let selector = "/usr/bin/python3".to_string();
    let venv = Venv::new("/e", Some(&selector));
    let create = venv.create_command("uv", false);
    assert_eq!(create.program, "uv");
    assert_eq!(create.args, words(&["venv", "--python", "/usr/bin/python3", "/e"]));
    assert_eq!(create.current_dir, None);
    assert!(create.env.is_empty());
    let install = venv.install_command("uv", false, "/e/requirements.txt");
    assert_eq!(install.program, "uv");
    assert_eq!(install.args, words(&["pip", "install", "-r", "/e/requirements.txt"]));
    assert_eq!(install.current_dir, Some("/e".to_string()));
    assert_eq!(install.env, vec![("VIRTUAL_ENV".to_string(), "/e".to_string())]);
    let offline = venv.install_command("uv", true, "m");
    assert_eq!(offline.args, words(&["pip", "install", "--offline", "-r", "m"]));
}

#[test]
fn plain_launch_passes_the_command_through() {
    let venv = Venv::new("/e", None);
    let command = launch(&venv, &options(false, false, &["script.py", "-x", "a b"]), Some("/bin"));
    assert_eq!(command.program, "/e/bin/python");
    assert_eq!(command.args, words(&["script.py", "-x", "a b"]));
    assert_eq!(command.current_dir, None);
    assert!(command.env.is_empty());
}

#[test]
fn ipython_launch() {
    let venv = Venv::new("/e", None);
    let command = launch(&venv, &options(true, false, &["-i"]), Some("/bin"));
    assert_eq!(command.program, "/e/bin/python");
    assert_eq!(command.args, words(&["-m", "IPython", "-i"]));
    assert!(command.env.is_empty());
}

#[test]
fn notebook_launch_sets_the_search_path() {
    let venv = Venv::new("/e", None);
    let command = launch(&venv, &options(false, true, &[]), Some("/usr/bin:/bin"));
    assert_eq!(command.program, "/e/bin/python");
    assert_eq!(command.args, words(&["-m", "jupyter", "notebook"]));
    assert_eq!(
        command.env,
        vec![("PATH".to_string(), "/e/bin:/usr/bin:/bin".to_string())]
    );
    let bare = launch(&venv, &options(false, true, &["--no-browser"]), None);
    assert_eq!(bare.args, words(&["-m", "jupyter", "notebook", "--no-browser"]));
    assert_eq!(bare.env, vec![("PATH".to_string(), "/e/bin".to_string())]);
}

#[test]
fn ipython_goes_before_notebook() {
    let venv = Venv::new("/e", None);
    let command = launch(&venv, &options(true, true, &["x"]), Some("/bin"));
    assert_eq!(command.args, words(&["-m", "IPython", "x"]));
    assert!(command.env.is_empty());
}

#[test]
fn script_is_the_first_word_of_the_command() {
    assert_eq!(options(false, false, &["a.py", "b"]).script(), Some(&"a.py".to_string()));
    assert_eq!(options(false, false, &[]).script(), None);
}

#[test]
fn requirements_are_assembled_from_all_sources() {
    let mut opts = options(true, true, &["run.py"]);
    opts.deps = words(&["requests", "", "numpy"]);
    opts.req_files = words(&["one.txt", "two.txt"]);
    let script = words(&["import yaml # fades", "import os"]);
    let files = vec![words(&["flask", "", "numpy"]), words(&["attrs"])];
    let reqs = assemble_requirements(&opts, Some(&script), &files);
    assert_eq!(
        reqs.names(),
        words(&[
            "attrs", "flask", "ipython", "jupyter", "notebook", "numpy", "requests", "yaml"
        ])
    );
}

#[test]
fn front_ends_bring_their_requirements() {
    let none = assemble_requirements(&options(false, false, &[]), None, &Vec::new());
    assert!(none.is_empty());
    let ipython = assemble_requirements(&options(true, false, &[]), None, &Vec::new());
    assert_eq!(ipython.names(), words(&["ipython"]));
    let notebook = assemble_requirements(&options(false, true, &[]), None, &Vec::new());
    assert_eq!(notebook.names(), words(&["jupyter", "notebook"]));
}

#[test]
fn requirement_file_lines_are_taken_as_they_are() {
    let files = vec![words(&["numpy==1.26", " spaced ", "# comment"])];
    let reqs = assemble_requirements(&options(false, false, &[]), None, &files);
    assert_eq!(reqs.names(), words(&[" spaced ", "# comment", "numpy==1.26"]));
}

#[test]
fn timer_measures_between_two_readings() {
    let timer = Timer::new("assemble", 1_000);
    assert_eq!(timer.title(), "assemble");
    assert_eq!(timer.elapsed(1_000), 0);
    assert_eq!(timer.elapsed(4_500), 3_500);
    assert_eq!(timer.elapsed(999), 0);
    assert_eq!(Timer::new("main", 0).elapsed(u64::MAX), u64::MAX);
}
