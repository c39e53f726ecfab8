//! Searching inside a container image: the `docker`/`podman` invocations that
//! list a command's paths, print the image's `PATH` and copy a file out, and
//! what their output means.
use vstd::prelude::*;
use crate::process::{ProcessOutput, decode_lossy, utf8_lossy};
use crate::text::{
    chars_of, lines_of, lines_spec, lemma_chars_deep_view, owned, string_of, trim, trim_chars,
};

verus! {

/// A container engine and the image it runs.
pub struct ContainerEngine {
    executable: String,
    image: String,
}

impl View for ContainerEngine {
    /// The engine's executable and the image.
    type V = (Seq<char>, Seq<char>);

    closed spec fn view(&self) -> (Seq<char>, Seq<char>) {
        (self.executable@, self.image@)
    }
}

/// The outcome of looking an executable up on the search path.
pub struct EngineLookup {
    /// The name looked up.
    pub name: String,
    /// Whether an executable of that name was found.
    pub found: bool,
}

/// Calls `which::which(name)`: whether an executable of that name is found on
/// the search path, together with the name looked up. Whether it is found
/// depends on the environment and the disk, so nothing is stated of `found`.
#[verifier::external_body]
fn found_on_path(name: &str) -> (r: EngineLookup)
    ensures
        r.name@ == name@,
{
    EngineLookup { name: name.to_string(), found: which::which(name).is_ok() }
}

/// The message given when no engine was named and none is installed.
pub open spec fn no_engine_message() -> Seq<char> {
    "Neither docker nor podman found in PATH"@
}

/// The script run inside the image to list the executables named `cmd` on its `PATH`.
pub open spec fn find_script(cmd: Seq<char>) -> Seq<char> {
    "\n            IFS=':'\n            for d in $PATH; do\n                if [ -x \"$d/"@ + cmd
        + "\" ] && [ ! -d \"$d/"@ + cmd + "\" ]; then\n                    echo \"$d/"@ + cmd
        + "\"\n                fi\n            done\n        "@
}

/// The message for an engine that could not be started.
pub open spec fn spawn_failure(executable: Seq<char>, error: Seq<char>) -> Seq<char> {
    "Failed to execute "@ + executable + ": "@ + error
}

/// The non-empty trimmed lines of `text`, in order.
pub open spec fn nonblank_lines(lines: Seq<Seq<char>>) -> Seq<Seq<char>>
    decreases lines.len(),
{
    if lines.len() == 0 {
        Seq::empty()
    } else {
        let prev = nonblank_lines(lines.drop_last());
        let t = trim(lines.last());
        if t.len() == 0 {
            prev
        } else {
            prev.push(t)
        }
    }
}

/// The engine to use when none was named, from the lookups of `docker` and,
/// where docker was not found, of `podman`: `docker` if it was found, else
/// `podman` if that was, else an error.
pub fn engine_for(docker: &EngineLookup, podman: Option<&EngineLookup>) -> (r: Result<String, String>)
    requires
        docker.name@ == "docker"@,
        podman matches Some(p) ==> p.name@ == "podman"@,
        !docker.found ==> podman is Some,
    ensures
        docker.found ==> (r matches Ok(e) && e@ == "docker"@),
        !docker.found && (podman matches Some(p) && p.found) ==> (r matches Ok(e) && e@
            == "podman"@),
        !docker.found && !(podman matches Some(p) && p.found) ==> (r matches Err(m) && m@
            == no_engine_message()),
{
    if docker.found {
        Ok(docker.name.clone())
    } else {
        match podman {
            Some(p) => if p.found {
                Ok(p.name.clone())
            } else {
                Err(owned("Neither docker nor podman found in PATH"))
            },
            None => Err(owned("Neither docker nor podman found in PATH")),
        }
    }
}

/// Appends `part` to `s`.
fn push_str(s: &mut String, part: &str)
    ensures
        final(s)@ == old(s)@ + part@,
{
    s.append(part);
}

impl ContainerEngine {
    /// A container engine for `image`: the named `engine`, or else `docker` or
    /// `podman`, whichever is installed, in that order.
    pub fn new(engine: Option<String>, image: String) -> (r: Result<Self, String>)
        ensures
            engine matches Some(e) ==> (r matches Ok(c) && c@ == (e@, image@)),
            r matches Ok(c) ==> c@.1 == image@ && (engine is None ==> (c@.0 == "docker"@ || c@.0
                == "podman"@)),
            r matches Err(m) ==> engine is None && m@ == no_engine_message(),
    {
        match engine {
            Some(e) => Ok(ContainerEngine { executable: e, image }),
            None => {
                let docker = found_on_path("docker");
                let podman = if docker.found {
                    None
                } else {
                    Some(found_on_path("podman"))
                };
                proof {
                    reveal_strlit("docker");
                    reveal_strlit("podman");
                }
                match engine_for(&docker, podman.as_ref()) {
                    Ok(executable) => Ok(ContainerEngine { executable, image }),
                    Err(m) => Err(m),
                }
            },
        }
    }

    /// The engine's executable.
    pub fn executable(&self) -> (r: &String)
        ensures
            r@ == self@.0,
    {
        &self.executable
    }

    /// The image searched.
    pub fn image(&self) -> (r: &String)
        ensures
            r@ == self@.1,
    {
        &self.image
    }

    /// The engine's arguments that print the image's `PATH`.
    pub fn path_env_args(&self) -> (r: Vec<String>)
        ensures
            r.deep_view() == seq![
                "run"@,
                "--rm"@,
                "--entrypoint"@,
                "sh"@,
                self@.1,
                "-c"@,
                "echo $PATH"@,
            ],
    {
        let mut r: Vec<String> = Vec::new();
        r.push(owned("run"));
        r.push(owned("--rm"));
        r.push(owned("--entrypoint"));
        r.push(owned("sh"));
        r.push(self.image.clone());
        r.push(owned("-c"));
        r.push(owned("echo $PATH"));
        assert(r.deep_view() =~= seq![
            "run"@,
            "--rm"@,
            "--entrypoint"@,
            "sh"@,
            self@.1,
            "-c"@,
            "echo $PATH"@,
        ]);
        r
    }

    /// The image's `PATH` from the run of `path_env_args`: its trimmed output on
    /// success. `run` is the error text where the engine could not be started.
    pub fn get_path_env(&self, run: Result<ProcessOutput, String>) -> (r: Result<String, String>)
        ensures
            run matches Err(e) ==> (r matches Err(m) && m@ == spawn_failure(self@.0, e@)),
            run matches Ok(out) ==> (out.success ==> (r matches Ok(p) && p@ == trim(
                utf8_lossy(out.stdout@),
            ))),
            run matches Ok(out) ==> (!out.success ==> (r matches Err(m) && m@
                == "Container execution failed: "@ + utf8_lossy(out.stderr@))),
    {
        match run {
            Err(e) => Err(self.spawn_error(&e)),
            Ok(out) => {
                if out.success {
                    let text = decode_lossy(out.stdout.as_slice());
                    Ok(string_of(&trim_chars(&chars_of(text.as_str()))))
                } else {
                    let mut m = owned("Container execution failed: ");
                    let err = decode_lossy(out.stderr.as_slice());
                    push_str(&mut m, err.as_str());
                    Err(m)
                }
            },
        }
    }

    /// The message for an engine that could not be started.
    fn spawn_error(&self, e: &String) -> (m: String)
        ensures
            m@ == spawn_failure(self@.0, e@),
    {
        let mut m = owned("Failed to execute ");
        push_str(&mut m, self.executable.as_str());
        push_str(&mut m, ": ");
        push_str(&mut m, e.as_str());
        m
    }

    /// The engine's arguments that list the executables named `cmd` on the
    /// directories of `path_env` inside the image.
    pub fn find_command_args(&self, path_env: &str, cmd: &str) -> (r: Vec<String>)
        ensures
            r.deep_view() == seq![
                "run"@,
                "--rm"@,
                "-e"@,
                "PATH="@ + path_env@,
                "--entrypoint"@,
                "sh"@,
                self@.1,
                "-c"@,
                find_script(cmd@),
            ],
    {
        let mut env = owned("PATH=");
        push_str(&mut env, path_env);
        let mut r: Vec<String> = Vec::new();
        r.push(owned("run"));
        r.push(owned("--rm"));
        r.push(owned("-e"));
        r.push(env);
        r.push(owned("--entrypoint"));
        r.push(owned("sh"));
        r.push(self.image.clone());
        r.push(owned("-c"));
        r.push(find_command_script(cmd));
        assert(r.deep_view() =~= seq![
            "run"@,
            "--rm"@,
            "-e"@,
            "PATH="@ + path_env@,
            "--entrypoint"@,
            "sh"@,
            self@.1,
            "-c"@,
            find_script(cmd@),
        ]);
        r
    }

    /// The paths that the run of `find_command_args` printed: the non-empty
    /// trimmed lines of its output where it succeeded, none otherwise.
    pub fn find_command_paths(&self, run: Result<ProcessOutput, String>) -> (r: Vec<String>)
        ensures
            run matches Ok(out) ==> (out.success ==> r.deep_view() == nonblank_lines(
                lines_spec(utf8_lossy(out.stdout@)),
            )),
            !(run matches Ok(out) && out.success) ==> r.len() == 0,
    {
        let mut paths: Vec<String> = Vec::new();
        if let Ok(out) = run {
            if out.success {
                let text = decode_lossy(out.stdout.as_slice());
                let lines = lines_of(&chars_of(text.as_str()));
                let ghost ls = lines.deep_view();
                for i in 0..lines.len()
                    invariant
                        ls == lines.deep_view(),
                        paths.deep_view() == nonblank_lines(ls.take(i as int)),
                {
                    proof {
                        lemma_chars_deep_view(lines@[i as int]);
                    }
                    assert(ls.take(i + 1).drop_last() == ls.take(i as int));
                    assert(ls.take(i + 1).last() == lines@[i as int]@);
                    let t = trim_chars(&lines[i]);
                    if t.len() > 0 {
                        let ghost before = paths.deep_view();
                        paths.push(string_of(&t));
                        assert(paths.deep_view() =~= before.push(t@));
                    }
                }
                assert(ls.take(lines.len() as int) == ls);
            }
        }
        paths
    }

    /// The engine's arguments that print the file at `path` inside the image.
    pub fn extract_file_args(&self, path: &str) -> (r: Vec<String>)
        ensures
            r.deep_view() == seq![
                "run"@,
                "--rm"@,
                "--entrypoint"@,
                "cat"@,
                self@.1,
                path@,
            ],
    {
        let mut r: Vec<String> = Vec::new();
        r.push(owned("run"));
        r.push(owned("--rm"));
        r.push(owned("--entrypoint"));
        r.push(owned("cat"));
        r.push(self.image.clone());
        r.push(owned(path));
        assert(r.deep_view() =~= seq![
            "run"@,
            "--rm"@,
            "--entrypoint"@,
            "cat"@,
            self@.1,
            path@,
        ]);
        r
    }

    /// The file's bytes from the run of `extract_file_args`: its output on success.
    pub fn extract_file(&self, run: Result<ProcessOutput, String>) -> (r: Result<Vec<u8>, String>)
        ensures
            run matches Err(e) ==> (r matches Err(m) && m@ == spawn_failure(self@.0, e@)),
            run matches Ok(out) ==> (out.success ==> r == Ok::<Vec<u8>, String>(out.stdout)),
            run matches Ok(out) ==> (!out.success ==> (r matches Err(m) && m@
                == "Failed to extract file: "@ + utf8_lossy(out.stderr@))),
    {
        match run {
            Err(e) => Err(self.spawn_error(&e)),
            Ok(out) => {
                if out.success {
                    Ok(out.stdout)
                } else {
                    let mut m = owned("Failed to extract file: ");
                    let err = decode_lossy(out.stderr.as_slice());
                    push_str(&mut m, err.as_str());
                    Err(m)
                }
            },
        }
    }
}

/// The script run inside the image to list the executables named `cmd`.
pub fn find_command_script(cmd: &str) -> (s: String)
    ensures
        s@ == find_script(cmd@),
{
    let mut s = owned("\n            IFS=':'\n            for d in $PATH; do\n                if [ -x \"$d/");
    push_str(&mut s, cmd);
    push_str(&mut s, "\" ] && [ ! -d \"$d/");
    push_str(&mut s, cmd);
    push_str(&mut s, "\" ]; then\n                    echo \"$d/");
    push_str(&mut s, cmd);
    push_str(&mut s, "\"\n                fi\n            done\n        ");
    s
}

} // verus!
