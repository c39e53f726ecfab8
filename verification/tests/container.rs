use where_cmd::container::{engine_for, find_command_script, ContainerEngine, EngineLookup};
use where_cmd::process::ProcessOutput;

fn engine() -> ContainerEngine {
    ContainerEngine::new(Some("podman".to_string()), "alpine:3".to_string()).unwrap()
}

fn out(success: bool, stdout: &str, stderr: &str) -> ProcessOutput {
    ProcessOutput { success, stdout: stdout.as_bytes().to_vec(), stderr: stderr.as_bytes().to_vec() }
}

#[test]
fn named_engine_is_used() {
    let e = engine();
    assert_eq!(e.executable(), "podman");
    assert_eq!(e.image(), "alpine:3");
}

#[test]
fn engine_choice() {
    let look = |name: &str, found: bool| EngineLookup { name: name.to_string(), found };
    assert_eq!(engine_for(&look("docker", true), None), Ok("docker".to_string()));
    assert_eq!(engine_for(&look("docker", true), Some(&look("podman", true))), Ok("docker".to_string()));
    assert_eq!(engine_for(&look("docker", false), Some(&look("podman", true))), Ok("podman".to_string()));
    assert_eq!(
        engine_for(&look("docker", false), Some(&look("podman", false))),
        Err("Neither docker nor podman found in PATH".to_string())
    );
}

#[test]
fn path_env_invocation_and_answer() {
    let e = engine();
    assert_eq!(e.path_env_args(), vec!["run", "--rm", "--entrypoint", "sh", "alpine:3", "-c", "echo $PATH"]);
    assert_eq!(e.get_path_env(Ok(out(true, "/usr/bin:/bin\n", ""))), Ok("/usr/bin:/bin".to_string()));
    assert_eq!(
        e.get_path_env(Ok(out(false, "", "no such image"))),
        Err("Container execution failed: no such image".to_string())
    );
    assert_eq!(
        e.get_path_env(Err("No such file or directory (os error 2)".to_string())),
        Err("Failed to execute podman: No such file or directory (os error 2)".to_string())
    );
}

#[test]
fn finding_commands() {
    let e = engine();
    let args = e.find_command_args("/usr/bin:/bin", "ls");
    assert_eq!(args[..8].to_vec(), vec!["run", "--rm", "-e", "PATH=/usr/bin:/bin", "--entrypoint", "sh", "alpine:3", "-c"]);
    assert_eq!(args[8], find_command_script("ls"));
    assert!(args[8].contains("if [ -x \"$d/ls\" ] && [ ! -d \"$d/ls\" ]; then"));
    let found = e.find_command_paths(Ok(out(true, "/usr/bin/ls\n  \n /bin/ls \n", "")));
    assert_eq!(found, vec!["/usr/bin/ls".to_string(), "/bin/ls".to_string()]);
    assert!(e.find_command_paths(Ok(out(false, "/usr/bin/ls\n", ""))).is_empty());
    assert!(e.find_command_paths(Err("x".to_string())).is_empty());
}

#[test]
fn extracting_files() {
    let e = engine();
    assert_eq!(e.extract_file_args("/bin/ls"), vec!["run", "--rm", "--entrypoint", "cat", "alpine:3", "/bin/ls"]);
    assert_eq!(e.extract_file(Ok(out(true, "\u{7f}ELF", ""))), Ok(b"\x7fELF".to_vec()));
    assert_eq!(
        e.extract_file(Ok(out(false, "", "cat: can't open"))),
        Err("Failed to extract file: cat: can't open".to_string())
    );
}

#[test]
fn invalid_utf8_is_replaced() {
    let e = engine();
    let o = ProcessOutput { success: false, stdout: Vec::new(), stderr: vec![0x66, 0xff, 0x67] };
    assert_eq!(e.get_path_env(Ok(o)), Err("Container execution failed: f\u{fffd}g".to_string()));
}
