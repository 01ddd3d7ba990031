use maglev::ssh::{
    capture_outcome, run_outcome, spawn_failure, ssh_capture, ssh_capture_jump, ssh_run, ssh_run_jump,
};

#[test]
fn captures_directly() {
    assert_eq!(
        ssh_capture("1.2.3.4", "root", "/k", "uptime"),
        vec![
            "-i", "/k", "-o", "StrictHostKeyChecking=no", "-o", "UserKnownHostsFile=/dev/null", "-o",
            "ConnectTimeout=15", "-o", "LogLevel=ERROR", "root@1.2.3.4", "uptime",
        ]
    );
}

#[test]
fn runs_directly_with_a_terminal() {
    assert_eq!(
        ssh_run("1.2.3.4", "root", "/k", "sudo reboot"),
        vec![
            "-i", "/k", "-o", "StrictHostKeyChecking=no", "-o", "UserKnownHostsFile=/dev/null", "-o",
            "ConnectTimeout=30", "-o", "LogLevel=ERROR", "-t", "root@1.2.3.4", "sudo reboot",
        ]
    );
}

#[test]
fn captures_through_a_jump_host() {
    assert_eq!(
        ssh_capture_jump("5.6.7.8", "jump", "10.0.0.2", "root", "/my key", "uptime"),
        vec![
            "-i", "/my key", "-o", "StrictHostKeyChecking=no", "-o", "UserKnownHostsFile=/dev/null", "-o",
            "BatchMode=yes", "-o", "ConnectTimeout=15", "-o", "LogLevel=ERROR", "-o",
            "ProxyCommand=ssh -W %h:%p -o StrictHostKeyChecking=no -o UserKnownHostsFile=/dev/null -o BatchMode=yes -i '/my key' jump@5.6.7.8",
            "root@10.0.0.2", "uptime",
        ]
    );
}

#[test]
fn runs_through_a_jump_host() {
    assert_eq!(
        ssh_run_jump("5.6.7.8", "root", "10.0.0.2", "root", "/k", "uptime"),
        vec![
            "-i", "/k", "-o", "StrictHostKeyChecking=no", "-o", "UserKnownHostsFile=/dev/null", "-o",
            "BatchMode=yes", "-o", "ConnectTimeout=30", "-o", "LogLevel=ERROR", "-t", "-o",
            "ProxyCommand=ssh -W %h:%p -o StrictHostKeyChecking=no -o UserKnownHostsFile=/dev/null -o BatchMode=yes -i '/k' root@5.6.7.8",
            "root@10.0.0.2", "uptime",
        ]
    );
}

#[test]
fn command_is_the_last_argument() {
    let all = [
        ssh_capture("i", "u", "k", "c"),
        ssh_run("i", "u", "k", "c"),
        ssh_capture_jump("j", "u", "i", "u", "k", "c"),
        ssh_run_jump("j", "u", "i", "u", "k", "c"),
    ];
    for args in all {
        assert_eq!(args[args.len() - 2..], ["u@i".to_string(), "c".to_string()]);
    }
}

#[test]
fn captured_output_is_trimmed() {
    assert_eq!(capture_outcome(false, Some(0), " yes\n", "warning"), Ok("yes".to_string()));
    assert_eq!(capture_outcome(true, Some(0), "", ""), Ok("".to_string()));
}

#[test]
fn failed_capture_tells_code_and_stderr() {
    assert_eq!(
        capture_outcome(false, Some(255), "x", "refused\n"),
        Err("ssh exited 255 — stderr: refused\n".to_string())
    );
    assert_eq!(
        capture_outcome(true, None, "", "killed"),
        Err("ssh (jump) exited -1 — stderr: killed".to_string())
    );
}

#[test]
fn failed_run_tells_code() {
    assert_eq!(run_outcome(false, Some(0)), Ok(()));
    assert_eq!(run_outcome(true, Some(0)), Ok(()));
    assert_eq!(run_outcome(false, Some(2)), Err("Remote command exited 2".to_string()));
    assert_eq!(run_outcome(true, None), Err("Remote command (jump) exited -1".to_string()));
}

#[test]
fn ssh_that_does_not_start_is_reported() {
    assert_eq!(spawn_failure(false, "not found"), "Failed to spawn ssh: not found");
    assert_eq!(spawn_failure(true, "not found"), "Failed to spawn ssh (jump): not found");
}
