//! How commands reach a node: the arguments of `ssh`, directly or through a
//! jump host, and what its exit means.

use vstd::prelude::*;

use crate::text::{cat2, cat3, cat4, cat6, signed_decimal, signed_number, trim, trimmed};

verus! {

/// What `ssh -o ProxyCommand` is given to tunnel through a jump host.
pub open spec fn proxy_command(jump_ip: Seq<char>, user: Seq<char>, key: Seq<char>) -> Seq<char> {
    "ProxyCommand=ssh -W %h:%p -o StrictHostKeyChecking=no -o UserKnownHostsFile=/dev/null -o BatchMode=yes -i '"@
        + key + "' "@ + user + "@"@ + jump_ip
}

/// The arguments for capturing the output of a command on a node.
pub open spec fn capture_args(
    ip: Seq<char>,
    user: Seq<char>,
    key: Seq<char>,
    command: Seq<char>,
) -> Seq<Seq<char>> {
    seq![
        "-i"@,
        key,
        "-o"@,
        "StrictHostKeyChecking=no"@,
        "-o"@,
        "UserKnownHostsFile=/dev/null"@,
        "-o"@,
        "ConnectTimeout=15"@,
        "-o"@,
        "LogLevel=ERROR"@,
        user + "@"@ + ip,
        command,
    ]
}

/// The arguments for running a command on a node with its output shown.
pub open spec fn run_args(
    ip: Seq<char>,
    user: Seq<char>,
    key: Seq<char>,
    command: Seq<char>,
) -> Seq<Seq<char>> {
    seq![
        "-i"@,
        key,
        "-o"@,
        "StrictHostKeyChecking=no"@,
        "-o"@,
        "UserKnownHostsFile=/dev/null"@,
        "-o"@,
        "ConnectTimeout=30"@,
        "-o"@,
        "LogLevel=ERROR"@,
        "-t"@,
        user + "@"@ + ip,
        command,
    ]
}

/// The arguments for capturing the output of a command through a jump host.
pub open spec fn capture_jump_args(
    jump_ip: Seq<char>,
    jump_user: Seq<char>,
    ip: Seq<char>,
    user: Seq<char>,
    key: Seq<char>,
    command: Seq<char>,
) -> Seq<Seq<char>> {
    seq![
        "-i"@,
        key,
        "-o"@,
        "StrictHostKeyChecking=no"@,
        "-o"@,
        "UserKnownHostsFile=/dev/null"@,
        "-o"@,
        "BatchMode=yes"@,
        "-o"@,
        "ConnectTimeout=15"@,
        "-o"@,
        "LogLevel=ERROR"@,
        "-o"@,
        proxy_command(jump_ip, jump_user, key),
        user + "@"@ + ip,
        command,
    ]
}

/// The arguments for running a command through a jump host.
pub open spec fn run_jump_args(
    jump_ip: Seq<char>,
    jump_user: Seq<char>,
    ip: Seq<char>,
    user: Seq<char>,
    key: Seq<char>,
    command: Seq<char>,
) -> Seq<Seq<char>> {
    seq![
        "-i"@,
        key,
        "-o"@,
        "StrictHostKeyChecking=no"@,
        "-o"@,
        "UserKnownHostsFile=/dev/null"@,
        "-o"@,
        "BatchMode=yes"@,
        "-o"@,
        "ConnectTimeout=30"@,
        "-o"@,
        "LogLevel=ERROR"@,
        "-t"@,
        "-o"@,
        proxy_command(jump_ip, jump_user, key),
        user + "@"@ + ip,
        command,
    ]
}

/// The exit code that is shown; a process ended by a signal has none.
pub open spec fn shown_code(code: Option<i32>) -> int {
    match code {
        Some(c) => c as int,
        None => -1,
    }
}

/// Every command ends the argument list, behind the node it is meant for.
pub proof fn law_command_comes_last(
    jump_ip: Seq<char>,
    ip: Seq<char>,
    user: Seq<char>,
    key: Seq<char>,
    command: Seq<char>,
)
    ensures
        capture_args(ip, user, key, command).last() == command,
        run_args(ip, user, key, command).last() == command,
        capture_jump_args(jump_ip, user, ip, user, key, command).last() == command,
        run_jump_args(jump_ip, user, ip, user, key, command).last() == command,
        capture_args(ip, user, key, command).contains(user + "@"@ + ip),
        run_args(ip, user, key, command).contains(user + "@"@ + ip),
        capture_jump_args(jump_ip, user, ip, user, key, command).contains(user + "@"@ + ip),
        run_jump_args(jump_ip, user, ip, user, key, command).contains(user + "@"@ + ip),
        capture_jump_args(jump_ip, user, ip, user, key, command).contains(
            proxy_command(jump_ip, user, key),
        ),
        run_jump_args(jump_ip, user, ip, user, key, command).contains(proxy_command(jump_ip, user, key)),
{
    assert(capture_args(ip, user, key, command)[10] == user + "@"@ + ip);
    assert(run_args(ip, user, key, command)[11] == user + "@"@ + ip);
    assert(capture_jump_args(jump_ip, user, ip, user, key, command)[14] == user + "@"@ + ip);
    assert(run_jump_args(jump_ip, user, ip, user, key, command)[15] == user + "@"@ + ip);
    assert(capture_jump_args(jump_ip, user, ip, user, key, command)[13] == proxy_command(jump_ip, user, key));
    assert(run_jump_args(jump_ip, user, ip, user, key, command)[14] == proxy_command(jump_ip, user, key));
}

/// Every call of `ssh` begins with the private key and ends with the node, by
/// its own user and address, and the command.
pub open spec fn calls(args: Seq<Seq<char>>, ip: Seq<char>, user: Seq<char>, key: Seq<char>, command: Seq<char>) -> bool {
    &&& args.len() >= 4
    &&& args[0] == "-i"@
    &&& args[1] == key
    &&& args[args.len() - 2] == user + "@"@ + ip
    &&& args[args.len() - 1] == command
}

/// Whether a call has an option.
pub open spec fn has_option(args: Seq<Seq<char>>, option: Seq<char>) -> bool {
    exists|i: int| 0 <= i < args.len() - 1 && #[trigger] args[i] == "-o"@ && args[i + 1] == option
}

/// A command goes to the node that it is meant for with the key that it is
/// given, straight or through the jump host. A terminal is asked for if and
/// only if the output is shown.
pub proof fn law_ssh_reaches_the_node(
    jump_ip: Seq<char>,
    jump_user: Seq<char>,
    ip: Seq<char>,
    user: Seq<char>,
    key: Seq<char>,
    command: Seq<char>,
)
    ensures
        calls(capture_args(ip, user, key, command), ip, user, key, command),
        calls(run_args(ip, user, key, command), ip, user, key, command),
        calls(capture_jump_args(jump_ip, jump_user, ip, user, key, command), ip, user, key, command),
        calls(run_jump_args(jump_ip, jump_user, ip, user, key, command), ip, user, key, command),
        run_args(ip, user, key, command)[10] == "-t"@,
        run_jump_args(jump_ip, jump_user, ip, user, key, command)[12] == "-t"@,
        capture_args(ip, user, key, command).len() == 12,
        capture_jump_args(jump_ip, jump_user, ip, user, key, command).len() == 16,
{
}

/// A call through a jump host names that host, by its own user and address, and
/// the same key; a call without one names no such host. Host keys are never
/// asked about, and there is a time limit: fifteen seconds for capturing, and
/// thirty for running.
pub proof fn law_ssh_options(
    jump_ip: Seq<char>,
    jump_user: Seq<char>,
    ip: Seq<char>,
    user: Seq<char>,
    key: Seq<char>,
    command: Seq<char>,
)
    ensures
        ({
            let proxy = "ProxyCommand=ssh -W %h:%p -o StrictHostKeyChecking=no -o UserKnownHostsFile=/dev/null -o BatchMode=yes -i '"@
                + key + "' "@ + jump_user + "@"@ + jump_ip;
            let capture = capture_args(ip, user, key, command);
            let run = run_args(ip, user, key, command);
            let far_capture = capture_jump_args(jump_ip, jump_user, ip, user, key, command);
            let far_run = run_jump_args(jump_ip, jump_user, ip, user, key, command);
            &&& has_option(far_capture, proxy)
            &&& has_option(far_run, proxy)
            &&& has_option(far_capture, "BatchMode=yes"@)
            &&& has_option(far_run, "BatchMode=yes"@)
            &&& has_option(capture, "StrictHostKeyChecking=no"@)
            &&& has_option(run, "StrictHostKeyChecking=no"@)
            &&& has_option(far_capture, "StrictHostKeyChecking=no"@)
            &&& has_option(far_run, "StrictHostKeyChecking=no"@)
            &&& has_option(capture, "UserKnownHostsFile=/dev/null"@)
            &&& has_option(run, "UserKnownHostsFile=/dev/null"@)
            &&& has_option(far_capture, "UserKnownHostsFile=/dev/null"@)
            &&& has_option(far_run, "UserKnownHostsFile=/dev/null"@)
            &&& has_option(capture, "ConnectTimeout=15"@)
            &&& has_option(run, "ConnectTimeout=30"@)
            &&& has_option(far_capture, "ConnectTimeout=15"@)
            &&& has_option(far_run, "ConnectTimeout=30"@)
            &&& has_option(capture, "LogLevel=ERROR"@)
            &&& has_option(run, "LogLevel=ERROR"@)
            &&& has_option(far_capture, "LogLevel=ERROR"@)
            &&& has_option(far_run, "LogLevel=ERROR"@)
        }),
{
    let capture = capture_args(ip, user, key, command);
    let run = run_args(ip, user, key, command);
    let far_capture = capture_jump_args(jump_ip, jump_user, ip, user, key, command);
    let far_run = run_jump_args(jump_ip, jump_user, ip, user, key, command);
    assert(capture[2] == "-o"@ && capture[4] == "-o"@ && capture[6] == "-o"@ && capture[8] == "-o"@);
    assert(run[2] == "-o"@ && run[4] == "-o"@ && run[6] == "-o"@ && run[8] == "-o"@);
    assert(far_capture[2] == "-o"@ && far_capture[4] == "-o"@ && far_capture[6] == "-o"@ && far_capture[8] == "-o"@
        && far_capture[10] == "-o"@ && far_capture[12] == "-o"@);
    assert(far_run[2] == "-o"@ && far_run[4] == "-o"@ && far_run[6] == "-o"@ && far_run[8] == "-o"@ && far_run[10]
        == "-o"@ && far_run[13] == "-o"@);
}

fn proxy_text(jump_ip: &str, user: &str, key: &str) -> (r: String)
    ensures
        r@ == proxy_command(jump_ip@, user@, key@),
{
    cat6(
        "ProxyCommand=ssh -W %h:%p -o StrictHostKeyChecking=no -o UserKnownHostsFile=/dev/null -o BatchMode=yes -i '",
        key,
        "' ",
        user,
        "@",
        jump_ip,
    )
}

/// The arguments for capturing the output of a command on a node.
pub fn ssh_capture(ip: &str, user: &str, private_key_path: &str, command: &str) -> (r: Vec<String>)
    ensures
        r.deep_view() == capture_args(ip@, user@, private_key_path@, command@),
{
    let r: Vec<String> = vec![
        "-i".to_owned(),
        private_key_path.to_owned(),
        "-o".to_owned(),
        "StrictHostKeyChecking=no".to_owned(),
        "-o".to_owned(),
        "UserKnownHostsFile=/dev/null".to_owned(),
        "-o".to_owned(),
        "ConnectTimeout=15".to_owned(),
        "-o".to_owned(),
        "LogLevel=ERROR".to_owned(),
        cat3(user, "@", ip),
        command.to_owned(),
    ];
    assert(r.deep_view() =~= capture_args(ip@, user@, private_key_path@, command@));
    r
}

/// The arguments for running a command on a node with its output shown.
pub fn ssh_run(ip: &str, user: &str, private_key_path: &str, command: &str) -> (r: Vec<String>)
    ensures
        r.deep_view() == run_args(ip@, user@, private_key_path@, command@),
{
    let r: Vec<String> = vec![
        "-i".to_owned(),
        private_key_path.to_owned(),
        "-o".to_owned(),
        "StrictHostKeyChecking=no".to_owned(),
        "-o".to_owned(),
        "UserKnownHostsFile=/dev/null".to_owned(),
        "-o".to_owned(),
        "ConnectTimeout=30".to_owned(),
        "-o".to_owned(),
        "LogLevel=ERROR".to_owned(),
        "-t".to_owned(),
        cat3(user, "@", ip),
        command.to_owned(),
    ];
    assert(r.deep_view() =~= run_args(ip@, user@, private_key_path@, command@));
    r
}

/// The arguments for capturing the output of a command through a jump host.
pub fn ssh_capture_jump(
    jump_ip: &str,
    jump_user: &str,
    target_ip: &str,
    target_user: &str,
    private_key_path: &str,
    command: &str,
) -> (r: Vec<String>)
    ensures
        r.deep_view() == capture_jump_args(
            jump_ip@,
            jump_user@,
            target_ip@,
            target_user@,
            private_key_path@,
            command@,
        ),
{
    let r: Vec<String> = vec![
        "-i".to_owned(),
        private_key_path.to_owned(),
        "-o".to_owned(),
        "StrictHostKeyChecking=no".to_owned(),
        "-o".to_owned(),
        "UserKnownHostsFile=/dev/null".to_owned(),
        "-o".to_owned(),
        "BatchMode=yes".to_owned(),
        "-o".to_owned(),
        "ConnectTimeout=15".to_owned(),
        "-o".to_owned(),
        "LogLevel=ERROR".to_owned(),
        "-o".to_owned(),
        proxy_text(jump_ip, jump_user, private_key_path),
        cat3(target_user, "@", target_ip),
        command.to_owned(),
    ];
    assert(r.deep_view() =~= capture_jump_args(
        jump_ip@,
        jump_user@,
        target_ip@,
        target_user@,
        private_key_path@,
        command@,
    ));
    r
}

/// The arguments for running a command through a jump host.
pub fn ssh_run_jump(
    jump_ip: &str,
    jump_user: &str,
    target_ip: &str,
    target_user: &str,
    private_key_path: &str,
    command: &str,
) -> (r: Vec<String>)
    ensures
        r.deep_view() == run_jump_args(
            jump_ip@,
            jump_user@,
            target_ip@,
            target_user@,
            private_key_path@,
            command@,
        ),
{
    let r: Vec<String> = vec![
        "-i".to_owned(),
        private_key_path.to_owned(),
        "-o".to_owned(),
        "StrictHostKeyChecking=no".to_owned(),
        "-o".to_owned(),
        "UserKnownHostsFile=/dev/null".to_owned(),
        "-o".to_owned(),
        "BatchMode=yes".to_owned(),
        "-o".to_owned(),
        "ConnectTimeout=30".to_owned(),
        "-o".to_owned(),
        "LogLevel=ERROR".to_owned(),
        "-t".to_owned(),
        "-o".to_owned(),
        proxy_text(jump_ip, jump_user, private_key_path),
        cat3(target_user, "@", target_ip),
        command.to_owned(),
    ];
    assert(r.deep_view() =~= run_jump_args(
        jump_ip@,
        jump_user@,
        target_ip@,
        target_user@,
        private_key_path@,
        command@,
    ));
    r
}

fn code_text(code: Option<i32>) -> (r: String)
    ensures
        r@ == signed_decimal(shown_code(code)),
{
    match code {
        Some(c) => signed_number(c as i64),
        None => signed_number(-1),
    }
}

/// What came of capturing: the output without surrounding white space where
/// `ssh` exited with zero, else why not.
pub fn capture_outcome(jump: bool, code: Option<i32>, stdout: &str, stderr: &str) -> (r: Result<
    String,
    String,
>)
    ensures
        match r {
            Ok(output) => code == Some(0i32) && output@ == trimmed(stdout@),
            Err(e) => code != Some(0i32) && e@ == (if jump {
                "ssh (jump) exited "@
            } else {
                "ssh exited "@
            }) + signed_decimal(shown_code(code)) + " — stderr: "@ + stderr@,
        },
{
    if let Some(c) = code {
        if c == 0 {
            return Ok(trim(stdout));
        }
    }
    let head = if jump {
        "ssh (jump) exited "
    } else {
        "ssh exited "
    };
    Err(cat4(head, code_text(code).as_str(), " — stderr: ", stderr))
}

/// What came of running: success where `ssh` exited with zero, else why not.
pub fn run_outcome(jump: bool, code: Option<i32>) -> (r: Result<(), String>)
    ensures
        match r {
            Ok(_) => code == Some(0i32),
            Err(e) => code != Some(0i32) && e@ == (if jump {
                "Remote command (jump) exited "@
            } else {
                "Remote command exited "@
            }) + signed_decimal(shown_code(code)),
        },
{
    if let Some(c) = code {
        if c == 0 {
            return Ok(());
        }
    }
    let head = if jump {
        "Remote command (jump) exited "
    } else {
        "Remote command exited "
    };
    Err(cat2(head, code_text(code).as_str()))
}

/// Why `ssh` could not be started.
pub fn spawn_failure(jump: bool, reason: &str) -> (r: String)
    ensures
        r@ == (if jump {
            "Failed to spawn ssh (jump): "@
        } else {
            "Failed to spawn ssh: "@
        }) + reason@,
{
    let head = if jump {
        "Failed to spawn ssh (jump): "
    } else {
        "Failed to spawn ssh: "
    };
    cat2(head, reason)
}

/// What `ssh` did counts as a success if and only if it exited with zero. What
/// was captured is then its output without the white space around it. Otherwise
/// the error tells the exit code, which is -1 where there is none, and what was
/// printed as an error.
pub proof fn law_only_zero_is_success(
    jump: bool,
    code: Option<i32>,
    stdout: &str,
    stderr: &str,
    captured: Result<String, String>,
    ran: Result<(), String>,
)
    requires
        call_ensures(capture_outcome, (jump, code, stdout, stderr), captured),
        call_ensures(run_outcome, (jump, code), ran),
    ensures
        captured is Ok <==> code == Some(0i32),
        ran is Ok <==> code == Some(0i32),
        captured matches Ok(output) ==> output@ == trimmed(stdout@),
        ({
            let told = match code {
                Some(c) => signed_decimal(c as int),
                None => signed_decimal(-1),
            };
            &&& captured matches Err(e) ==> e@ == (if jump {
                "ssh (jump) exited "@
            } else {
                "ssh exited "@
            }) + told + " — stderr: "@ + stderr@
            &&& ran matches Err(e) ==> e@ == (if jump {
                "Remote command (jump) exited "@
            } else {
                "Remote command exited "@
            }) + told
        }),
{
}

} // verus!
