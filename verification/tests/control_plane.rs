use maglev::cp::cilium::{
    approve_pending_csrs, parse_pending, provision_cilium, APPROVE_LATER, CHECK_COMMAND, INSTALL_COMMAND,
    LIST_COMMAND, LIST_WITH_REQUESTOR_COMMAND, STATUS_COMMAND,
};
use maglev::cp::{
    ensure_cp_endpoint_resolves, provision_control_plane_node, verify_control_plane_endpoint, Guard,
    ADMIN_KUBECONFIG,
};
use maglev::session::{Action, Event, Note, Progress, OUT_OF_STEP};

type Log = Vec<Note<String>>;

fn wait<M>(p: Progress<M, String>) -> (M, Action<String>) {
    match p {
        Progress::Wait(m, a) => (m, a),
        Progress::Done => panic!("done"),
        Progress::Failed(e) => panic!("failed: {e}"),
    }
}

fn failure<M>(p: Progress<M, String>) -> String {
    match p {
        Progress::Failed(e) => e,
        _ => panic!("did not fail"),
    }
}

fn say(s: &str) -> Note<String> {
    Note::Say(s.to_string())
}

fn output(s: &str) -> Event<String> {
    Event::Output(s.to_string())
}

fn failed(s: &str) -> Event<String> {
    Event::Failed(s.to_string())
}

fn list(items: &[&str]) -> Vec<String> {
    items.iter().map(|s| s.to_string()).collect()
}

fn run(command: &str) -> Action<String> {
    Action::Run { ip: "10.0.0.1".to_string(), jump: Some("5.6.7.8".to_string()), command: command.to_string() }
}

fn capture(command: &str) -> Action<String> {
    Action::Capture { ip: "10.0.0.1".to_string(), jump: Some("5.6.7.8".to_string()), command: command.to_string() }
}

fn confirm(question: &str) -> Action<String> {
    Action::Confirm(question.to_string())
}

fn jump() -> Option<String> {
    Some("5.6.7.8".to_string())
}

// ── initialising a node ────────────────────────────────────────────────────

#[test]
fn single_control_plane_is_initialised() {
    let mut log = Log::new();
    let (m, a) = wait(provision_control_plane_node(
        "10.0.0.1".to_string(),
        "cp".to_string(),
        "k8s:6443",
        false,
        jump(),
        false,
        &vec![],
        &mut log,
    ));
    assert_eq!(
        a,
        run("cat > /tmp/kubeadm-config.yaml <<'KUBEADM_CONFIG_EOF'\n\
             apiVersion: kubeadm.k8s.io/v1beta4\n\
             kind: InitConfiguration\n\
             skipPhases:\n\
             - addon/kube-proxy\n\
             ---\n\
             apiVersion: kubeadm.k8s.io/v1beta4\n\
             kind: ClusterConfiguration\n\
             ---\n\
             apiVersion: kubelet.config.k8s.io/v1beta1\n\
             kind: KubeletConfiguration\n\
             serverTLSBootstrap: true\n\
             \nKUBEADM_CONFIG_EOF")
    );
    let (m, a) = wait(m.step(Event::Finished, &mut log));
    assert_eq!(a, confirm("  Run kubeadm init?"));
    let (m, a) = wait(m.step(Event::Answer(true), &mut log));
    assert_eq!(a, run("sudo kubeadm init --config /tmp/kubeadm-config.yaml"));
    let (_, a) = wait(m.step(Event::Finished, &mut log));
    assert_eq!(a, capture(CHECK_COMMAND));
    assert_eq!(
        log,
        vec![
            say("\n  → Step A: initialise the cluster with kubeadm"),
            say("    $ sudo kubeadm init --config /tmp/kubeadm-config.yaml"),
            say("\n  Running kubeadm init — this may take several minutes …\n"),
            say("\n  ✓ kubeadm init complete."),
        ]
    );
}

#[test]
fn highly_available_control_plane_names_its_endpoint() {
    let mut log = Log::new();
    let (m, a) = wait(provision_control_plane_node(
        "10.0.0.1".to_string(),
        "cp".to_string(),
        "k8s:6443",
        true,
        jump(),
        true,
        &list(&["192.168.1.100", "api.example.com"]),
        &mut log,
    ));
    assert_eq!(
        a,
        run("cat > /tmp/kubeadm-config.yaml <<'KUBEADM_CONFIG_EOF'\n\
             apiVersion: kubeadm.k8s.io/v1beta4\n\
             kind: InitConfiguration\n\
             skipPhases:\n\
             - addon/kube-proxy\n\
             ---\n\
             apiVersion: kubeadm.k8s.io/v1beta4\n\
             kind: ClusterConfiguration\n\
             controlPlaneEndpoint: k8s:6443\n\
             apiServer:\n  certSANs:\n  - 192.168.1.100\n  - api.example.com\n\
             ---\n\
             apiVersion: kubelet.config.k8s.io/v1beta1\n\
             kind: KubeletConfiguration\n\
             serverTLSBootstrap: true\n\
             \nKUBEADM_CONFIG_EOF")
    );
    let (_, a) = wait(m.step(Event::Finished, &mut log));
    assert_eq!(a, run("sudo kubeadm init --config /tmp/kubeadm-config.yaml --upload-certs"));
    assert_eq!(log[2], say("  Run kubeadm init? [auto-approved]"));
}

#[test]
fn declined_initialisation_ends_quietly() {
    let mut log = Log::new();
    let start = provision_control_plane_node(
        "10.0.0.1".to_string(),
        "cp".to_string(),
        "k8s:6443",
        false,
        None,
        false,
        &vec![],
        &mut log,
    );
    let (m, _) = wait(start);
    let (m, _) = wait(m.step(Event::Finished, &mut log));
    assert!(matches!(m.step(Event::Answer(false), &mut log), Progress::Done));
    assert_eq!(log[2], say("  Skipped — aborting control-plane provisioning for cp."));
}

#[test]
fn failures_of_the_initialisation_are_passed_on() {
    let begin = |log: &mut Log| {
        wait(provision_control_plane_node(
            "10.0.0.1".to_string(),
            "cp".to_string(),
            "k8s:6443",
            false,
            None,
            true,
            &vec![],
            log,
        ))
        .0
    };
    let mut log = Log::new();
    assert_eq!(failure(begin(&mut log).step(failed("no space"), &mut log)), "no space");
    let (m, _) = wait(begin(&mut log).step(Event::Finished, &mut log));
    assert_eq!(failure(m.step(failed("Remote command exited 1"), &mut log)), "Remote command exited 1");
    assert_eq!(failure(begin(&mut log).step(Event::Answer(true), &mut log)), OUT_OF_STEP);
}

#[test]
fn network_follows_the_initialisation() {
    let mut log = Log::new();
    let (m, _) = wait(provision_control_plane_node(
        "10.0.0.1".to_string(),
        "cp".to_string(),
        "k8s:6443",
        false,
        jump(),
        true,
        &vec![],
        &mut log,
    ));
    let (m, _) = wait(m.step(Event::Finished, &mut log));
    let (m, _) = wait(m.step(Event::Finished, &mut log));
    let (m, a) = wait(m.step(output("not_installed"), &mut log));
    assert_eq!(a, run(INSTALL_COMMAND));
    let (m, _) = wait(m.step(Event::Finished, &mut log));
    let (m, a) = wait(m.step(output(""), &mut log));
    assert_eq!(a, run(STATUS_COMMAND));
    assert!(matches!(m.step(Event::Finished, &mut log), Progress::Done));
    assert_eq!(log.last(), Some(&say("\n  ✓ cp control-plane provisioning complete.")));
}

// ── the stored endpoint ────────────────────────────────────────────────────

#[test]
fn stored_endpoint_that_is_expected_is_shown() {
    let mut log = Log::new();
    assert_eq!(verify_control_plane_endpoint("cp", "k8s:6443", "controlPlaneEndpoint: k8s:6443", &mut log), Ok(()));
    assert_eq!(log, vec![say("  ✓ controlPlaneEndpoint: k8s")]);
}

#[test]
fn another_stored_endpoint_is_a_warning() {
    let mut log = Log::new();
    assert_eq!(verify_control_plane_endpoint("cp", "k8s:6443", "controlPlaneEndpoint: old", &mut log), Ok(()));
    assert_eq!(
        log,
        vec![
            say("  ✓ controlPlaneEndpoint: old"),
            Note::Warn(
                "  ⚠  controlPlaneEndpoint in kubeadm-config (old:6443) differs from the value in your config \
                 (k8s:6443).\nThe join command will target the stored endpoint — this is correct behaviour. \
                 Update your config if needed."
                    .to_string()
            ),
        ]
    );
}

#[test]
fn missing_stored_endpoint_is_an_error() {
    for printed in ["", "controlPlaneEndpoint:  ", "nonsense"] {
        let mut log = Log::new();
        let e = verify_control_plane_endpoint("cp", "k8s:6443", printed, &mut log).unwrap_err();
        assert!(e.starts_with("Cluster on cp has no controlPlaneEndpoint stored in kubeadm-config.\n\n"));
        assert!(e.contains("\n\tsudo kubeadm init --control-plane-endpoint k8s:6443 --upload-certs\n"));
        assert!(e.ends_with("to the relevant spec block in your config."));
        assert!(log.is_empty());
    }
}

// ── resolving the endpoint ─────────────────────────────────────────────────

fn guard(endpoint: &str, auto: bool, log: &mut Log) -> Progress<Guard<String>, String> {
    ensure_cp_endpoint_resolves(
        "worker".to_string(),
        endpoint,
        "10.0.0.9".to_string(),
        auto,
        "10.0.0.1".to_string(),
        jump(),
        log,
    )
}

#[test]
fn address_needs_no_look_up() {
    let mut log = Log::new();
    for endpoint in ["10.0.0.9:6443", "10.0.0.9", "fd00::1", "::1", "1:2:3:4:5:6:7:8"] {
        assert!(matches!(guard(endpoint, false, &mut log), Progress::Done), "{endpoint}");
    }
    assert!(log.is_empty());
}

#[test]
fn resolving_host_is_left_alone() {
    let mut log = Log::new();
    let (g, a) = wait(guard("k8s:6443", false, &mut log));
    assert_eq!(a, capture("getent hosts k8s 2>/dev/null | awk '{ print $1 }' || echo ''"));
    assert!(matches!(g.step(output("10.0.0.9\n"), &mut log), Progress::Done));
    assert_eq!(
        log,
        vec![say("  Checking if 'k8s' resolves on worker …"), say("  ✓ 'k8s' resolves to 10.0.0.9.")]
    );
}

#[test]
fn unresolvable_host_is_added() {
    let mut log = Log::new();
    let (g, _) = wait(guard("k8s:6443", false, &mut log));
    let (g, a) = wait(g.step(output(""), &mut log));
    assert_eq!(a, confirm("  Add '10.0.0.9  k8s' to /etc/hosts on worker?"));
    let (g, a) = wait(g.step(Event::Answer(true), &mut log));
    assert_eq!(a, run("grep -qF 'k8s' /etc/hosts || echo '10.0.0.9  k8s' | sudo tee -a /etc/hosts"));
    assert!(matches!(g.step(Event::Finished, &mut log), Progress::Done));
    assert_eq!(
        log[1],
        Note::Warn(
            "\n  ⚠  'k8s' does NOT resolve on worker.\n\
             \n\
             kubeadm will fail unless the name is resolvable before it starts.\n\
             \n\
             Long-term fix: provision a load-balancer, point DNS 'k8s' at it,\n\
             then remove the /etc/hosts workaround from every node.\n\
             \n\
             Short-term: maglev can add  10.0.0.9  k8s\n\
             to /etc/hosts on this node right now (idempotent — skipped if already present)."
                .to_string()
        )
    );
    assert_eq!(
        log[2],
        say("  ✓ Added '10.0.0.9  k8s' to /etc/hosts on worker.\n\
             \n\
             ℹ  This is a temporary placeholder.\n\
             ℹ  Once your load-balancer is live, run on EVERY node:\n\
             \n\
             \t  sudo sed -i '/k8s/d' /etc/hosts\n\
             \n\
             ℹ  Then ensure DNS resolves 'k8s' to the LB address.")
    );
}

#[test]
fn wrongly_resolving_host_is_updated() {
    let mut log = Log::new();
    let (g, _) = wait(guard("k8s:6443", true, &mut log));
    let (g, a) = wait(g.step(output("10.0.0.7"), &mut log));
    assert_eq!(
        a,
        run("sudo sed -i '/[[:space:]]k8s[[:space:]]*$/d' /etc/hosts && \
             echo '10.0.0.9  k8s' | sudo tee -a /etc/hosts")
    );
    assert_eq!(
        log[1],
        Note::Warn(
            "\n  ⚠  'k8s' currently resolves to 10.0.0.7 on worker,\n\
             but it should resolve to 10.0.0.9.\n\
             \n\
             kubeadm will fail or connect to the wrong endpoint.\n\
             \n\
             maglev will update /etc/hosts to fix this."
                .to_string()
        )
    );
    assert_eq!(log[2], say("  Update 'k8s' in /etc/hosts to 10.0.0.9 on worker? [auto-approved]"));
    assert!(matches!(g.step(Event::Finished, &mut log), Progress::Done));
    assert!(matches!(&log[3], Note::Say(s) if s.starts_with("  ✓ Updated 'k8s' in /etc/hosts to 10.0.0.9 on worker.\n")));
}

#[test]
fn refused_entries_abort_with_instructions() {
    let mut log = Log::new();
    let (g, _) = wait(guard("k8s:6443", false, &mut log));
    let (g, _) = wait(g.step(output(""), &mut log));
    assert_eq!(
        failure(g.step(Event::Answer(false), &mut log)),
        "DNS resolution for 'k8s' is required before kubeadm can run.\n\
         \n\
         Add the following line to /etc/hosts on EVERY cluster node\n\
         (all control-plane + worker nodes) before re-running 'maglev play':\n\
         \n\
         \t10.0.0.9  k8s\n\
         \n\
         Example (run on each node):\n\
         \n\
         \techo '10.0.0.9  k8s' | sudo tee -a /etc/hosts\n\
         \n\
         Once a real load-balancer is provisioned, update the entry to point\n\
         to the LB address, or delete it and let DNS handle resolution:\n\
         \n\
         \tsudo sed -i '/k8s/d' /etc/hosts"
    );
    let (g, _) = wait(guard("k8s:6443", false, &mut log));
    let (g, a) = wait(g.step(output("1.1.1.1"), &mut log));
    assert_eq!(a, confirm("  Update 'k8s' in /etc/hosts to 10.0.0.9 on worker?"));
    assert_eq!(
        failure(g.step(Event::Answer(false), &mut log)),
        "DNS resolution mismatch for 'k8s'.\n\
         \n\
         Currently resolves to: 1.1.1.1\n\
         Expected to resolve to: 10.0.0.9\n\
         \n\
         Update the entry in /etc/hosts on EVERY cluster node\n\
         (all control-plane + worker nodes) before re-running 'maglev play':\n\
         \n\
         \tsudo sed -i '/[[:space:]]k8s[[:space:]]*$/d' /etc/hosts && \
         echo '10.0.0.9  k8s' | sudo tee -a /etc/hosts\n\
         \n\
         Once a real load-balancer is provisioned, update the entry to point\n\
         to the LB address, or delete it and let DNS handle resolution:\n\
         \n\
         \tsudo sed -i '/k8s/d' /etc/hosts"
    );
}

#[test]
fn failures_of_the_endpoint_check_are_passed_on() {
    let mut log = Log::new();
    let (g, _) = wait(guard("k8s:6443", true, &mut log));
    assert_eq!(failure(g.step(failed("unreachable"), &mut log)), "unreachable");
    let (g, _) = wait(guard("k8s:6443", true, &mut log));
    let (g, _) = wait(g.step(output(""), &mut log));
    assert_eq!(failure(g.step(failed("read-only"), &mut log)), "read-only");
    let (g, _) = wait(guard("k8s:6443", true, &mut log));
    assert_eq!(failure(g.step(Event::Finished, &mut log)), OUT_OF_STEP);
}

// ── CSRs ───────────────────────────────────────────────────────────────────

#[test]
fn pending_csrs_are_read_line_by_line() {
    assert_eq!(
        parse_pending("\ncsr-a\n  csr-b  \n\n", false),
        vec![("csr-a".to_string(), String::new()), ("csr-b".to_string(), String::new())]
    );
    assert_eq!(
        parse_pending("csr-a worker-1 more\ncsr-b\n", true),
        vec![("csr-a".to_string(), "worker-1".to_string()), ("csr-b".to_string(), String::new())]
    );
    assert!(parse_pending("", true).is_empty());
}

#[test]
fn pending_csrs_are_approved_together() {
    let mut log = Log::new();
    let (m, a) = wait(approve_pending_csrs("10.0.0.1".to_string(), jump(), false, true, &mut log));
    assert_eq!(a, capture(LIST_WITH_REQUESTOR_COMMAND));
    let (m, a) = wait(m.step(output("csr-a worker-1\ncsr-b"), &mut log));
    assert_eq!(a, confirm("  Approve all 2 pending CSR(s) now?"));
    let (m, a) = wait(m.step(Event::Answer(true), &mut log));
    assert_eq!(a, run("kubectl --kubeconfig /etc/kubernetes/admin.conf certificate approve csr-a csr-b"));
    assert!(matches!(m.step(Event::Finished, &mut log), Progress::Done));
    assert_eq!(
        log,
        vec![
            say("\n  → Step B.5: approve pending kubelet-serving CSRs"),
            say("\n  Found 2 pending CSR(s) waiting for approval:\n"),
            say("    • csr-a (requestor: worker-1)"),
            say("    • csr-b"),
            say(""),
            say("    $ kubectl --kubeconfig /etc/kubernetes/admin.conf certificate approve csr-a csr-b"),
            say("  ✓ All 2 pending CSR(s) approved."),
        ]
    );
}

#[test]
fn no_pending_csrs_is_no_work() {
    for event in [output("\n \n"), failed("unreachable")] {
        let mut log = Log::new();
        let (m, a) = wait(approve_pending_csrs("10.0.0.1".to_string(), jump(), true, false, &mut log));
        assert_eq!(a, capture(LIST_COMMAND));
        assert!(matches!(m.step(event, &mut log), Progress::Done));
        assert_eq!(log[1], say("  No pending CSRs found — skipping."));
    }
}

#[test]
fn declined_csrs_stay_pending() {
    let mut log = Log::new();
    let (m, _) = wait(approve_pending_csrs("10.0.0.1".to_string(), jump(), false, false, &mut log));
    let (m, _) = wait(m.step(output("csr-a"), &mut log));
    assert!(matches!(m.step(Event::Answer(false), &mut log), Progress::Done));
    assert_eq!(log.last(), Some(&say(APPROVE_LATER)));
    assert!(APPROVE_LATER.contains(ADMIN_KUBECONFIG));
}

#[test]
fn failed_approval_is_only_reported() {
    let mut log = Log::new();
    let (m, _) = wait(approve_pending_csrs("10.0.0.1".to_string(), jump(), true, false, &mut log));
    let (m, _) = wait(m.step(output("csr-a"), &mut log));
    assert_eq!(log[4], say("  Approve all 1 pending CSR(s) now? [auto-approved]"));
    assert!(matches!(m.step(failed("exit 1"), &mut log), Progress::Done));
    assert_eq!(
        log.last(),
        Some(&Note::Warn(
            "  ⚠ Failed to approve CSRs (exit 1).\nCilium may still become healthy — continuing.".to_string()
        ))
    );
}

#[test]
fn csr_outcome_out_of_step_is_an_error() {
    let mut log = Log::new();
    let (m, _) = wait(approve_pending_csrs("10.0.0.1".to_string(), jump(), true, false, &mut log));
    assert_eq!(failure(m.step(Event::Finished, &mut log)), OUT_OF_STEP);
}

#[test]
fn list_commands_select_pending_kubelet_serving_requests() {
    assert_eq!(
        LIST_COMMAND,
        "kubectl --kubeconfig /etc/kubernetes/admin.conf get csr --no-headers 2>/dev/null \
         | awk '$3 == \"kubernetes.io/kubelet-serving\" && $NF == \"Pending\" {print $1}'"
    );
    assert_eq!(
        LIST_WITH_REQUESTOR_COMMAND,
        "kubectl --kubeconfig /etc/kubernetes/admin.conf get csr --no-headers 2>/dev/null \
         | awk '$3 == \"kubernetes.io/kubelet-serving\" && ($NF == \"Pending\" || $(NF-1) == \"Pending\") \
         { if ($(NF-1) == \"Pending\") print $1, $NF; else print $1 }'"
    );
    assert!(APPROVE_LATER.contains("$3 == \"kubernetes.io/kubelet-serving\" && $NF == \"Pending\""));
}

// ── Cilium ─────────────────────────────────────────────────────────────────

#[test]
fn cilium_is_installed_and_waited_for() {
    let mut log = Log::new();
    let (m, a) = wait(provision_cilium("10.0.0.1".to_string(), "cp".to_string(), jump(), false, &mut log));
    assert_eq!(
        a,
        capture(
            "kubectl --kubeconfig /etc/kubernetes/admin.conf get daemonset -n kube-system cilium \
             >/dev/null 2>&1 && echo installed || echo not_installed"
        )
    );
    let (m, a) = wait(m.step(output("not_installed"), &mut log));
    assert_eq!(a, confirm("  Run cilium install?"));
    let (m, a) = wait(m.step(Event::Answer(true), &mut log));
    assert_eq!(a, run("cilium --kubeconfig /etc/kubernetes/admin.conf install"));
    let (m, a) = wait(m.step(Event::Finished, &mut log));
    assert_eq!(a, capture(LIST_COMMAND));
    let (m, a) = wait(m.step(output("csr-a"), &mut log));
    assert_eq!(a, confirm("  Approve all 1 pending CSR(s) now?"));
    let (m, a) = wait(m.step(Event::Answer(false), &mut log));
    assert_eq!(a, confirm("  Run cilium status --wait?"));
    let (m, a) = wait(m.step(Event::Answer(true), &mut log));
    assert_eq!(a, run("cilium --kubeconfig /etc/kubernetes/admin.conf status --wait"));
    assert!(matches!(m.step(Event::Finished, &mut log), Progress::Done));
    assert_eq!(
        log[log.len() - 2..],
        [say("\n  ✓ Cilium is ready."), say("\n  ✓ cp control-plane provisioning complete.")]
    );
}

#[test]
fn deployed_cilium_is_not_installed_again() {
    let mut log = Log::new();
    let (m, _) = wait(provision_cilium("10.0.0.1".to_string(), "cp".to_string(), jump(), true, &mut log));
    let (_, a) = wait(m.step(output("installed\n"), &mut log));
    assert_eq!(a, capture(LIST_COMMAND));
    assert_eq!(log[0], say("\n  → Step B: Cilium CNI already deployed (idempotent skip)"));
}

#[test]
fn failed_cilium_commands_are_retried_as_root() {
    let mut log = Log::new();
    let (m, _) = wait(provision_cilium("10.0.0.1".to_string(), "cp".to_string(), jump(), true, &mut log));
    let (m, a) = wait(m.step(failed("unreachable"), &mut log));
    assert_eq!(a, run(INSTALL_COMMAND));
    let (m, a) = wait(m.step(failed("denied"), &mut log));
    assert_eq!(a, run("sudo cilium --kubeconfig /etc/kubernetes/admin.conf install"));
    assert_eq!(
        log[log.len() - 2..],
        [
            Note::Warn("  ⚠ cilium install failed (denied) — retrying with sudo …".to_string()),
            say("    $ sudo cilium --kubeconfig /etc/kubernetes/admin.conf install"),
        ]
    );
    let (m, _) = wait(m.step(Event::Finished, &mut log));
    let (m, a) = wait(m.step(output(""), &mut log));
    assert_eq!(a, run(STATUS_COMMAND));
    let (m, a) = wait(m.step(failed("denied"), &mut log));
    assert_eq!(a, run("sudo cilium --kubeconfig /etc/kubernetes/admin.conf status --wait"));
    assert_eq!(failure(m.step(failed("still denied"), &mut log)), "still denied");
}

#[test]
fn declined_cilium_steps_end_quietly() {
    let mut log = Log::new();
    let (m, _) = wait(provision_cilium("10.0.0.1".to_string(), "cp".to_string(), jump(), false, &mut log));
    let (m, _) = wait(m.step(output("not_installed"), &mut log));
    assert!(matches!(m.step(Event::Answer(false), &mut log), Progress::Done));
    assert_eq!(log.last(), Some(&say("  Skipped — Cilium CNI will not be deployed.")));

    let (m, _) = wait(provision_cilium("10.0.0.1".to_string(), "cp".to_string(), jump(), false, &mut log));
    let (m, _) = wait(m.step(output("installed"), &mut log));
    let (m, a) = wait(m.step(output(""), &mut log));
    assert_eq!(a, confirm("  Run cilium status --wait?"));
    assert!(matches!(m.step(Event::Answer(false), &mut log), Progress::Done));
    assert_eq!(log.last(), Some(&say("  Skipped — continuing without confirming Cilium health.")));
}
