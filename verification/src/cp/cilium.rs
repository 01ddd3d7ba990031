//! The cluster network: deploying Cilium, approving kubelet-serving CSRs, and
//! waiting for Cilium to become ready.

use vstd::prelude::*;

use crate::session::{
    goes_to, kept, say, warn, Action, Event, Log, Note, Progress, AUTO_APPROVED, OUT_OF_STEP,
};
use crate::text::{
    cat2, cat3, cat5, decimal, is_space, join, joined, law_joined_splits_up, law_single_word,
    law_trimmed_of_padded, law_words_apart, number, pieces, same, split, split_words, trim,
    trimmed, words,
};

verus! {

// ---------------------------------------------------------------------------
// Pending CSRs
// ---------------------------------------------------------------------------

/// Lists the pending CSRs whose signer, which stands in the third column, is
/// that of kubelet-serving certificates.
pub const LIST_COMMAND: &'static str = "kubectl --kubeconfig /etc/kubernetes/admin.conf get csr --no-headers 2>/dev/null \
    | awk '$3 == \"kubernetes.io/kubelet-serving\" && $NF == \"Pending\" {print $1}'";

/// Lists the same CSRs, with the column that may follow the condition.
pub const LIST_WITH_REQUESTOR_COMMAND: &'static str = "kubectl --kubeconfig /etc/kubernetes/admin.conf get csr --no-headers 2>/dev/null \
    | awk '$3 == \"kubernetes.io/kubelet-serving\" && ($NF == \"Pending\" || $(NF-1) == \"Pending\") { \
    if ($(NF-1) == \"Pending\") print $1, $NF; \
    else print $1 \
    }'";

pub const APPROVE_LATER: &'static str = "  Skipped — CSRs remain pending.\n\
    \n\
    ℹ  You can approve them later with:\n\
    \n\
    \t  kubectl --kubeconfig /etc/kubernetes/admin.conf get csr \\\n\
    \t    --no-headers | awk '$3 == \"kubernetes.io/kubelet-serving\" && $NF == \"Pending\" {print $1}' \\\n\
    \t    | xargs -r kubectl --kubeconfig /etc/kubernetes/admin.conf certificate approve";

/// Where the approval of pending CSRs stands.
pub enum CsrStage<S> {
    /// They are being listed.
    Listing,
    /// May they be approved? There are this many, and this command does it.
    AskApprove(usize, S),
    /// They are being approved; there are this many.
    Approving(usize),
}

/// The approval of all pending kubelet-serving CSRs of a cluster.
pub struct CsrApproval<S> {
    pub ip: S,
    pub jump: Option<S>,
    pub auto: bool,
    /// Whether the list also shows who requested each certificate.
    pub requestors: bool,
    pub stage: CsrStage<S>,
}

impl<S: DeepView> DeepView for CsrStage<S> {
    type V = CsrStage<S::V>;

    open spec fn deep_view(&self) -> CsrStage<S::V> {
        match *self {
            CsrStage::Listing => CsrStage::Listing,
            CsrStage::AskApprove(n, c) => CsrStage::AskApprove(n, c.deep_view()),
            CsrStage::Approving(n) => CsrStage::Approving(n),
        }
    }
}

impl<S: DeepView> DeepView for CsrApproval<S> {
    type V = CsrApproval<S::V>;

    open spec fn deep_view(&self) -> CsrApproval<S::V> {
        CsrApproval {
            ip: self.ip.deep_view(),
            jump: self.jump.deep_view(),
            auto: self.auto,
            requestors: self.requestors,
            stage: self.stage.deep_view(),
        }
    }
}

pub type CsrModel = CsrApproval<Seq<char>>;

pub type CsrStep = (Progress<CsrModel, Seq<char>>, Log);

/// The command that lists the pending kubelet-serving CSRs, one per line.
pub open spec fn list_command(requestors: bool) -> Seq<char> {
    if requestors {
        LIST_WITH_REQUESTOR_COMMAND@
    } else {
        LIST_COMMAND@
    }
}

/// `lines` without surrounding white space, and without the blank ones.
pub open spec fn filled(lines: Seq<Seq<char>>) -> Seq<Seq<char>>
    decreases lines.len(),
{
    if lines.len() == 0 {
        Seq::empty()
    } else if trimmed(lines.last()).len() == 0 {
        filled(lines.drop_last())
    } else {
        filled(lines.drop_last()).push(trimmed(lines.last()))
    }
}

/// The name of the CSR in a line of the list, and its requestor where one is
/// shown (else nothing).
pub open spec fn csr_of(line: Seq<char>, requestors: bool) -> (Seq<char>, Seq<char>) {
    if !requestors {
        (line, Seq::empty())
    } else {
        let w = words(line);
        (
            if w.len() > 0 {
                w[0]
            } else {
                Seq::empty()
            },
            if w.len() > 1 {
                w[1]
            } else {
                Seq::empty()
            },
        )
    }
}

/// The pending CSRs in a list.
pub open spec fn pending_csrs(raw: Seq<char>, requestors: bool) -> Seq<(Seq<char>, Seq<char>)> {
    filled(pieces(raw, '\n')).map_values(|line: Seq<char>| csr_of(line, requestors))
}

/// The command that approves all of `pending` in one go.
pub open spec fn approve_command(pending: Seq<(Seq<char>, Seq<char>)>) -> Seq<char> {
    "kubectl --kubeconfig /etc/kubernetes/admin.conf certificate approve "@ + joined(
        pending.map_values(|p: (Seq<char>, Seq<char>)| p.0),
        " "@,
    )
}

/// The line that shows one pending CSR.
pub open spec fn csr_line(csr: (Seq<char>, Seq<char>)) -> Seq<char> {
    if csr.1.len() == 0 {
        "    • "@ + csr.0
    } else {
        "    • "@ + csr.0 + " (requestor: "@ + csr.1 + ")"@
    }
}

/// The lines that show all pending CSRs.
pub open spec fn csr_lines(pending: Seq<(Seq<char>, Seq<char>)>, log: Log) -> Log
    decreases pending.len(),
{
    if pending.len() == 0 {
        log
    } else {
        csr_lines(pending.drop_last(), log).push(Note::Say(csr_line(pending.last())))
    }
}

pub open spec fn approve_question(count: nat) -> Seq<char> {
    "  Approve all "@ + decimal(count) + " pending CSR(s) now?"@
}

/// The approval starts with listing the CSRs.
pub open spec fn csr_begin(ip: Seq<char>, jump: Option<Seq<char>>, auto: bool, requestors: bool, log: Log) -> CsrStep {
    (
        Progress::Wait(
            CsrApproval { ip, jump, auto, requestors, stage: CsrStage::Listing },
            Action::Capture { ip, jump, command: list_command(requestors) },
        ),
        log.push(Note::Say("\n  → Step B.5: approve pending kubelet-serving CSRs"@)),
    )
}

/// All are approved.
pub open spec fn csr_approve(m: CsrModel, count: usize, command: Seq<char>, log: Log) -> CsrStep {
    (
        Progress::Wait(
            CsrApproval { stage: CsrStage::Approving(count), ..m },
            Action::Run { ip: m.ip, jump: m.jump, command },
        ),
        log.push(Note::Say("    $ "@ + command)),
    )
}

/// The list came.
pub open spec fn csr_listed(m: CsrModel, raw: Seq<char>, log: Log) -> CsrStep {
    let pending = pending_csrs(raw, m.requestors);
    let count = pending.len();
    if count == 0 {
        (Progress::Done, log.push(Note::Say("  No pending CSRs found — skipping."@)))
    } else {
        let shown = csr_lines(
            pending,
            log.push(
                Note::Say("\n  Found "@ + decimal(count) + " pending CSR(s) waiting for approval:\n"@),
            ),
        ).push(Note::Say(""@));
        if m.auto {
            csr_approve(
                m,
                count as usize,
                approve_command(pending),
                shown.push(Note::Say(approve_question(count) + AUTO_APPROVED@)),
            )
        } else {
            (
                Progress::Wait(
                    CsrApproval {
                        stage: CsrStage::AskApprove(count as usize, approve_command(pending)),
                        ..m
                    },
                    Action::Confirm(approve_question(count)),
                ),
                shown,
            )
        }
    }
}

/// What the approval does when it is told the outcome of its action. A list
/// that cannot be had counts as an empty one, and a failed approval is only
/// reported.
pub open spec fn csr_next(m: CsrModel, event: Event<Seq<char>>, log: Log) -> CsrStep {
    match (m.stage, event) {
        (CsrStage::Listing, Event::Output(raw)) => csr_listed(m, raw, log),
        (CsrStage::Listing, Event::Failed(_)) => csr_listed(m, ""@, log),
        (CsrStage::AskApprove(count, command), Event::Answer(yes)) => if yes {
            csr_approve(m, count, command, log)
        } else {
            (Progress::Done, log.push(Note::Say(APPROVE_LATER@)))
        },
        (CsrStage::Approving(count), Event::Finished) => (
            Progress::Done,
            log.push(Note::Say("  ✓ All "@ + decimal(count as nat) + " pending CSR(s) approved."@)),
        ),
        (CsrStage::Approving(_), Event::Failed(e)) => (
            Progress::Done,
            log.push(
                Note::Warn(
                    "  ⚠ Failed to approve CSRs ("@ + e
                        + ").\n\
                         Cilium may still become healthy — continuing."@,
                ),
            ),
        ),
        _ => (Progress::Failed(OUT_OF_STEP@), log),
    }
}

/// CSRs are approved only with approval, and with blanket approval no
/// question is put.
pub proof fn law_csrs_need_approval(m: CsrModel, event: Event<Seq<char>>, log: Log)
    ensures
        csr_next(m, event, log).0 matches Progress::Wait(_, Action::Run { .. }) ==> m.auto || event
            == Event::<Seq<char>>::Answer(true),
        csr_next(m, event, log).0 matches Progress::Wait(_, Action::Confirm(_)) ==> !m.auto,
{
}

/// Every command of the approval goes to the same node by the same route.
pub proof fn law_csrs_keep_route(m: CsrModel, event: Event<Seq<char>>, log: Log)
    ensures
        csr_next(m, event, log).0 matches Progress::Wait(n, a) ==> n.ip == m.ip && n.jump == m.jump && n.auto
            == m.auto && goes_to(a, m.ip, m.jump),
{
}

/// How far the approval is from its end.
pub open spec fn csr_rank(m: CsrModel) -> nat {
    match m.stage {
        CsrStage::Listing => 3,
        CsrStage::AskApprove(_, _) => 2,
        CsrStage::Approving(_) => 1,
    }
}

/// The approval comes to an end: every step takes it nearer.
pub proof fn law_csrs_end(m: CsrModel, event: Event<Seq<char>>, log: Log)
    ensures
        csr_next(m, event, log).0 matches Progress::Wait(n, _) ==> csr_rank(n) < csr_rank(m),
{
}

/// Whether an action is the one that belongs to the stage of the approval: the
/// list is that of the pending kubelet-serving CSRs.
pub open spec fn csr_asks(m: CsrModel, a: Action<Seq<char>>) -> bool {
    match (m.stage, a) {
        (CsrStage::Listing, Action::Capture { ip, jump, command }) => {
            &&& ip == m.ip
            &&& jump == m.jump
            &&& m.requestors ==> command
                == "kubectl --kubeconfig /etc/kubernetes/admin.conf get csr --no-headers 2>/dev/null \
                    | awk '$3 == \"kubernetes.io/kubelet-serving\" && ($NF == \"Pending\" || $(NF-1) == \"Pending\") { \
                    if ($(NF-1) == \"Pending\") print $1, $NF; \
                    else print $1 \
                    }'"@
            &&& !m.requestors ==> command
                == "kubectl --kubeconfig /etc/kubernetes/admin.conf get csr --no-headers 2>/dev/null \
                    | awk '$3 == \"kubernetes.io/kubelet-serving\" && $NF == \"Pending\" {print $1}'"@
        },
        (CsrStage::AskApprove(_, _), Action::Confirm(_)) => true,
        (CsrStage::Approving(_), Action::Run { ip, jump, .. }) => ip == m.ip && jump == m.jump,
        _ => false,
    }
}

/// The approval starts with the list, and every action belongs to the stage.
pub proof fn law_csrs_ask_rightly(
    ip: Seq<char>,
    jump: Option<Seq<char>>,
    auto: bool,
    requestors: bool,
    m: CsrModel,
    event: Event<Seq<char>>,
    log: Log,
)
    ensures
        csr_begin(ip, jump, auto, requestors, log).0 matches Progress::Wait(n, a) && csr_asks(n, a) && n == (
        CsrApproval { ip, jump, auto, requestors, stage: CsrStage::Listing }),
        csr_next(m, event, log).0 matches Progress::Wait(n, a) ==> csr_asks(n, a) && n.requestors == m.requestors,
{
}

/// The line of a list that shows a CSR.
pub open spec fn listed_line(name: Seq<char>, requestor: Seq<char>, requestors: bool) -> Seq<char> {
    if requestors {
        name + " "@ + requestor
    } else {
        name
    }
}

/// Whether `s` is not empty and holds no white space.
pub open spec fn is_token(s: Seq<char>) -> bool {
    s.len() > 0 && forall|i: int| 0 <= i < s.len() ==> !is_space(#[trigger] s[i])
}

proof fn lemma_listed_line(name: Seq<char>, requestor: Seq<char>, requestors: bool)
    requires
        is_token(name),
        is_token(requestor),
    ensures
        trimmed(listed_line(name, requestor, requestors)) == listed_line(name, requestor, requestors),
        !listed_line(name, requestor, requestors).contains('\n'),
        csr_of(listed_line(name, requestor, requestors), requestors).0 == name,
{
    reveal_strlit(" ");
    assert(" "@ =~= seq![' ']);
    let line = listed_line(name, requestor, requestors);
    assert(Seq::<char>::empty() + line + Seq::<char>::empty() =~= line);
    assert(!is_space(name[0]) && !is_space(name[name.len() - 1]) && !is_space(requestor[requestor.len() - 1]));
    assert(line[0] == name[0]);
    law_trimmed_of_padded(Seq::empty(), line, Seq::empty());
    assert forall|i: int| 0 <= i < line.len() implies line[i] != '\n' by {
        if i < name.len() {
            assert(line[i] == name[i]);
        } else if i > name.len() {
            assert(line[i] == requestor[i - name.len() - 1]);
        }
    }
    law_single_word(name);
    law_single_word(requestor);
    if requestors {
        assert(line =~= name + seq![' '] + requestor);
        law_words_apart(name, ' ', requestor);
        assert(words(line)[0] == name);
    }
}

proof fn lemma_filled_lines(lines: Seq<Seq<char>>)
    requires
        forall|i: int| 0 <= i < lines.len() ==> trimmed(#[trigger] lines[i]) == lines[i] && lines[i].len() > 0,
    ensures
        filled(lines) == lines,
    decreases lines.len(),
{
    if lines.len() > 0 {
        let front = lines.drop_last();
        assert forall|i: int| 0 <= i < front.len() implies trimmed(#[trigger] front[i]) == front[i]
            && front[i].len() > 0 by {
            assert(front[i] == lines[i]);
        }
        lemma_filled_lines(front);
        assert(trimmed(lines[lines.len() - 1]) == lines.last());
        assert(filled(lines) =~= lines);
    } else {
        assert(filled(lines) =~= lines);
    }
}

/// All the CSRs of a list are approved by one command, which names each of them
/// once and in order, and nothing else: for any list with one CSR per line, by
/// its name, or by its name and its requestor where those are shown. Without
/// blanket approval, that is the command that the operator is asked about.
pub proof fn law_csrs_approved_together(
    m: CsrModel,
    names: Seq<Seq<char>>,
    requestors: Seq<Seq<char>>,
    log: Log,
)
    requires
        m.stage is Listing,
        0 < names.len() <= usize::MAX,
        requestors.len() == names.len(),
        forall|i: int| 0 <= i < names.len() ==> is_token(#[trigger] names[i]),
        forall|i: int| 0 <= i < names.len() ==> is_token(#[trigger] requestors[i]),
    ensures
        ({
            let list = joined(
                Seq::new(names.len(), |i: int| listed_line(names[i], requestors[i], m.requestors)),
                "\n"@,
            );
            let approval = "kubectl --kubeconfig /etc/kubernetes/admin.conf certificate approve "@ + joined(
                names,
                " "@,
            );
            &&& csr_next(m, Event::Output(list), log).0 matches Progress::Wait(n, a)
            &&& m.auto ==> n.stage == CsrStage::<Seq<char>>::Approving(names.len() as usize) && a == (Action::Run {
                ip: m.ip,
                jump: m.jump,
                command: approval,
            })
            &&& !m.auto ==> n.stage == CsrStage::AskApprove(names.len() as usize, approval) && a == Action::Confirm(
                "  Approve all "@ + decimal(names.len()) + " pending CSR(s) now?"@,
            )
        }),
{
    reveal_strlit("\n");
    assert("\n"@ =~= seq!['\n']);
    let lines = Seq::new(names.len(), |i: int| listed_line(names[i], requestors[i], m.requestors));
    assert forall|i: int| 0 <= i < lines.len() implies trimmed(#[trigger] lines[i]) == lines[i] && lines[i].len() > 0
        && !lines[i].contains('\n') && csr_of(lines[i], m.requestors).0 == names[i] by {
        assert(is_token(names[i]));
        assert(is_token(requestors[i]));
        lemma_listed_line(names[i], requestors[i], m.requestors);
    }
    law_joined_splits_up(lines, '\n');
    lemma_filled_lines(lines);
    let pending = pending_csrs(joined(lines, "\n"@), m.requestors);
    assert(pending.len() == names.len());
    assert(pending.map_values(|p: (Seq<char>, Seq<char>)| p.0) =~= names);
}

/// Where there is nothing to list, or the list cannot be had, nothing is
/// approved and nothing is asked.
pub proof fn law_no_csrs_no_approval(m: CsrModel, e: Seq<char>, log: Log)
    requires
        m.stage is Listing,
    ensures
        csr_next(m, Event::Output(Seq::empty()), log).0 is Done,
        csr_next(m, Event::Failed(e), log).0 is Done,
{
    reveal_strlit("");
    let none = Seq::<char>::empty();
    assert(""@ =~= none);
    assert(none + none + none =~= none);
    law_trimmed_of_padded(none, none, none);
    let lines = pieces(none, '\n');
    assert(lines =~= seq![none]);
    assert(lines.last() == none);
    assert(lines.drop_last() =~= Seq::<Seq<char>>::empty());
    assert(filled(lines.drop_last()) =~= Seq::<Seq<char>>::empty());
    assert(filled(lines) =~= Seq::<Seq<char>>::empty());
}

/// What the operator was asked about is what is run, once they agree; where
/// they decline nothing is run. Whatever comes of the command, the approval is
/// over and never fails.
pub proof fn law_csrs_follow_the_answer(m: CsrModel, e: Seq<char>, log: Log)
    ensures
        m.stage matches CsrStage::AskApprove(count, command) ==> {
            &&& csr_next(m, Event::Answer(true), log).0 matches Progress::Wait(n, a) && n.stage == CsrStage::<
                Seq<char>,
            >::Approving(count) && a == (Action::Run { ip: m.ip, jump: m.jump, command })
            &&& csr_next(m, Event::Answer(false), log).0 is Done
        },
        m.stage is Approving ==> csr_next(m, Event::Finished, log).0 is Done && csr_next(
            m,
            Event::Failed(e),
            log,
        ).0 is Done,
{
}

/// Start approving all pending kubelet-serving CSRs with one question.
pub fn approve_pending_csrs(
    ip: String,
    jump: Option<String>,
    auto: bool,
    requestors: bool,
    log: &mut Vec<Note<String>>,
) -> (r: Progress<CsrApproval<String>, String>)
    ensures
        (r.deep_view(), final(log).deep_view()) == csr_begin(
            ip@,
            jump.deep_view(),
            auto,
            requestors,
            old(log).deep_view(),
        ),
{
    say(log, "\n  → Step B.5: approve pending kubelet-serving CSRs".to_owned());
    let command = if requestors {
        LIST_WITH_REQUESTOR_COMMAND.to_owned()
    } else {
        LIST_COMMAND.to_owned()
    };
    let action = Action::Capture { ip: ip.clone(), jump: jump.clone(), command };
    Progress::Wait(CsrApproval { ip, jump, auto, requestors, stage: CsrStage::Listing }, action)
}

/// The pending CSRs in a list.
pub fn parse_pending(raw: &str, requestors: bool) -> (r: Vec<(String, String)>)
    ensures
        r.deep_view() == pending_csrs(raw@, requestors),
{
    let lines = split(raw, '\n');
    let mut out: Vec<(String, String)> = Vec::new();
    let ghost all = lines.deep_view();
    let ghost each = |line: Seq<char>| csr_of(line, requestors);
    let mut i: usize = 0;
    assert(out.deep_view() =~= filled(all.take(0)).map_values(each));
    while i < lines.len()
        invariant
            i <= lines@.len(),
            all == lines.deep_view(),
            each == |line: Seq<char>| csr_of(line, requestors),
            out.deep_view() == filled(all.take(i as int)).map_values(each),
        decreases lines@.len() - i,
    {
        let line = trim(lines[i].as_str());
        let ghost before = out.deep_view();
        assert(all.take(i + 1).drop_last() =~= all.take(i as int));
        assert(all.take(i + 1).last() == lines@[i as int]@);
        if !line.as_str().is_empty() {
            let csr = read_csr(line.as_str(), requestors);
            out.push(csr);
            assert(out.deep_view() =~= before.push(csr_of(line@, requestors)));
            assert(filled(all.take(i as int)).push(line@).map_values(each) =~= before.push(each(line@)));
        }
        i = i + 1;
    }
    assert(all.take(i as int) =~= all);
    out
}

fn read_csr(line: &str, requestors: bool) -> (r: (String, String))
    ensures
        r.deep_view() == csr_of(line@, requestors),
{
    if !requestors {
        return (line.to_owned(), String::new());
    }
    let parts = split_words(line);
    assert(forall|i: int| 0 <= i < parts@.len() ==> parts.deep_view()[i] == (#[trigger] parts@[i])@);
    let name = if parts.len() > 0 {
        parts[0].clone()
    } else {
        String::new()
    };
    let requestor = if parts.len() > 1 {
        parts[1].clone()
    } else {
        String::new()
    };
    (name, requestor)
}

fn approve_text(pending: &Vec<(String, String)>) -> (r: String)
    ensures
        r@ == approve_command(pending.deep_view()),
{
    let mut names: Vec<String> = Vec::new();
    let mut i: usize = 0;
    while i < pending.len()
        invariant
            i <= pending@.len(),
            names@.len() == i,
            forall|j: int| 0 <= j < i ==> (#[trigger] names@[j])@ == pending@[j].0@,
        decreases pending@.len() - i,
    {
        names.push(pending[i].0.clone());
        i = i + 1;
    }
    assert(names.deep_view() =~= pending.deep_view().map_values(|p: (Seq<char>, Seq<char>)| p.0));
    cat2("kubectl --kubeconfig /etc/kubernetes/admin.conf certificate approve ", join(&names, " ").as_str())
}

fn show_pending(pending: &Vec<(String, String)>, log: &mut Vec<Note<String>>)
    ensures
        final(log).deep_view() == csr_lines(pending.deep_view(), old(log).deep_view()),
{
    let ghost all = pending.deep_view();
    let ghost start = log.deep_view();
    let mut i: usize = 0;
    while i < pending.len()
        invariant
            i <= pending@.len(),
            all == pending.deep_view(),
            log.deep_view() == csr_lines(all.take(i as int), start),
        decreases pending@.len() - i,
    {
        assert(all.take(i + 1).drop_last() =~= all.take(i as int));
        assert(all.take(i + 1).last() == pending@[i as int].deep_view());
        let (name, requestor) = &pending[i];
        if requestor.as_str().is_empty() {
            say(log, cat2("    • ", name.as_str()));
        } else {
            say(log, cat5("    • ", name.as_str(), " (requestor: ", requestor.as_str(), ")"));
        }
        i = i + 1;
    }
    assert(all.take(i as int) =~= all);
}

impl CsrApproval<String> {
    fn approve(self, count: usize, command: String, log: &mut Vec<Note<String>>) -> (r: Progress<
        CsrApproval<String>,
        String,
    >)
        ensures
            (r.deep_view(), final(log).deep_view()) == csr_approve(
                self.deep_view(),
                count,
                command@,
                old(log).deep_view(),
            ),
    {
        say(log, cat2("    $ ", command.as_str()));
        let action = Action::Run { ip: self.ip.clone(), jump: self.jump.clone(), command };
        Progress::Wait(CsrApproval { stage: CsrStage::Approving(count), ..self }, action)
    }

    fn listed(self, raw: &str, log: &mut Vec<Note<String>>) -> (r: Progress<CsrApproval<String>, String>)
        ensures
            (r.deep_view(), final(log).deep_view()) == csr_listed(self.deep_view(), raw@, old(log).deep_view()),
    {
        let pending = parse_pending(raw, self.requestors);
        let count = pending.len();
        if count == 0 {
            say(log, "  No pending CSRs found — skipping.".to_owned());
            return Progress::Done;
        }
        let shown = number(count as u64);
        say(log, cat3("\n  Found ", shown.as_str(), " pending CSR(s) waiting for approval:\n"));
        show_pending(&pending, log);
        say(log, "".to_owned());
        let question = cat3("  Approve all ", shown.as_str(), " pending CSR(s) now?");
        let command = approve_text(&pending);
        if self.auto {
            say(log, question.concat(AUTO_APPROVED));
            self.approve(count, command, log)
        } else {
            Progress::Wait(
                CsrApproval { stage: CsrStage::AskApprove(count, command), ..self },
                Action::Confirm(question),
            )
        }
    }

    /// Take the outcome of the action that was asked for.
    pub fn step(self, event: Event<String>, log: &mut Vec<Note<String>>) -> (r: Progress<
        CsrApproval<String>,
        String,
    >)
        ensures
            (r.deep_view(), final(log).deep_view()) == csr_next(
                self.deep_view(),
                event.deep_view(),
                old(log).deep_view(),
            ),
    {
        let CsrApproval { ip, jump, auto, requestors, stage } = self;
        match (stage, event) {
            (CsrStage::Listing, Event::Output(raw)) => {
                CsrApproval { ip, jump, auto, requestors, stage: CsrStage::Listing }.listed(
                    raw.as_str(),
                    log,
                )
            },
            (CsrStage::Listing, Event::Failed(_)) => {
                CsrApproval { ip, jump, auto, requestors, stage: CsrStage::Listing }.listed("", log)
            },
            (CsrStage::AskApprove(count, command), Event::Answer(yes)) => if yes {
                CsrApproval { ip, jump, auto, requestors, stage: CsrStage::Listing }.approve(
                    count,
                    command,
                    log,
                )
            } else {
                say(log, APPROVE_LATER.to_owned());
                Progress::Done
            },
            (CsrStage::Approving(count), Event::Finished) => {
                say(log, cat3("  ✓ All ", number(count as u64).as_str(), " pending CSR(s) approved."));
                Progress::Done
            },
            (CsrStage::Approving(_), Event::Failed(e)) => {
                warn(
                    log,
                    cat3(
                        "  ⚠ Failed to approve CSRs (",
                        e.as_str(),
                        ").\n\
                         Cilium may still become healthy — continuing.",
                    ),
                );
                Progress::Done
            },
            _ => Progress::Failed(OUT_OF_STEP.to_owned()),
        }
    }
}

// ---------------------------------------------------------------------------
// Cilium
// ---------------------------------------------------------------------------

pub const CHECK_COMMAND: &'static str = "kubectl --kubeconfig /etc/kubernetes/admin.conf get daemonset -n kube-system cilium \
    >/dev/null 2>&1 && echo installed || echo not_installed";

/// The command that deploys Cilium.
pub const INSTALL_COMMAND: &'static str = "cilium --kubeconfig /etc/kubernetes/admin.conf install";

/// The command that waits for Cilium to become ready.
pub const STATUS_COMMAND: &'static str = "cilium --kubeconfig /etc/kubernetes/admin.conf status --wait";

/// Where the provisioning of the network stands.
pub enum CiliumStage<S> {
    /// Is Cilium there already?
    Checking,
    /// May it be installed?
    AskInstall,
    Installing,
    /// Installing failed and is tried again as root.
    InstallingAsRoot,
    /// Pending CSRs are being approved.
    Csrs(CsrApproval<S>),
    /// May its readiness be waited for?
    AskStatus,
    Waiting,
    /// Waiting failed and is tried again as root.
    WaitingAsRoot,
}

/// The provisioning of the cluster network.
pub struct Cilium<S> {
    pub ip: S,
    pub name: S,
    pub jump: Option<S>,
    pub auto: bool,
    pub stage: CiliumStage<S>,
}

impl<S: DeepView> DeepView for CiliumStage<S> {
    type V = CiliumStage<S::V>;

    open spec fn deep_view(&self) -> CiliumStage<S::V> {
        match *self {
            CiliumStage::Checking => CiliumStage::Checking,
            CiliumStage::AskInstall => CiliumStage::AskInstall,
            CiliumStage::Installing => CiliumStage::Installing,
            CiliumStage::InstallingAsRoot => CiliumStage::InstallingAsRoot,
            CiliumStage::Csrs(c) => CiliumStage::Csrs(c.deep_view()),
            CiliumStage::AskStatus => CiliumStage::AskStatus,
            CiliumStage::Waiting => CiliumStage::Waiting,
            CiliumStage::WaitingAsRoot => CiliumStage::WaitingAsRoot,
        }
    }
}

impl<S: DeepView> DeepView for Cilium<S> {
    type V = Cilium<S::V>;

    open spec fn deep_view(&self) -> Cilium<S::V> {
        Cilium {
            ip: self.ip.deep_view(),
            name: self.name.deep_view(),
            jump: self.jump.deep_view(),
            auto: self.auto,
            stage: self.stage.deep_view(),
        }
    }
}

pub type CiliumModel = Cilium<Seq<char>>;

pub type CiliumStep = (Progress<CiliumModel, Seq<char>>, Log);

/// The network waits for a command on the node.
pub open spec fn cilium_run(m: CiliumModel, stage: CiliumStage<Seq<char>>, command: Seq<char>, log: Log) -> CiliumStep {
    (Progress::Wait(Cilium { stage, ..m }, Action::Run { ip: m.ip, jump: m.jump, command }), log)
}

/// Provisioning starts with a look whether Cilium is deployed.
pub open spec fn cilium_begin(
    ip: Seq<char>,
    name: Seq<char>,
    jump: Option<Seq<char>>,
    auto: bool,
    log: Log,
) -> CiliumStep {
    (
        Progress::Wait(
            Cilium { ip, name, jump, auto, stage: CiliumStage::Checking },
            Action::Capture { ip, jump, command: CHECK_COMMAND@ },
        ),
        log,
    )
}

/// Cilium is not deployed: deploy it, with approval.
pub open spec fn cilium_install(m: CiliumModel, log: Log) -> CiliumStep {
    let told = log.push(Note::Say("\n  → Step B: deploy Cilium CNI"@)).push(
        Note::Say("    $ "@ + INSTALL_COMMAND@),
    );
    if m.auto {
        cilium_run(
            m,
            CiliumStage::Installing,
            INSTALL_COMMAND@,
            told.push(Note::Say("  Run cilium install?"@ + AUTO_APPROVED@)),
        )
    } else {
        (
            Progress::Wait(
                Cilium { stage: CiliumStage::AskInstall, ..m },
                Action::Confirm("  Run cilium install?"@),
            ),
            told,
        )
    }
}

/// Cilium is there: see to the CSRs.
pub open spec fn cilium_csrs(m: CiliumModel, s: CsrStep) -> CiliumStep {
    match s.0 {
        Progress::Wait(c, a) => (Progress::Wait(Cilium { stage: CiliumStage::Csrs(c), ..m }, a), s.1),
        Progress::Done => cilium_status(m, s.1),
        Progress::Failed(e) => (Progress::Failed(e), s.1),
    }
}

/// The CSRs are seen to: wait for Cilium, with approval.
pub open spec fn cilium_status(m: CiliumModel, log: Log) -> CiliumStep {
    let told = log.push(Note::Say("\n  → Step C: wait for Cilium to become ready"@)).push(
        Note::Say("    $ "@ + STATUS_COMMAND@),
    );
    if m.auto {
        cilium_run(
            m,
            CiliumStage::Waiting,
            STATUS_COMMAND@,
            told.push(Note::Say("  Run cilium status --wait?"@ + AUTO_APPROVED@)),
        )
    } else {
        (
            Progress::Wait(
                Cilium { stage: CiliumStage::AskStatus, ..m },
                Action::Confirm("  Run cilium status --wait?"@),
            ),
            told,
        )
    }
}

/// A command failed: run it again as root.
pub open spec fn cilium_retry(
    m: CiliumModel,
    stage: CiliumStage<Seq<char>>,
    what: Seq<char>,
    command: Seq<char>,
    reason: Seq<char>,
    log: Log,
) -> CiliumStep {
    cilium_run(
        m,
        stage,
        "sudo "@ + command,
        log.push(
            Note::Warn("  ⚠ "@ + what + " failed ("@ + reason + ") — retrying with sudo …"@),
        ).push(Note::Say("    $ "@ + ("sudo "@ + command))),
    )
}

pub open spec fn cilium_deployed(m: CiliumModel, log: Log) -> CiliumStep {
    cilium_csrs(m, csr_begin(m.ip, m.jump, m.auto, false, log))
}

pub open spec fn cilium_done(m: CiliumModel, log: Log) -> CiliumStep {
    (
        Progress::Done,
        log.push(Note::Say("\n  ✓ Cilium is ready."@)).push(
            Note::Say("\n  ✓ "@ + m.name + " control-plane provisioning complete."@),
        ),
    )
}

/// What the provisioning does when it is told the outcome of its action.
pub open spec fn cilium_next(m: CiliumModel, event: Event<Seq<char>>, log: Log) -> CiliumStep {
    match (m.stage, event) {
        (CiliumStage::Checking, Event::Output(status)) => if trimmed(status) == "installed"@ {
            cilium_deployed(
                m,
                log.push(Note::Say("\n  → Step B: Cilium CNI already deployed (idempotent skip)"@)),
            )
        } else {
            cilium_install(m, log)
        },
        (CiliumStage::Checking, Event::Failed(_)) => cilium_install(m, log),
        (CiliumStage::AskInstall, Event::Answer(yes)) => if yes {
            cilium_run(m, CiliumStage::Installing, INSTALL_COMMAND@, log)
        } else {
            (Progress::Done, log.push(Note::Say("  Skipped — Cilium CNI will not be deployed."@)))
        },
        (CiliumStage::Installing, Event::Finished) => cilium_deployed(
            m,
            log.push(Note::Say("\n  ✓ Cilium CNI installed."@)),
        ),
        (CiliumStage::Installing, Event::Failed(e)) => cilium_retry(
            m,
            CiliumStage::InstallingAsRoot,
            "cilium install"@,
            INSTALL_COMMAND@,
            e,
            log,
        ),
        (CiliumStage::InstallingAsRoot, Event::Finished) => cilium_deployed(
            m,
            log.push(Note::Say("\n  ✓ Cilium CNI installed."@)),
        ),
        (CiliumStage::InstallingAsRoot, Event::Failed(e)) => (Progress::Failed(e), log),
        (CiliumStage::Csrs(c), e) => cilium_csrs(m, csr_next(c, e, log)),
        (CiliumStage::AskStatus, Event::Answer(yes)) => if yes {
            cilium_run(m, CiliumStage::Waiting, STATUS_COMMAND@, log)
        } else {
            (
                Progress::Done,
                log.push(Note::Say("  Skipped — continuing without confirming Cilium health."@)),
            )
        },
        (CiliumStage::Waiting, Event::Finished) => cilium_done(m, log),
        (CiliumStage::Waiting, Event::Failed(e)) => cilium_retry(
            m,
            CiliumStage::WaitingAsRoot,
            "cilium status --wait"@,
            STATUS_COMMAND@,
            e,
            log,
        ),
        (CiliumStage::WaitingAsRoot, Event::Finished) => cilium_done(m, log),
        (CiliumStage::WaitingAsRoot, Event::Failed(e)) => (Progress::Failed(e), log),
        _ => (Progress::Failed(OUT_OF_STEP@), log),
    }
}

/// The approval of CSRs is for the same node, by the same route and with the
/// same approval as all the rest.
pub open spec fn cilium_wf(m: CiliumModel) -> bool {
    m.stage matches CiliumStage::Csrs(c) ==> c.ip == m.ip && c.jump == m.jump && c.auto == m.auto
}

/// Every command goes to the same node by the same route, and with blanket
/// approval no question is put.
pub proof fn law_cilium_keeps_route(m: CiliumModel, event: Event<Seq<char>>, log: Log)
    requires
        cilium_wf(m),
    ensures
        cilium_next(m, event, log).0 matches Progress::Wait(n, a) ==> n.ip == m.ip && n.jump == m.jump && n.auto
            == m.auto && cilium_wf(n) && goes_to(a, m.ip, m.jump) && (m.auto ==> !(a is Confirm)),
{
    if let CiliumStage::Csrs(c) = m.stage {
        law_csrs_keep_route(c, event, log);
        law_csrs_need_approval(c, event, log);
    }
}

/// How far the provisioning of the network is from its end.
pub open spec fn cilium_rank(m: CiliumModel) -> nat {
    match m.stage {
        CiliumStage::Checking => 10,
        CiliumStage::AskInstall => 9,
        CiliumStage::Installing => 8,
        CiliumStage::InstallingAsRoot => 7,
        CiliumStage::Csrs(c) => 3 + csr_rank(c),
        CiliumStage::AskStatus => 3,
        CiliumStage::Waiting => 2,
        CiliumStage::WaitingAsRoot => 1,
    }
}

/// The provisioning of the network comes to an end: every step takes it
/// nearer.
pub proof fn law_cilium_ends(m: CiliumModel, event: Event<Seq<char>>, log: Log)
    ensures
        cilium_next(m, event, log).0 matches Progress::Wait(n, _) ==> cilium_rank(n) < cilium_rank(m),
{
    if let CiliumStage::Csrs(c) = m.stage {
        law_csrs_end(c, event, log);
    }
}

/// Nothing is run on the node without approval, but for trying again as root
/// what was approved.
pub proof fn law_cilium_needs_approval(m: CiliumModel, event: Event<Seq<char>>, log: Log)
    requires
        cilium_wf(m),
        !(m.stage is Installing),
        !(m.stage is Waiting),
    ensures
        cilium_next(m, event, log).0 matches Progress::Wait(_, Action::Run { .. }) ==> m.auto || event
            == Event::<Seq<char>>::Answer(true),
{
    if let CiliumStage::Csrs(c) = m.stage {
        law_csrs_need_approval(c, event, log);
    }
}

/// Cilium is never installed where it is deployed already.
pub proof fn law_cilium_not_reinstalled(m: CiliumModel, status: Seq<char>, log: Log)
    requires
        m.stage == CiliumStage::<Seq<char>>::Checking,
        trimmed(status) == "installed"@,
    ensures
        cilium_next(m, Event::Output(status), log).0 matches Progress::Wait(n, Action::Capture { command, .. })
            && n.stage matches CiliumStage::Csrs(_) && command == list_command(false),
{
}

/// Whether an action is the one that belongs to the stage of the network.
pub open spec fn cilium_asks(m: CiliumModel, a: Action<Seq<char>>) -> bool {
    match (m.stage, a) {
        (CiliumStage::Checking, Action::Capture { ip, jump, command }) => ip == m.ip && jump == m.jump && command
            == "kubectl --kubeconfig /etc/kubernetes/admin.conf get daemonset -n kube-system cilium \
                >/dev/null 2>&1 && echo installed || echo not_installed"@,
        (CiliumStage::AskInstall, Action::Confirm(question)) => question == "  Run cilium install?"@,
        (CiliumStage::Installing, Action::Run { ip, jump, command }) => ip == m.ip && jump == m.jump && command
            == "cilium --kubeconfig /etc/kubernetes/admin.conf install"@,
        (CiliumStage::InstallingAsRoot, Action::Run { ip, jump, command }) => ip == m.ip && jump == m.jump && command
            == "sudo "@ + "cilium --kubeconfig /etc/kubernetes/admin.conf install"@,
        (CiliumStage::Csrs(c), _) => csr_asks(c, a),
        (CiliumStage::AskStatus, Action::Confirm(question)) => question == "  Run cilium status --wait?"@,
        (CiliumStage::Waiting, Action::Run { ip, jump, command }) => ip == m.ip && jump == m.jump && command
            == "cilium --kubeconfig /etc/kubernetes/admin.conf status --wait"@,
        (CiliumStage::WaitingAsRoot, Action::Run { ip, jump, command }) => ip == m.ip && jump == m.jump && command
            == "sudo "@ + "cilium --kubeconfig /etc/kubernetes/admin.conf status --wait"@,
        _ => false,
    }
}

proof fn lemma_csr_lines(pending: Seq<(Seq<char>, Seq<char>)>, k: int, log: Log)
    ensures
        kept(log, csr_lines(pending, log)),
        csr_lines(pending, log).len() == log.len() + pending.len(),
        0 <= k < pending.len() ==> csr_lines(pending, log)[log.len() + k] == Note::Say(csr_line(pending[k])),
    decreases pending.len(),
{
    if pending.len() > 0 {
        lemma_csr_lines(pending.drop_last(), k, log);
    }
}

/// No line that the operator was told about the CSRs is ever taken back. They
/// are told how many there are and shown each of them before any is approved,
/// and told what came of it.
pub proof fn law_csrs_tell(m: CsrModel, event: Event<Seq<char>>, text: Seq<char>, k: int, log: Log)
    ensures
        kept(log, csr_next(m, event, log).1),
        m.stage is Listing ==> {
            let pending = pending_csrs(text, m.requestors);
            let told = csr_next(m, Event::Output(text), log).1;
            &&& pending.len() == 0 ==> told == log.push(Note::Say("  No pending CSRs found — skipping."@))
            &&& pending.len() > 0 ==> kept(
                log.push(
                    Note::Say("\n  Found "@ + decimal(pending.len()) + " pending CSR(s) waiting for approval:\n"@),
                ),
                told,
            )
            &&& 0 <= k < pending.len() ==> told.len() > log.len() + 1 + k && told[log.len() + 1 + k] == Note::Say(
                if pending[k].1.len() == 0 {
                    "    • "@ + pending[k].0
                } else {
                    "    • "@ + pending[k].0 + " (requestor: "@ + pending[k].1 + ")"@
                },
            )
        },
        m.stage matches CsrStage::Approving(count) ==> csr_next(m, Event::Finished, log).1 == log.push(
            Note::Say("  ✓ All "@ + decimal(count as nat) + " pending CSR(s) approved."@),
        ) && csr_next(m, Event::Failed(text), log).1 == log.push(
            Note::Warn(
                "  ⚠ Failed to approve CSRs ("@ + text
                    + ").\n\
                     Cilium may still become healthy — continuing."@,
            ),
        ),
{
    let found = |raw: Seq<char>|
        log.push(
            Note::Say(
                "\n  Found "@ + decimal(pending_csrs(raw, m.requestors).len())
                    + " pending CSR(s) waiting for approval:\n"@,
            ),
        );
    lemma_csr_lines(pending_csrs(text, m.requestors), k, found(text));
    lemma_csr_lines(pending_csrs(""@, m.requestors), k, found(""@));
    if let Event::Output(raw) = event {
        lemma_csr_lines(pending_csrs(raw, m.requestors), k, found(raw));
    }
}

/// No line that the operator was told about the network is ever taken back. A
/// command that failed is told with the reason before it is run as root, and
/// the end names the node.
pub proof fn law_cilium_tells(m: CiliumModel, event: Event<Seq<char>>, e: Seq<char>, log: Log)
    ensures
        kept(log, cilium_next(m, event, log).1),
        m.stage is Installing ==> kept(
            log.push(Note::Warn("  ⚠ cilium install failed ("@ + e + ") — retrying with sudo …"@)),
            cilium_next(m, Event::Failed(e), log).1,
        ),
        m.stage is Installing || m.stage is InstallingAsRoot ==> kept(
            log.push(Note::Say("\n  ✓ Cilium CNI installed."@)),
            cilium_next(m, Event::Finished, log).1,
        ),
        m.stage is Waiting ==> kept(
            log.push(Note::Warn("  ⚠ cilium status --wait failed ("@ + e + ") — retrying with sudo …"@)),
            cilium_next(m, Event::Failed(e), log).1,
        ),
        m.stage is Waiting || m.stage is WaitingAsRoot ==> cilium_next(m, Event::Finished, log).1 == log.push(
            Note::Say("\n  ✓ Cilium is ready."@),
        ).push(Note::Say("\n  ✓ "@ + m.name + " control-plane provisioning complete."@)),
        m.stage is AskInstall ==> cilium_next(m, Event::Answer(false), log).1 == log.push(
            Note::Say("  Skipped — Cilium CNI will not be deployed."@),
        ),
        m.stage is AskStatus ==> cilium_next(m, Event::Answer(false), log).1 == log.push(
            Note::Say("  Skipped — continuing without confirming Cilium health."@),
        ),
{
    if let CiliumStage::Csrs(c) = m.stage {
        law_csrs_tell(c, event, ""@, 0, log);
    }
    assert("  ⚠ "@ + "cilium install"@ + " failed ("@ =~= "  ⚠ cilium install failed ("@) by {
        reveal_strlit("  ⚠ ");
        reveal_strlit("cilium install");
        reveal_strlit(" failed (");
        reveal_strlit("  ⚠ cilium install failed (");
    }
    assert("  ⚠ "@ + "cilium status --wait"@ + " failed ("@ =~= "  ⚠ cilium status --wait failed ("@) by {
        reveal_strlit("  ⚠ ");
        reveal_strlit("cilium status --wait");
        reveal_strlit(" failed (");
        reveal_strlit("  ⚠ cilium status --wait failed (");
    }
}

/// The provisioning of the network starts with a look whether Cilium is there,
/// and every action belongs to the stage.
pub proof fn law_cilium_asks_rightly(
    ip: Seq<char>,
    name: Seq<char>,
    jump: Option<Seq<char>>,
    auto: bool,
    m: CiliumModel,
    event: Event<Seq<char>>,
    log: Log,
)
    ensures
        cilium_begin(ip, name, jump, auto, log).0 matches Progress::Wait(n, a) && cilium_asks(n, a) && n == (Cilium {
            ip,
            name,
            jump,
            auto,
            stage: CiliumStage::Checking,
        }),
        cilium_next(m, event, log).0 matches Progress::Wait(n, a) ==> cilium_asks(n, a) && n.name == m.name,
{
    if let CiliumStage::Csrs(c) = m.stage {
        law_csrs_ask_rightly(c.ip, c.jump, c.auto, c.requestors, c, event, log);
    }
}

/// The way of the network: Cilium is installed unless it is there; a failed
/// installation is tried once more as root, and fails for good then; the
/// pending CSRs follow; then Cilium is waited for, a failed wait is tried once
/// more as root, and fails for good then. With blanket approval nothing is left
/// out.
pub proof fn law_cilium_goes_its_way(m: CiliumModel, event: Event<Seq<char>>, log: Log)
    requires
        cilium_wf(m),
    ensures
        ({
            let r = cilium_next(m, event, log).0;
            let installs = r matches Progress::Wait(n, _) && (if m.auto {
                n.stage is Installing
            } else {
                n.stage is AskInstall
            });
            let lists = r matches Progress::Wait(n, _) && (n.stage matches CiliumStage::Csrs(c) && c.stage is Listing
                && c.ip == m.ip && c.jump == m.jump && c.auto == m.auto && !c.requestors);
            match (m.stage, event) {
                (CiliumStage::Checking, Event::Output(status)) => if trimmed(status) == "installed"@ {
                    lists
                } else {
                    installs
                },
                (CiliumStage::Checking, Event::Failed(_)) => installs,
                (CiliumStage::AskInstall, Event::Answer(yes)) => if yes {
                    r matches Progress::Wait(n, _) && n.stage is Installing
                } else {
                    r is Done
                },
                (CiliumStage::Installing, Event::Finished) => lists,
                (CiliumStage::Installing, Event::Failed(_)) => r matches Progress::Wait(n, _)
                    && n.stage is InstallingAsRoot,
                (CiliumStage::InstallingAsRoot, Event::Finished) => lists,
                (CiliumStage::InstallingAsRoot, Event::Failed(e)) => r == Progress::<CiliumModel, Seq<char>>::Failed(e),
                (CiliumStage::Csrs(c), _) => match csr_next(c, event, log).0 {
                    Progress::Wait(d, a) => r matches Progress::Wait(n, b) && n.stage == CiliumStage::Csrs(d) && b == a,
                    Progress::Done => r matches Progress::Wait(n, _) && (if m.auto {
                        n.stage is Waiting
                    } else {
                        n.stage is AskStatus
                    }),
                    Progress::Failed(e) => r == Progress::<CiliumModel, Seq<char>>::Failed(e),
                },
                (CiliumStage::AskStatus, Event::Answer(yes)) => if yes {
                    r matches Progress::Wait(n, _) && n.stage is Waiting
                } else {
                    r is Done
                },
                (CiliumStage::Waiting, Event::Finished) => r is Done,
                (CiliumStage::Waiting, Event::Failed(_)) => r matches Progress::Wait(n, _) && n.stage is WaitingAsRoot,
                (CiliumStage::WaitingAsRoot, Event::Finished) => r is Done,
                (CiliumStage::WaitingAsRoot, Event::Failed(e)) => r == Progress::<CiliumModel, Seq<char>>::Failed(e),
                _ => r is Failed,
            }
        }),
{
}

/// Start provisioning the cluster network on a control-plane node.
pub fn provision_cilium(
    ip: String,
    name: String,
    jump: Option<String>,
    auto: bool,
    log: &mut Vec<Note<String>>,
) -> (r: Progress<Cilium<String>, String>)
    ensures
        (r.deep_view(), final(log).deep_view()) == cilium_begin(
            ip@,
            name@,
            jump.deep_view(),
            auto,
            old(log).deep_view(),
        ),
{
    let action = Action::Capture { ip: ip.clone(), jump: jump.clone(), command: CHECK_COMMAND.to_owned() };
    Progress::Wait(Cilium { ip, name, jump, auto, stage: CiliumStage::Checking }, action)
}

impl Cilium<String> {
    fn run(self, stage: CiliumStage<String>, command: &str, log: &mut Vec<Note<String>>) -> (r: Progress<
        Cilium<String>,
        String,
    >)
        ensures
            (r.deep_view(), final(log).deep_view()) == cilium_run(
                self.deep_view(),
                stage.deep_view(),
                command@,
                old(log).deep_view(),
            ),
    {
        let action = Action::Run {
            ip: self.ip.clone(),
            jump: self.jump.clone(),
            command: command.to_owned(),
        };
        Progress::Wait(Cilium { stage, ..self }, action)
    }

    fn install(self, log: &mut Vec<Note<String>>) -> (r: Progress<Cilium<String>, String>)
        ensures
            (r.deep_view(), final(log).deep_view()) == cilium_install(self.deep_view(), old(log).deep_view()),
    {
        say(log, "\n  → Step B: deploy Cilium CNI".to_owned());
        say(log, cat2("    $ ", INSTALL_COMMAND));
        if self.auto {
            say(log, cat2("  Run cilium install?", AUTO_APPROVED));
            self.run(CiliumStage::Installing, INSTALL_COMMAND, log)
        } else {
            let action = Action::Confirm("  Run cilium install?".to_owned());
            Progress::Wait(Cilium { stage: CiliumStage::AskInstall, ..self }, action)
        }
    }

    fn status(self, log: &mut Vec<Note<String>>) -> (r: Progress<Cilium<String>, String>)
        ensures
            (r.deep_view(), final(log).deep_view()) == cilium_status(self.deep_view(), old(log).deep_view()),
    {
        say(log, "\n  → Step C: wait for Cilium to become ready".to_owned());
        say(log, cat2("    $ ", STATUS_COMMAND));
        if self.auto {
            say(log, cat2("  Run cilium status --wait?", AUTO_APPROVED));
            self.run(CiliumStage::Waiting, STATUS_COMMAND, log)
        } else {
            let action = Action::Confirm("  Run cilium status --wait?".to_owned());
            Progress::Wait(Cilium { stage: CiliumStage::AskStatus, ..self }, action)
        }
    }

    fn retry(
        self,
        stage: CiliumStage<String>,
        what: &str,
        command: &str,
        reason: &str,
        log: &mut Vec<Note<String>>,
    ) -> (r: Progress<Cilium<String>, String>)
        ensures
            (r.deep_view(), final(log).deep_view()) == cilium_retry(
                self.deep_view(),
                stage.deep_view(),
                what@,
                command@,
                reason@,
                old(log).deep_view(),
            ),
    {
        warn(log, cat5("  ⚠ ", what, " failed (", reason, ") — retrying with sudo …"));
        let sudo = cat2("sudo ", command);
        say(log, cat2("    $ ", sudo.as_str()));
        self.run(stage, sudo.as_str(), log)
    }

    fn csrs(self, p: Progress<CsrApproval<String>, String>, log: &mut Vec<Note<String>>) -> (r: Progress<
        Cilium<String>,
        String,
    >)
        ensures
            (r.deep_view(), final(log).deep_view()) == cilium_csrs(
                self.deep_view(),
                (p.deep_view(), old(log).deep_view()),
            ),
    {
        match p {
            Progress::Wait(c, a) => Progress::Wait(Cilium { stage: CiliumStage::Csrs(c), ..self }, a),
            Progress::Done => self.status(log),
            Progress::Failed(e) => Progress::Failed(e),
        }
    }

    fn deployed(self, log: &mut Vec<Note<String>>) -> (r: Progress<Cilium<String>, String>)
        ensures
            (r.deep_view(), final(log).deep_view()) == cilium_deployed(self.deep_view(), old(log).deep_view()),
    {
        let p = approve_pending_csrs(self.ip.clone(), self.jump.clone(), self.auto, false, log);
        self.csrs(p, log)
    }

    fn done(self, log: &mut Vec<Note<String>>) -> (r: Progress<Cilium<String>, String>)
        ensures
            (r.deep_view(), final(log).deep_view()) == cilium_done(self.deep_view(), old(log).deep_view()),
    {
        say(log, "\n  ✓ Cilium is ready.".to_owned());
        say(log, cat3("\n  ✓ ", self.name.as_str(), " control-plane provisioning complete."));
        Progress::Done
    }

    /// Take the outcome of the action that was asked for.
    pub fn step(self, event: Event<String>, log: &mut Vec<Note<String>>) -> (r: Progress<
        Cilium<String>,
        String,
    >)
        ensures
            (r.deep_view(), final(log).deep_view()) == cilium_next(
                self.deep_view(),
                event.deep_view(),
                old(log).deep_view(),
            ),
    {
        let Cilium { ip, name, jump, auto, stage } = self;
        let m = Cilium { ip, name, jump, auto, stage: CiliumStage::Checking };
        match (stage, event) {
            (CiliumStage::Checking, Event::Output(status)) => {
                if same(trim(status.as_str()).as_str(), "installed") {
                    say(log, "\n  → Step B: Cilium CNI already deployed (idempotent skip)".to_owned());
                    m.deployed(log)
                } else {
                    m.install(log)
                }
            },
            (CiliumStage::Checking, Event::Failed(_)) => m.install(log),
            (CiliumStage::AskInstall, Event::Answer(yes)) => if yes {
                m.run(CiliumStage::Installing, INSTALL_COMMAND, log)
            } else {
                say(log, "  Skipped — Cilium CNI will not be deployed.".to_owned());
                Progress::Done
            },
            (CiliumStage::Installing, Event::Finished) => {
                say(log, "\n  ✓ Cilium CNI installed.".to_owned());
                m.deployed(log)
            },
            (CiliumStage::Installing, Event::Failed(e)) => m.retry(
                CiliumStage::InstallingAsRoot,
                "cilium install",
                INSTALL_COMMAND,
                e.as_str(),
                log,
            ),
            (CiliumStage::InstallingAsRoot, Event::Finished) => {
                say(log, "\n  ✓ Cilium CNI installed.".to_owned());
                m.deployed(log)
            },
            (CiliumStage::InstallingAsRoot, Event::Failed(e)) => Progress::Failed(e),
            (CiliumStage::Csrs(c), e) => {
                let p = c.step(e, log);
                m.csrs(p, log)
            },
            (CiliumStage::AskStatus, Event::Answer(yes)) => if yes {
                m.run(CiliumStage::Waiting, STATUS_COMMAND, log)
            } else {
                say(log, "  Skipped — continuing without confirming Cilium health.".to_owned());
                Progress::Done
            },
            (CiliumStage::Waiting, Event::Finished) => m.done(log),
            (CiliumStage::Waiting, Event::Failed(e)) => m.retry(
                CiliumStage::WaitingAsRoot,
                "cilium status --wait",
                STATUS_COMMAND,
                e.as_str(),
                log,
            ),
            (CiliumStage::WaitingAsRoot, Event::Finished) => m.done(log),
            (CiliumStage::WaitingAsRoot, Event::Failed(e)) => Progress::Failed(e),
            _ => Progress::Failed(OUT_OF_STEP.to_owned()),
        }
    }
}

} // verus!
