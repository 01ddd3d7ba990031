//! Whether containerd runs on a node, and how long to wait for it.

use vstd::prelude::*;

use crate::text::{cat2, same};

verus! {

/// The command that prints the state of containerd.
pub const CONTAINERD_COMMAND: &'static str = "systemctl is-active containerd || true";

/// How often containerd is looked at before a wait is given up.
pub const ATTEMPTS: u32 = 60;

/// The seconds between two looks.
pub const INTERVAL: u64 = 10;

/// What follows from a look at containerd.
#[derive(Debug, PartialEq, Eq)]
pub enum Readiness<S> {
    /// It runs.
    Ready,
    /// It may run after this many seconds.
    Again(u64),
    /// It does not run, for the reason given.
    Refused(S),
}

impl<S: DeepView> DeepView for Readiness<S> {
    type V = Readiness<S::V>;

    open spec fn deep_view(&self) -> Readiness<S::V> {
        match *self {
            Readiness::Ready => Readiness::Ready,
            Readiness::Again(n) => Readiness::Again(n),
            Readiness::Refused(s) => Readiness::Refused(s.deep_view()),
        }
    }
}

/// What follows from look `attempt` (counted from one) at the node `name`, on
/// which containerd is in the state `output`, or in none that is known. Without
/// `wait` the first look decides.
pub open spec fn readiness(name: Seq<char>, output: Option<Seq<char>>, attempt: u32, wait: bool) -> Readiness<
    Seq<char>,
> {
    if output == Some("active"@) {
        Readiness::Ready
    } else if wait && attempt < ATTEMPTS {
        Readiness::Again(INTERVAL)
    } else {
        Readiness::Refused("containerd is not running on "@ + name)
    }
}

/// A wait comes to an end, and without `wait` there is none.
pub proof fn law_wait_ends(name: Seq<char>, output: Option<Seq<char>>, attempt: u32, wait: bool)
    requires
        attempt >= ATTEMPTS || !wait,
    ensures
        !(readiness(name, output, attempt, wait) is Again),
{
}

/// containerd runs if and only if its state reads `active`. Otherwise it is
/// looked at again after ten seconds, if and only if it is waited for and this
/// was not the sixtieth look; and else the node is refused by name.
pub proof fn law_only_active_is_ready(name: Seq<char>, output: Option<Seq<char>>, attempt: u32, wait: bool)
    ensures
        readiness(name, output, attempt, wait) is Ready <==> output == Some("active"@),
        readiness(name, output, attempt, wait) is Again <==> output != Some("active"@) && wait && attempt < 60,
        readiness(name, output, attempt, wait) matches Readiness::Again(seconds) ==> seconds == 10,
        readiness(name, output, attempt, wait) matches Readiness::Refused(reason) ==> reason
            == "containerd is not running on "@ + name,
{
}

/// Judge a look at containerd.
pub fn judge_containerd(name: &str, output: &Option<String>, attempt: u32, wait: bool) -> (r: Readiness<String>)
    ensures
        r.deep_view() == readiness(name@, output.deep_view(), attempt, wait),
{
    if let Some(state) = output {
        if same(state.as_str(), "active") {
            return Readiness::Ready;
        }
    }
    if wait && attempt < ATTEMPTS {
        Readiness::Again(INTERVAL)
    } else {
        Readiness::Refused(cat2("containerd is not running on ", name))
    }
}

} // verus!
