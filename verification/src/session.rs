//! The vocabulary in which a procedure talks to the outside world.
//!
//! A procedure never performs I/O itself. It hands out one [`Action`] at a
//! time, is told the outcome as an [`Event`], and writes what the operator
//! should read into a log of [`Note`]s. The type parameter is the type of
//! text: `String` when running, `Seq<char>` in contracts.

use vstd::prelude::*;

verus! {

/// A line for the operator.
#[derive(Debug, PartialEq, Eq)]
pub enum Note<S> {
    /// Goes to standard output.
    Say(S),
    /// Goes to standard error.
    Warn(S),
}

/// What a procedure wants done next.
#[derive(Debug, PartialEq, Eq)]
pub enum Action<S> {
    /// Put a yes/no question to the operator.
    Confirm(S),
    /// Run a command on a node and capture its output; `jump` is the address
    /// of the host to tunnel through.
    Capture { ip: S, jump: Option<S>, command: S },
    /// Run a command on a node with its output going to the terminal.
    Run { ip: S, jump: Option<S>, command: S },
    /// Get access to the provider.
    Connect,
    /// Ask the provider for the address of an instance.
    Address { instance: S, prefer_public: bool },
    /// Wait this many seconds.
    Pause(u64),
    /// Check that containerd runs on a node; with `wait`, wait until it does.
    Containerd { ip: S, name: S, jump: Option<S>, wait: bool },
    /// Carry out all orders of the procedure at once.
    Broadcast,
    /// Create an instance. Its outcome is the provider's reply.
    CreateVm(VmRequest<S>),
    /// Delete an instance.
    DestroyVm(S),
    /// Create a disk. Its outcome is the disk's identifier.
    CreateDisk { name: S, size_gb: u64 },
    /// Attach a disk to an instance.
    AttachDisk { disk: S, instance: S },
    /// Ask which instance a disk is attached to. Its outcome is the instance,
    /// or nothing where the disk is not attached.
    AttachedInstance(S),
    /// Detach a disk from an instance.
    DetachDisk { disk: S, instance: S },
    /// Delete a disk.
    DestroyDisk(S),
    /// Read a file. Its outcome is the content.
    ReadFile(S),
    /// Save the procedure's state.
    Save,
    /// Provision Kubernetes on the nodes.
    Play,
}

/// What an instance is created from.
#[derive(Debug, PartialEq, Eq)]
pub struct VmRequest<S> {
    pub name: S,
    pub machine_type: S,
    pub boot_disk_image: S,
    pub boot_disk_size_gb: u64,
    /// `<user>:<public key>`, or nothing.
    pub ssh_keys: S,
    pub startup_script: S,
    pub public_ip: bool,
}

/// What came of an action.
#[derive(Debug, PartialEq, Eq)]
pub enum Event<S> {
    /// The operator's answer to a question.
    Answer(bool),
    /// The text that the action produced.
    Output(S),
    /// The action succeeded without producing text.
    Finished,
    /// The action failed, for the reason given.
    Failed(S),
}

/// Where a procedure stands after an event.
pub enum Progress<M, S> {
    /// It waits for the outcome of an action.
    Wait(M, Action<S>),
    /// It is done.
    Done,
    /// It gave up, for the reason given.
    Failed(S),
}

/// The reason given when an event does not fit the action it is the outcome of.
pub const OUT_OF_STEP: &'static str = "the outcome does not fit the action that was asked for";

/// What is added to a question that is not put because everything is approved.
pub const AUTO_APPROVED: &'static str = " [auto-approved]";

impl<S: DeepView> DeepView for Note<S> {
    type V = Note<S::V>;

    open spec fn deep_view(&self) -> Note<S::V> {
        match *self {
            Note::Say(s) => Note::Say(s.deep_view()),
            Note::Warn(s) => Note::Warn(s.deep_view()),
        }
    }
}

impl<S: DeepView> DeepView for Action<S> {
    type V = Action<S::V>;

    open spec fn deep_view(&self) -> Action<S::V> {
        match *self {
            Action::Confirm(q) => Action::Confirm(q.deep_view()),
            Action::Capture { ip, jump, command } => Action::Capture {
                ip: ip.deep_view(),
                jump: jump.deep_view(),
                command: command.deep_view(),
            },
            Action::Run { ip, jump, command } => Action::Run {
                ip: ip.deep_view(),
                jump: jump.deep_view(),
                command: command.deep_view(),
            },
            Action::Connect => Action::Connect,
            Action::Address { instance, prefer_public } => Action::Address {
                instance: instance.deep_view(),
                prefer_public,
            },
            Action::Pause(n) => Action::Pause(n),
            Action::Containerd { ip, name, jump, wait } => Action::Containerd {
                ip: ip.deep_view(),
                name: name.deep_view(),
                jump: jump.deep_view(),
                wait,
            },
            Action::Broadcast => Action::Broadcast,
            Action::CreateVm(request) => Action::CreateVm(request.deep_view()),
            Action::DestroyVm(target) => Action::DestroyVm(target.deep_view()),
            Action::CreateDisk { name, size_gb } => Action::CreateDisk { name: name.deep_view(), size_gb },
            Action::AttachDisk { disk, instance } => Action::AttachDisk {
                disk: disk.deep_view(),
                instance: instance.deep_view(),
            },
            Action::AttachedInstance(disk) => Action::AttachedInstance(disk.deep_view()),
            Action::DetachDisk { disk, instance } => Action::DetachDisk {
                disk: disk.deep_view(),
                instance: instance.deep_view(),
            },
            Action::DestroyDisk(disk) => Action::DestroyDisk(disk.deep_view()),
            Action::ReadFile(path) => Action::ReadFile(path.deep_view()),
            Action::Save => Action::Save,
            Action::Play => Action::Play,
        }
    }
}

impl<S: DeepView> DeepView for VmRequest<S> {
    type V = VmRequest<S::V>;

    open spec fn deep_view(&self) -> VmRequest<S::V> {
        VmRequest {
            name: self.name.deep_view(),
            machine_type: self.machine_type.deep_view(),
            boot_disk_image: self.boot_disk_image.deep_view(),
            boot_disk_size_gb: self.boot_disk_size_gb,
            ssh_keys: self.ssh_keys.deep_view(),
            startup_script: self.startup_script.deep_view(),
            public_ip: self.public_ip,
        }
    }
}

impl<S: DeepView> DeepView for Event<S> {
    type V = Event<S::V>;

    open spec fn deep_view(&self) -> Event<S::V> {
        match *self {
            Event::Answer(b) => Event::Answer(b),
            Event::Output(s) => Event::Output(s.deep_view()),
            Event::Finished => Event::Finished,
            Event::Failed(s) => Event::Failed(s.deep_view()),
        }
    }
}

impl<M: DeepView, S: DeepView> DeepView for Progress<M, S> {
    type V = Progress<M::V, S::V>;

    open spec fn deep_view(&self) -> Progress<M::V, S::V> {
        match *self {
            Progress::Wait(m, a) => Progress::Wait(m.deep_view(), a.deep_view()),
            Progress::Done => Progress::Done,
            Progress::Failed(s) => Progress::Failed(s.deep_view()),
        }
    }
}

/// Whether a command, if `action` is one, goes to the node at `ip` by way of
/// the jump host `jump`.
pub open spec fn goes_to<S>(action: Action<S>, ip: S, jump: Option<S>) -> bool {
    match action {
        Action::Capture { ip: i, jump: j, .. } => i == ip && j == jump,
        Action::Run { ip: i, jump: j, .. } => i == ip && j == jump,
        _ => true,
    }
}

/// Whether `a` comes before `b` when the first numbers decide, and the second
/// where those are equal. No sequence descends in this order forever.
pub open spec fn below(a: (nat, nat), b: (nat, nat)) -> bool {
    a.0 < b.0 || (a.0 == b.0 && a.1 < b.1)
}

/// What a log reads as.
pub type Log = Seq<Note<Seq<char>>>;

/// Whether a log goes on from another: every line of that is still in it, in
/// its place.
pub open spec fn kept(before: Log, after: Log) -> bool {
    &&& before.len() <= after.len()
    &&& forall|i: int| 0 <= i < before.len() ==> #[trigger] after[i] == before[i]
}

/// Add a line for standard output.
pub fn say(log: &mut Vec<Note<String>>, text: String)
    ensures
        final(log).deep_view() == old(log).deep_view().push(Note::Say(text@)),
{
    log.push(Note::Say(text));
    assert(log.deep_view() =~= old(log).deep_view().push(Note::Say(text@)));
}

/// Add a line for standard error.
pub fn warn(log: &mut Vec<Note<String>>, text: String)
    ensures
        final(log).deep_view() == old(log).deep_view().push(Note::Warn(text@)),
{
    log.push(Note::Warn(text));
    assert(log.deep_view() =~= old(log).deep_view().push(Note::Warn(text@)));
}

} // verus!
