//! The child lifecycle: a handle on a live spawned process, joining it to
//! collect its return value, and killing it, with the exclusion that
//! makes the two safe against each other.
//!
//! A child is either joined (its value received, the process reaped) or
//! killed, never both: `join` clears the shared `may_kill` flag under its
//! lock before reaping, and `kill` refuses once the flag is clear, so a
//! kill can never target a process id that a completed join has already
//! returned to the kernel for reuse.

use crate::channel::Receiver;
use crate::codec::Wire;
use crate::error::Error;
use crate::sys::{sys_kill, sys_waitpid};
use std::sync::Arc;
use std::sync::Mutex;
use vstd::prelude::*;

verus! {

/// `std::sync::Mutex` guards the `may_kill` flag; Verus treats it as
/// opaque and the trusted `with_flag` below as the one way through it.
#[verifier::external_type_specification]
#[verifier::external_body]
#[verifier::reject_recursive_types(T)]
pub struct ExMutex<T: ?Sized>(Mutex<T>);

/// One shared `may_kill` flag. The ghost token names the flag cell, so
/// that contracts can say two holders speak of the same flag: every
/// share carries the token of the flag it was split from, and only
/// sharing preserves it.
pub struct KillFlag {
    cell: Arc<Mutex<bool>>,
    token: Ghost<int>,
}

impl KillFlag {
    /// The identity of the flag cell this value shares.
    pub closed spec fn id(self) -> int {
        self.token@
    }
}

/// Relies on `Mutex::new` and `Arc::new`: a fresh shared flag cell,
/// initially set: the child may still be killed.
#[verifier::external_body]
fn cell_new() -> (c: Arc<Mutex<bool>>) {
    Arc::new(Mutex::new(true))
}

/// Relies on `Arc::clone`: another reference to the very same flag cell,
/// not a copy of its contents.
#[verifier::external_body]
fn cell_share(c: &Arc<Mutex<bool>>) -> (d: Arc<Mutex<bool>>) {
    Arc::clone(c)
}

/// A fresh flag, under a fresh identity of its own.
fn flag_new() -> (f: KillFlag) {
    let cell = cell_new();
    let ghost t: int = vstd::pervasive::arbitrary();
    KillFlag { cell, token: Ghost(t) }
}

/// Share a flag: the share holds the same cell and carries the same
/// identity.
fn flag_share(f: &KillFlag) -> (g: KillFlag)
    ensures
        g.id() == f.id(),
{
    KillFlag { cell: cell_share(&f.cell), token: Ghost(f.token@) }
}

/// Relies on `Mutex::lock`: it runs `op` on the flag's value with the
/// lock held, stores the first component back, and returns the second;
/// no other holder of the flag observes an intermediate state. A
/// poisoned lock means a panic already tore the process state and is
/// fatal, as the lifecycle design demands.
#[verifier::external_body]
fn with_flag<R, F: FnOnce(bool) -> (bool, R)>(m: &KillFlag, op: F) -> (r: R)
    requires
        forall|b: bool| op.requires((b,)),
    ensures
        exists|b0: bool, b1: bool| op.ensures((b0,), (b1, r)),
{
    let mut g = m.cell.lock().expect("kill flag mutex poisoned");
    let (nb, r) = op(*g);
    *g = nb;
    r
}

/// The `may_kill` flag after a join has claimed the child: cleared,
/// whatever it was.
pub open spec fn spec_flag_after_join(flag_before: bool) -> bool {
    false
}

/// Whether a kill attempt is refused: exactly when the flag is clear.
pub open spec fn spec_kill_refused(flag: bool) -> bool {
    !flag
}

/// Join/kill exclusion: once a join has claimed the child, every kill
/// attempt through the flag is refused, whatever the flag held before.
/// `join` runs its transition and `kill` its test under one shared lock,
/// so no interleaving observes anything between the two.
pub proof fn lemma_join_kill_exclusion(flag_before_join: bool)
    ensures
        spec_kill_refused(spec_flag_after_join(flag_before_join)),
{
}

/// Clear the flag, reporting what it held: the join-side transition.
fn join_flag_step(b: bool) -> (r: (bool, bool))
    ensures
        r.0 == spec_flag_after_join(b),
        r.1 == b,
{
    (false, b)
}

/// The kill-side step: refuse if a join has claimed the child, else send
/// the kill while still holding the flag, so a concurrent join cannot
/// reap the process id out from under the signal. Every failure is the
/// refusal or the system's own.
fn kill_flag_step(b: bool, pid: i32) -> (r: (bool, Result<(), Error>))
    requires
        pid > 0,
    ensures
        r.0 == b,
        (r.1 matches Err(e) && e == Error::AlreadyJoined) <==> spec_kill_refused(b),
        r.1 matches Err(e) ==> e == Error::AlreadyJoined || e.is_os(),
{
    if !b {
        (b, Err(Error::AlreadyJoined))
    } else {
        match sys_kill(pid) {
            Ok(()) => (b, Ok(())),
            Err(e) => (b, Err(e)),
        }
    }
}

/// Whether a raw wait status says the child exited (rather than being
/// signalled or stopped): the low seven bits are clear, as the POSIX
/// wait status encoding fixes.
pub open spec fn spec_wait_exited(status: i32) -> bool {
    status & 0x7f == 0
}

/// The exit code a raw wait status carries, in its second byte.
pub open spec fn spec_wait_exit_code(status: i32) -> i32 {
    (status >> 8) & 0xff
}

/// Whether a join must surface the status as a failure: anything but a
/// clean exit with code zero.
pub open spec fn spec_status_is_failure(status: i32) -> bool {
    !(spec_wait_exited(status) && spec_wait_exit_code(status) == 0)
}

/// Decide what a join returns, from the value the child sent (if any)
/// and the raw wait status the kernel reported: the child's value on a
/// clean exit, `NoReturnValue` on a clean exit that sent nothing, and
/// the embedded status on every unclean termination.
pub fn join_outcome<T: Wire>(value: Option<T>, status: i32) -> (r: Result<T, Error>)
    ensures
        !spec_status_is_failure(status) ==> match value {
            Some(v) => r matches Ok(u) && u == v,
            None => r == Err::<T, Error>(Error::NoReturnValue),
        },
        spec_status_is_failure(status) ==> r == Err::<T, Error>(Error::ChildStatus { status }),
{
    if status & 0x7f == 0 && (status >> 8) & 0xff == 0 {
        match value {
            Some(v) => Ok(v),
            None => Err(Error::NoReturnValue),
        }
    } else {
        Err(Error::ChildStatus { status })
    }
}

/// A successful kill leads the next join to report the termination: a
/// status whose low bits carry the fatal signal is never a clean exit,
/// so `join_outcome` surfaces it as `ChildStatus`, whatever value was in
/// flight.
pub proof fn lemma_kill_then_join_fails(status: i32)
    requires
        status & 0x7f != 0,
    ensures
        spec_status_is_failure(status),
{
}

/// A live spawned subprocess with return type `T`.
pub struct Child<T: Wire> {
    pid: i32,
    output_rx: Receiver<T>,
    may_kill: KillFlag,
}

/// A handle that allows killing the process while it has not been
/// joined.
pub struct KillHandle {
    proc_id: i32,
    may_kill: KillFlag,
}

impl<T: Wire> Child<T> {
    /// The id of the process this value stands for.
    pub closed spec fn spec_id(self) -> int {
        self.pid as int
    }

    /// The identity of this child's kill flag.
    pub closed spec fn flag_id(self) -> int {
        self.may_kill.id()
    }

    /// A well-formed child stands for a real process: its id is
    /// positive, as every id the operating system hands out is. The
    /// wait and kill calls demand this, since a non-positive id would
    /// address a whole process group instead.
    pub open spec fn wf(self) -> bool {
        self.spec_id() > 0
    }

    /// Adopt a freshly spawned process: its id and the receiving end of
    /// the duplex whose other end the child owns. The kill flag starts
    /// set and belongs to this child alone.
    pub fn attach(pid: i32, output_rx: Receiver<T>) -> (c: Child<T>)
        requires
            pid > 0,
        ensures
            c.spec_id() == pid,
            c.wf(),
    {
        Child { pid, output_rx, may_kill: flag_new() }
    }

    /// Get the id of the process.
    pub fn id(&self) -> (r: i32)
        ensures
            r == self.spec_id(),
    {
        self.pid
    }

    /// Get a handle for process termination. The handle carries this
    /// child's process id and shares this child's own kill flag, so a
    /// later join is observed by the handle.
    pub fn get_kill_handle(&self) -> (k: KillHandle)
        ensures
            k.spec_id() == self.spec_id(),
            k.flag_id() == self.flag_id(),
            self.wf() ==> k.wf(),
    {
        KillHandle { proc_id: self.pid, may_kill: flag_share(&self.may_kill) }
    }

    /// Terminate the process immediately, without consulting the kill
    /// flag; the caller still owns the child and will join it.
    pub fn kill(&mut self) -> (r: Result<(), Error>)
        requires
            old(self).wf(),
        ensures
            final(self).spec_id() == old(self).spec_id(),
            final(self).wf(),
            r matches Err(e) ==> e.is_os(),
    {
        sys_kill(self.pid)
    }

    /// Wait for the process to finish and obtain the value it returns.
    ///
    /// The value is the child's, decided by [`join_outcome`]: an error
    /// if the process terminated unsuccessfully or exited without
    /// sending a value -- unless `T` is the unit type, for which silence
    /// is the complete answer, so a unit join never reports a missing
    /// return value. Between receiving the value and reaping the
    /// process, the kill flag is cleared under its lock, so no kill can
    /// target the reaped process id afterwards.
    pub fn join(self) -> (r: Result<T, Error>)
        requires
            self.wf(),
        ensures
            r matches Ok(v) ==> T::wf(v.rep()),
            T::is_unit() ==> (r matches Err(e) ==> e != Error::NoReturnValue),
    {
        let Child { pid, mut output_rx, may_kill } = self;
        let received = match output_rx.recv() {
            Ok(v) => v,
            Err(e) => {
                return Err(e);
            },
        };
        let value = match T::unit_value() {
            Some(u) => Some(u),
            None => received,
        };
        let _was_killable = with_flag(
            &may_kill,
            (|b: bool| -> (r: (bool, bool))
                ensures
                    r.0 == spec_flag_after_join(b) && r.1 == b,
                { join_flag_step(b) }),
        );
        let status = match sys_waitpid(pid) {
            Ok(s) => s,
            Err(e) => {
                return Err(e);
            },
        };
        join_outcome(value, status)
    }
}

impl KillHandle {
    /// The id of the process this handle can kill.
    pub closed spec fn spec_id(self) -> int {
        self.proc_id as int
    }

    /// The identity of the kill flag this handle shares with its child.
    pub closed spec fn flag_id(self) -> int {
        self.may_kill.id()
    }

    /// A well-formed handle names a real process; see [`Child::wf`].
    pub open spec fn wf(self) -> bool {
        self.spec_id() > 0
    }

    /// Terminate the process immediately, unless it has already been
    /// joined: then `AlreadyJoined` is returned and nothing is signalled,
    /// since the process id may already name some other process. A kill
    /// fails only with that refusal or with the system's own error; the
    /// refusal comes exactly when the flag was found clear, as
    /// `kill_flag_step` fixes under the lock.
    pub fn kill(&self) -> (r: Result<(), Error>)
        requires
            self.wf(),
        ensures
            r matches Err(e) ==> e == Error::AlreadyJoined || e.is_os(),
    {
        let pid = self.proc_id;
        with_flag(
            &self.may_kill,
            (|b: bool| -> (r: (bool, Result<(), Error>))
                ensures
                    r.0 == b && ((r.1 matches Err(e) && e == Error::AlreadyJoined)
                        <==> spec_kill_refused(b)) && (r.1 matches Err(e) ==> e
                        == Error::AlreadyJoined || e.is_os()),
                { kill_flag_step(b, pid) }),
        )
    }
}

} // verus!
