//! The handle abstraction: an owned file descriptor together with its
//! numeric value, and the cloexec bookkeeping of the spawn path.
//!
//! A `Handle` owns its descriptor exclusively; the kernel object is closed
//! when the `Handle` is dropped. The numeric value is carried beside the
//! descriptor so that contracts can speak of it as a plain integer.

use crate::error::Error;
use vstd::prelude::*;

verus! {

/// `rustix::fd::OwnedFd` is the exclusive owner of one open file
/// descriptor; it closes the descriptor when dropped. Verus treats it as
/// opaque.
#[verifier::external_type_specification]
#[verifier::external_body]
pub struct ExOwnedFd(rustix::fd::OwnedFd);

/// An owned descriptor plus its raw numeric value.
pub struct Handle {
    fd: rustix::fd::OwnedFd,
    raw: i32,
}

/// Relies on `rustix::fd::AsRawFd::as_raw_fd`: it returns the numeric
/// value of the descriptor, without any side effect.
#[verifier::external_body]
fn sys_raw_of(fd: &rustix::fd::OwnedFd) -> (r: i32) {
    rustix::fd::AsRawFd::as_raw_fd(fd)
}

impl Handle {
    /// The numeric value of the owned descriptor. Within one process, two
    /// live handles with the same value name the same kernel object.
    pub closed spec fn id(self) -> int {
        self.raw as int
    }

    /// Take ownership of an open descriptor.
    pub fn adopt(fd: rustix::fd::OwnedFd) -> (h: Handle) {
        let raw = sys_raw_of(&fd);
        Handle { fd, raw }
    }

    /// The numeric value of the descriptor, as handed to the operating
    /// system on each call made through this handle.
    pub fn raw_value(&self) -> (r: i32)
        ensures
            r == self.id(),
    {
        self.raw
    }

    /// Borrow the owned descriptor.
    pub fn as_fd(&self) -> (r: &rustix::fd::OwnedFd) {
        &self.fd
    }

    /// Give the owned descriptor up to the caller.
    pub fn release(self) -> (r: rustix::fd::OwnedFd) {
        let Handle { fd, raw: _ } = self;
        fd
    }
}

/// Relies on `rustix::io::fcntl_getfd`: it reads the descriptor flags,
/// among which `FD_CLOEXEC`, and reports failure through `Errno`.
#[verifier::external_body]
fn sys_get_cloexec(h: &Handle) -> (r: Result<bool, Error>)
    ensures
        r matches Err(e) ==> e.is_os(),
{
    match rustix::io::fcntl_getfd(h.as_fd()) {
        Ok(flags) => Ok(flags.contains(rustix::io::FdFlags::CLOEXEC)),
        Err(e) => Err(Error::Os { errno: e.raw_os_error() }),
    }
}

/// Relies on `rustix::io::fcntl_setfd`: it replaces the descriptor flags,
/// of which `FD_CLOEXEC` is the only one, and reports failure through
/// `Errno`.
#[verifier::external_body]
fn sys_set_cloexec(h: &Handle, on: bool) -> (r: Result<(), Error>)
    ensures
        r matches Err(e) ==> e.is_os(),
{
    let flags = if on {
        rustix::io::FdFlags::CLOEXEC
    } else {
        rustix::io::FdFlags::empty()
    };
    match rustix::io::fcntl_setfd(h.as_fd(), flags) {
        Ok(()) => Ok(()),
        Err(e) => Err(Error::Os { errno: e.raw_os_error() }),
    }
}

/// Whether the descriptor is closed on exec (not inherited by a child).
pub fn is_cloexec(h: &Handle) -> (r: Result<bool, Error>)
    ensures
        r matches Err(e) ==> e.is_os(),
{
    sys_get_cloexec(h)
}

/// Mark the descriptor as closed on exec.
pub fn enable_cloexec(h: &Handle) -> (r: Result<(), Error>)
    ensures
        r matches Err(e) ==> e.is_os(),
{
    sys_set_cloexec(h, true)
}

/// Mark the descriptor as kept open across exec.
pub fn disable_cloexec(h: &Handle) -> (r: Result<(), Error>)
    ensures
        r matches Err(e) ==> e.is_os(),
{
    sys_set_cloexec(h, false)
}

/// The cloexec flags of a handle list once every flag has been cleared so
/// that the child can inherit each descriptor.
pub open spec fn spec_cleared_flags(orig: Seq<bool>) -> Seq<bool> {
    Seq::new(orig.len(), |i: int| false)
}

/// The cloexec flags after restoration: each handle whose saved flag was
/// set is set again; one whose saved flag was clear keeps whatever the
/// spawn left it, which after a clear is clear.
pub open spec fn spec_restored_flags(cleared: Seq<bool>, saved: Seq<bool>) -> Seq<bool>
    recommends
        cleared.len() == saved.len(),
{
    Seq::new(cleared.len(), |i: int| saved[i] || cleared[i])
}

/// Cloexec restoration: clearing every flag for a spawn and then writing
/// the saved flags back leaves every handle with the flag it had before,
/// whatever the flags were.
pub proof fn lemma_cloexec_restored(orig: Seq<bool>)
    ensures
        spec_restored_flags(spec_cleared_flags(orig), orig) == orig,
{
    assert(spec_restored_flags(spec_cleared_flags(orig), orig) =~= orig);
}

/// Read and save the cloexec flag of every handle, then clear it, so that
/// the descriptors survive the exec into the child. If any call fails,
/// the flags already cleared are restored before the error is returned,
/// so the caller's handles are never left half-changed.
pub fn save_and_clear_cloexec(hs: &Vec<Handle>) -> (r: Result<Vec<bool>, Error>)
    ensures
        r matches Ok(saved) ==> saved@.len() == hs@.len(),
        hs@.len() == 0 ==> r is Ok,
        r matches Err(e) ==> e.is_os(),
{
    let mut saved: Vec<bool> = Vec::new();
    let mut i: usize = 0;
    while i < hs.len()
        invariant
            i <= hs@.len(),
            saved@.len() == i,
        decreases hs@.len() - i,
    {
        let flag = match is_cloexec(&hs[i]) {
            Ok(f) => f,
            Err(e) => {
                restore_cloexec(hs, &saved);
                return Err(e);
            },
        };
        if flag {
            match disable_cloexec(&hs[i]) {
                Ok(()) => {},
                Err(e) => {
                    restore_cloexec(hs, &saved);
                    return Err(e);
                },
            }
        }
        saved.push(flag);
        i = i + 1;
    }
    Ok(saved)
}

/// Write the saved cloexec flags back, one per handle, continuing past
/// individual failures so that every restorable flag is restored, and
/// report each attempt's outcome: entry `i` holds the error of the
/// attempt on handle `i`, or nothing if that flag was written back.
pub fn restore_cloexec_outcomes(hs: &Vec<Handle>, saved: &Vec<bool>) -> (outs: Vec<Option<Error>>)
    requires
        saved@.len() <= hs@.len(),
    ensures
        outs@.len() == saved@.len(),
        forall|i: int|
            0 <= i < outs@.len() ==> (#[trigger] outs@[i] matches Some(e) ==> e.is_os()),
{
    let mut outs: Vec<Option<Error>> = Vec::new();
    let mut i: usize = 0;
    while i < saved.len()
        invariant
            saved@.len() <= hs@.len(),
            i <= saved@.len(),
            outs@.len() == i,
            forall|j: int|
                0 <= j < outs@.len() ==> (#[trigger] outs@[j] matches Some(e) ==> e.is_os()),
        decreases saved@.len() - i,
    {
        match sys_set_cloexec(&hs[i], saved[i]) {
            Ok(()) => {
                outs.push(None);
            },
            Err(e) => {
                outs.push(Some(e));
            },
        }
        i = i + 1;
    }
    outs
}

/// Decide what a restoration pass returns from its per-handle outcomes:
/// success exactly when every flag was written back, else the first
/// failure, never swallowed -- a flag that could not be restored is
/// fatal to the caller's subsequent correctness.
pub fn first_restore_error(outs: &Vec<Option<Error>>) -> (r: Result<(), Error>)
    ensures
        r is Ok <==> (forall|i: int| 0 <= i < outs@.len() ==> outs@[i] is None),
        r matches Err(e) ==> exists|i: int|
            0 <= i < outs@.len() && outs@[i] == Some(e) && (forall|j: int|
                0 <= j < i ==> outs@[j] is None),
{
    let mut i: usize = 0;
    while i < outs.len()
        invariant
            i <= outs@.len(),
            forall|j: int| 0 <= j < i ==> outs@[j] is None,
        decreases outs@.len() - i,
    {
        match outs[i] {
            Some(e) => {
                return Err(e);
            },
            None => {},
        }
        i = i + 1;
    }
    Ok(())
}

/// Write the saved cloexec flags back, one per handle. Every attempt is
/// made whatever earlier ones did, and the result is exactly
/// [`first_restore_error`] of the attempts' outcomes: `Ok` only when
/// every flag was restored, else the first failure, surfaced to the
/// caller. An empty list always succeeds.
pub fn restore_cloexec(hs: &Vec<Handle>, saved: &Vec<bool>) -> (r: Result<(), Error>)
    requires
        saved@.len() <= hs@.len(),
    ensures
        saved@.len() == 0 ==> r is Ok,
        r matches Err(e) ==> e.is_os(),
{
    let outs = restore_cloexec_outcomes(hs, saved);
    first_restore_error(&outs)
}

} // verus!
