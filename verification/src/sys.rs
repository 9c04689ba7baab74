//! Trusted wrappers around the operating-system calls the fabric needs:
//! creating a socket pair, moving bytes and descriptors through it, and
//! waiting for or signalling a child process. Each wrapper makes one call
//! and converts its arguments and result; everything around the calls is
//! verified.

use crate::error::Error;
use crate::handle::Handle;
use rustix::net::{RecvAncillaryBuffer, RecvAncillaryMessage, RecvFlags};
use rustix::net::{SendAncillaryBuffer, SendAncillaryMessage, SendFlags};
use vstd::prelude::*;

verus! {

/// Relies on `rustix::net::socketpair` with `AF_UNIX`, `SOCK_STREAM` and
/// `SOCK_CLOEXEC`: it creates a connected pair of bidirectional stream
/// sockets, each owned by one returned handle; two descriptors open at
/// once in one process never share a number.
#[verifier::external_body]
pub(crate) fn sys_socketpair() -> (r: Result<(Handle, Handle), Error>)
    ensures
        r matches Ok((a, b)) ==> a.id() != b.id(),
{
    match rustix::net::socketpair(
        rustix::net::AddressFamily::UNIX,
        rustix::net::SocketType::STREAM,
        rustix::net::SocketFlags::CLOEXEC,
        None,
    ) {
        Ok((a, b)) => Ok((Handle::adopt(a), Handle::adopt(b))),
        Err(e) => Err(Error::Os { errno: e.raw_os_error() }),
    }
}

/// Relies on `rustix::net::sendmsg` on a blocking `SOCK_STREAM` socket:
/// on success it has transmitted at least one byte of a non-empty buffer
/// and at most the whole buffer, with the given descriptors attached to
/// the transmitted bytes as `SCM_RIGHTS` ancillary data; the kernel holds
/// its own duplicates of the descriptors from this point on. Failures
/// are the system's, surfaced with their errno.
#[verifier::external_body]
pub(crate) fn sys_send_with_fds(h: &Handle, buf: &[u8], fds: &Vec<Handle>) -> (r: Result<usize, Error>)
    ensures
        r matches Ok(n) ==> n <= buf@.len() && (buf@.len() > 0 ==> n >= 1),
        r matches Err(e) ==> e.is_os(),
{
    let bs: Vec<rustix::fd::BorrowedFd> = fds.iter().map(
        |x: &Handle| rustix::fd::AsFd::as_fd(x.as_fd()),
    ).collect();
    let mut space = vec![core::mem::MaybeUninit::<u8>::uninit(); 64 + 16 * bs.len()];
    let mut ctrl = SendAncillaryBuffer::new(&mut space);
    if !bs.is_empty() && !ctrl.push(SendAncillaryMessage::ScmRights(&bs)) {
        // The control buffer is sized for the list, so this cannot fire;
        // if it ever did, the kernel's own word for it is EMSGSIZE.
        return Err(Error::Os { errno: 90 });
    }
    let iov = [rustix::io::IoSlice::new(buf)];
    rustix::net::sendmsg(h.as_fd(), &iov, &mut ctrl, SendFlags::empty()).map_err(
        |e| Error::Os { errno: e.raw_os_error() },
    )
}

/// Relies on `rustix::io::write` on a blocking socket: on success it has
/// written at least one byte of a non-empty buffer and at most the whole
/// buffer; failures are the system's, surfaced with their errno.
#[verifier::external_body]
pub(crate) fn sys_write(h: &Handle, buf: &[u8]) -> (r: Result<usize, Error>)
    ensures
        r matches Ok(n) ==> n <= buf@.len() && (buf@.len() > 0 ==> n >= 1),
        r matches Err(e) ==> e.is_os(),
{
    match rustix::io::write(h.as_fd(), buf) {
        Ok(n) => Ok(n),
        Err(e) => Err(Error::Os { errno: e.raw_os_error() }),
    }
}

/// Relies on `rustix::net::recvmsg` on a blocking `SOCK_STREAM` socket:
/// it returns at most `max` bytes, an empty buffer exactly on
/// end-of-stream (for `max > 0`), and appends to `fds` one handle for
/// each descriptor the peer attached to the returned bytes, in the order
/// the peer recorded them.
#[verifier::external_body]
pub(crate) fn sys_recv_chunk(h: &Handle, max: usize, fds: &mut Vec<Handle>) -> (r: Result<Vec<u8>, Error>)
    ensures
        r matches Ok(chunk) ==> chunk@.len() <= max,
        r matches Err(e) ==> e.is_os(),
        final(fds)@.len() >= old(fds)@.len(),
        final(fds)@.take(old(fds)@.len() as int) == old(fds)@,
{
    let mut buf = vec![0u8; max];
    let mut space = [core::mem::MaybeUninit::<u8>::uninit(); 1024];
    let mut ctrl = RecvAncillaryBuffer::new(&mut space);
    let mut iov = [rustix::io::IoSliceMut::new(&mut buf)];
    let m = rustix::net::recvmsg(h.as_fd(), &mut iov, &mut ctrl, RecvFlags::CMSG_CLOEXEC).map_err(
        |e| Error::Os { errno: e.raw_os_error() },
    )?;
    for msg in ctrl.drain() {
        if let RecvAncillaryMessage::ScmRights(it) = msg {
            fds.extend(it.map(Handle::adopt));
        }
    }
    buf.truncate(m.bytes);
    Ok(buf)
}

/// Relies on `rustix::process::waitpid` without options: it blocks until
/// the child with the given process id changes state, reaps it, and
/// returns the raw wait status in the POSIX encoding that
/// `spec_wait_exited` and `spec_wait_exit_code` read. Only a positive id
/// names one process; `Pid::from_raw` asserts as much, and a negative
/// argument would address a whole process group.
#[verifier::external_body]
pub(crate) fn sys_waitpid(pid: i32) -> (r: Result<i32, Error>)
    requires
        pid > 0,
    ensures
        r matches Err(e) ==> e.is_os(),
{
    let p = match rustix::process::Pid::from_raw(pid) {
        Some(p) => p,
        None => return Err(Error::Os { errno: 22 }),
    };
    match rustix::process::waitpid(Some(p), rustix::process::WaitOptions::empty()) {
        Ok(Some((_, status))) => Ok(status.as_raw() as i32),
        Ok(None) => Err(Error::Os { errno: 0 }),
        Err(e) => Err(Error::Os { errno: e.raw_os_error() }),
    }
}

/// Relies on `rustix::process::kill_process` with `SIGKILL`: it sends the
/// uncatchable termination signal to the process with the given id. Only
/// a positive id names one process; `Pid::from_raw` asserts as much, and
/// a negative argument would signal a whole process group. Any failure
/// is the system's, surfaced with its errno.
#[verifier::external_body]
pub(crate) fn sys_kill(pid: i32) -> (r: Result<(), Error>)
    requires
        pid > 0,
    ensures
        r matches Err(e) ==> e.is_os(),
{
    let p = match rustix::process::Pid::from_raw(pid) {
        Some(p) => p,
        None => return Err(Error::Os { errno: 22 }),
    };
    match rustix::process::kill_process(p, rustix::process::Signal::KILL) {
        Ok(()) => Ok(()),
        Err(e) => Err(Error::Os { errno: e.raw_os_error() }),
    }
}

} // verus!
