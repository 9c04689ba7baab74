//! The child lifecycle: the join decision on every kind of wait status,
//! and the join/kill exclusion through the shared flag.
//!
//! No test here forks a real subprocess: process creation lives with the
//! embedding program. The lifecycle decisions are exercised directly,
//! and the exclusion protocol over a process id that names nothing, so
//! every operating-system outcome is an error the contracts pin down.

use procfab::channel::channel;
use procfab::child::{join_outcome, Child};
use procfab::error::Error;

#[test]
fn join_outcome_clean_exit_with_value() {
    assert_eq!(join_outcome::<u64>(Some(5), 0), Ok(5));
}

#[test]
fn join_outcome_clean_exit_without_value() {
    assert_eq!(join_outcome::<u64>(None, 0), Err(Error::NoReturnValue));
}

#[test]
fn join_outcome_nonzero_exit() {
    // A child that exits with code 7: the status embeds the 7 in its
    // exit-code byte and join surfaces it as the error.
    let status = 7 << 8;
    assert_eq!(join_outcome::<u64>(Some(5), status), Err(Error::ChildStatus { status }));
    match join_outcome::<u64>(None, status) {
        Err(Error::ChildStatus { status: s }) => assert_eq!((s >> 8) & 0xff, 7),
        other => panic!("expected ChildStatus, got {:?}", other),
    }
}

#[test]
fn join_outcome_signalled() {
    // A child torn down by the kill signal: the status carries the
    // signal number and is never a clean exit, whatever was in flight.
    assert_eq!(join_outcome::<u64>(None, 9), Err(Error::ChildStatus { status: 9 }));
    assert_eq!(join_outcome::<u64>(Some(5), 9), Err(Error::ChildStatus { status: 9 }));
}

#[test]
fn join_outcome_unit_silence_is_an_answer() {
    assert_eq!(join_outcome::<()>(Some(()), 0), Ok(()));
    assert_eq!(join_outcome::<()>(None, 7 << 8), Err(Error::ChildStatus { status: 7 << 8 }));
}

#[test]
fn join_precludes_kill() {
    // The peer endpoint is dropped, so the join's receive sees a clean
    // close; the process id names no child of this process, so the wait
    // itself fails -- but the flag has been claimed by then, and every
    // later kill through the handle is refused.
    let (tx, rx) = channel::<()>().expect("channel");
    drop(tx);
    let child = Child::attach(999_999_99, rx);
    let kh = child.get_kill_handle();
    match child.join() {
        Err(Error::Os { .. }) => {},
        other => panic!("expected an OS error from the wait, got {:?}", other),
    }
    assert_eq!(kh.kill(), Err(Error::AlreadyJoined));
    assert_eq!(kh.kill(), Err(Error::AlreadyJoined));
}

#[test]
fn kill_before_join_reaches_the_system() {
    // Before any join, the flag is open and the kill goes through to
    // the operating system, which rejects the dead process id: an OS
    // error, not "already joined".
    let (tx, rx) = channel::<u64>().expect("channel");
    drop(tx);
    let child = Child::attach(999_999_99, rx);
    let kh = child.get_kill_handle();
    match kh.kill() {
        Err(Error::Os { .. }) => {},
        other => panic!("expected an OS error from the kill, got {:?}", other),
    }
}

#[test]
fn join_propagates_receive_errors() {
    // A torn frame on the output channel fails the join before any
    // state changes: the error is the channel's, not the lifecycle's.
    let (a, b) = rustix::net::socketpair(
        rustix::net::AddressFamily::UNIX,
        rustix::net::SocketType::STREAM,
        rustix::net::SocketFlags::CLOEXEC,
        None,
    )
    .expect("socketpair");
    rustix::io::write(&a, &[1, 2, 3]).expect("raw write");
    drop(a);
    let rx = procfab::channel::Receiver::<u64>::from_handle(procfab::handle::Handle::adopt(b));
    let child = Child::attach(999_999_99, rx);
    assert_eq!(child.join(), Err(Error::UnexpectedEof));
}

#[test]
fn child_reports_its_id() {
    let (tx, rx) = channel::<()>().expect("channel");
    drop(tx);
    let child = Child::attach(4242, rx);
    assert_eq!(child.id(), 4242);
    let kh = child.get_kill_handle();
    match kh.kill() {
        Err(Error::Os { .. }) => {},
        other => panic!("expected an OS error from the kill, got {:?}", other),
    }
}
