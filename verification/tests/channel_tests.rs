//! The typed channel layer over real socket pairs: echo traffic, frame
//! ordering, the peer-closed signal at a frame boundary, the error on a
//! torn frame, and descriptor transfer through a channel.

use procfab::channel::{channel, duplex, Receiver, Sender};
use procfab::error::Error;
use procfab::handle::{first_restore_error, restore_cloexec_outcomes, Handle};

#[test]
fn echo_increment() {
    // One side sends 41; the other reads it, adds one, and answers; the
    // first side's request observes 42.
    let (mut a, mut b) = duplex::<u64, u64>().expect("duplex");
    a.send(41).expect("send");
    let x = b.recv().expect("recv").expect("value");
    assert_eq!(x, 41);
    b.send(x + 1).expect("send back");
    let y = a.recv().expect("recv").expect("value");
    assert_eq!(y, 42);
}

#[test]
fn request_reads_the_answer() {
    let (mut a, mut b) = duplex::<u64, u64>().expect("duplex");
    b.send(42).expect("pre-seeded answer");
    let y = a.request(41).expect("request");
    assert_eq!(y, 42);
    assert_eq!(b.recv().expect("recv"), Some(41));
}

#[test]
fn frames_arrive_in_send_order() {
    let (mut tx, mut rx) = channel::<u64>().expect("channel");
    tx.send(1).unwrap();
    tx.send(2).unwrap();
    tx.send(3).unwrap();
    assert_eq!(rx.recv().unwrap(), Some(1));
    assert_eq!(rx.recv().unwrap(), Some(2));
    assert_eq!(rx.recv().unwrap(), Some(3));
}

#[test]
fn strings_cross_the_wire() {
    let (mut tx, mut rx) = channel::<String>().expect("channel");
    tx.send(String::from("hello")).unwrap();
    assert_eq!(rx.recv().unwrap(), Some(String::from("hello")));
}

#[test]
fn peer_close_is_none_at_boundary() {
    let (tx, mut rx) = channel::<u64>().expect("channel");
    drop(tx);
    assert_eq!(rx.recv().expect("recv"), None);
}

#[test]
fn eof_inside_frame_is_an_error() {
    // Write three raw bytes of a frame's length prefix and close: the
    // reader must report a torn frame, not a value and not a clean end.
    let (a, b) = rustix::net::socketpair(
        rustix::net::AddressFamily::UNIX,
        rustix::net::SocketType::STREAM,
        rustix::net::SocketFlags::CLOEXEC,
        None,
    )
    .expect("socketpair");
    rustix::io::write(&a, &[1, 2, 3]).expect("raw write");
    drop(a);
    let mut rx: Receiver<u64> = Receiver::from_handle(Handle::adopt(b));
    assert_eq!(rx.recv(), Err(Error::UnexpectedEof));
}

#[test]
fn eof_inside_payload_is_an_error() {
    let (a, b) = rustix::net::socketpair(
        rustix::net::AddressFamily::UNIX,
        rustix::net::SocketType::STREAM,
        rustix::net::SocketFlags::CLOEXEC,
        None,
    )
    .expect("socketpair");
    // A full length prefix promising 100 bytes, then only 4, then EOF.
    rustix::io::write(&a, &100u64.to_le_bytes()).expect("raw write");
    rustix::io::write(&a, &[9, 9, 9, 9]).expect("raw write");
    drop(a);
    let mut rx: Receiver<u64> = Receiver::from_handle(Handle::adopt(b));
    assert_eq!(rx.recv(), Err(Error::UnexpectedEof));
}

#[test]
fn endpoint_travels_through_a_channel() {
    // A sender endpoint is itself sent through a second channel; the
    // side that receives it can speak through it, and once that side
    // drops it the listener sees the clean close.
    let (stx, mut srx) = channel::<String>().expect("payload channel");
    let (mut ta, mut tb) = duplex::<Sender<String>, u64>().expect("transport");
    ta.send(stx).expect("endpoint send");
    let mut moved = tb.recv().expect("recv").expect("endpoint");
    moved.send(String::from("hello")).expect("send through moved endpoint");
    assert_eq!(srx.recv().unwrap(), Some(String::from("hello")));
    drop(moved);
    assert_eq!(srx.recv().unwrap(), None);
}

#[test]
fn handles_and_payload_arrive_together() {
    // A value that mixes plain data and an endpoint: the frame carries
    // the bytes, the descriptor rides beside them, and both come back in
    // one piece.
    let (stx, mut srx) = channel::<u64>().expect("payload channel");
    let (mut ta, mut tb) = duplex::<(u64, Sender<u64>), u64>().expect("transport");
    ta.send((7, stx)).expect("send");
    let (n, mut moved) = tb.recv().expect("recv").expect("value");
    assert_eq!(n, 7);
    moved.send(123).expect("send through moved endpoint");
    assert_eq!(srx.recv().unwrap(), Some(123));
}

#[test]
fn cloexec_round_trip_on_real_descriptors() {
    // The endpoints are created close-on-exec; clearing the flag for a
    // spawn and restoring it leaves every handle as it was.
    let (a, b) = duplex::<u64, u64>().expect("duplex");
    let ha = a.into_handle();
    let hb = b.into_handle();
    assert_eq!(procfab::handle::is_cloexec(&ha), Ok(true));
    procfab::handle::disable_cloexec(&ha).unwrap();
    assert_eq!(procfab::handle::is_cloexec(&ha), Ok(false));
    procfab::handle::enable_cloexec(&ha).unwrap();
    assert_eq!(procfab::handle::is_cloexec(&ha), Ok(true));

    let handles = vec![ha, hb];
    procfab::handle::disable_cloexec(&handles[1]).unwrap();
    let saved = procfab::handle::save_and_clear_cloexec(&handles).expect("clear");
    assert_eq!(saved, vec![true, false]);
    assert_eq!(procfab::handle::is_cloexec(&handles[0]), Ok(false));
    assert_eq!(procfab::handle::is_cloexec(&handles[1]), Ok(false));
    procfab::handle::restore_cloexec(&handles, &saved).expect("restore");
    assert_eq!(procfab::handle::is_cloexec(&handles[0]), Ok(true));
    assert_eq!(procfab::handle::is_cloexec(&handles[1]), Ok(false));
}

#[test]
fn handshake_shaped_frames_cross_the_wire() {
    // The exact shape the spawn handshake sends: the serialized entry
    // bytes beside the inherited descriptor numbers, as one frame.
    let (mut a, mut b) = duplex::<(Vec<u8>, Vec<i32>), u64>().expect("duplex");
    a.send((vec![1, 2, 3], vec![5, -1, 7])).expect("send");
    let (bytes, fds) = b.recv().expect("recv").expect("value");
    assert_eq!(bytes, vec![1, 2, 3]);
    assert_eq!(fds, vec![5, -1, 7]);
}

#[test]
fn restore_outcomes_and_first_error() {
    // The restoration decision: success exactly when every flag was
    // written back, else the first failure, never swallowed.
    assert_eq!(first_restore_error(&vec![]), Ok(()));
    assert_eq!(first_restore_error(&vec![None, None]), Ok(()));
    let e9 = Error::Os { errno: 9 };
    let e7 = Error::Os { errno: 7 };
    assert_eq!(first_restore_error(&vec![None, Some(e9), Some(e7)]), Err(e9));
    assert_eq!(first_restore_error(&vec![Some(e7)]), Err(e7));

    let (a, b) = duplex::<u64, u64>().expect("duplex");
    let handles = vec![a.into_handle(), b.into_handle()];
    let outs = restore_cloexec_outcomes(&handles, &vec![true, false]);
    assert_eq!(outs, vec![None, None]);
    assert_eq!(procfab::handle::is_cloexec(&handles[0]), Ok(true));
    assert_eq!(procfab::handle::is_cloexec(&handles[1]), Ok(false));
}
