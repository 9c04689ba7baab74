//! Round trips of the object-wire codec over concrete values of every
//! supported type, and the exact frame sizes the wire promises.

use procfab::frame::make_frame;
use procfab::spawn::EntryPayload;
use procfab::wire::{decode_message, encode_message};

fn roundtrip<T: procfab::codec::Wire + PartialEq + std::fmt::Debug + Clone>(v: T) {
    let (bytes, handles) = encode_message(v.clone());
    let back: T = decode_message(bytes, handles).expect("decode failed");
    assert_eq!(back, v);
}

#[test]
fn roundtrip_u64() {
    roundtrip(0u64);
    roundtrip(41u64);
    roundtrip(u64::MAX);
}

#[test]
fn roundtrip_u32_u8_usize() {
    roundtrip(0u32);
    roundtrip(u32::MAX);
    roundtrip(7u8);
    roundtrip(usize::MAX);
    roundtrip(0usize);
}

#[test]
fn roundtrip_i32_negative() {
    roundtrip(0i32);
    roundtrip(-1i32);
    roundtrip(i32::MIN);
    roundtrip(i32::MAX);
}

#[test]
fn roundtrip_bool_unit() {
    roundtrip(true);
    roundtrip(false);
    roundtrip(());
}

#[test]
fn roundtrip_string() {
    roundtrip(String::from("hello"));
    roundtrip(String::from(""));
    roundtrip(String::from("caf\u{e9} \u{1F600}"));
}

#[test]
fn roundtrip_vectors() {
    roundtrip(Vec::<u8>::new());
    roundtrip(vec![1u8, 2, 3, 255]);
    roundtrip(Vec::<i32>::new());
    roundtrip(vec![0i32, -5, i32::MIN, i32::MAX]);
}

#[test]
fn roundtrip_pairs() {
    roundtrip((41u64, 1u64));
    roundtrip((String::from("key"), vec![9u8, 8]));
    roundtrip(((1u64, 2u64), (3u64, false)));
}

#[test]
fn roundtrip_entry_payload() {
    let p = EntryPayload { func_offset: usize::MAX - 17, captured: vec![1, 2, 3] };
    let (bytes, handles) = encode_message(p);
    let back: EntryPayload = decode_message(bytes, handles).expect("decode failed");
    assert_eq!(back.func_offset, usize::MAX - 17);
    assert_eq!(back.captured, vec![1, 2, 3]);
}

#[test]
fn decode_rejects_garbage() {
    let r: Result<u64, _> = decode_message(vec![1, 2, 3], Vec::new());
    assert_eq!(r, Err(procfab::error::Error::Corrupt));
}

#[test]
fn decode_rejects_trailing_bytes() {
    let (mut bytes, handles) = encode_message(5u64);
    bytes.push(0);
    let r: Result<u64, _> = decode_message(bytes, handles);
    assert_eq!(r, Err(procfab::error::Error::Corrupt));
}

#[test]
fn decode_rejects_bad_bool() {
    let r: Result<bool, _> = decode_message(vec![2], Vec::new());
    assert_eq!(r, Err(procfab::error::Error::Corrupt));
}

#[test]
fn decode_rejects_bad_utf8() {
    let (bytes, handles) = encode_message(vec![0xffu8, 0xfe]);
    let r: Result<String, _> = decode_message(bytes, handles);
    assert_eq!(r, Err(procfab::error::Error::Corrupt));
}

#[test]
fn pod_fast_path_frame_size() {
    // A 16-byte plain struct crosses the wire as a frame of exactly
    // size_of::<usize>() + 16 bytes: the length prefix plus the raw value.
    let (payload, handles) = encode_message((1u64, 2u64));
    assert_eq!(payload.len(), 16);
    assert!(handles.is_empty());
    let frame = make_frame(&payload);
    assert_eq!(frame.len(), core::mem::size_of::<usize>() + 16);
}

#[test]
fn frame_layout_length_prefix() {
    let payload = vec![0xaau8; 5];
    let frame = make_frame(&payload);
    assert_eq!(frame.len(), 13);
    assert_eq!(&frame[0..8], &5u64.to_le_bytes());
    assert_eq!(&frame[8..], &payload[..]);
}

#[test]
fn wire_sizes_are_exact() {
    assert_eq!(encode_message(7u8).0.len(), 1);
    assert_eq!(encode_message(7u32).0.len(), 4);
    assert_eq!(encode_message(-7i32).0.len(), 4);
    assert_eq!(encode_message(7u64).0.len(), 8);
    assert_eq!(encode_message(true).0.len(), 1);
    assert_eq!(encode_message(()).0.len(), 0);
    assert_eq!(encode_message(String::from("abc")).0.len(), 8 + 3);
    assert_eq!(encode_message(vec![0u8; 5]).0.len(), 8 + 5);
    assert_eq!(encode_message(vec![0i32; 5]).0.len(), 8 + 20);
}

#[test]
fn decode_rejects_missing_handle() {
    // A frame that promises an endpoint but delivers no descriptor
    // beside it must be refused, not half-reconstructed.
    let r: Result<procfab::channel::Sender<u64>, _> = decode_message(Vec::new(), Vec::new());
    assert_eq!(r.err(), Some(procfab::error::Error::Corrupt));
}

#[test]
fn decode_rejects_stray_handle() {
    // A frame whose transport delivered a descriptor the payload never
    // asked for is equally torn.
    let (a, _b) = rustix::net::socketpair(
        rustix::net::AddressFamily::UNIX,
        rustix::net::SocketType::STREAM,
        rustix::net::SocketFlags::CLOEXEC,
        None,
    )
    .expect("socketpair");
    let stray = procfab::handle::Handle::adopt(a);
    let (bytes, _none) = encode_message(5u64);
    let r: Result<u64, _> = decode_message(bytes, vec![stray]);
    assert_eq!(r, Err(procfab::error::Error::Corrupt));
}
