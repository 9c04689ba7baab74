//! Typed channel endpoints over a UNIX domain socket pair, with
//! single-object framing: each send transmits one value as one
//! length-prefixed frame, its handles riding out-of-band beside the bytes
//! they belong to.

use crate::codec::{Deserializer, Serializer, Wire};
use crate::error::Error;
use crate::frame::make_frame;
use crate::handle::Handle;
use crate::sys::{sys_recv_chunk, sys_send_with_fds, sys_socketpair, sys_write};
use crate::wire::{decode_message, encode_message};
use core::marker::PhantomData;
use vstd::prelude::*;
use vstd::slice::slice_subrange;

verus! {

/// The transmitting side of a unidirectional channel: `T` is the type of
/// the objects this side sends and the other side receives.
pub struct Sender<T: Wire> {
    h: Handle,
    marker: PhantomData<T>,
}

/// The receiving side of a unidirectional channel: `T` is the type of the
/// objects the other side sends and this side receives.
pub struct Receiver<T: Wire> {
    h: Handle,
    marker: PhantomData<T>,
}

/// One side of a bidirectional channel: this side sends objects of type
/// `S` and receives objects of type `R`.
pub struct Duplex<S: Wire, R: Wire> {
    h: Handle,
    marker: PhantomData<(S, R)>,
}

/// Write a whole frame to the stream: every byte of `raw`, with the
/// handles attached to the first bytes transmitted, as the peer's
/// ancillary data. The handles are owned by the call and are closed on
/// return: the kernel keeps its own duplicates with the in-flight bytes,
/// so from the caller's view ownership has passed to the peer.
fn write_frame(h: &Handle, raw: &Vec<u8>, fds: Vec<Handle>) -> (r: Result<(), Error>)
    ensures
        r matches Err(e) ==> e.is_os() || e == Error::UnexpectedEof,
{
    let total = raw.len();
    let first = match sys_send_with_fds(h, raw.as_slice(), &fds) {
        Ok(n) => n,
        Err(e) => {
            return Err(e);
        },
    };
    let mut written: usize = first;
    while written < total
        invariant
            written <= total,
            total == raw@.len(),
        decreases total - written,
    {
        let chunk = slice_subrange(raw.as_slice(), written, total);
        match sys_write(h, chunk) {
            Ok(n) => {
                if n == 0 {
                    return Err(Error::UnexpectedEof);
                }
                written = written + n;
            },
            Err(e) => {
                return Err(e);
            },
        }
    }
    Ok(())
}

/// Read exactly `want` more bytes into `acc`, gathering any descriptors
/// the peer attached along the way into `fds`. Returns `Ok(false)` if
/// the stream ended before the first byte of an empty `acc` (the frame
/// boundary), an error if it ended anywhere else inside the count.
fn read_exact(h: &Handle, want: usize, acc: &mut Vec<u8>, fds: &mut Vec<Handle>) -> (r: Result<
    bool,
    Error,
>)
    requires
        old(acc)@.len() + want <= usize::MAX,
    ensures
        r matches Ok(true) ==> final(acc)@.len() == old(acc)@.len() + want,
        r matches Ok(false) ==> old(acc)@.len() == 0 && final(acc)@ == old(acc)@,
        r matches Err(e) ==> e.is_os() || e == Error::UnexpectedEof,
        final(acc)@.take(old(acc)@.len() as int) == old(acc)@,
{
    let base = acc.len();
    let mut got: usize = 0;
    proof {
        assert(acc@.take(base as int) =~= acc@);
    }
    while got < want
        invariant
            got <= want,
            acc@.len() == base + got,
            base == old(acc)@.len(),
            base + want <= usize::MAX,
            got > 0 ==> base + got > 0,
            acc@.len() == base ==> acc@ == old(acc)@,
            acc@.take(base as int) == old(acc)@,
        decreases want - got,
    {
        let chunk = match sys_recv_chunk(h, want - got, fds) {
            Ok(c) => c,
            Err(e) => {
                return Err(e);
            },
        };
        if chunk.len() == 0 {
            if base == 0 && got == 0 {
                return Ok(false);
            }
            return Err(Error::UnexpectedEof);
        }
        let mut i: usize = 0;
        let clen = chunk.len();
        while i < clen
            invariant
                i <= clen,
                clen == chunk@.len(),
                clen <= want - got,
                got <= want,
                base + want <= usize::MAX,
                acc@.len() == base + got + i,
                acc@.take(base as int) == old(acc)@,
            decreases clen - i,
        {
            acc.push(chunk[i]);
            i = i + 1;
            proof {
                assert(acc@.take(base as int) =~= old(acc)@);
            }
        }
        got = got + clen;
    }
    Ok(true)
}

/// Receive one whole frame: its payload and the handles that rode beside
/// it. `Ok(None)` reports end-of-stream exactly at a frame boundary --
/// the peer closed its endpoint; end-of-stream anywhere inside a frame
/// is `Error::UnexpectedEof`.
pub fn recv_frame(h: &Handle) -> (r: Result<Option<(Vec<u8>, Vec<Handle>)>, Error>)
    ensures
        r matches Ok(Some((payload, fds))) ==> payload@.len() <= usize::MAX,
        r matches Err(e) ==> e.is_os() || e == Error::UnexpectedEof || e == Error::Corrupt,
{
    let mut fds: Vec<Handle> = Vec::new();
    let mut prefix: Vec<u8> = Vec::new();
    match read_exact(h, 8, &mut prefix, &mut fds) {
        Ok(true) => {},
        Ok(false) => {
            return Ok(None);
        },
        Err(e) => {
            return Err(e);
        },
    }
    let n = crate::frame::parse_frame_len(&prefix);
    if n > (usize::MAX as u64) {
        return Err(Error::Corrupt);
    }
    let mut payload: Vec<u8> = Vec::new();
    match read_exact(h, n as usize, &mut payload, &mut fds) {
        Ok(true) => Ok(Some((payload, fds))),
        Ok(false) => {
            if n == 0 {
                Ok(Some((payload, fds)))
            } else {
                Err(Error::UnexpectedEof)
            }
        },
        Err(e) => Err(e),
    }
}

/// Send one value as one frame over the stream behind `h`.
pub fn send_frame<T: Wire>(h: &Handle, value: T) -> (r: Result<(), Error>)
    requires
        T::wf(value.rep()),
    ensures
        r matches Err(e) ==> e.is_os() || e == Error::UnexpectedEof,
{
    let (payload, fds) = encode_message(value);
    let raw = make_frame(&payload);
    write_frame(h, &raw, fds)
}

/// Receive one value framed by [`send_frame`]. `Ok(None)` reports that
/// the peer closed the channel at a frame boundary. A payload that does
/// not parse as exactly one value with exactly the delivered handles is
/// `Error::Corrupt`.
pub fn recv_framed<T: Wire>(h: &Handle) -> (r: Result<Option<T>, Error>)
    ensures
        r matches Ok(Some(v)) ==> T::wf(v.rep()),
        r matches Err(e) ==> e.is_os() || e == Error::UnexpectedEof || e == Error::Corrupt,
{
    match recv_frame(h) {
        Ok(Some((payload, fds))) => {
            match decode_message::<T>(payload, fds) {
                Ok(v) => Ok(Some(v)),
                Err(e) => Err(e),
            }
        },
        Ok(None) => Ok(None),
        Err(e) => Err(e),
    }
}

impl<T: Wire> Sender<T> {
    /// Wrap an owned stream endpoint as a typed sender.
    pub fn from_handle(h: Handle) -> (s: Sender<T>)
        ensures
            s.id() == h.id(),
    {
        Sender { h, marker: PhantomData }
    }

    /// The id of the underlying descriptor.
    pub closed spec fn id(self) -> int {
        self.h.id()
    }

    /// Give up the underlying stream endpoint.
    pub fn into_handle(self) -> (h: Handle)
        ensures
            h.id() == self.id(),
    {
        let Sender { h, marker: _ } = self;
        h
    }

    /// Send a value to the other side as one atomic frame. The value is
    /// consumed: any endpoint or handle inside it now belongs to the
    /// peer, and this process must not use it again. The sender keeps
    /// its own descriptor, whatever the outcome.
    pub fn send(&mut self, value: T) -> (r: Result<(), Error>)
        requires
            T::wf(value.rep()),
        ensures
            final(self).id() == old(self).id(),
            r matches Err(e) ==> e.is_os() || e == Error::UnexpectedEof,
    {
        send_frame(&self.h, value)
    }
}

impl<T: Wire> Receiver<T> {
    /// Wrap an owned stream endpoint as a typed receiver.
    pub fn from_handle(h: Handle) -> (s: Receiver<T>)
        ensures
            s.id() == h.id(),
    {
        Receiver { h, marker: PhantomData }
    }

    /// The id of the underlying descriptor.
    pub closed spec fn id(self) -> int {
        self.h.id()
    }

    /// Give up the underlying stream endpoint.
    pub fn into_handle(self) -> (h: Handle)
        ensures
            h.id() == self.id(),
    {
        let Receiver { h, marker: _ } = self;
        h
    }

    /// Receive a value from the other side. Returns `Ok(None)` if the
    /// other side has dropped the channel. The receiver keeps its own
    /// descriptor, whatever the outcome.
    pub fn recv(&mut self) -> (r: Result<Option<T>, Error>)
        ensures
            r matches Ok(Some(v)) ==> T::wf(v.rep()),
            final(self).id() == old(self).id(),
            r matches Err(e) ==> e.is_os() || e == Error::UnexpectedEof || e == Error::Corrupt,
    {
        recv_framed(&self.h)
    }
}

impl<S: Wire, R: Wire> Duplex<S, R> {
    /// Wrap an owned bidirectional stream endpoint as a duplex.
    pub fn from_handle(h: Handle) -> (s: Duplex<S, R>)
        ensures
            s.id() == h.id(),
    {
        Duplex { h, marker: PhantomData }
    }

    /// The id of the underlying descriptor.
    pub closed spec fn id(self) -> int {
        self.h.id()
    }

    /// Give up the underlying stream endpoint.
    pub fn into_handle(self) -> (h: Handle)
        ensures
            h.id() == self.id(),
    {
        let Duplex { h, marker: _ } = self;
        h
    }

    /// Send a value to the other side; as [`Sender::send`].
    pub fn send(&mut self, value: S) -> (r: Result<(), Error>)
        requires
            S::wf(value.rep()),
        ensures
            final(self).id() == old(self).id(),
            r matches Err(e) ==> e.is_os() || e == Error::UnexpectedEof,
    {
        send_frame(&self.h, value)
    }

    /// Receive a value from the other side; as [`Receiver::recv`].
    pub fn recv(&mut self) -> (r: Result<Option<R>, Error>)
        ensures
            r matches Ok(Some(v)) ==> R::wf(v.rep()),
            final(self).id() == old(self).id(),
            r matches Err(e) ==> e.is_os() || e == Error::UnexpectedEof || e == Error::Corrupt,
    {
        recv_framed(&self.h)
    }

    /// Send a value and wait for the response. A peer that closes the
    /// channel instead of responding is reported as `UnexpectedEof`.
    pub fn request(&mut self, value: S) -> (r: Result<R, Error>)
        requires
            S::wf(value.rep()),
        ensures
            r matches Ok(v) ==> R::wf(v.rep()),
            final(self).id() == old(self).id(),
            r matches Err(e) ==> e.is_os() || e == Error::UnexpectedEof || e == Error::Corrupt,
    {
        match self.send(value) {
            Ok(()) => {},
            Err(e) => {
                return Err(e);
            },
        }
        match self.recv() {
            Ok(Some(v)) => Ok(v),
            Ok(None) => Err(Error::UnexpectedEof),
            Err(e) => Err(e),
        }
    }

    /// Keep only the sending direction; the socket is retained.
    pub fn into_sender(self) -> (s: Sender<S>)
        ensures
            s.id() == self.id(),
    {
        let h = self.into_handle();
        Sender::from_handle(h)
    }

    /// Keep only the receiving direction; the socket is retained.
    pub fn into_receiver(self) -> (s: Receiver<R>)
        ensures
            s.id() == self.id(),
    {
        let h = self.into_handle();
        Receiver::from_handle(h)
    }
}

/// Create a bidirectional channel: one socket pair, each side a duplex
/// that owns its own descriptor.
pub fn duplex<A: Wire, B: Wire>() -> (r: Result<(Duplex<A, B>, Duplex<B, A>), Error>)
    ensures
        r matches Ok((a, b)) ==> a.id() != b.id(),
{
    match sys_socketpair() {
        Ok((a, b)) => Ok((Duplex::from_handle(a), Duplex::from_handle(b))),
        Err(e) => Err(e),
    }
}

/// Create a unidirectional channel. The unused direction of each socket
/// is allowed but unused; each endpoint owns its own descriptor.
pub fn channel<T: Wire>() -> (r: Result<(Sender<T>, Receiver<T>), Error>)
    ensures
        r matches Ok((tx, rx)) ==> tx.id() != rx.id(),
{
    match duplex::<T, T>() {
        Ok((tx, rx)) => Ok((tx.into_sender(), rx.into_receiver())),
        Err(e) => Err(e),
    }
}

impl<T: Wire> Wire for Sender<T> {
    type Rep = int;

    open spec fn rep(&self) -> int {
        self.id()
    }

    open spec fn wf(w: int) -> bool {
        true
    }

    open spec fn enc(w: int) -> Seq<u8> {
        Seq::empty()
    }

    open spec fn hids(w: int) -> Seq<int> {
        seq![w]
    }

    open spec fn dec(b: Seq<u8>, h: Seq<int>) -> Option<(int, Seq<u8>, Seq<int>)> {
        if h.len() >= 1 {
            Some((h[0], b, h.skip(1)))
        } else {
            None
        }
    }

    proof fn lemma_round_trip(w: int, restb: Seq<u8>, resth: Seq<int>) {
        assert(Self::enc(w) + restb =~= restb);
        assert((Self::hids(w) + resth).skip(1) =~= resth);
    }

    fn put(self, s: &mut Serializer) {
        let ghost w = self.id();
        let h = self.into_handle();
        s.append_handle(h);
        proof {
            assert(s.bytes() + Self::enc(w) =~= s.bytes());
        }
    }

    fn take(d: &mut Deserializer) -> (r: Option<Self>) {
        match d.take_handle() {
            Some(h) => Some(Sender::from_handle(h)),
            None => None,
        }
    }

    open spec fn is_unit() -> bool {
        false
    }

    fn unit_value() -> (r: Option<Self>) {
        None
    }
}

impl<T: Wire> Wire for Receiver<T> {
    type Rep = int;

    open spec fn rep(&self) -> int {
        self.id()
    }

    open spec fn wf(w: int) -> bool {
        true
    }

    open spec fn enc(w: int) -> Seq<u8> {
        Seq::empty()
    }

    open spec fn hids(w: int) -> Seq<int> {
        seq![w]
    }

    open spec fn dec(b: Seq<u8>, h: Seq<int>) -> Option<(int, Seq<u8>, Seq<int>)> {
        if h.len() >= 1 {
            Some((h[0], b, h.skip(1)))
        } else {
            None
        }
    }

    proof fn lemma_round_trip(w: int, restb: Seq<u8>, resth: Seq<int>) {
        assert(Self::enc(w) + restb =~= restb);
        assert((Self::hids(w) + resth).skip(1) =~= resth);
    }

    fn put(self, s: &mut Serializer) {
        let ghost w = self.id();
        let h = self.into_handle();
        s.append_handle(h);
        proof {
            assert(s.bytes() + Self::enc(w) =~= s.bytes());
        }
    }

    fn take(d: &mut Deserializer) -> (r: Option<Self>) {
        match d.take_handle() {
            Some(h) => Some(Receiver::from_handle(h)),
            None => None,
        }
    }

    open spec fn is_unit() -> bool {
        false
    }

    fn unit_value() -> (r: Option<Self>) {
        None
    }
}

impl<S: Wire, R: Wire> Wire for Duplex<S, R> {
    type Rep = int;

    open spec fn rep(&self) -> int {
        self.id()
    }

    open spec fn wf(w: int) -> bool {
        true
    }

    open spec fn enc(w: int) -> Seq<u8> {
        Seq::empty()
    }

    open spec fn hids(w: int) -> Seq<int> {
        seq![w]
    }

    open spec fn dec(b: Seq<u8>, h: Seq<int>) -> Option<(int, Seq<u8>, Seq<int>)> {
        if h.len() >= 1 {
            Some((h[0], b, h.skip(1)))
        } else {
            None
        }
    }

    proof fn lemma_round_trip(w: int, restb: Seq<u8>, resth: Seq<int>) {
        assert(Self::enc(w) + restb =~= restb);
        assert((Self::hids(w) + resth).skip(1) =~= resth);
    }

    fn put(self, s: &mut Serializer) {
        let ghost w = self.id();
        let h = self.into_handle();
        s.append_handle(h);
        proof {
            assert(s.bytes() + Self::enc(w) =~= s.bytes());
        }
    }

    fn take(d: &mut Deserializer) -> (r: Option<Self>) {
        match d.take_handle() {
            Some(h) => Some(Duplex::from_handle(h)),
            None => None,
        }
    }

    open spec fn is_unit() -> bool {
        false
    }

    fn unit_value() -> (r: Option<Self>) {
        None
    }
}

} // verus!
