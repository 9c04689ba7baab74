//! The object-wire codec: a serializer that grows a byte buffer beside an
//! ordered handle list, its dual deserializer, and the object contract by
//! which a value describes its own wire form.
//!
//! The byte payload carries only data; handles travel out-of-band in the
//! order the serializer recorded them, and the deserializer consumes them
//! in that same order. Each supported type proves that deserializing the
//! output of serializing a value yields the value back.

use crate::error::Error;
use crate::handle::Handle;
use vstd::bytes::*;
use vstd::prelude::*;
use vstd::slice::*;

verus! {

/// The ids of a handle list, in order.
pub open spec fn hid_seq(hs: Seq<Handle>) -> Seq<int> {
    hs.map_values(|h: Handle| h.id())
}

/// A growable byte buffer plus an ordered list of handles.
pub struct Serializer {
    buf: Vec<u8>,
    hs: Vec<Handle>,
}

/// The dual of [`Serializer`]: a byte cursor plus the handle list supplied
/// by the transport, both consumed front to back.
pub struct Deserializer {
    buf: Vec<u8>,
    pos: usize,
    hs: Vec<Handle>,
}

impl Serializer {
    /// The bytes accumulated so far.
    pub closed spec fn bytes(self) -> Seq<u8> {
        self.buf@
    }

    /// The ids of the handles recorded so far, in order.
    pub closed spec fn hids(self) -> Seq<int> {
        hid_seq(self.hs@)
    }

    /// An empty serializer.
    pub fn new() -> (s: Serializer)
        ensures
            s.bytes() == Seq::<u8>::empty(),
            s.hids() == Seq::<int>::empty(),
    {
        let s = Serializer { buf: Vec::new(), hs: Vec::new() };
        proof {
            assert(s.hids() =~= Seq::<int>::empty());
        }
        s
    }

    /// Append a block of plain bytes.
    pub fn append_bytes(&mut self, b: &[u8])
        ensures
            final(self).bytes() == old(self).bytes() + b@,
            final(self).hids() == old(self).hids(),
    {
        let mut i: usize = 0;
        while i < b.len()
            invariant
                i <= b@.len(),
                self.buf@ == old(self).buf@ + b@.take(i as int),
                self.hs == old(self).hs,
            decreases b@.len() - i,
        {
            self.buf.push(*slice_index_get(b, i));
            i = i + 1;
            proof {
                assert(self.buf@ =~= old(self).buf@ + b@.take(i as int));
            }
        }
        proof {
            assert(b@.take(b@.len() as int) =~= b@);
        }
    }

    /// Append one byte.
    pub fn append_byte(&mut self, x: u8)
        ensures
            final(self).bytes() == old(self).bytes() + seq![x],
            final(self).hids() == old(self).hids(),
    {
        self.buf.push(x);
        proof {
            assert(self.buf@ =~= old(self).buf@ + seq![x]);
        }
    }

    /// Append a `u64` in little-endian order.
    pub fn append_u64(&mut self, x: u64)
        ensures
            final(self).bytes() == old(self).bytes() + spec_u64_to_le_bytes(x),
            final(self).hids() == old(self).hids(),
    {
        let b = u64_to_le_bytes(x);
        self.append_bytes(b.as_slice());
    }

    /// Append a `u32` in little-endian order.
    pub fn append_u32(&mut self, x: u32)
        ensures
            final(self).bytes() == old(self).bytes() + spec_u32_to_le_bytes(x),
            final(self).hids() == old(self).hids(),
    {
        let b = u32_to_le_bytes(x);
        self.append_bytes(b.as_slice());
    }

    /// Record a handle; ownership of the descriptor passes to the
    /// serializer and later to the transport.
    pub fn append_handle(&mut self, h: Handle)
        ensures
            final(self).bytes() == old(self).bytes(),
            final(self).hids() == old(self).hids() + seq![h.id()],
    {
        self.hs.push(h);
        proof {
            assert(self.hids() =~= old(self).hids() + seq![h.id()]);
        }
    }

    /// Append a value that implements the object contract.
    pub fn serialize<T: Wire>(&mut self, v: T)
        requires
            T::wf(v.rep()),
        ensures
            final(self).bytes() == old(self).bytes() + T::enc(v.rep()),
            final(self).hids() == old(self).hids() + T::hids(v.rep()),
    {
        v.put(self);
    }

    /// Append a value whose own serialization is trivial; the wire form
    /// is the same as [`Self::serialize`], without heap detours.
    pub fn serialize_temporary<T: Wire>(&mut self, v: T)
        requires
            T::wf(v.rep()),
        ensures
            final(self).bytes() == old(self).bytes() + T::enc(v.rep()),
            final(self).hids() == old(self).hids() + T::hids(v.rep()),
    {
        v.put(self);
    }

    /// Move out the accumulated handle list.
    pub fn drain_handles(&mut self) -> (hs: Vec<Handle>)
        ensures
            hid_seq(hs@) == old(self).hids(),
            final(self).hids() == Seq::<int>::empty(),
            final(self).bytes() == old(self).bytes(),
    {
        let mut out: Vec<Handle> = Vec::new();
        core::mem::swap(&mut out, &mut self.hs);
        proof {
            assert(self.hids() =~= Seq::<int>::empty());
        }
        out
    }

    /// Move out the byte buffer.
    pub fn into_vec(self) -> (b: Vec<u8>)
        ensures
            b@ == self.bytes(),
    {
        let Serializer { buf, hs: _ } = self;
        buf
    }
}

impl Deserializer {
    /// The bytes not yet consumed.
    pub closed spec fn rb(self) -> Seq<u8> {
        if self.pos <= self.buf@.len() {
            self.buf@.skip(self.pos as int)
        } else {
            Seq::empty()
        }
    }

    /// The ids of the handles not yet consumed, in order.
    pub closed spec fn rh(self) -> Seq<int> {
        hid_seq(self.hs@)
    }

    /// A deserializer over a payload and the handles that accompanied it.
    pub fn new(buf: Vec<u8>, hs: Vec<Handle>) -> (d: Deserializer)
        ensures
            d.rb() == buf@,
            d.rh() == hid_seq(hs@),
    {
        let d = Deserializer { buf, pos: 0, hs };
        proof {
            assert(d.rb() =~= d.buf@);
        }
        d
    }

    /// How many bytes remain.
    pub fn remaining(&self) -> (n: usize)
        ensures
            n == self.rb().len(),
    {
        if self.pos <= self.buf.len() {
            self.buf.len() - self.pos
        } else {
            0
        }
    }

    /// True once every byte and every handle has been consumed.
    pub fn is_done(&self) -> (r: bool)
        ensures
            r == (self.rb().len() == 0 && self.rh().len() == 0),
    {
        self.pos >= self.buf.len() && self.hs.len() == 0
    }

    /// Consume one byte.
    pub fn read_byte(&mut self) -> (r: Option<u8>)
        ensures
            match r {
                Some(x) => old(self).rb().len() >= 1 && x == old(self).rb()[0] && final(self).rb()
                    == old(self).rb().skip(1) && final(self).rh() == old(self).rh(),
                None => old(self).rb().len() < 1,
            },
    {
        if self.pos < self.buf.len() {
            let x = self.buf[self.pos];
            self.pos = self.pos + 1;
            proof {
                assert(self.rb() =~= old(self).rb().skip(1));
            }
            Some(x)
        } else {
            None
        }
    }

    /// Consume eight bytes as a little-endian `u64`.
    pub fn read_u64(&mut self) -> (r: Option<u64>)
        ensures
            match r {
                Some(x) => old(self).rb().len() >= 8 && x == spec_u64_from_le_bytes(
                    old(self).rb().take(8),
                ) && final(self).rb() == old(self).rb().skip(8) && final(self).rh() == old(self).rh(),
                None => old(self).rb().len() < 8,
            },
    {
        if self.pos <= self.buf.len() && self.buf.len() - self.pos >= 8 {
            let s = slice_subrange(self.buf.as_slice(), self.pos, self.pos + 8);
            let x = u64_from_le_bytes(s);
            proof {
                assert(s@ =~= old(self).rb().take(8));
            }
            self.pos = self.pos + 8;
            proof {
                assert(self.rb() =~= old(self).rb().skip(8));
            }
            Some(x)
        } else {
            None
        }
    }

    /// Consume four bytes as a little-endian `u32`.
    pub fn read_u32(&mut self) -> (r: Option<u32>)
        ensures
            match r {
                Some(x) => old(self).rb().len() >= 4 && x == spec_u32_from_le_bytes(
                    old(self).rb().take(4),
                ) && final(self).rb() == old(self).rb().skip(4) && final(self).rh() == old(self).rh(),
                None => old(self).rb().len() < 4,
            },
    {
        if self.pos <= self.buf.len() && self.buf.len() - self.pos >= 4 {
            let s = slice_subrange(self.buf.as_slice(), self.pos, self.pos + 4);
            let x = u32_from_le_bytes(s);
            proof {
                assert(s@ =~= old(self).rb().take(4));
            }
            self.pos = self.pos + 4;
            proof {
                assert(self.rb() =~= old(self).rb().skip(4));
            }
            Some(x)
        } else {
            None
        }
    }

    /// Consume `n` bytes as a fresh buffer.
    pub fn read_bytes(&mut self, n: usize) -> (r: Option<Vec<u8>>)
        ensures
            match r {
                Some(b) => old(self).rb().len() >= n && b@ == old(self).rb().take(n as int) && final(self).rb() == old(self).rb().skip(n as int) && final(self).rh() == old(self).rh(),
                None => old(self).rb().len() < n,
            },
    {
        if n == 0 {
            let out: Vec<u8> = Vec::new();
            proof {
                assert(out@ =~= old(self).rb().take(0));
                assert(self.rb() =~= old(self).rb().skip(0));
            }
            return Some(out);
        }
        if self.pos <= self.buf.len() && self.buf.len() - self.pos >= n {
            let mut out: Vec<u8> = Vec::new();
            let mut j: usize = 0;
            while j < n
                invariant
                    j <= n,
                    self.pos + n <= self.buf@.len(),
                    self.buf@.len() <= usize::MAX,
                    out@ == self.buf@.subrange(self.pos as int, self.pos + j),
                    self == old(self),
                decreases n - j,
            {
                proof {
                    assert(self.pos + j < self.buf@.len());
                }
                out.push(self.buf[self.pos + j]);
                j = j + 1;
                proof {
                    assert(out@ =~= self.buf@.subrange(self.pos as int, self.pos + j));
                }
            }
            proof {
                assert(out@ =~= old(self).rb().take(n as int));
            }
            self.pos = self.pos + n;
            proof {
                assert(self.rb() =~= old(self).rb().skip(n as int));
            }
            Some(out)
        } else {
            None
        }
    }

    /// Consume the next handle of the transport's list.
    pub fn take_handle(&mut self) -> (r: Option<Handle>)
        ensures
            match r {
                Some(h) => old(self).rh().len() >= 1 && h.id() == old(self).rh()[0] && final(self).rh() == old(self).rh().skip(1) && final(self).rb() == old(self).rb(),
                None => old(self).rh().len() < 1,
            },
    {
        if self.hs.len() > 0 {
            let h = self.hs.remove(0);
            proof {
                assert(self.rh() =~= old(self).rh().skip(1));
            }
            Some(h)
        } else {
            None
        }
    }

    /// The unconsumed bytes always fit in memory.
    pub proof fn lemma_rb_bounded(self)
        ensures
            self.rb().len() <= usize::MAX,
    {
        broadcast use vstd::std_specs::vec::axiom_spec_len;

        assert(vstd::std_specs::vec::spec_vec_len(&self.buf) == self.buf@.len());
    }

    /// Read out a value of the object contract, or report that the bytes
    /// do not parse as one.
    pub fn deserialize<T: Wire>(&mut self) -> (r: Result<T, Error>)
        ensures
            match r {
                Ok(v) => T::dec(old(self).rb(), old(self).rh()) == Some(
                    (v.rep(), final(self).rb(), final(self).rh()),
                ) && T::wf(v.rep()),
                Err(e) => e == Error::Corrupt && T::dec(old(self).rb(), old(self).rh()) is None,
            },
    {
        match T::take(self) {
            Some(v) => Ok(v),
            None => Err(Error::Corrupt),
        }
    }
}

/// The object contract: how a value of the type is laid out on the wire.
///
/// `Rep` is the mathematical content of a value: for plain data it is the
/// value itself or its sequence view; for a handle or an endpoint it is
/// the handle's id. `enc` gives the byte image of that content, `hids`
/// the ids of the handles it carries, in order, and `dec` parses content
/// back off the front of a byte stream and a handle list. Every
/// implementation proves `lemma_round_trip`: decoding an encoded value
/// consumes exactly what was produced and yields the value back.
pub trait Wire: Sized {
    /// The mathematical content of a value.
    type Rep;

    /// The content of this value.
    spec fn rep(&self) -> Self::Rep;

    /// Contents whose byte image the machine can hold.
    spec fn wf(w: Self::Rep) -> bool;

    /// The byte image of a content.
    spec fn enc(w: Self::Rep) -> Seq<u8>;

    /// The handle ids a content carries, in order.
    spec fn hids(w: Self::Rep) -> Seq<int>;

    /// Parse a content off the front of a byte stream and a handle list;
    /// yields the content and both remainders.
    spec fn dec(b: Seq<u8>, h: Seq<int>) -> Option<(Self::Rep, Seq<u8>, Seq<int>)>;

    /// Round-trip: decoding an encoding, whatever follows it, yields the
    /// encoded content and leaves exactly the rest.
    proof fn lemma_round_trip(w: Self::Rep, restb: Seq<u8>, resth: Seq<int>)
        requires
            Self::wf(w),
        ensures
            Self::dec(Self::enc(w) + restb, Self::hids(w) + resth) == Some((w, restb, resth)),
    ;

    /// Append this value's wire form to a serializer. Handles the value
    /// owns move into the serializer's list.
    fn put(self, s: &mut Serializer)
        requires
            Self::wf(self.rep()),
        ensures
            final(s).bytes() == old(s).bytes() + Self::enc(self.rep()),
            final(s).hids() == old(s).hids() + Self::hids(self.rep()),
    ;

    /// Read one value off a deserializer, consuming exactly its wire
    /// form, or report that the front of the stream is not one.
    fn take(d: &mut Deserializer) -> (r: Option<Self>)
        ensures
            match r {
                Some(v) => Self::dec(old(d).rb(), old(d).rh()) == Some(
                    (v.rep(), final(d).rb(), final(d).rh()),
                ) && Self::wf(v.rep()),
                None => Self::dec(old(d).rb(), old(d).rh()) is None,
            },
    ;

    /// Whether this is the unit type, whose absence from a reply stream
    /// is itself a complete answer.
    spec fn is_unit() -> bool;

    /// The unit value, for the type that has one.
    fn unit_value() -> (r: Option<Self>)
        ensures
            r is Some <==> Self::is_unit(),
            r matches Some(v) ==> Self::wf(v.rep()),
    ;
}

} // verus!
