//! The supported object types: how each lays out its content on the wire,
//! with the round-trip proof the object contract demands of each.

use crate::codec::{Deserializer, Serializer, Wire};
use crate::error::Error;
use crate::handle::Handle;
use vstd::bytes::*;
use vstd::prelude::*;
use vstd::string::StringSliceAdditionalSpecFns;

verus! {

impl Wire for u8 {
    type Rep = u8;

    open spec fn rep(&self) -> u8 {
        *self
    }

    open spec fn wf(w: u8) -> bool {
        true
    }

    open spec fn enc(w: u8) -> Seq<u8> {
        seq![w]
    }

    open spec fn hids(w: u8) -> Seq<int> {
        Seq::empty()
    }

    open spec fn dec(b: Seq<u8>, h: Seq<int>) -> Option<(u8, Seq<u8>, Seq<int>)> {
        if b.len() >= 1 {
            Some((b[0], b.skip(1), h))
        } else {
            None
        }
    }

    proof fn lemma_round_trip(w: u8, restb: Seq<u8>, resth: Seq<int>) {
        assert((Self::enc(w) + restb).skip(1) =~= restb);
        assert(Self::hids(w) + resth =~= resth);
    }

    fn put(self, s: &mut Serializer) {
        s.append_byte(self);
    }

    fn take(d: &mut Deserializer) -> (r: Option<Self>) {
        d.read_byte()
    }

    open spec fn is_unit() -> bool {
        false
    }

    fn unit_value() -> (r: Option<Self>) {
        None
    }
}

impl Wire for u32 {
    type Rep = u32;

    open spec fn rep(&self) -> u32 {
        *self
    }

    open spec fn wf(w: u32) -> bool {
        true
    }

    open spec fn enc(w: u32) -> Seq<u8> {
        spec_u32_to_le_bytes(w)
    }

    open spec fn hids(w: u32) -> Seq<int> {
        Seq::empty()
    }

    open spec fn dec(b: Seq<u8>, h: Seq<int>) -> Option<(u32, Seq<u8>, Seq<int>)> {
        if b.len() >= 4 {
            Some((spec_u32_from_le_bytes(b.take(4)), b.skip(4), h))
        } else {
            None
        }
    }

    proof fn lemma_round_trip(w: u32, restb: Seq<u8>, resth: Seq<int>) {
        lemma_auto_spec_u32_to_from_le_bytes();
        assert((Self::enc(w) + restb).take(4) =~= Self::enc(w));
        assert((Self::enc(w) + restb).skip(4) =~= restb);
        assert(Self::hids(w) + resth =~= resth);
    }

    fn put(self, s: &mut Serializer) {
        s.append_u32(self);
    }

    fn take(d: &mut Deserializer) -> (r: Option<Self>) {
        d.read_u32()
    }

    open spec fn is_unit() -> bool {
        false
    }

    fn unit_value() -> (r: Option<Self>) {
        None
    }
}

impl Wire for u64 {
    type Rep = u64;

    open spec fn rep(&self) -> u64 {
        *self
    }

    open spec fn wf(w: u64) -> bool {
        true
    }

    open spec fn enc(w: u64) -> Seq<u8> {
        spec_u64_to_le_bytes(w)
    }

    open spec fn hids(w: u64) -> Seq<int> {
        Seq::empty()
    }

    open spec fn dec(b: Seq<u8>, h: Seq<int>) -> Option<(u64, Seq<u8>, Seq<int>)> {
        if b.len() >= 8 {
            Some((spec_u64_from_le_bytes(b.take(8)), b.skip(8), h))
        } else {
            None
        }
    }

    proof fn lemma_round_trip(w: u64, restb: Seq<u8>, resth: Seq<int>) {
        lemma_auto_spec_u64_to_from_le_bytes();
        assert((Self::enc(w) + restb).take(8) =~= Self::enc(w));
        assert((Self::enc(w) + restb).skip(8) =~= restb);
        assert(Self::hids(w) + resth =~= resth);
    }

    fn put(self, s: &mut Serializer) {
        s.append_u64(self);
    }

    fn take(d: &mut Deserializer) -> (r: Option<Self>) {
        d.read_u64()
    }

    open spec fn is_unit() -> bool {
        false
    }

    fn unit_value() -> (r: Option<Self>) {
        None
    }
}

impl Wire for usize {
    type Rep = usize;

    open spec fn rep(&self) -> usize {
        *self
    }

    open spec fn wf(w: usize) -> bool {
        true
    }

    open spec fn enc(w: usize) -> Seq<u8> {
        spec_u64_to_le_bytes(w as u64)
    }

    open spec fn hids(w: usize) -> Seq<int> {
        Seq::empty()
    }

    open spec fn dec(b: Seq<u8>, h: Seq<int>) -> Option<(usize, Seq<u8>, Seq<int>)> {
        if b.len() >= 8 {
            let x = spec_u64_from_le_bytes(b.take(8));
            if x <= usize::MAX {
                Some((x as usize, b.skip(8), h))
            } else {
                None
            }
        } else {
            None
        }
    }

    proof fn lemma_round_trip(w: usize, restb: Seq<u8>, resth: Seq<int>) {
        lemma_auto_spec_u64_to_from_le_bytes();
        assert((Self::enc(w) + restb).take(8) =~= Self::enc(w));
        assert((Self::enc(w) + restb).skip(8) =~= restb);
        assert(Self::hids(w) + resth =~= resth);
    }

    fn put(self, s: &mut Serializer) {
        s.append_u64(self as u64);
    }

    fn take(d: &mut Deserializer) -> (r: Option<Self>) {
        match d.read_u64() {
            Some(x) => {
                if x <= (usize::MAX as u64) {
                    Some(x as usize)
                } else {
                    proof {
                        assert(Self::dec(old(d).rb(), old(d).rh()) is None);
                    }
                    None
                }
            },
            None => None,
        }
    }

    open spec fn is_unit() -> bool {
        false
    }

    fn unit_value() -> (r: Option<Self>) {
        None
    }
}

impl Wire for i32 {
    type Rep = i32;

    open spec fn rep(&self) -> i32 {
        *self
    }

    open spec fn wf(w: i32) -> bool {
        true
    }

    open spec fn enc(w: i32) -> Seq<u8> {
        spec_u32_to_le_bytes(w as u32)
    }

    open spec fn hids(w: i32) -> Seq<int> {
        Seq::empty()
    }

    open spec fn dec(b: Seq<u8>, h: Seq<int>) -> Option<(i32, Seq<u8>, Seq<int>)> {
        if b.len() >= 4 {
            Some((spec_u32_from_le_bytes(b.take(4)) as i32, b.skip(4), h))
        } else {
            None
        }
    }

    proof fn lemma_round_trip(w: i32, restb: Seq<u8>, resth: Seq<int>) {
        lemma_auto_spec_u32_to_from_le_bytes();
        assert((Self::enc(w) + restb).take(4) =~= Self::enc(w));
        assert((Self::enc(w) + restb).skip(4) =~= restb);
        assert(Self::hids(w) + resth =~= resth);
        assert((w as u32) as i32 == w) by (bit_vector);
    }

    fn put(self, s: &mut Serializer) {
        s.append_u32(self as u32);
    }

    fn take(d: &mut Deserializer) -> (r: Option<Self>) {
        match d.read_u32() {
            Some(x) => Some(x as i32),
            None => None,
        }
    }

    open spec fn is_unit() -> bool {
        false
    }

    fn unit_value() -> (r: Option<Self>) {
        None
    }
}

impl Wire for bool {
    type Rep = bool;

    open spec fn rep(&self) -> bool {
        *self
    }

    open spec fn wf(w: bool) -> bool {
        true
    }

    open spec fn enc(w: bool) -> Seq<u8> {
        if w {
            seq![1u8]
        } else {
            seq![0u8]
        }
    }

    open spec fn hids(w: bool) -> Seq<int> {
        Seq::empty()
    }

    open spec fn dec(b: Seq<u8>, h: Seq<int>) -> Option<(bool, Seq<u8>, Seq<int>)> {
        if b.len() >= 1 && (b[0] == 0u8 || b[0] == 1u8) {
            Some((b[0] == 1u8, b.skip(1), h))
        } else {
            None
        }
    }

    proof fn lemma_round_trip(w: bool, restb: Seq<u8>, resth: Seq<int>) {
        assert((Self::enc(w) + restb).skip(1) =~= restb);
        assert(Self::hids(w) + resth =~= resth);
    }

    fn put(self, s: &mut Serializer) {
        if self {
            s.append_byte(1u8);
        } else {
            s.append_byte(0u8);
        }
    }

    fn take(d: &mut Deserializer) -> (r: Option<Self>) {
        match d.read_byte() {
            Some(x) => {
                if x == 1u8 {
                    Some(true)
                } else if x == 0u8 {
                    Some(false)
                } else {
                    None
                }
            },
            None => None,
        }
    }

    open spec fn is_unit() -> bool {
        false
    }

    fn unit_value() -> (r: Option<Self>) {
        None
    }
}

impl Wire for () {
    type Rep = ();

    open spec fn rep(&self) -> () {
        ()
    }

    open spec fn wf(w: ()) -> bool {
        true
    }

    open spec fn enc(w: ()) -> Seq<u8> {
        Seq::empty()
    }

    open spec fn hids(w: ()) -> Seq<int> {
        Seq::empty()
    }

    open spec fn dec(b: Seq<u8>, h: Seq<int>) -> Option<((), Seq<u8>, Seq<int>)> {
        Some(((), b, h))
    }

    proof fn lemma_round_trip(w: (), restb: Seq<u8>, resth: Seq<int>) {
        assert(Self::enc(w) + restb =~= restb);
        assert(Self::hids(w) + resth =~= resth);
    }

    fn put(self, s: &mut Serializer) {
        proof {
            assert(old(s).bytes() + Self::enc(self.rep()) =~= old(s).bytes());
            assert(old(s).hids() + Self::hids(self.rep()) =~= old(s).hids());
        }
    }

    fn take(d: &mut Deserializer) -> (r: Option<Self>) {
        Some(())
    }

    open spec fn is_unit() -> bool {
        true
    }

    fn unit_value() -> (r: Option<Self>) {
        Some(())
    }
}

impl Wire for Handle {
    type Rep = int;

    open spec fn rep(&self) -> int {
        self.id()
    }

    open spec fn wf(w: int) -> bool {
        true
    }

    open spec fn enc(w: int) -> Seq<u8> {
        Seq::empty()
    }

    open spec fn hids(w: int) -> Seq<int> {
        seq![w]
    }

    open spec fn dec(b: Seq<u8>, h: Seq<int>) -> Option<(int, Seq<u8>, Seq<int>)> {
        if h.len() >= 1 {
            Some((h[0], b, h.skip(1)))
        } else {
            None
        }
    }

    proof fn lemma_round_trip(w: int, restb: Seq<u8>, resth: Seq<int>) {
        assert(Self::enc(w) + restb =~= restb);
        assert((Self::hids(w) + resth).skip(1) =~= resth);
    }

    fn put(self, s: &mut Serializer) {
        let ghost w = self.id();
        s.append_handle(self);
        proof {
            assert(old(s).bytes() + Self::enc(w) =~= old(s).bytes());
        }
    }

    fn take(d: &mut Deserializer) -> (r: Option<Self>) {
        d.take_handle()
    }

    open spec fn is_unit() -> bool {
        false
    }

    fn unit_value() -> (r: Option<Self>) {
        None
    }
}


/// `core::str::Utf8Error` reports where a byte slice stops being valid
/// UTF-8; this library only ever discards it.
#[verifier::external_type_specification]
#[verifier::external_body]
pub struct ExUtf8Error(core::str::Utf8Error);

/// Relies on `core::str::from_utf8`: it succeeds exactly on valid UTF-8
/// input, and the `&str` it returns views the same bytes.
pub assume_specification[ core::str::from_utf8 ](v: &[u8]) -> (r: Result<
    &str,
    core::str::Utf8Error,
>)
    ensures
        r is Ok <==> vstd::utf8::valid_utf8(v@),
        r matches Ok(s) ==> s.spec_bytes() == v@,
;

impl Wire for Vec<u8> {
    type Rep = Seq<u8>;

    open spec fn rep(&self) -> Seq<u8> {
        self@
    }

    open spec fn wf(w: Seq<u8>) -> bool {
        w.len() <= u64::MAX
    }

    open spec fn enc(w: Seq<u8>) -> Seq<u8> {
        spec_u64_to_le_bytes(w.len() as u64) + w
    }

    open spec fn hids(w: Seq<u8>) -> Seq<int> {
        Seq::empty()
    }

    open spec fn dec(b: Seq<u8>, h: Seq<int>) -> Option<(Seq<u8>, Seq<u8>, Seq<int>)> {
        if b.len() >= 8 {
            let n = spec_u64_from_le_bytes(b.take(8)) as int;
            if b.len() - 8 >= n {
                Some((b.subrange(8, 8 + n), b.skip(8 + n), h))
            } else {
                None
            }
        } else {
            None
        }
    }

    proof fn lemma_round_trip(w: Seq<u8>, restb: Seq<u8>, resth: Seq<int>) {
        lemma_auto_spec_u64_to_from_le_bytes();
        let raw = Self::enc(w) + restb;
        assert(raw.take(8) =~= spec_u64_to_le_bytes(w.len() as u64));
        assert(raw.subrange(8, 8 + w.len() as int) =~= w);
        assert(raw.skip(8 + w.len() as int) =~= restb);
        assert(Self::hids(w) + resth =~= resth);
    }

    fn put(self, s: &mut Serializer) {
        proof {
            lemma_auto_spec_u64_to_from_le_bytes();
        }
        s.append_u64(self.len() as u64);
        s.append_bytes(self.as_slice());
        proof {
            assert(final(s).bytes() =~= old(s).bytes() + Self::enc(self@));
        }
    }

    fn take(d: &mut Deserializer) -> (r: Option<Self>) {
        let n = match d.read_u64() {
            Some(n) => n,
            None => {
                return None;
            },
        };
        if n > (usize::MAX as u64) {
            proof {
                old(d).lemma_rb_bounded();
                assert(Self::dec(old(d).rb(), old(d).rh()) is None);
            }
            return None;
        }
        match d.read_bytes(n as usize) {
            Some(b) => {
                proof {
                    assert(old(d).rb().subrange(8, 8 + n as int) =~= old(d).rb().skip(8).take(
                        n as int,
                    ));
                    assert(old(d).rb().skip(8 + n as int) =~= old(d).rb().skip(8).skip(n as int));
                }
                Some(b)
            },
            None => None,
        }
    }

    open spec fn is_unit() -> bool {
        false
    }

    fn unit_value() -> (r: Option<Self>) {
        None
    }
}

impl Wire for String {
    type Rep = Seq<char>;

    open spec fn rep(&self) -> Seq<char> {
        self@
    }

    open spec fn wf(w: Seq<char>) -> bool {
        vstd::utf8::encode_utf8(w).len() <= u64::MAX
    }

    open spec fn enc(w: Seq<char>) -> Seq<u8> {
        spec_u64_to_le_bytes(vstd::utf8::encode_utf8(w).len() as u64) + vstd::utf8::encode_utf8(w)
    }

    open spec fn hids(w: Seq<char>) -> Seq<int> {
        Seq::empty()
    }

    open spec fn dec(b: Seq<u8>, h: Seq<int>) -> Option<(Seq<char>, Seq<u8>, Seq<int>)> {
        if b.len() >= 8 {
            let n = spec_u64_from_le_bytes(b.take(8)) as int;
            if b.len() - 8 >= n && vstd::utf8::valid_utf8(b.subrange(8, 8 + n)) {
                Some((vstd::utf8::decode_utf8(b.subrange(8, 8 + n)), b.skip(8 + n), h))
            } else {
                None
            }
        } else {
            None
        }
    }

    proof fn lemma_round_trip(w: Seq<char>, restb: Seq<u8>, resth: Seq<int>) {
        lemma_auto_spec_u64_to_from_le_bytes();
        vstd::utf8::encode_utf8_valid_utf8(w);
        vstd::utf8::encode_utf8_decode_utf8(w);
        let bytes = vstd::utf8::encode_utf8(w);
        let raw = Self::enc(w) + restb;
        assert(raw.take(8) =~= spec_u64_to_le_bytes(bytes.len() as u64));
        assert(raw.subrange(8, 8 + bytes.len() as int) =~= bytes);
        assert(raw.skip(8 + bytes.len() as int) =~= restb);
        assert(Self::hids(w) + resth =~= resth);
    }

    fn put(self, s: &mut Serializer) {
        proof {
            lemma_auto_spec_u64_to_from_le_bytes();
        }
        let b = self.as_str().as_bytes();
        s.append_u64(b.len() as u64);
        s.append_bytes(b);
        proof {
            assert(final(s).bytes() =~= old(s).bytes() + Self::enc(self@));
        }
    }

    fn take(d: &mut Deserializer) -> (r: Option<Self>) {
        let n = match d.read_u64() {
            Some(n) => n,
            None => {
                return None;
            },
        };
        if n > (usize::MAX as u64) {
            proof {
                old(d).lemma_rb_bounded();
                assert(Self::dec(old(d).rb(), old(d).rh()) is None);
            }
            return None;
        }
        let b = match d.read_bytes(n as usize) {
            Some(b) => b,
            None => {
                return None;
            },
        };
        let ghost chunk = old(d).rb().subrange(8, 8 + n as int);
        proof {
            assert(chunk =~= old(d).rb().skip(8).take(n as int));
            assert(old(d).rb().skip(8 + n as int) =~= old(d).rb().skip(8).skip(n as int));
        }
        match core::str::from_utf8(b.as_slice()) {
            Ok(st) => {
                let out = <String as vstd::string::StringExecFns>::from_str(st);
                proof {
                    vstd::utf8::encode_utf8_decode_utf8(st@);
                    assert(vstd::utf8::decode_utf8(chunk) == out@);
                }
                Some(out)
            },
            Err(_) => None,
        }
    }

    open spec fn is_unit() -> bool {
        false
    }

    fn unit_value() -> (r: Option<Self>) {
        None
    }
}


/// The byte image of a sequence of `i32` values, four bytes each.
pub open spec fn enc_i32s(w: Seq<i32>) -> Seq<u8>
    decreases w.len(),
{
    if w.len() == 0 {
        Seq::empty()
    } else {
        spec_u32_to_le_bytes(w[0] as u32) + enc_i32s(w.drop_first())
    }
}

/// Parse `n` consecutive `i32` values off the front of a byte stream.
pub open spec fn dec_i32s(b: Seq<u8>, n: nat) -> Option<(Seq<i32>, Seq<u8>)>
    decreases n,
{
    if n == 0 {
        Some((Seq::empty(), b))
    } else if b.len() >= 4 {
        let x = spec_u32_from_le_bytes(b.take(4)) as i32;
        match dec_i32s(b.skip(4), (n - 1) as nat) {
            Some((w, rest)) => Some((seq![x] + w, rest)),
            None => None,
        }
    } else {
        None
    }
}

/// Each element's four bytes come back as the element, by induction over
/// the sequence.
pub proof fn lemma_i32s_round_trip(w: Seq<i32>, rest: Seq<u8>)
    ensures
        dec_i32s(enc_i32s(w) + rest, w.len()) == Some((w, rest)),
        enc_i32s(w).len() == 4 * w.len(),
    decreases w.len(),
{
    lemma_auto_spec_u32_to_from_le_bytes();
    if w.len() == 0 {
        assert(enc_i32s(w) + rest =~= rest);
    } else {
        let head = spec_u32_to_le_bytes(w[0] as u32);
        let raw = enc_i32s(w) + rest;
        assert(raw.take(4) =~= head);
        assert(raw.skip(4) =~= enc_i32s(w.drop_first()) + rest);
        lemma_i32s_round_trip(w.drop_first(), rest);
        let x0 = w[0];
        assert((x0 as u32) as i32 == x0) by (bit_vector);
        assert(seq![w[0]] + w.drop_first() =~= w);
    }
}

impl Wire for Vec<i32> {
    type Rep = Seq<i32>;

    open spec fn rep(&self) -> Seq<i32> {
        self@
    }

    open spec fn wf(w: Seq<i32>) -> bool {
        w.len() <= u64::MAX
    }

    open spec fn enc(w: Seq<i32>) -> Seq<u8> {
        spec_u64_to_le_bytes(w.len() as u64) + enc_i32s(w)
    }

    open spec fn hids(w: Seq<i32>) -> Seq<int> {
        Seq::empty()
    }

    open spec fn dec(b: Seq<u8>, h: Seq<int>) -> Option<(Seq<i32>, Seq<u8>, Seq<int>)> {
        if b.len() >= 8 {
            let n = spec_u64_from_le_bytes(b.take(8));
            match dec_i32s(b.skip(8), n as nat) {
                Some((w, rest)) => Some((w, rest, h)),
                None => None,
            }
        } else {
            None
        }
    }

    proof fn lemma_round_trip(w: Seq<i32>, restb: Seq<u8>, resth: Seq<int>) {
        lemma_auto_spec_u64_to_from_le_bytes();
        let raw = Self::enc(w) + restb;
        assert(raw.take(8) =~= spec_u64_to_le_bytes(w.len() as u64));
        assert(raw.skip(8) =~= enc_i32s(w) + restb);
        lemma_i32s_round_trip(w, restb);
        assert(Self::hids(w) + resth =~= resth);
    }

    fn put(self, s: &mut Serializer) {
        proof {
            lemma_auto_spec_u64_to_from_le_bytes();
        }
        s.append_u64(self.len() as u64);
        let mut i: usize = 0;
        while i < self.len()
            invariant
                i <= self@.len(),
                s.bytes() == old(s).bytes() + spec_u64_to_le_bytes(self@.len() as u64) + enc_i32s(
                    self@.take(i as int),
                ),
                s.hids() == old(s).hids(),
            decreases self@.len() - i,
        {
            let ghost pre = self@.take(i as int);
            s.append_u32(self[i] as u32);
            i = i + 1;
            proof {
                assert(self@.take(i as int) =~= pre.push(self@[i - 1]));
                lemma_enc_i32s_snoc(self@.take(i as int), pre, self@[i - 1]);
                assert(s.bytes() =~= old(s).bytes() + spec_u64_to_le_bytes(self@.len() as u64)
                    + enc_i32s(self@.take(i as int)));
            }
        }
        proof {
            assert(self@.take(self@.len() as int) =~= self@);
            assert(s.bytes() =~= old(s).bytes() + Self::enc(self@));
        }
    }

    fn take(d: &mut Deserializer) -> (r: Option<Self>) {
        let n = match d.read_u64() {
            Some(n) => n,
            None => {
                return None;
            },
        };
        let mut out: Vec<i32> = Vec::new();
        let mut i: u64 = 0;
        while i < n
            invariant
                i <= n,
                out@.len() == i,
                dec_i32s(old(d).rb().skip(8), n as nat) == match dec_i32s(
                    d.rb(),
                    (n - i) as nat,
                ) {
                    Some((w, rest)) => Some::<(Seq<i32>, Seq<u8>)>((out@ + w, rest)),
                    None => None::<(Seq<i32>, Seq<u8>)>,
                },
                d.rh() == old(d).rh(),
                spec_u64_from_le_bytes(old(d).rb().take(8)) == n,
                old(d).rb().len() >= 8,
            decreases n - i,
        {
            let ghost mid = *d;
            let x = match d.read_u32() {
                Some(x) => x,
                None => {
                    proof {
                        assert(dec_i32s(mid.rb(), (n - i) as nat) is None);
                    }
                    return None;
                },
            };
            out.push(x as i32);
            i = i + 1;
            proof {
                assert(mid.rb().take(4) =~= mid.rb().take(4));
                assert(out@ =~= out@.subrange(0, out@.len() - 1).push(x as i32));
                lemma_dec_i32s_step(mid.rb(), (n - i + 1) as nat, d.rb());
                assert(out@.subrange(0, out@.len() - 1) + seq![x as i32] =~= out@);
                assert(forall|w: Seq<i32>|
                    (out@.subrange(0, out@.len() - 1) + (seq![x as i32] + w)) =~= (out@ + w));
            }
        }
        proof {
            assert(dec_i32s(d.rb(), 0) == Some::<(Seq<i32>, Seq<u8>)>((Seq::empty(), d.rb())));
            assert(out@ + Seq::<i32>::empty() =~= out@);
        }
        Some(out)
    }

    open spec fn is_unit() -> bool {
        false
    }

    fn unit_value() -> (r: Option<Self>) {
        None
    }
}

/// Appending one element appends its four bytes.
pub proof fn lemma_enc_i32s_snoc(w: Seq<i32>, pre: Seq<i32>, x: i32)
    requires
        w == pre.push(x),
    ensures
        enc_i32s(w) == enc_i32s(pre) + spec_u32_to_le_bytes(x as u32),
    decreases pre.len(),
{
    if pre.len() == 0 {
        assert(w.len() == 1);
        assert(w[0] == x);
        assert(w.drop_first() =~= Seq::empty());
        assert(enc_i32s(Seq::<i32>::empty()) =~= Seq::<u8>::empty());
        assert(enc_i32s(w) =~= spec_u32_to_le_bytes(w[0] as u32) + enc_i32s(w.drop_first()));
        assert(enc_i32s(w) =~= spec_u32_to_le_bytes(x as u32));
        assert(enc_i32s(pre) + spec_u32_to_le_bytes(x as u32) =~= spec_u32_to_le_bytes(x as u32));
    } else {
        assert(w.len() == pre.len() + 1);
        assert(w[0] == pre[0]);
        assert(w.drop_first() =~= pre.drop_first().push(x));
        lemma_enc_i32s_snoc(w.drop_first(), pre.drop_first(), x);
        assert(enc_i32s(w) =~= enc_i32s(pre) + spec_u32_to_le_bytes(x as u32));
    }
}

/// Unfolding one step of the element parser.
pub proof fn lemma_dec_i32s_step(b: Seq<u8>, n: nat, rest: Seq<u8>)
    requires
        n >= 1,
        b.len() >= 4,
        rest == b.skip(4),
    ensures
        dec_i32s(b, n) == match dec_i32s(rest, (n - 1) as nat) {
            Some((w, r2)) => Some::<(Seq<i32>, Seq<u8>)>(
                (seq![spec_u32_from_le_bytes(b.take(4)) as i32] + w, r2),
            ),
            None => None::<(Seq<i32>, Seq<u8>)>,
        },
{
}


impl<A: Wire, B: Wire> Wire for (A, B) {
    type Rep = (A::Rep, B::Rep);

    open spec fn rep(&self) -> (A::Rep, B::Rep) {
        (self.0.rep(), self.1.rep())
    }

    open spec fn wf(w: (A::Rep, B::Rep)) -> bool {
        A::wf(w.0) && B::wf(w.1)
    }

    open spec fn enc(w: (A::Rep, B::Rep)) -> Seq<u8> {
        A::enc(w.0) + B::enc(w.1)
    }

    open spec fn hids(w: (A::Rep, B::Rep)) -> Seq<int> {
        A::hids(w.0) + B::hids(w.1)
    }

    open spec fn dec(b: Seq<u8>, h: Seq<int>) -> Option<((A::Rep, B::Rep), Seq<u8>, Seq<int>)> {
        match A::dec(b, h) {
            Some((wa, b1, h1)) => match B::dec(b1, h1) {
                Some((wb, b2, h2)) => Some(((wa, wb), b2, h2)),
                None => None,
            },
            None => None,
        }
    }

    proof fn lemma_round_trip(w: (A::Rep, B::Rep), restb: Seq<u8>, resth: Seq<int>) {
        assert(Self::enc(w) + restb =~= A::enc(w.0) + (B::enc(w.1) + restb));
        assert(Self::hids(w) + resth =~= A::hids(w.0) + (B::hids(w.1) + resth));
        A::lemma_round_trip(w.0, B::enc(w.1) + restb, B::hids(w.1) + resth);
        B::lemma_round_trip(w.1, restb, resth);
    }

    fn put(self, s: &mut Serializer) {
        let (a, b) = self;
        let ghost wa = a.rep();
        let ghost wb = b.rep();
        a.put(s);
        b.put(s);
        proof {
            assert(s.bytes() =~= old(s).bytes() + (A::enc(wa) + B::enc(wb)));
            assert(s.hids() =~= old(s).hids() + (A::hids(wa) + B::hids(wb)));
        }
    }

    fn take(d: &mut Deserializer) -> (r: Option<Self>) {
        let a = match A::take(d) {
            Some(a) => a,
            None => {
                return None;
            },
        };
        let b = match B::take(d) {
            Some(b) => b,
            None => {
                return None;
            },
        };
        Some((a, b))
    }

    open spec fn is_unit() -> bool {
        false
    }

    fn unit_value() -> (r: Option<Self>) {
        None
    }
}

/// Parse a whole message: a decoding that consumes every byte and every
/// handle, or nothing.
pub open spec fn spec_complete_dec<T: Wire>(b: Seq<u8>, h: Seq<int>) -> Option<T::Rep> {
    match T::dec(b, h) {
        Some((w, rb, rh)) => if rb.len() == 0 && rh.len() == 0 {
            Some(w)
        } else {
            None
        },
        None => None,
    }
}

/// Serialize one value into a payload and its handle list, the form in
/// which a frame carries it.
pub fn encode_message<T: Wire>(v: T) -> (r: (Vec<u8>, Vec<Handle>))
    requires
        T::wf(v.rep()),
    ensures
        r.0@ == T::enc(v.rep()),
        crate::codec::hid_seq(r.1@) == T::hids(v.rep()),
{
    let ghost w = v.rep();
    let mut s = Serializer::new();
    s.serialize(v);
    let hs = s.drain_handles();
    let b = s.into_vec();
    proof {
        assert(b@ =~= T::enc(w));
        assert(crate::codec::hid_seq(hs@) =~= T::hids(w));
    }
    (b, hs)
}

/// Reconstruct one value from a payload and its handle list. Succeeds
/// exactly when the bytes parse as one value of the type and the frame
/// carries neither a byte nor a handle beyond it; anything else is a
/// serialization failure.
pub fn decode_message<T: Wire>(payload: Vec<u8>, handles: Vec<Handle>) -> (r: Result<T, Error>)
    ensures
        match r {
            Ok(v) => spec_complete_dec::<T>(payload@, crate::codec::hid_seq(handles@)) == Some(
                v.rep(),
            ) && T::wf(v.rep()),
            Err(e) => e == Error::Corrupt && spec_complete_dec::<T>(
                payload@,
                crate::codec::hid_seq(handles@),
            ) is None,
        },
{
    let mut d = Deserializer::new(payload, handles);
    match d.deserialize::<T>() {
        Ok(v) => {
            if d.is_done() {
                Ok(v)
            } else {
                Err(Error::Corrupt)
            }
        },
        Err(e) => Err(e),
    }
}

/// The round trip of every supported object type: a message encoded from
/// a well-formed content decodes back to exactly that content, whatever
/// the type.
pub proof fn lemma_message_round_trip<T: Wire>(w: T::Rep)
    requires
        T::wf(w),
    ensures
        spec_complete_dec::<T>(T::enc(w), T::hids(w)) == Some(w),
{
    T::lemma_round_trip(w, Seq::empty(), Seq::empty());
    assert(T::enc(w) + Seq::<u8>::empty() =~= T::enc(w));
    assert(T::hids(w) + Seq::<int>::empty() =~= T::hids(w));
}


/// What the wire as a whole carries: once every byte of the frame built
/// from a well-formed content has arrived, the reader sees exactly the
/// encoded payload with whatever follows untouched, and that payload,
/// with the content's handles, decodes back to the content. Until then
/// it sees nothing of either.
pub proof fn lemma_frame_carries_message<T: Wire>(w: T::Rep, rest: Seq<u8>)
    requires
        T::wf(w),
        T::enc(w).len() <= u64::MAX,
    ensures
        crate::frame::spec_parse_frame(crate::frame::spec_frame(T::enc(w)) + rest)
            == (crate::frame::FrameStep::Ready { payload: T::enc(w), rest }),
        spec_complete_dec::<T>(T::enc(w), T::hids(w)) == Some(w),
{
    crate::frame::lemma_frame_complete(T::enc(w), rest);
    lemma_message_round_trip::<T>(w);
}

} // verus!
