//! The spawn protocol: the argv convention by which a freshly re-executed
//! child recognises itself and finds its inherited endpoint, the decimal
//! codec that carries a descriptor number through argv, the entry payload
//! the handshake ships, and the sanity gate a spawn must pass.
//!
//! A spawned child is re-executed with the magic token as its first
//! argument and the decimal value of its inherited duplex descriptor as
//! the second. The fork/exec itself cannot stand here; the embedding
//! program performs it with exactly the strings these functions compute
//! and parse.

use crate::codec::{Deserializer, Serializer, Wire};
use vstd::prelude::*;
use vstd::string::StrSliceExecFns;

verus! {

/// Relies on `String::push`: it appends the given character to the end
/// of the string.
pub assume_specification[ String::push ](s: &mut String, ch: char)
    ensures
        final(s)@ == old(s)@.push(ch),
;

/// The magic first argument of a spawned child.
pub const SPAWN_TOKEN: &'static str = "_crossmist_";

/// The legacy spelling of the magic token, still accepted.
pub const SPAWN_TOKEN_LEGACY: &'static str = "_multiprocessing_";

/// Whether a first argument routes the process as a spawned child.
pub open spec fn spec_is_token(s: Seq<char>) -> bool {
    s == "_crossmist_"@ || s == "_multiprocessing_"@
}

/// The decimal digit character of `d`.
pub open spec fn spec_digit_char(d: int) -> char
    recommends
        0 <= d <= 9,
{
    ((48 + d) as u8) as char
}

/// The decimal numeral of `n`, most significant digit first, without
/// sign or padding.
pub open spec fn spec_dec_chars(n: u64) -> Seq<char>
    decreases n,
{
    if n < 10 {
        seq![spec_digit_char(n as int)]
    } else {
        spec_dec_chars(n / 10).push(spec_digit_char((n % 10) as int))
    }
}

/// Whether every character of `s` is a decimal digit.
pub open spec fn spec_all_digits(s: Seq<char>) -> bool {
    forall|i: int| 0 <= i < s.len() ==> 48 <= #[trigger] (s[i] as u32) <= 57
}

/// The value of a digit string, most significant digit first.
pub open spec fn spec_dec_value(s: Seq<char>) -> int
    decreases s.len(),
{
    if s.len() == 0 {
        0
    } else {
        spec_dec_value(s.drop_last()) * 10 + (s.last() as u32 - 48)
    }
}

/// What a decimal argument parses to: its value, if it is a non-empty
/// all-digit string whose value fits the descriptor word.
pub open spec fn spec_parse_dec(s: Seq<char>) -> Option<u64> {
    if s.len() >= 1 && spec_all_digits(s) && spec_dec_value(s) <= u64::MAX {
        Some(spec_dec_value(s) as u64)
    } else {
        None
    }
}

/// A digit string's value never goes down when it grows to the right.
proof fn lemma_dec_value_monotone(s: Seq<char>, i: int)
    requires
        0 <= i <= s.len(),
        spec_all_digits(s),
    ensures
        spec_dec_value(s.take(i)) <= spec_dec_value(s),
        spec_dec_value(s) >= 0,
    decreases s.len() - i,
{
    lemma_dec_value_nonneg(s);
    if i < s.len() {
        assert(spec_all_digits(s.take(i)));
        lemma_dec_value_nonneg(s.take(i));
        lemma_dec_value_monotone(s, i + 1);
        assert(s.take(i + 1).drop_last() =~= s.take(i));
        assert(spec_dec_value(s.take(i + 1)) == spec_dec_value(s.take(i)) * 10 + (s.take(
            i + 1,
        ).last() as u32 - 48));
        assert(spec_dec_value(s.take(i)) * 10 >= spec_dec_value(s.take(i))) by (nonlinear_arith)
            requires
                spec_dec_value(s.take(i)) >= 0,
        ;
    } else {
        assert(s.take(i) =~= s);
    }
}

/// A digit string's value is never negative.
proof fn lemma_dec_value_nonneg(s: Seq<char>)
    requires
        spec_all_digits(s),
    ensures
        spec_dec_value(s) >= 0,
    decreases s.len(),
{
    if s.len() > 0 {
        assert(spec_all_digits(s.drop_last()));
        lemma_dec_value_nonneg(s.drop_last());
        assert(spec_dec_value(s.drop_last()) * 10 >= 0) by (nonlinear_arith)
            requires
                spec_dec_value(s.drop_last()) >= 0,
        ;
    }
}

/// Render `n` in decimal, as the argv convention carries a descriptor
/// number.
pub fn format_u64_dec(n: u64) -> (s: String)
    ensures
        s@ == spec_dec_chars(n),
    decreases n,
{
    let d: u8 = (n % 10) as u8 + 48;
    let ghost dv = (n % 10) as int;
    if n < 10 {
        let mut out = String::new();
        out.push(d as char);
        proof {
            assert(out@ =~= seq![spec_digit_char(n as int)]);
        }
        out
    } else {
        let mut out = format_u64_dec(n / 10);
        out.push(d as char);
        proof {
            assert(out@ =~= spec_dec_chars(n / 10).push(spec_digit_char(dv)));
        }
        out
    }
}

/// Parse a decimal argument: exactly the strings [`format_u64_dec`]
/// produces, leading zeros tolerated, values past the descriptor word
/// refused.
pub fn parse_u64_dec(s: &str) -> (r: Option<u64>)
    ensures
        r == spec_parse_dec(s@),
{
    let len = s.unicode_len();
    if len == 0 {
        return None;
    }
    let mut acc: u64 = 0;
    let mut i: usize = 0;
    while i < len
        invariant
            0 < len == s@.len(),
            i <= len,
            spec_all_digits(s@.take(i as int)),
            acc == spec_dec_value(s@.take(i as int)),
        decreases len - i,
    {
        let c = s.get_char(i);
        let cv = c as u32;
        if cv < 48 || cv > 57 {
            proof {
                assert(s@[i as int] == c);
                assert(!spec_all_digits(s@));
            }
            return None;
        }
        let d = (cv - 48) as u64;
        if acc > (u64::MAX - d) / 10 {
            proof {
                assert(s@.take(i as int + 1).drop_last() =~= s@.take(i as int));
                assert(spec_dec_value(s@.take(i as int + 1)) == acc * 10 + d);
                assert(acc * 10 + d > u64::MAX) by (nonlinear_arith)
                    requires
                        acc > (u64::MAX - d) / 10,
                        0 <= d <= 9,
                        acc <= u64::MAX,
                ;
                if spec_all_digits(s@) {
                    lemma_dec_value_monotone(s@, i as int + 1);
                }
            }
            return None;
        }
        let ghost pre = s@.take(i as int);
        acc = acc * 10 + d;
        i = i + 1;
        proof {
            assert(s@.take(i as int).drop_last() =~= pre);
            assert(s@.take(i as int).last() == c);
            assert(spec_all_digits(s@.take(i as int)));
        }
    }
    proof {
        assert(s@.take(len as int) =~= s@);
    }
    Some(acc)
}

/// Formatting then parsing a descriptor number gives it back: the argv
/// convention is lossless for every value a descriptor word can hold.
pub proof fn lemma_dec_round_trip(n: u64)
    ensures
        spec_parse_dec(spec_dec_chars(n)) == Some(n),
    decreases n,
{
    if n < 10 {
        assert(spec_dec_chars(n) =~= seq![spec_digit_char(n as int)]);
        assert(spec_dec_value(seq![spec_digit_char(n as int)].drop_last()) == 0);
        assert(spec_dec_value(spec_dec_chars(n)) == n);
    } else {
        lemma_dec_round_trip(n / 10);
        let s = spec_dec_chars(n);
        let p = spec_dec_chars(n / 10);
        assert(spec_all_digits(p) && spec_dec_value(p) <= u64::MAX && p.len() >= 1);
        lemma_dec_value_nonneg(p);
        assert(spec_dec_value(p) as u64 == n / 10);
        assert(spec_dec_value(p) == n / 10);
        assert(s.drop_last() =~= p);
        assert(s.last() == spec_digit_char((n % 10) as int));
        assert(spec_dec_value(s) == spec_dec_value(p) * 10 + n % 10);
        assert(spec_dec_value(p) * 10 + n % 10 == n) by (nonlinear_arith)
            requires
                spec_dec_value(p) == n / 10,
                n >= 10,
        ;
        assert(spec_all_digits(s));
    }
}

/// Route a process start: if the first argument is the magic token, the
/// second names the inherited duplex descriptor, and this process must
/// run as a spawned child on that descriptor; any other argv belongs to
/// an ordinary start.
pub fn parse_spawn_argv(arg0: &String, arg1: &String) -> (r: Option<u64>)
    ensures
        r == if spec_is_token(arg0@) {
            spec_parse_dec(arg1@)
        } else {
            None::<u64>
        },
{
    let tok = SPAWN_TOKEN.to_owned();
    let legacy = SPAWN_TOKEN_LEGACY.to_owned();
    if arg0.eq(&tok) || arg0.eq(&legacy) {
        parse_u64_dec(arg1.as_str())
    } else {
        None
    }
}

/// Whether a spawn may proceed: the process has run the one-time entry
/// initialization, and is not itself a spawned child serving a parent.
pub fn spawn_allowed(initialized: bool, running_as_child: bool) -> (r: bool)
    ensures
        r == (initialized && !running_as_child),
{
    initialized && !running_as_child
}

/// The entry closure as the handshake ships it: the spawned function's
/// code address, relocated to a wire offset against the image anchor,
/// and the bytes of its captured arguments.
pub struct EntryPayload {
    /// The wire offset of the entry function, from `encode_code_addr`.
    pub func_offset: usize,
    /// The serialized captured arguments the entry function consumes.
    pub captured: Vec<u8>,
}

impl Wire for EntryPayload {
    type Rep = (usize, Seq<u8>);

    open spec fn rep(&self) -> (usize, Seq<u8>) {
        (self.func_offset, self.captured@)
    }

    open spec fn wf(w: (usize, Seq<u8>)) -> bool {
        w.1.len() <= u64::MAX
    }

    open spec fn enc(w: (usize, Seq<u8>)) -> Seq<u8> {
        <usize as Wire>::enc(w.0) + <Vec<u8> as Wire>::enc(w.1)
    }

    open spec fn hids(w: (usize, Seq<u8>)) -> Seq<int> {
        Seq::empty()
    }

    open spec fn dec(b: Seq<u8>, h: Seq<int>) -> Option<((usize, Seq<u8>), Seq<u8>, Seq<int>)> {
        match <usize as Wire>::dec(b, h) {
            Some((off, b1, h1)) => match <Vec<u8> as Wire>::dec(b1, h1) {
                Some((cap, b2, h2)) => Some(((off, cap), b2, h2)),
                None => None,
            },
            None => None,
        }
    }

    proof fn lemma_round_trip(w: (usize, Seq<u8>), restb: Seq<u8>, resth: Seq<int>) {
        assert(Self::enc(w) + restb =~= <usize as Wire>::enc(w.0) + (<Vec<u8> as Wire>::enc(w.1)
            + restb));
        <usize as Wire>::lemma_round_trip(w.0, <Vec<u8> as Wire>::enc(w.1) + restb, resth);
        <Vec<u8> as Wire>::lemma_round_trip(w.1, restb, resth);
        assert(Self::hids(w) + resth =~= resth);
    }

    fn put(self, s: &mut Serializer)
    {
        let EntryPayload { func_offset, captured } = self;
        let ghost cap = captured@;
        func_offset.put(s);
        captured.put(s);
        proof {
            assert(s.bytes() =~= old(s).bytes() + (<usize as Wire>::enc(func_offset) + <Vec<
                u8,
            > as Wire>::enc(cap)));
            assert(s.hids() =~= old(s).hids());
            assert(old(s).hids() + Self::hids((func_offset, cap)) =~= old(s).hids());
        }
    }

    fn take(d: &mut Deserializer) -> (r: Option<Self>) {
        let off = match <usize as Wire>::take(d) {
            Some(x) => x,
            None => {
                return None;
            },
        };
        let cap = match <Vec<u8> as Wire>::take(d) {
            Some(x) => x,
            None => {
                return None;
            },
        };
        Some(EntryPayload { func_offset: off, captured: cap })
    }

    open spec fn is_unit() -> bool {
        false
    }

    fn unit_value() -> (r: Option<Self>) {
        None
    }
}

} // verus!
