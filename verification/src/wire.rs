//! The wire format of messages: integers as postcard writes them, and how values are
//! put together from them.

use vstd::prelude::*;
use vstd::slice::slice_subrange;
use vstd::string::StringExecFns;

use crate::bytes::{copy_range, push_all};

verus! {

broadcast use vstd::slice::group_slice_axioms;

/// Why bytes do not decode, in postcard's words. A number that stands for no variant is an
/// error that serde reports to it.
#[derive(Debug, Clone, Copy, PartialEq, Eq, Structural)]
pub enum WireFault {
    UnexpectedEnd,
    BadVarint,
    BadBool,
    BadOption,
    BadVariant,
}

impl WireFault {
    pub open spec fn text(self) -> Seq<char> {
        match self {
            WireFault::UnexpectedEnd => "Hit the end of buffer, expected more data"@,
            WireFault::BadVarint => "Found a varint that didn't terminate. Is the usize too big for this platform?"@,
            WireFault::BadBool => "Found a bool that wasn't 0 or 1"@,
            WireFault::BadOption => "Found an Option discriminant that wasn't 0 or 1"@,
            WireFault::BadVariant => "Serde Deserialization Error"@,
        }
    }

    pub fn message(&self) -> (r: &'static str)
        ensures
            r@ == self.text(),
    {
        match self {
            WireFault::UnexpectedEnd => "Hit the end of buffer, expected more data",
            WireFault::BadVarint => "Found a varint that didn't terminate. Is the usize too big for this platform?",
            WireFault::BadBool => "Found a bool that wasn't 0 or 1",
            WireFault::BadOption => "Found an Option discriminant that wasn't 0 or 1",
            WireFault::BadVariant => "Serde Deserialization Error",
        }
    }
}

#[derive(Debug, Clone, Copy, PartialEq, Eq, Structural)]
pub enum ProtocolError {
    Encode(WireFault),
    Decode(WireFault),
}

impl ProtocolError {
    pub open spec fn text(self) -> Seq<char> {
        match self {
            ProtocolError::Encode(f) => "postcard encode: "@ + f.text(),
            ProtocolError::Decode(f) => "postcard decode: "@ + f.text(),
        }
    }

    pub fn message(&self) -> (r: String)
        ensures
            r@ == self.text(),
    {
        match self {
            ProtocolError::Encode(f) => "postcard encode: ".to_owned().concat(f.message()),
            ProtocolError::Decode(f) => "postcard decode: ".to_owned().concat(f.message()),
        }
    }
}

/// A number in groups of seven bits, least significant first; every byte but the last
/// has its high bit set.
pub open spec fn varint(v: nat) -> Seq<u8>
    decreases v,
{
    if v < 128 {
        seq![v as u8]
    } else {
        seq![(v % 128 + 128) as u8] + varint(v / 128)
    }
}

/// The number that `s` starts with and how many bytes it takes. At most `width` bytes
/// are read, and a byte at the last of these places may not exceed `last`. Leading
/// zero groups are accepted.
pub open spec fn unvarint(s: Seq<u8>, width: nat, last: u8) -> Option<(nat, nat)>
    decreases width,
{
    if width == 0 || s.len() == 0 {
        None
    } else if s[0] < 128 {
        if width == 1 && s[0] > last {
            None
        } else {
            Some((s[0] as nat, 1))
        }
    } else {
        match unvarint(s.skip(1), (width - 1) as nat, last) {
            None => None,
            Some((v, n)) => Some(((s[0] - 128 + 128 * v) as nat, n + 1)),
        }
    }
}

/// The number that a signed one is written as: small absolute values stay small.
pub open spec fn zigzag(v: i16) -> u16 {
    if v >= 0 {
        (2 * v) as u16
    } else {
        (-2 * v - 1) as u16
    }
}

/// The signed number that is written as `u`.
pub open spec fn unzigzag(u: u16) -> i16 {
    if u % 2 == 0 {
        (u / 2) as i16
    } else {
        (-((u + 1) / 2)) as i16
    }
}

/// Why no number of at most `width` bytes can be read off the front of `s`, where that is
/// so: the input ends while more groups are announced, or the groups go on too long.
pub open spec fn varint_fault(s: Seq<u8>, width: nat) -> WireFault {
    if s.len() < width && forall|i: int| 0 <= i < s.len() ==> #[trigger] s[i] >= 128 {
        WireFault::UnexpectedEnd
    } else {
        WireFault::BadVarint
    }
}

/// How many numbers `width` seven-bit groups hold when the last may not exceed `last`.
pub open spec fn varint_range(width: nat, last: u8) -> nat
    decreases width,
{
    if width <= 1 {
        (last + 1) as nat
    } else {
        128 * varint_range((width - 1) as nat, last)
    }
}

/// `postcard::to_allocvec` on a byte: the byte. Writing to a growing vector does not
/// fail.
#[verifier::external_body]
fn byte_to_vec(v: u8) -> (r: Vec<u8>)
    ensures
        r@ == seq![v],
{
    postcard::to_allocvec(&v).expect("a byte encodes")
}

/// `postcard::to_allocvec` on a truth value: one byte, zero or one.
#[verifier::external_body]
fn bool_to_vec(v: bool) -> (r: Vec<u8>)
    ensures
        r@ == seq![if v { 1u8 } else { 0u8 }],
{
    postcard::to_allocvec(&v).expect("a truth value encodes")
}

/// `postcard::to_allocvec` on an unsigned number: its seven-bit groups. The bytes do
/// not depend on the number's declared width.
#[verifier::external_body]
fn number_to_vec(v: u64) -> (r: Vec<u8>)
    ensures
        r@ == varint(v as nat),
{
    postcard::to_allocvec(&v).expect("a number encodes")
}

/// `postcard::to_allocvec` on a signed sixteen-bit number: the groups of its zigzag
/// form.
#[verifier::external_body]
fn signed_to_vec(v: i16) -> (r: Vec<u8>)
    ensures
        r@ == varint(zigzag(v) as nat),
{
    postcard::to_allocvec(&v).expect("a number encodes")
}

/// `postcard::take_from_bytes` on a byte: the first one, if there is one. An empty input is
/// the only error.
#[verifier::external_body]
fn byte_from(s: &[u8]) -> (r: Result<(u8, &[u8]), WireFault>)
    ensures
        match r {
            Ok((v, rest)) => s@.len() > 0 && v == s@[0] && rest@ == s@.skip(1),
            Err(f) => s@.len() == 0 && f == WireFault::UnexpectedEnd,
        },
{
    match postcard::take_from_bytes::<u8>(s) {
        Ok(x) => Ok(x),
        Err(_) => Err(WireFault::UnexpectedEnd),
    }
}

/// `postcard::take_from_bytes` on a truth value: a first byte of zero or one. The errors are
/// an empty input and any other byte.
#[verifier::external_body]
fn bool_from(s: &[u8]) -> (r: Result<(bool, &[u8]), WireFault>)
    ensures
        match r {
            Ok((v, rest)) => s@.len() > 0 && s@[0] == (if v { 1u8 } else { 0u8 }) && rest@
                == s@.skip(1),
            Err(f) => if s@.len() == 0 {
                f == WireFault::UnexpectedEnd
            } else {
                s@[0] > 1 && f == WireFault::BadBool
            },
        },
{
    match postcard::take_from_bytes::<bool>(s) {
        Ok(x) => Ok(x),
        Err(postcard::Error::DeserializeUnexpectedEnd) => Err(WireFault::UnexpectedEnd),
        Err(_) => Err(WireFault::BadBool),
    }
}

/// `postcard::take_from_bytes` on a sixteen-bit number: up to three groups. The errors are
/// an input that ends too early and groups that go on too long.
#[verifier::external_body]
fn u16_from(s: &[u8]) -> (r: Result<(u16, &[u8]), WireFault>)
    ensures
        match r {
            Ok((v, rest)) => unvarint(s@, 3, 3) matches Some((w, n)) && w == v && rest@ == s@.skip(
                n as int,
            ),
            Err(f) => unvarint(s@, 3, 3) is None && f == varint_fault(s@, 3),
        },
{
    match postcard::take_from_bytes::<u16>(s) {
        Ok(x) => Ok(x),
        Err(postcard::Error::DeserializeUnexpectedEnd) => Err(WireFault::UnexpectedEnd),
        Err(_) => Err(WireFault::BadVarint),
    }
}

/// `postcard::take_from_bytes` on a thirty-two-bit number: up to five groups. The errors are
/// those of the shorter one.
#[verifier::external_body]
fn u32_from(s: &[u8]) -> (r: Result<(u32, &[u8]), WireFault>)
    ensures
        match r {
            Ok((v, rest)) => unvarint(s@, 5, 15) matches Some((w, n)) && w == v && rest@ == s@.skip(
                n as int,
            ),
            Err(f) => unvarint(s@, 5, 15) is None && f == varint_fault(s@, 5),
        },
{
    match postcard::take_from_bytes::<u32>(s) {
        Ok(x) => Ok(x),
        Err(postcard::Error::DeserializeUnexpectedEnd) => Err(WireFault::UnexpectedEnd),
        Err(_) => Err(WireFault::BadVarint),
    }
}

/// `postcard::take_from_bytes` on a sixty-four-bit number: up to ten groups. The errors are
/// those of the shorter one.
#[verifier::external_body]
fn u64_from(s: &[u8]) -> (r: Result<(u64, &[u8]), WireFault>)
    ensures
        match r {
            Ok((v, rest)) => unvarint(s@, 10, 1) matches Some((w, n)) && w == v && rest@ == s@.skip(
                n as int,
            ),
            Err(f) => unvarint(s@, 10, 1) is None && f == varint_fault(s@, 10),
        },
{
    match postcard::take_from_bytes::<u64>(s) {
        Ok(x) => Ok(x),
        Err(postcard::Error::DeserializeUnexpectedEnd) => Err(WireFault::UnexpectedEnd),
        Err(_) => Err(WireFault::BadVarint),
    }
}

/// `postcard::take_from_bytes` on a signed sixteen-bit number: up to three groups, then
/// back from zigzag. The errors are those of the unsigned one.
#[verifier::external_body]
fn i16_from(s: &[u8]) -> (r: Result<(i16, &[u8]), WireFault>)
    ensures
        match r {
            Ok((v, rest)) => unvarint(s@, 3, 3) matches Some((w, n)) && unzigzag(w as u16) == v
                && rest@ == s@.skip(n as int),
            Err(f) => unvarint(s@, 3, 3) is None && f == varint_fault(s@, 3),
        },
{
    match postcard::take_from_bytes::<i16>(s) {
        Ok(x) => Ok(x),
        Err(postcard::Error::DeserializeUnexpectedEnd) => Err(WireFault::UnexpectedEnd),
        Err(_) => Err(WireFault::BadVarint),
    }
}

/// A number fits its groups and reads back from them, whatever follows.
pub proof fn varint_reads_back(v: nat, width: nat, last: u8, rest: Seq<u8>)
    requires
        v < varint_range(width, last),
        width >= 1,
        last < 128,
    ensures
        unvarint(varint(v) + rest, width, last) == Some((v, varint(v).len())),
        varint(v).len() <= width,
    decreases width,
{
    let s = varint(v) + rest;
    if v < 128 {
        assert(s[0] == v);
    } else {
        assert(varint_range(1, last) <= 128);
        assert(width > 1);
        assert(v / 128 < varint_range((width - 1) as nat, last));
        varint_reads_back(v / 128, (width - 1) as nat, last, rest);
        assert(s.skip(1) =~= varint(v / 128) + rest);
        assert(s[0] == (v % 128 + 128) as u8);
    }
}

/// What is read never goes past the end of the input, and fits its width.
pub proof fn unvarint_bounded(s: Seq<u8>, width: nat, last: u8)
    requires
        width >= 1,
        last < 128,
    ensures
        unvarint(s, width, last) matches Some((v, n)) ==> 1 <= n <= s.len() && n <= width && v
            < varint_range(width, last),
    decreases width,
{
    reveal_with_fuel(unvarint, 2);
    if s.len() > 0 && s[0] >= 128 && width > 1 {
        unvarint_bounded(s.skip(1), (width - 1) as nat, last);
    }
    if s.len() > 0 && s[0] < 128 && width > 1 {
        lemma_range_at_least(width, last);
    }
}

proof fn lemma_range_at_least(width: nat, last: u8)
    requires
        width >= 2,
    ensures
        varint_range(width, last) >= 128,
    decreases width,
{
    reveal_with_fuel(varint_range, 3);
    if width > 2 {
        lemma_range_at_least((width - 1) as nat, last);
    }
}

/// The group limits hold exactly the numbers of each width.
pub proof fn varint_ranges()
    ensures
        varint_range(3, 3) == 0x1_0000,
        varint_range(5, 15) == 0x1_0000_0000,
        varint_range(10, 1) == 0x1_0000_0000_0000_0000,
{
    reveal_with_fuel(varint_range, 11);
}

/// Signed numbers read back from their zigzag form.
pub proof fn zigzag_reads_back(v: i16)
    ensures
        unzigzag(zigzag(v)) == v,
{
}

/// A value with a wire format. `M` is what a value means.
pub trait Wire: Sized {
    type M;

    spec fn model(&self) -> Self::M;

    /// Whether a value can mean `m`: numbers and lengths that fit their types.
    spec fn valid(m: Self::M) -> bool;

    /// The bytes of `m`.
    spec fn wire(m: Self::M) -> Seq<u8>;

    /// What `s` starts with, and how many bytes it takes.
    spec fn parse(s: Seq<u8>) -> Option<(Self::M, nat)>;

    /// Why `s` starts with nothing of the kind, where that is so.
    spec fn fault(s: Seq<u8>) -> WireFault;

    /// What was written reads back, whatever follows it.
    proof fn reads_back(m: Self::M, rest: Seq<u8>)
        requires
            Self::valid(m),
        ensures
            Self::parse(Self::wire(m) + rest) == Some((m, Self::wire(m).len())),
    ;

    /// Reading never goes past the end.
    proof fn parse_bounded(s: Seq<u8>)
        ensures
            Self::parse(s) matches Some((m, n)) ==> n <= s.len(),
    ;

    /// Appends the value's bytes.
    fn put(&self, out: &mut Vec<u8>)
        ensures
            final(out)@ == old(out)@ + Self::wire(self.model()),
            Self::valid(self.model()),
    ;

    /// Reads a value off the front of `s`.
    fn take(s: &[u8]) -> (r: Result<(Self, usize), WireFault>)
        ensures
            match r {
                Ok((v, n)) => Self::parse(s@) == Some((v.model(), n as nat)),
                Err(f) => Self::parse(s@) is None && f == Self::fault(s@),
            },
    ;
}

impl Wire for u8 {
    type M = u8;

    open spec fn model(&self) -> u8 {
        *self
    }

    open spec fn valid(m: u8) -> bool {
        true
    }

    open spec fn wire(m: u8) -> Seq<u8> {
        seq![m]
    }

    open spec fn parse(s: Seq<u8>) -> Option<(u8, nat)> {
        if s.len() == 0 {
            None
        } else {
            Some((s[0], 1))
        }
    }

    open spec fn fault(s: Seq<u8>) -> WireFault {
        WireFault::UnexpectedEnd
    }

    proof fn reads_back(m: u8, rest: Seq<u8>) {
    }

    proof fn parse_bounded(s: Seq<u8>) {
    }

    fn put(&self, out: &mut Vec<u8>) {
        push_all(out, byte_to_vec(*self).as_slice());
    }

    fn take(s: &[u8]) -> (r: Result<(u8, usize), WireFault>) {
        match byte_from(s) {
            Ok((v, _)) => Ok((v, 1)),
            Err(f) => Err(f),
        }
    }
}

impl Wire for bool {
    type M = bool;

    open spec fn model(&self) -> bool {
        *self
    }

    open spec fn valid(m: bool) -> bool {
        true
    }

    open spec fn wire(m: bool) -> Seq<u8> {
        seq![if m { 1u8 } else { 0u8 }]
    }

    open spec fn parse(s: Seq<u8>) -> Option<(bool, nat)> {
        if s.len() == 0 || s[0] > 1 {
            None
        } else {
            Some((s[0] == 1, 1))
        }
    }

    open spec fn fault(s: Seq<u8>) -> WireFault {
        if s.len() == 0 {
            WireFault::UnexpectedEnd
        } else {
            WireFault::BadBool
        }
    }

    proof fn reads_back(m: bool, rest: Seq<u8>) {
    }

    proof fn parse_bounded(s: Seq<u8>) {
    }

    fn put(&self, out: &mut Vec<u8>) {
        push_all(out, bool_to_vec(*self).as_slice());
    }

    fn take(s: &[u8]) -> (r: Result<(bool, usize), WireFault>) {
        match bool_from(s) {
            Ok((v, _)) => Ok((v, 1)),
            Err(f) => Err(f),
        }
    }
}

impl Wire for u16 {
    type M = u16;

    open spec fn model(&self) -> u16 {
        *self
    }

    open spec fn valid(m: u16) -> bool {
        true
    }

    open spec fn wire(m: u16) -> Seq<u8> {
        varint(m as nat)
    }

    open spec fn parse(s: Seq<u8>) -> Option<(u16, nat)> {
        match unvarint(s, 3, 3) {
            Some((v, n)) => Some((v as u16, n)),
            None => None,
        }
    }

    open spec fn fault(s: Seq<u8>) -> WireFault {
        varint_fault(s, 3)
    }

    proof fn reads_back(m: u16, rest: Seq<u8>) {
        varint_ranges();
        varint_reads_back(m as nat, 3, 3, rest);
    }

    proof fn parse_bounded(s: Seq<u8>) {
        unvarint_bounded(s, 3, 3);
    }

    fn put(&self, out: &mut Vec<u8>) {
        push_all(out, number_to_vec(*self as u64).as_slice());
    }

    fn take(s: &[u8]) -> (r: Result<(u16, usize), WireFault>) {
        proof {
            unvarint_bounded(s@, 3, 3);
        }
        match u16_from(s) {
            Ok((v, rest)) => Ok((v, s.len() - rest.len())),
            Err(f) => Err(f),
        }
    }
}

impl Wire for u32 {
    type M = u32;

    open spec fn model(&self) -> u32 {
        *self
    }

    open spec fn valid(m: u32) -> bool {
        true
    }

    open spec fn wire(m: u32) -> Seq<u8> {
        varint(m as nat)
    }

    open spec fn parse(s: Seq<u8>) -> Option<(u32, nat)> {
        match unvarint(s, 5, 15) {
            Some((v, n)) => Some((v as u32, n)),
            None => None,
        }
    }

    open spec fn fault(s: Seq<u8>) -> WireFault {
        varint_fault(s, 5)
    }

    proof fn reads_back(m: u32, rest: Seq<u8>) {
        varint_ranges();
        varint_reads_back(m as nat, 5, 15, rest);
    }

    proof fn parse_bounded(s: Seq<u8>) {
        unvarint_bounded(s, 5, 15);
    }

    fn put(&self, out: &mut Vec<u8>) {
        push_all(out, number_to_vec(*self as u64).as_slice());
    }

    fn take(s: &[u8]) -> (r: Result<(u32, usize), WireFault>) {
        proof {
            unvarint_bounded(s@, 5, 15);
        }
        match u32_from(s) {
            Ok((v, rest)) => Ok((v, s.len() - rest.len())),
            Err(f) => Err(f),
        }
    }
}

impl Wire for u64 {
    type M = u64;

    open spec fn model(&self) -> u64 {
        *self
    }

    open spec fn valid(m: u64) -> bool {
        true
    }

    open spec fn wire(m: u64) -> Seq<u8> {
        varint(m as nat)
    }

    open spec fn parse(s: Seq<u8>) -> Option<(u64, nat)> {
        match unvarint(s, 10, 1) {
            Some((v, n)) => Some((v as u64, n)),
            None => None,
        }
    }

    open spec fn fault(s: Seq<u8>) -> WireFault {
        varint_fault(s, 10)
    }

    proof fn reads_back(m: u64, rest: Seq<u8>) {
        varint_ranges();
        varint_reads_back(m as nat, 10, 1, rest);
    }

    proof fn parse_bounded(s: Seq<u8>) {
        unvarint_bounded(s, 10, 1);
    }

    fn put(&self, out: &mut Vec<u8>) {
        push_all(out, number_to_vec(*self).as_slice());
    }

    fn take(s: &[u8]) -> (r: Result<(u64, usize), WireFault>) {
        proof {
            unvarint_bounded(s@, 10, 1);
        }
        match u64_from(s) {
            Ok((v, rest)) => Ok((v, s.len() - rest.len())),
            Err(f) => Err(f),
        }
    }
}

impl Wire for i16 {
    type M = i16;

    open spec fn model(&self) -> i16 {
        *self
    }

    open spec fn valid(m: i16) -> bool {
        true
    }

    open spec fn wire(m: i16) -> Seq<u8> {
        varint(zigzag(m) as nat)
    }

    open spec fn parse(s: Seq<u8>) -> Option<(i16, nat)> {
        match unvarint(s, 3, 3) {
            Some((v, n)) => Some((unzigzag(v as u16), n)),
            None => None,
        }
    }

    open spec fn fault(s: Seq<u8>) -> WireFault {
        varint_fault(s, 3)
    }

    proof fn reads_back(m: i16, rest: Seq<u8>) {
        varint_ranges();
        varint_reads_back(zigzag(m) as nat, 3, 3, rest);
        zigzag_reads_back(m);
    }

    proof fn parse_bounded(s: Seq<u8>) {
        unvarint_bounded(s, 3, 3);
    }

    fn put(&self, out: &mut Vec<u8>) {
        push_all(out, signed_to_vec(*self).as_slice());
    }

    fn take(s: &[u8]) -> (r: Result<(i16, usize), WireFault>) {
        proof {
            unvarint_bounded(s@, 3, 3);
        }
        match i16_from(s) {
            Ok((v, rest)) => Ok((v, s.len() - rest.len())),
            Err(f) => Err(f),
        }
    }
}

/// One value after the other.
impl<A: Wire, B: Wire> Wire for (A, B) {
    type M = (A::M, B::M);

    open spec fn model(&self) -> (A::M, B::M) {
        (self.0.model(), self.1.model())
    }

    open spec fn valid(m: (A::M, B::M)) -> bool {
        A::valid(m.0) && B::valid(m.1)
    }

    open spec fn wire(m: (A::M, B::M)) -> Seq<u8> {
        A::wire(m.0) + B::wire(m.1)
    }

    open spec fn parse(s: Seq<u8>) -> Option<((A::M, B::M), nat)> {
        match A::parse(s) {
            None => None,
            Some((a, n)) => match B::parse(s.skip(n as int)) {
                None => None,
                Some((b, k)) => Some(((a, b), n + k)),
            },
        }
    }

    open spec fn fault(s: Seq<u8>) -> WireFault {
        match A::parse(s) {
            None => A::fault(s),
            Some((_, n)) => B::fault(s.skip(n as int)),
        }
    }

    proof fn reads_back(m: (A::M, B::M), rest: Seq<u8>) {
        let tail = B::wire(m.1) + rest;
        A::reads_back(m.0, tail);
        B::reads_back(m.1, rest);
        assert(Self::wire(m) + rest =~= A::wire(m.0) + tail);
        assert((A::wire(m.0) + tail).skip(A::wire(m.0).len() as int) =~= tail);
    }

    proof fn parse_bounded(s: Seq<u8>) {
        A::parse_bounded(s);
        if let Some((a, n)) = A::parse(s) {
            B::parse_bounded(s.skip(n as int));
        }
    }

    fn put(&self, out: &mut Vec<u8>) {
        let ghost start = out@;
        self.0.put(out);
        self.1.put(out);
        assert(out@ =~= start + Self::wire(self.model()));
    }

    fn take(s: &[u8]) -> (r: Result<(Self, usize), WireFault>) {
        proof {
            A::parse_bounded(s@);
        }
        let (a, n) = match A::take(s) {
            Ok(x) => x,
            Err(f) => {
                return Err(f);
            },
        };
        let rest = slice_subrange(s, n, s.len());
        assert(rest@ =~= s@.skip(n as int));
        proof {
            B::parse_bounded(rest@);
        }
        match B::take(rest) {
            Ok((b, k)) => Ok(((a, b), n + k)),
            Err(f) => Err(f),
        }
    }
}

/// A byte of zero, or a byte of one and a value.
impl<A: Wire> Wire for Option<A> {
    type M = Option<A::M>;

    open spec fn model(&self) -> Option<A::M> {
        match self {
            Some(a) => Some(a.model()),
            None => None,
        }
    }

    open spec fn valid(m: Option<A::M>) -> bool {
        m matches Some(a) ==> A::valid(a)
    }

    open spec fn wire(m: Option<A::M>) -> Seq<u8> {
        match m {
            None => seq![0u8],
            Some(a) => seq![1u8] + A::wire(a),
        }
    }

    open spec fn parse(s: Seq<u8>) -> Option<(Option<A::M>, nat)> {
        if s.len() == 0 || s[0] > 1 {
            None
        } else if s[0] == 0 {
            Some((None, 1))
        } else {
            match A::parse(s.skip(1)) {
                None => None,
                Some((a, n)) => Some((Some(a), n + 1)),
            }
        }
    }

    open spec fn fault(s: Seq<u8>) -> WireFault {
        if s.len() == 0 {
            WireFault::UnexpectedEnd
        } else if s[0] > 1 {
            WireFault::BadOption
        } else {
            A::fault(s.skip(1))
        }
    }

    proof fn reads_back(m: Option<A::M>, rest: Seq<u8>) {
        if let Some(a) = m {
            A::reads_back(a, rest);
            let s = Self::wire(m) + rest;
            assert(s.skip(1) =~= A::wire(a) + rest);
        }
    }

    proof fn parse_bounded(s: Seq<u8>) {
        if s.len() > 0 {
            A::parse_bounded(s.skip(1));
        }
    }

    fn put(&self, out: &mut Vec<u8>) {
        let ghost start = out@;
        match self {
            None => {
                0u8.put(out);
            },
            Some(a) => {
                1u8.put(out);
                a.put(out);
                assert(out@ =~= start + Self::wire(self.model()));
            },
        }
    }

    fn take(s: &[u8]) -> (r: Result<(Self, usize), WireFault>) {
        let (tag, _) = match u8::take(s) {
            Ok(x) => x,
            Err(f) => {
                return Err(f);
            },
        };
        if tag == 0 {
            return Ok((None, 1));
        }
        if tag != 1 {
            return Err(WireFault::BadOption);
        }
        let rest = slice_subrange(s, 1, s.len());
        assert(rest@ =~= s@.skip(1));
        proof {
            A::parse_bounded(rest@);
        }
        match A::take(rest) {
            Ok((a, n)) => Ok((Some(a), n + 1)),
            Err(f) => Err(f),
        }
    }
}

/// A byte string: its length, and the bytes.
impl Wire for Vec<u8> {
    type M = Seq<u8>;

    open spec fn model(&self) -> Seq<u8> {
        self@
    }

    open spec fn valid(m: Seq<u8>) -> bool {
        m.len() <= u64::MAX
    }

    open spec fn wire(m: Seq<u8>) -> Seq<u8> {
        varint(m.len()) + m
    }

    open spec fn parse(s: Seq<u8>) -> Option<(Seq<u8>, nat)> {
        match u64::parse(s) {
            None => None,
            Some((len, n)) => if n + len > s.len() {
                None
            } else {
                Some((s.subrange(n as int, n + len), n + len as nat))
            },
        }
    }

    open spec fn fault(s: Seq<u8>) -> WireFault {
        match u64::parse(s) {
            None => u64::fault(s),
            Some(_) => WireFault::UnexpectedEnd,
        }
    }

    proof fn reads_back(m: Seq<u8>, rest: Seq<u8>) {
        let s = Self::wire(m) + rest;
        u64::reads_back(m.len() as u64, m + rest);
        assert(s =~= varint(m.len()) + (m + rest));
        let n = varint(m.len()).len();
        assert(s.subrange(n as int, (n + m.len()) as int) =~= m);
    }

    proof fn parse_bounded(s: Seq<u8>) {
    }

    fn put(&self, out: &mut Vec<u8>) {
        let ghost start = out@;
        let len: u64 = self.len() as u64;
        len.put(out);
        push_all(out, self.as_slice());
        assert(out@ =~= start + Self::wire(self.model()));
    }

    fn take(s: &[u8]) -> (r: Result<(Vec<u8>, usize), WireFault>) {
        proof {
            u64::parse_bounded(s@);
        }
        let (len, n) = match u64::take(s) {
            Ok(x) => x,
            Err(f) => {
                return Err(f);
            },
        };
        if len > (s.len() - n) as u64 {
            return Err(WireFault::UnexpectedEnd);
        }
        let end: usize = n + len as usize;
        Ok((copy_range(s, n, end), end))
    }
}

/// What the values of a list mean.
pub open spec fn models<T: Wire>(v: Seq<T>) -> Seq<T::M> {
    v.map_values(|t: T| t.model())
}

/// Values one after the other.
pub open spec fn items_wire<T: Wire>(items: Seq<T::M>) -> Seq<u8>
    decreases items.len(),
{
    if items.len() == 0 {
        Seq::empty()
    } else {
        T::wire(items[0]) + items_wire::<T>(items.skip(1))
    }
}

/// `count` values off the front of `s`, and the bytes they take.
pub open spec fn parse_items<T: Wire>(s: Seq<u8>, count: nat) -> Option<(Seq<T::M>, nat)>
    decreases count,
{
    if count == 0 {
        Some((Seq::empty(), 0))
    } else {
        match T::parse(s) {
            None => None,
            Some((c, n)) => match parse_items::<T>(s.skip(n as int), (count - 1) as nat) {
                None => None,
                Some((rest, k)) => Some((seq![c] + rest, n + k)),
            },
        }
    }
}

/// Whether a list can mean `items`.
pub open spec fn list_valid<T: Wire>(items: Seq<T::M>) -> bool {
    items.len() <= u64::MAX && forall|i: int|
        0 <= i < items.len() ==> T::valid(#[trigger] items[i])
}

/// A list: its length, and its values.
pub open spec fn list_wire<T: Wire>(items: Seq<T::M>) -> Seq<u8> {
    varint(items.len()) + items_wire::<T>(items)
}

/// The list that `s` starts with.
pub open spec fn parse_list<T: Wire>(s: Seq<u8>) -> Option<(Seq<T::M>, nat)> {
    match u64::parse(s) {
        None => None,
        Some((len, n)) => match parse_items::<T>(s.skip(n as int), len as nat) {
            None => None,
            Some((v, k)) => Some((v, n + k)),
        },
    }
}

/// Why `count` values cannot be read off the front of `s`, where that is so.
pub open spec fn items_fault<T: Wire>(s: Seq<u8>, count: nat) -> WireFault
    decreases count,
{
    match T::parse(s) {
        None => T::fault(s),
        Some((_, n)) => if count <= 1 {
            T::fault(s)
        } else {
            items_fault::<T>(s.skip(n as int), (count - 1) as nat)
        },
    }
}

/// Why `s` does not start with a list, where that is so.
pub open spec fn list_fault<T: Wire>(s: Seq<u8>) -> WireFault {
    match u64::parse(s) {
        None => u64::fault(s),
        Some((len, n)) => items_fault::<T>(s.skip(n as int), len as nat),
    }
}

proof fn lemma_items_read_back<T: Wire>(items: Seq<T::M>, rest: Seq<u8>)
    requires
        forall|i: int| 0 <= i < items.len() ==> T::valid(#[trigger] items[i]),
    ensures
        parse_items::<T>(items_wire::<T>(items) + rest, items.len()) == Some(
            (items, items_wire::<T>(items).len()),
        ),
    decreases items.len(),
{
    if items.len() > 0 {
        let tail = items_wire::<T>(items.skip(1)) + rest;
        assert forall|i: int| 0 <= i < items.skip(1).len() implies T::valid(
            #[trigger] items.skip(1)[i],
        ) by {
            assert(items.skip(1)[i] == items[i + 1]);
        }
        lemma_items_read_back::<T>(items.skip(1), rest);
        T::reads_back(items[0], tail);
        let s = items_wire::<T>(items) + rest;
        assert(s =~= T::wire(items[0]) + tail);
        assert(s.skip(T::wire(items[0]).len() as int) =~= tail);
        assert(seq![items[0]] + items.skip(1) =~= items);
    }
}

/// A list reads back, whatever follows it.
pub proof fn list_reads_back<T: Wire>(items: Seq<T::M>, rest: Seq<u8>)
    requires
        list_valid::<T>(items),
    ensures
        parse_list::<T>(list_wire::<T>(items) + rest) == Some(
            (items, list_wire::<T>(items).len()),
        ),
{
    let tail = items_wire::<T>(items) + rest;
    u64::reads_back(items.len() as u64, tail);
    lemma_items_read_back::<T>(items, rest);
    let s = list_wire::<T>(items) + rest;
    assert(s =~= varint(items.len()) + tail);
    assert(s.skip(varint(items.len()).len() as int) =~= tail);
}

proof fn lemma_parse_items_bounded<T: Wire>(s: Seq<u8>, count: nat)
    ensures
        parse_items::<T>(s, count) matches Some((v, n)) ==> n <= s.len() && v.len() == count,
    decreases count,
{
    if count > 0 {
        T::parse_bounded(s);
        if let Some((c, n)) = T::parse(s) {
            lemma_parse_items_bounded::<T>(s.skip(n as int), (count - 1) as nat);
        }
    }
}

/// Reading a list never goes past the end.
pub proof fn parse_list_bounded<T: Wire>(s: Seq<u8>)
    ensures
        parse_list::<T>(s) matches Some((v, n)) ==> n <= s.len(),
{
    u64::parse_bounded(s);
    if let Some((len, n)) = u64::parse(s) {
        lemma_parse_items_bounded::<T>(s.skip(n as int), len as nat);
    }
}

/// What is parsed once `head`, of `n` bytes, stands in front of it.
spec fn behind<M>(head: Seq<M>, n: nat, r: Option<(Seq<M>, nat)>) -> Option<(Seq<M>, nat)> {
    match r {
        None => None,
        Some((v, k)) => Some((head + v, n + k)),
    }
}

/// Appends a list.
pub fn put_list<T: Wire>(list: &Vec<T>, out: &mut Vec<u8>)
    ensures
        final(out)@ == old(out)@ + list_wire::<T>(models::<T>(list@)),
        list_valid::<T>(models::<T>(list@)),
{
    let ghost start = out@;
    let ghost items = models::<T>(list@);
    let len: u64 = list.len() as u64;
    len.put(out);
    let mut i: usize = 0;
    assert(items.skip(0) =~= items);
    assert(out@ + items_wire::<T>(items.skip(0)) =~= start + list_wire::<T>(items));
    while i < list.len()
        invariant
            i <= list@.len(),
            items == models::<T>(list@),
            out@ + items_wire::<T>(items.skip(i as int)) == start + list_wire::<T>(items),
            forall|j: int| 0 <= j < i ==> T::valid(#[trigger] items[j]),
        decreases list@.len() - i,
    {
        let ghost before = out@;
        list[i].put(out);
        proof {
            assert(items[i as int] == list@[i as int].model());
            assert(items.skip(i as int)[0] == items[i as int]);
            assert(items.skip(i as int).skip(1) =~= items.skip(i + 1));
            assert(out@ + items_wire::<T>(items.skip(i + 1)) =~= before + items_wire::<T>(
                items.skip(i as int),
            ));
        }
        i = i + 1;
    }
    assert(out@ + items_wire::<T>(items.skip(i as int)) =~= out@);
}

/// Reads a list off the front of `s`.
pub fn take_list<T: Wire>(s: &[u8]) -> (r: Result<(Vec<T>, usize), WireFault>)
    ensures
        match r {
            Ok((v, n)) => parse_list::<T>(s@) == Some((models::<T>(v@), n as nat)),
            Err(f) => parse_list::<T>(s@) is None && f == list_fault::<T>(s@),
        },
{
    proof {
        u64::parse_bounded(s@);
    }
    let (len, start) = match u64::take(s) {
        Ok(x) => x,
        Err(f) => {
            return Err(f);
        },
    };
    let ghost body = s@.skip(start as int);
    let mut list: Vec<T> = Vec::new();
    let mut at: usize = start;
    let mut i: u64 = 0;
    assert(body.skip(0) =~= body);
    assert(models::<T>(list@) =~= Seq::empty());
    assert(behind(models::<T>(list@), 0, parse_items::<T>(body, len as nat)) == parse_items::<T>(
        body,
        len as nat,
    )) by {
        if let Some((v, k)) = parse_items::<T>(body, len as nat) {
            assert(Seq::<T::M>::empty() + v =~= v);
        }
    }
    while i < len
        invariant
            i <= len,
            start <= at <= s@.len(),
            body == s@.skip(start as int),
            behind(
                models::<T>(list@),
                (at - start) as nat,
                parse_items::<T>(body.skip(at - start), (len - i) as nat),
            ) == parse_items::<T>(body, len as nat),
            u64::parse(s@) == Some((len, start as nat)),
            i < len ==> items_fault::<T>(body, len as nat) == items_fault::<T>(
                body.skip(at - start),
                (len - i) as nat,
            ),
        decreases len - i,
    {
        let rest = slice_subrange(s, at, s.len());
        assert(rest@ =~= body.skip(at - start));
        proof {
            T::parse_bounded(rest@);
        }
        match T::take(rest) {
            Err(f) => {
                return Err(f);
            },
            Ok((c, n)) => {
                let ghost had = models::<T>(list@);
                let ghost was = at;
                let ghost m = c.model();
                list.push(c);
                at = at + n;
                i = i + 1;
                proof {
                    assert(models::<T>(list@) =~= had.push(m));
                    assert(body.skip(was - start).skip(n as int) =~= body.skip(at - start));
                    if let Some((v, k)) = parse_items::<T>(body.skip(at - start), (len - i) as nat) {
                        assert(had + (seq![m] + v) =~= models::<T>(list@) + v);
                    }
                }
            },
        }
    }
    assert(models::<T>(list@) + Seq::<T::M>::empty() =~= models::<T>(list@));
    Ok((list, at))
}

/// Encodes a value. Decoding gives it back.
pub fn encode<T: Wire>(value: &T) -> (r: Result<Vec<u8>, ProtocolError>)
    ensures
        r matches Ok(bytes) && bytes@ == T::wire(value.model()) && T::parse(bytes@) == Some(
            (value.model(), bytes@.len()),
        ),
{
    let mut out: Vec<u8> = Vec::new();
    value.put(&mut out);
    proof {
        assert(out@ =~= T::wire(value.model()));
        T::reads_back(value.model(), Seq::empty());
        assert(T::wire(value.model()) + Seq::<u8>::empty() =~= out@);
    }
    Ok(out)
}

/// Decodes the value that `bytes` starts with. What follows it is passed over.
pub fn decode<T: Wire>(bytes: &[u8]) -> (r: Result<T, ProtocolError>)
    ensures
        match r {
            Ok(v) => T::parse(bytes@) matches Some((m, _)) && m == v.model(),
            Err(e) => T::parse(bytes@) is None && e == ProtocolError::Decode(T::fault(bytes@)),
        },
{
    match T::take(bytes) {
        Ok((v, _)) => Ok(v),
        Err(f) => Err(ProtocolError::Decode(f)),
    }
}

/// Encoding keeps values apart: two that encode alike are alike.
pub proof fn encoding_is_injective<T: Wire>(a: T::M, b: T::M)
    requires
        T::valid(a),
        T::valid(b),
        T::wire(a) == T::wire(b),
    ensures
        a == b,
{
    T::reads_back(a, Seq::empty());
    T::reads_back(b, Seq::empty());
}

/// Signed numbers take turns with each other by their distance from zero, and every number
/// stands for a signed one.
pub proof fn zigzag_takes_turns(v: i16, u: u16)
    ensures
        v >= 0 ==> zigzag(v) == 2 * v,
        v < 0 ==> zigzag(v) == -2 * v - 1,
        zigzag(unzigzag(u)) == u,
{
}

/// What cannot be read is named: input that ends too soon, a flag that is neither zero nor one,
/// and the same for what says whether a value follows.
pub proof fn faults_name_the_trouble<A: Wire>(s: Seq<u8>)
    ensures
        s.len() == 0 ==> {
            &&& u8::parse(s) is None && u8::fault(s) is UnexpectedEnd
            &&& bool::parse(s) is None && bool::fault(s) is UnexpectedEnd
            &&& u16::parse(s) is None && u16::fault(s) is UnexpectedEnd
            &&& u32::parse(s) is None && u32::fault(s) is UnexpectedEnd
            &&& u64::parse(s) is None && u64::fault(s) is UnexpectedEnd
            &&& i16::parse(s) is None && i16::fault(s) is UnexpectedEnd
            &&& Option::<A>::parse(s) is None && Option::<A>::fault(s) is UnexpectedEnd
            &&& Vec::<u8>::parse(s) is None && Vec::<u8>::fault(s) is UnexpectedEnd
        },
        s.len() > 0 && s[0] > 1 ==> {
            &&& bool::parse(s) is None && bool::fault(s) is BadBool
            &&& Option::<A>::parse(s) is None && Option::<A>::fault(s) is BadOption
        },
        s.len() > 0 && s[0] == 0 ==> bool::parse(s) == Some((false, 1nat)) && Option::<A>::parse(s)
            == Some((None::<A::M>, 1nat)),
        s.len() > 0 && s[0] == 1 ==> bool::parse(s) == Some((true, 1nat)),
{
}

/// Bytes are preceded by their number; fewer than that many are an end too soon.
pub proof fn byte_strings_are_counted(bytes: Seq<u8>, k: int)
    requires
        bytes.len() < 128,
        0 <= k < bytes.len(),
    ensures
        Vec::<u8>::wire(bytes) == seq![bytes.len() as u8] + bytes,
        Vec::<u8>::parse(seq![bytes.len() as u8] + bytes.take(k)) is None,
        Vec::<u8>::fault(seq![bytes.len() as u8] + bytes.take(k)) is UnexpectedEnd,
{
    let s = seq![bytes.len() as u8] + bytes.take(k);
    reveal_with_fuel(unvarint, 2);
    assert(s[0] == bytes.len());
}

/// A number below a hundred and twenty-eight is one byte, itself; a larger one sets the high
/// bit and goes on.
pub proof fn small_numbers_are_one_byte(v: nat)
    ensures
        v < 128 ==> varint(v) == seq![v as u8],
        v >= 128 ==> varint(v).len() >= 2 && varint(v)[0] >= 128 && varint(v)[0] % 128 == v % 128,
        varint(v).last() < 128,
    decreases v,
{
    if v >= 128 {
        small_numbers_are_one_byte(v / 128);
        assert(varint(v / 128).len() >= 1) by {
            reveal_with_fuel(varint, 2);
        }
        assert(varint(v).last() == varint(v / 128).last());
    }
}

/// What is written with nothing behind it reads back whole.
pub proof fn alone_reads_back<T: Wire>(v: T::M)
    requires
        T::valid(v),
    ensures
        T::parse(T::wire(v)) == Some((v, T::wire(v).len())),
{
    T::reads_back(v, Seq::empty());
    assert(T::wire(v) + Seq::<u8>::empty() =~= T::wire(v));
}

} // verus!
