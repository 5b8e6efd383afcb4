//! Binary streams for decoding `.reanim.compiled` files.
//!
//! A [`Stream`] is a cursor over an in-memory byte buffer. Every read either consumes exactly
//! the bytes it decodes, or reports a [`DecodeError`]. The meaning of each read is given by a
//! specification function on the remaining bytes, so that decoders built from these reads can
//! be specified by composing those functions.

use vstd::prelude::*;
use vstd::utf8::*;
use crate::bits::F32Bits;
use crate::text::{Utf8Failure, string_from_utf8, valid_up_to, utf8_error_len, lemma_valid_up_to_unique};

verus! {

/// Mathematical model of a [`DecodeError`].
pub enum DecodeErrorView {
    /// Not enough bytes for the named data.
    IncompleteData(Seq<char>),
    /// Invalid byte sequence for the named data.
    InvalidData(Seq<char>),
    /// Magic number mismatch.
    MagicMismatch { real_bytes: Seq<u8>, expected_magic: Seq<u8> },
    /// Invalid UTF-8: the valid prefix, then the offending bytes.
    DecodeUtf8Error { valid_prefix: Seq<char>, invalid_bytes: Seq<u8> },
    /// Bytes left over after decoding finished.
    SuperfluousBytes(Seq<u8>),
}

/// Decoding errors.
#[derive(Debug)]
pub enum DecodeError {
    /// Not enough bytes when decoding some [`PlainData`].
    IncompleteData(&'static str),
    /// Invalid byte sequence for some [`PlainData`].
    InvalidData(&'static str),
    /// Incorrect magic number.
    MagicMismatch {
        /// Real bytes in the binary file.
        real_bytes: Magic,
        /// Expected magic byte sequence.
        expected_magic: Magic,
    },
    /// Cannot decode UTF-8 strings.
    DecodeUtf8Error {
        /// The string is valid until this point.
        valid_prefix: String,
        /// The invalid bytes coming after the valid prefix.
        invalid_bytes: Vec<u8>,
    },
    /// Superfluous bytes after decoding finished. EOF expected.
    SuperfluousBytes(Vec<u8>),
}

impl View for DecodeError {
    type V = DecodeErrorView;

    open spec fn view(&self) -> DecodeErrorView {
        match self {
            DecodeError::IncompleteData(name) => DecodeErrorView::IncompleteData(name@),
            DecodeError::InvalidData(name) => DecodeErrorView::InvalidData(name@),
            DecodeError::MagicMismatch { real_bytes, expected_magic } => DecodeErrorView::MagicMismatch {
                real_bytes: real_bytes.0@,
                expected_magic: expected_magic.0@,
            },
            DecodeError::DecodeUtf8Error { valid_prefix, invalid_bytes } => DecodeErrorView::DecodeUtf8Error {
                valid_prefix: valid_prefix@,
                invalid_bytes: invalid_bytes@,
            },
            DecodeError::SuperfluousBytes(bytes) => DecodeErrorView::SuperfluousBytes(bytes@),
        }
    }
}

/// 32bit magic sequence.
#[derive(Debug, Clone, Copy)]
pub struct Magic(pub [u8; 4]);

/// Little-endian bytes of a 32-bit number.
pub open spec fn le_bytes_u32(n: u32) -> Seq<u8> {
    seq![
        (n % 256) as u8,
        ((n / 256) % 256) as u8,
        ((n / 65536) % 256) as u8,
        ((n / 16777216) % 256) as u8,
    ]
}

impl Magic {
    /// Magic sequence of a 32-bit number: its little-endian bytes.
    pub fn from_u32(n: u32) -> (m: Magic)
        ensures
            m.0@ == le_bytes_u32(n),
    {
        let m = Magic([
            (n % 256) as u8,
            ((n / 256) % 256) as u8,
            ((n / 65536) % 256) as u8,
            ((n / 16777216) % 256) as u8,
        ]);
        assert(m.0@ =~= le_bytes_u32(n));
        m
    }

    /// Are the two magic sequences the same?
    pub fn same_as(&self, other: &Magic) -> (r: bool)
        ensures
            r == (self.0@ == other.0@),
    {
        let r = self.0[0] == other.0[0] && self.0[1] == other.0[1] && self.0[2] == other.0[2]
            && self.0[3] == other.0[3];
        proof {
            if r {
                assert(self.0@ =~= other.0@);
            } else {
                assert(self.0@ != other.0@) by {
                    if self.0@ == other.0@ {
                        assert(self.0@[0] == other.0@[0]);
                        assert(self.0@[1] == other.0@[1]);
                        assert(self.0@[2] == other.0@[2]);
                        assert(self.0@[3] == other.0@[3]);
                    }
                }
            }
        }
        r
    }
}

/// Plain old data, with a constant size known in advance.
pub trait PlainData: Sized + View {
    /// Size of this data in bytes.
    spec fn spec_size_in_bytes() -> nat;

    /// Size of this data in bytes.
    fn size_in_bytes() -> (n: usize)
        ensures
            n == Self::spec_size_in_bytes(),
    ;
    /// Name of this type, used in diagnostics.
    const TYPE_NAME: &'static str;

    /// The value that a byte sequence of length `SIZE_IN_BYTES` encodes, if any.
    spec fn spec_from_bytes(data: Seq<u8>) -> Option<Self::V>;

    /// Decode from a byte sequence of length `SIZE_IN_BYTES`.
    fn from_bytes(data: &[u8]) -> (r: Option<Self>)
        requires
            data@.len() == Self::spec_size_in_bytes(),
        ensures
            match Self::spec_from_bytes(data@) {
                Some(v) => r matches Some(x) && x@ == v,
                None => r is None,
            },
    ;
}

/// Value of 2 little-endian bytes.
pub open spec fn le_value_2(d: Seq<u8>) -> int {
    d[0] + d[1] * 0x100
}

/// Value of 4 little-endian bytes.
pub open spec fn le_value_4(d: Seq<u8>) -> int {
    d[0] + d[1] * 0x100 + d[2] * 0x1_0000 + d[3] * 0x100_0000
}

/// Value of 8 little-endian bytes.
pub open spec fn le_value_8(d: Seq<u8>) -> int {
    d[0] + d[1] * 0x100 + d[2] * 0x1_0000 + d[3] * 0x100_0000 + d[4] * 0x1_0000_0000
        + d[5] * 0x100_0000_0000 + d[6] * 0x1_0000_0000_0000 + d[7] * 0x100_0000_0000_0000
}

/// Two's complement reading of an unsigned value of `bits` bits.
pub open spec fn twos_complement(u: int, modulus: int) -> int {
    if u < modulus / 2 {
        u
    } else {
        u - modulus
    }
}

fn le_u16(data: &[u8]) -> (r: u16)
    requires
        data@.len() == 2,
    ensures
        r == le_value_2(data@),
{
    data[0] as u16 + (data[1] as u16) * 0x100
}

fn le_u32(data: &[u8]) -> (r: u32)
    requires
        data@.len() == 4,
    ensures
        r == le_value_4(data@),
{
    data[0] as u32 + (data[1] as u32) * 0x100 + (data[2] as u32) * 0x1_0000 + (data[3] as u32)
        * 0x100_0000
}

fn le_u64(data: &[u8]) -> (r: u64)
    requires
        data@.len() == 8,
    ensures
        r == le_value_8(data@),
{
    data[0] as u64 + (data[1] as u64) * 0x100 + (data[2] as u64) * 0x1_0000 + (data[3] as u64)
        * 0x100_0000 + (data[4] as u64) * 0x1_0000_0000 + (data[5] as u64) * 0x100_0000_0000
        + (data[6] as u64) * 0x1_0000_0000_0000 + (data[7] as u64) * 0x100_0000_0000_0000
}

impl PlainData for u8 {
    open spec fn spec_size_in_bytes() -> nat {
        1
    }

    fn size_in_bytes() -> (n: usize) {
        1
    }
    const TYPE_NAME: &'static str = "u8";

    open spec fn spec_from_bytes(data: Seq<u8>) -> Option<u8> {
        Some(data[0])
    }

    fn from_bytes(data: &[u8]) -> (r: Option<u8>) {
        Some(data[0])
    }
}

impl PlainData for u16 {
    open spec fn spec_size_in_bytes() -> nat {
        2
    }

    fn size_in_bytes() -> (n: usize) {
        2
    }
    const TYPE_NAME: &'static str = "u16";

    open spec fn spec_from_bytes(data: Seq<u8>) -> Option<u16> {
        Some(le_value_2(data) as u16)
    }

    fn from_bytes(data: &[u8]) -> (r: Option<u16>) {
        Some(le_u16(data))
    }
}

impl PlainData for u32 {
    open spec fn spec_size_in_bytes() -> nat {
        4
    }

    fn size_in_bytes() -> (n: usize) {
        4
    }
    const TYPE_NAME: &'static str = "u32";

    open spec fn spec_from_bytes(data: Seq<u8>) -> Option<u32> {
        Some(le_value_4(data) as u32)
    }

    fn from_bytes(data: &[u8]) -> (r: Option<u32>) {
        Some(le_u32(data))
    }
}

impl PlainData for u64 {
    open spec fn spec_size_in_bytes() -> nat {
        8
    }

    fn size_in_bytes() -> (n: usize) {
        8
    }
    const TYPE_NAME: &'static str = "u64";

    open spec fn spec_from_bytes(data: Seq<u8>) -> Option<u64> {
        Some(le_value_8(data) as u64)
    }

    fn from_bytes(data: &[u8]) -> (r: Option<u64>) {
        Some(le_u64(data))
    }
}

impl PlainData for i8 {
    open spec fn spec_size_in_bytes() -> nat {
        1
    }

    fn size_in_bytes() -> (n: usize) {
        1
    }
    const TYPE_NAME: &'static str = "i8";

    open spec fn spec_from_bytes(data: Seq<u8>) -> Option<i8> {
        Some(twos_complement(data[0] as int, 0x100) as i8)
    }

    fn from_bytes(data: &[u8]) -> (r: Option<i8>) {
        let u: u8 = data[0];
        if u < 0x80 {
            Some(u as i8)
        } else {
            Some((u as i16 - 0x100) as i8)
        }
    }
}

impl PlainData for i16 {
    open spec fn spec_size_in_bytes() -> nat {
        2
    }

    fn size_in_bytes() -> (n: usize) {
        2
    }
    const TYPE_NAME: &'static str = "i16";

    open spec fn spec_from_bytes(data: Seq<u8>) -> Option<i16> {
        Some(twos_complement(le_value_2(data), 0x1_0000) as i16)
    }

    fn from_bytes(data: &[u8]) -> (r: Option<i16>) {
        let u: u16 = le_u16(data);
        if u < 0x8000 {
            Some(u as i16)
        } else {
            Some((u as i32 - 0x1_0000) as i16)
        }
    }
}

impl PlainData for i32 {
    open spec fn spec_size_in_bytes() -> nat {
        4
    }

    fn size_in_bytes() -> (n: usize) {
        4
    }
    const TYPE_NAME: &'static str = "i32";

    open spec fn spec_from_bytes(data: Seq<u8>) -> Option<i32> {
        Some(twos_complement(le_value_4(data), 0x1_0000_0000) as i32)
    }

    fn from_bytes(data: &[u8]) -> (r: Option<i32>) {
        let u: u32 = le_u32(data);
        if u < 0x8000_0000 {
            Some(u as i32)
        } else {
            Some((u as i64 - 0x1_0000_0000) as i32)
        }
    }
}

impl PlainData for i64 {
    open spec fn spec_size_in_bytes() -> nat {
        8
    }

    fn size_in_bytes() -> (n: usize) {
        8
    }
    const TYPE_NAME: &'static str = "i64";

    open spec fn spec_from_bytes(data: Seq<u8>) -> Option<i64> {
        Some(twos_complement(le_value_8(data), 0x1_0000_0000_0000_0000) as i64)
    }

    fn from_bytes(data: &[u8]) -> (r: Option<i64>) {
        let u: u64 = le_u64(data);
        if u < 0x8000_0000_0000_0000 {
            Some(u as i64)
        } else {
            Some((u as i128 - 0x1_0000_0000_0000_0000) as i64)
        }
    }
}

impl View for F32Bits {
    type V = F32Bits;

    open spec fn view(&self) -> F32Bits {
        *self
    }
}

impl PlainData for F32Bits {
    open spec fn spec_size_in_bytes() -> nat {
        4
    }

    fn size_in_bytes() -> (n: usize) {
        4
    }
    const TYPE_NAME: &'static str = "f32";

    open spec fn spec_from_bytes(data: Seq<u8>) -> Option<F32Bits> {
        Some(F32Bits(le_value_4(data) as u32))
    }

    fn from_bytes(data: &[u8]) -> (r: Option<F32Bits>) {
        Some(F32Bits(le_u32(data)))
    }
}

impl View for Magic {
    type V = Seq<u8>;

    open spec fn view(&self) -> Seq<u8> {
        self.0@
    }
}

impl PlainData for Magic {
    open spec fn spec_size_in_bytes() -> nat {
        4
    }

    fn size_in_bytes() -> (n: usize) {
        4
    }
    const TYPE_NAME: &'static str = "Magic";

    open spec fn spec_from_bytes(data: Seq<u8>) -> Option<Seq<u8>> {
        Some(data)
    }

    fn from_bytes(data: &[u8]) -> (r: Option<Magic>) {
        let m = Magic([data[0], data[1], data[2], data[3]]);
        assert(m.0@ =~= data@);
        Some(m)
    }
}


/// `after` is what remains of `before` once some prefix of it has been consumed.
pub open spec fn consumed_from(before: Seq<u8>, after: Seq<u8>) -> bool {
    &&& after.len() <= before.len()
    &&& after =~= before.skip(before.len() - after.len())
}

/// Consuming is transitive.
pub proof fn lemma_consumed_from_trans(a: Seq<u8>, b: Seq<u8>, c: Seq<u8>)
    requires
        consumed_from(a, b),
        consumed_from(b, c),
    ensures
        consumed_from(a, c),
{
    assert(c =~= a.skip(a.len() - c.len()));
}

/// The outcome of a decoding step: on success the decoded value's model and the remaining
/// bytes are those of the specification; on failure the error is the specified one. Either
/// way the stream has only moved forward.
pub open spec fn decode_outcome<T: View>(
    r: Result<T, DecodeError>,
    before: Seq<u8>,
    after: Seq<u8>,
    spec: Result<(T::V, Seq<u8>), DecodeErrorView>,
) -> bool {
    &&& consumed_from(before, after)
    &&& match spec {
        Ok((v, rest)) => r matches Ok(x) && x@ == v && after == rest,
        Err(e) => r matches Err(x) && x@ == e,
    }
}

/// Reading a [`PlainData`] from the front of the input.
pub open spec fn spec_read_data<T: PlainData>(input: Seq<u8>) -> Result<(T::V, Seq<u8>), DecodeErrorView> {
    if input.len() < T::spec_size_in_bytes() {
        Err(DecodeErrorView::IncompleteData(T::TYPE_NAME@))
    } else {
        match T::spec_from_bytes(input.take(T::spec_size_in_bytes() as int)) {
            Some(v) => Ok((v, input.skip(T::spec_size_in_bytes() as int))),
            None => Err(DecodeErrorView::InvalidData(T::TYPE_NAME@)),
        }
    }
}

/// The error reported for a byte string that is not valid UTF-8: the decoded valid prefix,
/// and the invalid sequence that follows it.
pub open spec fn spec_utf8_error(bytes: Seq<u8>) -> DecodeErrorView {
    let n = valid_up_to(bytes);
    let k = match utf8_error_len(bytes) {
        Some(l) => l as int,
        None => 0,
    };
    DecodeErrorView::DecodeUtf8Error {
        valid_prefix: decode_utf8(bytes.take(n)),
        invalid_bytes: bytes.subrange(n, n + k),
    }
}

/// Decoding a UTF-8 string from a byte string.
pub open spec fn spec_utf8(bytes: Seq<u8>) -> Result<Seq<char>, DecodeErrorView> {
    if valid_utf8(bytes) {
        Ok(decode_utf8(bytes))
    } else {
        Err(spec_utf8_error(bytes))
    }
}

/// Reading a length `n` (as `u32`), then a UTF-8 string of `n` bytes.
pub open spec fn spec_read_string(input: Seq<u8>) -> Result<(Seq<char>, Seq<u8>), DecodeErrorView> {
    match spec_read_data::<u32>(input) {
        Err(e) => Err(e),
        Ok((n, rest)) => if rest.len() < n {
            Err(DecodeErrorView::IncompleteData("String"@))
        } else {
            match spec_utf8(rest.take(n as int)) {
                Ok(s) => Ok((s, rest.skip(n as int))),
                Err(e) => Err(e),
            }
        },
    }
}

/// Reading a 32-bit magic and comparing it to the expected one.
pub open spec fn spec_check_magic(input: Seq<u8>, magic: u32) -> Result<((), Seq<u8>), DecodeErrorView> {
    match spec_read_data::<Magic>(input) {
        Err(e) => Err(e),
        Ok((found, rest)) => if found == le_bytes_u32(magic) {
            Ok(((), rest))
        } else {
            Err(DecodeErrorView::MagicMismatch { real_bytes: found, expected_magic: le_bytes_u32(magic) })
        },
    }
}

/// Reading `n` raw bytes; a shortage is reported as incomplete data named `what`.
pub open spec fn spec_read_bytes(input: Seq<u8>, n: nat, what: Seq<char>) -> Result<(Seq<u8>, Seq<u8>), DecodeErrorView> {
    if input.len() < n {
        Err(DecodeErrorView::IncompleteData(what))
    } else {
        Ok((input.take(n as int), input.skip(n as int)))
    }
}

/// Dropping `n` bytes of padding.
pub open spec fn spec_drop_padding(input: Seq<u8>, n: nat) -> Result<((), Seq<u8>), DecodeErrorView> {
    if input.len() < n {
        Err(DecodeErrorView::IncompleteData("padding"@))
    } else {
        Ok(((), input.skip(n as int)))
    }
}

/// Converts a failed UTF-8 decoding into a [`DecodeError`]: the valid prefix is kept as a
/// string, and the bytes of the invalid sequence are reported.
pub fn utf8_error(bytes: Vec<u8>, failure: Utf8Failure) -> (e: DecodeError)
    requires
        failure.valid_up_to < bytes@.len(),
        crate::text::is_valid_up_to(bytes@, failure.valid_up_to as int),
        failure.error_len == utf8_error_len(bytes@),
        failure.error_len matches Some(l) ==> failure.valid_up_to + l <= bytes@.len(),
    ensures
        e@ == spec_utf8_error(bytes@),
{
    proof {
        lemma_valid_up_to_unique(bytes@, failure.valid_up_to as int);
    }
    let n: usize = failure.valid_up_to;
    let k: usize = match failure.error_len {
        Some(l) => l,
        None => 0,
    };
    let len: usize = bytes.len();
    assert(n + k <= len);
    let invalid_bytes = vstd::slice::slice_to_vec(
        vstd::slice::slice_subrange(bytes.as_slice(), n, n + k),
    );
    let mut prefix = bytes;
    prefix.truncate(n);
    assert(prefix@ =~= bytes@.take(n as int));
    match string_from_utf8(prefix) {
        Ok(valid_prefix) => DecodeError::DecodeUtf8Error { valid_prefix, invalid_bytes },
        Err(_) => {
            assert(false);
            DecodeError::InvalidData("String")
        },
    }
}

/// Decoding a byte buffer as a UTF-8 string.
pub fn decode_utf8_string(bytes: Vec<u8>) -> (r: Result<String, DecodeError>)
    ensures
        match spec_utf8(bytes@) {
            Ok(s) => r matches Ok(x) && x@ == s,
            Err(e) => r matches Err(x) && x@ == e,
        },
{
    let ghost input = bytes@;
    let copy = bytes.clone();
    assert(copy@ =~= input);
    match string_from_utf8(bytes) {
        Ok(s) => Ok(s),
        Err(failure) => Err(utf8_error(copy, failure)),
    }
}

/// Stream decoding API: a cursor over a byte buffer.
pub struct Stream {
    data: Vec<u8>,
    pos: usize,
}

impl Stream {
    #[verifier::type_invariant]
    spec fn inv(self) -> bool {
        self.pos <= self.data@.len()
    }
}

impl View for Stream {
    type V = Seq<u8>;

    /// The bytes not yet consumed.
    closed spec fn view(&self) -> Seq<u8> {
        self.data@.skip(self.pos as int)
    }
}

impl Stream {
    /// A stream over the given bytes, positioned at the start.
    pub fn new(data: Vec<u8>) -> (s: Stream)
        ensures
            s@ == data@,
    {
        let s = Stream { data, pos: 0 };
        assert(s.data@.skip(0) =~= s.data@);
        s
    }

    /// Number of bytes not yet consumed.
    pub fn remaining_len(&self) -> (n: usize)
        ensures
            n == self@.len(),
    {
        proof {
            use_type_invariant(self);
        }
        self.data.len() - self.pos
    }

    /// The bytes not yet consumed, as a buffer.
    pub fn remaining_bytes(&self) -> (v: Vec<u8>)
        ensures
            v@ == self@,
    {
        proof {
            use_type_invariant(self);
        }
        let v = vstd::slice::slice_to_vec(
            vstd::slice::slice_subrange(self.data.as_slice(), self.pos, self.data.len()),
        );
        assert(v@ =~= self@);
        v
    }

    /// Consume `n` bytes if that many remain; otherwise consume nothing.
    fn take_bytes(&mut self, n: usize) -> (r: Option<Vec<u8>>)
        ensures
            old(self)@.len() >= n ==> (r matches Some(v) && v@ == old(self)@.take(n as int)
                && final(self)@ == old(self)@.skip(n as int)),
            old(self)@.len() < n ==> r is None && final(self)@ == old(self)@,
    {
        proof {
            use_type_invariant(&*self);
        }
        if self.data.len() - self.pos < n {
            return None;
        }
        let v = vstd::slice::slice_to_vec(
            vstd::slice::slice_subrange(self.data.as_slice(), self.pos, self.pos + n),
        );
        let ghost before = self@;
        self.pos = self.pos + n;
        assert(v@ =~= before.take(n as int));
        assert(self@ =~= before.skip(n as int));
        Some(v)
    }

    /// Read exactly `n` raw bytes; a shortage is reported as incomplete data named `what`.
    pub fn read_bytes(&mut self, n: usize, what: &'static str) -> (r: Result<Vec<u8>, DecodeError>)
        ensures
            decode_outcome(r, old(self)@, final(self)@, spec_read_bytes(old(self)@, n as nat, what@)),
    {
        match self.take_bytes(n) {
            Some(v) => Ok(v),
            None => {
                assert(self@ =~= self@.skip(0));
                Err(DecodeError::IncompleteData(what))
            },
        }
    }

    /// Decode a [`PlainData`] at the start of this stream.
    pub fn read_data<T: PlainData>(&mut self) -> (r: Result<T, DecodeError>)
        ensures
            decode_outcome(r, old(self)@, final(self)@, spec_read_data::<T>(old(self)@)),
            old(self)@.len() >= T::spec_size_in_bytes() ==> final(self)@ == old(self)@.skip(
                T::spec_size_in_bytes() as int,
            ),
    {
        proof {
            use_type_invariant(&*self);
        }
        let n: usize = T::size_in_bytes();
        if self.data.len() - self.pos < n {
            assert(self@ =~= self@.skip(0));
            return Err(DecodeError::IncompleteData(T::TYPE_NAME));
        }
        let bytes = vstd::slice::slice_subrange(self.data.as_slice(), self.pos, self.pos + n);
        assert(bytes@ =~= self@.take(n as int));
        let ghost before = self@;
        self.pos = self.pos + n;
        assert(self@ =~= before.skip(n as int));
        match T::from_bytes(bytes) {
            Some(v) => Ok(v),
            None => Err(DecodeError::InvalidData(T::TYPE_NAME)),
        }
    }

    /// Decode a length `n`, and then a string of length `n`.
    pub fn read_string(&mut self) -> (r: Result<String, DecodeError>)
        ensures
            decode_outcome(r, old(self)@, final(self)@, spec_read_string(old(self)@)),
    {
        let ghost s0 = self@;
        let n = self.read_data::<u32>()?;
        let ghost s1 = self@;
        match self.take_bytes(n as usize) {
            None => {
                proof {
                    lemma_consumed_from_trans(s0, s1, self@);
                }
                Err(DecodeError::IncompleteData("String"))
            },
            Some(bytes) => {
                proof {
                    lemma_consumed_from_trans(s0, s1, self@);
                }
                decode_utf8_string(bytes)
            },
        }
    }

    /// Decode and assert a 32bit magic.
    pub fn check_magic(&mut self, magic: u32) -> (r: Result<(), DecodeError>)
        ensures
            decode_outcome(r, old(self)@, final(self)@, spec_check_magic(old(self)@, magic)),
            old(self)@.len() >= 4 ==> final(self)@ == old(self)@.skip(4),
    {
        let expected = Magic::from_u32(magic);
        let val = self.read_data::<Magic>()?;
        if val.same_as(&expected) {
            Ok(())
        } else {
            Err(DecodeError::MagicMismatch { real_bytes: val, expected_magic: expected })
        }
    }

    /// Drop some information we possibly do not understand yet.
    pub fn drop_padding(&mut self, hint: &str, n: usize) -> (r: Result<(), DecodeError>)
        ensures
            decode_outcome(r, old(self)@, final(self)@, spec_drop_padding(old(self)@, n as nat)),
    {
        match self.take_bytes(n) {
            Some(_) => Ok(()),
            None => {
                assert(self@ =~= self@.skip(0));
                Err(DecodeError::IncompleteData("padding"))
            },
        }
    }
}


/// Interface for named arguments in a [`Decode`].
pub trait NamedArgs {
    /// Builder type for the arguments.
    type ArgsBuilder;
    /// Create a new argument builder.
    fn args_builder() -> Self::ArgsBuilder;
}

/// Trivial [`NamedArgs::ArgsBuilder`].
#[derive(Debug, Copy, Clone)]
pub struct NoArgs;

impl NoArgs {
    /// Finish building the arguments, which is nothing here.
    pub fn finish(self) {
    }
}

impl<T: PlainData> NamedArgs for T {
    type ArgsBuilder = NoArgs;

    fn args_builder() -> NoArgs {
        NoArgs
    }
}

/// Common entry for decoding binary data.
pub trait Decode<Args>: Sized + View {
    /// What decoding from the given bytes with the given arguments yields: the model of the
    /// decoded value and the remaining bytes, or the error.
    spec fn spec_decode_with(input: Seq<u8>, args: Args) -> Result<(Self::V, Seq<u8>), DecodeErrorView>;

    /// Decode complex data at current position in the [`Stream`].
    fn decode_with(s: &mut Stream, args: Args) -> (r: Result<Self, DecodeError>)
        ensures
            decode_outcome(r, old(s)@, final(s)@, Self::spec_decode_with(old(s)@, args)),
    ;
}

impl<T: PlainData> Decode<()> for T {
    open spec fn spec_decode_with(input: Seq<u8>, args: ()) -> Result<(T::V, Seq<u8>), DecodeErrorView> {
        spec_read_data::<T>(input)
    }

    fn decode_with(s: &mut Stream, args: ()) -> (r: Result<T, DecodeError>) {
        s.read_data::<T>()
    }
}

/// Convenience methods for [`Decode`] without arguments.
pub trait DecodeExt: Decode<()> {
    /// Decode complex data at current position in the [`Stream`], with default arguments.
    fn decode(s: &mut Stream) -> (r: Result<Self, DecodeError>)
        ensures
            decode_outcome(r, old(s)@, final(s)@, Self::spec_decode_with(old(s)@, ())),
    {
        Self::decode_with(s, ())
    }
}

impl<T: Decode<()>> DecodeExt for T {
}

/// Models of the elements of a vector.
pub open spec fn views<T: View>(v: Seq<T>) -> Seq<T::V> {
    v.map_values(|x: T| x@)
}

/// Decoding `n` consecutive values, one after another.
pub open spec fn spec_read_n<T: Decode<()>>(input: Seq<u8>, n: nat) -> Result<(Seq<T::V>, Seq<u8>), DecodeErrorView>
    decreases n,
{
    if n == 0 {
        Ok((Seq::empty(), input))
    } else {
        match spec_read_n::<T>(input, (n - 1) as nat) {
            Err(e) => Err(e),
            Ok((vs, rest)) => match T::spec_decode_with(rest, ()) {
                Err(e) => Err(e),
                Ok((v, rest2)) => Ok((vs.push(v), rest2)),
            },
        }
    }
}

/// Decoding a length `n` (as `u32`), then `n` consecutive values.
pub open spec fn spec_read_array<T: Decode<()>>(input: Seq<u8>) -> Result<(Seq<T::V>, Seq<u8>), DecodeErrorView> {
    match spec_read_data::<u32>(input) {
        Err(e) => Err(e),
        Ok((n, rest)) => spec_read_n::<T>(rest, n as nat),
    }
}

impl Stream {
    /// Decode a series of `N` [`Decode`] at the start of this stream.
    pub fn read_n<T: Decode<()>>(&mut self, n: usize) -> (r: Result<Vec<T>, DecodeError>)
        ensures
            match spec_read_n::<T>(old(self)@, n as nat) {
                Ok((vs, rest)) => r matches Ok(v) && views(v@) == vs && final(self)@ == rest,
                Err(e) => r matches Err(x) && x@ == e,
            },
            consumed_from(old(self)@, final(self)@),
    {
        let ghost s0 = self@;
        let mut out: Vec<T> = Vec::new();
        let mut i: usize = 0;
        assert(views(out@) =~= Seq::<T::V>::empty());
        assert(s0 =~= s0.skip(0));
        while i < n
            invariant
                i <= n,
                s0 == old(self)@,
                spec_read_n::<T>(s0, i as nat) == Ok::<(Seq<T::V>, Seq<u8>), DecodeErrorView>((views(out@), self@)),
                consumed_from(s0, self@),
            decreases n - i,
        {
            let ghost before = self@;
            match T::decode_with(self, ()) {
                Ok(x) => {
                    let ghost prev = out@;
                    out.push(x);
                    assert(views(out@) =~= views(prev).push(x@));
                    proof {
                        lemma_consumed_from_trans(s0, before, self@);
                    }
                    i = i + 1;
                },
                Err(e) => {
                    proof {
                        lemma_consumed_from_trans(s0, before, self@);
                        assert(T::spec_decode_with(before, ()) is Err);
                        assert(spec_read_n::<T>(s0, (i + 1) as nat) == Err::<(Seq<T::V>, Seq<u8>), DecodeErrorView>(e@));
                        lemma_read_n_error_sticks::<T>(s0, (i + 1) as nat, n as nat);
                    }
                    return Err(e);
                },
            }
        }
        Ok(out)
    }

    /// Decode a length `n`, and an array of `n` [`Decode`] at the start of this stream.
    pub fn read_array<T: Decode<()>>(&mut self) -> (r: Result<Vec<T>, DecodeError>)
        ensures
            match spec_read_array::<T>(old(self)@) {
                Ok((vs, rest)) => r matches Ok(v) && views(v@) == vs && final(self)@ == rest,
                Err(e) => r matches Err(x) && x@ == e,
            },
            consumed_from(old(self)@, final(self)@),
    {
        let ghost s0 = self@;
        let length = self.read_data::<u32>()?;
        let ghost s1 = self@;
        let r = self.read_n::<T>(length as usize);
        proof {
            lemma_consumed_from_trans(s0, s1, self@);
        }
        r
    }
}

/// Reading `n` items successfully yields exactly `n` items.
pub proof fn lemma_read_n_len<T: Decode<()>>(input: Seq<u8>, n: nat)
    ensures
        spec_read_n::<T>(input, n) matches Ok((vs, _)) ==> vs.len() == n,
    decreases n,
{
    if n > 0 {
        lemma_read_n_len::<T>(input, (n - 1) as nat);
    }
}

/// Once decoding the first `k` values fails, decoding any more values fails the same way.
pub proof fn lemma_read_n_error_sticks<T: Decode<()>>(input: Seq<u8>, k: nat, n: nat)
    requires
        k <= n,
        spec_read_n::<T>(input, k) is Err,
    ensures
        spec_read_n::<T>(input, n) == spec_read_n::<T>(input, k),
    decreases n - k,
{
    if k < n {
        lemma_read_n_error_sticks::<T>(input, k, (n - 1) as nat);
    }
}

} // verus!
