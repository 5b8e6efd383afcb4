//! Utilities for binary decoding.

use vstd::prelude::*;
use std::marker::PhantomData;
use crate::bits::{F32Bits, spec_greater_than_missing};
use crate::stream::{Decode, DecodeError, DecodeErrorView, NamedArgs, NoArgs, Stream, consumed_from, lemma_consumed_from_trans, spec_read_string, views};

verus! {

/// Position to seek to, relative to the start, the end, or the current position.
#[derive(Debug, Clone, Copy, PartialEq, Eq, Structural)]
pub enum SeekFrom {
    /// Absolute offset from the start of the stream.
    Start(u64),
    /// Offset from the end of the stream.
    End(i64),
    /// Offset from the current position.
    Current(i64),
}

/// Errors when reading from or seeking in a [`TrivialSeek`].
#[derive(Debug)]
pub enum SeekError {
    /// Seeking backward is not supported.
    Backward,
    /// Seeking from the end is not supported.
    FromEnd,
    /// A distance does not fit the platform's index type.
    IndexOutOfBound(u64),
    /// The stream ended before the requested bytes.
    Incomplete(DecodeError),
}

/// Convert a distance to an index, failing when it does not fit.
pub fn index(n: u64) -> (r: Result<usize, SeekError>)
    ensures
        n <= usize::MAX ==> r == Ok::<usize, SeekError>(n as usize),
        n > usize::MAX ==> (r matches Err(SeekError::IndexOutOfBound(m)) && m == n),
{
    if n <= usize::MAX as u64 {
        Ok(n as usize)
    } else {
        Err(SeekError::IndexOutOfBound(n))
    }
}

/// Advance `position` by the number of bytes a successful read reports.
pub fn update_position(result: Result<usize, SeekError>, position: &mut u64) -> (r: Result<usize, SeekError>)
    requires
        result matches Ok(n) ==> old(position) + n <= u64::MAX,
    ensures
        r == result,
        result matches Ok(n) ==> *final(position) == *old(position) + n,
        result is Err ==> *final(position) == *old(position),
{
    if let Ok(n) = result {
        *position = *position + n as u64;
    }
    result
}

/// Provides a trivial seek interface for a forward-only byte stream.
///
/// In contrast to a stream that cannot seek at all, this wrapper supports seeking forward by
/// reading and discarding the bytes in between. Backward seek returns an error.
pub struct TrivialSeek {
    inner: Stream,
    position: u64,
}

impl TrivialSeek {
    /// Well-formedness: the position plus the remaining length fits in `u64`.
    pub closed spec fn wf(self) -> bool {
        self.position + self.inner@.len() <= u64::MAX
    }

    /// Number of bytes consumed so far.
    pub closed spec fn spec_position(self) -> u64 {
        self.position
    }

    /// The bytes not yet consumed.
    pub closed spec fn spec_remaining(self) -> Seq<u8> {
        self.inner@
    }

    /// Wraps a stream and provides the seek interface.
    pub fn new(r: Stream) -> (s: TrivialSeek)
        ensures
            s.wf(),
            s.spec_position() == 0,
            s.spec_remaining() == r@,
    {
        let n: usize = r.remaining_len();
        assert(n <= u64::MAX);
        TrivialSeek { inner: r, position: 0 }
    }

    /// Current position in the stream.
    pub fn stream_position(&self) -> (p: u64)
        ensures
            p == self.spec_position(),
    {
        self.position
    }

    /// Read exactly `n` bytes, advancing the position by `n`.
    pub fn read_exact(&mut self, n: usize) -> (r: Result<Vec<u8>, SeekError>)
        requires
            old(self).wf(),
        ensures
            final(self).wf(),
            old(self).spec_remaining().len() >= n ==> (r matches Ok(v)
                && v@ == old(self).spec_remaining().take(n as int)
                && final(self).spec_remaining() == old(self).spec_remaining().skip(n as int)
                && final(self).spec_position() == old(self).spec_position() + n),
            old(self).spec_remaining().len() < n ==> (r matches Err(SeekError::Incomplete(e))
                && e@ == DecodeErrorView::IncompleteData("bytes"@)
                && final(self).spec_position() == old(self).spec_position()),
            consumed_from(old(self).spec_remaining(), final(self).spec_remaining()),
    {
        match self.inner.read_bytes(n, "bytes") {
            Ok(v) => {
                let r = update_position(Ok(n), &mut self.position);
                Ok(v)
            },
            Err(e) => Err(SeekError::Incomplete(e)),
        }
    }

    /// Skip `n` bytes forward, returning the new position.
    fn seek_forward(&mut self, n: usize) -> (r: Result<u64, SeekError>)
        requires
            old(self).wf(),
        ensures
            final(self).wf(),
            old(self).spec_remaining().len() >= n ==> (r == Ok::<u64, SeekError>(final(self).spec_position())
                && final(self).spec_remaining() == old(self).spec_remaining().skip(n as int)
                && final(self).spec_position() == old(self).spec_position() + n),
            old(self).spec_remaining().len() < n ==> (r matches Err(SeekError::Incomplete(e))
                && e@ == DecodeErrorView::IncompleteData("bytes"@)
                && final(self).spec_position() == old(self).spec_position()),
            consumed_from(old(self).spec_remaining(), final(self).spec_remaining()),
    {
        let _ = self.read_exact(n)?;
        Ok(self.position)
    }

    /// Seek to the target position, which must not lie before the current one.
    pub fn seek(&mut self, pos: SeekFrom) -> (r: Result<u64, SeekError>)
        requires
            old(self).wf(),
        ensures
            final(self).wf(),
            consumed_from(old(self).spec_remaining(), final(self).spec_remaining()),
            match pos {
                SeekFrom::Start(n) => if n == old(self).spec_position() {
                    r == Ok::<u64, SeekError>(n) && *final(self) == *old(self)
                } else if n > old(self).spec_position() {
                    seek_forward_outcome(r, *old(self), *final(self), (n - old(self).spec_position()) as u64)
                } else {
                    (r matches Err(SeekError::Backward)) && *final(self) == *old(self)
                },
                SeekFrom::Current(n) => if n == 0 {
                    r == Ok::<u64, SeekError>(old(self).spec_position()) && *final(self) == *old(self)
                } else if n > 0 {
                    seek_forward_outcome(r, *old(self), *final(self), n as u64)
                } else {
                    (r matches Err(SeekError::Backward)) && *final(self) == *old(self)
                },
                SeekFrom::End(_) => (r matches Err(SeekError::FromEnd)) && *final(self) == *old(self),
            },
    {
        match pos {
            SeekFrom::Start(n) => {
                if n == self.position {
                    Ok(n)
                } else if n > self.position {
                    let k = index(n - self.position)?;
                    self.seek_forward(k)
                } else {
                    Err(SeekError::Backward)
                }
            },
            SeekFrom::Current(n) => {
                if n == 0 {
                    Ok(self.position)
                } else if n > 0 {
                    let k = index(n as u64)?;
                    self.seek_forward(k)
                } else {
                    Err(SeekError::Backward)
                }
            },
            SeekFrom::End(_) => Err(SeekError::FromEnd),
        }
    }
}

/// What seeking `n` bytes forward does: past the end of the stream it fails; otherwise the
/// position grows by `n` and the bytes in between are gone.
pub open spec fn seek_forward_outcome(r: Result<u64, SeekError>, before: TrivialSeek, after: TrivialSeek, n: u64) -> bool {
    if n > usize::MAX {
        &&& r matches Err(SeekError::IndexOutOfBound(m)) && m == n
        &&& after == before
    } else if before.spec_remaining().len() >= n {
        &&& r == Ok::<u64, SeekError>(after.spec_position())
        &&& after.spec_position() == before.spec_position() + n
        &&& after.spec_remaining() == before.spec_remaining().skip(n as int)
    } else {
        &&& r matches Err(SeekError::Incomplete(e))
        &&& e@ == DecodeErrorView::IncompleteData("bytes"@)
        &&& after.spec_position() == before.spec_position()
    }
}

/// A vector decoded with a distinct argument for each element.
#[derive(Debug)]
pub struct ArgVec<T, A> {
    /// Contents, length determined from the number of input arguments.
    pub contents: Vec<T>,
    _input_marker: PhantomData<A>,
}

impl<T: View, A> View for ArgVec<T, A> {
    type V = Seq<T::V>;

    closed spec fn view(&self) -> Seq<T::V> {
        views(self.contents@)
    }
}

impl<T: View, A> ArgVec<T, A> {
    /// The decoded elements, in order.
    pub fn into_boxed_slice(self) -> (v: Vec<T>)
        ensures
            views(v@) == self@,
    {
        self.contents
    }
}

/// Decoding one value per argument, in order.
pub open spec fn spec_read_args<T: Decode<A>, A>(input: Seq<u8>, args: Seq<A>) -> Result<(Seq<T::V>, Seq<u8>), DecodeErrorView>
    decreases args.len(),
{
    if args.len() == 0 {
        Ok((Seq::empty(), input))
    } else {
        match spec_read_args::<T, A>(input, args.drop_last()) {
            Err(e) => Err(e),
            Ok((vs, rest)) => match T::spec_decode_with(rest, args.last()) {
                Err(e) => Err(e),
                Ok((v, rest2)) => Ok((vs.push(v), rest2)),
            },
        }
    }
}

/// Once decoding fails for a prefix of the arguments, it fails the same way for all of them.
pub proof fn lemma_read_args_error_sticks<T: Decode<A>, A>(input: Seq<u8>, args: Seq<A>, k: int)
    requires
        0 <= k <= args.len(),
        spec_read_args::<T, A>(input, args.take(k)) is Err,
    ensures
        spec_read_args::<T, A>(input, args) == spec_read_args::<T, A>(input, args.take(k)),
    decreases args.len() - k,
{
    if k < args.len() {
        assert(args.drop_last().take(k) =~= args.take(k));
        lemma_read_args_error_sticks::<T, A>(input, args.drop_last(), k);
        assert(args.take(args.len() as int) =~= args);
    } else {
        assert(args.take(k) =~= args);
    }
}

impl<T: Decode<A>, A: Copy> Decode<Vec<A>> for ArgVec<T, A> {
    open spec fn spec_decode_with(input: Seq<u8>, args: Vec<A>) -> Result<(Seq<T::V>, Seq<u8>), DecodeErrorView> {
        spec_read_args::<T, A>(input, args@)
    }

    fn decode_with(s: &mut Stream, args: Vec<A>) -> (r: Result<ArgVec<T, A>, DecodeError>) {
        let ghost s0 = s@;
        let mut contents: Vec<T> = Vec::new();
        let mut i: usize = 0;
        let n: usize = args.len();
        assert(views(contents@) =~= Seq::<T::V>::empty());
        assert(args@.take(0) =~= Seq::<A>::empty());
        assert(s0 =~= s0.skip(0));
        while i < n
            invariant
                i <= n,
                n == args@.len(),
                s0 == old(s)@,
                spec_read_args::<T, A>(s0, args@.take(i as int)) == Ok::<(Seq<T::V>, Seq<u8>), DecodeErrorView>((views(contents@), s@)),
                consumed_from(s0, s@),
            decreases n - i,
        {
            let ghost before = s@;
            assert(args@.take(i + 1).drop_last() =~= args@.take(i as int));
            match T::decode_with(s, args[i]) {
                Ok(x) => {
                    let ghost prev = contents@;
                    contents.push(x);
                    assert(views(contents@) =~= views(prev).push(x@));
                    proof {
                        lemma_consumed_from_trans(s0, before, s@);
                    }
                    i = i + 1;
                },
                Err(e) => {
                    proof {
                        lemma_consumed_from_trans(s0, before, s@);
                        lemma_read_args_error_sticks::<T, A>(s0, args@, (i + 1) as int);
                    }
                    return Err(e);
                },
            }
        }
        assert(args@.take(n as int) =~= args@);
        Ok(ArgVec { contents, _input_marker: PhantomData })
    }
}

/// String immediately following its length.
#[derive(Debug)]
pub struct LenString {
    /// Content of this string.
    pub content: String,
}

impl View for LenString {
    type V = Seq<char>;

    open spec fn view(&self) -> Seq<char> {
        self.content@
    }
}

impl LenString {
    /// The inner string.
    pub fn into_boxed_str(self) -> (s: String)
        ensures
            s == self.content,
    {
        self.content
    }
}

impl Decode<()> for LenString {
    open spec fn spec_decode_with(input: Seq<u8>, args: ()) -> Result<(Seq<char>, Seq<u8>), DecodeErrorView> {
        spec_read_string(input)
    }

    fn decode_with(s: &mut Stream, args: ()) -> (r: Result<LenString, DecodeError>) {
        let content = s.read_string()?;
        Ok(LenString { content })
    }
}

impl NamedArgs for LenString {
    type ArgsBuilder = NoArgs;

    fn args_builder() -> NoArgs {
        NoArgs
    }
}

/// The model of an optional `f32`: missing value represented as `-10000.0` (or below).
pub open spec fn spec_optional_f32(x: F32Bits) -> Option<F32Bits> {
    if spec_greater_than_missing(x.0) {
        Some(x)
    } else {
        None
    }
}

/// An optional `f32`. Missing value represented as `-10000.0`: present exactly when
/// `x > -10000.0`.
pub fn optional_f32(x: F32Bits) -> (r: Option<F32Bits>)
    ensures
        r == spec_optional_f32(x),
{
    if x.greater_than_missing() {
        Some(x)
    } else {
        None
    }
}

/// The model of an optional string: missing value represented as an empty string.
pub open spec fn spec_optional_string(s: Seq<char>) -> Option<Seq<char>> {
    if s.len() == 0 {
        None
    } else {
        Some(s)
    }
}

/// An optional `String`. Missing value represented as an empty string.
pub fn optional_string(s: LenString) -> (r: Option<String>)
    ensures
        s.content@.len() == 0 ==> r is None,
        s.content@.len() != 0 ==> r == Some(s.content),
{
    if s.content.as_str().is_empty() {
        None
    } else {
        Some(s.content)
    }
}

} // verus!
