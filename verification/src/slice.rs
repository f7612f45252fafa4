//! A bounded, forward-only stream over a range of addresses of one reader.
//!
//! A stream read is a decision, a read of the target's memory, and a copy.
//! The slice takes the decision and makes the copy; the read in between is
//! the caller's, who asks [`MemorySlice::request`] what to fetch and hands
//! the result to [`MemorySlice::read`].

use crate::error::{error_viewed, outcome, ErrorView, MemReaderError};
use vstd::prelude::*;

verus! {

/// The mathematical content of a [`MemorySlice`]: the bounds of the range,
/// and the address at which the next read starts.
pub struct SliceView {
    pub start: nat,
    pub end: nat,
    pub cursor: nat,
}

impl SliceView {
    /// A stream over `[start, end)` from which nothing has been read.
    pub open spec fn fresh(start: nat, end: nat) -> SliceView {
        SliceView { start, end, cursor: start }
    }

    /// A read of `len` bytes would go past the end of the range.
    pub open spec fn at_end(self, len: nat) -> bool {
        self.cursor + len > self.end
    }

    /// The stream with its cursor moved on by `len`.
    pub open spec fn advanced(self, len: nat) -> SliceView {
        SliceView { cursor: self.cursor + len, ..self }
    }

    /// What a read of `len` bytes has to fetch from the reader, as an
    /// address and a length: nothing where it would go past the end.
    pub open spec fn request(self, len: nat) -> Option<(nat, nat)> {
        if self.at_end(len) {
            None
        } else {
            Some((self.cursor, len))
        }
    }

    /// The count that a read of `len` bytes reports when the reader handed
    /// back `fetched`: zero at the end of the stream, whatever was fetched;
    /// otherwise the number of bytes that came, or the reader's error.
    pub open spec fn reported(self, len: nat, fetched: Result<Seq<u8>, ErrorView>) -> Result<
        usize,
        ErrorView,
    > {
        if self.at_end(len) {
            Ok(0)
        } else {
            match fetched {
                Ok(bytes) => Ok(bytes.len() as usize),
                Err(e) => Err(e),
            }
        }
    }

    /// The stream after such a read: moved on by the length asked for, not
    /// by the number of bytes that came, and left alone at the end of the
    /// stream and on an error.
    pub open spec fn after_read(self, len: nat, fetched: Result<Seq<u8>, ErrorView>) -> SliceView {
        if self.at_end(len) || fetched is Err {
            self
        } else {
            self.advanced(len)
        }
    }

    /// The caller's buffer after such a read: the bytes that came, then what
    /// the buffer held before.
    pub open spec fn filled(self, buf: Seq<u8>, fetched: Result<Seq<u8>, ErrorView>) -> Seq<u8> {
        if self.at_end(buf.len()) {
            buf
        } else {
            match fetched {
                Ok(bytes) => bytes + buf.skip(bytes.len() as int),
                Err(_) => buf,
            }
        }
    }

    /// The cursor is where reads can have left it: never before the start,
    /// and past the end only if the start is.
    pub open spec fn in_bounds(self) -> bool {
        self.start <= self.cursor && (self.cursor <= self.end || self.cursor == self.start)
    }

    /// The stream after one read of `len` bytes for each entry of `fetches`,
    /// in their order, each entry being what the reader handed back to that
    /// read.
    pub open spec fn after_reads(
        self,
        len: nat,
        fetches: Seq<Result<Seq<u8>, ErrorView>>,
    ) -> SliceView
        decreases fetches.len(),
    {
        if fetches.len() == 0 {
            self
        } else {
            self.after_reads(len, fetches.drop_last()).after_read(len, fetches.last())
        }
    }
}

/// `fetched` is a successful read of exactly `len` bytes.
pub open spec fn is_full(len: nat, fetched: Result<Seq<u8>, ErrorView>) -> bool {
    match fetched {
        Ok(bytes) => bytes.len() == len,
        Err(_) => false,
    }
}

/// Every entry of `fetches` is a successful read of exactly `len` bytes.
pub open spec fn all_full(len: nat, fetches: Seq<Result<Seq<u8>, ErrorView>>) -> bool {
    forall|i: int| 0 <= i < fetches.len() ==> is_full(len, #[trigger] fetches[i])
}

/// A read never moves the cursor back, and never moves it past the end of a
/// range whose start is not past its end.
pub proof fn lemma_read_keeps_bounds(s: SliceView, len: nat, fetched: Result<Seq<u8>, ErrorView>)
    requires
        s.in_bounds(),
    ensures
        s.after_read(len, fetched).in_bounds(),
        s.after_read(len, fetched).cursor >= s.cursor,
        s.after_read(len, fetched).start == s.start,
        s.after_read(len, fetched).end == s.end,
        s.start <= s.end ==> s.after_read(len, fetched).cursor <= s.end,
{
}

/// A read that would go past the end of the range reports zero bytes,
/// fetches nothing and moves nothing, however many bytes short of a full
/// buffer are left. So the first read of a stream into a buffer longer than
/// its range already reports the end of the stream.
pub proof fn lemma_straddling_read_is_empty(
    s: SliceView,
    len: nat,
    fetched: Result<Seq<u8>, ErrorView>,
)
    requires
        s.cursor + len > s.end,
    ensures
        s.request(len) is None,
        s.reported(len, fetched) == Ok::<usize, ErrorView>(0),
        s.after_read(len, fetched) == s,
{
}

/// Where `k` divides the length of the range, `count` full reads of `k`
/// bytes leave the cursor `count` chunks on, up to the number of chunks in
/// the range and no further.
pub proof fn lemma_cursor_after_full_reads(
    start: nat,
    end: nat,
    k: nat,
    fetches: Seq<Result<Seq<u8>, ErrorView>>,
)
    requires
        start <= end,
        k > 0,
        (end - start) % (k as int) == 0,
        all_full(k, fetches),
    ensures
        SliceView::fresh(start, end).after_reads(k, fetches) == (SliceView {
            start,
            end,
            cursor: if fetches.len() <= (end - start) / (k as int) {
                start + fetches.len() * k
            } else {
                end
            },
        }),
    decreases fetches.len(),
{
    let chunks = (end - start) / (k as int);
    assert(end - start == chunks * k) by (nonlinear_arith)
        requires
            k > 0,
            (end - start) % (k as int) == 0,
            chunks == (end - start) / (k as int),
    ;
    if fetches.len() > 0 {
        let before = fetches.drop_last();
        assert(all_full(k, before));
        lemma_cursor_after_full_reads(start, end, k, before);
        let m = before.len();
        if m < chunks {
            assert(start + m * k + k <= end) by (nonlinear_arith)
                requires
                    m + 1 <= chunks,
                    end - start == chunks * k,
                    k > 0,
            ;
            assert((m + 1) * k == m * k + k) by (nonlinear_arith);
        }
    }
}

/// Reading a fresh stream over `[start, end)` in chunks of `k` bytes, where
/// `k` divides `end - start` and no read of the reader fails or falls short:
/// the first `(end - start) / k` reads report `k` bytes each, and every read
/// after them reports the end of the stream.
pub proof fn lemma_even_chunks(
    start: nat,
    end: nat,
    k: nat,
    fetches: Seq<Result<Seq<u8>, ErrorView>>,
    i: int,
)
    requires
        start <= end,
        0 < k <= usize::MAX,
        (end - start) % (k as int) == 0,
        all_full(k, fetches),
        0 <= i < fetches.len(),
    ensures
        SliceView::fresh(start, end).after_reads(k, fetches.take(i)).reported(k, fetches[i]) == (
        if i < (end - start) / (k as int) {
            Ok::<usize, ErrorView>(k as usize)
        } else {
            Ok::<usize, ErrorView>(0)
        }),
{
    let chunks = (end - start) / (k as int);
    let before = fetches.take(i);
    assert(all_full(k, before));
    lemma_cursor_after_full_reads(start, end, k, before);
    assert(end - start == chunks * k) by (nonlinear_arith)
        requires
            k > 0,
            (end - start) % (k as int) == 0,
            chunks == (end - start) / (k as int),
    ;
    if i < chunks {
        assert(start + i * k + k <= end) by (nonlinear_arith)
            requires
                i + 1 <= chunks,
                end - start == chunks * k,
                k > 0,
        ;
    }
}

/// A stream of the bytes between two addresses of a reader's target.
pub struct MemorySlice<'a, R> {
    start: usize,
    end: usize,
    reader: &'a R,
    mark: usize,
}

impl<'a, R> View for MemorySlice<'a, R> {
    type V = SliceView;

    closed spec fn view(&self) -> SliceView {
        SliceView { start: self.start as nat, end: self.end as nat, cursor: self.mark as nat }
    }
}

impl<'a, R> MemorySlice<'a, R> {
    #[verifier::type_invariant]
    spec fn cursor_in_bounds(&self) -> bool {
        self@.in_bounds()
    }

    /// The reader whose target this slice streams.
    pub closed spec fn spec_reader(&self) -> &'a R {
        self.reader
    }

    /// A stream over the addresses from `start` up to, not including, `end`
    /// of the target of `reader`. Where `start` is past `end` every read
    /// reports the end of the stream.
    pub fn new(reader: &'a R, start: usize, end: usize) -> (slice: Self)
        ensures
            slice@ == SliceView::fresh(start as nat, end as nat),
            slice.reader() == reader,
    {
        MemorySlice { start, end, reader, mark: start }
    }

    /// The start address of this slice.
    pub fn start(&self) -> (start: usize)
        ensures
            start == self@.start,
    {
        self.start
    }

    /// The end address of this slice.
    pub fn end(&self) -> (end: usize)
        ensures
            end == self@.end,
    {
        self.end
    }

    /// The reader whose target this slice streams.
    #[verifier::when_used_as_spec(spec_reader)]
    pub fn reader(&self) -> (reader: &'a R)
        ensures
            reader == self.reader(),
    {
        self.reader
    }

    /// What a read into a buffer of `len` bytes has to fetch from the reader
    /// first: an address and a length, or nothing where the read would go
    /// past the end of the slice, and so reports the end of the stream
    /// without reading.
    pub fn request(&self, len: usize) -> (r: Option<(usize, usize)>)
        ensures
            self@.in_bounds(),
            match r {
                Some((address, n)) => self@.request(len as nat) == Some((address as nat, n as nat)),
                None => self@.request(len as nat) is None,
            },
    {
        proof {
            use_type_invariant(self);
        }
        if self.mark > self.end || len > self.end - self.mark {
            None
        } else {
            Some((self.mark, len))
        }
    }

    /// Reads into `buf`, given as `fetched` what the reader handed back for
    /// the [`request`](Self::request) of a buffer of this length.
    ///
    /// Where the read would go past the end of the slice it reports zero
    /// bytes and touches nothing, even if fewer bytes than `buf` holds are
    /// left. Otherwise an error of the reader is handed on, and bytes of the
    /// reader are copied to the front of `buf`, their number is reported, and
    /// the cursor moves on by the length of `buf`, however many bytes came.
    pub fn read(&mut self, buf: &mut [u8], fetched: Result<Vec<u8>, MemReaderError>) -> (r: Result<
        usize,
        MemReaderError,
    >)
        requires
            !old(self)@.at_end(old(buf)@.len()) ==> (fetched matches Ok(bytes) ==> bytes.len()
                <= old(buf)@.len()),
        ensures
            error_viewed(r) == old(self)@.reported(old(buf)@.len(), outcome(fetched)),
            final(self)@ == old(self)@.after_read(old(buf)@.len(), outcome(fetched)),
            final(buf)@ == old(self)@.filled(old(buf)@, outcome(fetched)),
            final(self).reader() == old(self).reader(),
            final(self)@.in_bounds(),
    {
        proof {
            use_type_invariant(&*self);
        }
        let len = buf.len();
        if self.mark > self.end || len > self.end - self.mark {
            return Ok(0);
        }
        let bytes = match fetched {
            Ok(bytes) => bytes,
            Err(e) => {
                return Err(e);
            },
        };
        self.mark = self.mark + len;
        let count = bytes.len();
        let mut i: usize = 0;
        while i < count
            invariant
                i <= count,
                count == bytes.len(),
                count <= buf@.len(),
                buf@.len() == old(buf)@.len(),
                forall|j: int| 0 <= j < i ==> buf@[j] == bytes@[j],
                forall|j: int| i <= j < buf@.len() ==> buf@[j] == old(buf)@[j],
            decreases count - i,
        {
            buf[i] = bytes[i];
            i += 1;
        }
        assert(buf@ =~= bytes@ + old(buf)@.skip(bytes@.len() as int));
        Ok(count)
    }
}

} // verus!
