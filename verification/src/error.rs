//! The failure kinds shared by every backend and by the stream layer.

use vstd::prelude::*;

verus! {

/// `std::io::Error`, carried through untouched: nothing in this crate looks
/// inside one.
#[verifier::external_type_specification]
#[verifier::external_body]
pub struct ExIoError(std::io::Error);

/// An error when reading the memory of another process.
#[derive(Debug)]
pub enum MemReaderError {
    /// Fewer bytes were read from memory than were requested.
    ///
    /// Contains the number of bytes read and the shortened buffer.
    FewerBytesRead(usize, Vec<u8>),
    /// The attempt to read the memory was unsuccessful.
    ///
    /// If the system call gave a status, it is included.
    UnsuccessfulRead(Option<isize>),
    /// Unable to get a handle on the process to read.
    ///
    /// If the system call gave a status, it is included.
    Handle(Option<isize>),
    /// An I/O error occurred and is included.
    Io(std::io::Error),
    /// Another error, represented by a code.
    Other(isize),
    /// The name of a mapped file was not valid UTF-8.
    CString,
}

/// The mathematical content of a [`MemReaderError`]: the same alternatives,
/// with the short buffer as a sequence of bytes.
pub enum ErrorView {
    FewerBytesRead(usize, Seq<u8>),
    UnsuccessfulRead(Option<isize>),
    Handle(Option<isize>),
    Io(std::io::Error),
    Other(isize),
    CString,
}

impl View for MemReaderError {
    type V = ErrorView;

    open spec fn view(&self) -> ErrorView {
        match self {
            MemReaderError::FewerBytesRead(count, bytes) => ErrorView::FewerBytesRead(
                *count,
                bytes@,
            ),
            MemReaderError::UnsuccessfulRead(status) => ErrorView::UnsuccessfulRead(*status),
            MemReaderError::Handle(status) => ErrorView::Handle(*status),
            MemReaderError::Io(error) => ErrorView::Io(*error),
            MemReaderError::Other(code) => ErrorView::Other(*code),
            MemReaderError::CString => ErrorView::CString,
        }
    }
}

/// A result with its error replaced by the error's view.
pub open spec fn error_viewed<T>(r: Result<T, MemReaderError>) -> Result<T, ErrorView> {
    match r {
        Ok(value) => Ok(value),
        Err(e) => Err(e@),
    }
}

/// The mathematical content of what a read handed back.
pub open spec fn outcome(r: Result<Vec<u8>, MemReaderError>) -> Result<Seq<u8>, ErrorView> {
    match r {
        Ok(bytes) => Ok(bytes@),
        Err(e) => Err(e@),
    }
}

/// What every backend owes the caller of a read of `n` bytes: success means
/// all `n` bytes, and a short count is reported as
/// [`MemReaderError::FewerBytesRead`] with exactly the bytes that came.
pub open spec fn honours_request(n: usize, r: Result<Seq<u8>, ErrorView>) -> bool {
    match r {
        Ok(bytes) => bytes.len() == n,
        Err(ErrorView::FewerBytesRead(count, bytes)) => count < n && bytes.len() == count,
        Err(_) => true,
    }
}

/// What a buffer that the system was to fill with `n` bytes amounts to, the
/// system having counted `count` bytes written: the bytes that came are the
/// first `count` of the buffer, or all of it if it holds fewer. Fewer than
/// `n` of them are a short read, which carries them; otherwise the read
/// succeeds with the first `n`.
pub open spec fn delivered(n: usize, count: usize, buffer: Seq<u8>) -> Result<Seq<u8>, ErrorView> {
    let came = if count <= buffer.len() {
        count
    } else {
        buffer.len() as usize
    };
    if came < n {
        Err(ErrorView::FewerBytesRead(came, buffer.take(came as int)))
    } else {
        Ok(buffer.take(n as int))
    }
}

/// Settles a read of `n` bytes for which the system counted `count` bytes
/// written to `buffer`: all `n` bytes, or the bytes that came as a short
/// read. Whatever the system reported, the caller gets `n` bytes or an error.
pub fn deliver(n: usize, count: usize, buffer: Vec<u8>) -> (r: Result<Vec<u8>, MemReaderError>)
    ensures
        outcome(r) == delivered(n, count, buffer@),
        honours_request(n, outcome(r)),
{
    let mut bytes = buffer;
    let came = if count <= bytes.len() {
        count
    } else {
        bytes.len()
    };
    if came < n {
        bytes.truncate(came);
        Err(MemReaderError::FewerBytesRead(came, bytes))
    } else {
        bytes.truncate(n);
        Ok(bytes)
    }
}

impl MemReaderError {
    /// A short description of the error: always empty.
    pub fn description(&self) -> (text: &'static str)
        ensures
            text@ == Seq::<char>::empty(),
    {
        let text = "";
        proof {
            reveal_strlit("");
        }
        text
    }
}

} // verus!
