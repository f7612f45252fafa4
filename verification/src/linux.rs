//! The Linux backend: a target is reached through its memory pseudo-file,
//! opened once to see that it can be, and then afresh for every read, so
//! the reader holds no more than the process id.
//!
//! Opening, seeking and reading the file are the caller's; which file it is,
//! and what becomes of the result, is decided here.

use crate::error::{deliver, delivered, honours_request, outcome, ErrorView, MemReaderError};
use crate::slice::MemorySlice;
use crate::ProvidesSlices;
use vstd::prelude::*;

verus! {

/// A reader of the memory of one process.
pub struct MemReader {
    pid: u32,
}

/// The character that stands for the digit `d`.
pub open spec fn digit(d: nat) -> char
    recommends
        d < 10,
{
    (d + 48) as char
}

/// The decimal numeral of `n`, without leading zeros.
pub open spec fn decimal(n: nat) -> Seq<char>
    decreases n,
{
    if n < 10 {
        seq![digit(n)]
    } else {
        decimal(n / 10).push(digit(n % 10))
    }
}

/// The path of the memory pseudo-file of process `pid`.
pub open spec fn memory_path(pid: u32) -> Seq<char> {
    "/proc/"@ + decimal(pid as nat) + "/mem"@
}

/// What becomes of a read of `n` bytes, given what came of opening the
/// memory file, seeking in it and reading from it. A read of no bytes
/// succeeds whatever came; an I/O error fails any other read, wrapped; the
/// rest is decided by the bytes that came.
pub open spec fn read_outcome(n: usize, fetched: Result<Vec<u8>, std::io::Error>) -> Result<
    Seq<u8>,
    ErrorView,
> {
    if n == 0 {
        Ok(Seq::empty())
    } else {
        match fetched {
            Ok(bytes) => delivered(n, bytes.len(), bytes@),
            Err(e) => Err(ErrorView::Io(e)),
        }
    }
}

/// The status that a failure to open the memory file is reported with: the
/// system's error code, where it gave one.
pub open spec fn open_status(code: Option<i32>) -> Option<isize> {
    match code {
        Some(code) => Some(code as isize),
        None => None,
    }
}

/// The characters of the digits of `low`, from its last to its first.
pub open spec fn high_first(low: Seq<u32>) -> Seq<char> {
    Seq::new(low.len(), |i: int| digit(low[low.len() - 1 - i] as nat))
}

/// The one-character text of a digit.
fn digit_text(d: u32) -> (text: &'static str)
    requires
        d < 10,
    ensures
        text@ == seq![digit(d as nat)],
{
    proof {
        reveal_strlit("0");
        reveal_strlit("1");
        reveal_strlit("2");
        reveal_strlit("3");
        reveal_strlit("4");
        reveal_strlit("5");
        reveal_strlit("6");
        reveal_strlit("7");
        reveal_strlit("8");
        reveal_strlit("9");
    }
    if d == 0 {
        "0"
    } else if d == 1 {
        "1"
    } else if d == 2 {
        "2"
    } else if d == 3 {
        "3"
    } else if d == 4 {
        "4"
    } else if d == 5 {
        "5"
    } else if d == 6 {
        "6"
    } else if d == 7 {
        "7"
    } else if d == 8 {
        "8"
    } else {
        "9"
    }
}

impl MemReader {
    /// The id of the target process.
    pub closed spec fn spec_pid(&self) -> u32 {
        self.pid
    }

    /// Concludes the acquisition of process `pid`, given what came of
    /// opening its memory file once, as a probe: nothing, or the failure with
    /// the system's error code, where it gave one. A target whose memory
    /// file cannot be opened, because there is no such process or because it
    /// may not be read, is a failure to get a handle.
    pub fn new(pid: u32, opened: Result<(), Option<i32>>) -> (r: Result<MemReader, MemReaderError>)
        ensures
            match r {
                Ok(reader) => opened is Ok && reader.pid() == pid,
                Err(e) => opened matches Err(code) && e@ == ErrorView::Handle(open_status(code)),
            },
    {
        match opened {
            Ok(_) => Ok(MemReader { pid }),
            Err(Some(code)) => Err(MemReaderError::Handle(Some(code as isize))),
            Err(None) => Err(MemReaderError::Handle(None)),
        }
    }

    /// The id of the target process.
    #[verifier::when_used_as_spec(spec_pid)]
    pub fn pid(&self) -> (pid: u32)
        ensures
            pid == self.pid(),
    {
        self.pid
    }

    /// The path of the target's memory pseudo-file: `/proc/<pid>/mem`.
    pub fn memory_path(&self) -> (path: String)
        ensures
            path@ == memory_path(self.pid()),
    {
        MemReader::path_for(self.pid)
    }

    /// The path of the memory pseudo-file of process `pid`, to open before
    /// there is a reader of it.
    pub fn path_for(pid: u32) -> (path: String)
        ensures
            path@ == memory_path(pid),
    {
        let mut low: Vec<u32> = Vec::new();
        let mut rest: u32 = pid;
        while rest >= 10
            invariant
                forall|i: int| 0 <= i < low.len() ==> low[i] < 10,
                decimal(pid as nat) == decimal(rest as nat) + high_first(low@),
            decreases rest,
        {
            low.push(rest % 10);
            rest = rest / 10;
        }
        let mut path = String::from_str("/proc/");
        path.append(digit_text(rest));
        let mut k: usize = low.len();
        while k > 0
            invariant
                k <= low.len(),
                forall|i: int| 0 <= i < low.len() ==> low[i] < 10,
                path@ == "/proc/"@ + decimal(rest as nat) + high_first(low@).take(low.len() - k),
            decreases k,
        {
            k -= 1;
            path.append(digit_text(low[k]));
        }
        path.append("/mem");
        path
    }

    /// Concludes a read of `n` bytes, given what came of opening the memory
    /// file, seeking to the address and reading exactly `n` bytes: the
    /// bytes, or the I/O error of the step that failed, which is wrapped. A
    /// read of no bytes always succeeds.
    pub fn read_bytes(&self, n: usize, fetched: Result<Vec<u8>, std::io::Error>) -> (r: Result<
        Vec<u8>,
        MemReaderError,
    >)
        ensures
            outcome(r) == read_outcome(n, fetched),
            honours_request(n, outcome(r)),
            n == 0 ==> (r matches Ok(bytes) && bytes@.len() == 0),
    {
        if n == 0 {
            return Ok(Vec::new());
        }
        match fetched {
            Ok(bytes) => {
                let count = bytes.len();
                deliver(n, count, bytes)
            },
            Err(e) => Err(MemReaderError::Io(e)),
        }
    }
}

impl ProvidesSlices for MemReader {
    fn address_slice(&self, start: usize, end: usize) -> (slice: MemorySlice<'_, Self>) {
        MemorySlice::new(self, start, end)
    }

    fn address_slice_len(&self, start: usize, n: usize) -> (slice: MemorySlice<'_, Self>) {
        MemorySlice::new(self, start, start + n)
    }
}

} // verus!
