//! The Windows backend: a target is reached through a process handle,
//! memory is read with `ReadProcessMemory`, and a module is found by going
//! through the target's loaded modules and their base names.
//!
//! The system calls themselves are the caller's; what they reported comes in
//! as plain values, and every decision on those values is taken here.

use crate::error::{deliver, delivered, honours_request, outcome, ErrorView, MemReaderError};
use crate::names::{c_string, decode_name, lowercase};
use crate::slice::MemorySlice;
use crate::ProvidesSlices;
use vstd::prelude::*;
use vstd::utf8::{decode_utf8, valid_utf8};

verus! {

/// A reader of the memory of one process, holding a handle on it.
pub struct MemReader {
    handle: usize,
}

/// What becomes of a read of `n` bytes, given what the system said of it:
/// whether it succeeded, which it reports as one, the number of bytes it
/// wrote, and the buffer it wrote them to. A read of no bytes succeeds
/// whatever the system said; a return value other than one fails any other
/// read; the rest is decided by the bytes that came.
pub open spec fn read_outcome(n: usize, success: i32, count: usize, buffer: Seq<u8>) -> Result<
    Seq<u8>,
    ErrorView,
> {
    if n == 0 {
        Ok(Seq::empty())
    } else if success != 1 {
        Err(ErrorView::UnsuccessfulRead(Some(success as isize)))
    } else {
        delivered(n, count, buffer)
    }
}

/// The module found, if any, where the lowercase forms of its base name and
/// of the name looked for are these: the two have to be equal.
pub open spec fn matched(module: usize, name_lowered: Seq<char>, wanted_lowered: Seq<char>) -> Option<
    usize,
> {
    if name_lowered == wanted_lowered {
        Some(module)
    } else {
        None
    }
}

/// The base address found in one module, if any, given its handle and the
/// buffer holding its base name: the module's handle, which is its load
/// address, if its name is UTF-8 and equals `wanted`, letter case aside.
pub open spec fn looked_up(module: usize, raw_name: Seq<u8>, wanted: Seq<char>) -> Option<usize> {
    if valid_utf8(c_string(raw_name)) {
        matched(module, lowercase(decode_utf8(c_string(raw_name))), lowercase(wanted))
    } else {
        None
    }
}

/// Module `i` of `modules` is the first whose name is `wanted`, and
/// `address` is where it is loaded.
pub open spec fn first_named(
    modules: Seq<(usize, Vec<u8>)>,
    wanted: Seq<char>,
    i: int,
    address: usize,
) -> bool {
    &&& 0 <= i < modules.len()
    &&& looked_up(modules[i].0, modules[i].1@, wanted) == Some(address)
    &&& forall|j: int|
        0 <= j < i ==> looked_up((#[trigger] modules[j]).0, modules[j].1@, wanted) is None
}

/// No module of `modules` is named `wanted`.
pub open spec fn none_named(modules: Seq<(usize, Vec<u8>)>, wanted: Seq<char>) -> bool {
    forall|i: int|
        0 <= i < modules.len() ==> looked_up((#[trigger] modules[i]).0, modules[i].1@, wanted) is None
}

/// `found` is what a search of `modules` for `wanted` comes to: the load
/// address of the first module so named, or nothing where none is.
pub open spec fn finds(modules: Seq<(usize, Vec<u8>)>, wanted: Seq<char>, found: Option<usize>) -> bool {
    match found {
        Some(address) => exists|i: int| first_named(modules, wanted, i, address),
        None => none_named(modules, wanted),
    }
}

impl MemReader {
    /// The handle on the target process, as an address.
    pub closed spec fn spec_handle(&self) -> usize {
        self.handle
    }

    /// Concludes the opening of the target process, given the `handle` that
    /// `OpenProcess` returned, as an address. A null handle is a failure to
    /// get a handle, for which the system gives no status.
    pub fn new(handle: usize) -> (r: Result<MemReader, MemReaderError>)
        ensures
            match r {
                Ok(reader) => handle != 0 && reader.handle() == handle,
                Err(e) => handle == 0 && e@ == ErrorView::Handle(None),
            },
    {
        if handle == 0 {
            return Err(MemReaderError::Handle(None));
        }
        Ok(MemReader { handle })
    }

    /// The handle on the target process, to hand to the system.
    #[verifier::when_used_as_spec(spec_handle)]
    pub fn handle(&self) -> (handle: usize)
        ensures
            handle == self.handle(),
    {
        self.handle
    }

    /// Concludes a read of `n` bytes, given what `ReadProcessMemory`
    /// reported: its return value `success`, the `count` of bytes it wrote,
    /// and the `buffer` it wrote them to. A read of no bytes always succeeds.
    /// Otherwise a return value other than one fails the read, and a count
    /// short of `n` yields the bytes that came, as an error.
    pub fn read_bytes(&self, n: usize, success: i32, count: usize, buffer: Vec<u8>) -> (r: Result<
        Vec<u8>,
        MemReaderError,
    >)
        ensures
            outcome(r) == read_outcome(n, success, count, buffer@),
            honours_request(n, outcome(r)),
            n == 0 ==> (r matches Ok(bytes) && bytes@.len() == 0),
    {
        if n == 0 {
            return Ok(Vec::new());
        }
        if success != 1 {
            return Err(MemReaderError::UnsuccessfulRead(Some(success as isize)));
        }
        deliver(n, count, buffer)
    }

    /// Takes in the return value of `K32EnumProcessModulesEx`: zero means
    /// that the target's modules could not be listed, which ends the search
    /// with that value as the status of an unsuccessful read. Where the
    /// listing succeeded, the base name of each module is to be looked up and
    /// the modules handed to [`base_address`](Self::base_address), in the
    /// order of the listing.
    pub fn listed(&self, listed: i32) -> (r: Result<(), MemReaderError>)
        ensures
            match r {
                Ok(_) => listed != 0,
                Err(e) => listed == 0 && e@ == ErrorView::UnsuccessfulRead(Some(0isize)),
            },
    {
        if listed == 0 {
            Err(MemReaderError::UnsuccessfulRead(Some(listed as isize)))
        } else {
            Ok(())
        }
    }

    /// Settles the search on `module`, given the lowercase forms of its base
    /// name and of the name looked for: the module is the one if the two are
    /// equal.
    pub fn conclude(&self, module: usize, name_lowered: &String, wanted_lowered: &String) -> (found:
        Option<usize>)
        ensures
            found == matched(module, name_lowered@, wanted_lowered@),
    {
        if *name_lowered == *wanted_lowered {
            Some(module)
        } else {
            None
        }
    }

    /// Whether `module` is the one named `process_name`, given the name
    /// buffer that `K32GetModuleBaseNameA` filled for it: its handle, which
    /// is its load address, if its base name equals `process_name`, letter
    /// case aside. A name that is not UTF-8 matches nothing.
    pub fn module_named(&self, process_name: &str, module: usize, raw_name: &[u8]) -> (r: Option<
        usize,
    >)
        ensures
            r == looked_up(module, raw_name@, process_name@),
    {
        let base_name = match decode_name(raw_name) {
            Ok(name) => name,
            Err(_) => {
                return None;
            },
        };
        let name_lowered = base_name.to_lowercase();
        let wanted_lowered = process_name.to_lowercase();
        self.conclude(module, &name_lowered, &wanted_lowered)
    }

    /// The load address of the first of `modules` that is named
    /// `process_name`, letter case aside, each module being given by its
    /// handle and the buffer holding its base name.
    pub fn find_module(&self, process_name: &str, modules: &[(usize, Vec<u8>)]) -> (r: Option<
        usize,
    >)
        ensures
            finds(modules@, process_name@, r),
    {
        let mut i: usize = 0;
        while i < modules.len()
            invariant
                i <= modules.len(),
                forall|j: int|
                    0 <= j < i ==> looked_up(
                        (#[trigger] modules@[j]).0,
                        modules@[j].1@,
                        process_name@,
                    ) is None,
            decreases modules.len() - i,
        {
            let found = self.module_named(process_name, modules[i].0, modules[i].1.as_slice());
            if let Some(address) = found {
                assert(first_named(modules@, process_name@, i as int, address));
                return Some(address);
            }
            i += 1;
        }
        None
    }

    /// The base address of the module named `process_name`, given the
    /// target's loaded `modules` in the order of their listing: the load
    /// address of the first whose base name equals `process_name`, letter
    /// case aside. Where no module bears the name the search is an
    /// unsuccessful read for which the system gave no status.
    pub fn base_address(&self, process_name: &str, modules: &[(usize, Vec<u8>)]) -> (r: Result<
        usize,
        MemReaderError,
    >)
        ensures
            match r {
                Ok(address) => finds(modules@, process_name@, Some(address)),
                Err(e) => finds(modules@, process_name@, None) && e@
                    == ErrorView::UnsuccessfulRead(None),
            },
    {
        match self.find_module(process_name, modules) {
            Some(address) => Ok(address),
            None => Err(MemReaderError::UnsuccessfulRead(None)),
        }
    }
}

/// The letter case of the wanted name does not matter beyond its lowercase
/// form: two wanted names with the same lowercase form find the same in
/// every module.
pub proof fn lemma_case_of_wanted(
    module: usize,
    raw_name: Seq<u8>,
    first: Seq<char>,
    second: Seq<char>,
)
    requires
        lowercase(first) == lowercase(second),
    ensures
        looked_up(module, raw_name, first) == looked_up(module, raw_name, second),
{
}

impl ProvidesSlices for MemReader {
    fn address_slice(&self, start: usize, end: usize) -> (slice: MemorySlice<'_, Self>) {
        MemorySlice::new(self, start, end)
    }

    fn address_slice_len(&self, start: usize, n: usize) -> (slice: MemorySlice<'_, Self>) {
        MemorySlice::new(self, start, start + n)
    }
}

} // verus!
