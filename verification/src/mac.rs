//! The macOS backend: a target is reached through its Mach task, memory is
//! read with one overwrite-style region read, and a module is found by
//! walking the target's memory map region by region.
//!
//! The kernel calls themselves are the caller's; what they reported comes in
//! as plain values, and every decision on those values is taken here.

use crate::error::{
    deliver, delivered, error_viewed, honours_request, outcome, ErrorView, MemReaderError,
};
use crate::names::{c_string, contains, decode_name, lowercase, occurs_in};
use crate::slice::MemorySlice;
use crate::ProvidesSlices;
use vstd::prelude::*;
use vstd::utf8::{decode_utf8, valid_utf8};

verus! {

/// A reader of the memory of one process, holding the name of its task.
pub struct MemReader {
    pid: u32,
    task: u32,
}

/// What becomes of a read of `n` bytes, given what the kernel said of the
/// region read: its status, the number of bytes it wrote, and the buffer it
/// wrote them to. A read of no bytes succeeds whatever the kernel said; a
/// status other than zero fails any other read; the rest is decided by the
/// bytes that came.
pub open spec fn read_outcome(n: usize, status: i32, count: usize, buffer: Seq<u8>) -> Result<
    Seq<u8>,
    ErrorView,
> {
    if n == 0 {
        Ok(Seq::empty())
    } else if status != 0 {
        Err(ErrorView::UnsuccessfulRead(Some(status as isize)))
    } else {
        delivered(n, count, buffer)
    }
}

impl MemReader {
    /// The id of the target process.
    pub closed spec fn spec_pid(&self) -> u32 {
        self.pid
    }

    /// The name of the target's task in this process.
    pub closed spec fn spec_task(&self) -> u32 {
        self.task
    }

    /// Concludes the acquisition of the task of process `pid`, given the
    /// `status` that `task_for_pid` returned and the `task` name it wrote.
    /// Any status but zero is a failure to get a handle, and is passed on.
    pub fn new(pid: u32, status: i32, task: u32) -> (r: Result<MemReader, MemReaderError>)
        ensures
            match r {
                Ok(reader) => status == 0 && reader.pid() == pid && reader.task() == task,
                Err(e) => status != 0 && e@ == ErrorView::Handle(Some(status as isize)),
            },
    {
        if status != 0 {
            return Err(MemReaderError::Handle(Some(status as isize)));
        }
        Ok(MemReader { pid, task })
    }

    /// The id of the target process.
    #[verifier::when_used_as_spec(spec_pid)]
    pub fn pid(&self) -> (pid: u32)
        ensures
            pid == self.pid(),
    {
        self.pid
    }

    /// The name of the target's task, to hand to the kernel.
    #[verifier::when_used_as_spec(spec_task)]
    pub fn task(&self) -> (task: u32)
        ensures
            task == self.task(),
    {
        self.task
    }

    /// Concludes a read of `n` bytes, given what `vm_read_overwrite` reported:
    /// its `status`, the `count` of bytes it wrote, and the `buffer` it wrote
    /// them to. A read of no bytes always succeeds. Otherwise a status other
    /// than zero fails the read, and a count short of `n` yields the bytes
    /// that came, as an error.
    pub fn read_bytes(&self, n: usize, status: i32, count: usize, buffer: Vec<u8>) -> (r: Result<
        Vec<u8>,
        MemReaderError,
    >)
        ensures
            outcome(r) == read_outcome(n, status, count, buffer@),
            honours_request(n, outcome(r)),
            n == 0 ==> (r matches Ok(bytes) && bytes@.len() == 0),
    {
        if n == 0 {
            return Ok(Vec::new());
        }
        if status != 0 {
            return Err(MemReaderError::UnsuccessfulRead(Some(status as isize)));
        }
        deliver(n, count, buffer)
    }
}

impl ProvidesSlices for MemReader {
    fn address_slice(&self, start: usize, end: usize) -> (slice: MemorySlice<'_, Self>) {
        MemorySlice::new(self, start, end)
    }

    fn address_slice_len(&self, start: usize, n: usize) -> (slice: MemorySlice<'_, Self>) {
        MemorySlice::new(self, start, start + n)
    }
}

/// What one call of `mach_vm_region_recurse` reported: its status and, where
/// that is zero, the region it found at or after the address asked for, the
/// nesting depth it found it at, and whether the region is itself a map.
pub struct RegionReport {
    pub status: i32,
    pub address: u64,
    pub size: u64,
    pub depth: u32,
    pub is_submap: u32,
}

/// What the walk does after an enumeration that succeeded.
#[derive(Debug, PartialEq, Eq, Structural)]
pub enum ScanStep {
    /// The region is a nested map: enumerate again at the same address, one
    /// level deeper.
    Descend,
    /// The region is mapped memory and starts at this address: look up the
    /// file behind the address, then call [`RegionScan::named`].
    Lookup(u64),
}

/// The walk over a target's memory map in search of a module: where the
/// next enumeration starts, how deep it looks, and where the mapped region
/// that it stepped over last starts.
pub struct RegionScan {
    depth: u32,
    address: u64,
    region: u64,
}

/// What the walk does with an enumeration report: a status other than zero
/// ends it, a nested map is entered, and mapped memory is looked up by the
/// address at which it starts.
pub open spec fn stepped(report: RegionReport) -> Result<ScanStep, ErrorView> {
    if report.status != 0 {
        Err(ErrorView::UnsuccessfulRead(Some(report.status as isize)))
    } else if report.is_submap > 0 {
        Ok(ScanStep::Descend)
    } else {
        Ok(ScanStep::Lookup(report.address))
    }
}

/// The address found, if any, in a region that starts at `address`, where
/// the lowercase forms of the name of its file and of the name looked for are
/// these: the region's own address, if the wanted name occurs in the file
/// name. The address is given in the width of this machine's addresses.
pub open spec fn matched(address: u64, name_lowered: Seq<char>, wanted_lowered: Seq<char>) -> Option<
    usize,
> {
    if occurs_in(wanted_lowered, name_lowered) {
        Some(address as usize)
    } else {
        None
    }
}

/// What the walk does with the name buffer of the file behind the region
/// that starts at `address`: a name that is not UTF-8 ends it with an error,
/// a name that holds `wanted`, letter case aside, ends it with `address`, and
/// any other lets it go on.
pub open spec fn looked_up(address: u64, raw_name: Seq<u8>, wanted: Seq<char>) -> Result<
    Option<usize>,
    ErrorView,
> {
    if valid_utf8(c_string(raw_name)) {
        Ok(matched(address, lowercase(decode_utf8(c_string(raw_name))), lowercase(wanted)))
    } else {
        Err(ErrorView::CString)
    }
}

impl RegionScan {
    /// The address at which the next enumeration starts.
    pub closed spec fn spec_address(&self) -> u64 {
        self.address
    }

    /// The nesting depth at which the next enumeration looks.
    pub closed spec fn spec_depth(&self) -> u32 {
        self.depth
    }

    /// The start of the mapped region that the walk stepped over last; zero
    /// before the first.
    pub closed spec fn spec_region(&self) -> u64 {
        self.region
    }

    /// A walk at its start: address zero, nesting depth one.
    pub fn new() -> (scan: RegionScan)
        ensures
            scan.address() == 0,
            scan.depth() == 1,
            scan.region() == 0,
    {
        RegionScan { depth: 1, address: 0, region: 0 }
    }

    /// The start of the mapped region that the walk stepped over last.
    #[verifier::when_used_as_spec(spec_region)]
    pub fn region(&self) -> (region: u64)
        ensures
            region == self.region(),
    {
        self.region
    }

    /// The address at which the next enumeration starts.
    #[verifier::when_used_as_spec(spec_address)]
    pub fn address(&self) -> (address: u64)
        ensures
            address == self.address(),
    {
        self.address
    }

    /// The nesting depth at which the next enumeration looks.
    #[verifier::when_used_as_spec(spec_depth)]
    pub fn depth(&self) -> (depth: u32)
        ensures
            depth == self.depth(),
    {
        self.depth
    }

    /// Takes in what an enumeration reported. A status other than zero ends
    /// the walk, the end of the map included, which the kernel reports in
    /// that way. A nested map is entered without moving on. Mapped memory is
    /// the region to look up, by its own address, and the next enumeration
    /// starts behind it.
    pub fn enumerated(&mut self, report: &RegionReport) -> (r: Result<ScanStep, MemReaderError>)
        requires
            report.status == 0 && report.is_submap > 0 ==> report.depth < u32::MAX,
            report.status == 0 && report.is_submap == 0 ==> report.address + report.size
                <= u64::MAX,
        ensures
            error_viewed(r) == stepped(*report),
            match r {
                Err(_) => *final(self) == *old(self),
                Ok(ScanStep::Descend) => {
                    &&& final(self).address() == report.address
                    &&& final(self).depth() == report.depth + 1
                    &&& final(self).region() == old(self).region()
                },
                Ok(ScanStep::Lookup(address)) => {
                    &&& final(self).address() == report.address + report.size
                    &&& final(self).depth() == report.depth
                    &&& final(self).region() == address
                },
            },
    {
        if report.status != 0 {
            return Err(MemReaderError::UnsuccessfulRead(Some(report.status as isize)));
        }
        if report.is_submap > 0 {
            self.address = report.address;
            self.depth = report.depth + 1;
            Ok(ScanStep::Descend)
        } else {
            self.address = report.address + report.size;
            self.depth = report.depth;
            self.region = report.address;
            Ok(ScanStep::Lookup(report.address))
        }
    }

    /// Settles the walk on the region it has just stepped over, given the
    /// lowercase forms of the name of the file behind it and of the name
    /// looked for: the walk has found its module, at the start of that
    /// region, if the second occurs in the first.
    pub fn conclude(&self, name_lowered: &str, wanted_lowered: &str) -> (found: Option<usize>)
        ensures
            found == matched(self.region(), name_lowered@, wanted_lowered@),
    {
        if contains(name_lowered, wanted_lowered) {
            Some(#[verifier::truncate] (self.region as usize))
        } else {
            None
        }
    }

    /// Takes in the name buffer that `proc_regionfilename` filled for the
    /// address of the last [`ScanStep::Lookup`], the start of a region. The
    /// walk ends with that address if the name holds `wanted`, letter case
    /// aside, and with an error if the name is not UTF-8; otherwise it goes
    /// on.
    pub fn named(&self, raw_name: &[u8], wanted: &str) -> (r: Result<Option<usize>, MemReaderError>)
        ensures
            error_viewed(r) == looked_up(self.region(), raw_name@, wanted@),
    {
        let name = match decode_name(raw_name) {
            Ok(name) => name,
            Err(e) => {
                return Err(e);
            },
        };
        let name_lowered = name.to_lowercase();
        let wanted_lowered = wanted.to_lowercase();
        Ok(self.conclude(name_lowered.as_str(), wanted_lowered.as_str()))
    }
}

/// One turn of the walk, as the system answered it: the report of the
/// enumeration, and the name buffer of the file behind the region it found
/// (read only where the region is mapped memory).
pub struct Turn {
    pub report: RegionReport,
    pub raw_name: Seq<u8>,
}

/// How a turn ends the walk, if it does: with the error of either step, or
/// with the address whose file bears the wanted name.
pub open spec fn settles(turn: Turn, wanted: Seq<char>) -> Option<Result<usize, ErrorView>> {
    match stepped(turn.report) {
        Err(e) => Some(Err(e)),
        Ok(ScanStep::Descend) => None,
        Ok(ScanStep::Lookup(address)) => match looked_up(address, turn.raw_name, wanted) {
            Err(e) => Some(Err(e)),
            Ok(Some(found)) => Some(Ok(found)),
            Ok(None) => None,
        },
    }
}

/// The result of a walk that takes `turns` in their order and stops at the
/// first that settles it; none while no turn has.
pub open spec fn walk(turns: Seq<Turn>, wanted: Seq<char>) -> Option<Result<usize, ErrorView>>
    decreases turns.len(),
{
    if turns.len() == 0 {
        None
    } else if settles(turns.first(), wanted) is Some {
        settles(turns.first(), wanted)
    } else {
        walk(turns.drop_first(), wanted)
    }
}

/// The region of a turn is mapped memory, and the name of the file behind
/// it holds `wanted`, letter case aside.
pub open spec fn bears_name(turn: Turn, wanted: Seq<char>) -> bool {
    &&& turn.report.status == 0
    &&& turn.report.is_submap == 0
    &&& valid_utf8(c_string(turn.raw_name))
    &&& occurs_in(lowercase(wanted), lowercase(decode_utf8(c_string(turn.raw_name))))
}

/// Turn `i` is the first of `turns` to settle the walk, and settles it with
/// `result`.
pub open spec fn settled_at(
    turns: Seq<Turn>,
    wanted: Seq<char>,
    i: int,
    result: Result<usize, ErrorView>,
) -> bool {
    &&& 0 <= i < turns.len()
    &&& settles(turns[i], wanted) == Some(result)
    &&& forall|j: int| 0 <= j < i ==> settles(#[trigger] turns[j], wanted) is None
}

/// A turn settles the walk with an address exactly when its region bears
/// the wanted name, and the address is that of the region itself.
pub proof fn lemma_found_bears_name(turn: Turn, wanted: Seq<char>)
    ensures
        settles(turn, wanted) matches Some(Ok(found)) ==> bears_name(turn, wanted) && found
            == turn.report.address as usize,
        bears_name(turn, wanted) ==> settles(turn, wanted) == Some(
            Ok::<usize, ErrorView>(turn.report.address as usize),
        ),
{
}

/// A turn neither fails nor stops the walk short of a later match: its
/// enumeration succeeded and, where it found mapped memory, the name of the
/// file behind it is UTF-8.
pub open spec fn passes(turn: Turn) -> bool {
    &&& turn.report.status == 0
    &&& turn.report.is_submap == 0 ==> valid_utf8(c_string(turn.raw_name))
}

/// While a region of the map bears the wanted name and nothing fails before
/// it, the walk succeeds, with the address of the first such region: the
/// failure that ends the map is never its result.
pub proof fn lemma_match_is_found(turns: Seq<Turn>, wanted: Seq<char>, i: int)
    requires
        0 <= i < turns.len(),
        bears_name(turns[i], wanted),
        forall|j: int| 0 <= j < i ==> passes(#[trigger] turns[j]),
    ensures
        exists|k: int|
            0 <= k <= i && bears_name(turns[k], wanted) && walk(turns, wanted) == Some(
                Ok::<usize, ErrorView>(turns[k].report.address as usize),
            ) && forall|j: int| 0 <= j < k ==> !bears_name(#[trigger] turns[j], wanted),
    decreases turns.len(),
{
    lemma_found_bears_name(turns[0], wanted);
    if bears_name(turns[0], wanted) {
        assert(walk(turns, wanted) == settles(turns.first(), wanted));
    } else {
        let rest = turns.drop_first();
        assert(passes(turns[0]));
        assert(rest[i - 1] == turns[i]);
        assert forall|j: int| 0 <= j < i - 1 implies passes(#[trigger] rest[j]) by {
            assert(rest[j] == turns[j + 1]);
        }
        lemma_match_is_found(rest, wanted, i - 1);
        let k = choose|k: int|
            0 <= k <= i - 1 && bears_name(rest[k], wanted) && walk(rest, wanted) == Some(
                Ok::<usize, ErrorView>(rest[k].report.address as usize),
            ) && forall|j: int| 0 <= j < k ==> !bears_name(#[trigger] rest[j], wanted);
        assert(rest[k] == turns[k + 1]);
        assert forall|j: int| 0 <= j < k + 1 implies !bears_name(#[trigger] turns[j], wanted) by {
            if j > 0 {
                assert(turns[j] == rest[j - 1]);
            }
        }
    }
}

/// The letter case of the wanted name does not matter beyond its lowercase
/// form: two wanted names with the same lowercase form end every walk alike.
pub proof fn lemma_case_of_wanted(turns: Seq<Turn>, first: Seq<char>, second: Seq<char>)
    requires
        lowercase(first) == lowercase(second),
    ensures
        walk(turns, first) == walk(turns, second),
    decreases turns.len(),
{
    if turns.len() > 0 {
        lemma_case_of_wanted(turns.drop_first(), first, second);
    }
}

/// The walk ends where the first turn that settles it ends it: with the
/// first region that bears the wanted name, unless an enumeration fails or a
/// name is not UTF-8 before one does. It has no result only while no turn
/// settles it.
pub proof fn lemma_walk_stops_at_first(turns: Seq<Turn>, wanted: Seq<char>)
    ensures
        match walk(turns, wanted) {
            Some(result) => exists|i: int| settled_at(turns, wanted, i, result),
            None => forall|i: int| 0 <= i < turns.len() ==> settles(#[trigger] turns[i], wanted) is None,
        },
    decreases turns.len(),
{
    if turns.len() == 0 {
    } else if settles(turns.first(), wanted) is Some {
        assert(settled_at(turns, wanted, 0, settles(turns.first(), wanted)->0));
    } else {
        let rest = turns.drop_first();
        lemma_walk_stops_at_first(rest, wanted);
        match walk(rest, wanted) {
            Some(result) => {
                let i = choose|i: int| settled_at(rest, wanted, i, result);
                assert forall|j: int| 0 <= j < i + 1 implies settles(
                    #[trigger] turns[j],
                    wanted,
                ) is None by {
                    if j > 0 {
                        assert(turns[j] == rest[j - 1]);
                    }
                }
                assert(settled_at(turns, wanted, i + 1, result));
            },
            None => {
                assert forall|i: int| 0 <= i < turns.len() implies settles(
                    #[trigger] turns[i],
                    wanted,
                ) is None by {
                    if i > 0 {
                        assert(turns[i] == rest[i - 1]);
                    }
                }
            },
        }
    }
}

} // verus!
