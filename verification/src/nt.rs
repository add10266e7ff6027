//! Native-API request codes and parameter blocks, and NTSTATUS interpretation.

use vstd::prelude::*;
use crate::text::string_push;

verus! {

/// `SYSTEM_INFORMATION_CLASS` values used by the cleanup steps.
#[derive(Clone, Copy, Debug, PartialEq, Eq, Structural)]
pub enum InfoClass {
    FileCache,
    MemoryList,
    CombinePhysicalMemory,
}

impl InfoClass {
    pub fn code(self) -> (r: u32)
        ensures
            self is FileCache ==> r == 21,
            self is MemoryList ==> r == 80,
            self is CombinePhysicalMemory ==> r == 130,
    {
        match self {
            InfoClass::FileCache => 21,
            InfoClass::MemoryList => 80,
            InfoClass::CombinePhysicalMemory => 130,
        }
    }
}

/// `SYSTEM_MEMORY_LIST_COMMAND` values.
#[derive(Clone, Copy, Debug, PartialEq, Eq, Structural)]
pub enum SystemMemoryListCommand {
    EmptyWorkingSets,
    FlushModifiedList,
    PurgeStandbyList,
    PurgeLowPriorityStandbyList,
}

impl SystemMemoryListCommand {
    pub fn code(self) -> (r: u32)
        ensures
            self is EmptyWorkingSets ==> r == 2,
            self is FlushModifiedList ==> r == 3,
            self is PurgeStandbyList ==> r == 4,
            self is PurgeLowPriorityStandbyList ==> r == 5,
    {
        match self {
            SystemMemoryListCommand::EmptyWorkingSets => 2,
            SystemMemoryListCommand::FlushModifiedList => 3,
            SystemMemoryListCommand::PurgeStandbyList => 4,
            SystemMemoryListCommand::PurgeLowPriorityStandbyList => 5,
        }
    }
}

/// `SYSTEM_FILECACHE_INFORMATION` on 64-bit Windows.
#[derive(Clone, Copy, Debug, PartialEq, Eq, Structural)]
pub struct SystemFileCacheInformation64 {
    pub current_size: usize,
    pub peak_size: usize,
    pub page_fault_count: u32,
    pub pad: u32,
    pub minimum_working_set: usize,
    pub maximum_working_set: usize,
    pub current_size_in_pages: usize,
    pub peak_size_in_pages: usize,
    pub minimum_working_set_size: usize,
    pub maximum_working_set_size: usize,
    pub unused1: u32,
    pub unused2: u32,
    pub unused3: u32,
    pub unused4: u32,
}

impl SystemFileCacheInformation64 {
    /// The request that flushes the system file cache: both working-set
    /// limits at their maximum, every other field zero.
    pub fn flush_request() -> (r: Self)
        ensures
            r.minimum_working_set == usize::MAX,
            r.maximum_working_set == usize::MAX,
            r.current_size == 0 && r.peak_size == 0 && r.page_fault_count == 0 && r.pad == 0,
            r.current_size_in_pages == 0 && r.peak_size_in_pages == 0,
            r.minimum_working_set_size == 0 && r.maximum_working_set_size == 0,
            r.unused1 == 0 && r.unused2 == 0 && r.unused3 == 0 && r.unused4 == 0,
    {
        SystemFileCacheInformation64 {
            current_size: 0,
            peak_size: 0,
            page_fault_count: 0,
            pad: 0,
            minimum_working_set: usize::MAX,
            maximum_working_set: usize::MAX,
            current_size_in_pages: 0,
            peak_size_in_pages: 0,
            minimum_working_set_size: 0,
            maximum_working_set_size: 0,
            unused1: 0,
            unused2: 0,
            unused3: 0,
            unused4: 0,
        }
    }
}

/// `MEMORY_COMBINE_INFORMATION_EX`.
#[derive(Clone, Copy, Debug, PartialEq, Eq, Structural)]
pub struct MemoryCombineInformationEx {
    pub handle: usize,
    pub pages_combined: u32,
    pub flags: u32,
}

impl MemoryCombineInformationEx {
    /// The all-zero request that combines every eligible page.
    pub fn combine_all() -> (r: Self)
        ensures
            r.handle == 0 && r.pages_combined == 0 && r.flags == 0,
    {
        MemoryCombineInformationEx { handle: 0, pages_combined: 0, flags: 0 }
    }
}

pub open spec fn spec_hex_digit(d: nat) -> char {
    if d < 10 {
        (d + '0' as nat) as char
    } else {
        (d - 10 + 'A' as nat) as char
    }
}

/// Eight upper-case hex digits of `x`, zero-padded, as `format!("{x:08X}")` writes them.
pub open spec fn spec_hex8(x: u32) -> Seq<char> {
    Seq::new(8, |i: int| spec_hex_digit(((x as nat) / pow16((7 - i) as nat)) % 16))
}

pub open spec fn pow16(e: nat) -> nat
    decreases e,
{
    if e == 0 {
        1
    } else {
        16 * pow16((e - 1) as nat)
    }
}

fn hex_digit(d: u32) -> (r: char)
    requires
        d < 16,
    ensures
        r == spec_hex_digit(d as nat),
{
    if d < 10 {
        ((d + '0' as u32) as u8) as char
    } else {
        ((d - 10 + 'A' as u32) as u8) as char
    }
}

/// Append the eight hex digits of `x` to `s`.
pub fn push_hex8(s: &mut String, x: u32)
    ensures
        final(s)@ == old(s)@ + spec_hex8(x),
{
    let mut divisor: u32 = 0x1000_0000;
    let mut i: usize = 0;
    proof {
        reveal_with_fuel(pow16, 8);
    }
    assert(pow16(7) == 0x1000_0000);
    while i < 8
        invariant
            i <= 8,
            divisor as nat == pow16((7 - i) as nat) || i == 8,
            i < 8 ==> divisor >= 1,
            s@ == old(s)@ + spec_hex8(x).subrange(0, i as int),
        decreases 8 - i,
    {
        let d = (x / divisor) % 16;
        string_push(s, hex_digit(d));
        assert(spec_hex8(x)[i as int] == spec_hex_digit(d as nat));
        assert(spec_hex8(x).subrange(0, i + 1) =~= spec_hex8(x).subrange(0, i as int).push(
            spec_hex8(x)[i as int],
        ));
        if i < 7 {
            assert(pow16((7 - i) as nat) == 16 * pow16((7 - i - 1) as nat));
            divisor = divisor / 16;
        }
        i += 1;
    }
    assert(spec_hex8(x).subrange(0, 8) =~= spec_hex8(x));
}

/// `Ok` for a success or informational status (non-negative); otherwise the
/// error text `context: NTSTATUS 0xXXXXXXXX` with the status's 32 bits in hex.
pub fn nt_status_to_result(status: i32, context: &str) -> (r: Result<(), String>)
    ensures
        status >= 0 <==> r is Ok,
        r matches Err(msg) ==> msg@ == context@ + ": NTSTATUS 0x"@ + spec_hex8(status as u32),
{
    if status >= 0 {
        Ok(())
    } else {
        let mut msg = String::new();
        crate::text::push_str(&mut msg, context);
        crate::text::push_str(&mut msg, ": NTSTATUS 0x");
        push_hex8(&mut msg, status as u32);
        Err(msg)
    }
}

} // verus!
