//! Descriptors that a sandbox process inherits under fixed numbers.

use vstd::prelude::*;

verus! {

/// The fixed descriptor numbers of a sandbox process.
#[derive(Clone, Copy, Debug, PartialEq, Eq, Structural)]
pub struct ReservedFds {
    pub config_fd: i32,
    pub parent_watch_fd: i32,
    pub startup_fd: i32,
}

impl ReservedFds {
    /// Whether a number is one of the fixed ones.
    pub open spec fn holds(self, fd: i32) -> bool {
        fd == self.config_fd || fd == self.parent_watch_fd || fd == self.startup_fd
    }

    /// Whether the numbers differ and the startup number is the largest.
    pub open spec fn wf(self) -> bool {
        &&& self.config_fd != self.parent_watch_fd
        &&& self.config_fd < self.startup_fd
        &&& self.parent_watch_fd < self.startup_fd
    }
}

/// A descriptor and the number under which it is inherited.
#[derive(Clone, Copy, Debug, PartialEq, Eq, Structural)]
pub struct InheritedFdMapping {
    pub src: i32,
    pub dst: i32,
}

impl InheritedFdMapping {
    /// A descriptor and its number.
    pub fn new(src: i32, dst: i32) -> (r: Self)
        ensures
            r.src == src && r.dst == dst,
    {
        InheritedFdMapping { src, dst }
    }
}

/// Whether a descriptor sits on a fixed number that is not its own.
pub open spec fn is_in_the_way(reserved: ReservedFds, src: i32, dst: i32) -> bool {
    src != dst && reserved.holds(src)
}

/// Whether a descriptor has to move before any descriptor gets its number.
pub fn inherited_fd_source_needs_spare(reserved: ReservedFds, src: i32, dst: i32) -> (r: bool)
    ensures
        r == is_in_the_way(reserved, src, dst),
{
    src != dst && (src == reserved.config_fd || src == reserved.parent_watch_fd || src
        == reserved.startup_fd)
}

/// The number after `fd`, as far as there is one.
pub open spec fn next_number(fd: i32) -> i32 {
    if fd == i32::MAX {
        i32::MAX
    } else {
        (fd + 1) as i32
    }
}

/// Moves a descriptor that sits on another one's fixed number.
///
/// `duplicate` is where the operating system put the copy, at or above `next_spare_fd`; `None`
/// where it could not. It is asked for only where [`inherited_fd_source_needs_spare`] holds.
pub fn move_reserved_source_fd(
    reserved: ReservedFds,
    mapping: &mut InheritedFdMapping,
    next_spare_fd: &mut i32,
    duplicate: Option<i32>,
) -> (r: Result<(), ()>)
    ensures
        final(mapping).dst == old(mapping).dst,
        !is_in_the_way(reserved, old(mapping).src, old(mapping).dst) ==> r is Ok && *final(mapping)
            == *old(mapping) && *final(next_spare_fd) == *old(next_spare_fd),
        is_in_the_way(reserved, old(mapping).src, old(mapping).dst) ==> match duplicate {
            Some(spare) => r is Ok && final(mapping).src == spare && *final(next_spare_fd)
                == next_number(spare),
            None => r is Err && *final(mapping) == *old(mapping) && *final(next_spare_fd) == *old(
                next_spare_fd,
            ),
        },
{
    if !inherited_fd_source_needs_spare(reserved, mapping.src, mapping.dst) {
        return Ok(());
    }
    match duplicate {
        Some(spare) => {
            mapping.src = spare;
            *next_spare_fd = if spare == i32::MAX {
                i32::MAX
            } else {
                spare + 1
            };
            Ok(())
        },
        None => Err(()),
    }
}

/// Whether a descriptor is out of every other one's way.
pub open spec fn settled(reserved: ReservedFds, mapping: InheritedFdMapping) -> bool {
    !is_in_the_way(reserved, mapping.src, mapping.dst)
}

/// A descriptor that moved above the fixed numbers is out of the way.
pub proof fn moved_descriptors_are_settled(
    reserved: ReservedFds,
    mapping: InheritedFdMapping,
    spare: i32,
)
    requires
        reserved.wf(),
        spare > reserved.startup_fd,
    ensures
        settled(reserved, InheritedFdMapping { src: spare, dst: mapping.dst }),
{
}

/// Once every descriptor is out of the way, giving them their numbers one after the other never
/// overwrites one that is still to come.
pub proof fn no_source_is_overwritten(reserved: ReservedFds, mappings: Seq<InheritedFdMapping>)
    requires
        forall|i: int|
            0 <= i < mappings.len() ==> settled(reserved, #[trigger] mappings[i]) && reserved.holds(
                mappings[i].dst,
            ),
        forall|i: int, j: int|
            0 <= i < j < mappings.len() ==> (#[trigger] mappings[i]).dst != (
            #[trigger] mappings[j]).dst,
    ensures
        forall|i: int, j: int|
            0 <= i < j < mappings.len() ==> (#[trigger] mappings[i]).dst != (
            #[trigger] mappings[j]).src,
{
    assert forall|i: int, j: int| 0 <= i < j < mappings.len() implies (#[trigger] mappings[i]).dst
        != (#[trigger] mappings[j]).src by {
        assert(settled(reserved, mappings[j]));
        assert(reserved.holds(mappings[i].dst));
    }
}

// ------------------------------------------------------------------------------------------------
// Standard handles on Windows
// ------------------------------------------------------------------------------------------------

/// The handle value that stands for none.
pub const INVALID_HANDLE_VALUE: u64 = 0xffff_ffff_ffff_ffff;

/// The flag of a handle that started processes inherit.
pub const HANDLE_FLAG_INHERIT: u32 = 1;

/// A handle that was kept from being inherited, with the flags it had.
#[derive(Clone, Copy, Debug, PartialEq, Eq, Structural)]
pub struct HandleInheritState {
    pub handle: u64,
    pub flags: u32,
}

/// Whether a handle is among those that were dealt with.
pub open spec fn is_known(known: Seq<HandleInheritState>, handle: u64) -> bool {
    exists|i: int| 0 <= i < known.len() && (#[trigger] known[i]).handle == handle
}

/// Whether a standard handle has to be kept from a detached process: it is one, it was not dealt
/// with already, and it would be inherited. `flags` are `None` where they cannot be read.
pub fn must_sever(known: &Vec<HandleInheritState>, handle: u64, flags: Option<u32>) -> (r: bool)
    ensures
        r == (handle != 0 && handle != INVALID_HANDLE_VALUE && !is_known(known@, handle)
            && flags is Some && flags->0 & HANDLE_FLAG_INHERIT != 0),
{
    if handle == 0 || handle == INVALID_HANDLE_VALUE {
        return false;
    }
    let mut i: usize = 0;
    while i < known.len()
        invariant
            i <= known@.len(),
            forall|k: int| 0 <= k < i ==> (#[trigger] known@[k]).handle != handle,
        decreases known@.len() - i,
    {
        if known[i].handle == handle {
            assert(known@[i as int].handle == handle);
            return false;
        }
        i = i + 1;
    }
    match flags {
        Some(bits) => bits & HANDLE_FLAG_INHERIT != 0,
        None => false,
    }
}

/// What the handles get back once the process has started: the last one first.
pub fn restored_handles(states: &Vec<HandleInheritState>) -> (r: Vec<HandleInheritState>)
    ensures
        r@.len() == states@.len(),
        forall|i: int|
            0 <= i < r@.len() ==> {
                let state = states@[states@.len() - 1 - i];
                &&& (#[trigger] r@[i]).handle == state.handle
                &&& r@[i].flags == state.flags & HANDLE_FLAG_INHERIT
            },
{
    let mut out: Vec<HandleInheritState> = Vec::new();
    let mut left: usize = states.len();
    while left > 0
        invariant
            left <= states@.len(),
            out@.len() == states@.len() - left,
            forall|i: int|
                0 <= i < out@.len() ==> {
                    let state = states@[states@.len() - 1 - i];
                    &&& (#[trigger] out@[i]).handle == state.handle
                    &&& out@[i].flags == state.flags & HANDLE_FLAG_INHERIT
                },
        decreases left,
    {
        left = left - 1;
        let state = states[left];
        out.push(
            HandleInheritState { handle: state.handle, flags: state.flags & HANDLE_FLAG_INHERIT },
        );
    }
    out
}

/// A handle that was severed is inherited again once it is restored.
pub proof fn severed_handles_are_given_back(flags: u32)
    requires
        flags & HANDLE_FLAG_INHERIT != 0,
    ensures
        flags & HANDLE_FLAG_INHERIT == HANDLE_FLAG_INHERIT,
{
    assert(flags & 1 != 0 ==> flags & 1 == 1) by (bit_vector);
}

/// A descriptor is in the way exactly where it sits on one of the fixed numbers and that is not its
/// own.
pub proof fn only_reserved_numbers_are_in_the_way(reserved: ReservedFds, src: i32, dst: i32)
    ensures
        is_in_the_way(reserved, src, dst) <==> src != dst && (src == reserved.config_fd || src
            == reserved.parent_watch_fd || src == reserved.startup_fd),
        src < i32::MAX ==> next_number(src) == src + 1,
        next_number(src) >= src,
{
}

/// A handle that is not valid is the highest number there is, and whether one is inherited is the
/// lowest of its bits.
pub proof fn handles_have_their_marks()
    ensures
        INVALID_HANDLE_VALUE == u64::MAX,
        HANDLE_FLAG_INHERIT == 1,
{
}

} // verus!
