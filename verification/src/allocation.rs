//! Where the room for growth comes from.
use vstd::prelude::*;

verus! {

/// Who decides whether there is room for growth.
#[derive(Clone, Copy, Debug, PartialEq, Eq, Structural)]
pub enum Memory {
    /// The allocator decides.
    Allocator,
    /// There is room.
    Granted,
    /// There is no room.
    Refused,
}

/// Makes room for `more` further elements, and says whether there is room. For none there always is.
pub fn reserve<T>(v: &mut Vec<T>, more: usize, memory: Memory) -> (r: bool)
    ensures
        final(v)@ == old(v)@,
        memory is Granted || more == 0 ==> r,
        memory is Refused && more > 0 ==> !r,
{
    if more == 0 {
        return true;
    }
    match memory {
        Memory::Allocator => v.try_reserve(more).is_ok(),
        Memory::Granted => true,
        Memory::Refused => false,
    }
}

} // verus!
