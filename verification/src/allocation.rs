//! A counter of the bytes that successful allocations asked for.

use vstd::prelude::*;

verus! {

/// What an allocation measurement has seen so far.
pub struct AllocationMeter {
    /// Whether allocations are counted at present.
    pub counting: bool,
    /// The bytes counted since the last start, modulo two to the power 64.
    pub bytes: u64,
}

impl AllocationMeter {
    /// A meter that counts nothing yet.
    pub fn new() -> (meter: Self)
        ensures
            !meter.counting,
            meter.bytes == 0,
    {
        AllocationMeter { counting: false, bytes: 0 }
    }
}

/// Notes one call of the allocator. `allocated` tells whether it gave memory:
/// a failed call is not counted, nor is any call while the meter is off.
pub fn record_allocation(meter: &mut AllocationMeter, allocated: bool, bytes: usize)
    ensures
        final(meter).counting == old(meter).counting,
        allocated && old(meter).counting ==> final(meter).bytes as int == (old(meter).bytes
            + bytes) % 0x1_0000_0000_0000_0000,
        !(allocated && old(meter).counting) ==> final(meter).bytes == old(meter).bytes,
{
    if allocated && meter.counting {
        meter.bytes = meter.bytes.wrapping_add(bytes as u64);
    }
}

/// Starts a measurement from zero.
pub fn begin_allocation_measurement(meter: &mut AllocationMeter)
    ensures
        final(meter).counting,
        final(meter).bytes == 0,
{
    meter.bytes = 0;
    meter.counting = true;
}

/// Ends the measurement and gives what it counted.
pub fn end_allocation_measurement(meter: &mut AllocationMeter) -> (bytes: u64)
    ensures
        !final(meter).counting,
        final(meter).bytes == old(meter).bytes,
        bytes == old(meter).bytes,
{
    meter.counting = false;
    meter.bytes
}

/// The meter's state after a list of allocator calls.
pub open spec fn after_calls(meter: AllocationMeter, calls: Seq<(bool, usize)>) -> AllocationMeter
    decreases calls.len(),
{
    if calls.len() == 0 {
        meter
    } else {
        let before = after_calls(meter, calls.drop_last());
        let (allocated, bytes) = calls.last();
        if allocated && before.counting {
            AllocationMeter {
                bytes: ((before.bytes + bytes) % 0x1_0000_0000_0000_0000) as u64,
                ..before
            }
        } else {
            before
        }
    }
}

/// The bytes that the successful calls of a list asked for.
pub open spec fn successful_bytes(calls: Seq<(bool, usize)>) -> nat
    decreases calls.len(),
{
    if calls.len() == 0 {
        0
    } else {
        let (allocated, bytes) = calls.last();
        successful_bytes(calls.drop_last()) + (if allocated { bytes as nat } else { 0 })
    }
}

/// A measurement counts the successful allocations between its start and its
/// end, and no others; a meter that is off does not change.
pub proof fn law_measurement_counts_successful_calls(
    meter: AllocationMeter,
    calls: Seq<(bool, usize)>,
)
    ensures
        after_calls(meter, calls).counting == meter.counting,
        !meter.counting ==> after_calls(meter, calls) == meter,
        meter.counting && meter.bytes == 0 ==> after_calls(meter, calls).bytes as int
            == successful_bytes(calls) % 0x1_0000_0000_0000_0000,
    decreases calls.len(),
{
    if calls.len() > 0 {
        law_measurement_counts_successful_calls(meter, calls.drop_last());
    }
}

} // verus!
