use fugit::MicrosDurationU32;
use vstd::prelude::*;

verus! {

/// The duration type of `fugit`: a number of ticks of `NOM / DENOM` seconds
/// each. Nothing is known of a value of it but what the items below say.
#[verifier::external_type_specification]
#[verifier::external_body]
#[verifier::reject_recursive_types(T)]
pub struct ExDuration<T, const NOM: u32, const DENOM: u32>(fugit::Duration<T, NOM, DENOM>);

/// The number of ticks that a duration holds. A tick of a
/// `MicrosDurationU32` is one microsecond.
pub uninterp spec fn duration_ticks(duration: MicrosDurationU32) -> u32;

/// Calls `MicrosDurationU32::micros`: the new duration holds one tick for
/// each microsecond.
#[verifier::external_body]
pub(crate) fn duration_from_micros(us: u32) -> (duration: MicrosDurationU32)
    ensures
        duration_ticks(duration) == us,
{
    MicrosDurationU32::micros(us)
}

/// Calls `MicrosDurationU32::millis`, which multiplies by 1000 in `u32` to
/// get the ticks of the new duration. Greater values of `ms` are left out:
/// the product would overflow.
#[verifier::external_body]
pub(crate) fn duration_from_millis(ms: u32) -> (duration: MicrosDurationU32)
    requires
        ms * 1000 <= u32::MAX,
    ensures
        duration_ticks(duration) == ms * 1000,
{
    MicrosDurationU32::millis(ms)
}

} // verus!
