//! Splitting an elapsed duration into the hours, minutes and seconds that
//! the overlay prints.

use vstd::prelude::*;

verus! {

/// Splits a second count into whole hours, leftover whole minutes and
/// leftover seconds; the three parts always reassemble to the input.
pub fn split_duration(total_secs: u64) -> (r: (u64, u64, u64))
    ensures
        r.0 == total_secs / 3600,
        r.1 == (total_secs % 3600) / 60,
        r.2 == total_secs % 60,
        r.1 < 60,
        r.2 < 60,
        r.0 * 3600 + r.1 * 60 + r.2 == total_secs,
{
    let hours = total_secs / 3600;
    let rem = total_secs % 3600;
    let mins = rem / 60;
    let secs = rem % 60;
    proof {
        assert(rem == total_secs - hours * 3600) by (nonlinear_arith)
            requires
                hours == total_secs / 3600,
                rem == total_secs % 3600,
        ;
        assert(secs == rem % 60 && mins == rem / 60 && rem == mins * 60 + secs && secs < 60
            && mins < 60) by (nonlinear_arith)
            requires
                mins == rem / 60,
                secs == rem % 60,
                rem < 3600,
        ;
        assert(rem % 60 == total_secs % 60) by (nonlinear_arith)
            requires
                rem == total_secs % 3600,
        ;
        assert(hours * 3600 + mins * 60 + secs == total_secs);
    }
    (hours, mins, secs)
}

} // verus!
