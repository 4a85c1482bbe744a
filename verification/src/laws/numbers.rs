//! What the numbers of an update satisfy: sizes, counts and times.

use crate::clock::{Instant, Interval, Timestamp};
use crate::fragments::{
    fragment_count, law_fragments_hold_the_padded_image, law_padding_fills_the_last_fragment,
    law_redundancy_is_the_rounded_up_share, padded, redundancy_count, size_in_bytes,
};
use crate::requests::{can_fragment, redundancy_of};
use crate::single::{ceiling, saturate, single_of_int, single_quotient_ceiling};
use crate::types::FuotaDeployment;
use vstd::prelude::*;

verus! {

/// A fragment size that is not negative is kept.  A negative one keeps its distance to the largest
/// size.
pub proof fn law_fragment_sizes_are_kept(fragment_size: i16)
    ensures
        fragment_size >= 0 ==> size_in_bytes(fragment_size) == fragment_size,
        fragment_size < 0 ==> usize::MAX - size_in_bytes(fragment_size) == -1 - fragment_size,
{
}

/// The fragments of an image below 16 MiB are as few as can hold it.
pub proof fn law_fragments_are_as_few_as_possible(len: nat, size: nat)
    requires
        len < 0x100_0000,
        0 < size < 0x100_0000,
    ensures
        fragment_count(len, size) * size >= len,
        len > 0 ==> fragment_count(len, size) > 0 && (fragment_count(len, size) - 1) * size < len,
        len == 0 ==> fragment_count(len, size) == 0,
{
    law_fragments_hold_the_padded_image(len, size);
    law_padding_fills_the_last_fragment(len, size);
    let count = fragment_count(len, size) as int;
    assert((count - 1) * size == count * size - size) by (nonlinear_arith);
    if count == 0 {
        assert(count * size == 0) by (nonlinear_arith)
            requires
                count == 0,
        ;
    }
    if len == 0 {
        assert(count == 0) by (nonlinear_arith)
            requires
                count * size < size,
                count >= 0,
                size > 0,
        ;
    }
}

/// As long as the numbers stay below 2^24, the redundant fragments are as few as make up the
/// percentage.  A percentage that is not positive gives none.
pub proof fn law_redundant_fragments_are_as_few_as_possible(count: nat, percentage: int)
    requires
        count < 0x100_0000,
        count * percentage < 0x100_0000,
    ensures
        percentage <= 0 ==> redundancy_count(count, percentage) == 0,
        percentage > 0 ==> 100 * redundancy_count(count, percentage) >= count * percentage,
        percentage > 0 && redundancy_count(count, percentage) > 0 ==> 100 * (redundancy_count(
            count,
            percentage,
        ) - 1) < count * percentage,
{
    if percentage > 0 {
        law_redundancy_is_the_rounded_up_share(count, percentage as nat);
        let share = count * percentage;
        assert(share >= 0) by (nonlinear_arith)
            requires
                share == count * percentage,
                percentage > 0,
        ;
        assert(ceiling(share as nat, 100) == (share + 99) / 100);
    }
}

/// A padded image begins with the image and goes on with zeros, up to the next full fragment.
pub proof fn law_padded_images_end_in_zeros(data: Seq<u8>, size: nat)
    requires
        size > 0,
    ensures
        padded(data, size).len() % size == 0,
        data.len() <= padded(data, size).len() < data.len() + size,
        padded(data, size).take(data.len() as int) == data,
        forall|i: int|
            data.len() <= i < padded(data, size).len() ==> #[trigger] padded(data, size)[i] == 0,
{
    law_padding_fills_the_last_fragment(data.len(), size);
    assert(padded(data, size).take(data.len() as int) =~= data);
}

/// Counts are computed in single precision: length and size are rounded, then their quotient.  The
/// redundancy is the rounded product of the rounded count and the percentage, divided by 100.
pub proof fn law_counts_are_computed_in_single_precision(
    len: nat,
    size: nat,
    count: nat,
    percentage: int,
)
    ensures
        ({
            let quotient = single_quotient_ceiling(single_of_int(len), single_of_int(size));
            &&& quotient <= usize::MAX ==> fragment_count(len, size) == quotient
            &&& quotient > usize::MAX ==> fragment_count(len, size) == usize::MAX
        }),
        percentage <= 0 ==> redundancy_count(count, percentage) == 0,
        percentage > 0 ==> {
            let product = single_of_int(single_of_int(count) * percentage as nat);
            let share = single_quotient_ceiling(product, 100);
            &&& share <= usize::MAX ==> redundancy_count(count, percentage) == share
            &&& share > usize::MAX ==> redundancy_count(count, percentage) == usize::MAX
        },
{
}

/// The redundant fragments of a deployment are the share of its fragments that it asks for.
pub proof fn law_deployments_get_the_redundancy_they_ask_for(deployment: FuotaDeployment, size: nat)
    requires
        deployment.fragmentation_fragment_size > 0 ==> size
            == deployment.fragmentation_fragment_size,
        deployment.fragmentation_fragment_size < 0 ==> size
            == deployment.fragmentation_fragment_size + usize::MAX + 1,
        deployment.fragmentation_fragment_size != 0,
    ensures
        redundancy_of(deployment) == redundancy_count(
            fragment_count(deployment.payload@.len(), size) as nat,
            deployment.fragmentation_redundancy_percentage as int,
        ),
{
}

/// Every deployment with a fragment size can be fragmented, as long as its numbers stay below 2^24.
pub proof fn law_ordinary_deployments_can_be_fragmented(deployment: FuotaDeployment, count: nat)
    requires
        deployment.fragmentation_fragment_size > 0,
        deployment.payload@.len() < 0x100_0000,
        count == fragment_count(
            deployment.payload@.len(),
            deployment.fragmentation_fragment_size as nat,
        ),
        count * deployment.fragmentation_redundancy_percentage < 0x100_0000,
    ensures
        can_fragment(deployment),
{
    let len = deployment.payload@.len();
    let size = deployment.fragmentation_fragment_size as nat;
    let percentage = deployment.fragmentation_redundancy_percentage as int;
    law_fragments_are_as_few_as_possible(len, size);
    assert(count < 0x100_0000) by (nonlinear_arith)
        requires
            len < 0x100_0000,
            count > 0 ==> (count - 1) * size < len,
            size > 0,
    ;
    law_redundant_fragments_are_as_few_as_possible(count, percentage);
}

/// Adding to a time adds as many nanoseconds, and leaves less than a second of them.
pub proof fn law_times_are_added_to_the_nanosecond(time: Instant, secs: int, nanos: int)
    ensures
        1_000_000_000 * time.plus(secs, nanos).secs + time.plus(secs, nanos).nanos == 1_000_000_000
            * (time.secs + secs) + time.nanos + nanos,
        0 <= time.plus(secs, nanos).nanos < 1_000_000_000,
        time.nanoseconds() == 1_000_000_000 * time.secs + time.nanos,
        time.on_calendar() <==> -8_334_601_228_800 <= time.secs <= 8_210_266_876_799 && 0
            <= time.nanos < 1_000_000_000,
{
}

/// A time is valid if it lies on the calendar, and an interval if its nanoseconds are less than a
/// second.
pub proof fn law_valid_times(time: Timestamp, interval: Interval)
    ensures
        time.valid() <==> -8_334_601_228_800 <= time.secs <= 8_210_266_876_799 && time.nanos
            < 1_000_000_000,
        interval.valid() <==> interval.nanos < 1_000_000_000,
{
}

/// Numbers that a `usize` can hold are kept, and larger ones become the largest.
pub proof fn law_large_counts_are_cut_off(n: nat)
    ensures
        n <= usize::MAX ==> saturate(n) == n,
        n > usize::MAX ==> saturate(n) == usize::MAX,
{
}

}
