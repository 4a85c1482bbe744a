//! What is sent, and what is recorded: every group, request, fragment and answer, field by field.

use crate::clock::{Instant, Timestamp};
use crate::flow::FlowView;
use crate::fragmentation::{records_answer, uplink_outcome, Ts004Version};
use crate::fragments::{
    fragment_count, law_padding_fills_the_last_fragment, padding_len, size_in_bytes,
};
use crate::keys::{
    encrypted_mc_key, mc_app_s_key, mc_ke_key, mc_net_s_key, mc_root_key_for_app_key,
    mc_root_key_for_gen_app_key,
};
use crate::messages::{decimal, le_bytes, setup_ans_of, FragSessionSetupAns};
use crate::requests::{
    class_b_session_of, class_b_session_time, class_c_session_time, frag_session_setup_item_of,
    fragment_item_of, mc_group_setup_item_of, mc_root_key_of, mc_session_item_of,
    multicast_group_with,
};
use crate::types::{
    DeviceKeys, DeviceProfile, ErrorView, FuotaDeployment, FuotaDeploymentDevice, MacVersion,
};
use vstd::prelude::*;

verus! {

/// A group takes over every radio parameter of its deployment, the region of the device profile and
/// the keys that are given.
pub proof fn law_groups_take_over_the_deployment(
    deployment: FuotaDeployment,
    profile: DeviceProfile,
    mc_app_s_key: Seq<u8>,
    mc_nwk_s_key: Seq<u8>,
)
    ensures
        ({
            let group = multicast_group_with(deployment, profile, mc_app_s_key, mc_nwk_s_key);
            &&& group.id == deployment.id@
            &&& group.application_id == deployment.application_id@
            &&& group.name == "fuota-"@ + deployment.id@
            &&& group.region == profile.region
            &&& group.mc_addr == deployment.multicast_addr@
            &&& group.mc_app_s_key == mc_app_s_key
            &&& group.mc_nwk_s_key == mc_nwk_s_key
            &&& group.f_cnt == 0
            &&& group.group_type == deployment.multicast_group_type@
            &&& group.frequency == deployment.multicast_frequency
            &&& group.dr == deployment.multicast_dr
            &&& group.class_b_ping_slot_nb_k == deployment.multicast_class_b_ping_slot_nb_k
            &&& group.class_c_scheduling_type == deployment.multicast_class_c_scheduling_type
        }),
{
}

/// The group that a run asks for has the radio parameters of the deployment, and the session keys
/// that belong to its multicast key and address.
pub proof fn law_created_group_is_that_of_the_deployment(flow: FlowView, now: Instant)
    requires
        flow.job.job is CreateMcGroup,
        flow.job.attempt_count <= flow.job.max_retry_count,
    ensures
        flow.dispatch(now).1 is CreateMulticastGroup,
        ({
            let group = flow.dispatch(now).1->CreateMulticastGroup_0;
            let deployment = flow.fuota_deployment;
            let key = deployment.multicast_key@;
            let addr = deployment.multicast_addr@;
            &&& group.id == deployment.id@
            &&& group.application_id == deployment.application_id@
            &&& group.name == "fuota-"@ + deployment.id@
            &&& group.region == flow.device_profile.region
            &&& group.mc_addr == addr
            &&& group.mc_app_s_key == mc_app_s_key(key, addr)
            &&& group.mc_nwk_s_key == mc_net_s_key(key, addr)
            &&& group.f_cnt == 0
            &&& group.group_type == deployment.multicast_group_type@
            &&& group.frequency == deployment.multicast_frequency
            &&& group.dr == deployment.multicast_dr
            &&& group.class_b_ping_slot_nb_k == deployment.multicast_class_b_ping_slot_nb_k
            &&& group.class_c_scheduling_type == deployment.multicast_class_c_scheduling_type
        }),
{
}

/// Deployments that differ in a parameter get groups that differ in it.
pub proof fn law_different_deployments_get_different_groups(
    a: FlowView,
    b: FlowView,
    now: Instant,
    later: Instant,
)
    requires
        a.job.job is CreateMcGroup,
        b.job.job is CreateMcGroup,
        a.job.attempt_count <= a.job.max_retry_count,
        b.job.attempt_count <= b.job.max_retry_count,
        a.dispatch(now).1 == b.dispatch(later).1,
    ensures
        a.fuota_deployment.id@ == b.fuota_deployment.id@,
        a.fuota_deployment.application_id@ == b.fuota_deployment.application_id@,
        a.fuota_deployment.multicast_addr@ == b.fuota_deployment.multicast_addr@,
        a.fuota_deployment.multicast_group_type@ == b.fuota_deployment.multicast_group_type@,
        a.fuota_deployment.multicast_frequency == b.fuota_deployment.multicast_frequency,
        a.fuota_deployment.multicast_dr == b.fuota_deployment.multicast_dr,
        a.fuota_deployment.multicast_class_b_ping_slot_nb_k
            == b.fuota_deployment.multicast_class_b_ping_slot_nb_k,
        a.fuota_deployment.multicast_class_c_scheduling_type
            == b.fuota_deployment.multicast_class_c_scheduling_type,
        a.device_profile.region == b.device_profile.region,
{
    law_created_group_is_that_of_the_deployment(a, now);
    law_created_group_is_that_of_the_deployment(b, later);
}

/// A fragment downlink carries the whole fragment behind a header of three bytes, whatever its
/// length: the identifier, and the number of the fragment, counted from 1.
pub proof fn law_fragment_downlinks_carry_the_whole_fragment(
    deployment: FuotaDeployment,
    profile: DeviceProfile,
    index: int,
    fragment: Seq<u8>,
)
    requires
        0 <= index,
    ensures
        fragment_item_of(deployment, profile, index, fragment) is Ok <==> (index + 1) % 0x1_0000
            <= 16383,
        fragment_item_of(deployment, profile, index, fragment) matches Ok(item) ==> {
            &&& item.multicast_group_id == deployment.id@
            &&& item.f_port == profile.ts004_f_port
            &&& item.data.len() == 3 + fragment.len()
            &&& item.data[0] == 0x08
            &&& item.data[1] + 256 * item.data[2] == (index + 1) % 0x1_0000
            &&& item.data.skip(3) == fragment
        },
        fragment_item_of(deployment, profile, index, fragment) matches Err(error) ==> error
            == ErrorView::Message("Max n value us 16383"@),
{
    let n = ((index + 1) % 0x1_0000) as nat;
    if n <= 16383 {
        let data = fragment_item_of(deployment, profile, index, fragment)->Ok_0.data;
        reveal_with_fuel(le_bytes, 3);
        assert(le_bytes(n, 2) =~= seq![(n % 256) as u8, (n / 256) as u8]);
        assert(data.skip(3) =~= fragment);
    }
}

/// Downlinks with the same data carry the same fragment.
pub proof fn law_fragments_can_be_told_apart(
    deployment: FuotaDeployment,
    profile: DeviceProfile,
    i: int,
    j: int,
    a: Seq<u8>,
    b: Seq<u8>,
)
    requires
        0 <= i < 16383,
        0 <= j < 16383,
        fragment_item_of(deployment, profile, i, a)->Ok_0.data == fragment_item_of(
            deployment,
            profile,
            j,
            b,
        )->Ok_0.data,
    ensures
        i == j,
        a == b,
{
    law_fragment_downlinks_carry_the_whole_fragment(deployment, profile, i, a);
    law_fragment_downlinks_carry_the_whole_fragment(deployment, profile, j, b);
}

/// Every 1.0 version has its multicast root key from the general application key, version 1.1 and
/// the latest one from the application key.
pub proof fn law_root_keys_go_by_the_version(keys: DeviceKeys)
    ensures
        mc_root_key_of(MacVersion::LORAWAN_1_0_0, keys) == mc_root_key_for_gen_app_key(
            keys.gen_app_key@,
        ),
        mc_root_key_of(MacVersion::LORAWAN_1_0_1, keys) == mc_root_key_for_gen_app_key(
            keys.gen_app_key@,
        ),
        mc_root_key_of(MacVersion::LORAWAN_1_0_2, keys) == mc_root_key_for_gen_app_key(
            keys.gen_app_key@,
        ),
        mc_root_key_of(MacVersion::LORAWAN_1_0_3, keys) == mc_root_key_for_gen_app_key(
            keys.gen_app_key@,
        ),
        mc_root_key_of(MacVersion::LORAWAN_1_0_4, keys) == mc_root_key_for_gen_app_key(
            keys.gen_app_key@,
        ),
        mc_root_key_of(MacVersion::LORAWAN_1_1_0, keys) == mc_root_key_for_app_key(keys.app_key@),
        mc_root_key_of(MacVersion::Latest, keys) == mc_root_key_for_app_key(keys.app_key@),
{
}

/// A group setup request holds group 0, the address with its least significant byte first, the
/// multicast key encrypted under the root key that goes with the version of the device, and all
/// frame counters.
pub proof fn law_group_setup_requests_carry_the_key_of_the_device(
    deployment: FuotaDeployment,
    profile: DeviceProfile,
    dev_eui: Seq<u8>,
    keys: DeviceKeys,
    root_key: Seq<u8>,
    encrypted: Seq<u8>,
)
    requires
        match profile.mac_version {
            MacVersion::LORAWAN_1_0_0 => root_key == mc_root_key_for_gen_app_key(keys.gen_app_key@),
            MacVersion::LORAWAN_1_0_1 => root_key == mc_root_key_for_gen_app_key(keys.gen_app_key@),
            MacVersion::LORAWAN_1_0_2 => root_key == mc_root_key_for_gen_app_key(keys.gen_app_key@),
            MacVersion::LORAWAN_1_0_3 => root_key == mc_root_key_for_gen_app_key(keys.gen_app_key@),
            MacVersion::LORAWAN_1_0_4 => root_key == mc_root_key_for_gen_app_key(keys.gen_app_key@),
            MacVersion::LORAWAN_1_1_0 => root_key == mc_root_key_for_app_key(keys.app_key@),
            MacVersion::Latest => root_key == mc_root_key_for_app_key(keys.app_key@),
        },
        encrypted == encrypted_mc_key(mc_ke_key(root_key), deployment.multicast_key@),
        encrypted.len() == 16,
    ensures
        ({
            let item = mc_group_setup_item_of(deployment, profile, dev_eui, keys);
            let addr = deployment.multicast_addr@;
            &&& item.dev_eui == dev_eui
            &&& item.f_port == profile.ts005_f_port
            &&& item.data.len() == 30
            &&& item.data.subrange(0, 2) == seq![0x02u8, 0x00u8]
            &&& item.data.subrange(2, 6) == seq![addr[3], addr[2], addr[1], addr[0]]
            &&& item.data.subrange(6, 22) == encrypted
            &&& item.data.subrange(22, 26) == seq![0x00u8, 0x00u8, 0x00u8, 0x00u8]
            &&& item.data.subrange(26, 30) == seq![0xffu8, 0xffu8, 0xffu8, 0xffu8]
        }),
{
    let item = mc_group_setup_item_of(deployment, profile, dev_eui, keys);
    let addr = deployment.multicast_addr@;
    assert(addr.reverse() =~= seq![addr[3], addr[2], addr[1], addr[0]]);
    assert(item.data.subrange(0, 2) =~= seq![0x02u8, 0x00u8]);
    assert(item.data.subrange(2, 6) =~= addr.reverse());
    assert(item.data.subrange(6, 22) =~= encrypted);
    assert(item.data.subrange(22, 26) =~= seq![0x00u8, 0x00u8, 0x00u8, 0x00u8]);
    assert(item.data.subrange(26, 30) =~= seq![0xffu8, 0xffu8, 0xffu8, 0xffu8]);
}

/// A session setup request announces group 0 and session 0, the fragment size, the padding and the
/// number of fragments, each as far as its field reaches.
///
/// `size` is the fragment size without its sign, and `zeros` is the padding: the least number of
/// bytes that fill the last fragment.
pub proof fn law_session_setup_requests_announce_the_layout(
    deployment: FuotaDeployment,
    profile: DeviceProfile,
    dev_eui: Seq<u8>,
    size: nat,
    zeros: nat,
)
    requires
        deployment.fragmentation_fragment_size > 0 ==> size
            == deployment.fragmentation_fragment_size,
        deployment.fragmentation_fragment_size < 0 ==> size
            == deployment.fragmentation_fragment_size + usize::MAX + 1,
        deployment.fragmentation_fragment_size != 0,
        zeros < size,
        (deployment.payload@.len() + zeros) % size == 0,
    ensures
        ({
            let item = frag_session_setup_item_of(deployment, profile, dev_eui);
            let count = fragment_count(deployment.payload@.len(), size);
            &&& item.dev_eui == dev_eui
            &&& item.f_port == profile.ts004_f_port
            &&& item.data.len() == 11
            &&& item.data[0] == 0x02
            &&& item.data[1] == 0x01
            &&& item.data[2] + 256 * item.data[3] == count % 0x1_0000
            &&& item.data[4] == size % 256
            &&& item.data[5] == 0x00
            &&& item.data[6] == zeros % 256
            &&& item.data.subrange(7, 11) == seq![0x00u8, 0x00u8, 0x00u8, 0x00u8]
        }),
{
    let item = frag_session_setup_item_of(deployment, profile, dev_eui);
    let len = deployment.payload@.len();
    let count = fragment_count(len, size) as nat;
    assert(size == size_in_bytes(deployment.fragmentation_fragment_size));
    law_padding_fills_the_last_fragment(len, size);
    lemma_padding_is_unique(len, size, padding_len(len, size), zeros);
    assert(item.data.subrange(7, 11) =~= seq![0x00u8, 0x00u8, 0x00u8, 0x00u8]);
    assert(count % 0x1_0000 == count % 256 + 256 * (count / 256 % 256));
}

proof fn lemma_padding_is_unique(len: nat, size: nat, a: nat, b: nat)
    requires
        a < size,
        b < size,
        (len + a) % size == 0,
        (len + b) % size == 0,
    ensures
        a == b,
{
    let x = (len + a) / size;
    let y = (len + b) / size;
    assert(len + a == size * x && len + b == size * y) by (nonlinear_arith)
        requires
            size > 0,
            x == (len + a) / size,
            y == (len + b) / size,
            (len + a) % size == 0,
            (len + b) % size == 0,
    ;
    assert(a == b) by (nonlinear_arith)
        requires
            a < size,
            b < size,
            len + a == size * x,
            len + b == size * y,
    ;
}

/// Where the fields of a session request stand, and what frequencies it can hold: multiples of
/// 100 Hz, or of 200 Hz from 2.4 GHz on.
proof fn lemma_session_bytes(frequency: u32, time: u32)
    ensures
        le_bytes(time as nat, 4).len() == 4,
        ({
            let b = le_bytes(time as nat, 4);
            b[0] + 256 * b[1] + 0x1_0000 * b[2] + 0x100_0000 * b[3] == time
        }),
        frequency < 0x100_0000 ==> {
            let b = le_bytes(frequency as nat, 3);
            b.len() == 3 && b[0] + 256 * b[1] + 0x1_0000 * b[2] == frequency
        },
{
    reveal_with_fuel(le_bytes, 5);
}

/// A Class-C session request holds group 0, the start of the session in GPS seconds modulo 2^32,
/// the time-out, the frequency and the data-rate of the deployment.  It exists if and only if
/// time-out and frequency fit.
pub proof fn law_class_c_sessions_are_announced_in_full(
    deployment: FuotaDeployment,
    profile: DeviceProfile,
    dev_eui: Seq<u8>,
    gps_seconds: int,
    frequency: int,
)
    requires
        deployment.multicast_group_type@ == "C"@,
        frequency == deployment.multicast_frequency as int % 0x1_0000_0000,
    ensures
        ({
            let result = mc_session_item_of(deployment, profile, dev_eui, gps_seconds);
            let steps = if frequency >= 2_400_000_000 {
                frequency / 2
            } else {
                frequency
            };
            let time_out = deployment.multicast_timeout as int % 256;
            &&& result is Ok <==> time_out <= 15 && steps / 100 < 0x100_0000 && steps % 100 == 0
            &&& result matches Ok(item) ==> {
                &&& item.dev_eui == dev_eui
                &&& item.f_port == profile.ts005_f_port
                &&& item.data.len() == 11
                &&& item.data[0] == 0x04
                &&& item.data[1] == 0x00
                &&& item.data[2] + 256 * item.data[3] + 0x1_0000 * item.data[4] + 0x100_0000
                    * item.data[5] == gps_seconds % 0x1_0000_0000
                &&& item.data[6] == time_out
                &&& 100 * (item.data[7] + 256 * item.data[8] + 0x1_0000 * item.data[9]) == steps
                &&& item.data[10] == deployment.multicast_dr as int % 256
            }
            &&& result matches Err(error) ==> error == ErrorView::Message(
                if time_out > 15 {
                    "Max time_out value is 15"@
                } else if steps / 100 >= 0x100_0000 {
                    "max freq value is 2^24 - 1"@
                } else {
                    "freq must be multiple of 100"@
                },
            )
        }),
{
    let start = class_c_session_time(gps_seconds);
    let steps = if frequency >= 2_400_000_000 {
        frequency / 2
    } else {
        frequency
    };
    reveal_strlit("B");
    reveal_strlit("C");
    assert("B"@[0] != "C"@[0]);
    lemma_session_bytes((steps / 100) as u32, start);
    assert(start == gps_seconds % 0x1_0000_0000);
}

/// A Class-B session request holds group 0, the last beacon period not after the start of the
/// session, the ping-slot periodicity and the time-out, the frequency and the data-rate of the
/// deployment.  It exists if and only if periodicity, time-out and frequency fit.
pub proof fn law_class_b_sessions_are_announced_in_full(
    deployment: FuotaDeployment,
    profile: DeviceProfile,
    dev_eui: Seq<u8>,
    gps_seconds: int,
    frequency: int,
)
    requires
        deployment.multicast_group_type@ == "B"@,
        frequency == deployment.multicast_frequency as int % 0x1_0000_0000,
    ensures
        ({
            let result = mc_session_item_of(deployment, profile, dev_eui, gps_seconds);
            let steps = if frequency >= 2_400_000_000 {
                frequency / 2
            } else {
                frequency
            };
            let time_out = deployment.multicast_timeout as int % 256;
            let periodicity = deployment.multicast_class_b_ping_slot_nb_k as int % 256;
            &&& result is Ok <==> time_out <= 15 && periodicity <= 7 && steps / 100 < 0x100_0000
                && steps % 100 == 0
            &&& result matches Ok(item) ==> {
                let start = item.data[2] + 256 * item.data[3] + 0x1_0000 * item.data[4]
                    + 0x100_0000 * item.data[5];
                &&& item.dev_eui == dev_eui
                &&& item.f_port == profile.ts005_f_port
                &&& item.data.len() == 11
                &&& item.data[0] == 0x05
                &&& item.data[1] == 0x00
                &&& start % 128 == 0
                &&& gps_seconds >= 0 ==> start <= gps_seconds % 0x1_0000_0000 < start + 128
                &&& gps_seconds < 0 ==> (start - gps_seconds) % 0x1_0000_0000 < 128
                &&& item.data[6] == 16 * periodicity + time_out
                &&& 100 * (item.data[7] + 256 * item.data[8] + 0x1_0000 * item.data[9]) == steps
                &&& item.data[10] == deployment.multicast_dr as int % 256
            }
            &&& result matches Err(error) ==> error == ErrorView::Message(
                if time_out > 15 {
                    "Max time_out value is 15"@
                } else if periodicity > 7 {
                    "Max periodicity value is 7"@
                } else if steps / 100 >= 0x100_0000 {
                    "max freq value is 2^24 - 1"@
                } else {
                    "freq must be multiple of 100"@
                },
            )
        }),
{
    let start = class_b_session_time(gps_seconds);
    let steps = if frequency >= 2_400_000_000 {
        frequency / 2
    } else {
        frequency
    };
    lemma_session_bytes((steps / 100) as u32, start);
    lemma_beacon_before(gps_seconds);
    let req = class_b_session_of(deployment, gps_seconds);
    assert(req.session_time == start);
    if req.time_out <= 15 && req.periodicity <= 7 && steps / 100 < 0x100_0000 && steps % 100 == 0 {
        let item = mc_session_item_of(deployment, profile, dev_eui, gps_seconds)->Ok_0;
        let time = le_bytes(start as nat, 4);
        let dl_frequ = le_bytes((steps / 100) as nat, 3);
        assert(item.data == seq![0x05u8, 0x00u8] + time + seq![
            (16 * req.periodicity + req.time_out) as u8,
        ] + dl_frequ + seq![req.dr]);
        assert(item.data.subrange(2, 6) =~= time);
        assert(item.data.subrange(7, 10) =~= dl_frequ);
        assert forall|i: int| 0 <= i < 4 implies item.data[2 + i] == #[trigger] time[i] by {
            assert(item.data.subrange(2, 6)[i] == item.data[2 + i]);
        }
        assert forall|i: int| 0 <= i < 3 implies item.data[7 + i] == #[trigger] dl_frequ[i] by {
            assert(item.data.subrange(7, 10)[i] == item.data[7 + i]);
        }
        assert(time[0] == item.data[2] && time[1] == item.data[3] && time[2] == item.data[4]
            && time[3] == item.data[5]);
        assert(dl_frequ[0] == item.data[7] && dl_frequ[1] == item.data[8] && dl_frequ[2]
            == item.data[9]);
    }
}

proof fn lemma_beacon_before(gps_seconds: int)
    ensures
        ({
            let start = class_b_session_time(gps_seconds) as int;
            &&& start % 128 == 0
            &&& gps_seconds >= 0 ==> start <= gps_seconds % 0x1_0000_0000 < start + 128
            &&& gps_seconds < 0 ==> (start - gps_seconds) % 0x1_0000_0000 < 128
        }),
{
}

/// A group of neither class has no session.
pub proof fn law_other_groups_have_no_session(
    deployment: FuotaDeployment,
    profile: DeviceProfile,
    dev_eui: Seq<u8>,
    gps_seconds: int,
)
    requires
        deployment.multicast_group_type@ != "B"@,
        deployment.multicast_group_type@ != "C"@,
    ensures
        mc_session_item_of(deployment, profile, dev_eui, gps_seconds) matches Err(error) && error
            == ErrorView::UnsupportedGroupType(deployment.multicast_group_type@),
{
}

/// The decimal digits of a byte: no leading zero, and the value of the byte.
pub proof fn law_bytes_are_written_in_decimal(n: u8)
    ensures
        ({
            let text = decimal(n as nat);
            &&& text.len() == if n < 10 {
                1nat
            } else if n < 100 {
                2nat
            } else {
                3nat
            }
            &&& n < 10 ==> text[0] as int - '0' as int == n
            &&& 10 <= n < 100 ==> 10 * (text[0] as int - '0' as int) + (text[1] as int - '0' as int)
                == n
            &&& 100 <= n ==> 100 * (text[0] as int - '0' as int) + 10 * (text[1] as int
                - '0' as int) + (text[2] as int - '0' as int) == n
            &&& forall|i: int| 0 <= i < text.len() ==> '0' <= #[trigger] text[i] <= '9'
        }),
{
    reveal_with_fuel(decimal, 4);
}

/// What an uplink means.  Its first byte identifies the message and fixes its length.
pub proof fn law_uplinks_are_understood(data: Seq<u8>)
    ensures
        uplink_outcome(None, data) == Err::<Option<FragSessionSetupAns>, ErrorView>(
            ErrorView::Ts004NotSupported,
        ),
        ({
            let outcome = uplink_outcome(Some(Ts004Version::V100), data);
            &&& (outcome is Ok && outcome->Ok_0 is Some) <==> data.len() == 2 && data[0] == 0x02
            &&& (outcome is Ok && outcome->Ok_0 is None) <==> (data.len() == 3 && data[0] == 0x00)
                || (data.len() == 5 && data[0] == 0x01) || (data.len() == 2 && data[0] == 0x03)
            &&& outcome matches Err(error) ==> error == ErrorView::Message(
                if data.len() == 0 {
                    "At least one byte is expected"@
                } else if data[0] == 0x00 {
                    "Expected 2 bytes"@
                } else if data[0] == 0x01 {
                    "Expected 4 bytes"@
                } else if data[0] == 0x02 || data[0] == 0x03 {
                    "Expected 1 byte"@
                } else {
                    "Invalid CID: "@ + decimal(data[0] as nat)
                },
            )
        }),
{
}

/// A setup answer has a flag in each of its four lowest bits and the session in its two highest
/// ones.  The two bits between have no meaning.
pub proof fn law_setup_answers_are_understood(
    ans: FragSessionSetupAns,
    reserved: int,
    data: Seq<u8>,
)
    requires
        data.len() == 2,
        data[0] == 0x02,
        0 <= reserved < 4,
        ans.frag_index < 4,
        data[1] == (if ans.encoding_unsupported {
            1int
        } else {
            0
        }) + (if ans.not_enough_memory {
            2int
        } else {
            0
        }) + (if ans.frag_session_index_not_supported {
            4int
        } else {
            0
        }) + (if ans.wrong_descriptor {
            8int
        } else {
            0
        }) + 16 * reserved + 64 * ans.frag_index,
    ensures
        uplink_outcome(Some(Ts004Version::V100), data) == Ok::<
            Option<FragSessionSetupAns>,
            ErrorView,
        >(Some(ans)),
{
    let byte = data[1];
    assert(setup_ans_of(byte) == ans);
}

/// A setup answer changes one thing: without a flag it dates the session, with any flag it leaves
/// a message that names all four.
pub proof fn law_answers_change_one_thing(
    before: FuotaDeploymentDevice,
    after: FuotaDeploymentDevice,
    ans: FragSessionSetupAns,
    now: Timestamp,
)
    requires
        records_answer(before, after, ans, now),
    ensures
        after.fuota_deployment_id@ == before.fuota_deployment_id@,
        after.dev_eui == before.dev_eui,
        after.mc_group_setup_completed_at == before.mc_group_setup_completed_at,
        after.mc_session_completed_at == before.mc_session_completed_at,
        !ans.encoding_unsupported && !ans.not_enough_memory
            && !ans.frag_session_index_not_supported && !ans.wrong_descriptor ==> {
            &&& after.frag_session_setup_completed_at == Some(now)
            &&& after.return_msg@ == before.return_msg@
        },
        ans.encoding_unsupported || ans.not_enough_memory || ans.frag_session_index_not_supported
            || ans.wrong_descriptor ==> {
            &&& after.frag_session_setup_completed_at == before.frag_session_setup_completed_at
            &&& after.return_msg@ == "Error: FragSessionAns response encoding_unsupported="@ + (
            if ans.encoding_unsupported {
                "true"@
            } else {
                "false"@
            }) + ", not_enough_memory="@ + (if ans.not_enough_memory {
                "true"@
            } else {
                "false"@
            }) + ", frag_session_index_not_supported="@ + (
            if ans.frag_session_index_not_supported {
                "true"@
            } else {
                "false"@
            }) + ", wrong_descriptor="@ + (if ans.wrong_descriptor {
                "true"@
            } else {
                "false"@
            })
        },
{
}

/// Every error says what went wrong.
pub proof fn law_errors_in_words(text: Seq<char>)
    ensures
        ErrorView::Ts004NotSupported.text() == "Device does not support TS004"@,
        ErrorView::UnsupportedGroupType(text).text() == "Unsupported group-type: "@ + text,
        ErrorView::Message(text).text() == text,
        ErrorView::Backend(text).text() == text,
{
}

}
