//! What a firmware update sends: the multicast group, the requests and the fragments.

use crate::fragments::{
    fragment_count, fragment_size_in_bytes, fragments, law_padding_fills_the_last_fragment, pad,
    padded, padding, padding_len, redundancy, redundancy_count, size_in_bytes,
};
use crate::keys::{
    encrypt_mc_key, encrypted_mc_key, get_mc_app_s_key, get_mc_ke_key, get_mc_net_s_key,
    get_mc_root_key_for_app_key, get_mc_root_key_for_gen_app_key, mc_app_s_key, mc_ke_key,
    mc_net_s_key, mc_root_key_for_app_key, mc_root_key_for_gen_app_key,
};
use crate::messages::{
    coded_fragments, encode_data_fragment, encode_frag_session_setup_req, encode_fragments,
    encode_mc_class_b_session_req, encode_mc_class_c_session_req, encode_mc_group_setup_req,
    encoded_data_fragment, encoding, le_bytes, FragSessionSetupReq, McClassBSessionReq,
    McClassCSessionReq, McGroupSetupReq,
};
use crate::narrow::{low_byte, low_byte_of_size, low_u16_of_size, low_u32};
use crate::single::law_small_integers_are_exact;
use crate::types::{
    DeviceKeys, DeviceProfile, DeviceQueueItem, DeviceQueueItemView, Error, ErrorView,
    FuotaDeployment, MacVersion, MulticastGroup, MulticastGroupQueueItem,
    MulticastGroupQueueItemView, MulticastGroupView,
};
use vstd::prelude::*;

verus! {

/// The outcome of preparing a downlink for a device.
pub open spec fn prepared(result: Result<DeviceQueueItem, Error>) -> Result<
    DeviceQueueItemView,
    ErrorView,
> {
    match result {
        Ok(item) => Ok(item@),
        Err(error) => Err(error@),
    }
}

/// The downlink that carries an encoded message to a device.
pub open spec fn device_item(
    dev_eui: Seq<u8>,
    f_port: int,
    encoded: Result<Seq<u8>, Seq<char>>,
) -> Result<DeviceQueueItemView, ErrorView> {
    match encoded {
        Ok(data) => Ok(DeviceQueueItemView { dev_eui, f_port, data }),
        Err(text) => Err(ErrorView::Message(text)),
    }
}

/// Puts an encoded message into a downlink for a device.
fn make_device_item(dev_eui: [u8; 8], f_port: u8, encoded: Result<Vec<u8>, String>) -> (item:
    Result<DeviceQueueItem, Error>)
    ensures
        prepared(item) == device_item(dev_eui@, f_port as int, encoding(encoded)),
{
    match encoded {
        Ok(data) => Ok(DeviceQueueItem { dev_eui, f_port: f_port as i16, data }),
        Err(text) => Err(Error::Message(text)),
    }
}

/// The multicast group of a firmware update, with the given session keys.
pub open spec fn multicast_group_with(
    deployment: FuotaDeployment,
    profile: DeviceProfile,
    mc_app_s_key: Seq<u8>,
    mc_nwk_s_key: Seq<u8>,
) -> MulticastGroupView {
    MulticastGroupView {
        id: deployment.id@,
        application_id: deployment.application_id@,
        name: "fuota-"@ + deployment.id@,
        region: profile.region,
        mc_addr: deployment.multicast_addr@,
        mc_nwk_s_key,
        mc_app_s_key,
        f_cnt: 0,
        group_type: deployment.multicast_group_type@,
        frequency: deployment.multicast_frequency as int,
        dr: deployment.multicast_dr as int,
        class_b_ping_slot_nb_k: deployment.multicast_class_b_ping_slot_nb_k as int,
        class_c_scheduling_type: deployment.multicast_class_c_scheduling_type,
    }
}

/// The multicast group of a firmware update.
pub open spec fn multicast_group_of(
    deployment: FuotaDeployment,
    profile: DeviceProfile,
) -> MulticastGroupView {
    multicast_group_with(
        deployment,
        profile,
        mc_app_s_key(deployment.multicast_key@, deployment.multicast_addr@),
        mc_net_s_key(deployment.multicast_key@, deployment.multicast_addr@),
    )
}

/// The multicast group of a firmware update, for session keys that are known.
pub fn multicast_group_from_keys(
    deployment: &FuotaDeployment,
    profile: &DeviceProfile,
    mc_app_s_key: [u8; 16],
    mc_nwk_s_key: [u8; 16],
) -> (group: MulticastGroup)
    ensures
        group@ == multicast_group_with(*deployment, *profile, mc_app_s_key@, mc_nwk_s_key@),
{
    MulticastGroup {
        id: deployment.id.clone(),
        application_id: deployment.application_id.clone(),
        name: "fuota-".to_owned().concat(deployment.id.as_str()),
        region: profile.region,
        mc_addr: deployment.multicast_addr,
        mc_nwk_s_key,
        mc_app_s_key,
        f_cnt: 0,
        group_type: deployment.multicast_group_type.clone(),
        frequency: deployment.multicast_frequency,
        dr: deployment.multicast_dr,
        class_b_ping_slot_nb_k: deployment.multicast_class_b_ping_slot_nb_k,
        class_c_scheduling_type: deployment.multicast_class_c_scheduling_type,
    }
}

/// The multicast group of a firmware update, with session keys derived from its multicast key.
pub fn multicast_group(deployment: &FuotaDeployment, profile: &DeviceProfile) -> (group: Result<
    MulticastGroup,
    Error,
>)
    ensures
        group is Ok,
        group matches Ok(g) ==> g@ == multicast_group_of(*deployment, *profile),
{
    let app_s_key = match get_mc_app_s_key(deployment.multicast_key, deployment.multicast_addr) {
        Ok(key) => key,
        Err(text) => return Err(Error::Message(text)),
    };
    let nwk_s_key = match get_mc_net_s_key(deployment.multicast_key, deployment.multicast_addr) {
        Ok(key) => key,
        Err(text) => return Err(Error::Message(text)),
    };
    Ok(multicast_group_from_keys(deployment, profile, app_s_key, nwk_s_key))
}

/// Whether the multicast root key of a device comes from its general application key.
pub open spec fn has_gen_app_key(version: MacVersion) -> bool {
    !(version is LORAWAN_1_1_0) && !(version is Latest)
}

/// The multicast root key of a device: LoRaWAN 1.0 derives it from the general application key,
/// LoRaWAN 1.1 from the application key.
pub open spec fn mc_root_key_of(version: MacVersion, keys: DeviceKeys) -> Seq<u8> {
    if has_gen_app_key(version) {
        mc_root_key_for_gen_app_key(keys.gen_app_key@)
    } else {
        mc_root_key_for_app_key(keys.app_key@)
    }
}

/// Derives the multicast root key of a device.
pub fn mc_root_key(version: MacVersion, keys: &DeviceKeys) -> (key: Result<[u8; 16], Error>)
    ensures
        key is Ok,
        key matches Ok(k) ==> k@ == mc_root_key_of(version, *keys),
{
    let derived = match version {
        MacVersion::LORAWAN_1_0_0
        | MacVersion::LORAWAN_1_0_1
        | MacVersion::LORAWAN_1_0_2
        | MacVersion::LORAWAN_1_0_3
        | MacVersion::LORAWAN_1_0_4 => get_mc_root_key_for_gen_app_key(keys.gen_app_key),
        MacVersion::LORAWAN_1_1_0 | MacVersion::Latest => get_mc_root_key_for_app_key(keys.app_key),
    };
    match derived {
        Ok(key) => Ok(key),
        Err(text) => Err(Error::Message(text)),
    }
}

/// The request that a device joins the multicast group, with the encrypted multicast key.
pub open spec fn mc_group_setup_bytes(
    deployment: FuotaDeployment,
    mc_key_encrypted: Seq<u8>,
) -> Seq<u8> {
    seq![0x02u8, 0x00u8] + deployment.multicast_addr@.reverse() + mc_key_encrypted + seq![
        0x00u8,
        0x00u8,
        0x00u8,
        0x00u8,
    ] + seq![0xffu8, 0xffu8, 0xffu8, 0xffu8]
}

/// The multicast key of a firmware update, encrypted for a device.
pub open spec fn mc_key_encrypted_for(
    deployment: FuotaDeployment,
    version: MacVersion,
    keys: DeviceKeys,
) -> Seq<u8> {
    encrypted_mc_key(mc_ke_key(mc_root_key_of(version, keys)), deployment.multicast_key@)
}

/// The downlink that asks a device to join the multicast group.
pub open spec fn mc_group_setup_item_of(
    deployment: FuotaDeployment,
    profile: DeviceProfile,
    dev_eui: Seq<u8>,
    keys: DeviceKeys,
) -> DeviceQueueItemView {
    DeviceQueueItemView {
        dev_eui,
        f_port: profile.ts005_f_port as int,
        data: mc_group_setup_bytes(
            deployment,
            mc_key_encrypted_for(deployment, profile.mac_version, keys),
        ),
    }
}

/// The downlink that asks a device to join the multicast group, for an encrypted multicast key
/// that is known.
pub fn mc_group_setup_item_from_key(
    deployment: &FuotaDeployment,
    profile: &DeviceProfile,
    dev_eui: [u8; 8],
    mc_key_encrypted: [u8; 16],
) -> (item: Result<DeviceQueueItem, Error>)
    ensures
        item is Ok,
        item matches Ok(i) ==> i@ == (DeviceQueueItemView {
            dev_eui: dev_eui@,
            f_port: profile.ts005_f_port as int,
            data: mc_group_setup_bytes(*deployment, mc_key_encrypted@),
        }),
{
    let req = McGroupSetupReq {
        mc_group_id: 0,
        mc_addr: deployment.multicast_addr,
        mc_key_encrypted,
        min_mc_f_count: 0,
        max_mc_f_count: u32::MAX,
    };
    proof {
        lemma_le_bytes_of_constants();
        assert(seq![0x02u8, req.mc_group_id] =~= seq![0x02u8, 0x00u8]);
        assert(req.encoded() == Ok::<Seq<u8>, Seq<char>>(
            mc_group_setup_bytes(*deployment, mc_key_encrypted@),
        ));
    }
    make_device_item(dev_eui, profile.ts005_f_port, encode_mc_group_setup_req(req))
}

proof fn lemma_le_bytes_of_constants()
    ensures
        le_bytes(0, 4) == seq![0x00u8, 0x00u8, 0x00u8, 0x00u8],
        le_bytes(0xffff_ffff, 4) == seq![0xffu8, 0xffu8, 0xffu8, 0xffu8],
{
    reveal_with_fuel(le_bytes, 5);
    assert(le_bytes(0, 4) =~= seq![0x00u8, 0x00u8, 0x00u8, 0x00u8]);
    assert(le_bytes(0xffff_ffff, 4) =~= seq![0xffu8, 0xffu8, 0xffu8, 0xffu8]);
}

/// The downlink that asks a device to join the multicast group.
pub fn mc_group_setup_item(
    deployment: &FuotaDeployment,
    profile: &DeviceProfile,
    dev_eui: [u8; 8],
    keys: &DeviceKeys,
) -> (item: Result<DeviceQueueItem, Error>)
    ensures
        item is Ok,
        item matches Ok(i) ==> i@ == mc_group_setup_item_of(
            *deployment,
            *profile,
            dev_eui@,
            *keys,
        ),
        item matches Ok(i) ==> i.data@.len() == 30,
        mc_key_encrypted_for(*deployment, profile.mac_version, *keys).len() == 16,
{
    let root_key = match mc_root_key(profile.mac_version, keys) {
        Ok(key) => key,
        Err(error) => return Err(error),
    };
    let ke_key = match get_mc_ke_key(root_key) {
        Ok(key) => key,
        Err(text) => return Err(Error::Message(text)),
    };
    let mc_key_encrypted = encrypt_mc_key(ke_key, deployment.multicast_key);
    mc_group_setup_item_from_key(deployment, profile, dev_eui, mc_key_encrypted)
}

/// The request that a device sets up the fragmentation session: multicast group 0, session 0, and
/// the low bits of the number of fragments, of their size and of the padding.
pub open spec fn frag_session_setup_bytes(len: nat, size: nat) -> Seq<u8> {
    let count = fragment_count(len, size) as nat;
    seq![
        0x02u8,
        0x01u8,
        (count % 256) as u8,
        (count / 256 % 256) as u8,
        (size % 256) as u8,
        0x00u8,
        (padding_len(len, size) % 256) as u8,
        0x00u8,
        0x00u8,
        0x00u8,
        0x00u8,
    ]
}

/// The downlink that asks a device to set up the fragmentation session.
pub open spec fn frag_session_setup_item_of(
    deployment: FuotaDeployment,
    profile: DeviceProfile,
    dev_eui: Seq<u8>,
) -> DeviceQueueItemView {
    DeviceQueueItemView {
        dev_eui,
        f_port: profile.ts004_f_port as int,
        data: frag_session_setup_bytes(
            deployment.payload@.len(),
            size_in_bytes(deployment.fragmentation_fragment_size) as nat,
        ),
    }
}

/// The downlink that asks a device to set up the fragmentation session.
pub fn frag_session_setup_item(
    deployment: &FuotaDeployment,
    profile: &DeviceProfile,
    dev_eui: [u8; 8],
) -> (item: Result<DeviceQueueItem, Error>)
    requires
        deployment.fragmentation_fragment_size != 0,
    ensures
        item is Ok,
        item matches Ok(i) ==> i@ == frag_session_setup_item_of(*deployment, *profile, dev_eui@),
{
    let size: usize = fragment_size_in_bytes(deployment.fragmentation_fragment_size);
    let count: usize = fragments(deployment.payload.len(), size);
    let zeros: usize = padding(deployment.payload.len(), size);
    let req = FragSessionSetupReq {
        mc_group_bit_mask: [true, false, false, false],
        frag_index: 0,
        nb_frag: low_u16_of_size(count),
        frag_size: low_byte_of_size(size),
        block_ack_delay: 0,
        fragmentation_matrix: 0,
        padding: low_byte_of_size(zeros),
        descriptor: [0, 0, 0, 0],
    };
    proof {
        lemma_frag_session_setup_bytes(req, deployment.payload@.len(), size as nat);
    }
    make_device_item(dev_eui, profile.ts004_f_port, encode_frag_session_setup_req(req))
}

proof fn lemma_frag_session_setup_bytes(req: FragSessionSetupReq, len: nat, size: nat)
    requires
        req.mc_group_bit_mask@ == seq![true, false, false, false],
        req.frag_index == 0,
        req.nb_frag == fragment_count(len, size) % 0x1_0000,
        req.frag_size == size % 256,
        req.block_ack_delay == 0,
        req.fragmentation_matrix == 0,
        req.padding == padding_len(len, size) % 256,
        req.descriptor@ == seq![0u8, 0u8, 0u8, 0u8],
    ensures
        req.encoded() == Ok::<Seq<u8>, Seq<char>>(frag_session_setup_bytes(len, size)),
{
    let count = fragment_count(len, size) as nat;
    reveal_with_fuel(le_bytes, 3);
    assert((count % 0x1_0000) % 256 == count % 256);
    assert((count % 0x1_0000) / 256 == count / 256 % 256);
    assert(req.encoded()->Ok_0 =~= frag_session_setup_bytes(len, size));
}

/// The remainder of `a` divided by `b`, with the sign of `a`.
pub open spec fn truncated_rem(a: int, b: int) -> int {
    if a >= 0 {
        a % b
    } else {
        -((-a) % b)
    }
}

/// The start of a session in GPS seconds, as far as it fits into 32 bits.
pub open spec fn session_start_of(gps_seconds: int) -> int {
    truncated_rem(gps_seconds, 0x1_0000_0000)
}

/// The session start of a Class-C session request.
pub open spec fn class_c_session_time(gps_seconds: int) -> u32 {
    (session_start_of(gps_seconds) % 0x1_0000_0000) as u32
}

/// The session start of a Class-B session request: a multiple of the beacon period, which is 128
/// seconds.
pub open spec fn class_b_session_time(gps_seconds: int) -> u32 {
    let start = session_start_of(gps_seconds);
    ((start - truncated_rem(start, 128)) % 0x1_0000_0000) as u32
}

/// The Class-B session request of a firmware update.
pub open spec fn class_b_session_of(
    deployment: FuotaDeployment,
    gps_seconds: int,
) -> McClassBSessionReq {
    McClassBSessionReq {
        mc_group_id: 0,
        session_time: class_b_session_time(gps_seconds),
        time_out: (deployment.multicast_timeout as int % 256) as u8,
        periodicity: (deployment.multicast_class_b_ping_slot_nb_k as int % 256) as u8,
        dl_frequ: (deployment.multicast_frequency as int % 0x1_0000_0000) as u32,
        dr: (deployment.multicast_dr as int % 256) as u8,
    }
}

/// The Class-C session request of a firmware update.
pub open spec fn class_c_session_of(
    deployment: FuotaDeployment,
    gps_seconds: int,
) -> McClassCSessionReq {
    McClassCSessionReq {
        mc_group_id: 0,
        session_time: class_c_session_time(gps_seconds),
        time_out: (deployment.multicast_timeout as int % 256) as u8,
        dl_frequ: (deployment.multicast_frequency as int % 0x1_0000_0000) as u32,
        dr: (deployment.multicast_dr as int % 256) as u8,
    }
}

/// The downlink that tells a device when the multicast session starts.
pub open spec fn mc_session_item_of(
    deployment: FuotaDeployment,
    profile: DeviceProfile,
    dev_eui: Seq<u8>,
    gps_seconds: int,
) -> Result<DeviceQueueItemView, ErrorView> {
    let group_type = deployment.multicast_group_type@;
    let f_port = profile.ts005_f_port as int;
    if group_type == "B"@ {
        device_item(dev_eui, f_port, class_b_session_of(deployment, gps_seconds).encoded())
    } else if group_type == "C"@ {
        device_item(dev_eui, f_port, class_c_session_of(deployment, gps_seconds).encoded())
    } else {
        Err(ErrorView::UnsupportedGroupType(group_type))
    }
}

/// The downlink that tells a device when the multicast session starts.
pub fn mc_session_item(
    deployment: &FuotaDeployment,
    profile: &DeviceProfile,
    dev_eui: [u8; 8],
    gps_seconds: i64,
) -> (item: Result<DeviceQueueItem, Error>)
    ensures
        prepared(item) == mc_session_item_of(
            *deployment,
            *profile,
            dev_eui@,
            gps_seconds as int,
        ),
{
    let session_start: i64 = gps_seconds % 0x1_0000_0000;
    let group_type = deployment.multicast_group_type.clone();
    let encoded = if group_type == "B".to_owned() {
        let req = McClassBSessionReq {
            mc_group_id: 0,
            session_time: low_u32(session_start - (session_start % 128)),
            time_out: low_byte(deployment.multicast_timeout),
            periodicity: low_byte(deployment.multicast_class_b_ping_slot_nb_k),
            dl_frequ: low_u32(deployment.multicast_frequency),
            dr: low_byte(deployment.multicast_dr),
        };
        assert(req == class_b_session_of(*deployment, gps_seconds as int));
        encode_mc_class_b_session_req(req)
    } else if group_type == "C".to_owned() {
        let req = McClassCSessionReq {
            mc_group_id: 0,
            session_time: low_u32(session_start),
            time_out: low_byte(deployment.multicast_timeout),
            dl_frequ: low_u32(deployment.multicast_frequency),
            dr: low_byte(deployment.multicast_dr),
        };
        assert(req == class_c_session_of(*deployment, gps_seconds as int));
        encode_mc_class_c_session_req(req)
    } else {
        return Err(Error::UnsupportedGroupType(group_type));
    };
    make_device_item(dev_eui, profile.ts005_f_port, encoded)
}

/// Whether the image of a firmware update can be cut into fragments of the configured size, and
/// the redundant fragments can be computed.
pub open spec fn can_fragment(deployment: FuotaDeployment) -> bool {
    let len = deployment.payload@.len();
    &&& deployment.fragmentation_fragment_size > 0 || (deployment.fragmentation_fragment_size < 0
        && len == 0)
    &&& 1001 * redundancy_of(deployment) + 1 <= usize::MAX
}

/// The number of redundant fragments of a firmware update.
pub open spec fn redundancy_of(deployment: FuotaDeployment) -> usize {
    redundancy_count(
        fragment_count(
            deployment.payload@.len(),
            size_in_bytes(deployment.fragmentation_fragment_size) as nat,
        ) as nat,
        deployment.fragmentation_redundancy_percentage as int,
    )
}

/// Checks that the image of a firmware update can be cut into fragments, and that the redundant
/// fragments can be computed.
pub fn is_fragmentable(deployment: &FuotaDeployment) -> (fragmentable: bool)
    ensures
        fragmentable == can_fragment(*deployment),
{
    if deployment.fragmentation_fragment_size > 0 || (deployment.fragmentation_fragment_size < 0
        && deployment.payload.len() == 0) {
        let size: usize = fragment_size_in_bytes(deployment.fragmentation_fragment_size);
        let count: usize = fragments(deployment.payload.len(), size);
        let redundant: usize = redundancy(count, deployment.fragmentation_redundancy_percentage);
        redundant <= (usize::MAX - 1) / 1001
    } else {
        false
    }
}

/// The fragments of a firmware update: those of the image, padded with zeros, and the redundant
/// ones.
pub open spec fn image_fragments_of(deployment: FuotaDeployment) -> Seq<Seq<u8>> {
    let size = size_in_bytes(deployment.fragmentation_fragment_size) as nat;
    coded_fragments(padded(deployment.payload@, size), size, redundancy_of(deployment) as nat)
}

/// Whether `rows` begin with the padded image of a firmware update, cut into fragments of the
/// configured size, and go on with the redundant fragments.
pub open spec fn holds_image(deployment: FuotaDeployment, rows: Seq<Seq<u8>>) -> bool {
    let size = size_in_bytes(deployment.fragmentation_fragment_size) as nat;
    let image = padded(deployment.payload@, size);
    &&& rows.len() == image.len() / size + redundancy_of(deployment)
    &&& forall|i: int| 0 <= i < rows.len() ==> (#[trigger] rows[i]).len() == size
    &&& forall|i: int|
        0 <= i < image.len() / size ==> #[trigger] rows[i] == image.subrange(
            i * size,
            (i + 1) * size,
        )
}

/// Cuts the image of a firmware update into fragments and adds the redundant ones.
pub fn image_fragments(deployment: &FuotaDeployment) -> (rows: Result<Vec<Vec<u8>>, Error>)
    requires
        can_fragment(*deployment),
    ensures
        rows is Ok,
        rows matches Ok(v) ==> {
            &&& v.deep_view() == image_fragments_of(*deployment)
            &&& holds_image(*deployment, v.deep_view())
        },
{
    let size: usize = fragment_size_in_bytes(deployment.fragmentation_fragment_size);
    let count: usize = fragments(deployment.payload.len(), size);
    let redundant: usize = redundancy(count, deployment.fragmentation_redundancy_percentage);
    let image = pad(deployment.payload.as_slice(), size);
    proof {
        law_padding_fills_the_last_fragment(deployment.payload@.len(), size as nat);
        if deployment.payload@.len() == 0 {
            law_small_integers_are_exact(0);
            assert(0 * deployment.fragmentation_redundancy_percentage == 0);
        }
    }
    match encode_fragments(image.as_slice(), size, redundant) {
        Ok(rows) => {
            assert forall|i: int| 0 <= i < rows@.len() implies #[trigger] rows.deep_view()[i]
                == rows@[i]@ by {
                assert(rows.deep_view()[i] =~= rows@[i]@);
            }
            Ok(rows)
        },
        Err(text) => Err(Error::Message(text)),
    }
}

/// The downlink that carries fragment number `index`, counted from 0, to the multicast group.
pub open spec fn fragment_item_of(
    deployment: FuotaDeployment,
    profile: DeviceProfile,
    index: int,
    fragment: Seq<u8>,
) -> Result<MulticastGroupQueueItemView, ErrorView> {
    match encoded_data_fragment(0, ((index + 1) % 0x1_0000) as u16, fragment) {
        Ok(data) => Ok(
            MulticastGroupQueueItemView {
                multicast_group_id: deployment.id@,
                f_port: profile.ts004_f_port as int,
                data,
            },
        ),
        Err(text) => Err(ErrorView::Message(text)),
    }
}

/// The downlink that carries fragment number `index`, counted from 0, to the multicast group.
pub fn fragment_item(
    deployment: &FuotaDeployment,
    profile: &DeviceProfile,
    index: usize,
    fragment: &Vec<u8>,
) -> (item: Result<MulticastGroupQueueItem, Error>)
    requires
        index < usize::MAX,
    ensures
        item matches Ok(i) ==> fragment_item_of(*deployment, *profile, index as int, fragment@)
            == Ok::<MulticastGroupQueueItemView, ErrorView>(i@),
        item matches Err(e) ==> fragment_item_of(*deployment, *profile, index as int, fragment@)
            == Err::<MulticastGroupQueueItemView, ErrorView>(e@),
{
    match encode_data_fragment(0, low_u16_of_size(index + 1), fragment.clone()) {
        Ok(data) => Ok(
            MulticastGroupQueueItem {
                multicast_group_id: deployment.id.clone(),
                f_port: profile.ts004_f_port as i16,
                data,
            },
        ),
        Err(text) => Err(Error::Message(text)),
    }
}

}
