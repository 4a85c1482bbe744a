use fuota::fragments::padding;
use fuota::requests::{
    frag_session_setup_item, fragment_item, image_fragments, is_fragmentable, mc_group_setup_item,
    mc_group_setup_item_from_key, mc_root_key, mc_session_item, multicast_group,
    multicast_group_from_keys,
};
use fuota::types::{
    DeviceKeys, DeviceProfile, Error, FuotaDeployment, MacVersion, MulticastGroupSchedulingType,
};
use lrwn::applayer::fragmentation::v1 as fragmentation;
use lrwn::applayer::multicastsetup::v1 as multicastsetup;
use lrwn::region::CommonName;
use lrwn::{AES128Key, DevAddr};

const DEV_EUI: [u8; 8] = [1, 2, 3, 4, 5, 6, 7, 8];
const MC_KEY: [u8; 16] = [1, 2, 3, 4, 5, 6, 7, 8, 1, 2, 3, 4, 5, 6, 7, 9];
const KEYS: DeviceKeys = DeviceKeys { app_key: [3; 16], gen_app_key: [4; 16] };

fn deployment() -> FuotaDeployment {
    FuotaDeployment {
        id: "e5a1".to_string(),
        application_id: "a3f0".to_string(),
        multicast_addr: [1, 2, 3, 4],
        multicast_key: MC_KEY,
        multicast_group_type: "C".to_string(),
        multicast_class_c_scheduling_type: MulticastGroupSchedulingType::GpsTime,
        multicast_dr: 5,
        multicast_class_b_ping_slot_nb_k: 4,
        multicast_frequency: 868_100_000,
        multicast_timeout: 15,
        unicast_max_retry_count: 3,
        fragmentation_fragment_size: 10,
        fragmentation_redundancy_percentage: 50,
        payload: (0..100u8).collect(),
    }
}

fn profile() -> DeviceProfile {
    DeviceProfile {
        region: CommonName::EU868,
        mac_version: MacVersion::LORAWAN_1_0_3,
        uplink_interval: 3600,
        ts004_f_port: 201,
        ts005_f_port: 200,
    }
}

/// The bytes of the session request of a deployment.
fn session(deployment: &FuotaDeployment, gps_seconds: i64) -> Vec<u8> {
    let item = mc_session_item(deployment, &profile(), DEV_EUI, gps_seconds).unwrap();
    assert_eq!(item.dev_eui, DEV_EUI);
    assert_eq!(item.f_port, 200);
    item.data
}

fn session_error(deployment: &FuotaDeployment) -> String {
    mc_session_item(deployment, &profile(), DEV_EUI, 1024).unwrap_err().text()
}

#[test]
fn groups_take_over_the_deployment() {
    let group = multicast_group_from_keys(&deployment(), &profile(), [7; 16], [8; 16]);
    assert_eq!(group.id, "e5a1");
    assert_eq!(group.application_id, "a3f0");
    assert_eq!(group.name, "fuota-e5a1");
    assert_eq!(group.region, CommonName::EU868);
    assert_eq!(group.mc_addr, [1, 2, 3, 4]);
    assert_eq!(group.mc_app_s_key, [7; 16]);
    assert_eq!(group.mc_nwk_s_key, [8; 16]);
    assert_eq!(group.f_cnt, 0);
    assert_eq!(group.group_type, "C");
    assert_eq!(group.frequency, 868_100_000);
    assert_eq!(group.dr, 5);
    assert_eq!(group.class_b_ping_slot_nb_k, 4);
    assert_eq!(group.class_c_scheduling_type, MulticastGroupSchedulingType::GpsTime);
}

#[test]
fn groups_have_derived_session_keys() {
    let key = AES128Key::from_bytes(MC_KEY);
    let addr = DevAddr::from_be_bytes([1, 2, 3, 4]);
    let app_s_key = multicastsetup::get_mc_app_s_key(key, addr).unwrap().to_bytes();
    let net_s_key = multicastsetup::get_mc_net_s_key(key, addr).unwrap().to_bytes();
    let group = multicast_group(&deployment(), &profile()).unwrap();
    assert_eq!(group.mc_app_s_key, app_s_key);
    assert_eq!(group.mc_nwk_s_key, net_s_key);
    assert_ne!(group.mc_app_s_key, MC_KEY);
    assert_ne!(group.mc_nwk_s_key, MC_KEY);
    assert_ne!(group.mc_app_s_key, group.mc_nwk_s_key);
    assert_eq!(group, multicast_group_from_keys(&deployment(), &profile(), app_s_key, net_s_key));
}

#[test]
fn session_keys_depend_on_the_address() {
    let mut other = deployment();
    other.multicast_addr = [4, 3, 2, 1];
    let group = multicast_group(&deployment(), &profile()).unwrap();
    let moved = multicast_group(&other, &profile()).unwrap();
    assert_ne!(group.mc_app_s_key, moved.mc_app_s_key);
    assert_ne!(group.mc_nwk_s_key, moved.mc_nwk_s_key);
}

#[test]
fn root_keys_depend_on_the_version() {
    let from_gen_app_key =
        multicastsetup::get_mc_root_key_for_gen_app_key(AES128Key::from_bytes([4; 16]))
            .unwrap()
            .to_bytes();
    let from_app_key = multicastsetup::get_mc_root_key_for_app_key(AES128Key::from_bytes([3; 16]))
        .unwrap()
        .to_bytes();
    assert_ne!(from_gen_app_key, [4; 16]);
    assert_ne!(from_app_key, [3; 16]);
    for version in [
        MacVersion::LORAWAN_1_0_0,
        MacVersion::LORAWAN_1_0_1,
        MacVersion::LORAWAN_1_0_2,
        MacVersion::LORAWAN_1_0_3,
        MacVersion::LORAWAN_1_0_4,
    ] {
        assert_eq!(mc_root_key(version, &KEYS), Ok(from_gen_app_key));
    }
    for version in [MacVersion::LORAWAN_1_1_0, MacVersion::Latest] {
        assert_eq!(mc_root_key(version, &KEYS), Ok(from_app_key));
    }
}

#[test]
fn group_setup_requests() {
    let item = mc_group_setup_item_from_key(&deployment(), &profile(), DEV_EUI, [9; 16]).unwrap();
    assert_eq!(item.dev_eui, DEV_EUI);
    assert_eq!(item.f_port, 200);
    let mut expected = vec![0x02, 0x00, 4, 3, 2, 1];
    expected.extend_from_slice(&[9; 16]);
    expected.extend_from_slice(&[0, 0, 0, 0, 0xff, 0xff, 0xff, 0xff]);
    assert_eq!(item.data, expected);
}

#[test]
fn group_setup_requests_carry_the_encrypted_key() {
    for version in [MacVersion::LORAWAN_1_0_4, MacVersion::LORAWAN_1_1_0] {
        let profile = DeviceProfile { mac_version: version, ..profile() };
        let root_key = mc_root_key(version, &KEYS).unwrap();
        let ke_key = multicastsetup::get_mc_ke_key(AES128Key::from_bytes(root_key)).unwrap();
        assert_ne!(ke_key.to_bytes(), root_key);
        let encrypted = multicastsetup::encrypt_mc_key(ke_key, AES128Key::from_bytes(MC_KEY));
        assert_ne!(encrypted, MC_KEY);
        let item = mc_group_setup_item(&deployment(), &profile, DEV_EUI, &KEYS).unwrap();
        assert_eq!(item.data[6..22], encrypted);
        assert_eq!(
            Ok(item),
            mc_group_setup_item_from_key(&deployment(), &profile, DEV_EUI, encrypted)
        );
    }
}

#[test]
fn session_setup_requests() {
    let item = frag_session_setup_item(&deployment(), &profile(), DEV_EUI).unwrap();
    assert_eq!(item.dev_eui, DEV_EUI);
    assert_eq!(item.f_port, 201);
    assert_eq!(item.data, vec![0x02, 0x01, 10, 0, 10, 0, 0, 0, 0, 0, 0]);
}

#[test]
fn session_setup_requests_announce_the_padding() {
    let mut deployment = deployment();
    deployment.fragmentation_fragment_size = 30;
    let item = frag_session_setup_item(&deployment, &profile(), DEV_EUI).unwrap();
    assert_eq!(item.data, vec![0x02, 0x01, 4, 0, 30, 0, 20, 0, 0, 0, 0]);
}

#[test]
fn session_setup_requests_keep_the_low_bits() {
    let mut deployment = deployment();
    deployment.payload = vec![1; 70_001];
    deployment.fragmentation_fragment_size = 1;
    let item = frag_session_setup_item(&deployment, &profile(), DEV_EUI).unwrap();
    // 70001 is 0x1_1171.
    assert_eq!(item.data, vec![0x02, 0x01, 0x71, 0x11, 1, 0, 0, 0, 0, 0, 0]);
    deployment.fragmentation_fragment_size = 300;
    let item = frag_session_setup_item(&deployment, &profile(), DEV_EUI).unwrap();
    // 234 fragments of 300 bytes, the last one with 199 bytes of padding.
    assert_eq!(item.data, vec![0x02, 0x01, 234, 0, 44, 0, 199, 0, 0, 0, 0]);
}

#[test]
fn session_setup_requests_for_negative_sizes() {
    let mut deployment = deployment();
    deployment.fragmentation_fragment_size = -1;
    let size = usize::MAX;
    let count = (100f32 / size as f32).ceil() as usize;
    let item = frag_session_setup_item(&deployment, &profile(), DEV_EUI).unwrap();
    assert_eq!(
        item.data,
        vec![0x02, 0x01, count as u8, 0, 255, 0, padding(100, size) as u8, 0, 0, 0, 0]
    );
}

#[test]
fn class_c_session_requests() {
    assert_eq!(
        session(&deployment(), 1024),
        vec![0x04, 0x00, 0x00, 0x04, 0x00, 0x00, 0x0f, 0x28, 0x76, 0x84, 0x05]
    );
    assert_eq!(session(&deployment(), 1100)[2..6], 1100u32.to_le_bytes());
}

#[test]
fn class_b_session_requests() {
    let mut deployment = deployment();
    deployment.multicast_group_type = "B".to_string();
    assert_eq!(
        session(&deployment, 1024),
        vec![0x05, 0x00, 0x00, 0x04, 0x00, 0x00, 0x4f, 0x28, 0x76, 0x84, 0x05]
    );
    assert_eq!(session(&deployment, 1100)[2..6], 1024u32.to_le_bytes());
    assert_eq!(session(&deployment, 1151)[2..6], 1024u32.to_le_bytes());
    assert_eq!(session(&deployment, 1152)[2..6], 1152u32.to_le_bytes());
}

#[test]
fn session_starts_keep_32_bits() {
    let mut class_b = deployment();
    class_b.multicast_group_type = "B".to_string();
    for gps_seconds in [
        i64::MIN,
        -4_294_967_297,
        -4_294_967_296,
        -1_000,
        -128,
        -1,
        0,
        127,
        128,
        1_400_000_000,
        4_294_967_295,
        4_294_967_296,
        4_294_967_296 + 1_000,
        i64::MAX,
    ] {
        let start = gps_seconds % (1 << 32);
        assert_eq!(session(&deployment(), gps_seconds)[2..6], (start as u32).to_le_bytes());
        let beacon = (start - (start % 128)) as u32;
        assert_eq!(session(&class_b, gps_seconds)[2..6], beacon.to_le_bytes());
        assert_eq!(beacon % 128, 0);
    }
}

#[test]
fn session_requests_for_high_frequencies() {
    let mut deployment = deployment();
    deployment.multicast_frequency = 2_403_000_000;
    // Steps of 200 Hz: 12015000 is 0xb7_5598.
    assert_eq!(session(&deployment, 0)[7..10], [0x98, 0x55, 0xb7]);
    deployment.multicast_frequency = 868_100_000 + 4_294_967_296;
    assert_eq!(session(&deployment, 0)[7..10], [0x28, 0x76, 0x84]);
}

#[test]
fn unsupported_group_types() {
    let mut deployment = deployment();
    deployment.multicast_group_type = "A".to_string();
    let error = mc_session_item(&deployment, &profile(), DEV_EUI, 1024).unwrap_err();
    assert_eq!(error, Error::UnsupportedGroupType("A".to_string()));
    assert_eq!(error.text(), "Unsupported group-type: A");
}

#[test]
fn session_requests_out_of_range() {
    for group_type in ["B", "C"] {
        let mut wrong = deployment();
        wrong.multicast_group_type = group_type.to_string();
        wrong.multicast_frequency = 868_100_001;
        assert_eq!(session_error(&wrong), "freq must be multiple of 100");
        wrong.multicast_frequency = 1_700_000_000;
        assert_eq!(session_error(&wrong), "max freq value is 2^24 - 1");
        wrong.multicast_timeout = 16;
        assert_eq!(session_error(&wrong), "Max time_out value is 15");
        wrong.multicast_timeout = -1;
        assert_eq!(session_error(&wrong), "Max time_out value is 15");
    }
    let mut wrong = deployment();
    wrong.multicast_group_type = "B".to_string();
    wrong.multicast_class_b_ping_slot_nb_k = 8;
    assert_eq!(session_error(&wrong), "Max periodicity value is 7");
    // The low byte of 256 is 0.
    wrong.multicast_class_b_ping_slot_nb_k = 256;
    assert_eq!(session(&wrong, 0)[6], 0x0f);
}

#[test]
fn fragments_are_those_of_the_encoder() {
    let deployment = deployment();
    let rows = image_fragments(&deployment).unwrap();
    assert_eq!(rows, fragmentation::encode(&deployment.payload, 10, 5).unwrap());
    assert_eq!(rows.len(), 15);
    assert_eq!(rows[10], vec![0x26, 0x26, 0x22, 0x22, 0x2e, 0x2e, 0x22, 0x22, 0x26, 0x26]);
    assert_eq!(rows[11], vec![0x54, 0x55, 0x56, 0x57, 0x58, 0x59, 0x6a, 0x6b, 0x7c, 0x7d]);
}

#[test]
fn fragments_hold_the_padded_image() {
    let mut deployment = deployment();
    for size in [1i16, 7, 10, 30, 99, 100, 101, 200] {
        deployment.fragmentation_fragment_size = size;
        deployment.fragmentation_redundancy_percentage = 30;
        let rows = image_fragments(&deployment).unwrap();
        let count = 100usize.div_ceil(size as usize);
        assert_eq!(rows.len(), count + (count * 30).div_ceil(100));
        let image = rows[..count].concat();
        assert_eq!(image[..100], deployment.payload[..]);
        assert!(image[100..].iter().all(|byte| *byte == 0));
        assert!(rows.iter().all(|row| row.len() == size as usize));
    }
}

#[test]
fn as_many_fragments_follow_as_announced() {
    let mut deployment = deployment();
    for size in [1i16, 7, 10, 30, 99, 100, 101, 200] {
        deployment.fragmentation_fragment_size = size;
        let request = frag_session_setup_item(&deployment, &profile(), DEV_EUI).unwrap().data;
        let announced = request[2] as usize + 256 * request[3] as usize;
        let rows = image_fragments(&deployment).unwrap();
        assert_eq!(rows.len(), announced + announced.div_ceil(2));
        assert_eq!(request[4], size as u8);
        assert_eq!(announced * size as usize, 100 + request[6] as usize);
    }
}

#[test]
fn empty_images_have_no_fragments() {
    let mut deployment = deployment();
    deployment.payload = vec![];
    assert_eq!(image_fragments(&deployment), Ok(vec![]));
    deployment.fragmentation_fragment_size = -1;
    assert!(is_fragmentable(&deployment));
    assert_eq!(image_fragments(&deployment), Ok(vec![]));
}

#[test]
fn images_that_cannot_be_fragmented() {
    let mut deployment = deployment();
    assert!(is_fragmentable(&deployment));
    deployment.fragmentation_fragment_size = 0;
    assert!(!is_fragmentable(&deployment));
    deployment.fragmentation_fragment_size = -10;
    assert!(!is_fragmentable(&deployment));
}

#[test]
fn fragments_are_numbered_from_one() {
    let item = fragment_item(&deployment(), &profile(), 0, &vec![7, 8, 9]).unwrap();
    assert_eq!(item.multicast_group_id, "e5a1");
    assert_eq!(item.f_port, 201);
    assert_eq!(item.data, vec![0x08, 0x01, 0x00, 7, 8, 9]);
    let item = fragment_item(&deployment(), &profile(), 0x1233, &vec![7]).unwrap();
    assert_eq!(item.data, vec![0x08, 0x34, 0x12, 7]);
    // 65536 is 0 in two bytes.
    let item = fragment_item(&deployment(), &profile(), 65_535, &vec![]).unwrap();
    assert_eq!(item.data, vec![0x08, 0x00, 0x00]);
}

#[test]
fn fragment_numbers_end_at_16383() {
    let item = fragment_item(&deployment(), &profile(), 16_382, &vec![7]).unwrap();
    assert_eq!(item.data, vec![0x08, 0xff, 0x3f, 7]);
    let error = fragment_item(&deployment(), &profile(), 16_383, &vec![7]).unwrap_err();
    assert_eq!(error, Error::Message("Max n value us 16383".to_string()));
    assert_eq!(error.text(), "Max n value us 16383");
}
