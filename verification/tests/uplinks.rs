use fuota::clock::Timestamp;
use fuota::fragmentation::{
    handle_uplink, handle_v1_frag_session_setup_ans, handle_v1_frag_session_setup_ans_at,
    Ts004Version,
};
use fuota::messages::FragSessionSetupAns;
use fuota::types::{Error, FuotaDeploymentDevice};
use lrwn::applayer::fragmentation::v1;

const NOW: Timestamp = Timestamp { secs: 1_700_000_000, nanos: 5 };

fn device() -> FuotaDeploymentDevice {
    FuotaDeploymentDevice {
        fuota_deployment_id: "update".to_string(),
        dev_eui: [1, 2, 3, 4, 5, 6, 7, 8],
        mc_group_setup_completed_at: Some(Timestamp { secs: 1, nanos: 0 }),
        frag_session_setup_completed_at: None,
        mc_session_completed_at: None,
        return_msg: "before".to_string(),
    }
}

fn answer(flags: u8) -> FragSessionSetupAns {
    FragSessionSetupAns {
        encoding_unsupported: flags & 1 != 0,
        not_enough_memory: flags & 2 != 0,
        frag_session_index_not_supported: flags & 4 != 0,
        wrong_descriptor: flags & 8 != 0,
        frag_index: 0,
    }
}

fn refused(data: &[u8]) -> String {
    match handle_uplink(Some(Ts004Version::V100), data) {
        Err(Error::Message(text)) => text,
        other => panic!("unexpected {:?}", other),
    }
}

#[test]
fn devices_without_the_package_are_refused() {
    let error = handle_uplink(None, &[0x02, 0x00]).unwrap_err();
    assert_eq!(error, Error::Ts004NotSupported);
    assert_eq!(error.text(), "Device does not support TS004");
}

#[test]
fn setup_answers_are_kept() {
    let ans = handle_uplink(Some(Ts004Version::V100), &[0x02, 0x00]).unwrap();
    assert_eq!(ans, Some(answer(0)));
    let ans = handle_uplink(Some(Ts004Version::V100), &[0x02, 0x48]).unwrap();
    assert_eq!(ans, Some(FragSessionSetupAns { frag_index: 1, ..answer(8) }));
    let ans = handle_uplink(Some(Ts004Version::V100), &[0x02, 0xff]).unwrap();
    assert_eq!(ans, Some(FragSessionSetupAns { frag_index: 3, ..answer(15) }));
}

#[test]
fn encoded_setup_answers_are_understood() {
    for flags in 0..16u8 {
        for frag_index in 0..4u8 {
            let ans = FragSessionSetupAns { frag_index, ..answer(flags) };
            let data = v1::Payload::FragSessionSetupAns(v1::FragSessionSetupAnsPayload {
                encoding_unsupported: ans.encoding_unsupported,
                not_enough_memory: ans.not_enough_memory,
                frag_session_index_not_supported: ans.frag_session_index_not_supported,
                wrong_descriptor: ans.wrong_descriptor,
                frag_index,
            })
            .to_vec()
            .unwrap();
            assert_eq!(handle_uplink(Some(Ts004Version::V100), &data), Ok(Some(ans)));
        }
    }
}

#[test]
fn other_answers_ask_for_nothing() {
    for data in [vec![0x00, 0x03, 0x01], vec![0x01, 0x00, 0xc4, 0x80, 0x01], vec![0x03, 0x04]] {
        assert_eq!(handle_uplink(Some(Ts004Version::V100), &data), Ok(None));
    }
}

#[test]
fn malformed_uplinks_are_refused() {
    assert_eq!(refused(&[]), "At least one byte is expected");
    assert_eq!(refused(&[0x00]), "Expected 2 bytes");
    assert_eq!(refused(&[0x00, 1, 2, 3]), "Expected 2 bytes");
    assert_eq!(refused(&[0x01, 1, 2, 3]), "Expected 4 bytes");
    assert_eq!(refused(&[0x02]), "Expected 1 byte");
    assert_eq!(refused(&[0x02, 0, 0]), "Expected 1 byte");
    assert_eq!(refused(&[0x03]), "Expected 1 byte");
    assert_eq!(refused(&[0x04]), "Invalid CID: 4");
    assert_eq!(refused(&[0x08, 1, 2, 3]), "Invalid CID: 8");
    assert_eq!(refused(&[42, 1]), "Invalid CID: 42");
    assert_eq!(refused(&[0xff]), "Invalid CID: 255");
}

#[test]
fn accepted_sessions_are_dated() {
    assert!(!answer(0).is_refused());
    let mut fuota_dev = device();
    handle_v1_frag_session_setup_ans_at(&mut fuota_dev, &answer(0), NOW);
    assert_eq!(
        fuota_dev,
        FuotaDeploymentDevice { frag_session_setup_completed_at: Some(NOW), ..device() }
    );
}

#[test]
fn refused_sessions_leave_a_message() {
    let mut fuota_dev = device();
    handle_v1_frag_session_setup_ans_at(&mut fuota_dev, &answer(6), NOW);
    assert_eq!(
        fuota_dev.return_msg,
        "Error: FragSessionAns response encoding_unsupported=false, not_enough_memory=true, frag_session_index_not_supported=true, wrong_descriptor=false"
    );
    fuota_dev.return_msg = "before".to_string();
    assert_eq!(fuota_dev, device());
}

#[test]
fn every_flag_is_a_refusal() {
    for flags in 1..16u8 {
        let ans = answer(flags);
        assert!(ans.is_refused());
        let mut fuota_dev = device();
        handle_v1_frag_session_setup_ans_at(&mut fuota_dev, &ans, NOW);
        assert_eq!(fuota_dev.frag_session_setup_completed_at, None);
        assert_eq!(
            fuota_dev.return_msg,
            format!(
                "Error: FragSessionAns response encoding_unsupported={}, not_enough_memory={}, frag_session_index_not_supported={}, wrong_descriptor={}",
                ans.encoding_unsupported,
                ans.not_enough_memory,
                ans.frag_session_index_not_supported,
                ans.wrong_descriptor
            )
        );
    }
}

#[test]
fn answers_are_recorded_at_the_time_of_the_clock() {
    let before = chrono::Utc::now().timestamp();
    let mut fuota_dev = device();
    handle_v1_frag_session_setup_ans(&mut fuota_dev, &answer(0));
    let after = chrono::Utc::now().timestamp();
    let time = fuota_dev.frag_session_setup_completed_at.unwrap();
    assert!(before <= time.secs && time.secs <= after);
    assert!(time.is_valid());
}
