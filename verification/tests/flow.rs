use fuota::clock::{Interval, Timestamp, LAST_SECOND};
use fuota::flow::{is_runnable, pending_devices, Action, Event, Flow};
use fuota::fragmentation::handle_v1_frag_session_setup_ans_at;
use fuota::messages::FragSessionSetupAns;
use fuota::requests::{
    frag_session_setup_item, fragment_item, image_fragments, mc_group_setup_item, mc_session_item,
    multicast_group,
};
use fuota::types::{
    DeviceKeys, DeviceProfile, Error, FuotaDeployment, FuotaDeploymentDevice,
    FuotaDeploymentGateway, FuotaDeploymentJob, FuotaJob, MacVersion,
    MulticastGroupSchedulingType,
};
use lrwn::region::CommonName;

const JOBS: [FuotaJob; 8] = [
    FuotaJob::CreateMcGroup,
    FuotaJob::AddDevsToMcGroup,
    FuotaJob::AddGwsToMcGroup,
    FuotaJob::McGroupSetup,
    FuotaJob::FragSessionSetup,
    FuotaJob::McSession,
    FuotaJob::Enqueue,
    FuotaJob::FragStatus,
];

const NOW: Timestamp = Timestamp { secs: 1_700_000_000, nanos: 250_000_000 };
const DONE: Timestamp = Timestamp { secs: 1_600_000_000, nanos: 0 };
const INTERVAL: Interval = Interval { secs: 60, nanos: 800_000_000 };
const KEYS: DeviceKeys = DeviceKeys { app_key: [3; 16], gen_app_key: [4; 16] };

fn job(job: FuotaJob) -> FuotaDeploymentJob {
    FuotaDeploymentJob {
        fuota_deployment_id: "e5a1".to_string(),
        job,
        completed_at: None,
        max_retry_count: 2,
        attempt_count: 0,
        scheduler_run_after: DONE,
        return_msg: "".to_string(),
    }
}

fn deployment() -> FuotaDeployment {
    FuotaDeployment {
        id: "e5a1".to_string(),
        application_id: "a3f0".to_string(),
        multicast_addr: [1, 2, 3, 4],
        multicast_key: [5; 16],
        multicast_group_type: "C".to_string(),
        multicast_class_c_scheduling_type: MulticastGroupSchedulingType::Delay,
        multicast_dr: 5,
        multicast_class_b_ping_slot_nb_k: 4,
        multicast_frequency: 868_100_000,
        multicast_timeout: 15,
        unicast_max_retry_count: 3,
        fragmentation_fragment_size: 30,
        fragmentation_redundancy_percentage: 50,
        payload: (0..100u8).collect(),
    }
}

fn profile() -> DeviceProfile {
    DeviceProfile {
        region: CommonName::EU868,
        mac_version: MacVersion::LORAWAN_1_0_3,
        uplink_interval: 3600,
        ts004_f_port: 201,
        ts005_f_port: 200,
    }
}

/// A device that has completed the first `steps` steps.
fn device(number: u8, steps: u8) -> FuotaDeploymentDevice {
    let completed = |step: u8| if steps >= step { Some(DONE) } else { None };
    FuotaDeploymentDevice {
        fuota_deployment_id: "e5a1".to_string(),
        dev_eui: [number; 8],
        mc_group_setup_completed_at: completed(1),
        frag_session_setup_completed_at: completed(2),
        mc_session_completed_at: completed(3),
        return_msg: "".to_string(),
    }
}

fn devices() -> Vec<FuotaDeploymentDevice> {
    let steps = [0, 1, 2, 3, 0, 1, 2];
    (1..8).zip(steps).map(|(number, steps)| device(number, steps)).collect()
}

fn gateway(number: u8) -> FuotaDeploymentGateway {
    FuotaDeploymentGateway { fuota_deployment_id: "e5a1".to_string(), gateway_id: [number; 8] }
}

fn start(job: FuotaDeploymentJob) -> (Flow, Action) {
    Flow::handle_job_at(job, deployment(), profile(), INTERVAL, NOW)
}

fn step(flow: Flow, event: Event) -> (Flow, Action) {
    assert!(flow.expects(&event));
    flow.resume_at(event, NOW)
}

/// The run is over once the job is stored.
fn ends(flow: Flow) {
    let (flow, action) = step(flow, Event::Done);
    assert_eq!(action, Action::Finish(Ok(())));
    assert!(!flow.expects(&Event::Done));
    assert!(!flow.expects(&Event::Failed("".to_string())));
}

fn next_job(job: FuotaJob, max_retry_count: i16) -> Action {
    Action::CreateJob { fuota_deployment_id: "e5a1".to_string(), job, max_retry_count }
}

fn get_devices() -> Action {
    Action::GetDevices { fuota_deployment_id: "e5a1".to_string() }
}

/// The job after its first attempt, to run again after the uplink interval.
fn postponed(kind: FuotaJob) -> Action {
    Action::UpdateJob(FuotaDeploymentJob {
        attempt_count: 1,
        scheduler_run_after: Timestamp { secs: 1_700_003_600, nanos: 250_000_000 },
        ..job(kind)
    })
}

/// The job after a failed first attempt, to run again after the scheduler interval.
fn failed(kind: FuotaJob, text: &str) -> Action {
    Action::UpdateJob(FuotaDeploymentJob {
        attempt_count: 1,
        scheduler_run_after: Timestamp { secs: 1_700_000_061, nanos: 50_000_000 },
        return_msg: format!("Error: {}", text),
        ..job(kind)
    })
}

#[test]
fn the_group_is_created() {
    let (flow, action) = start(job(FuotaJob::CreateMcGroup));
    let group = multicast_group(&deployment(), &profile()).unwrap();
    assert_eq!(action, Action::CreateMulticastGroup(group));
    let (flow, action) = step(flow, Event::Done);
    assert_eq!(action, next_job(FuotaJob::AddDevsToMcGroup, 0));
    ends(flow);
}

#[test]
fn every_device_is_added() {
    let (mut flow, action) = start(job(FuotaJob::AddDevsToMcGroup));
    assert_eq!(action, get_devices());
    let mut event = Event::Devices(devices());
    for number in 1..8u8 {
        let (next, action) = step(flow, event);
        assert_eq!(
            action,
            Action::AddDevice { multicast_group_id: "e5a1".to_string(), dev_eui: [number; 8] }
        );
        flow = next;
        event = Event::Done;
    }
    let (flow, action) = step(flow, Event::Done);
    assert_eq!(action, next_job(FuotaJob::AddGwsToMcGroup, 0));
    ends(flow);
}

#[test]
fn every_gateway_is_added() {
    let (flow, action) = start(job(FuotaJob::AddGwsToMcGroup));
    assert_eq!(action, Action::GetGateways { fuota_deployment_id: "e5a1".to_string() });
    let (flow, action) = step(flow, Event::Gateways(vec![gateway(1), gateway(2)]));
    assert_eq!(
        action,
        Action::AddGateway { multicast_group_id: "e5a1".to_string(), gateway_id: [1; 8] }
    );
    let (flow, action) = step(flow, Event::Done);
    assert_eq!(
        action,
        Action::AddGateway { multicast_group_id: "e5a1".to_string(), gateway_id: [2; 8] }
    );
    let (flow, action) = step(flow, Event::Done);
    assert_eq!(action, next_job(FuotaJob::McGroupSetup, 3));
    ends(flow);
}

#[test]
fn no_gateways_are_no_error() {
    let (flow, _) = start(job(FuotaJob::AddGwsToMcGroup));
    let (flow, action) = step(flow, Event::Gateways(vec![]));
    assert_eq!(action, next_job(FuotaJob::McGroupSetup, 3));
    ends(flow);
}

#[test]
fn devices_are_asked_to_join_the_group() {
    let (mut flow, action) = start(job(FuotaJob::McGroupSetup));
    assert_eq!(action, get_devices());
    let mut event = Event::Devices(devices());
    for number in [1u8, 5] {
        let (next, action) = step(flow, event);
        assert_eq!(action, Action::GetDeviceKeys { dev_eui: [number; 8] });
        let (next, action) = step(next, Event::DeviceKeys(KEYS));
        let item = mc_group_setup_item(&deployment(), &profile(), [number; 8], &KEYS).unwrap();
        assert_eq!(action, Action::EnqueueDeviceItem(item));
        flow = next;
        event = Event::Done;
    }
    let (flow, action) = step(flow, Event::Done);
    assert_eq!(action, postponed(FuotaJob::McGroupSetup));
    ends(flow);
}

#[test]
fn the_next_job_follows_when_all_have_joined() {
    let (flow, _) = start(job(FuotaJob::McGroupSetup));
    let (flow, action) = step(flow, Event::Devices(vec![device(2, 1), device(3, 2)]));
    assert_eq!(action, next_job(FuotaJob::FragSessionSetup, 3));
    ends(flow);
}

#[test]
fn devices_are_asked_to_set_up_the_session() {
    let (mut flow, action) = start(job(FuotaJob::FragSessionSetup));
    assert_eq!(action, get_devices());
    let mut event = Event::Devices(devices());
    for number in [2u8, 6] {
        let (next, action) = step(flow, event);
        let item = frag_session_setup_item(&deployment(), &profile(), [number; 8]).unwrap();
        assert_eq!(action, Action::EnqueueDeviceItem(item));
        flow = next;
        event = Event::Done;
    }
    let (flow, action) = step(flow, Event::Done);
    assert_eq!(action, postponed(FuotaJob::FragSessionSetup));
    ends(flow);
}

#[test]
fn the_next_job_follows_when_all_are_set_up() {
    let (flow, _) = start(job(FuotaJob::FragSessionSetup));
    let (flow, action) = step(flow, Event::Devices(vec![device(1, 0), device(3, 2)]));
    assert_eq!(action, next_job(FuotaJob::McSession, 0));
    ends(flow);
}

#[test]
fn devices_are_told_when_the_session_starts() {
    let (mut flow, action) = start(job(FuotaJob::McSession));
    assert_eq!(action, get_devices());
    let mut event = Event::Devices(devices());
    for number in [3u8, 7] {
        let (next, action) = step(flow, event);
        // Three attempts of one hour each.
        let session_start = Timestamp { secs: 1_700_010_800, nanos: 250_000_000 };
        assert_eq!(action, Action::ToGpsTime(session_start));
        assert!(!next.expects(&Event::Failed("".to_string())));
        let (next, action) = step(next, Event::GpsTime(1_384_046_018));
        let item = mc_session_item(&deployment(), &profile(), [number; 8], 1_384_046_018).unwrap();
        assert_eq!(action, Action::EnqueueDeviceItem(item));
        flow = next;
        event = Event::Done;
    }
    let (flow, action) = step(flow, Event::Done);
    assert_eq!(action, postponed(FuotaJob::McSession));
    ends(flow);
}

#[test]
fn the_session_is_announced_in_all_attempts() {
    // Nobody is left to be told, and still the fragments do not follow.
    for attempt in 0..3 {
        let again = FuotaDeploymentJob { attempt_count: attempt, ..job(FuotaJob::McSession) };
        let (flow, _) = start(again);
        let (flow, action) = step(flow, Event::Devices(vec![device(4, 3)]));
        match action {
            Action::UpdateJob(job) => {
                assert_eq!(job.attempt_count, attempt + 1);
                assert_eq!(job.scheduler_run_after.secs, NOW.secs + 3600);
            }
            other => panic!("unexpected {:?}", other),
        }
        ends(flow);
    }
    let (flow, action) = start(FuotaDeploymentJob { attempt_count: 3, ..job(FuotaJob::McSession) });
    assert_eq!(action, next_job(FuotaJob::Enqueue, 0));
    ends(flow);
}

#[test]
fn the_session_has_started_after_all_attempts() {
    let mut now = NOW;
    let mut current = job(FuotaJob::McSession);
    let mut session_start = None;
    loop {
        let (flow, action) = Flow::handle_job_at(current, deployment(), profile(), INTERVAL, now);
        if let Action::CreateJob { job, .. } = action {
            assert_eq!(job, FuotaJob::Enqueue);
            break;
        }
        let (flow, action) = flow.resume_at(Event::Devices(vec![device(3, 2)]), now);
        match action {
            Action::ToGpsTime(time) => session_start = session_start.or(Some(time)),
            other => panic!("unexpected {:?}", other),
        }
        let (flow, _) = flow.resume_at(Event::GpsTime(0), now);
        let (_, action) = flow.resume_at(Event::Done, now);
        match action {
            Action::UpdateJob(job) => current = job,
            other => panic!("unexpected {:?}", other),
        }
        now = current.scheduler_run_after;
    }
    assert_eq!(session_start, Some(now));
}

#[test]
fn groups_of_another_class_have_no_session() {
    let mut other = deployment();
    other.multicast_group_type = "A".to_string();
    let (flow, _) = Flow::handle_job_at(job(FuotaJob::McSession), other, profile(), INTERVAL, NOW);
    let (flow, _) = step(flow, Event::Devices(vec![device(3, 2)]));
    let (flow, action) = step(flow, Event::GpsTime(0));
    assert_eq!(action, failed(FuotaJob::McSession, "Unsupported group-type: A"));
    let (_, action) = step(flow, Event::Done);
    assert_eq!(action, Action::Finish(Err(Error::UnsupportedGroupType("A".to_string()))));
}

#[test]
fn messages_that_cannot_be_encoded_fail_the_job() {
    let mut other = deployment();
    other.multicast_timeout = 16;
    let (flow, _) = Flow::handle_job_at(job(FuotaJob::McSession), other, profile(), INTERVAL, NOW);
    let (flow, _) = step(flow, Event::Devices(vec![device(3, 2)]));
    let (flow, action) = step(flow, Event::GpsTime(0));
    assert_eq!(action, failed(FuotaJob::McSession, "Max time_out value is 15"));
    let (_, action) = step(flow, Event::Done);
    assert_eq!(action, Action::Finish(Err(Error::Message("Max time_out value is 15".to_string()))));
}

#[test]
fn fragments_are_sent_in_order() {
    let rows = image_fragments(&deployment()).unwrap();
    assert_eq!(rows.len(), 6);
    let (mut flow, mut action) = start(job(FuotaJob::Enqueue));
    for (index, row) in rows.iter().enumerate() {
        let item = fragment_item(&deployment(), &profile(), index, row).unwrap();
        assert_eq!(item.data[1..3], [index as u8 + 1, 0]);
        assert_eq!(action, Action::EnqueueMulticastItem(item));
        (flow, action) = step(flow, Event::Done);
    }
    assert_eq!(action, next_job(FuotaJob::FragStatus, 0));
    ends(flow);
}

#[test]
fn an_empty_image_has_nothing_to_send() {
    let mut empty = deployment();
    empty.payload = vec![];
    let (flow, action) =
        Flow::handle_job_at(job(FuotaJob::Enqueue), empty, profile(), INTERVAL, NOW);
    assert_eq!(action, next_job(FuotaJob::FragStatus, 0));
    ends(flow);
}

#[test]
fn too_many_fragments_fail_the_job() {
    let mut large = deployment();
    large.fragmentation_fragment_size = 1;
    large.fragmentation_redundancy_percentage = 0;
    large.payload = vec![7; 16_384];
    let (mut flow, mut action) =
        Flow::handle_job_at(job(FuotaJob::Enqueue), large, profile(), INTERVAL, NOW);
    for number in 1..16_384u16 {
        match action {
            Action::EnqueueMulticastItem(item) => {
                assert_eq!(item.data[1..3], number.to_le_bytes());
            }
            other => panic!("unexpected {:?}", other),
        }
        (flow, action) = step(flow, Event::Done);
    }
    assert_eq!(action, failed(FuotaJob::Enqueue, "Max n value us 16383"));
    let (_, action) = step(flow, Event::Done);
    assert_eq!(action, Action::Finish(Err(Error::Message("Max n value us 16383".to_string()))));
}

#[test]
fn the_last_job_completes_the_update() {
    for attempt_count in [0, 9] {
        let last = FuotaDeploymentJob { attempt_count, ..job(FuotaJob::FragStatus) };
        let (flow, action) = start(last);
        assert_eq!(
            action,
            Action::UpdateJob(FuotaDeploymentJob {
                attempt_count: attempt_count + 1,
                completed_at: Some(NOW),
                ..job(FuotaJob::FragStatus)
            })
        );
        ends(flow);
    }
}

#[test]
fn essential_jobs_end_the_update_when_attempts_are_used_up() {
    for kind in [FuotaJob::CreateMcGroup, FuotaJob::AddDevsToMcGroup, FuotaJob::AddGwsToMcGroup] {
        let (flow, action) = start(FuotaDeploymentJob { attempt_count: 3, ..job(kind) });
        assert_eq!(
            action,
            Action::UpdateJob(FuotaDeploymentJob {
                attempt_count: 4,
                completed_at: Some(NOW),
                ..job(kind)
            })
        );
        ends(flow);
    }
}

#[test]
fn other_jobs_are_skipped_when_attempts_are_used_up() {
    for (kind, next, retries) in [
        (FuotaJob::McGroupSetup, FuotaJob::FragSessionSetup, 3),
        (FuotaJob::FragSessionSetup, FuotaJob::McSession, 0),
        (FuotaJob::McSession, FuotaJob::Enqueue, 0),
        (FuotaJob::Enqueue, FuotaJob::FragStatus, 0),
    ] {
        let (flow, action) = start(FuotaDeploymentJob { attempt_count: 3, ..job(kind) });
        assert_eq!(action, next_job(next, retries));
        ends(flow);
    }
}

#[test]
fn the_last_retry_still_works() {
    for kind in [FuotaJob::AddDevsToMcGroup, FuotaJob::McGroupSetup, FuotaJob::McSession] {
        let (_, action) = start(FuotaDeploymentJob { attempt_count: 2, ..job(kind) });
        assert_eq!(action, get_devices());
    }
}

#[test]
fn jobs_follow_in_order() {
    let mut order = vec![FuotaJob::CreateMcGroup];
    let mut current = FuotaDeploymentJob { max_retry_count: 0, ..job(FuotaJob::CreateMcGroup) };
    loop {
        let (mut flow, mut action) = start(current);
        let created = loop {
            let event = match action {
                Action::CreateJob { fuota_deployment_id, job: next, max_retry_count } => {
                    assert_eq!(fuota_deployment_id, "e5a1");
                    break Some((next, max_retry_count));
                }
                Action::UpdateJob(stored) if stored.completed_at.is_some() => break None,
                Action::UpdateJob(stored) => {
                    (flow, action) = start(stored);
                    continue;
                }
                Action::GetDevices { .. } => Event::Devices(vec![device(3, 2)]),
                Action::GetGateways { .. } => Event::Gateways(vec![gateway(1)]),
                Action::GetDeviceKeys { .. } => Event::DeviceKeys(KEYS),
                Action::ToGpsTime(_) => Event::GpsTime(0),
                Action::Finish(result) => panic!("unexpected {:?}", result),
                _ => Event::Done,
            };
            (flow, action) = step(flow, event);
        };
        match created {
            Some((next, max_retry_count)) => {
                order.push(next);
                current = FuotaDeploymentJob { max_retry_count, ..job(next) };
            }
            None => break,
        }
    }
    assert_eq!(order, JOBS);
}

#[test]
fn failed_actions_fail_the_job() {
    for kind in JOBS {
        let (flow, action) = start(job(kind));
        if matches!(action, Action::UpdateJob(_)) {
            continue;
        }
        let (flow, action) = step(flow, Event::Failed("connection lost".to_string()));
        assert_eq!(action, failed(kind, "connection lost"));
        let (_, action) = step(flow, Event::Done);
        assert_eq!(
            action,
            Action::Finish(Err(Error::Backend("connection lost".to_string())))
        );
    }
}

#[test]
fn failures_halfway_fail_the_job() {
    let text = || Event::Failed("queue full".to_string());
    let (flow, _) = start(job(FuotaJob::McGroupSetup));
    let (flow, _) = step(flow, Event::Devices(devices()));
    let (_, action) = step(flow, text());
    assert_eq!(action, failed(FuotaJob::McGroupSetup, "queue full"));

    let (flow, _) = start(job(FuotaJob::McGroupSetup));
    let (flow, _) = step(flow, Event::Devices(devices()));
    let (flow, _) = step(flow, Event::DeviceKeys(KEYS));
    let (_, action) = step(flow, text());
    assert_eq!(action, failed(FuotaJob::McGroupSetup, "queue full"));

    let (flow, _) = start(job(FuotaJob::Enqueue));
    let (flow, _) = step(flow, Event::Done);
    let (_, action) = step(flow, text());
    assert_eq!(action, failed(FuotaJob::Enqueue, "queue full"));
}

#[test]
fn jobs_that_cannot_be_stored_end_with_that_error() {
    let (flow, _) = start(job(FuotaJob::FragStatus));
    let (flow, action) = step(flow, Event::Failed("read-only".to_string()));
    assert_eq!(action, Action::Finish(Err(Error::Backend("read-only".to_string()))));
    assert!(!flow.expects(&Event::Done));

    // The error that the job failed with is not reported then.
    let (flow, _) = start(job(FuotaJob::CreateMcGroup));
    let (flow, _) = step(flow, Event::Failed("connection lost".to_string()));
    let (_, action) = step(flow, Event::Failed("read-only".to_string()));
    assert_eq!(action, Action::Finish(Err(Error::Backend("read-only".to_string()))));
}

#[test]
fn only_outcomes_of_the_action_are_expected() {
    let (flow, _) = start(job(FuotaJob::McGroupSetup));
    assert!(flow.expects(&Event::Devices(vec![])));
    assert!(!flow.expects(&Event::Gateways(vec![])));
    assert!(!flow.expects(&Event::Done));
    let (flow, _) = step(flow, Event::Devices(devices()));
    assert!(flow.expects(&Event::DeviceKeys(KEYS)));
    assert!(!flow.expects(&Event::Devices(vec![])));
    assert!(!flow.expects(&Event::GpsTime(0)));
    assert!(!flow.expects(&Event::Done));
    let (flow, _) = step(flow, Event::DeviceKeys(KEYS));
    assert!(flow.expects(&Event::Done));
    assert!(!flow.expects(&Event::DeviceKeys(KEYS)));
}

#[test]
fn jobs_work_on_the_devices_that_have_completed_the_step_before() {
    let picked = |kind: FuotaJob| -> Vec<u8> {
        pending_devices(kind, devices()).iter().map(|device| device.dev_eui[0]).collect()
    };
    assert_eq!(picked(FuotaJob::McGroupSetup), [1, 5]);
    assert_eq!(picked(FuotaJob::FragSessionSetup), [2, 6]);
    assert_eq!(picked(FuotaJob::McSession), [3, 7]);
    assert_eq!(picked(FuotaJob::AddDevsToMcGroup), [1, 2, 3, 4, 5, 6, 7]);
}

#[test]
fn setup_answers_decide_what_follows() {
    let mut accepting = device(2, 1);
    let mut refusing = device(6, 1);
    let accepted = FragSessionSetupAns {
        encoding_unsupported: false,
        not_enough_memory: false,
        frag_session_index_not_supported: false,
        wrong_descriptor: false,
        frag_index: 0,
    };
    let refused = FragSessionSetupAns { not_enough_memory: true, ..accepted };
    handle_v1_frag_session_setup_ans_at(&mut accepting, &accepted, NOW);
    handle_v1_frag_session_setup_ans_at(&mut refusing, &refused, NOW);
    let (flow, _) = start(job(FuotaJob::FragSessionSetup));
    let (_, action) = step(flow, Event::Devices(vec![accepting, refusing]));
    let item = frag_session_setup_item(&deployment(), &profile(), [6; 8]).unwrap();
    assert_eq!(action, Action::EnqueueDeviceItem(item));

    let mut accepting = device(2, 1);
    handle_v1_frag_session_setup_ans_at(&mut accepting, &accepted, NOW);
    let told = pending_devices(FuotaJob::McSession, vec![accepting, device(6, 1)]);
    assert_eq!(told.len(), 1);
    assert_eq!(told[0].dev_eui, [2; 8]);
}

#[test]
fn runs_end_after_two_replies_for_each_device() {
    let (mut flow, mut action) = start(job(FuotaJob::McSession));
    let mut replies = 0;
    while !matches!(action, Action::Finish(_)) {
        let event = match action {
            Action::GetDevices { .. } => Event::Devices((0..5).map(|n| device(n, 2)).collect()),
            Action::ToGpsTime(_) => Event::GpsTime(0),
            _ => Event::Done,
        };
        (flow, action) = step(flow, event);
        replies += 1;
    }
    assert_eq!(replies, 2 * 5 + 2);
    assert!(!flow.expects(&Event::Done));
}

#[test]
fn jobs_that_cannot_run() {
    let runnable = |job: FuotaDeploymentJob, size: i16| {
        let mut deployment = deployment();
        deployment.fragmentation_fragment_size = size;
        is_runnable(&job, &deployment, &INTERVAL)
    };
    for kind in JOBS {
        assert!(runnable(job(kind), 30));
        assert!(!runnable(FuotaDeploymentJob { attempt_count: i16::MAX, ..job(kind) }, 30));
        let late = Timestamp { secs: LAST_SECOND + 1, nanos: 0 };
        assert!(!runnable(FuotaDeploymentJob { scheduler_run_after: late, ..job(kind) }, 30));
        assert!(!is_runnable(
            &job(kind),
            &deployment(),
            &Interval { secs: 0, nanos: 1_000_000_000 }
        ));
    }
    assert!(!runnable(job(FuotaJob::FragSessionSetup), 0));
    assert!(!runnable(job(FuotaJob::Enqueue), 0));
    assert!(runnable(job(FuotaJob::FragSessionSetup), -1));
    assert!(!runnable(job(FuotaJob::Enqueue), -1));
    assert!(runnable(FuotaDeploymentJob { attempt_count: 3, ..job(FuotaJob::Enqueue) }, 0));
    assert!(runnable(job(FuotaJob::McGroupSetup), 0));
}

#[test]
fn runs_go_by_the_clock() {
    let before = chrono::Utc::now().timestamp();
    let (flow, action) =
        Flow::handle_job(job(FuotaJob::McGroupSetup), deployment(), profile(), INTERVAL).unwrap();
    assert_eq!(action, get_devices());
    let (flow, _) = flow.resume(Event::Devices(vec![device(1, 0)])).unwrap();
    let (flow, _) = flow.resume(Event::DeviceKeys(KEYS)).unwrap();
    let (flow, action) = flow.resume(Event::Done).unwrap();
    let after = chrono::Utc::now().timestamp();
    match action {
        Action::UpdateJob(job) => {
            let secs = job.scheduler_run_after.secs - 3600;
            assert!(before <= secs && secs <= after);
        }
        other => panic!("unexpected {:?}", other),
    }
    let (_, action) = flow.resume(Event::Done).unwrap();
    assert_eq!(action, Action::Finish(Ok(())));
}

#[test]
fn times_beyond_the_calendar_give_no_step() {
    let forever = Interval { secs: u64::MAX, nanos: 0 };
    let (flow, _) =
        Flow::handle_job(job(FuotaJob::CreateMcGroup), deployment(), profile(), forever).unwrap();
    assert!(flow.resume(Event::Failed("connection lost".to_string())).is_none());
    let (flow, _) =
        Flow::handle_job(job(FuotaJob::CreateMcGroup), deployment(), profile(), forever).unwrap();
    assert!(flow.resume(Event::Done).is_some());
}
