//! What every step of a run does, job by job.

use crate::clock::{Instant, Interval};
use crate::flow::{
    awaits, can_run, pending, stepped, unstarted, Action, ActionView, EventView, Flow, FlowView,
    StageView,
};
use crate::fragments::{law_padding_fills_the_last_fragment, padded};
use crate::keys::{
    encrypted_mc_key, mc_ke_key, mc_root_key_for_app_key, mc_root_key_for_gen_app_key,
};
use crate::laws::contents::{
    law_fragment_downlinks_carry_the_whole_fragment,
    law_group_setup_requests_carry_the_key_of_the_device,
};
use crate::requests::{
    frag_session_setup_item_of, fragment_item_of, holds_image, image_fragments_of,
    mc_group_setup_item_of, mc_session_item_of, redundancy_of,
};
use crate::types::{
    DeviceKeys, DeviceProfile, ErrorView, FuotaDeployment, FuotaDeploymentDevice,
    FuotaDeploymentGateway, FuotaDeploymentJob, FuotaJob, JobView,
};
use vstd::prelude::*;

verus! {

/// A run starts from what it is given, and nothing has been asked yet.
pub proof fn law_runs_start_from_what_they_are_given(
    job: FuotaDeploymentJob,
    deployment: FuotaDeployment,
    profile: DeviceProfile,
    scheduler_interval: Interval,
)
    ensures
        ({
            let flow = unstarted(job, deployment, profile, scheduler_interval);
            &&& flow.job == job@
            &&& flow.fuota_deployment == deployment
            &&& flow.device_profile == profile
            &&& flow.scheduler_interval == scheduler_interval
            &&& flow.stage is Idle
        }),
{
}

/// A job can run if its attempt can be counted and its times are on the calendar.  A session needs
/// a fragment size, and sending needs one that suits the image, unless no attempt is left.
pub proof fn law_jobs_that_can_run(
    job: JobView,
    deployment: FuotaDeployment,
    scheduler_interval: Interval,
)
    ensures
        can_run(job, deployment, scheduler_interval) <==> {
            let size = deployment.fragmentation_fragment_size;
            &&& job.attempt_count < 32767
            &&& -8_334_601_228_800 <= job.scheduler_run_after.secs <= 8_210_266_876_799
            &&& 0 <= job.scheduler_run_after.nanos < 1_000_000_000
            &&& scheduler_interval.nanos < 1_000_000_000
            &&& job.attempt_count <= job.max_retry_count && job.job is FragSessionSetup ==> size
                != 0
            &&& job.attempt_count <= job.max_retry_count && job.job is Enqueue ==> (size > 0 || (
            size < 0 && deployment.payload@.len() == 0)) && 1001 * redundancy_of(deployment) + 1
                <= usize::MAX
        },
{
}

/// A job that has attempts left does its work: it begins with the action that its work consists of,
/// and neither completes nor hands over to another job.
pub proof fn law_jobs_with_attempts_left_do_their_work(flow: FlowView, now: Instant)
    requires
        flow.job.attempt_count <= flow.job.max_retry_count,
    ensures
        flow.job.job is CreateMcGroup ==> flow.dispatch(now).1 is CreateMulticastGroup
            && flow.dispatch(now).0.stage is CreateGroup,
        flow.job.job is AddDevsToMcGroup || flow.job.job is McGroupSetup || flow.job.job
            is FragSessionSetup || flow.job.job is McSession ==> flow.dispatch(now).1 == (
        ActionView::GetDevices { fuota_deployment_id: flow.job.fuota_deployment_id })
            && flow.dispatch(now).0.stage is ListDevices,
        flow.job.job is AddGwsToMcGroup ==> flow.dispatch(now).1 == (ActionView::GetGateways {
            fuota_deployment_id: flow.job.fuota_deployment_id,
        }) && flow.dispatch(now).0.stage is ListGateways,
        flow.job.job is Enqueue && image_fragments_of(flow.fuota_deployment).len() > 0 ==> {
            let fragments = image_fragments_of(flow.fuota_deployment);
            let item = flow.dispatch(now).1->EnqueueMulticastItem_0;
            &&& flow.dispatch(now).1 is EnqueueMulticastItem
            &&& item.multicast_group_id == flow.fuota_deployment.id@
            &&& item.f_port == flow.device_profile.ts004_f_port
            &&& item.data[1] + 256 * item.data[2] == 1
            &&& item.data.skip(3) == fragments[0]
            &&& flow.dispatch(now).0.stage == (StageView::FragmentItem { fragments, index: 0 })
        },
        flow.job.job is Enqueue && image_fragments_of(flow.fuota_deployment).len() == 0
            ==> flow.dispatch(now).1 == (ActionView::CreateJob {
            fuota_deployment_id: flow.job.fuota_deployment_id,
            job: FuotaJob::FragStatus,
            max_retry_count: 0,
        }),
{
    if flow.job.job is Enqueue && image_fragments_of(flow.fuota_deployment).len() > 0 {
        law_fragment_downlinks_carry_the_whole_fragment(
            flow.fuota_deployment,
            flow.device_profile,
            0,
            image_fragments_of(flow.fuota_deployment)[0],
        );
    }
}

/// An image that is not empty is sent, from its beginning, by a job that has attempts left.
pub proof fn law_images_are_sent(flow: FlowView, now: Instant)
    requires
        flow.job.job is Enqueue,
        flow.job.attempt_count <= flow.job.max_retry_count,
        flow.fuota_deployment.fragmentation_fragment_size > 0,
        flow.fuota_deployment.payload@.len() > 0,
        holds_image(flow.fuota_deployment, image_fragments_of(flow.fuota_deployment)),
    ensures
        flow.dispatch(now).1 is EnqueueMulticastItem,
        ({
            let size = flow.fuota_deployment.fragmentation_fragment_size as nat;
            let payload = flow.fuota_deployment.payload@;
            let data = flow.dispatch(now).1->EnqueueMulticastItem_0.data;
            &&& data.len() == 3 + size
            &&& forall|i: int|
                0 <= i < size ==> #[trigger] data[3 + i] == if i < payload.len() {
                    payload[i]
                } else {
                    0u8
                }
        }),
{
    let deployment = flow.fuota_deployment;
    let size = deployment.fragmentation_fragment_size as nat;
    let payload = deployment.payload@;
    let image = padded(payload, size);
    let rows = image_fragments_of(deployment);
    law_padding_fills_the_last_fragment(payload.len(), size);
    assert(image.len() / size > 0 && image.len() >= size) by (nonlinear_arith)
        requires
            image.len() > 0,
            image.len() % size == 0,
            size > 0,
    ;
    let first: int = 0;
    assert(rows[first] == image.subrange(first * size, (first + 1) * size));
    assert(first * size == 0 && (first + 1) * size == size) by (nonlinear_arith)
        requires
            first == 0,
    ;
    law_jobs_with_attempts_left_do_their_work(flow, now);
    law_fragment_downlinks_carry_the_whole_fragment(deployment, flow.device_profile, 0, rows[0]);
    let data = flow.dispatch(now).1->EnqueueMulticastItem_0.data;
    assert forall|i: int| 0 <= i < size implies #[trigger] data[3 + i] == if i < payload.len() {
        payload[i]
    } else {
        0u8
    } by {
        assert(data.skip(3)[i] == data[3 + i]);
        assert(rows[0][i] == image[i]);
    }
}

/// A job without attempts left does nothing.  The first three jobs and the last one are completed,
/// and no job follows.  After the others the next job follows, with the retries of the deployment
/// if it waits for answers of devices.
pub proof fn law_jobs_without_attempts_left_do_nothing(flow: FlowView, now: Instant)
    requires
        flow.job.attempt_count > flow.job.max_retry_count || flow.job.job is FragStatus,
    ensures
        flow.dispatch(now).0.stage == (StageView::Save { result: Ok(()) }),
        flow.job.job is CreateMcGroup || flow.job.job is AddDevsToMcGroup || flow.job.job
            is AddGwsToMcGroup || flow.job.job is FragStatus ==> {
            let job = flow.dispatch(now).1->UpdateJob_0;
            &&& flow.dispatch(now).1 is UpdateJob
            &&& job.completed_at == Some(now)
            &&& job.fuota_deployment_id == flow.job.fuota_deployment_id
            &&& job.job == flow.job.job
            &&& job.max_retry_count == flow.job.max_retry_count
            &&& job.attempt_count == flow.job.attempt_count + 1
            &&& job.scheduler_run_after == flow.job.scheduler_run_after
            &&& job.return_msg == flow.job.return_msg
        },
        flow.job.job is McGroupSetup ==> flow.dispatch(now).1 == (ActionView::CreateJob {
            fuota_deployment_id: flow.job.fuota_deployment_id,
            job: FuotaJob::FragSessionSetup,
            max_retry_count: flow.fuota_deployment.unicast_max_retry_count as int,
        }),
        flow.job.job is FragSessionSetup ==> flow.dispatch(now).1 == (ActionView::CreateJob {
            fuota_deployment_id: flow.job.fuota_deployment_id,
            job: FuotaJob::McSession,
            max_retry_count: 0,
        }),
        flow.job.job is McSession ==> flow.dispatch(now).1 == (ActionView::CreateJob {
            fuota_deployment_id: flow.job.fuota_deployment_id,
            job: FuotaJob::Enqueue,
            max_retry_count: 0,
        }),
        flow.job.job is Enqueue ==> flow.dispatch(now).1 == (ActionView::CreateJob {
            fuota_deployment_id: flow.job.fuota_deployment_id,
            job: FuotaJob::FragStatus,
            max_retry_count: 0,
        }),
{
}

/// A run changes nothing but the number of attempts, by one at its start, and the time at which the
/// job runs again, at its end.
pub proof fn law_runs_change_attempts_and_schedule_only(
    flow: FlowView,
    event: EventView,
    now: Instant,
)
    requires
        flow.wf(),
        flow.expects(event),
    ensures
        ({
            let first = flow.dispatch(now).0;
            &&& first.job.fuota_deployment_id == flow.job.fuota_deployment_id
            &&& first.job.job == flow.job.job
            &&& first.job.completed_at == flow.job.completed_at
            &&& first.job.max_retry_count == flow.job.max_retry_count
            &&& first.job.attempt_count == flow.job.attempt_count + 1
            &&& first.job.scheduler_run_after == flow.job.scheduler_run_after
            &&& first.job.return_msg == flow.job.return_msg
            &&& first.fuota_deployment == flow.fuota_deployment
            &&& first.device_profile == flow.device_profile
            &&& first.scheduler_interval == flow.scheduler_interval
        }),
        ({
            let next = flow.resume(event, now).0;
            &&& next.job.fuota_deployment_id == flow.job.fuota_deployment_id
            &&& next.job.job == flow.job.job
            &&& next.job.completed_at == flow.job.completed_at
            &&& next.job.max_retry_count == flow.job.max_retry_count
            &&& next.job.attempt_count == flow.job.attempt_count
            &&& next.job.return_msg == flow.job.return_msg
            &&& next.fuota_deployment == flow.fuota_deployment
            &&& next.device_profile == flow.device_profile
            &&& next.scheduler_interval == flow.scheduler_interval
            &&& !(next.stage is Save) ==> next.job.scheduler_run_after
                == flow.job.scheduler_run_after
        }),
{
}

/// The devices that a job works on are those that have completed the step before, and not its own.
pub proof fn law_jobs_work_on_the_devices_whose_turn_it_is(devices: Seq<FuotaDeploymentDevice>)
    ensures
        pending(FuotaJob::McGroupSetup, devices) == devices.filter(
            |device: FuotaDeploymentDevice| device.mc_group_setup_completed_at is None,
        ),
        pending(FuotaJob::FragSessionSetup, devices) == devices.filter(
            |device: FuotaDeploymentDevice|
                device.mc_group_setup_completed_at is Some
                    && device.frag_session_setup_completed_at is None,
        ),
        pending(FuotaJob::McSession, devices) == devices.filter(
            |device: FuotaDeploymentDevice|
                device.frag_session_setup_completed_at is Some && device.mc_session_completed_at
                    is None,
        ),
{
    lemma_same_filter(
        devices,
        |device: FuotaDeploymentDevice| awaits(FuotaJob::McGroupSetup, device),
        |device: FuotaDeploymentDevice| device.mc_group_setup_completed_at is None,
    );
    lemma_same_filter(
        devices,
        |device: FuotaDeploymentDevice| awaits(FuotaJob::FragSessionSetup, device),
        |device: FuotaDeploymentDevice|
            device.mc_group_setup_completed_at is Some && device.frag_session_setup_completed_at
                is None,
    );
    lemma_same_filter(
        devices,
        |device: FuotaDeploymentDevice| awaits(FuotaJob::McSession, device),
        |device: FuotaDeploymentDevice|
            device.frag_session_setup_completed_at is Some && device.mc_session_completed_at
                is None,
    );
}

proof fn lemma_same_filter(
    devices: Seq<FuotaDeploymentDevice>,
    a: spec_fn(FuotaDeploymentDevice) -> bool,
    b: spec_fn(FuotaDeploymentDevice) -> bool,
)
    requires
        forall|device: FuotaDeploymentDevice| #[trigger] a(device) == b(device),
    ensures
        devices.filter(a) == devices.filter(b),
    decreases devices.len(),
{
    reveal(Seq::filter);
    if devices.len() > 0 {
        lemma_same_filter(devices.drop_last(), a, b);
    }
}

/// Whether a step turns to device number `index`: it adds the device, reads its keys, asks it for
/// the session, or takes the start of the session that it is told, one uplink interval from `now`
/// for every attempt.
pub open spec fn turns_to(
    flow: FlowView,
    step: (FlowView, ActionView),
    devices: Seq<FuotaDeploymentDevice>,
    index: int,
    now: Instant,
) -> bool {
    &&& flow.job.job is AddDevsToMcGroup ==> {
        &&& step.0.stage == (StageView::AddDevice { devices, index })
        &&& step.1 == (ActionView::AddDevice {
            multicast_group_id: devices[index].fuota_deployment_id@,
            dev_eui: devices[index].dev_eui@,
        })
    }
    &&& flow.job.job is McGroupSetup ==> {
        &&& step.0.stage == (StageView::DeviceKeys { devices, index })
        &&& step.1 == (ActionView::GetDeviceKeys { dev_eui: devices[index].dev_eui@ })
    }
    &&& flow.job.job is FragSessionSetup ==> {
        &&& step.0.stage == (StageView::DeviceItem { devices, index })
        &&& step.1 is EnqueueDeviceItem
        &&& step.1->EnqueueDeviceItem_0 == frag_session_setup_item_of(
            flow.fuota_deployment,
            flow.device_profile,
            devices[index].dev_eui@,
        )
    }
    &&& flow.job.job is McSession ==> {
        let wait = (flow.job.max_retry_count + 1) * flow.device_profile.uplink_interval;
        &&& step.0.stage == (StageView::GpsTime { devices, index })
        &&& step.1 is ToGpsTime
        &&& step.1->ToGpsTime_0.secs == now.secs + wait
        &&& step.1->ToGpsTime_0.nanos == now.nanos
    }
}

/// The devices that have been read are taken in order, those only whose turn it is.
pub proof fn law_the_first_device_comes_first(
    flow: FlowView,
    devices: Seq<FuotaDeploymentDevice>,
    chosen: Seq<FuotaDeploymentDevice>,
    now: Instant,
)
    requires
        flow.wf(),
        flow.stage is ListDevices,
        0 <= now.nanos < 1_000_000_000,
        flow.job.job is AddDevsToMcGroup ==> chosen == devices,
        flow.job.job is McGroupSetup ==> chosen == devices.filter(
            |device: FuotaDeploymentDevice| device.mc_group_setup_completed_at is None,
        ),
        flow.job.job is FragSessionSetup ==> chosen == devices.filter(
            |device: FuotaDeploymentDevice|
                device.mc_group_setup_completed_at is Some
                    && device.frag_session_setup_completed_at is None,
        ),
        flow.job.job is McSession ==> chosen == devices.filter(
            |device: FuotaDeploymentDevice|
                device.frag_session_setup_completed_at is Some && device.mc_session_completed_at
                    is None,
        ),
    ensures
        flow.resume(EventView::Devices(devices), now).0.stage == (StageView::Save {
            result: Ok(()),
        }) <==> chosen.len() == 0,
        chosen.len() > 0 ==> turns_to(
            flow,
            flow.resume(EventView::Devices(devices), now),
            chosen,
            0,
            now,
        ),
{
    law_jobs_work_on_the_devices_whose_turn_it_is(devices);
}

/// The gateways that have been read are taken in order.
pub proof fn law_the_first_gateway_comes_first(
    flow: FlowView,
    gateways: Seq<FuotaDeploymentGateway>,
    now: Instant,
)
    requires
        flow.wf(),
        flow.stage is ListGateways,
    ensures
        ({
            let step = flow.resume(EventView::Gateways(gateways), now);
            &&& step.0.stage == (StageView::Save { result: Ok(()) }) <==> gateways.len() == 0
            &&& gateways.len() > 0 ==> {
                &&& step.0.stage == (StageView::AddGateway { gateways, index: 0 })
                &&& step.1 == (ActionView::AddGateway {
                    multicast_group_id: gateways[0].fuota_deployment_id@,
                    gateway_id: gateways[0].gateway_id@,
                })
            }
        }),
{
}

/// After a device, gateway or fragment comes the one behind it, and after the last one the work is
/// done.
pub proof fn law_the_next_one_comes_next(flow: FlowView, now: Instant)
    requires
        flow.wf(),
        0 <= now.nanos < 1_000_000_000,
    ensures
        flow.stage matches StageView::AddDevice { devices, index } ==> if index + 1
            < devices.len() {
            turns_to(flow, flow.resume(EventView::Done, now), devices, index + 1, now)
        } else {
            flow.resume(EventView::Done, now).0.stage == (StageView::Save { result: Ok(()) })
        },
        flow.stage matches StageView::DeviceItem { devices, index } ==> if index + 1
            < devices.len() {
            turns_to(flow, flow.resume(EventView::Done, now), devices, index + 1, now)
        } else {
            flow.resume(EventView::Done, now).0.stage == (StageView::Save { result: Ok(()) })
        },
        flow.stage matches StageView::AddGateway { gateways, index } ==> {
            let step = flow.resume(EventView::Done, now);
            if index + 1 < gateways.len() {
                &&& step.0.stage == (StageView::AddGateway { gateways, index: index + 1 })
                &&& step.1 == (ActionView::AddGateway {
                    multicast_group_id: gateways[index + 1].fuota_deployment_id@,
                    gateway_id: gateways[index + 1].gateway_id@,
                })
            } else {
                step.0.stage == (StageView::Save { result: Ok(()) })
            }
        },
        flow.stage matches StageView::FragmentItem { fragments, index } ==> {
            let step = flow.resume(EventView::Done, now);
            let item = step.1->EnqueueMulticastItem_0;
            if index + 1 < fragments.len() {
                &&& (index + 2) % 0x1_0000 <= 16383 ==> {
                    &&& step.0.stage == (StageView::FragmentItem { fragments, index: index + 1 })
                    &&& step.1 is EnqueueMulticastItem
                    &&& item.multicast_group_id == flow.fuota_deployment.id@
                    &&& item.f_port == flow.device_profile.ts004_f_port
                    &&& item.data.len() == 3 + fragments[index + 1].len()
                    &&& item.data[0] == 0x08
                    &&& item.data[1] + 256 * item.data[2] == (index + 2) % 0x1_0000
                    &&& item.data.skip(3) == fragments[index + 1]
                }
                &&& (index + 2) % 0x1_0000 > 16383 ==> step.0.stage == (StageView::Save {
                    result: Err(ErrorView::Message("Max n value us 16383"@)),
                })
            } else {
                step.0.stage == (StageView::Save { result: Ok(()) })
            }
        },
        flow.stage is CreateGroup ==> flow.resume(EventView::Done, now).0.stage == (
        StageView::Save { result: Ok(()) }),
{
    if flow.stage is FragmentItem {
        let fragments = flow.stage->FragmentItem_fragments;
        let index = flow.stage->FragmentItem_index;
        if index + 1 < fragments.len() {
            law_fragment_downlinks_carry_the_whole_fragment(
                flow.fuota_deployment,
                flow.device_profile,
                index + 1,
                fragments[index + 1],
            );
        }
    }
}

/// The keys that are read for a device go into the request to that very device, and into no other.
///
/// `root_key` is the one that goes with the version of the devices, and `encrypted` is the
/// multicast key, encrypted for the device.
pub proof fn law_keys_are_used_for_the_device_they_were_read_for(
    flow: FlowView,
    event: EventView,
    now: Instant,
    keys: DeviceKeys,
    later: Instant,
    root_key: Seq<u8>,
    encrypted: Seq<u8>,
)
    requires
        flow.wf(),
        flow.expects(event),
        flow.resume(event, now).1 is GetDeviceKeys,
        flow.device_profile.mac_version is LORAWAN_1_1_0 || flow.device_profile.mac_version
            is Latest ==> root_key == mc_root_key_for_app_key(keys.app_key@),
        !(flow.device_profile.mac_version is LORAWAN_1_1_0) && !(flow.device_profile.mac_version
            is Latest) ==> root_key == mc_root_key_for_gen_app_key(keys.gen_app_key@),
        encrypted == encrypted_mc_key(mc_ke_key(root_key), flow.fuota_deployment.multicast_key@),
        encrypted.len() == 16,
    ensures
        ({
            let asked = flow.resume(event, now);
            let sent = asked.0.resume(EventView::DeviceKeys(keys), later);
            let item = sent.1->EnqueueDeviceItem_0;
            &&& asked.0.expects(EventView::DeviceKeys(keys))
            &&& sent.1 is EnqueueDeviceItem
            &&& item == mc_group_setup_item_of(
                flow.fuota_deployment,
                flow.device_profile,
                asked.1->GetDeviceKeys_dev_eui,
                keys,
            )
            &&& item.dev_eui == asked.1->GetDeviceKeys_dev_eui
            &&& item.data.subrange(6, 22) == encrypted
            &&& sent.0.stage == (StageView::DeviceItem {
                devices: asked.0.stage->DeviceKeys_devices,
                index: asked.0.stage->DeviceKeys_index,
            })
        }),
{
    let asked = flow.resume(event, now);
    law_group_setup_requests_carry_the_key_of_the_device(
        flow.fuota_deployment,
        flow.device_profile,
        asked.1->GetDeviceKeys_dev_eui,
        keys,
        root_key,
        encrypted,
    );
}

/// The start that was converted is announced to the device whose turn it is, or the run fails
/// because it cannot be announced.
pub proof fn law_starts_are_announced_to_the_device_whose_turn_it_is(
    flow: FlowView,
    gps_seconds: int,
    now: Instant,
)
    requires
        flow.wf(),
        flow.stage is GpsTime,
    ensures
        ({
            let step = flow.resume(EventView::GpsTime(gps_seconds), now);
            let devices = flow.stage->GpsTime_devices;
            let index = flow.stage->GpsTime_index;
            match mc_session_item_of(
                flow.fuota_deployment,
                flow.device_profile,
                devices[index].dev_eui@,
                gps_seconds,
            ) {
                Ok(item) => {
                    &&& step.1 == ActionView::EnqueueDeviceItem(item)
                    &&& step.0.stage == (StageView::DeviceItem { devices, index })
                },
                Err(error) => step.0.stage == (StageView::Save { result: Err(error) }),
            }
        }),
{
}

/// A run fails if and only if an action fails, the session cannot be announced, or the fragments
/// outnumber what can be counted.  It never fails in its first step.
pub proof fn law_runs_fail_only_for_a_reason(flow: FlowView, event: EventView, now: Instant)
    requires
        flow.wf(),
        flow.expects(event),
        !(flow.stage is Save),
    ensures
        !(flow.dispatch(now).0.stage is Save && flow.dispatch(now).0.stage->result is Err),
        ({
            let next = flow.resume(event, now).0.stage;
            next is Save && next->result is Err <==> {
                ||| event is Failed
                ||| flow.stage is GpsTime && mc_session_item_of(
                    flow.fuota_deployment,
                    flow.device_profile,
                    flow.stage->GpsTime_devices[flow.stage->GpsTime_index].dev_eui@,
                    event->GpsTime_0,
                ) is Err
                ||| flow.stage is FragmentItem && flow.stage->FragmentItem_index + 1
                    < flow.stage->fragments.len() && (flow.stage->FragmentItem_index + 2)
                    % 0x1_0000 > 16383
            }
        }),
        event matches EventView::Failed(text) ==> flow.resume(event, now).0.stage == (
        StageView::Save { result: Err(ErrorView::Backend(text)) }),
{
    if flow.job.job is Enqueue && image_fragments_of(flow.fuota_deployment).len() > 0 {
        law_fragment_downlinks_carry_the_whole_fragment(
            flow.fuota_deployment,
            flow.device_profile,
            0,
            image_fragments_of(flow.fuota_deployment)[0],
        );
    }
    lemma_fragments_can_be_counted(flow, now);
}

proof fn lemma_fragments_can_be_counted(flow: FlowView, now: Instant)
    requires
        flow.wf(),
    ensures
        flow.stage matches StageView::FragmentItem { fragments, index } ==> (index + 1
            < fragments.len() ==> (fragment_item_of(
            flow.fuota_deployment,
            flow.device_profile,
            index + 1,
            fragments[index + 1],
        ) is Ok <==> (index + 2) % 0x1_0000 <= 16383)),
{
    if flow.stage is FragmentItem {
        let fragments = flow.stage->fragments;
        let index = flow.stage->FragmentItem_index;
        law_fragment_downlinks_carry_the_whole_fragment(
            flow.fuota_deployment,
            flow.device_profile,
            index + 1,
            fragments[index + 1],
        );
    }
}

/// A run that fails stores its job with the error, to run again after the scheduler interval, and
/// leaves the rest of the job as it is.
pub proof fn law_failed_jobs_run_again_after_the_scheduler_interval(
    flow: FlowView,
    event: EventView,
    now: Instant,
    error: ErrorView,
)
    requires
        flow.wf(),
        flow.expects(event),
        !(flow.stage is Save),
        flow.resume(event, now).0.stage == (StageView::Save { result: Err(error) }),
    ensures
        ({
            let job = flow.resume(event, now).1->UpdateJob_0;
            let run_after = job.scheduler_run_after;
            &&& flow.resume(event, now).1 is UpdateJob
            &&& 1_000_000_000 * run_after.secs + run_after.nanos == 1_000_000_000 * now.secs
                + now.nanos + 1_000_000_000 * flow.scheduler_interval.secs
                + flow.scheduler_interval.nanos
            &&& 0 <= run_after.nanos < 1_000_000_000
            &&& job.return_msg == "Error: "@ + error.text()
            &&& job.fuota_deployment_id == flow.job.fuota_deployment_id
            &&& job.job == flow.job.job
            &&& job.completed_at == flow.job.completed_at
            &&& job.max_retry_count == flow.job.max_retry_count
            &&& job.attempt_count == flow.job.attempt_count
        }),
{
}

/// Whether `action` stores the job of `flow` as it is, to run again one uplink interval from `now`.
pub open spec fn runs_again(flow: FlowView, action: ActionView, now: Instant) -> bool {
    let job = action->UpdateJob_0;
    &&& action is UpdateJob
    &&& job.scheduler_run_after.secs == now.secs + flow.device_profile.uplink_interval
    &&& job.scheduler_run_after.nanos == now.nanos
    &&& job.fuota_deployment_id == flow.job.fuota_deployment_id
    &&& job.job == flow.job.job
    &&& job.completed_at == flow.job.completed_at
    &&& job.max_retry_count == flow.job.max_retry_count
    &&& job.attempt_count == flow.job.attempt_count
    &&& job.return_msg == flow.job.return_msg
}

/// Whether `action` hands the update of `flow` over to the job `next`.
pub open spec fn hands_over(
    flow: FlowView,
    action: ActionView,
    next: FuotaJob,
    max_retry_count: int,
) -> bool {
    action == (ActionView::CreateJob {
        fuota_deployment_id: flow.job.fuota_deployment_id,
        job: next,
        max_retry_count,
    })
}

/// What follows a job that has done its work.  A job that has asked devices runs again, and so does
/// the one that announces the session, whether it had anyone to tell or not.  Every other job hands
/// over to the next one.
pub proof fn law_every_job_is_followed_up(flow: FlowView, event: EventView, now: Instant)
    requires
        flow.wf(),
        flow.expects(event),
        !(flow.stage is Save),
        flow.resume(event, now).0.stage == (StageView::Save { result: Ok(()) }),
        0 <= now.nanos < 1_000_000_000,
    ensures
        ({
            let action = flow.resume(event, now).1;
            let retries = flow.fuota_deployment.unicast_max_retry_count as int;
            match flow.job.job {
                FuotaJob::CreateMcGroup => hands_over(flow, action, FuotaJob::AddDevsToMcGroup, 0),
                FuotaJob::AddDevsToMcGroup => hands_over(
                    flow,
                    action,
                    FuotaJob::AddGwsToMcGroup,
                    0,
                ),
                FuotaJob::AddGwsToMcGroup => hands_over(
                    flow,
                    action,
                    FuotaJob::McGroupSetup,
                    retries,
                ),
                FuotaJob::McGroupSetup => if flow.stage is ListDevices {
                    hands_over(flow, action, FuotaJob::FragSessionSetup, retries)
                } else {
                    runs_again(flow, action, now)
                },
                FuotaJob::FragSessionSetup => if flow.stage is ListDevices {
                    hands_over(flow, action, FuotaJob::McSession, 0)
                } else {
                    runs_again(flow, action, now)
                },
                FuotaJob::McSession => runs_again(flow, action, now),
                FuotaJob::Enqueue => hands_over(flow, action, FuotaJob::FragStatus, 0),
                FuotaJob::FragStatus => false,
            }
        }),
{
}

/// Once the job is stored, the run is over, with the result of its work.  If the job cannot be
/// stored, the run is over with that error.
pub proof fn law_runs_are_over_once_the_job_is_stored(
    flow: FlowView,
    text: Seq<char>,
    event: EventView,
    now: Instant,
)
    requires
        flow.stage is Save,
    ensures
        flow.resume(EventView::Done, now).1 == ActionView::Finish(flow.stage->result),
        flow.resume(EventView::Failed(text), now).1 == ActionView::Finish(
            Err(ErrorView::Backend(text)),
        ),
        !flow.resume(EventView::Done, now).0.expects(event),
        !flow.resume(EventView::Failed(text), now).0.expects(event),
{
}

/// Whether `event` is an outcome that `action` can have.
pub open spec fn is_outcome(action: ActionView, event: EventView) -> bool {
    match action {
        ActionView::GetDevices { .. } => event is Devices || event is Failed,
        ActionView::GetGateways { .. } => event is Gateways || event is Failed,
        ActionView::GetDeviceKeys { .. } => event is DeviceKeys || event is Failed,
        ActionView::ToGpsTime(_) => event is GpsTime,
        ActionView::Finish(_) => false,
        _ => event is Done || event is Failed,
    }
}

/// After every step, a run waits for the outcomes that its action can have, and for no others.
pub proof fn law_runs_wait_for_the_outcome_of_their_action(
    flow: FlowView,
    event: EventView,
    now: Instant,
    outcome: EventView,
)
    requires
        flow.wf(),
        flow.expects(event),
    ensures
        flow.dispatch(now).0.expects(outcome) <==> is_outcome(flow.dispatch(now).1, outcome),
        flow.resume(event, now).0.expects(outcome) <==> is_outcome(
            flow.resume(event, now).1,
            outcome,
        ),
{
}

/// An action is off the calendar only by the time that it carries: the time at which a job runs
/// again, or a start that has to be converted.
pub proof fn law_actions_on_the_calendar(action: ActionView, job: JobView, time: Instant)
    ensures
        !(action is UpdateJob) && !(action is ToGpsTime) ==> action.on_calendar(),
        ActionView::UpdateJob(job).on_calendar() <==> -8_334_601_228_800
            <= job.scheduler_run_after.secs <= 8_210_266_876_799 && 0
            <= job.scheduler_run_after.nanos < 1_000_000_000,
        ActionView::ToGpsTime(time).on_calendar() <==> -8_334_601_228_800 <= time.secs
            <= 8_210_266_876_799 && 0 <= time.nanos < 1_000_000_000,
{
}

/// A step is taken if and only if the time of its action is on the calendar, and it is the expected
/// one.
pub proof fn law_steps_are_taken_as_expected(
    result: Option<(Flow, Action)>,
    expected: (FlowView, ActionView),
)
    requires
        stepped(result, expected),
    ensures
        result is Some <==> expected.1.on_calendar(),
        result matches Some(step) ==> step.0@ == expected.0 && step.1@ == expected.1,
{
}

}
