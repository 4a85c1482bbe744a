//! What holds of whole runs of a job, and of the jobs of a firmware update.

use crate::clock::{Instant, Timestamp, NANOS_PER_SECOND};
use crate::flow::{
    awaits, is_essential, pending, successor, ActionView, EventView, FlowView, StageView,
};
use crate::fragmentation::records_answer;
use crate::fragments::{
    fragment_count, law_fragments_hold_the_padded_image, law_padding_fills_the_last_fragment,
    padded, padding_len, size_in_bytes,
};
use crate::laws::contents::law_fragment_downlinks_carry_the_whole_fragment;
use crate::laws::numbers::law_padded_images_end_in_zeros;
use crate::messages::{coded_fragments, FragSessionSetupAns};
use crate::requests::{
    can_fragment, class_b_session_time, class_c_session_time, frag_session_setup_bytes,
    frag_session_setup_item_of, fragment_item_of, holds_image, image_fragments_of,
    mc_group_setup_item_of, mc_session_item_of, redundancy_of, session_start_of, truncated_rem,
};
use crate::single::{law_small_integers_are_exact, SIGNIFICAND_END};
use crate::types::{
    DeviceKeys, DeviceQueueItemView, ErrorView, FuotaDeployment, FuotaDeploymentDevice,
    FuotaDeploymentGateway, FuotaJob, JobView, MulticastGroupQueueItemView,
};
use vstd::prelude::*;

pub mod contents;
pub mod numbers;
pub mod steps;
pub mod views;

verus! {

/// The outcome of an action, and the time at which it is handed back.
pub struct Reply {
    pub event: EventView,
    pub now: Instant,
}

/// Where a flow stands after some replies.
pub open spec fn after(flow: FlowView, replies: Seq<Reply>) -> FlowView
    decreases replies.len(),
{
    if replies.len() == 0 {
        flow
    } else {
        after(flow.resume(replies[0].event, replies[0].now).0, replies.drop_first())
    }
}

/// The actions that a flow asks for on some replies.
pub open spec fn actions(flow: FlowView, replies: Seq<Reply>) -> Seq<ActionView>
    decreases replies.len(),
{
    if replies.len() == 0 {
        Seq::empty()
    } else {
        let step = flow.resume(replies[0].event, replies[0].now);
        seq![step.1] + actions(step.0, replies.drop_first())
    }
}

/// Whether every reply is an outcome of the action before it.
pub open spec fn fits(flow: FlowView, replies: Seq<Reply>) -> bool
    decreases replies.len(),
{
    replies.len() > 0 ==> {
        &&& flow.expects(replies[0].event)
        &&& fits(flow.resume(replies[0].event, replies[0].now).0, replies.drop_first())
    }
}

/// Whether a run has done its work without an error, and its job is being stored.
pub open spec fn has_worked(flow: FlowView) -> bool {
    flow.stage == (StageView::Save { result: Ok(()) })
}

/// Whether an action changes a group or a queue.
pub open spec fn is_effect(action: ActionView) -> bool {
    action is AddDevice || action is AddGateway || action is EnqueueDeviceItem || action
        is EnqueueMulticastItem
}

/// The actions that change a group or a queue.
pub open spec fn effects(flow: FlowView, replies: Seq<Reply>) -> Seq<ActionView> {
    actions(flow, replies).filter(|action: ActionView| is_effect(action))
}

/// What a step adds to the effects.
proof fn lemma_effects_step(flow: FlowView, replies: Seq<Reply>)
    requires
        replies.len() > 0,
    ensures
        ({
            let step = flow.resume(replies[0].event, replies[0].now);
            let rest = effects(step.0, replies.drop_first());
            effects(flow, replies) == if is_effect(step.1) {
                seq![step.1] + rest
            } else {
                rest
            }
        }),
{
    let effect = |action: ActionView| is_effect(action);
    let step = flow.resume(replies[0].event, replies[0].now);
    let rest = actions(step.0, replies.drop_first());
    Seq::filter_distributes_over_add(seq![step.1], rest, effect);
    assert(seq![step.1].filter(effect) =~= if is_effect(step.1) {
        seq![step.1]
    } else {
        Seq::empty()
    }) by {
        reveal_with_fuel(Seq::filter, 2);
        assert(seq![step.1].drop_last() =~= Seq::empty());
    }
    assert(Seq::<ActionView>::empty() + rest.filter(effect) =~= rest.filter(effect));
}

/// Without replies there are no effects.
proof fn lemma_no_effects(flow: FlowView, replies: Seq<Reply>)
    requires
        replies.len() == 0,
    ensures
        effects(flow, replies) == Seq::<ActionView>::empty(),
{
    reveal(Seq::filter);
}

/// A run that is being stored, or is over, never comes to `has_worked` by further replies.
proof fn lemma_over_is_over(flow: FlowView, replies: Seq<Reply>)
    requires
        flow.stage is Save || flow.stage is Idle,
        fits(flow, replies),
        has_worked(after(flow, replies)),
    ensures
        replies.len() == 0,
{
    if replies.len() > 0 {
        reveal_with_fuel(fits, 3);
        reveal_with_fuel(after, 3);
        assert(flow.resume(replies[0].event, replies[0].now).0.stage is Idle);
    }
}

/// The action that adds a device to its multicast group.
pub open spec fn adding_device(device: FuotaDeploymentDevice) -> ActionView {
    ActionView::AddDevice {
        multicast_group_id: device.fuota_deployment_id@,
        dev_eui: device.dev_eui@,
    }
}

/// The action that adds a gateway to its multicast group.
pub open spec fn adding_gateway(gateway: FuotaDeploymentGateway) -> ActionView {
    ActionView::AddGateway {
        multicast_group_id: gateway.fuota_deployment_id@,
        gateway_id: gateway.gateway_id@,
    }
}

proof fn lemma_rest_of_devices_is_added(
    flow: FlowView,
    devices: Seq<FuotaDeploymentDevice>,
    index: int,
    replies: Seq<Reply>,
)
    requires
        flow.wf(),
        flow.stage == (StageView::AddDevice { devices, index }),
        fits(flow, replies),
        has_worked(after(flow, replies)),
    ensures
        effects(flow, replies) == devices.skip(index + 1).map_values(
            |device: FuotaDeploymentDevice| adding_device(device),
        ),
    decreases replies.len(),
{
    let added = |device: FuotaDeploymentDevice| adding_device(device);
    let rest = replies.drop_first();
    let step = flow.resume(replies[0].event, replies[0].now);
    lemma_effects_step(flow, replies);
    if step.0.stage is Save {
        lemma_over_is_over(step.0, rest);
        lemma_no_effects(step.0, rest);
        assert(effects(flow, replies) =~= devices.skip(index + 1).map_values(added));
    } else {
        lemma_rest_of_devices_is_added(step.0, devices, index + 1, rest);
        assert(effects(flow, replies) =~= devices.skip(index + 1).map_values(added));
    }
}

/// A run that adds devices without an error adds every device that was read, in that order.
pub proof fn law_every_device_is_added(
    flow: FlowView,
    devices: Seq<FuotaDeploymentDevice>,
    replies: Seq<Reply>,
)
    requires
        flow.wf(),
        flow.stage is ListDevices,
        flow.job.job is AddDevsToMcGroup,
        replies.len() > 0,
        replies[0].event == EventView::Devices(devices),
        fits(flow, replies),
        has_worked(after(flow, replies)),
    ensures
        effects(flow, replies) == devices.map_values(
            |device: FuotaDeploymentDevice| adding_device(device),
        ),
{
    let added = |device: FuotaDeploymentDevice| adding_device(device);
    let rest = replies.drop_first();
    let step = flow.resume(replies[0].event, replies[0].now);
    lemma_effects_step(flow, replies);
    if devices.len() == 0 {
        lemma_over_is_over(step.0, rest);
        lemma_no_effects(step.0, rest);
    } else {
        lemma_rest_of_devices_is_added(step.0, devices, 0, rest);
    }
    assert(effects(flow, replies) =~= devices.map_values(added));
}

proof fn lemma_rest_of_gateways_is_added(
    flow: FlowView,
    gateways: Seq<FuotaDeploymentGateway>,
    index: int,
    replies: Seq<Reply>,
)
    requires
        flow.wf(),
        flow.stage == (StageView::AddGateway { gateways, index }),
        fits(flow, replies),
        has_worked(after(flow, replies)),
    ensures
        effects(flow, replies) == gateways.skip(index + 1).map_values(
            |gateway: FuotaDeploymentGateway| adding_gateway(gateway),
        ),
    decreases replies.len(),
{
    let added = |gateway: FuotaDeploymentGateway| adding_gateway(gateway);
    let rest = replies.drop_first();
    let step = flow.resume(replies[0].event, replies[0].now);
    lemma_effects_step(flow, replies);
    if step.0.stage is Save {
        lemma_over_is_over(step.0, rest);
        lemma_no_effects(step.0, rest);
    } else {
        lemma_rest_of_gateways_is_added(step.0, gateways, index + 1, rest);
    }
    assert(effects(flow, replies) =~= gateways.skip(index + 1).map_values(added));
}

/// A run that adds gateways without an error adds every gateway that was read, in that order.
pub proof fn law_every_gateway_is_added(
    flow: FlowView,
    gateways: Seq<FuotaDeploymentGateway>,
    replies: Seq<Reply>,
)
    requires
        flow.wf(),
        flow.stage is ListGateways,
        replies.len() > 0,
        replies[0].event == EventView::Gateways(gateways),
        fits(flow, replies),
        has_worked(after(flow, replies)),
    ensures
        effects(flow, replies) == gateways.map_values(
            |gateway: FuotaDeploymentGateway| adding_gateway(gateway),
        ),
{
    let added = |gateway: FuotaDeploymentGateway| adding_gateway(gateway);
    let rest = replies.drop_first();
    let step = flow.resume(replies[0].event, replies[0].now);
    lemma_effects_step(flow, replies);
    if gateways.len() == 0 {
        lemma_over_is_over(step.0, rest);
        lemma_no_effects(step.0, rest);
    } else {
        lemma_rest_of_gateways_is_added(step.0, gateways, 0, rest);
    }
    assert(effects(flow, replies) =~= gateways.map_values(added));
}

/// Whether `action` sends the request of the flow's job to a device.
pub open spec fn asks(action: ActionView, flow: FlowView, device: FuotaDeploymentDevice) -> bool {
    let deployment = flow.fuota_deployment;
    let profile = flow.device_profile;
    let item = action->EnqueueDeviceItem_0;
    &&& action is EnqueueDeviceItem
    &&& item.dev_eui == device.dev_eui@
    &&& flow.job.job is McGroupSetup ==> exists|keys: DeviceKeys|
        item == #[trigger] mc_group_setup_item_of(deployment, profile, device.dev_eui@, keys)
    &&& flow.job.job is FragSessionSetup ==> item == frag_session_setup_item_of(
        deployment,
        profile,
        device.dev_eui@,
    )
    &&& flow.job.job is McSession ==> exists|gps_seconds: int|
        #[trigger] mc_session_item_of(deployment, profile, device.dev_eui@, gps_seconds) == Ok::<
            DeviceQueueItemView,
            ErrorView,
        >(item)
}

/// Whether `asked` are the requests of the flow's job to the devices, one each, in order.
pub open spec fn one_request_each(
    asked: Seq<ActionView>,
    flow: FlowView,
    devices: Seq<FuotaDeploymentDevice>,
) -> bool {
    &&& asked.len() == devices.len()
    &&& forall|i: int| 0 <= i < asked.len() ==> asks(#[trigger] asked[i], flow, devices[i])
}

/// A step that keeps the job, the deployment and the profile asks for the same requests.
proof fn lemma_requests_stay_the_same(
    asked: Seq<ActionView>,
    flow: FlowView,
    later: FlowView,
    devices: Seq<FuotaDeploymentDevice>,
)
    requires
        one_request_each(asked, later, devices),
        later.job.job == flow.job.job,
        later.fuota_deployment == flow.fuota_deployment,
        later.device_profile == flow.device_profile,
    ensures
        one_request_each(asked, flow, devices),
{
    assert forall|i: int| 0 <= i < asked.len() implies asks(
        #[trigger] asked[i],
        flow,
        devices[i],
    ) by {
        assert(asks(asked[i], later, devices[i]));
    }
}

/// The devices from `index` on get one downlink each, where the one for `index` is already sent if
/// the run waits for its outcome.
proof fn lemma_rest_of_devices_is_asked(
    flow: FlowView,
    devices: Seq<FuotaDeploymentDevice>,
    index: int,
    replies: Seq<Reply>,
)
    requires
        flow.wf(),
        flow.stage == (StageView::DeviceItem { devices, index }) || flow.stage == (
        StageView::DeviceKeys { devices, index }) || flow.stage == (StageView::GpsTime {
            devices,
            index,
        }),
        fits(flow, replies),
        has_worked(after(flow, replies)),
    ensures
        one_request_each(
            effects(flow, replies),
            flow,
            devices.skip(
                if flow.stage is DeviceItem {
                    index + 1
                } else {
                    index
                },
            ),
        ),
    decreases replies.len(),
{
    let rest = replies.drop_first();
    let step = flow.resume(replies[0].event, replies[0].now);
    lemma_effects_step(flow, replies);
    if step.0.stage is Save {
        lemma_over_is_over(step.0, rest);
        lemma_no_effects(step.0, rest);
    } else if flow.stage is DeviceItem {
        lemma_rest_of_devices_is_asked(step.0, devices, index + 1, rest);
        lemma_first_request(flow, step, devices, index + 1, rest);
    } else {
        lemma_rest_of_devices_is_asked(step.0, devices, index, rest);
        lemma_first_request(flow, step, devices, index, rest);
    }
}

/// A step that sends a request, or only prepares one, and the requests that follow it.
proof fn lemma_first_request(
    flow: FlowView,
    step: (FlowView, ActionView),
    devices: Seq<FuotaDeploymentDevice>,
    index: int,
    rest: Seq<Reply>,
)
    requires
        0 <= index < devices.len(),
        step.0.job.job == flow.job.job,
        step.0.fuota_deployment == flow.fuota_deployment,
        step.0.device_profile == flow.device_profile,
        step.0.stage is DeviceItem ==> asks(step.1, flow, devices[index]),
        !(step.0.stage is DeviceItem) ==> !is_effect(step.1),
        one_request_each(
            effects(step.0, rest),
            step.0,
            devices.skip(
                if step.0.stage is DeviceItem {
                    index + 1
                } else {
                    index
                },
            ),
        ),
    ensures
        one_request_each(
            if is_effect(step.1) {
                seq![step.1] + effects(step.0, rest)
            } else {
                effects(step.0, rest)
            },
            flow,
            devices.skip(index),
        ),
{
    let later = effects(step.0, rest);
    if step.0.stage is DeviceItem {
        lemma_requests_stay_the_same(later, flow, step.0, devices.skip(index + 1));
        let asked = seq![step.1] + later;
        assert forall|i: int| 0 <= i < asked.len() implies asks(
            #[trigger] asked[i],
            flow,
            devices.skip(index)[i],
        ) by {
            if i > 0 {
                assert(asked[i] == later[i - 1]);
                assert(asks(later[i - 1], flow, devices.skip(index + 1)[i - 1]));
            }
        }
    } else {
        lemma_requests_stay_the_same(later, flow, step.0, devices.skip(index));
    }
}

/// A run that sends requests without an error sends one to every pending device, in order, and none
/// to any other device.
pub proof fn law_every_pending_device_is_asked_once(
    flow: FlowView,
    devices: Seq<FuotaDeploymentDevice>,
    replies: Seq<Reply>,
)
    requires
        flow.wf(),
        flow.stage is ListDevices,
        !(flow.job.job is AddDevsToMcGroup),
        replies.len() > 0,
        replies[0].event == EventView::Devices(devices),
        fits(flow, replies),
        has_worked(after(flow, replies)),
    ensures
        one_request_each(effects(flow, replies), flow, pending(flow.job.job, devices)),
{
    let asked = pending(flow.job.job, devices);
    let rest = replies.drop_first();
    let step = flow.resume(replies[0].event, replies[0].now);
    lemma_effects_step(flow, replies);
    if asked.len() == 0 {
        lemma_over_is_over(step.0, rest);
        lemma_no_effects(step.0, rest);
    } else {
        assert(asked.skip(0) =~= asked);
        lemma_rest_of_devices_is_asked(step.0, asked, 0, rest);
        lemma_first_request(flow, step, asked, 0, rest);
    }
}

/// Whether `action` sends fragment number `index` of the firmware update to the multicast group.
pub open spec fn carries(
    action: ActionView,
    flow: FlowView,
    index: int,
    fragment: Seq<u8>,
) -> bool {
    fragment_item_of(flow.fuota_deployment, flow.device_profile, index, fragment) == Ok::<
        MulticastGroupQueueItemView,
        ErrorView,
    >(action->EnqueueMulticastItem_0) && action is EnqueueMulticastItem
}

/// Whether `sent` are the downlinks of the fragments from number `first` on, in order.
pub open spec fn one_downlink_each(
    sent: Seq<ActionView>,
    flow: FlowView,
    fragments: Seq<Seq<u8>>,
    first: int,
) -> bool {
    &&& sent.len() == fragments.len() - first
    &&& forall|i: int|
        0 <= i < sent.len() ==> carries(#[trigger] sent[i], flow, first + i, fragments[first + i])
}

proof fn lemma_rest_of_fragments_is_sent(
    flow: FlowView,
    fragments: Seq<Seq<u8>>,
    index: int,
    replies: Seq<Reply>,
)
    requires
        flow.wf(),
        flow.stage == (StageView::FragmentItem { fragments, index }),
        fits(flow, replies),
        has_worked(after(flow, replies)),
    ensures
        one_downlink_each(effects(flow, replies), flow, fragments, index + 1),
    decreases replies.len(),
{
    let rest = replies.drop_first();
    let step = flow.resume(replies[0].event, replies[0].now);
    let sent = effects(flow, replies);
    lemma_effects_step(flow, replies);
    if step.0.stage is Save {
        lemma_over_is_over(step.0, rest);
        lemma_no_effects(step.0, rest);
    } else {
        lemma_rest_of_fragments_is_sent(step.0, fragments, index + 1, rest);
        let later = effects(step.0, rest);
        assert(carries(sent[0], flow, index + 1, fragments[index + 1]));
        assert forall|i: int| 0 <= i < sent.len() implies carries(
            #[trigger] sent[i],
            flow,
            index + 1 + i,
            fragments[index + 1 + i],
        ) by {
            if i > 0 {
                assert(sent[i] == later[i - 1]);
                assert(carries(
                    later[i - 1],
                    step.0,
                    index + 2 + (i - 1),
                    fragments[index + 2 + (i - 1)],
                ));
            }
        }
    }
}

/// A run that sends fragments without an error sends every fragment once, in order, numbered from 1
/// on.
pub proof fn law_every_fragment_is_sent_in_order(
    flow: FlowView,
    now: Instant,
    replies: Seq<Reply>,
)
    requires
        flow.times_valid(),
        flow.job.job is Enqueue,
        !flow.attempted().job.is_exhausted(),
        fits(flow.dispatch(now).0, replies),
        has_worked(after(flow.dispatch(now).0, replies)),
    ensures
        one_downlink_each(
            seq![flow.dispatch(now).1].filter(|action: ActionView| is_effect(action)) + effects(
                flow.dispatch(now).0,
                replies,
            ),
            flow,
            image_fragments_of(flow.fuota_deployment),
            0,
        ),
{
    let effect = |action: ActionView| is_effect(action);
    let fragments = image_fragments_of(flow.fuota_deployment);
    let step = flow.dispatch(now);
    let sent = seq![step.1].filter(effect) + effects(step.0, replies);
    reveal_with_fuel(Seq::filter, 2);
    assert(seq![step.1].drop_last() =~= Seq::empty());
    if step.0.stage is Save {
        lemma_over_is_over(step.0, replies);
        lemma_no_effects(step.0, replies);
        assert(sent =~= Seq::empty());
    } else {
        lemma_rest_of_fragments_is_sent(step.0, fragments, 0, replies);
        let later = effects(step.0, replies);
        assert(carries(sent[0], flow, 0, fragments[0]));
        assert forall|i: int| 0 <= i < sent.len() implies carries(
            #[trigger] sent[i],
            flow,
            0 + i,
            fragments[0 + i],
        ) by {
            if i > 0 {
                assert(sent[i] == later[i - 1]);
                assert(carries(later[i - 1], step.0, 1 + (i - 1), fragments[1 + (i - 1)]));
            }
        }
    }
}

/// An image that needs more fragments than a fragment number can count is never sent without an
/// error.
pub proof fn law_too_many_fragments_are_refused(flow: FlowView, now: Instant, replies: Seq<Reply>)
    requires
        flow.times_valid(),
        flow.job.job is Enqueue,
        !flow.attempted().job.is_exhausted(),
        fits(flow.dispatch(now).0, replies),
        image_fragments_of(flow.fuota_deployment).len() > 16383,
    ensures
        !has_worked(after(flow.dispatch(now).0, replies)),
{
    if has_worked(after(flow.dispatch(now).0, replies)) {
        law_every_fragment_is_sent_in_order(flow, now, replies);
        let sent = seq![flow.dispatch(now).1].filter(|action: ActionView| is_effect(action))
            + effects(flow.dispatch(now).0, replies);
        let fragments = image_fragments_of(flow.fuota_deployment);
        let last: int = 16383;
        assert(carries(sent[last], flow, 0 + last, fragments[0 + last]));
    }
}

/// A job is followed by its successor and by no other job.  The jobs that wait for answers of
/// devices may be repeated as often as the firmware update allows, the others not at all.
pub proof fn law_jobs_follow_in_order(flow: FlowView, event: EventView, now: Instant)
    requires
        flow.wf(),
        flow.expects(event),
    ensures
        creates_successor_only(flow, flow.dispatch(now).1),
        creates_successor_only(flow, flow.resume(event, now).1),
{
}

/// Whether `action`, if it creates a job, creates the one that follows the job of `flow`.
pub open spec fn creates_successor_only(flow: FlowView, action: ActionView) -> bool {
    action matches ActionView::CreateJob { fuota_deployment_id, job, max_retry_count } ==> {
        &&& successor(flow.job.job) == Some(job)
        &&& fuota_deployment_id == flow.job.fuota_deployment_id
        &&& max_retry_count == if job is McGroupSetup || job is FragSessionSetup {
            flow.fuota_deployment.unicast_max_retry_count as int
        } else {
            0
        }
    }
}

/// Whether `job` is the job of `flow`, with the same number of attempts.
pub open spec fn is_same_attempt(flow: FlowView, job: JobView) -> bool {
    &&& job.fuota_deployment_id == flow.job.fuota_deployment_id
    &&& job.job == flow.job.job
    &&& job.max_retry_count == flow.job.max_retry_count
    &&& job.attempt_count == flow.job.attempt_count
}

/// Each run counts as one attempt of its job, however it goes on, and that is what is stored.
pub proof fn law_each_run_is_one_attempt(flow: FlowView, now: Instant, replies: Seq<Reply>)
    ensures
        is_same_attempt(flow.attempted(), after(flow.dispatch(now).0, replies).job),
        flow.dispatch(now).1 matches ActionView::UpdateJob(job) ==> is_same_attempt(
            flow.attempted(),
            job,
        ),
        forall|i: int|
            0 <= i < replies.len() ==> (#[trigger] actions(
                flow.dispatch(now).0,
                replies,
            )[i] matches ActionView::UpdateJob(job) ==> is_same_attempt(flow.attempted(), job)),
{
    lemma_replies_keep_the_attempt(flow.dispatch(now).0, replies);
}

proof fn lemma_replies_keep_the_attempt(flow: FlowView, replies: Seq<Reply>)
    ensures
        is_same_attempt(flow, after(flow, replies).job),
        actions(flow, replies).len() == replies.len(),
        forall|i: int|
            0 <= i < replies.len() ==> (#[trigger] actions(
                flow,
                replies,
            )[i] matches ActionView::UpdateJob(job) ==> is_same_attempt(flow, job)),
    decreases replies.len(),
{
    if replies.len() > 0 {
        let rest = replies.drop_first();
        let step = flow.resume(replies[0].event, replies[0].now);
        lemma_replies_keep_the_attempt(step.0, rest);
        assert forall|i: int| 0 <= i < replies.len() implies (#[trigger] actions(
            flow,
            replies,
        )[i] matches ActionView::UpdateJob(job) ==> is_same_attempt(flow, job)) by {
            if i > 0 {
                assert(actions(flow, replies)[i] == actions(step.0, rest)[i - 1]);
            }
        }
    }
}

/// A job whose attempts are used up does no work.  If the other jobs depend on it, or if it is the
/// last one, it is completed and none follows.  Otherwise the next job follows.
pub proof fn law_attempts_are_limited(flow: FlowView, now: Instant)
    requires
        flow.job.attempt_count > flow.job.max_retry_count,
    ensures
        has_worked(flow.dispatch(now).0),
        is_essential(flow.job.job) || flow.job.job is FragStatus ==> flow.dispatch(now).1 == (
        ActionView::UpdateJob(JobView { completed_at: Some(now), ..flow.attempted().job })),
        !is_essential(flow.job.job) && !(flow.job.job is FragStatus) ==> flow.dispatch(now).1
            is CreateJob,
{
}

/// A failed action ends the run: the job is stored with the error, runs again after the scheduler
/// interval, and the run ends with that error.
pub proof fn law_a_failed_action_ends_the_run(
    flow: FlowView,
    text: Seq<char>,
    now: Instant,
    later: Instant,
)
    requires
        flow.expects(EventView::Failed(text)),
        !(flow.stage is Save),
    ensures
        flow.resume(EventView::Failed(text), now).1 == ActionView::UpdateJob(
            JobView {
                scheduler_run_after: now.plus(
                    flow.scheduler_interval.secs as int,
                    flow.scheduler_interval.nanos as int,
                ),
                return_msg: "Error: "@ + text,
                ..flow.job
            },
        ),
        flow.resume(EventView::Failed(text), now).0.resume(EventView::Done, later).1
            == ActionView::Finish(Err(ErrorView::Backend(text))),
{
}

/// How many replies a run still takes at most, once the devices or gateways have been read.
pub open spec fn replies_left(stage: StageView) -> int {
    match stage {
        StageView::Idle => 0,
        StageView::Save { .. } => 1,
        StageView::CreateGroup => 2,
        StageView::ListDevices => 2,
        StageView::ListGateways => 2,
        StageView::AddDevice { devices, index } => devices.len() - index + 1,
        StageView::AddGateway { gateways, index } => gateways.len() - index + 1,
        StageView::DeviceItem { devices, index } => 2 * (devices.len() - index),
        StageView::DeviceKeys { devices, index } => 2 * (devices.len() - index) + 1,
        StageView::GpsTime { devices, index } => 2 * (devices.len() - index) + 1,
        StageView::FragmentItem { fragments, index } => fragments.len() - index + 1,
    }
}

/// The number of devices or gateways that a reply brings.
pub open spec fn listed(event: EventView) -> nat {
    match event {
        EventView::Devices(devices) => devices.len(),
        EventView::Gateways(gateways) => gateways.len(),
        _ => 0,
    }
}

/// Every run comes to an end: it takes a bounded number of replies, two for each device or gateway
/// that it reads and two more, or one for each fragment and one more.
pub proof fn law_every_run_ends(flow: FlowView, replies: Seq<Reply>)
    requires
        flow.stage_fits(),
        fits(flow, replies),
    ensures
        !(flow.stage is ListDevices) && !(flow.stage is ListGateways) ==> replies.len()
            <= replies_left(flow.stage),
        replies.len() > 0 ==> replies.len() <= replies_left(flow.stage) + 2 * listed(
            replies[0].event,
        ),
    decreases replies.len(),
{
    if replies.len() > 0 {
        let event = replies[0].event;
        let step = flow.resume(event, replies[0].now);
        if event is Devices {
            lemma_pending_is_not_longer(flow.job.job, event->Devices_0);
        }
        law_every_run_ends(step.0, replies.drop_first());
        assert(replies_left(step.0.stage) < replies_left(flow.stage) + 2 * listed(event));
    }
}

proof fn lemma_pending_is_not_longer(job: FuotaJob, devices: Seq<FuotaDeploymentDevice>)
    ensures
        pending(job, devices).len() <= devices.len(),
{
    devices.lemma_filter_len(|device: FuotaDeploymentDevice| awaits(job, device));
}

/// The job that announces the session is repeated until its attempts are used up, whoever has
/// answered, and the fragments follow only then.
pub proof fn law_session_is_announced_in_all_attempts(
    flow: FlowView,
    event: EventView,
    now: Instant,
)
    requires
        flow.wf(),
        flow.expects(event),
        flow.job.job is McSession,
    ensures
        !(flow.resume(event, now).1 is CreateJob),
        flow.dispatch(now).1 is CreateJob <==> flow.job.attempt_count > flow.job.max_retry_count,
{
}

/// Whether run number `k` waits for the time that the run before it has set.
pub open spec fn waits_for_its_turn(flow: FlowView, times: Seq<Instant>, k: int) -> bool {
    flow.postpone(times[k - 1]).0.job.scheduler_run_after.nanoseconds() <= times[k].nanoseconds()
}

/// The session that the first attempt announces has started when the attempts are used up.
///
/// `times` are the times at which the attempts ended, and last the time at which the job runs
/// without an attempt left.  Every run waits for the time that the run before has set.
pub proof fn law_session_has_started_after_all_attempts(
    flow: FlowView,
    announced: Instant,
    times: Seq<Instant>,
)
    requires
        times.len() == flow.job.max_retry_count + 2,
        flow.job.max_retry_count >= 0,
        announced.nanoseconds() <= times[0].nanoseconds(),
        forall|k: int| 0 < k < times.len() ==> #[trigger] waits_for_its_turn(flow, times, k),
    ensures
        flow.session_start(announced).nanoseconds() <= times.last().nanoseconds(),
{
    let attempts = flow.job.max_retry_count + 1;
    let wait = attempts * flow.device_profile.uplink_interval as int;
    lemma_attempts_take_their_time(flow, times, attempts, wait);
    lemma_plus_in_nanoseconds(announced, wait, 0);
}

proof fn lemma_attempts_take_their_time(
    flow: FlowView,
    times: Seq<Instant>,
    count: int,
    wait: int,
)
    requires
        0 <= count < times.len(),
        wait == count * flow.device_profile.uplink_interval as int,
        forall|k: int| 0 < k < times.len() ==> #[trigger] waits_for_its_turn(flow, times, k),
    ensures
        times[0].nanoseconds() + wait * NANOS_PER_SECOND <= times[count].nanoseconds(),
    decreases count,
{
    let interval = flow.device_profile.uplink_interval as int;
    if count > 0 {
        assert(wait - interval == (count - 1) * interval) by (nonlinear_arith)
            requires
                wait == count * interval,
        ;
        lemma_attempts_take_their_time(flow, times, count - 1, wait - interval);
        assert(waits_for_its_turn(flow, times, count));
        assert(flow.postpone(times[count - 1]).0.job.scheduler_run_after == times[count - 1].plus(
            interval,
            0,
        ));
        lemma_plus_in_nanoseconds(times[count - 1], interval, 0);
    } else {
        assert(wait == 0) by (nonlinear_arith)
            requires
                wait == count * interval,
                count == 0,
        ;
    }
}

proof fn lemma_plus_in_nanoseconds(time: Instant, secs: int, nanos: int)
    ensures
        time.plus(secs, nanos).nanoseconds() == time.nanoseconds() + secs * NANOS_PER_SECOND
            + nanos,
{
}

/// A device that accepts the fragmentation session is not asked again, and is told when the
/// multicast session starts, unless it knows already.  A refusal changes nothing of what a device
/// is asked.
pub proof fn law_setup_answers_decide_what_follows(
    before: FuotaDeploymentDevice,
    after: FuotaDeploymentDevice,
    ans: FragSessionSetupAns,
    now: Timestamp,
)
    requires
        records_answer(before, after, ans, now),
    ensures
        after.dev_eui == before.dev_eui,
        awaits(FuotaJob::McGroupSetup, after) == awaits(FuotaJob::McGroupSetup, before),
        ans.is_refusal() ==> {
            &&& awaits(FuotaJob::FragSessionSetup, after) == awaits(
                FuotaJob::FragSessionSetup,
                before,
            )
            &&& awaits(FuotaJob::McSession, after) == awaits(FuotaJob::McSession, before)
        },
        !ans.is_refusal() ==> {
            &&& !awaits(FuotaJob::FragSessionSetup, after)
            &&& awaits(FuotaJob::McSession, after) == (before.mc_session_completed_at is None)
        },
{
}

/// A Class-B session starts with a beacon, and no more than one beacon period before the start that
/// a Class-C session would have.
pub proof fn law_class_b_sessions_start_with_a_beacon(gps_seconds: int)
    ensures
        class_b_session_time(gps_seconds) % 128 == 0,
        gps_seconds >= 0 ==> class_b_session_time(gps_seconds) <= class_c_session_time(gps_seconds)
            < class_b_session_time(gps_seconds) + 128,
{
    let start = session_start_of(gps_seconds);
    assert(-0x1_0000_0000 < start < 0x1_0000_0000);
    assert((start - truncated_rem(start, 128)) % 128 == 0);
}

/// Put one after the other, the fragments of an image begin with the image, its padding follows,
/// and then nothing but redundant fragments.
pub proof fn law_fragments_make_up_the_image(deployment: FuotaDeployment, rows: Seq<Seq<u8>>)
    requires
        can_fragment(deployment),
        holds_image(deployment, rows),
    ensures
        ({
            let size = size_in_bytes(deployment.fragmentation_fragment_size) as nat;
            let image = padded(deployment.payload@, size);
            &&& rows.take(rows.len() - redundancy_of(deployment)).flatten() == image
            &&& image.take(deployment.payload@.len() as int) == deployment.payload@
        }),
{
    let size = size_in_bytes(deployment.fragmentation_fragment_size) as nat;
    let image = padded(deployment.payload@, size);
    let count = image.len() / size;
    law_padding_fills_the_last_fragment(deployment.payload@.len(), size);
    assert(image.len() == count * size) by (nonlinear_arith)
        requires
            image.len() % size == 0,
            count == image.len() / size,
            size > 0,
    ;
    assert forall|i: int| 0 <= i < count implies #[trigger] rows.take(count as int)[i]
        == image.subrange(i * size, (i + 1) * size) by {
        assert(rows[i] == image.subrange(i * size, (i + 1) * size));
    }
    lemma_pieces_make_up_the_whole(image, size, rows.take(count as int));
    assert(image.take(deployment.payload@.len() as int) =~= deployment.payload@);
}

proof fn lemma_pieces_make_up_the_whole(whole: Seq<u8>, size: nat, pieces: Seq<Seq<u8>>)
    requires
        whole.len() == pieces.len() * size,
        forall|i: int|
            0 <= i < pieces.len() ==> #[trigger] pieces[i] == whole.subrange(
                i * size,
                (i + 1) * size,
            ),
    ensures
        pieces.flatten() == whole,
    decreases pieces.len(),
{
    if pieces.len() == 0 {
        assert(whole.len() == 0) by (nonlinear_arith)
            requires
                whole.len() == pieces.len() * size,
                pieces.len() == 0,
        ;
        assert(pieces.flatten() =~= whole);
    } else {
        let rest = whole.skip(size as int);
        let later = pieces.drop_first();
        assert(whole.len() == later.len() * size + size) by (nonlinear_arith)
            requires
                whole.len() == pieces.len() * size,
                later.len() == pieces.len() - 1,
        ;
        assert(later.len() * size >= 0) by (nonlinear_arith);
        assert forall|i: int| 0 <= i < later.len() implies #[trigger] later[i] == rest.subrange(
            i * size,
            (i + 1) * size,
        ) by {
            assert(later[i] == pieces[i + 1]);
            assert((i + 1) * size == i * size + size) by (nonlinear_arith);
            assert((i + 2) * size == i * size + 2 * size) by (nonlinear_arith);
            assert(0 <= i * size && (i + 1) * size <= later.len() * size) by (nonlinear_arith)
                requires
                    0 <= i < later.len(),
            ;
            assert(whole.subrange((i + 1) * size, (i + 2) * size) =~= rest.subrange(
                i * size,
                (i + 1) * size,
            ));
        }
        lemma_pieces_make_up_the_whole(rest, size, later);
        let first: int = 0;
        assert(pieces[first] == whole.subrange(first * size, (first + 1) * size));
        assert(first * size == 0 && (first + 1) * size == size) by (nonlinear_arith)
            requires
                first == 0,
        ;
        assert(pieces.first() + rest =~= whole);
    }
}

/// The devices are told how many fragments the image has: for images below 16 MiB, that many are
/// sent before the redundant ones.  They learn all bits of the numbers that fit into the request.
pub proof fn law_as_many_fragments_follow_as_announced(
    deployment: FuotaDeployment,
    rows: Seq<Seq<u8>>,
)
    requires
        can_fragment(deployment),
        holds_image(deployment, rows),
        deployment.payload@.len() < SIGNIFICAND_END,
    ensures
        ({
            let len = deployment.payload@.len();
            let size = size_in_bytes(deployment.fragmentation_fragment_size) as nat;
            let count = fragment_count(len, size);
            let request = frag_session_setup_bytes(len, size);
            &&& rows.len() == count + redundancy_of(deployment)
            &&& count < 0x1_0000 ==> request[2] + 256 * request[3] == count
            &&& size < 256 ==> request[4] == size && request[6] == padding_len(len, size)
        }),
{
    let len = deployment.payload@.len();
    let size = size_in_bytes(deployment.fragmentation_fragment_size) as nat;
    let count = fragment_count(len, size) as nat;
    let image = padded(deployment.payload@, size);
    law_padding_fills_the_last_fragment(len, size);
    if deployment.fragmentation_fragment_size > 0 {
        law_fragments_hold_the_padded_image(len, size);
        assert(image.len() / size == count) by (nonlinear_arith)
            requires
                image.len() == count * size,
                size > 0,
        ;
    } else {
        law_small_integers_are_exact(0);
        assert(count == 0);
        assert(image.len() / size == 0) by (nonlinear_arith)
            requires
                image.len() < size,
        ;
    }
}

/// Whether `image` is the image of a deployment, with zeros up to the next full fragment.
pub open spec fn is_padded_image(deployment: FuotaDeployment, image: Seq<u8>) -> bool {
    let size = deployment.fragmentation_fragment_size as nat;
    let payload = deployment.payload@;
    &&& image.len() % size == 0
    &&& payload.len() <= image.len() < payload.len() + size
    &&& image.take(payload.len() as int) == payload
    &&& forall|i: int| payload.len() <= i < image.len() ==> #[trigger] image[i] == 0
}

/// What a run sends makes up the image: behind their headers of three bytes, the downlinks that
/// come before the redundant ones carry the image from its first byte to its last, padded with
/// zeros to full fragments.  Each of them carries one full fragment.
pub proof fn law_downlinks_make_up_the_image(
    flow: FlowView,
    now: Instant,
    replies: Seq<Reply>,
    count: int,
)
    requires
        flow.times_valid(),
        flow.job.job is Enqueue,
        flow.job.attempt_count <= flow.job.max_retry_count,
        flow.fuota_deployment.fragmentation_fragment_size > 0,
        holds_image(flow.fuota_deployment, image_fragments_of(flow.fuota_deployment)),
        fits(flow.dispatch(now).0, replies),
        has_worked(after(flow.dispatch(now).0, replies)),
        0 <= count,
        (count - 1) * flow.fuota_deployment.fragmentation_fragment_size
            < flow.fuota_deployment.payload@.len() <= count
            * flow.fuota_deployment.fragmentation_fragment_size,
    ensures
        ({
            let sent = seq![flow.dispatch(now).1].filter(|action: ActionView| is_effect(action))
                + effects(flow.dispatch(now).0, replies);
            let data = Seq::new(
                count as nat,
                |i: int| sent[i]->EnqueueMulticastItem_0.data.skip(3),
            );
            &&& sent.len() == count + redundancy_of(flow.fuota_deployment)
            &&& forall|i: int|
                0 <= i < sent.len() ==> {
                    &&& #[trigger] sent[i] is EnqueueMulticastItem
                    &&& sent[i]->EnqueueMulticastItem_0.data.len() == 3
                        + flow.fuota_deployment.fragmentation_fragment_size
                }
            &&& is_padded_image(flow.fuota_deployment, data.flatten())
        }),
{
    let deployment = flow.fuota_deployment;
    let size = deployment.fragmentation_fragment_size as nat;
    let payload = deployment.payload@;
    let image = padded(payload, size);
    let rows = image_fragments_of(deployment);
    let sent = seq![flow.dispatch(now).1].filter(|action: ActionView| is_effect(action)) + effects(
        flow.dispatch(now).0,
        replies,
    );
    let data = Seq::new(count as nat, |i: int| sent[i]->EnqueueMulticastItem_0.data.skip(3));
    law_every_fragment_is_sent_in_order(flow, now, replies);
    law_padding_fills_the_last_fragment(payload.len(), size);
    assert(image.len() / size == count && image.len() == count * size) by (nonlinear_arith)
        requires
            image.len() % size == 0,
            payload.len() <= image.len() < payload.len() + size,
            (count - 1) * size < payload.len() <= count * size,
            size > 0,
            count >= 0,
    ;
    assert forall|i: int| 0 <= i < sent.len() implies {
        &&& #[trigger] sent[i] is EnqueueMulticastItem
        &&& sent[i]->EnqueueMulticastItem_0.data.len() == 3 + size
        &&& sent[i]->EnqueueMulticastItem_0.data.skip(3) == rows[i]
    } by {
        assert(carries(sent[i], flow, 0 + i, rows[0 + i]));
        law_fragment_downlinks_carry_the_whole_fragment(
            deployment,
            flow.device_profile,
            i,
            rows[i],
        );
    }
    assert forall|i: int| 0 <= i < data.len() implies #[trigger] data[i] == image.subrange(
        i * size,
        (i + 1) * size,
    ) by {
        assert(sent[i] is EnqueueMulticastItem);
        assert(rows[i] == image.subrange(i * size, (i + 1) * size));
    }
    lemma_pieces_make_up_the_whole(image, size, data);
    law_padded_images_end_in_zeros(payload, size);
}

/// The fragments of a deployment, the redundant ones too, are those that the encoder makes of its
/// padded image, with its fragment size and the redundancy that it asks for.
pub proof fn law_fragments_are_those_of_the_encoder(deployment: FuotaDeployment, image: Seq<u8>)
    requires
        deployment.fragmentation_fragment_size > 0,
        is_padded_image(deployment, image),
    ensures
        image_fragments_of(deployment) == coded_fragments(
            image,
            deployment.fragmentation_fragment_size as nat,
            redundancy_of(deployment) as nat,
        ),
{
    let size = deployment.fragmentation_fragment_size as nat;
    let payload = deployment.payload@;
    let other = padded(payload, size);
    law_padded_images_end_in_zeros(payload, size);
    lemma_multiples_are_apart(image.len(), other.len(), size);
    assert forall|i: int| 0 <= i < image.len() implies image[i] == other[i] by {
        if i < payload.len() {
            assert(image.take(payload.len() as int)[i] == payload[i]);
        }
    }
    assert(image =~= other);
}

proof fn lemma_multiples_are_apart(a: nat, b: nat, size: nat)
    requires
        size > 0,
        a % size == 0,
        b % size == 0,
        a < b + size,
        b < a + size,
    ensures
        a == b,
{
    let x = a / size;
    let y = b / size;
    assert(a == size * x && b == size * y) by (nonlinear_arith)
        requires
            size > 0,
            a % size == 0,
            b % size == 0,
            x == a / size,
            y == b / size,
    ;
    assert(x == y) by (nonlinear_arith)
        requires
            size > 0,
            size * x < size * y + size,
            size * y < size * x + size,
    ;
}

/// An empty image has no fragments to send, whatever the fragment size: the encoder is handed
/// nothing, and no redundancy is asked for.
pub proof fn law_empty_images_have_no_redundancy(deployment: FuotaDeployment)
    requires
        deployment.payload@.len() == 0,
        deployment.fragmentation_fragment_size != 0,
    ensures
        redundancy_of(deployment) == 0,
        image_fragments_of(deployment) == coded_fragments(
            Seq::empty(),
            if deployment.fragmentation_fragment_size > 0 {
                deployment.fragmentation_fragment_size as nat
            } else {
                (deployment.fragmentation_fragment_size + usize::MAX + 1) as nat
            },
            0,
        ),
{
    let size = size_in_bytes(deployment.fragmentation_fragment_size) as nat;
    law_small_integers_are_exact(0);
    law_padding_fills_the_last_fragment(0, size);
    assert(0 * deployment.fragmentation_redundancy_percentage == 0);
    assert(padding_len(0, size) == 0) by (nonlinear_arith)
        requires
            padding_len(0, size) % size == 0,
            0 <= padding_len(0, size) < size,
    ;
    assert(padded(deployment.payload@, size) =~= Seq::empty());
}

}
