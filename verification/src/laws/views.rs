//! The views of records, actions and events leave nothing out.

use crate::clock::Timestamp;
use crate::flow::{outcome, Action, ActionView, Event, EventView, Flow, Stage, StageView};
use crate::fragmentation::handled;
use crate::messages::{decoding, encoding, FragSessionSetupAns, UplinkMessage};
use crate::requests::prepared;
use crate::types::{
    DeviceKeys, DeviceQueueItem, DeviceQueueItemView, Error, ErrorView, FuotaDeploymentDevice,
    FuotaDeploymentGateway, FuotaDeploymentJob, FuotaJob, MulticastGroup, MulticastGroupQueueItem,
};
use vstd::prelude::*;

verus! {

/// The view of a time, of a job, and of what is created or sent, has all its fields.
pub proof fn law_views_of_records_have_all_fields(
    time: Timestamp,
    job: FuotaDeploymentJob,
    group: MulticastGroup,
    item: DeviceQueueItem,
    multicast_item: MulticastGroupQueueItem,
)
    ensures
        time@.secs == time.secs,
        time@.nanos == time.nanos,
        job@.fuota_deployment_id == job.fuota_deployment_id@,
        job@.job == job.job,
        job@.completed_at is Some <==> job.completed_at is Some,
        job.completed_at matches Some(at) ==> job@.completed_at == Some(at@),
        job@.max_retry_count == job.max_retry_count,
        job@.attempt_count == job.attempt_count,
        job@.scheduler_run_after == job.scheduler_run_after@,
        job@.return_msg == job.return_msg@,
        group@.id == group.id@,
        group@.application_id == group.application_id@,
        group@.name == group.name@,
        group@.region == group.region,
        group@.mc_addr == group.mc_addr@,
        group@.mc_nwk_s_key == group.mc_nwk_s_key@,
        group@.mc_app_s_key == group.mc_app_s_key@,
        group@.f_cnt == group.f_cnt,
        group@.group_type == group.group_type@,
        group@.frequency == group.frequency,
        group@.dr == group.dr,
        group@.class_b_ping_slot_nb_k == group.class_b_ping_slot_nb_k,
        group@.class_c_scheduling_type == group.class_c_scheduling_type,
        item@.dev_eui == item.dev_eui@,
        item@.f_port == item.f_port,
        item@.data == item.data@,
        multicast_item@.multicast_group_id == multicast_item.multicast_group_id@,
        multicast_item@.f_port == multicast_item.f_port,
        multicast_item@.data == multicast_item.data@,
{
}

/// The view of an error tells what it is about.
pub proof fn law_views_of_errors_tell_what_they_are_about(text: String)
    ensures
        Error::Ts004NotSupported@ == ErrorView::Ts004NotSupported,
        Error::UnsupportedGroupType(text)@ == ErrorView::UnsupportedGroupType(text@),
        Error::Message(text)@ == ErrorView::Message(text@),
        Error::Backend(text)@ == ErrorView::Backend(text@),
{
}

/// The view of a result is the view of what it holds.
pub proof fn law_views_of_results_have_what_they_hold(
    error: Error,
    text: String,
    item: DeviceQueueItem,
    bytes: Vec<u8>,
    message: UplinkMessage,
    ans: Option<FragSessionSetupAns>,
)
    ensures
        outcome(Ok(())) == Ok::<(), ErrorView>(()),
        outcome(Err(error)) == Err::<(), ErrorView>(error@),
        prepared(Ok(item)) == Ok::<DeviceQueueItemView, ErrorView>(item@),
        prepared(Err(error)) == Err::<DeviceQueueItemView, ErrorView>(error@),
        encoding(Ok(bytes)) == Ok::<Seq<u8>, Seq<char>>(bytes@),
        encoding(Err(text)) == Err::<Seq<u8>, Seq<char>>(text@),
        decoding(Ok(message)) == Ok::<UplinkMessage, Seq<char>>(message),
        decoding(Err(text)) == Err::<UplinkMessage, Seq<char>>(text@),
        handled(Ok(ans)) == Ok::<Option<FragSessionSetupAns>, ErrorView>(ans),
        handled(Err(error)) == Err::<Option<FragSessionSetupAns>, ErrorView>(error@),
{
}

/// The view of an action has everything that the action asks for.
pub proof fn law_views_of_actions_have_all_fields(
    group: MulticastGroup,
    id: String,
    eui: [u8; 8],
    time: Timestamp,
    item: DeviceQueueItem,
    multicast_item: MulticastGroupQueueItem,
    stored: FuotaDeploymentJob,
    job: FuotaJob,
    max_retry_count: i16,
    result: Result<(), Error>,
)
    ensures
        Action::CreateMulticastGroup(group)@ == ActionView::CreateMulticastGroup(group@),
        (Action::GetDevices { fuota_deployment_id: id })@ == (ActionView::GetDevices {
            fuota_deployment_id: id@,
        }),
        (Action::GetGateways { fuota_deployment_id: id })@ == (ActionView::GetGateways {
            fuota_deployment_id: id@,
        }),
        (Action::AddDevice { multicast_group_id: id, dev_eui: eui })@ == (ActionView::AddDevice {
            multicast_group_id: id@,
            dev_eui: eui@,
        }),
        (Action::AddGateway { multicast_group_id: id, gateway_id: eui })@ == (
        ActionView::AddGateway { multicast_group_id: id@, gateway_id: eui@ }),
        (Action::GetDeviceKeys { dev_eui: eui })@ == (ActionView::GetDeviceKeys { dev_eui: eui@ }),
        Action::ToGpsTime(time)@ == ActionView::ToGpsTime(time@),
        Action::EnqueueDeviceItem(item)@ == ActionView::EnqueueDeviceItem(item@),
        Action::EnqueueMulticastItem(multicast_item)@ == ActionView::EnqueueMulticastItem(
            multicast_item@,
        ),
        Action::UpdateJob(stored)@ == ActionView::UpdateJob(stored@),
        (Action::CreateJob { fuota_deployment_id: id, job, max_retry_count })@ == (
        ActionView::CreateJob {
            fuota_deployment_id: id@,
            job,
            max_retry_count: max_retry_count as int,
        }),
        Action::Finish(Ok(()))@ == ActionView::Finish(Ok(())),
        result matches Err(error) ==> Action::Finish(result)@ == ActionView::Finish(Err(error@)),
{
}

/// The view of an event has everything that the event reports.
pub proof fn law_views_of_events_have_everything(
    devices: Vec<FuotaDeploymentDevice>,
    gateways: Vec<FuotaDeploymentGateway>,
    keys: DeviceKeys,
    seconds: i64,
    text: String,
)
    ensures
        Event::Done@ == EventView::Done,
        Event::Devices(devices)@ == EventView::Devices(devices@),
        Event::Gateways(gateways)@ == EventView::Gateways(gateways@),
        Event::DeviceKeys(keys)@ == EventView::DeviceKeys(keys),
        Event::GpsTime(seconds)@ == EventView::GpsTime(seconds as int),
        Event::Failed(text)@ == EventView::Failed(text@),
{
}

/// The view of a flow has everything that its next step depends on.
pub proof fn law_views_of_flows_have_everything(
    flow: Flow,
    devices: Vec<FuotaDeploymentDevice>,
    gateways: Vec<FuotaDeploymentGateway>,
    fragments: Vec<Vec<u8>>,
    index: usize,
    result: Result<(), Error>,
    i: int,
)
    ensures
        flow@.job == flow.job@,
        flow@.fuota_deployment == flow.fuota_deployment,
        flow@.device_profile == flow.device_profile,
        flow@.scheduler_interval == flow.scheduler_interval,
        flow@.stage == flow.stage@,
        Stage::CreateGroup@ == StageView::CreateGroup,
        Stage::ListDevices@ == StageView::ListDevices,
        Stage::ListGateways@ == StageView::ListGateways,
        (Stage::AddDevice { devices, index })@ == (StageView::AddDevice {
            devices: devices@,
            index: index as int,
        }),
        (Stage::AddGateway { gateways, index })@ == (StageView::AddGateway {
            gateways: gateways@,
            index: index as int,
        }),
        (Stage::DeviceKeys { devices, index })@ == (StageView::DeviceKeys {
            devices: devices@,
            index: index as int,
        }),
        (Stage::GpsTime { devices, index })@ == (StageView::GpsTime {
            devices: devices@,
            index: index as int,
        }),
        (Stage::DeviceItem { devices, index })@ == (StageView::DeviceItem {
            devices: devices@,
            index: index as int,
        }),
        (Stage::FragmentItem { fragments, index })@->FragmentItem_index == index,
        (Stage::FragmentItem { fragments, index })@->fragments.len() == fragments@.len(),
        0 <= i < fragments@.len() ==> (Stage::FragmentItem { fragments, index })@->fragments[i]
            == fragments@[i]@,
        result matches Err(error) ==> (Stage::Save { result })@ == (StageView::Save {
            result: Err(error@),
        }),
        (Stage::Save { result: Ok(()) })@ == (StageView::Save { result: Ok(()) }),
        Stage::Idle@ == StageView::Idle,
{
    if 0 <= i < fragments@.len() {
        assert(fragments.deep_view()[i] =~= fragments@[i]@);
    }
}

}
