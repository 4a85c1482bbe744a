//! The jobs of a firmware update, as a state machine.
//!
//! A [`Flow`] runs one job.  It never touches storage or a queue itself: every step returns an
//! [`Action`], and the caller performs it and hands the outcome back as an [`Event`].  The run ends
//! with the action [`Action::Finish`].

use crate::clock::{
    add_interval, add_seconds, is_clock_reading, read_clock, Instant, Interval, Timestamp,
    NANOS_PER_SECOND,
};
use crate::requests::{
    can_fragment, frag_session_setup_item, frag_session_setup_item_of, fragment_item,
    fragment_item_of, holds_image, image_fragments, image_fragments_of, is_fragmentable,
    mc_group_setup_item, mc_group_setup_item_of, mc_session_item, mc_session_item_of,
    multicast_group, multicast_group_of, prepared,
};
use crate::types::{
    DeviceKeys, DeviceProfile, DeviceQueueItem, DeviceQueueItemView, Error, ErrorView,
    FuotaDeployment, FuotaDeploymentDevice, FuotaDeploymentGateway, FuotaDeploymentJob, FuotaJob,
    JobView, MulticastGroup, MulticastGroupQueueItem, MulticastGroupQueueItemView,
    MulticastGroupView,
};
use vstd::pervasive::unreached;
use vstd::prelude::*;

verus! {

/// What the caller of a flow has to do next.
#[derive(Debug, PartialEq, Eq)]
pub enum Action {
    CreateMulticastGroup(MulticastGroup),
    /// Read the devices of the firmware update.
    GetDevices { fuota_deployment_id: String },
    /// Read the gateways of the firmware update.
    GetGateways { fuota_deployment_id: String },
    /// Add a device to the multicast group.
    AddDevice { multicast_group_id: String, dev_eui: [u8; 8] },
    /// Add a gateway to the multicast group.
    AddGateway { multicast_group_id: String, gateway_id: [u8; 8] },
    GetDeviceKeys { dev_eui: [u8; 8] },
    /// Convert a point in time to GPS time.
    ToGpsTime(Timestamp),
    EnqueueDeviceItem(DeviceQueueItem),
    EnqueueMulticastItem(MulticastGroupQueueItem),
    /// Store the new state of the job.
    UpdateJob(FuotaDeploymentJob),
    /// Complete the job and schedule the next one.
    CreateJob { fuota_deployment_id: String, job: FuotaJob, max_retry_count: i16 },
    /// The run is over, with this result.
    Finish(Result<(), Error>),
}

#[verifier::ext_equal]
pub enum ActionView {
    CreateMulticastGroup(MulticastGroupView),
    GetDevices { fuota_deployment_id: Seq<char> },
    GetGateways { fuota_deployment_id: Seq<char> },
    AddDevice { multicast_group_id: Seq<char>, dev_eui: Seq<u8> },
    AddGateway { multicast_group_id: Seq<char>, gateway_id: Seq<u8> },
    GetDeviceKeys { dev_eui: Seq<u8> },
    ToGpsTime(Instant),
    EnqueueDeviceItem(DeviceQueueItemView),
    EnqueueMulticastItem(MulticastGroupQueueItemView),
    UpdateJob(JobView),
    CreateJob { fuota_deployment_id: Seq<char>, job: FuotaJob, max_retry_count: int },
    Finish(Result<(), ErrorView>),
}

/// The result of a run, with the error as its view.
pub open spec fn outcome(result: Result<(), Error>) -> Result<(), ErrorView> {
    match result {
        Ok(_) => Ok(()),
        Err(error) => Err(error@),
    }
}

impl View for Action {
    type V = ActionView;

    open spec fn view(&self) -> ActionView {
        match self {
            Action::CreateMulticastGroup(group) => ActionView::CreateMulticastGroup(group@),
            Action::GetDevices { fuota_deployment_id } => ActionView::GetDevices {
                fuota_deployment_id: fuota_deployment_id@,
            },
            Action::GetGateways { fuota_deployment_id } => ActionView::GetGateways {
                fuota_deployment_id: fuota_deployment_id@,
            },
            Action::AddDevice { multicast_group_id, dev_eui } => ActionView::AddDevice {
                multicast_group_id: multicast_group_id@,
                dev_eui: dev_eui@,
            },
            Action::AddGateway { multicast_group_id, gateway_id } => ActionView::AddGateway {
                multicast_group_id: multicast_group_id@,
                gateway_id: gateway_id@,
            },
            Action::GetDeviceKeys { dev_eui } => ActionView::GetDeviceKeys { dev_eui: dev_eui@ },
            Action::ToGpsTime(time) => ActionView::ToGpsTime(time@),
            Action::EnqueueDeviceItem(item) => ActionView::EnqueueDeviceItem(item@),
            Action::EnqueueMulticastItem(item) => ActionView::EnqueueMulticastItem(item@),
            Action::UpdateJob(job) => ActionView::UpdateJob(job@),
            Action::CreateJob { fuota_deployment_id, job, max_retry_count } => {
                ActionView::CreateJob {
                    fuota_deployment_id: fuota_deployment_id@,
                    job: *job,
                    max_retry_count: *max_retry_count as int,
                }
            },
            Action::Finish(result) => ActionView::Finish(outcome(*result)),
        }
    }
}

/// The outcome of an action.
#[derive(Debug, PartialEq, Eq)]
pub enum Event {
    /// The action was performed and there is nothing to report.
    Done,
    Devices(Vec<FuotaDeploymentDevice>),
    Gateways(Vec<FuotaDeploymentGateway>),
    DeviceKeys(DeviceKeys),
    /// The seconds of the GPS time that was asked for.
    GpsTime(i64),
    /// The action failed, with this error.
    Failed(String),
}

#[verifier::ext_equal]
pub enum EventView {
    Done,
    Devices(Seq<FuotaDeploymentDevice>),
    Gateways(Seq<FuotaDeploymentGateway>),
    DeviceKeys(DeviceKeys),
    GpsTime(int),
    Failed(Seq<char>),
}

impl View for Event {
    type V = EventView;

    open spec fn view(&self) -> EventView {
        match self {
            Event::Done => EventView::Done,
            Event::Devices(devices) => EventView::Devices(devices@),
            Event::Gateways(gateways) => EventView::Gateways(gateways@),
            Event::DeviceKeys(keys) => EventView::DeviceKeys(*keys),
            Event::GpsTime(seconds) => EventView::GpsTime(*seconds as int),
            Event::Failed(text) => EventView::Failed(text@),
        }
    }
}

/// How far a run has come: the action whose outcome it waits for.
#[derive(Debug)]
pub enum Stage {
    CreateGroup,
    ListDevices,
    ListGateways,
    AddDevice { devices: Vec<FuotaDeploymentDevice>, index: usize },
    AddGateway { gateways: Vec<FuotaDeploymentGateway>, index: usize },
    DeviceKeys { devices: Vec<FuotaDeploymentDevice>, index: usize },
    GpsTime { devices: Vec<FuotaDeploymentDevice>, index: usize },
    DeviceItem { devices: Vec<FuotaDeploymentDevice>, index: usize },
    FragmentItem { fragments: Vec<Vec<u8>>, index: usize },
    /// The job is being stored.  The run ends with `result` once that is done.
    Save { result: Result<(), Error> },
    /// No action is outstanding: the run has not begun, or it is over.
    Idle,
}

#[verifier::ext_equal]
pub enum StageView {
    CreateGroup,
    ListDevices,
    ListGateways,
    AddDevice { devices: Seq<FuotaDeploymentDevice>, index: int },
    AddGateway { gateways: Seq<FuotaDeploymentGateway>, index: int },
    DeviceKeys { devices: Seq<FuotaDeploymentDevice>, index: int },
    GpsTime { devices: Seq<FuotaDeploymentDevice>, index: int },
    DeviceItem { devices: Seq<FuotaDeploymentDevice>, index: int },
    FragmentItem { fragments: Seq<Seq<u8>>, index: int },
    Save { result: Result<(), ErrorView> },
    Idle,
}

impl View for Stage {
    type V = StageView;

    open spec fn view(&self) -> StageView {
        match self {
            Stage::CreateGroup => StageView::CreateGroup,
            Stage::ListDevices => StageView::ListDevices,
            Stage::ListGateways => StageView::ListGateways,
            Stage::AddDevice { devices, index } => StageView::AddDevice {
                devices: devices@,
                index: *index as int,
            },
            Stage::AddGateway { gateways, index } => StageView::AddGateway {
                gateways: gateways@,
                index: *index as int,
            },
            Stage::DeviceKeys { devices, index } => StageView::DeviceKeys {
                devices: devices@,
                index: *index as int,
            },
            Stage::GpsTime { devices, index } => StageView::GpsTime {
                devices: devices@,
                index: *index as int,
            },
            Stage::DeviceItem { devices, index } => StageView::DeviceItem {
                devices: devices@,
                index: *index as int,
            },
            Stage::FragmentItem { fragments, index } => StageView::FragmentItem {
                fragments: fragments.deep_view(),
                index: *index as int,
            },
            Stage::Save { result } => StageView::Save { result: outcome(*result) },
            Stage::Idle => StageView::Idle,
        }
    }
}

/// The run of one job of a firmware update.
///
/// The scheduler interval is how long a failed job waits before it runs again.
#[derive(Debug)]
pub struct Flow {
    pub job: FuotaDeploymentJob,
    pub fuota_deployment: FuotaDeployment,
    pub device_profile: DeviceProfile,
    pub scheduler_interval: Interval,
    pub stage: Stage,
}

#[verifier::ext_equal]
pub struct FlowView {
    pub job: JobView,
    pub fuota_deployment: FuotaDeployment,
    pub device_profile: DeviceProfile,
    pub scheduler_interval: Interval,
    pub stage: StageView,
}

impl View for Flow {
    type V = FlowView;

    open spec fn view(&self) -> FlowView {
        FlowView {
            job: self.job@,
            fuota_deployment: self.fuota_deployment,
            device_profile: self.device_profile,
            scheduler_interval: self.scheduler_interval,
            stage: self.stage@,
        }
    }
}

/// The job that follows `job`, if there is one.
pub open spec fn successor(job: FuotaJob) -> Option<FuotaJob> {
    match job {
        FuotaJob::CreateMcGroup => Some(FuotaJob::AddDevsToMcGroup),
        FuotaJob::AddDevsToMcGroup => Some(FuotaJob::AddGwsToMcGroup),
        FuotaJob::AddGwsToMcGroup => Some(FuotaJob::McGroupSetup),
        FuotaJob::McGroupSetup => Some(FuotaJob::FragSessionSetup),
        FuotaJob::FragSessionSetup => Some(FuotaJob::McSession),
        FuotaJob::McSession => Some(FuotaJob::Enqueue),
        FuotaJob::Enqueue => Some(FuotaJob::FragStatus),
        FuotaJob::FragStatus => None,
    }
}

/// Whether the other jobs cannot run unless `job` has succeeded.
pub open spec fn is_essential(job: FuotaJob) -> bool {
    job is CreateMcGroup || job is AddDevsToMcGroup || job is AddGwsToMcGroup
}

/// Whether a device still has to answer the request that `job` sends.
///
/// A request goes to the devices that have completed the step before, and not yet this one.
pub open spec fn awaits(job: FuotaJob, device: FuotaDeploymentDevice) -> bool {
    match job {
        FuotaJob::McGroupSetup => device.mc_group_setup_completed_at is None,
        FuotaJob::FragSessionSetup => device.mc_group_setup_completed_at is Some
            && device.frag_session_setup_completed_at is None,
        FuotaJob::McSession => device.frag_session_setup_completed_at is Some
            && device.mc_session_completed_at is None,
        _ => true,
    }
}

/// The devices that `job` has to work on.
pub open spec fn pending(job: FuotaJob, devices: Seq<FuotaDeploymentDevice>) -> Seq<
    FuotaDeploymentDevice,
> {
    devices.filter(|device: FuotaDeploymentDevice| awaits(job, device))
}

impl JobView {
    /// Whether the attempts are used up.  The running attempt is already counted, and the first one
    /// is no retry.
    pub open spec fn is_exhausted(self) -> bool {
        self.attempt_count - 1 > self.max_retry_count
    }
}

/// Whether a job can work on a firmware update: a fragmentation session needs a fragment size, and
/// the image has to allow fragments of that size.
pub open spec fn can_begin(job: FuotaJob, deployment: FuotaDeployment) -> bool {
    &&& job is FragSessionSetup ==> deployment.fragmentation_fragment_size != 0
    &&& job is Enqueue ==> can_fragment(deployment)
}

/// Whether a job can run: the attempt can be counted, the times are valid, and the job can begin
/// unless its attempts are used up.
pub open spec fn can_run(
    job: JobView,
    deployment: FuotaDeployment,
    scheduler_interval: Interval,
) -> bool {
    &&& job.attempt_count < i16::MAX
    &&& job.scheduler_run_after.on_calendar()
    &&& scheduler_interval.valid()
    &&& job.attempt_count <= job.max_retry_count ==> can_begin(job.job, deployment)
}

impl ActionView {
    /// Whether the point in time that was computed for this action is on the calendar.
    pub open spec fn on_calendar(self) -> bool {
        match self {
            ActionView::UpdateJob(job) => job.scheduler_run_after.on_calendar(),
            ActionView::ToGpsTime(time) => time.on_calendar(),
            _ => true,
        }
    }
}

impl FlowView {
    pub open spec fn at(self, stage: StageView) -> FlowView {
        FlowView { stage, ..self }
    }

    /// Ends the run: with the same job again, with another job, or with no further job.
    pub open spec fn conclude(self, next: Option<FuotaJob>, now: Instant) -> (
        FlowView,
        ActionView,
    ) {
        (
            self.at(StageView::Save { result: Ok(()) }),
            match next {
                Some(next) => if next == self.job.job {
                    ActionView::UpdateJob(self.job)
                } else {
                    ActionView::CreateJob {
                        fuota_deployment_id: self.job.fuota_deployment_id,
                        job: next,
                        max_retry_count: if next is FragSessionSetup || next is McGroupSetup {
                            self.fuota_deployment.unicast_max_retry_count as int
                        } else {
                            0
                        },
                    }
                },
                None => ActionView::UpdateJob(JobView { completed_at: Some(now), ..self.job }),
            },
        )
    }

    /// Ends the run with an error: the job runs again after the scheduler interval.
    pub open spec fn fail(self, error: ErrorView, now: Instant) -> (FlowView, ActionView) {
        (
            self.at(StageView::Save { result: Err(error) }),
            ActionView::UpdateJob(
                JobView {
                    scheduler_run_after: now.plus(
                        self.scheduler_interval.secs as int,
                        self.scheduler_interval.nanos as int,
                    ),
                    return_msg: "Error: "@ + error.text(),
                    ..self.job
                },
            ),
        )
    }

    /// Ends the run: the job runs again after the uplink interval, so that devices can answer.
    pub open spec fn postpone(self, now: Instant) -> (FlowView, ActionView) {
        let flow = FlowView {
            job: JobView {
                scheduler_run_after: now.plus(self.device_profile.uplink_interval as int, 0),
                ..self.job
            },
            ..self
        };
        flow.conclude(Some(flow.job.job), now)
    }

    /// When a multicast session starts: one uplink interval later for every attempt of the job.
    pub open spec fn session_start(self, now: Instant) -> Instant {
        now.plus(
            (self.job.max_retry_count + 1) * self.device_profile.uplink_interval as int,
            0,
        )
    }

    /// Adds device number `index` to the multicast group.
    pub open spec fn add_device(
        self,
        devices: Seq<FuotaDeploymentDevice>,
        index: int,
        now: Instant,
    ) -> (FlowView, ActionView) {
        if index < devices.len() {
            (
                self.at(StageView::AddDevice { devices, index }),
                ActionView::AddDevice {
                    multicast_group_id: devices[index].fuota_deployment_id@,
                    dev_eui: devices[index].dev_eui@,
                },
            )
        } else {
            self.conclude(Some(FuotaJob::AddGwsToMcGroup), now)
        }
    }

    /// Adds gateway number `index` to the multicast group.
    pub open spec fn add_gateway(
        self,
        gateways: Seq<FuotaDeploymentGateway>,
        index: int,
        now: Instant,
    ) -> (FlowView, ActionView) {
        if index < gateways.len() {
            (
                self.at(StageView::AddGateway { gateways, index }),
                ActionView::AddGateway {
                    multicast_group_id: gateways[index].fuota_deployment_id@,
                    gateway_id: gateways[index].gateway_id@,
                },
            )
        } else {
            self.conclude(Some(FuotaJob::McGroupSetup), now)
        }
    }

    /// Sends the request of the job to pending device number `index`.
    ///
    /// After the last device, the job runs again to see who has answered.  If nobody was asked, the
    /// next job follows, except that announcing the session takes all attempts.
    pub open spec fn ask_device(
        self,
        devices: Seq<FuotaDeploymentDevice>,
        index: int,
        now: Instant,
    ) -> (FlowView, ActionView) {
        if index < devices.len() {
            let dev_eui = devices[index].dev_eui@;
            if self.job.job is McGroupSetup {
                (
                    self.at(StageView::DeviceKeys { devices, index }),
                    ActionView::GetDeviceKeys { dev_eui },
                )
            } else if self.job.job is FragSessionSetup {
                (
                    self.at(StageView::DeviceItem { devices, index }),
                    ActionView::EnqueueDeviceItem(
                        frag_session_setup_item_of(
                            self.fuota_deployment,
                            self.device_profile,
                            dev_eui,
                        ),
                    ),
                )
            } else {
                (
                    self.at(StageView::GpsTime { devices, index }),
                    ActionView::ToGpsTime(self.session_start(now)),
                )
            }
        } else if devices.len() > 0 || self.job.job is McSession {
            self.postpone(now)
        } else {
            self.conclude(successor(self.job.job), now)
        }
    }

    /// Sends a prepared downlink to pending device number `index`, or fails.
    pub open spec fn send_item(
        self,
        devices: Seq<FuotaDeploymentDevice>,
        index: int,
        item: Result<DeviceQueueItemView, ErrorView>,
        now: Instant,
    ) -> (FlowView, ActionView) {
        match item {
            Ok(item) => (
                self.at(StageView::DeviceItem { devices, index }),
                ActionView::EnqueueDeviceItem(item),
            ),
            Err(error) => self.fail(error, now),
        }
    }

    /// Sends fragment number `index`, counted from 0, to the multicast group.
    pub open spec fn send_fragment(
        self,
        fragments: Seq<Seq<u8>>,
        index: int,
        now: Instant,
    ) -> (FlowView, ActionView) {
        if index < fragments.len() {
            match fragment_item_of(
                self.fuota_deployment,
                self.device_profile,
                index,
                fragments[index],
            ) {
                Ok(item) => (
                    self.at(StageView::FragmentItem { fragments, index }),
                    ActionView::EnqueueMulticastItem(item),
                ),
                Err(error) => self.fail(error, now),
            }
        } else {
            self.conclude(Some(FuotaJob::FragStatus), now)
        }
    }

    /// The flow, with one more attempt of its job.
    pub open spec fn attempted(self) -> FlowView {
        FlowView {
            job: JobView { attempt_count: self.job.attempt_count + 1, ..self.job },
            ..self
        }
    }

    /// The first step of a job that has attempts left.
    pub open spec fn begin(self, now: Instant) -> (FlowView, ActionView) {
        match self.job.job {
            FuotaJob::CreateMcGroup => (
                self.at(StageView::CreateGroup),
                ActionView::CreateMulticastGroup(
                    multicast_group_of(self.fuota_deployment, self.device_profile),
                ),
            ),
            FuotaJob::AddGwsToMcGroup => (
                self.at(StageView::ListGateways),
                ActionView::GetGateways { fuota_deployment_id: self.job.fuota_deployment_id },
            ),
            FuotaJob::Enqueue => self.send_fragment(
                image_fragments_of(self.fuota_deployment),
                0,
                now,
            ),
            FuotaJob::FragStatus => self.conclude(None, now),
            _ => (
                self.at(StageView::ListDevices),
                ActionView::GetDevices { fuota_deployment_id: self.job.fuota_deployment_id },
            ),
        }
    }

    /// The first step of an attempt.
    ///
    /// A job whose attempts are used up does nothing: the update ends if the job is essential, and
    /// goes on with the next job otherwise.
    pub open spec fn attempt(self, now: Instant) -> (FlowView, ActionView) {
        if !self.job.is_exhausted() {
            self.begin(now)
        } else if is_essential(self.job.job) {
            self.conclude(None, now)
        } else {
            self.conclude(successor(self.job.job), now)
        }
    }

    /// The first step of a run.
    pub open spec fn dispatch(self, now: Instant) -> (FlowView, ActionView) {
        self.attempted().attempt(now)
    }

    /// The step that follows the outcome of the last action.
    pub open spec fn resume(self, event: EventView, now: Instant) -> (FlowView, ActionView) {
        match (self.stage, event) {
            (StageView::Save { result }, EventView::Done) => (
                self.at(StageView::Idle),
                ActionView::Finish(result),
            ),
            (StageView::Save { .. }, EventView::Failed(text)) => (
                self.at(StageView::Idle),
                ActionView::Finish(Err(ErrorView::Backend(text))),
            ),
            (_, EventView::Failed(text)) => self.fail(ErrorView::Backend(text), now),
            (StageView::CreateGroup, _) => self.conclude(Some(FuotaJob::AddDevsToMcGroup), now),
            (StageView::ListGateways, EventView::Gateways(gateways)) => self.add_gateway(
                gateways,
                0,
                now,
            ),
            (StageView::AddGateway { gateways, index }, _) => self.add_gateway(
                gateways,
                index + 1,
                now,
            ),
            (StageView::ListDevices, EventView::Devices(devices)) => if self.job.job
                is AddDevsToMcGroup {
                self.add_device(devices, 0, now)
            } else {
                self.ask_device(pending(self.job.job, devices), 0, now)
            },
            (StageView::AddDevice { devices, index }, _) => self.add_device(
                devices,
                index + 1,
                now,
            ),
            (StageView::DeviceKeys { devices, index }, EventView::DeviceKeys(keys)) => {
                self.send_item(
                    devices,
                    index,
                    Ok(
                        mc_group_setup_item_of(
                            self.fuota_deployment,
                            self.device_profile,
                            devices[index].dev_eui@,
                            keys,
                        ),
                    ),
                    now,
                )
            },
            (StageView::GpsTime { devices, index }, EventView::GpsTime(seconds)) => {
                self.send_item(
                    devices,
                    index,
                    mc_session_item_of(
                        self.fuota_deployment,
                        self.device_profile,
                        devices[index].dev_eui@,
                        seconds,
                    ),
                    now,
                )
            },
            (StageView::DeviceItem { devices, index }, _) => self.ask_device(
                devices,
                index + 1,
                now,
            ),
            (StageView::FragmentItem { fragments, index }, _) => self.send_fragment(
                fragments,
                index + 1,
                now,
            ),
            _ => (self, ActionView::Finish(Ok(()))),
        }
    }

    /// Whether `event` is an outcome of the action that the run waits for.
    pub open spec fn expects(self, event: EventView) -> bool {
        match self.stage {
            StageView::ListDevices => event is Devices || event is Failed,
            StageView::ListGateways => event is Gateways || event is Failed,
            StageView::DeviceKeys { .. } => event is DeviceKeys || event is Failed,
            StageView::GpsTime { .. } => event is GpsTime,
            StageView::Idle => false,
            _ => event is Done || event is Failed,
        }
    }

    /// Whether the times of the flow are valid.
    pub open spec fn times_valid(self) -> bool {
        &&& self.job.scheduler_run_after.on_calendar()
        &&& self.scheduler_interval.valid()
    }

    /// Whether the stage is one of the job's, and stands at a device, gateway or fragment that
    /// exists.
    pub open spec fn stage_fits(self) -> bool {
        let job = self.job.job;
        match self.stage {
            StageView::CreateGroup => job is CreateMcGroup,
            StageView::ListDevices => job is AddDevsToMcGroup || job is McGroupSetup
                || job is FragSessionSetup || job is McSession,
            StageView::ListGateways => job is AddGwsToMcGroup,
            StageView::AddDevice { devices, index } => job is AddDevsToMcGroup && 0 <= index
                < devices.len(),
            StageView::AddGateway { gateways, index } => job is AddGwsToMcGroup && 0 <= index
                < gateways.len(),
            StageView::DeviceKeys { devices, index } => job is McGroupSetup && 0 <= index
                < devices.len(),
            StageView::GpsTime { devices, index } => job is McSession && 0 <= index < devices.len(),
            StageView::DeviceItem { devices, index } => (job is McGroupSetup
                || job is FragSessionSetup || job is McSession) && 0 <= index < devices.len(),
            StageView::FragmentItem { fragments, index } => job is Enqueue && 0 <= index
                < fragments.len(),
            StageView::Save { .. } => true,
            StageView::Idle => true,
        }
    }

    /// What holds of a flow between two steps.
    pub open spec fn wf(self) -> bool {
        &&& self.times_valid()
        &&& self.stage_fits()
        &&& (self.job.job is FragSessionSetup && (self.stage is ListDevices || self.stage
            is DeviceItem)) ==> self.fuota_deployment.fragmentation_fragment_size != 0
    }
}

/// The flow of a job that has not run yet.
pub open spec fn unstarted(
    job: FuotaDeploymentJob,
    fuota_deployment: FuotaDeployment,
    device_profile: DeviceProfile,
    scheduler_interval: Interval,
) -> FlowView {
    FlowView {
        job: job@,
        fuota_deployment,
        device_profile,
        scheduler_interval,
        stage: StageView::Idle,
    }
}

/// Whether `result` is the step `expected`, or no step where a time leaves the calendar.
pub open spec fn stepped(
    result: Option<(Flow, Action)>,
    expected: (FlowView, ActionView),
) -> bool {
    match result {
        Some(step) => {
            &&& expected.1.on_calendar()
            &&& step.0@ == expected.0
            &&& step.1@ == expected.1
            &&& step.0@.wf()
        },
        None => !expected.1.on_calendar(),
    }
}

/// Picks the devices that `job` has to work on.
pub fn pending_devices(job: FuotaJob, devices: Vec<FuotaDeploymentDevice>) -> (picked: Vec<
    FuotaDeploymentDevice,
>)
    ensures
        picked@ == pending(job, devices@),
{
    let mut picked: Vec<FuotaDeploymentDevice> = Vec::new();
    let ghost all = devices@;
    let ghost chosen = |device: FuotaDeploymentDevice| awaits(job, device);
    proof {
        assert(all.take(0).filter(chosen) =~= Seq::empty()) by {
            reveal(Seq::filter);
        }
    }
    for device in iter: devices
        invariant
            iter.seq() == all,
            chosen == (|device: FuotaDeploymentDevice| awaits(job, device)),
            picked@ == all.take(iter.index()).filter(chosen),
    {
        let keep = match job {
            FuotaJob::McGroupSetup => device.mc_group_setup_completed_at.is_none(),
            FuotaJob::FragSessionSetup => device.mc_group_setup_completed_at.is_some()
                && device.frag_session_setup_completed_at.is_none(),
            FuotaJob::McSession => device.frag_session_setup_completed_at.is_some()
                && device.mc_session_completed_at.is_none(),
            _ => true,
        };
        proof {
            let shorter = all.take(iter.index());
            let longer = all.take(iter.index() + 1);
            assert(longer.drop_last() =~= shorter);
            assert(longer.last() == device);
            reveal(Seq::filter);
        }
        if keep {
            picked.push(device);
        }
    }
    assert(all.take(all.len() as int) =~= all);
    picked
}

impl Flow {
    fn at(self, stage: Stage) -> (flow: Flow)
        ensures
            flow == (Flow { stage, ..self }),
    {
        Flow { stage, ..self }
    }

    /// Ends the run: with the same job again, with another job, or with no further job.
    fn conclude(self, next: Option<FuotaJob>, now: Timestamp) -> (step: (Flow, Action))
        requires
            self@.times_valid(),
        ensures
            step.0@ == self@.conclude(next, now@).0,
            step.1@ == self@.conclude(next, now@).1,
            step.0@.wf(),
            step.1@.on_calendar(),
    {
        let action = match next {
            Some(next) => {
                if self.job.job == next {
                    Action::UpdateJob(self.job.clone())
                } else {
                    Action::CreateJob {
                        fuota_deployment_id: self.job.fuota_deployment_id.clone(),
                        job: next,
                        max_retry_count: match next {
                            FuotaJob::FragSessionSetup | FuotaJob::McGroupSetup => {
                                self.fuota_deployment.unicast_max_retry_count
                            },
                            _ => 0,
                        },
                    }
                }
            },
            None => {
                let mut job = self.job.clone();
                job.completed_at = Some(now);
                Action::UpdateJob(job)
            },
        };
        (self.at(Stage::Save { result: Ok(()) }), action)
    }

    /// Ends the run with an error: the job runs again after the scheduler interval.
    fn fail(self, error: Error, now: Timestamp) -> (step: Option<(Flow, Action)>)
        requires
            self@.times_valid(),
            now.valid(),
        ensures
            stepped(step, self@.fail(error@, now@)),
    {
        let mut job = self.job.clone();
        job.scheduler_run_after = add_interval(now, self.scheduler_interval)?;
        job.return_msg = "Error: ".to_owned().concat(error.text().as_str());
        Some((self.at(Stage::Save { result: Err(error) }), Action::UpdateJob(job)))
    }

    /// Ends the run: the job runs again after the uplink interval, so that devices can answer.
    fn postpone(self, now: Timestamp) -> (step: Option<(Flow, Action)>)
        requires
            self@.times_valid(),
            now.valid(),
        ensures
            stepped(step, self@.postpone(now@)),
    {
        let mut flow = self;
        let interval: i64 = flow.device_profile.uplink_interval as i64;
        flow.job.scheduler_run_after = add_seconds(now, interval)?;
        let job = flow.job.job;
        Some(flow.conclude(Some(job), now))
    }

    /// Adds device number `index` to the multicast group.
    fn add_device(
        self,
        devices: Vec<FuotaDeploymentDevice>,
        index: usize,
        now: Timestamp,
    ) -> (step: (Flow, Action))
        requires
            self@.times_valid(),
            self.job.job is AddDevsToMcGroup,
        ensures
            stepped(Some(step), self@.add_device(devices@, index as int, now@)),
    {
        if index < devices.len() {
            let action = Action::AddDevice {
                multicast_group_id: devices[index].fuota_deployment_id.clone(),
                dev_eui: devices[index].dev_eui,
            };
            (self.at(Stage::AddDevice { devices, index }), action)
        } else {
            self.conclude(Some(FuotaJob::AddGwsToMcGroup), now)
        }
    }

    /// Adds gateway number `index` to the multicast group.
    fn add_gateway(
        self,
        gateways: Vec<FuotaDeploymentGateway>,
        index: usize,
        now: Timestamp,
    ) -> (step: (Flow, Action))
        requires
            self@.times_valid(),
            self.job.job is AddGwsToMcGroup,
        ensures
            stepped(Some(step), self@.add_gateway(gateways@, index as int, now@)),
    {
        if index < gateways.len() {
            let action = Action::AddGateway {
                multicast_group_id: gateways[index].fuota_deployment_id.clone(),
                gateway_id: gateways[index].gateway_id,
            };
            (self.at(Stage::AddGateway { gateways, index }), action)
        } else {
            self.conclude(Some(FuotaJob::McGroupSetup), now)
        }
    }

    /// Sends the request of the job to pending device number `index`.
    fn ask_device(
        self,
        devices: Vec<FuotaDeploymentDevice>,
        index: usize,
        now: Timestamp,
    ) -> (step: Option<(Flow, Action)>)
        requires
            self@.times_valid(),
            self.job.job is McGroupSetup || self.job.job is FragSessionSetup || self.job.job
                is McSession,
            self.job.job is FragSessionSetup
                ==> self.fuota_deployment.fragmentation_fragment_size != 0,
            now.valid(),
        ensures
            stepped(step, self@.ask_device(devices@, index as int, now@)),
    {
        match self.job.job {
            FuotaJob::McGroupSetup => self.ask_for_group_setup(devices, index, now),
            FuotaJob::FragSessionSetup => self.ask_for_session_setup(devices, index, now),
            _ => self.ask_for_session(devices, index, now),
        }
    }

    /// Asks pending device number `index` to join the multicast group, for which its keys are
    /// needed.
    fn ask_for_group_setup(
        self,
        devices: Vec<FuotaDeploymentDevice>,
        index: usize,
        now: Timestamp,
    ) -> (step: Option<(Flow, Action)>)
        requires
            self@.times_valid(),
            self.job.job is McGroupSetup,
            now.valid(),
        ensures
            stepped(step, self@.ask_device(devices@, index as int, now@)),
    {
        if index < devices.len() {
            let action = Action::GetDeviceKeys { dev_eui: devices[index].dev_eui };
            Some((self.at(Stage::DeviceKeys { devices, index }), action))
        } else if devices.len() > 0 {
            // There are devices pending setup, we need to re-run this job.
            self.postpone(now)
        } else {
            // All devices have completed the setup, move on to next job.
            Some(self.conclude(Some(FuotaJob::FragSessionSetup), now))
        }
    }

    /// Asks pending device number `index` to set up the fragmentation session.
    fn ask_for_session_setup(
        self,
        devices: Vec<FuotaDeploymentDevice>,
        index: usize,
        now: Timestamp,
    ) -> (step: Option<(Flow, Action)>)
        requires
            self@.times_valid(),
            self.job.job is FragSessionSetup,
            self.fuota_deployment.fragmentation_fragment_size != 0,
            now.valid(),
        ensures
            stepped(step, self@.ask_device(devices@, index as int, now@)),
    {
        if index < devices.len() {
            let item = frag_session_setup_item(
                &self.fuota_deployment,
                &self.device_profile,
                devices[index].dev_eui,
            );
            self.send_item(devices, index, item, now)
        } else if devices.len() > 0 {
            // There are devices pending setup, we need to re-run this job.
            self.postpone(now)
        } else {
            // All devices have completed the setup, move on to next job.
            Some(self.conclude(Some(FuotaJob::McSession), now))
        }
    }

    /// Tells pending device number `index` when the multicast session starts, for which the start
    /// is needed in GPS time.
    fn ask_for_session(
        self,
        devices: Vec<FuotaDeploymentDevice>,
        index: usize,
        now: Timestamp,
    ) -> (step: Option<(Flow, Action)>)
        requires
            self@.times_valid(),
            self.job.job is McSession,
            now.valid(),
        ensures
            stepped(step, self@.ask_device(devices@, index as int, now@)),
    {
        if index < devices.len() {
            // We want to start the session (retry_count + 1) x the uplink_interval.
            // Note that retry_count=0 means only one attempt.
            let attempts: i64 = self.job.max_retry_count as i64 + 1;
            let interval: i64 = self.device_profile.uplink_interval as i64;
            assert(-0x1_0000_0000_0000 <= attempts * interval <= 0x1_0000_0000_0000)
                by (nonlinear_arith)
                requires
                    -0x7fff <= attempts <= 0x8000,
                    -0x8000_0000 <= interval <= 0x7fff_ffff,
            ;
            let start = add_seconds(now, attempts * interval)?;
            Some((self.at(Stage::GpsTime { devices, index }), Action::ToGpsTime(start)))
        } else {
            // In this case we need to exactly try the max. attempts, because this is what the
            // session-start time calculation is based on. If we continue with enqueueing too
            // early, the multicast-session hasn't started yet.
            self.postpone(now)
        }
    }

    /// Sends a prepared downlink to pending device number `index`, or fails.
    fn send_item(
        self,
        devices: Vec<FuotaDeploymentDevice>,
        index: usize,
        item: Result<DeviceQueueItem, Error>,
        now: Timestamp,
    ) -> (step: Option<(Flow, Action)>)
        requires
            self@.times_valid(),
            self.job.job is McGroupSetup || self.job.job is FragSessionSetup || self.job.job
                is McSession,
            self.job.job is FragSessionSetup
                ==> self.fuota_deployment.fragmentation_fragment_size != 0,
            index < devices@.len(),
            now.valid(),
        ensures
            stepped(step, self@.send_item(devices@, index as int, prepared(item), now@)),
    {
        match item {
            Ok(item) => Some(
                (self.at(Stage::DeviceItem { devices, index }), Action::EnqueueDeviceItem(item)),
            ),
            Err(error) => self.fail(error, now),
        }
    }

    /// Sends fragment number `index`, counted from 0, to the multicast group.
    fn send_fragment(
        self,
        fragments: Vec<Vec<u8>>,
        index: usize,
        now: Timestamp,
    ) -> (step: Option<(Flow, Action)>)
        requires
            self@.times_valid(),
            self.job.job is Enqueue,
            now.valid(),
        ensures
            stepped(step, self@.send_fragment(fragments.deep_view(), index as int, now@)),
    {
        if index < fragments.len() {
            assert(fragments.deep_view()[index as int] =~= fragments@[index as int]@);
            match fragment_item(
                &self.fuota_deployment,
                &self.device_profile,
                index,
                &fragments[index],
            ) {
                Ok(item) => Some(
                    (
                        self.at(Stage::FragmentItem { fragments, index }),
                        Action::EnqueueMulticastItem(item),
                    ),
                ),
                Err(error) => self.fail(error, now),
            }
        } else {
            Some(self.conclude(Some(FuotaJob::FragStatus), now))
        }
    }

    fn is_exhausted(&self) -> (exhausted: bool)
        requires
            self.job.attempt_count > i16::MIN,
        ensures
            exhausted == self@.job.is_exhausted(),
    {
        self.job.attempt_count - 1 > self.job.max_retry_count
    }

    /// Creates the multicast group.
    fn create_mc_group(self, now: Timestamp) -> (step: Option<(Flow, Action)>)
        requires
            self@.times_valid(),
            self.job.job is CreateMcGroup,
            self.job.attempt_count > i16::MIN,
            now.valid(),
        ensures
            stepped(step, self@.attempt(now@)),
    {
        // If this job fails, then there is no need to execute the others.
        if self.is_exhausted() {
            return Some(self.conclude(None, now));
        }
        match multicast_group(&self.fuota_deployment, &self.device_profile) {
            Ok(group) => Some((self.at(Stage::CreateGroup), Action::CreateMulticastGroup(group))),
            Err(error) => self.fail(error, now),
        }
    }

    /// Adds the devices to the multicast group.
    fn add_devices_to_multicast_group(self, now: Timestamp) -> (step: (Flow, Action))
        requires
            self@.times_valid(),
            self.job.job is AddDevsToMcGroup,
            self.job.attempt_count > i16::MIN,
        ensures
            stepped(Some(step), self@.attempt(now@)),
    {
        // If this job fails, then there is no need to execute the others.
        if self.is_exhausted() {
            return self.conclude(None, now);
        }
        self.list_devices()
    }

    /// Adds the gateways to the multicast group.
    fn add_gateways_to_multicast_group(self, now: Timestamp) -> (step: (Flow, Action))
        requires
            self@.times_valid(),
            self.job.job is AddGwsToMcGroup,
            self.job.attempt_count > i16::MIN,
        ensures
            stepped(Some(step), self@.attempt(now@)),
    {
        // If this job fails, then there is no need to execute the others.
        if self.is_exhausted() {
            return self.conclude(None, now);
        }
        let action = Action::GetGateways {
            fuota_deployment_id: self.job.fuota_deployment_id.clone(),
        };
        (self.at(Stage::ListGateways), action)
    }

    /// Asks the devices to join the multicast group.
    fn multicast_group_setup(self, now: Timestamp) -> (step: (Flow, Action))
        requires
            self@.times_valid(),
            self.job.job is McGroupSetup,
            self.job.attempt_count > i16::MIN,
        ensures
            stepped(Some(step), self@.attempt(now@)),
    {
        // Proceed with next step after reaching the max attempts.
        if self.is_exhausted() {
            return self.conclude(Some(FuotaJob::FragSessionSetup), now);
        }
        self.list_devices()
    }

    /// Asks the devices to set up the fragmentation session.
    fn fragmentation_session_setup(self, now: Timestamp) -> (step: (Flow, Action))
        requires
            self@.times_valid(),
            self.job.job is FragSessionSetup,
            self.job.attempt_count > i16::MIN,
            !self@.job.is_exhausted() ==> can_begin(self.job.job, self.fuota_deployment),
        ensures
            stepped(Some(step), self@.attempt(now@)),
    {
        // Proceed with next step after reaching the max attempts.
        if self.is_exhausted() {
            return self.conclude(Some(FuotaJob::McSession), now);
        }
        self.list_devices()
    }

    /// Tells the devices when the multicast session starts.
    fn multicast_session_setup(self, now: Timestamp) -> (step: (Flow, Action))
        requires
            self@.times_valid(),
            self.job.job is McSession,
            self.job.attempt_count > i16::MIN,
        ensures
            stepped(Some(step), self@.attempt(now@)),
    {
        // Proceed with next step after reaching the max attempts.
        if self.is_exhausted() {
            return self.conclude(Some(FuotaJob::Enqueue), now);
        }
        self.list_devices()
    }

    /// Sends the fragments to the multicast group.
    fn enqueue(self, now: Timestamp) -> (step: Option<(Flow, Action)>)
        requires
            self@.times_valid(),
            self.job.job is Enqueue,
            self.job.attempt_count > i16::MIN,
            !self@.job.is_exhausted() ==> can_begin(self.job.job, self.fuota_deployment),
            now.valid(),
        ensures
            stepped(step, self@.attempt(now@)),
            self.job.attempt_count - 1 <= self.job.max_retry_count ==> holds_image(
                self.fuota_deployment,
                image_fragments_of(self.fuota_deployment),
            ),
    {
        // Proceed with next step after reaching the max attempts.
        if self.is_exhausted() {
            return Some(self.conclude(Some(FuotaJob::FragStatus), now));
        }
        match image_fragments(&self.fuota_deployment) {
            Ok(fragments) => self.send_fragment(fragments, 0, now),
            Err(error) => self.fail(error, now),
        }
    }

    /// Ends the firmware update.
    fn fragmentation_status(self, now: Timestamp) -> (step: (Flow, Action))
        requires
            self@.times_valid(),
            self.job.job is FragStatus,
        ensures
            stepped(Some(step), self@.attempt(now@)),
    {
        self.conclude(None, now)
    }

    fn list_devices(self) -> (step: (Flow, Action))
        ensures
            step.0@ == self@.at(StageView::ListDevices),
            step.1@ == (ActionView::GetDevices {
                fuota_deployment_id: self@.job.fuota_deployment_id,
            }),
    {
        let action = Action::GetDevices {
            fuota_deployment_id: self.job.fuota_deployment_id.clone(),
        };
        (self.at(Stage::ListDevices), action)
    }

    /// Counts the attempt and takes the first step of the job.
    fn dispatch(self, now: Timestamp) -> (step: Option<(Flow, Action)>)
        requires
            can_run(self@.job, self.fuota_deployment, self.scheduler_interval),
            now.valid(),
        ensures
            stepped(step, self@.dispatch(now@)),
            self.job.job is Enqueue && self.job.attempt_count <= self.job.max_retry_count
                ==> holds_image(self.fuota_deployment, image_fragments_of(self.fuota_deployment)),
    {
        let mut flow = self;
        flow.job.attempt_count = flow.job.attempt_count + 1;
        match flow.job.job {
            FuotaJob::CreateMcGroup => flow.create_mc_group(now),
            FuotaJob::AddDevsToMcGroup => Some(flow.add_devices_to_multicast_group(now)),
            FuotaJob::AddGwsToMcGroup => Some(flow.add_gateways_to_multicast_group(now)),
            FuotaJob::McGroupSetup => Some(flow.multicast_group_setup(now)),
            FuotaJob::FragSessionSetup => Some(flow.fragmentation_session_setup(now)),
            FuotaJob::McSession => Some(flow.multicast_session_setup(now)),
            FuotaJob::Enqueue => flow.enqueue(now),
            FuotaJob::FragStatus => Some(flow.fragmentation_status(now)),
        }
    }

    /// Takes the step that follows the outcome of the last action.
    fn step(self, event: Event, now: Timestamp) -> (step: Option<(Flow, Action)>)
        requires
            self@.wf(),
            self@.expects(event@),
            now.valid(),
        ensures
            stepped(step, self@.resume(event@, now@)),
    {
        let Flow { job, fuota_deployment, device_profile, scheduler_interval, stage } = self;
        let flow = Flow {
            job,
            fuota_deployment,
            device_profile,
            scheduler_interval,
            stage: Stage::Idle,
        };
        match event {
            Event::Failed(text) => flow.after_failure(stage, text, now),
            Event::Done => flow.after_done(stage, now),
            Event::Devices(devices) => flow.after_devices(devices, now),
            Event::Gateways(gateways) => Some(flow.add_gateway(gateways, 0, now)),
            Event::DeviceKeys(keys) => flow.after_keys(stage, keys, now),
            Event::GpsTime(seconds) => flow.after_gps_time(stage, seconds, now),
        }
    }

    /// The step after a failed action.
    fn after_failure(self, stage: Stage, text: String, now: Timestamp) -> (step: Option<
        (Flow, Action),
    >)
        requires
            self@.at(stage@).wf(),
            self@.at(stage@).expects(EventView::Failed(text@)),
            self.stage is Idle,
            now.valid(),
        ensures
            stepped(step, self@.at(stage@).resume(EventView::Failed(text@), now@)),
    {
        match stage {
            Stage::Save { result: _ } => Some((self, Action::Finish(Err(Error::Backend(text))))),
            _ => self.fail(Error::Backend(text), now),
        }
    }

    /// The step after an action that has nothing to report.
    fn after_done(self, stage: Stage, now: Timestamp) -> (step: Option<(Flow, Action)>)
        requires
            self@.at(stage@).wf(),
            self@.at(stage@).expects(EventView::Done),
            self.stage is Idle,
            now.valid(),
        ensures
            stepped(step, self@.at(stage@).resume(EventView::Done, now@)),
    {
        match stage {
            Stage::Save { result } => Some((self, Action::Finish(result))),
            Stage::CreateGroup => Some(self.conclude(Some(FuotaJob::AddDevsToMcGroup), now)),
            Stage::AddDevice { devices, index } => {
                assert(index < devices.len());
                Some(self.add_device(devices, index + 1, now))
            },
            Stage::AddGateway { gateways, index } => {
                assert(index < gateways.len());
                Some(self.add_gateway(gateways, index + 1, now))
            },
            Stage::DeviceItem { devices, index } => {
                assert(index < devices.len());
                self.ask_device(devices, index + 1, now)
            },
            Stage::FragmentItem { fragments, index } => {
                assert(index < fragments.len());
                self.send_fragment(fragments, index + 1, now)
            },
            _ => None,
        }
    }

    /// The step after the devices have been read.
    fn after_devices(self, devices: Vec<FuotaDeploymentDevice>, now: Timestamp) -> (step: Option<
        (Flow, Action),
    >)
        requires
            self@.at(StageView::ListDevices).wf(),
            now.valid(),
        ensures
            stepped(
                step,
                self@.at(StageView::ListDevices).resume(EventView::Devices(devices@), now@),
            ),
    {
        if self.job.job == FuotaJob::AddDevsToMcGroup {
            Some(self.add_device(devices, 0, now))
        } else {
            let pending = pending_devices(self.job.job, devices);
            self.ask_device(pending, 0, now)
        }
    }

    /// The step after the keys of a device have been read.
    fn after_keys(self, stage: Stage, keys: DeviceKeys, now: Timestamp) -> (step: Option<
        (Flow, Action),
    >)
        requires
            self@.at(stage@).wf(),
            stage is DeviceKeys,
            now.valid(),
        ensures
            stepped(step, self@.at(stage@).resume(EventView::DeviceKeys(keys), now@)),
    {
        match stage {
            Stage::DeviceKeys { devices, index } => {
                let item = mc_group_setup_item(
                    &self.fuota_deployment,
                    &self.device_profile,
                    devices[index].dev_eui,
                    &keys,
                );
                self.send_item(devices, index, item, now)
            },
            _ => None,
        }
    }

    /// The step after the session start has been converted to GPS time.
    fn after_gps_time(self, stage: Stage, seconds: i64, now: Timestamp) -> (step: Option<
        (Flow, Action),
    >)
        requires
            self@.at(stage@).wf(),
            stage is GpsTime,
            now.valid(),
        ensures
            stepped(step, self@.at(stage@).resume(EventView::GpsTime(seconds as int), now@)),
    {
        match stage {
            Stage::GpsTime { devices, index } => {
                let item = mc_session_item(
                    &self.fuota_deployment,
                    &self.device_profile,
                    devices[index].dev_eui,
                    seconds,
                );
                self.send_item(devices, index, item, now)
            },
            _ => None,
        }
    }

    /// Runs a job at a given time, up to its first action.
    ///
    /// The time that is computed for the action has to be on the calendar.
    pub fn handle_job_at(
        job: FuotaDeploymentJob,
        fuota_deployment: FuotaDeployment,
        device_profile: DeviceProfile,
        scheduler_interval: Interval,
        now: Timestamp,
    ) -> (step: (Flow, Action))
        requires
            can_run(job@, fuota_deployment, scheduler_interval),
            now.valid(),
            unstarted(job, fuota_deployment, device_profile, scheduler_interval).dispatch(
                now@,
            ).1.on_calendar(),
        ensures
            ({
                let expected = unstarted(
                    job,
                    fuota_deployment,
                    device_profile,
                    scheduler_interval,
                ).dispatch(now@);
                &&& step.0@ == expected.0
                &&& step.1@ == expected.1
                &&& step.0@.wf()
            }),
            job.job is Enqueue && job.attempt_count <= job.max_retry_count ==> holds_image(
                fuota_deployment,
                image_fragments_of(fuota_deployment),
            ),
    {
        let flow = Flow {
            job,
            fuota_deployment,
            device_profile,
            scheduler_interval,
            stage: Stage::Idle,
        };
        match flow.dispatch(now) {
            Some(step) => step,
            None => unreached(),
        }
    }

    /// Runs a job now, up to its first action.
    ///
    /// The result is `None` if the time that is computed for the action is not on the calendar.
    pub fn handle_job(
        job: FuotaDeploymentJob,
        fuota_deployment: FuotaDeployment,
        device_profile: DeviceProfile,
        scheduler_interval: Interval,
    ) -> (step: Option<(Flow, Action)>)
        requires
            can_run(job@, fuota_deployment, scheduler_interval),
        ensures
            exists|now: Timestamp|
                is_clock_reading(now) && now.valid() && now.secs >= 0 && stepped(
                    step,
                    unstarted(job, fuota_deployment, device_profile, scheduler_interval).dispatch(
                        #[trigger] now@,
                    ),
                ),
            job.job is Enqueue && job.attempt_count <= job.max_retry_count ==> holds_image(
                fuota_deployment,
                image_fragments_of(fuota_deployment),
            ),
    {
        let flow = Flow {
            job,
            fuota_deployment,
            device_profile,
            scheduler_interval,
            stage: Stage::Idle,
        };
        flow.dispatch(read_clock())
    }

    /// Takes the step that follows the outcome of the last action, at a given time.
    ///
    /// The time that is computed for the next action has to be on the calendar.
    pub fn resume_at(self, event: Event, now: Timestamp) -> (step: (Flow, Action))
        requires
            self@.wf(),
            self@.expects(event@),
            now.valid(),
            self@.resume(event@, now@).1.on_calendar(),
        ensures
            step.0@ == self@.resume(event@, now@).0,
            step.1@ == self@.resume(event@, now@).1,
            step.0@.wf(),
    {
        match self.step(event, now) {
            Some(step) => step,
            None => unreached(),
        }
    }

    /// Takes the step that follows the outcome of the last action, now.
    ///
    /// The result is `None` if the time that is computed for the next action is not on the
    /// calendar.
    pub fn resume(self, event: Event) -> (step: Option<(Flow, Action)>)
        requires
            self@.wf(),
            self@.expects(event@),
        ensures
            exists|now: Timestamp|
                is_clock_reading(now) && now.valid() && now.secs >= 0 && stepped(
                    step,
                    self@.resume(event@, #[trigger] now@),
                ),
    {
        self.step(event, read_clock())
    }

    /// Whether `event` is an outcome of the action that the run waits for.
    pub fn expects(&self, event: &Event) -> (expected: bool)
        ensures
            expected == self@.expects(event@),
    {
        match (&self.stage, event) {
            (Stage::ListDevices, Event::Devices(_)) => true,
            (Stage::ListGateways, Event::Gateways(_)) => true,
            (Stage::DeviceKeys { .. }, Event::DeviceKeys(_)) => true,
            (Stage::GpsTime { .. }, Event::GpsTime(_)) => true,
            (Stage::GpsTime { .. }, _) => false,
            (Stage::Idle, _) => false,
            (_, Event::Failed(_)) => true,
            (Stage::ListDevices, _) => false,
            (Stage::ListGateways, _) => false,
            (Stage::DeviceKeys { .. }, _) => false,
            (_, Event::Done) => true,
            _ => false,
        }
    }
}

/// Checks that a job can run on a firmware update.
pub fn is_runnable(
    job: &FuotaDeploymentJob,
    fuota_deployment: &FuotaDeployment,
    scheduler_interval: &Interval,
) -> (runnable: bool)
    ensures
        runnable == can_run(job@, *fuota_deployment, *scheduler_interval),
{
    job.attempt_count < i16::MAX && job.scheduler_run_after.is_valid() && scheduler_interval.nanos
        < NANOS_PER_SECOND && (job.attempt_count > job.max_retry_count || match job.job {
        FuotaJob::FragSessionSetup => fuota_deployment.fragmentation_fragment_size != 0,
        FuotaJob::Enqueue => is_fragmentable(fuota_deployment),
        _ => true,
    })
}

}
