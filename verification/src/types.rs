//! The records that a firmware update works on.

use crate::clock::{Instant, Timestamp};
use vstd::prelude::*;

verus! {

/// Declares `lrwn::region::CommonName`, the region of a device.  Regions are passed on unchanged.
#[verifier::external_type_specification]
#[verifier::external_body]
pub struct ExCommonName(lrwn::region::CommonName);

/// The jobs of a firmware update, in the order in which they run.
#[derive(Clone, Copy, Debug, PartialEq, Eq, Structural)]
pub enum FuotaJob {
    CreateMcGroup,
    AddDevsToMcGroup,
    AddGwsToMcGroup,
    McGroupSetup,
    FragSessionSetup,
    McSession,
    Enqueue,
    FragStatus,
}

/// A scheduled job of a firmware update.
#[derive(Debug, PartialEq, Eq)]
pub struct FuotaDeploymentJob {
    pub fuota_deployment_id: String,
    pub job: FuotaJob,
    pub completed_at: Option<Timestamp>,
    pub max_retry_count: i16,
    pub attempt_count: i16,
    pub scheduler_run_after: Timestamp,
    pub return_msg: String,
}

#[verifier::ext_equal]
pub struct JobView {
    pub fuota_deployment_id: Seq<char>,
    pub job: FuotaJob,
    pub completed_at: Option<Instant>,
    pub max_retry_count: int,
    pub attempt_count: int,
    pub scheduler_run_after: Instant,
    pub return_msg: Seq<char>,
}

impl View for FuotaDeploymentJob {
    type V = JobView;

    open spec fn view(&self) -> JobView {
        JobView {
            fuota_deployment_id: self.fuota_deployment_id@,
            job: self.job,
            completed_at: match self.completed_at {
                Some(time) => Some(time@),
                None => None,
            },
            max_retry_count: self.max_retry_count as int,
            attempt_count: self.attempt_count as int,
            scheduler_run_after: self.scheduler_run_after@,
            return_msg: self.return_msg@,
        }
    }
}

impl Clone for FuotaDeploymentJob {
    fn clone(&self) -> (copy: Self)
        ensures
            copy == *self,
    {
        FuotaDeploymentJob {
            fuota_deployment_id: self.fuota_deployment_id.clone(),
            job: self.job,
            completed_at: self.completed_at,
            max_retry_count: self.max_retry_count,
            attempt_count: self.attempt_count,
            scheduler_run_after: self.scheduler_run_after,
            return_msg: self.return_msg.clone(),
        }
    }
}

/// When the downlinks of a Class-C multicast group are sent.
#[derive(Clone, Copy, Debug, PartialEq, Eq, Structural)]
pub enum MulticastGroupSchedulingType {
    Delay,
    GpsTime,
}

/// A firmware update: the image, and how it is sent.
///
/// The multicast address has its most significant byte first.
#[derive(Debug, PartialEq, Eq)]
pub struct FuotaDeployment {
    pub id: String,
    pub application_id: String,
    pub multicast_addr: [u8; 4],
    pub multicast_key: [u8; 16],
    pub multicast_group_type: String,
    pub multicast_class_c_scheduling_type: MulticastGroupSchedulingType,
    pub multicast_dr: i16,
    pub multicast_class_b_ping_slot_nb_k: i16,
    pub multicast_frequency: i64,
    pub multicast_timeout: i16,
    pub unicast_max_retry_count: i16,
    pub fragmentation_fragment_size: i16,
    pub fragmentation_redundancy_percentage: i16,
    pub payload: Vec<u8>,
}

/// The LoRaWAN version of a device.
#[allow(non_camel_case_types)]
#[derive(Clone, Copy, Debug, PartialEq, Eq, Structural)]
pub enum MacVersion {
    Latest,
    LORAWAN_1_0_0,
    LORAWAN_1_0_1,
    LORAWAN_1_0_2,
    LORAWAN_1_0_3,
    LORAWAN_1_0_4,
    LORAWAN_1_1_0,
}

/// What the devices of a firmware update have in common.  The uplink interval is in seconds.
#[derive(Clone, Copy, Debug, PartialEq, Eq)]
pub struct DeviceProfile {
    pub region: lrwn::region::CommonName,
    pub mac_version: MacVersion,
    pub uplink_interval: i32,
    pub ts004_f_port: u8,
    pub ts005_f_port: u8,
}

/// A device of a firmware update, and the steps that it has completed.
#[derive(Debug, PartialEq, Eq)]
pub struct FuotaDeploymentDevice {
    pub fuota_deployment_id: String,
    pub dev_eui: [u8; 8],
    pub mc_group_setup_completed_at: Option<Timestamp>,
    pub frag_session_setup_completed_at: Option<Timestamp>,
    pub mc_session_completed_at: Option<Timestamp>,
    pub return_msg: String,
}

/// A gateway of a firmware update.
#[derive(Debug, PartialEq, Eq)]
pub struct FuotaDeploymentGateway {
    pub fuota_deployment_id: String,
    pub gateway_id: [u8; 8],
}

/// The root keys of a device.
#[derive(Clone, Copy, Debug, PartialEq, Eq)]
pub struct DeviceKeys {
    pub app_key: [u8; 16],
    pub gen_app_key: [u8; 16],
}

/// A multicast group to create.
#[derive(Debug, PartialEq, Eq)]
pub struct MulticastGroup {
    pub id: String,
    pub application_id: String,
    pub name: String,
    pub region: lrwn::region::CommonName,
    pub mc_addr: [u8; 4],
    pub mc_nwk_s_key: [u8; 16],
    pub mc_app_s_key: [u8; 16],
    pub f_cnt: i64,
    pub group_type: String,
    pub frequency: i64,
    pub dr: i16,
    pub class_b_ping_slot_nb_k: i16,
    pub class_c_scheduling_type: MulticastGroupSchedulingType,
}

#[verifier::ext_equal]
pub struct MulticastGroupView {
    pub id: Seq<char>,
    pub application_id: Seq<char>,
    pub name: Seq<char>,
    pub region: lrwn::region::CommonName,
    pub mc_addr: Seq<u8>,
    pub mc_nwk_s_key: Seq<u8>,
    pub mc_app_s_key: Seq<u8>,
    pub f_cnt: int,
    pub group_type: Seq<char>,
    pub frequency: int,
    pub dr: int,
    pub class_b_ping_slot_nb_k: int,
    pub class_c_scheduling_type: MulticastGroupSchedulingType,
}

impl View for MulticastGroup {
    type V = MulticastGroupView;

    open spec fn view(&self) -> MulticastGroupView {
        MulticastGroupView {
            id: self.id@,
            application_id: self.application_id@,
            name: self.name@,
            region: self.region,
            mc_addr: self.mc_addr@,
            mc_nwk_s_key: self.mc_nwk_s_key@,
            mc_app_s_key: self.mc_app_s_key@,
            f_cnt: self.f_cnt as int,
            group_type: self.group_type@,
            frequency: self.frequency as int,
            dr: self.dr as int,
            class_b_ping_slot_nb_k: self.class_b_ping_slot_nb_k as int,
            class_c_scheduling_type: self.class_c_scheduling_type,
        }
    }
}

/// A downlink for one device.
#[derive(Debug, PartialEq, Eq)]
pub struct DeviceQueueItem {
    pub dev_eui: [u8; 8],
    pub f_port: i16,
    pub data: Vec<u8>,
}

#[verifier::ext_equal]
pub struct DeviceQueueItemView {
    pub dev_eui: Seq<u8>,
    pub f_port: int,
    pub data: Seq<u8>,
}

impl View for DeviceQueueItem {
    type V = DeviceQueueItemView;

    open spec fn view(&self) -> DeviceQueueItemView {
        DeviceQueueItemView {
            dev_eui: self.dev_eui@,
            f_port: self.f_port as int,
            data: self.data@,
        }
    }
}

/// A downlink for a multicast group.
#[derive(Debug, PartialEq, Eq)]
pub struct MulticastGroupQueueItem {
    pub multicast_group_id: String,
    pub f_port: i16,
    pub data: Vec<u8>,
}

#[verifier::ext_equal]
pub struct MulticastGroupQueueItemView {
    pub multicast_group_id: Seq<char>,
    pub f_port: int,
    pub data: Seq<u8>,
}

impl View for MulticastGroupQueueItem {
    type V = MulticastGroupQueueItemView;

    open spec fn view(&self) -> MulticastGroupQueueItemView {
        MulticastGroupQueueItemView {
            multicast_group_id: self.multicast_group_id@,
            f_port: self.f_port as int,
            data: self.data@,
        }
    }
}

/// Why a job or an uplink failed.
#[derive(Debug, PartialEq, Eq)]
pub enum Error {
    /// The device profile names no version of the fragmentation package.
    Ts004NotSupported,
    /// The multicast group is neither of Class-B nor of Class-C.
    UnsupportedGroupType(String),
    /// A message could not be encoded or decoded.
    Message(String),
    /// Storage, or a queue, reported an error.
    Backend(String),
}

#[verifier::ext_equal]
pub enum ErrorView {
    Ts004NotSupported,
    UnsupportedGroupType(Seq<char>),
    Message(Seq<char>),
    Backend(Seq<char>),
}

impl View for Error {
    type V = ErrorView;

    open spec fn view(&self) -> ErrorView {
        match self {
            Error::Ts004NotSupported => ErrorView::Ts004NotSupported,
            Error::UnsupportedGroupType(group_type) => ErrorView::UnsupportedGroupType(
                group_type@,
            ),
            Error::Message(text) => ErrorView::Message(text@),
            Error::Backend(text) => ErrorView::Backend(text@),
        }
    }
}

impl ErrorView {
    /// The error in words.
    pub open spec fn text(self) -> Seq<char> {
        match self {
            ErrorView::Ts004NotSupported => "Device does not support TS004"@,
            ErrorView::UnsupportedGroupType(group_type) => "Unsupported group-type: "@ + group_type,
            ErrorView::Message(text) => text,
            ErrorView::Backend(text) => text,
        }
    }
}

impl Error {
    /// The error in words.
    pub fn text(&self) -> (text: String)
        ensures
            text@ == self@.text(),
    {
        match self {
            Error::Ts004NotSupported => "Device does not support TS004".to_owned(),
            Error::UnsupportedGroupType(group_type) => {
                "Unsupported group-type: ".to_owned().concat(group_type.as_str())
            },
            Error::Message(text) => text.clone(),
            Error::Backend(text) => text.clone(),
        }
    }
}

}
