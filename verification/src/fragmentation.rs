//! Answers of devices to the fragmentation package (TS004).

use crate::clock::{is_clock_reading, read_clock, Timestamp};
use crate::messages::{decode_uplink, decoded_uplink, FragSessionSetupAns, UplinkMessage};
use crate::types::{Error, ErrorView, FuotaDeploymentDevice};
use vstd::prelude::*;

verus! {

/// The versions of the fragmentation package.
#[derive(Clone, Copy, Debug, PartialEq, Eq, Structural)]
pub enum Ts004Version {
    V100,
}

/// What an uplink asks for: a setup answer to record, nothing, or an error.
pub open spec fn uplink_outcome(ts004_version: Option<Ts004Version>, data: Seq<u8>) -> Result<
    Option<FragSessionSetupAns>,
    ErrorView,
> {
    match ts004_version {
        None => Err(ErrorView::Ts004NotSupported),
        Some(Ts004Version::V100) => match decoded_uplink(data) {
            Ok(UplinkMessage::FragSessionSetupAns(ans)) => Ok(Some(ans)),
            Ok(UplinkMessage::Other) => Ok(None),
            Err(text) => Err(ErrorView::Message(text)),
        },
    }
}

/// The outcome of handling an uplink, with the error as its view.
pub open spec fn handled(result: Result<Option<FragSessionSetupAns>, Error>) -> Result<
    Option<FragSessionSetupAns>,
    ErrorView,
> {
    match result {
        Ok(ans) => Ok(ans),
        Err(error) => Err(error@),
    }
}

impl FragSessionSetupAns {
    /// Whether the device has refused the session.
    pub open spec fn is_refusal(self) -> bool {
        self.encoding_unsupported || self.not_enough_memory
            || self.frag_session_index_not_supported || self.wrong_descriptor
    }

    /// Checks whether the device has refused the session.
    pub fn is_refused(&self) -> (refused: bool)
        ensures
            refused == self.is_refusal(),
    {
        self.encoding_unsupported || self.not_enough_memory
            || self.frag_session_index_not_supported || self.wrong_descriptor
    }
}

pub open spec fn flag_text(flag: bool) -> Seq<char> {
    if flag {
        "true"@
    } else {
        "false"@
    }
}

/// The message that records a refused session.
pub open spec fn refusal_text(ans: FragSessionSetupAns) -> Seq<char> {
    "Error: FragSessionAns response encoding_unsupported="@ + flag_text(ans.encoding_unsupported)
        + ", not_enough_memory="@ + flag_text(ans.not_enough_memory)
        + ", frag_session_index_not_supported="@ + flag_text(ans.frag_session_index_not_supported)
        + ", wrong_descriptor="@ + flag_text(ans.wrong_descriptor)
}

/// Whether `after` is `before` with a setup answer recorded at `now`: a refusal leaves a message,
/// an acceptance the time at which the session was set up, and nothing else changes.
pub open spec fn records_answer(
    before: FuotaDeploymentDevice,
    after: FuotaDeploymentDevice,
    ans: FragSessionSetupAns,
    now: Timestamp,
) -> bool {
    if ans.is_refusal() {
        &&& after == (FuotaDeploymentDevice { return_msg: after.return_msg, ..before })
        &&& after.return_msg@ == refusal_text(ans)
    } else {
        after == (FuotaDeploymentDevice { frag_session_setup_completed_at: Some(now), ..before })
    }
}

/// Handles an uplink on the port of the fragmentation package.
///
/// The result is the setup answer that has to be recorded for the device, if the uplink is one.
pub fn handle_uplink(ts004_version: Option<Ts004Version>, data: &[u8]) -> (result: Result<
    Option<FragSessionSetupAns>,
    Error,
>)
    ensures
        handled(result) == uplink_outcome(ts004_version, data@),
{
    match ts004_version {
        None => Err(Error::Ts004NotSupported),
        Some(version) => match version {
            Ts004Version::V100 => handle_uplink_v100(data),
        },
    }
}

fn handle_uplink_v100(data: &[u8]) -> (result: Result<Option<FragSessionSetupAns>, Error>)
    ensures
        handled(result) == uplink_outcome(Some(Ts004Version::V100), data@),
{
    match decode_uplink(data) {
        Ok(UplinkMessage::FragSessionSetupAns(ans)) => Ok(Some(ans)),
        Ok(UplinkMessage::Other) => Ok(None),
        Err(text) => Err(Error::Message(text)),
    }
}

fn flag_str(flag: bool) -> (text: &'static str)
    ensures
        text@ == flag_text(flag),
{
    if flag {
        "true"
    } else {
        "false"
    }
}

/// Records a setup answer that arrived at a given time.
pub fn handle_v1_frag_session_setup_ans_at(
    fuota_dev: &mut FuotaDeploymentDevice,
    ans: &FragSessionSetupAns,
    now: Timestamp,
)
    ensures
        records_answer(*old(fuota_dev), *final(fuota_dev), *ans, now),
{
    if ans.is_refused() {
        let mut text = "Error: FragSessionAns response encoding_unsupported=".to_owned();
        text.append(flag_str(ans.encoding_unsupported));
        text.append(", not_enough_memory=");
        text.append(flag_str(ans.not_enough_memory));
        text.append(", frag_session_index_not_supported=");
        text.append(flag_str(ans.frag_session_index_not_supported));
        text.append(", wrong_descriptor=");
        text.append(flag_str(ans.wrong_descriptor));
        fuota_dev.return_msg = text;
    } else {
        fuota_dev.frag_session_setup_completed_at = Some(now);
    }
}

/// Records a setup answer that has just arrived.
pub fn handle_v1_frag_session_setup_ans(
    fuota_dev: &mut FuotaDeploymentDevice,
    ans: &FragSessionSetupAns,
)
    ensures
        exists|now: Timestamp|
            is_clock_reading(now) && now.valid() && now.secs >= 0 && #[trigger] records_answer(
                *old(fuota_dev),
                *final(fuota_dev),
                *ans,
                now,
            ),
{
    handle_v1_frag_session_setup_ans_at(fuota_dev, ans, read_clock());
}

}
