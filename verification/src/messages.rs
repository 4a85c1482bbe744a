//! Application-layer messages, encoded and decoded by the `lrwn` crate.
//!
//! Every message has a type of its own here, with the fields of the message as plain values.  The
//! specification functions give the bytes of an encoded message, or the text of the error that the
//! `lrwn` crate reports for field values that have no encoding.

use lrwn::applayer::fragmentation::v1 as fragmentation;
use lrwn::applayer::multicastsetup::v1 as multicastsetup;
use lrwn::DevAddr;
use vstd::prelude::*;

verus! {

/// Asks a device to set up a fragmentation session.
#[derive(Clone, Copy, Debug)]
pub struct FragSessionSetupReq {
    pub mc_group_bit_mask: [bool; 4],
    pub frag_index: u8,
    pub nb_frag: u16,
    pub frag_size: u8,
    pub block_ack_delay: u8,
    pub fragmentation_matrix: u8,
    pub padding: u8,
    pub descriptor: [u8; 4],
}

/// A device's answer to a `FragSessionSetupReq`.
#[derive(Clone, Copy, Debug, PartialEq, Eq, Structural)]
pub struct FragSessionSetupAns {
    pub encoding_unsupported: bool,
    pub not_enough_memory: bool,
    pub frag_session_index_not_supported: bool,
    pub wrong_descriptor: bool,
    pub frag_index: u8,
}

/// A fragmentation message that a device sent.
#[derive(Clone, Copy, Debug, PartialEq, Eq, Structural)]
pub enum UplinkMessage {
    FragSessionSetupAns(FragSessionSetupAns),
    /// A version, status or delete answer, whose content is not kept.
    Other,
}

/// Asks a device to join a multicast group.  The address has its most significant byte first.
#[derive(Clone, Copy, Debug)]
pub struct McGroupSetupReq {
    pub mc_group_id: u8,
    pub mc_addr: [u8; 4],
    pub mc_key_encrypted: [u8; 16],
    pub min_mc_f_count: u32,
    pub max_mc_f_count: u32,
}

/// Tells a device when a Class-B multicast session starts.
#[derive(Clone, Copy, Debug, PartialEq, Eq, Structural)]
pub struct McClassBSessionReq {
    pub mc_group_id: u8,
    pub session_time: u32,
    pub time_out: u8,
    pub periodicity: u8,
    pub dl_frequ: u32,
    pub dr: u8,
}

/// Tells a device when a Class-C multicast session starts.
#[derive(Clone, Copy, Debug, PartialEq, Eq, Structural)]
pub struct McClassCSessionReq {
    pub mc_group_id: u8,
    pub session_time: u32,
    pub time_out: u8,
    pub dl_frequ: u32,
    pub dr: u8,
}

/// The `count` least significant bytes of `n`, least significant byte first.
pub open spec fn le_bytes(n: nat, count: nat) -> Seq<u8>
    decreases count,
{
    if count == 0 {
        Seq::empty()
    } else {
        seq![(n % 256) as u8] + le_bytes(n / 256, (count - 1) as nat)
    }
}

pub open spec fn bit(set: bool, value: int) -> int {
    if set {
        value
    } else {
        0
    }
}

/// The outcome of an encoding, with the bytes or the error text as a sequence.
pub open spec fn encoding(result: Result<Vec<u8>, String>) -> Result<Seq<u8>, Seq<char>> {
    match result {
        Ok(bytes) => Ok(bytes@),
        Err(text) => Err(text@),
    }
}

/// The outcome of a decoding, with the error text as a sequence.
pub open spec fn decoding(result: Result<UplinkMessage, String>) -> Result<
    UplinkMessage,
    Seq<char>,
> {
    match result {
        Ok(message) => Ok(message),
        Err(text) => Err(text@),
    }
}

impl FragSessionSetupReq {
    pub open spec fn encoded(self) -> Result<Seq<u8>, Seq<char>> {
        let mask = self.mc_group_bit_mask@;
        if self.frag_index > 3 {
            Err("Max frag_index value is 3"@)
        } else if self.block_ack_delay > 7 {
            Err("Max block_ack_delay value is 7"@)
        } else if self.fragmentation_matrix > 7 {
            Err("Max fragmentation_matrix value is 7"@)
        } else {
            Ok(
                seq![
                    0x02u8,
                    (16 * self.frag_index + bit(mask[0], 1) + bit(mask[1], 2) + bit(mask[2], 4)
                        + bit(mask[3], 8)) as u8,
                ] + le_bytes(self.nb_frag as nat, 2) + seq![
                    self.frag_size,
                    (8 * self.fragmentation_matrix + self.block_ack_delay) as u8,
                    self.padding,
                ] + self.descriptor@,
            )
        }
    }
}

impl McGroupSetupReq {
    pub open spec fn encoded(self) -> Result<Seq<u8>, Seq<char>> {
        if self.mc_group_id > 3 {
            Err("Max mc_group_id value is 3"@)
        } else {
            Ok(
                seq![0x02u8, self.mc_group_id] + self.mc_addr@.reverse() + self.mc_key_encrypted@
                    + le_bytes(self.min_mc_f_count as nat, 4) + le_bytes(
                    self.max_mc_f_count as nat,
                    4,
                ),
            )
        }
    }
}

/// A frequency in units of 100 Hz, or of 200 Hz from 2.4 GHz on, in three bytes.
pub open spec fn encoded_frequency(frequency: nat) -> Result<Seq<u8>, Seq<char>> {
    let halved = if frequency >= 2_400_000_000 {
        frequency / 2
    } else {
        frequency
    };
    if halved / 100 >= 0x100_0000 {
        Err("max freq value is 2^24 - 1"@)
    } else if halved % 100 != 0 {
        Err("freq must be multiple of 100"@)
    } else {
        Ok(le_bytes(halved / 100, 3))
    }
}

/// What the two session requests have in common: `cid`, group, start, a byte with the time-out,
/// the frequency and the data-rate.
pub open spec fn encoded_session(
    cid: u8,
    mc_group_id: u8,
    session_time: u32,
    time_out: u8,
    dl_frequ: u32,
    dr: u8,
) -> Result<Seq<u8>, Seq<char>> {
    match encoded_frequency(dl_frequ as nat) {
        Err(text) => Err(text),
        Ok(frequency) => Ok(
            seq![cid, mc_group_id] + le_bytes(session_time as nat, 4) + seq![time_out] + frequency
                + seq![dr],
        ),
    }
}

impl McClassBSessionReq {
    pub open spec fn encoded(self) -> Result<Seq<u8>, Seq<char>> {
        if self.mc_group_id > 3 {
            Err("Max mc_group_id value is 3"@)
        } else if self.time_out > 15 {
            Err("Max time_out value is 15"@)
        } else if self.periodicity > 7 {
            Err("Max periodicity value is 7"@)
        } else {
            encoded_session(
                0x05,
                self.mc_group_id,
                self.session_time,
                (16 * self.periodicity + self.time_out) as u8,
                self.dl_frequ,
                self.dr,
            )
        }
    }
}

impl McClassCSessionReq {
    pub open spec fn encoded(self) -> Result<Seq<u8>, Seq<char>> {
        if self.mc_group_id > 3 {
            Err("Max mc_group_id value is 3"@)
        } else if self.time_out > 15 {
            Err("Max time_out value is 15"@)
        } else {
            encoded_session(
                0x04,
                self.mc_group_id,
                self.session_time,
                self.time_out,
                self.dl_frequ,
                self.dr,
            )
        }
    }
}

/// A data fragment: its number `n`, with the session index in the two highest bits, and its data.
pub open spec fn encoded_data_fragment(frag_index: u8, n: u16, data: Seq<u8>) -> Result<
    Seq<u8>,
    Seq<char>,
> {
    if n > 16383 {
        Err("Max n value us 16383"@)
    } else if frag_index > 3 {
        Err("Max frag_index value is 3"@)
    } else {
        Ok(seq![0x08u8] + le_bytes((0x4000 * frag_index + n) as nat, 2) + data)
    }
}

/// The decimal digits of `n`.
pub open spec fn decimal(n: nat) -> Seq<char>
    decreases n,
{
    let digit = ('0' as u32 + n % 10) as char;
    if n < 10 {
        seq![digit]
    } else {
        decimal(n / 10).push(digit)
    }
}

/// The setup answer in the byte that follows the message identifier.
pub open spec fn setup_ans_of(byte: u8) -> FragSessionSetupAns {
    FragSessionSetupAns {
        encoding_unsupported: byte % 2 == 1,
        not_enough_memory: (byte / 2) % 2 == 1,
        frag_session_index_not_supported: (byte / 4) % 2 == 1,
        wrong_descriptor: (byte / 8) % 2 == 1,
        frag_index: byte / 64,
    }
}

/// The message that a device encoded in `data`, or the text of the error.
pub open spec fn decoded_uplink(data: Seq<u8>) -> Result<UplinkMessage, Seq<char>> {
    if data.len() == 0 {
        Err("At least one byte is expected"@)
    } else if data[0] == 0x00 {
        if data.len() == 3 {
            Ok(UplinkMessage::Other)
        } else {
            Err("Expected 2 bytes"@)
        }
    } else if data[0] == 0x01 {
        if data.len() == 5 {
            Ok(UplinkMessage::Other)
        } else {
            Err("Expected 4 bytes"@)
        }
    } else if data[0] == 0x02 {
        if data.len() == 2 {
            Ok(UplinkMessage::FragSessionSetupAns(setup_ans_of(data[1])))
        } else {
            Err("Expected 1 byte"@)
        }
    } else if data[0] == 0x03 {
        if data.len() == 2 {
            Ok(UplinkMessage::Other)
        } else {
            Err("Expected 1 byte"@)
        }
    } else {
        Err("Invalid CID: "@ + decimal(data[0] as nat))
    }
}

/// The fragments that `lrwn::applayer::fragmentation::v1::encode` makes of a payload.
pub uninterp spec fn coded_fragments(
    payload: Seq<u8>,
    fragment_size: nat,
    redundancy: nat,
) -> Seq<Seq<u8>>;

/// Calls `lrwn::applayer::fragmentation::v1::Payload::to_vec` on a session setup request.
///
/// The result is the identifier of the request and its fields, or the first field that is out of
/// range.
#[verifier::external_body]
pub(crate) fn encode_frag_session_setup_req(req: FragSessionSetupReq) -> (bytes: Result<
    Vec<u8>,
    String,
>)
    ensures
        encoding(bytes) == req.encoded(),
{
    let FragSessionSetupReq { mc_group_bit_mask, frag_index, nb_frag, frag_size, padding, .. } = req;
    let FragSessionSetupReq { block_ack_delay, fragmentation_matrix, descriptor, .. } = req;
    let frag_session =
        fragmentation::FragSessionSetuReqPayloadFragSession { mc_group_bit_mask, frag_index };
    let control =
        fragmentation::FragSessionSetuReqPayloadControl { block_ack_delay, fragmentation_matrix };
    let payload = fragmentation::FragSessionSetupReqPayload {
        frag_session, nb_frag, frag_size, control, padding, descriptor,
    };
    match fragmentation::Payload::FragSessionSetupReq(payload).to_vec() {
        Ok(bytes) => Ok(bytes),
        Err(e) => Err(e.to_string()),
    }
}

/// Calls `lrwn::applayer::fragmentation::v1::Payload::to_vec` on a data fragment.
///
/// The result is the identifier of a data fragment, its number and its data, or the first field
/// that is out of range.
#[verifier::external_body]
pub(crate) fn encode_data_fragment(frag_index: u8, n: u16, data: Vec<u8>) -> (bytes: Result<
    Vec<u8>,
    String,
>)
    ensures
        encoding(bytes) == encoded_data_fragment(frag_index, n, data@),
{
    let index_and_n = fragmentation::DataFragmentPayloadIndexAndN { n, frag_index };
    let payload = fragmentation::DataFragmentPayload { index_and_n, data };
    match fragmentation::Payload::DataFragment(payload).to_vec() {
        Ok(bytes) => Ok(bytes),
        Err(e) => Err(e.to_string()),
    }
}

/// Calls `lrwn::applayer::multicastsetup::v1::Payload::to_vec` on a group setup request.
///
/// The result is the identifier of the request and its fields, or the field that is out of range.
#[verifier::external_body]
pub(crate) fn encode_mc_group_setup_req(req: McGroupSetupReq) -> (bytes: Result<Vec<u8>, String>)
    ensures
        encoding(bytes) == req.encoded(),
{
    let payload = multicastsetup::McGroupSetupReqPayload {
        mc_group_id_header: multicastsetup::McGroupSetupReqPayloadMcGroupIdHeader {
            mc_group_id: req.mc_group_id,
        },
        mc_addr: DevAddr::from_be_bytes(req.mc_addr),
        mc_key_encrypted: req.mc_key_encrypted,
        min_mc_f_count: req.min_mc_f_count,
        max_mc_f_count: req.max_mc_f_count,
    };
    match multicastsetup::Payload::McGroupSetupReq(payload).to_vec() {
        Ok(bytes) => Ok(bytes),
        Err(e) => Err(e.to_string()),
    }
}

/// Calls `lrwn::applayer::multicastsetup::v1::Payload::to_vec` on a Class-B session request.
///
/// The result is the identifier of the request and its fields, or the first field that is out of
/// range.
#[verifier::external_body]
pub(crate) fn encode_mc_class_b_session_req(req: McClassBSessionReq) -> (bytes: Result<
    Vec<u8>,
    String,
>)
    ensures
        encoding(bytes) == req.encoded(),
{
    let McClassBSessionReq { mc_group_id, session_time, time_out, periodicity, dl_frequ, dr } = req;
    let mc_group_id_header =
        multicastsetup::McClassBSessionReqPayloadMcGroupIdHeader { mc_group_id };
    let time_out_periodicity =
        multicastsetup::McClassBSessionReqPayloadTimeOutPeriodicity { time_out, periodicity };
    let payload = multicastsetup::McClassBSessionReqPayload {
        mc_group_id_header, session_time, time_out_periodicity, dl_frequ, dr,
    };
    match multicastsetup::Payload::McClassBSessionReq(payload).to_vec() {
        Ok(bytes) => Ok(bytes),
        Err(e) => Err(e.to_string()),
    }
}

/// Calls `lrwn::applayer::multicastsetup::v1::Payload::to_vec` on a Class-C session request.
///
/// The result is the identifier of the request and its fields, or the first field that is out of
/// range.
#[verifier::external_body]
pub(crate) fn encode_mc_class_c_session_req(req: McClassCSessionReq) -> (bytes: Result<
    Vec<u8>,
    String,
>)
    ensures
        encoding(bytes) == req.encoded(),
{
    let McClassCSessionReq { mc_group_id, session_time, time_out, dl_frequ, dr } = req;
    let mc_group_id_header =
        multicastsetup::McClassCSessionReqPayloadMcGroupIdHeader { mc_group_id };
    let session_time_out = multicastsetup::McClassCSessionReqPayloadSessionTimeOut { time_out };
    let payload = multicastsetup::McClassCSessionReqPayload {
        mc_group_id_header, session_time, session_time_out, dl_frequ, dr,
    };
    match multicastsetup::Payload::McClassCSessionReq(payload).to_vec() {
        Ok(bytes) => Ok(bytes),
        Err(e) => Err(e.to_string()),
    }
}

/// Calls `lrwn::applayer::fragmentation::v1::Payload::from_slice` on the bytes of an uplink.
///
/// The first byte identifies the message and fixes its length.  The answer to a setup request is
/// kept, with a flag for each of the four lowest bits of its byte and the session index in the two
/// highest ones.
#[verifier::external_body]
pub(crate) fn decode_uplink(data: &[u8]) -> (message: Result<UplinkMessage, String>)
    ensures
        decoding(message) == decoded_uplink(data@),
{
    match fragmentation::Payload::from_slice(true, data) {
        Ok(fragmentation::Payload::FragSessionSetupAns(pl)) => Ok(
            UplinkMessage::FragSessionSetupAns(FragSessionSetupAns {
                encoding_unsupported: pl.encoding_unsupported,
                not_enough_memory: pl.not_enough_memory,
                frag_session_index_not_supported: pl.frag_session_index_not_supported,
                wrong_descriptor: pl.wrong_descriptor,
                frag_index: pl.frag_index,
            }),
        ),
        Ok(_) => Ok(UplinkMessage::Other),
        Err(e) => Err(e.to_string()),
    }
}

/// Calls `lrwn::applayer::fragmentation::v1::encode`.
///
/// A payload whose length is a multiple of the fragment size is cut into fragments of that size,
/// in order, and `redundancy` fragments of the same size follow.  All of them depend on the
/// arguments alone.  Any other payload is refused.
#[verifier::external_body]
pub(crate) fn encode_fragments(payload: &[u8], fragment_size: usize, redundancy: usize) -> (rows:
    Result<Vec<Vec<u8>>, String>)
    requires
        0 < fragment_size,
        fragment_size <= isize::MAX || redundancy == 0,
        1001 * redundancy + 1 <= usize::MAX,
    ensures
        rows is Ok <==> payload@.len() % (fragment_size as nat) == 0,
        rows matches Ok(v) ==> {
            &&& v.deep_view() == coded_fragments(
                payload@,
                fragment_size as nat,
                redundancy as nat,
            )
            &&& v@.len() == payload@.len() / (fragment_size as nat) + redundancy
            &&& forall|i: int| 0 <= i < v@.len() ==> (#[trigger] v@[i])@.len() == fragment_size
            &&& forall|i: int|
                0 <= i < payload@.len() / (fragment_size as nat) ==> (#[trigger] v@[i])@
                    == payload@.subrange(i * fragment_size, (i + 1) * fragment_size)
        },
        rows matches Err(text) ==> text@ == "Payload size must be a multiple of fragment_size"@,
{
    match fragmentation::encode(payload, fragment_size, redundancy) {
        Ok(rows) => Ok(rows),
        Err(e) => Err(e.to_string()),
    }
}

}
