//! Bose QC35 / QC35 II
//!
//! NC protocol: `function_block`=0x01, `function`=0x06
//!   Set: `[0x01, 0x06, 0x02, 0x01, wire_level]`
//!   Response: `[0x01, 0x06, 0x03, 0x02, wire_level, 0x0b]`
//!
//! Wire values: Off=0x00, High=0x01, Medium=0x02, Low=0x03
//! User levels: 0=Off, 1=Low, 2=Medium, 3=High
use vstd::prelude::*;

use crate::bmap::{self, request, Packet, PacketError};
use crate::device::types::{Capability, NcStatus};
use crate::device::{DeviceError, DeviceProfile};

verus! {

pub const PRODUCT_ID: u16 = 0x400C;

pub const FB: u8 = 0x01;

pub const FN: u8 = 0x06;

pub const MAX_LEVEL: u8 = 3;

pub struct Qc35;

/// The wire value of a user level: 0 stays 0 (off), level `l` is `4 - l`.
pub open spec fn spec_user_to_wire(level: u8) -> u8 {
    if level == 0 {
        0
    } else {
        (MAX_LEVEL + 1 - level) as u8
    }
}

/// The user level of a wire value: 0 stays 0 (off), wire `w` is `4 - w`.
pub open spec fn spec_wire_to_user(wire: u8) -> u8 {
    if wire == 0 {
        0
    } else {
        (MAX_LEVEL + 1 - wire) as u8
    }
}

pub fn user_to_wire(level: u8) -> (w: u8)
    requires
        level <= MAX_LEVEL + 1,
    ensures
        w == spec_user_to_wire(level),
{
    match level {
        0 => 0x00,
        l => (MAX_LEVEL + 1) - l,
    }
}

pub fn wire_to_user(wire: u8) -> (l: u8)
    requires
        wire <= MAX_LEVEL + 1,
    ensures
        l == spec_wire_to_user(wire),
{
    match wire {
        0x00 => 0,
        w => (MAX_LEVEL + 1) - w,
    }
}

impl DeviceProfile for Qc35 {
    open spec fn name_of(&self) -> Seq<char> {
        "Bose QC35"@
    }

    open spec fn max_level_of(&self) -> u8 {
        MAX_LEVEL
    }

    open spec fn capabilities_of(&self) -> Seq<Capability> {
        seq![Capability::NcGet, Capability::NcSet]
    }

    open spec fn get_command(&self) -> Seq<u8> {
        request(FB, FN, bmap::OP_GET, seq![]).bytes()
    }

    open spec fn level_in_domain(&self, level: u8) -> bool {
        level <= MAX_LEVEL + 1
    }

    open spec fn set_command(&self, level: u8) -> Seq<u8> {
        request(FB, FN, bmap::OP_SET_GET, seq![spec_user_to_wire(level)]).bytes()
    }

    open spec fn off_command(&self) -> Option<Seq<u8>> {
        None
    }

    open spec fn payload_in_domain(&self, payload: Seq<u8>) -> bool {
        payload.len() >= 2 ==> payload[0] <= MAX_LEVEL + 1
    }

    open spec fn status_of(&self, payload: Seq<u8>) -> Result<NcStatus, PacketError> {
        if payload.len() < 2 {
            Err(PacketError::TooShort(payload.len() as usize, 2))
        } else {
            Ok(
                NcStatus {
                    level: spec_wire_to_user(payload[0]),
                    max_level: MAX_LEVEL,
                    enabled: payload[0] != 0,
                },
            )
        }
    }

    open spec fn repeat_of(&self) -> i32 {
        1
    }

    fn product_name(&self) -> (r: &'static str) {
        "Bose QC35"
    }

    fn max_nc_level(&self) -> (r: u8) {
        MAX_LEVEL
    }

    fn capabilities(&self) -> (r: &'static [Capability]) {
        let caps: &'static [Capability] = &[Capability::NcGet, Capability::NcSet];
        assert(caps@ =~= seq![Capability::NcGet, Capability::NcSet]);
        caps
    }

    fn build_nc_get(&self) -> (r: Vec<u8>) {
        Packet::new(FB, FN, bmap::OP_GET, Vec::new()).to_bytes()
    }

    fn build_nc_set(&self, level: u8) -> (r: Vec<u8>) {
        let payload: Vec<u8> = vec![user_to_wire(level)];
        Packet::new(FB, FN, bmap::OP_SET_GET, payload).to_bytes()
    }

    fn build_nc_off(&self) -> (r: Option<Vec<u8>>) {
        None
    }

    fn parse_nc_status(&self, payload: &[u8]) -> (r: Result<NcStatus, DeviceError>) {
        if payload.len() < 2 {
            return Err(DeviceError::BmapParsing(PacketError::TooShort(payload.len(), 2)));
        }
        let wire = payload[0];
        let level = wire_to_user(wire);
        let enabled = wire != 0;
        Ok(NcStatus { level, max_level: MAX_LEVEL, enabled })
    }

    fn nc_set_repeat_count(&self) -> (r: i32) {
        1
    }

    fn accepts_status_payload(&self, payload: &[u8]) -> (r: bool) {
        payload.len() < 2 || payload[0] <= MAX_LEVEL + 1
    }

    proof fn lemma_commands_are_frames(&self, level: u8) {
        bmap::lemma_serialize_parse(request(FB, FN, bmap::OP_GET, seq![]));
        bmap::lemma_serialize_parse(request(FB, FN, bmap::OP_SET_GET, seq![spec_user_to_wire(level)]));
    }

    proof fn lemma_status_level_bounded(&self, payload: Seq<u8>) {
    }

    proof fn lemma_levels_in_domain(&self) {
    }
}

/// Converting a user level to its wire value and back gives the level again,
/// for every level from 0 to the maximum.
pub proof fn lemma_wire_roundtrip(level: u8)
    requires
        level <= MAX_LEVEL,
    ensures
        spec_wire_to_user(spec_user_to_wire(level)) == level,
{
}

/// Converting a wire value to its user level and back gives the wire value
/// again, for every wire value that the device uses (0 to 3).
pub proof fn lemma_user_roundtrip(wire: u8)
    requires
        wire <= MAX_LEVEL,
    ensures
        spec_user_to_wire(spec_wire_to_user(wire)) == wire,
{
}

/// A status response that reports the wire value written by a set command
/// reads back as the level that was set, enabled exactly when that level is
/// not 0.
pub proof fn lemma_set_then_status(level: u8, trailer: u8)
    requires
        level <= MAX_LEVEL,
    ensures
        bmap::spec_parse(Qc35.set_command(level)) matches Ok(p) && Qc35.status_of(
            seq![p.payload[0], trailer],
        ) == Ok::<NcStatus, PacketError>(
            NcStatus { level, max_level: MAX_LEVEL, enabled: level != 0 },
        ),
{
    bmap::lemma_serialize_parse(request(FB, FN, bmap::OP_SET_GET, seq![spec_user_to_wire(level)]));
}

} // verus!
