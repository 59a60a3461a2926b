//! Bose Noise Cancelling Headphones 700.
//!
//! CNC protocol: `function_block`=0x01 (Settings), `function`=0x05 (SettingsCnc)
//!   Set: payload `[wire_level, 0x01]`, wire level = 10 - user level
//!   Off: payload `[0x00, 0x00]`
//!   Status: payload `[num_steps, wire_level, enabled, ..]`
use vstd::prelude::*;

use crate::bmap::{self, request, Packet, PacketError};
use crate::device::types::{Capability, NcStatus};
use crate::device::{DeviceError, DeviceProfile};

verus! {

pub const PRODUCT_ID: u16 = 0x4024;

pub const FB: u8 = 0x01;

pub const FN: u8 = 0x05;

pub const MAX_LEVEL: u8 = 10;

pub struct Nc700;

/// `a - b`, or 0 where `b > a`.
pub open spec fn sat_sub(a: u8, b: u8) -> u8 {
    if b <= a {
        (a - b) as u8
    } else {
        0
    }
}

impl DeviceProfile for Nc700 {
    open spec fn name_of(&self) -> Seq<char> {
        "Bose NC 700"@
    }

    open spec fn max_level_of(&self) -> u8 {
        MAX_LEVEL
    }

    open spec fn capabilities_of(&self) -> Seq<Capability> {
        seq![Capability::NcGet, Capability::NcSet, Capability::NcOff]
    }

    open spec fn get_command(&self) -> Seq<u8> {
        request(FB, FN, bmap::OP_GET, seq![]).bytes()
    }

    open spec fn level_in_domain(&self, level: u8) -> bool {
        true
    }

    open spec fn set_command(&self, level: u8) -> Seq<u8> {
        request(FB, FN, bmap::OP_SET_GET, seq![sat_sub(MAX_LEVEL, level), 0x01]).bytes()
    }

    open spec fn off_command(&self) -> Option<Seq<u8>> {
        Some(request(FB, FN, bmap::OP_SET_GET, seq![0x00u8, 0x00]).bytes())
    }

    open spec fn payload_in_domain(&self, payload: Seq<u8>) -> bool {
        true
    }

    open spec fn status_of(&self, payload: Seq<u8>) -> Result<NcStatus, PacketError> {
        if payload.len() < 3 {
            Err(PacketError::TooShort(payload.len() as usize, 3))
        } else {
            Ok(
                NcStatus {
                    level: sat_sub(sat_sub(payload[0], 1), payload[1]),
                    max_level: sat_sub(payload[0], 1),
                    enabled: payload[2] != 0,
                },
            )
        }
    }

    open spec fn repeat_of(&self) -> i32 {
        2
    }

    fn product_name(&self) -> (r: &'static str) {
        "Bose NC 700"
    }

    fn max_nc_level(&self) -> (r: u8) {
        MAX_LEVEL
    }

    fn capabilities(&self) -> (r: &'static [Capability]) {
        let caps: &'static [Capability] = &[Capability::NcGet, Capability::NcSet, Capability::NcOff];
        assert(caps@ =~= seq![Capability::NcGet, Capability::NcSet, Capability::NcOff]);
        caps
    }

    fn build_nc_get(&self) -> (r: Vec<u8>) {
        Packet::new(FB, FN, bmap::OP_GET, Vec::new()).to_bytes()
    }

    fn build_nc_set(&self, level: u8) -> (r: Vec<u8>) {
        let wire_level = MAX_LEVEL.saturating_sub(level);
        let payload: Vec<u8> = vec![wire_level, 0x01];
        Packet::new(FB, FN, bmap::OP_SET_GET, payload).to_bytes()
    }

    fn build_nc_off(&self) -> (r: Option<Vec<u8>>) {
        let payload: Vec<u8> = vec![0x00, 0x00];
        Some(Packet::new(FB, FN, bmap::OP_SET_GET, payload).to_bytes())
    }

    fn parse_nc_status(&self, payload: &[u8]) -> (r: Result<NcStatus, DeviceError>) {
        if payload.len() < 3 {
            return Err(DeviceError::BmapParsing(PacketError::TooShort(payload.len(), 3)));
        }
        let num_steps = payload[0];
        let wire_level = payload[1];
        let enabled = payload[2] != 0;
        let max_level = num_steps.saturating_sub(1);
        let level = max_level.saturating_sub(wire_level);
        Ok(NcStatus { level, max_level, enabled })
    }

    fn nc_set_repeat_count(&self) -> (r: i32) {
        2
    }

    fn accepts_status_payload(&self, payload: &[u8]) -> (r: bool) {
        true
    }

    proof fn lemma_commands_are_frames(&self, level: u8) {
        bmap::lemma_serialize_parse(request(FB, FN, bmap::OP_GET, seq![]));
        bmap::lemma_serialize_parse(request(FB, FN, bmap::OP_SET_GET, seq![sat_sub(MAX_LEVEL, level), 0x01]));
        bmap::lemma_serialize_parse(request(FB, FN, bmap::OP_SET_GET, seq![0x00u8, 0x00]));
    }

    proof fn lemma_status_level_bounded(&self, payload: Seq<u8>) {
    }

    proof fn lemma_levels_in_domain(&self) {
    }
}

/// A status response that announces the model's step count and reports the
/// wire level written by a set command reads back as the level that was set.
pub proof fn lemma_set_then_status(level: u8, enabled: u8)
    requires
        level <= MAX_LEVEL,
    ensures
        bmap::spec_parse(Nc700.set_command(level)) matches Ok(p) && Nc700.status_of(
            seq![0x0Bu8, p.payload[0], enabled],
        ) == Ok::<NcStatus, PacketError>(
            NcStatus { level, max_level: MAX_LEVEL, enabled: enabled != 0 },
        ),
{
    bmap::lemma_serialize_parse(request(FB, FN, bmap::OP_SET_GET, seq![sat_sub(MAX_LEVEL, level), 0x01]));
}

/// The NC 700 set command of every level is a Settings/CNC set-get packet
/// whose payload is the wire level (10 minus the level, 0 above 10) followed
/// by 0x01, so noise control stays on at every level, full transparency (0)
/// included; it is never the off command, whose second byte is 0x00.
pub proof fn lemma_set_keeps_noise_control_on(level: u8)
    ensures
        bmap::spec_parse(Nc700.set_command(level)) matches Ok(p) && p.function_block == 0x01
            && p.function == 0x05 && p.operator == 0x02 && p.payload.len() == 2 && p.payload[0]
            == (if level <= 10 { 10 - level } else { 0 }) && p.payload[1] == 0x01,
        Nc700.off_command() is Some,
        Nc700.off_command() != Some(Nc700.set_command(level)),
{
    bmap::lemma_serialize_parse(request(FB, FN, bmap::OP_SET_GET, seq![sat_sub(MAX_LEVEL, level), 0x01]));
    let off = Nc700.off_command()->Some_0;
    let set = Nc700.set_command(level);
    assert(off[5] == 0x00u8);
    assert(set[5] == 0x01u8);
}

} // verus!
