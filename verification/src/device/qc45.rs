//! Bose QC45
//!
//! Mode-based NC: `function_block`=0x1f, `function`=0x03, `operator`=0x05
//!   Set: `[0x1f, 0x03, 0x05, 0x02, mode, 0x01]`
//!
//! Modes: Quiet=0x00 (max NC), Aware=0x01 (transparency)
//! User levels: 0=Off/Aware, 1=Quiet
use vstd::prelude::*;

use crate::bmap::{self, request, Packet, PacketError};
use crate::device::types::{Capability, NcStatus};
use crate::device::{DeviceError, DeviceProfile};

verus! {

pub const PRODUCT_ID: u16 = 0x4039;

pub const FB: u8 = 0x1f;

pub const FN: u8 = 0x03;

pub const OP_MODE_SET: u8 = 0x05;

pub const MAX_LEVEL: u8 = 1;

pub const MODE_QUIET: u8 = 0x00;

pub const MODE_AWARE: u8 = 0x01;

pub struct Qc45;

/// The mode that a set command selects: quiet for any level above 0.
pub open spec fn mode_of_level(level: u8) -> u8 {
    if level > 0 {
        MODE_QUIET
    } else {
        MODE_AWARE
    }
}

impl DeviceProfile for Qc45 {
    open spec fn name_of(&self) -> Seq<char> {
        "Bose QC45"@
    }

    open spec fn max_level_of(&self) -> u8 {
        MAX_LEVEL
    }

    open spec fn capabilities_of(&self) -> Seq<Capability> {
        seq![Capability::NcGet, Capability::NcSet]
    }

    open spec fn get_command(&self) -> Seq<u8> {
        request(FB, FN, bmap::OP_GET, seq![]).bytes()
    }

    open spec fn level_in_domain(&self, level: u8) -> bool {
        true
    }

    open spec fn set_command(&self, level: u8) -> Seq<u8> {
        request(FB, FN, OP_MODE_SET, seq![mode_of_level(level), 0x01]).bytes()
    }

    open spec fn off_command(&self) -> Option<Seq<u8>> {
        None
    }

    open spec fn payload_in_domain(&self, payload: Seq<u8>) -> bool {
        true
    }

    open spec fn status_of(&self, payload: Seq<u8>) -> Result<NcStatus, PacketError> {
        if payload.len() == 0 {
            Err(PacketError::EmptyPayload)
        } else if payload[0] == MODE_QUIET {
            Ok(NcStatus { level: 1, max_level: MAX_LEVEL, enabled: true })
        } else {
            Ok(NcStatus { level: 0, max_level: MAX_LEVEL, enabled: false })
        }
    }

    open spec fn repeat_of(&self) -> i32 {
        1
    }

    fn product_name(&self) -> (r: &'static str) {
        "Bose QC45"
    }

    fn max_nc_level(&self) -> (r: u8) {
        MAX_LEVEL
    }

    fn capabilities(&self) -> (r: &'static [Capability]) {
        let caps: &'static [Capability] = &[Capability::NcGet, Capability::NcSet];
        assert(caps@ =~= seq![Capability::NcGet, Capability::NcSet]);
        caps
    }

    fn build_nc_get(&self) -> (r: Vec<u8>) {
        Packet::new(FB, FN, bmap::OP_GET, Vec::new()).to_bytes()
    }

    fn build_nc_set(&self, level: u8) -> (r: Vec<u8>) {
        let mode = if level > 0 {
            MODE_QUIET
        } else {
            MODE_AWARE
        };
        let payload: Vec<u8> = vec![mode, 0x01];
        Packet::new(FB, FN, OP_MODE_SET, payload).to_bytes()
    }

    fn build_nc_off(&self) -> (r: Option<Vec<u8>>) {
        None
    }

    fn parse_nc_status(&self, payload: &[u8]) -> (r: Result<NcStatus, DeviceError>) {
        if payload.len() == 0 {
            return Err(DeviceError::BmapParsing(PacketError::EmptyPayload));
        }
        let mode = payload[0];
        let (level, enabled) = if mode == MODE_QUIET {
            (1u8, true)
        } else {
            (0u8, false)
        };
        Ok(NcStatus { level, max_level: MAX_LEVEL, enabled })
    }

    fn nc_set_repeat_count(&self) -> (r: i32) {
        1
    }

    fn accepts_status_payload(&self, payload: &[u8]) -> (r: bool) {
        true
    }

    proof fn lemma_commands_are_frames(&self, level: u8) {
        bmap::lemma_serialize_parse(request(FB, FN, bmap::OP_GET, seq![]));
        bmap::lemma_serialize_parse(request(FB, FN, OP_MODE_SET, seq![mode_of_level(level), 0x01]));
    }

    proof fn lemma_status_level_bounded(&self, payload: Seq<u8>) {
    }

    proof fn lemma_levels_in_domain(&self) {
    }
}

/// A status response that reports the mode written by a set command reads
/// back as that level (levels above the maximum read back as the maximum),
/// enabled exactly when the level is not 0.
pub proof fn lemma_set_then_status(level: u8)
    ensures
        bmap::spec_parse(Qc45.set_command(level)) matches Ok(p) && Qc45.status_of(
            seq![p.payload[0]],
        ) == Ok::<NcStatus, PacketError>(
            NcStatus {
                level: if level > 0 { 1 } else { 0 },
                max_level: MAX_LEVEL,
                enabled: level > 0,
            },
        ),
{
    bmap::lemma_serialize_parse(request(FB, FN, OP_MODE_SET, seq![mode_of_level(level), 0x01]));
}

} // verus!
