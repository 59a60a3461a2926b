//! Bose QC Earbuds
//!
//! Mode-based NC: `function_block`=0x1f, `function`=0x03, `operator`=0x05
//!   Set: `[0x1f, 0x03, 0x05, 0x02, mode, 0x01]`
//!
//! Modes:
//!   0x00 = Quiet  (max NC)
//!   0x01 = Aware  (transparency)
//!   0x02 = User-1 (medium NC)
//!   0x03 = User-2 (NC off)
//!
//! User levels: 0=Aware, 1=Medium(User-1), 2=Quiet(max)
//! Off command → User-2 (hardware off, distinct from Aware/transparency)
use vstd::prelude::*;

use crate::bmap::{self, request, Packet, PacketError};
use crate::device::types::{Capability, NcStatus};
use crate::device::{DeviceError, DeviceProfile};

verus! {

pub const PRODUCT_ID: u16 = 0x402F;

pub const FB: u8 = 0x1f;

pub const FN: u8 = 0x03;

pub const OP_MODE_SET: u8 = 0x05;

pub const MAX_LEVEL: u8 = 2;

pub const MODE_QUIET: u8 = 0x00;

pub const MODE_AWARE: u8 = 0x01;

pub const MODE_USER1: u8 = 0x02;

pub const MODE_USER2: u8 = 0x03;

pub struct QcEarbuds;

/// The mode that selects a user level; levels above 2 select quiet.
pub open spec fn spec_level_to_mode(level: u8) -> u8 {
    if level == 0 {
        MODE_AWARE
    } else if level == 1 {
        MODE_USER1
    } else {
        MODE_QUIET
    }
}

/// The user level of a mode, and whether noise control is on; User-2 and
/// unknown modes read as off.
pub open spec fn spec_mode_to_level(mode: u8) -> (u8, bool) {
    if mode == MODE_QUIET {
        (2, true)
    } else if mode == MODE_USER1 {
        (1, true)
    } else if mode == MODE_AWARE {
        (0, true)
    } else {
        (0, false)
    }
}

pub fn level_to_mode(level: u8) -> (m: u8)
    ensures
        m == spec_level_to_mode(level),
{
    match level {
        0 => MODE_AWARE,
        1 => MODE_USER1,
        _ => MODE_QUIET,
    }
}

pub fn mode_to_level(mode: u8) -> (r: (u8, bool))
    ensures
        r == spec_mode_to_level(mode),
{
    if mode == MODE_QUIET {
        (2, true)
    } else if mode == MODE_USER1 {
        (1, true)
    } else if mode == MODE_AWARE {
        (0, true)
    } else {
        (0, false)
    }
}

impl DeviceProfile for QcEarbuds {
    open spec fn name_of(&self) -> Seq<char> {
        "Bose QC Earbuds"@
    }

    open spec fn max_level_of(&self) -> u8 {
        MAX_LEVEL
    }

    open spec fn capabilities_of(&self) -> Seq<Capability> {
        seq![Capability::NcGet, Capability::NcSet, Capability::NcOff]
    }

    open spec fn get_command(&self) -> Seq<u8> {
        request(FB, FN, bmap::OP_GET, seq![]).bytes()
    }

    open spec fn level_in_domain(&self, level: u8) -> bool {
        true
    }

    open spec fn set_command(&self, level: u8) -> Seq<u8> {
        request(FB, FN, OP_MODE_SET, seq![spec_level_to_mode(level), 0x01]).bytes()
    }

    open spec fn off_command(&self) -> Option<Seq<u8>> {
        Some(request(FB, FN, OP_MODE_SET, seq![MODE_USER2, 0x01]).bytes())
    }

    open spec fn payload_in_domain(&self, payload: Seq<u8>) -> bool {
        true
    }

    open spec fn status_of(&self, payload: Seq<u8>) -> Result<NcStatus, PacketError> {
        if payload.len() == 0 {
            Err(PacketError::EmptyPayload)
        } else {
            Ok(
                NcStatus {
                    level: spec_mode_to_level(payload[0]).0,
                    max_level: MAX_LEVEL,
                    enabled: spec_mode_to_level(payload[0]).1,
                },
            )
        }
    }

    open spec fn repeat_of(&self) -> i32 {
        1
    }

    fn product_name(&self) -> (r: &'static str) {
        "Bose QC Earbuds"
    }

    fn max_nc_level(&self) -> (r: u8) {
        MAX_LEVEL
    }

    fn capabilities(&self) -> (r: &'static [Capability]) {
        let caps: &'static [Capability] = &[Capability::NcGet, Capability::NcSet, Capability::NcOff];
        assert(caps@ =~= seq![Capability::NcGet, Capability::NcSet, Capability::NcOff]);
        caps
    }

    fn build_nc_get(&self) -> (r: Vec<u8>) {
        Packet::new(FB, FN, bmap::OP_GET, Vec::new()).to_bytes()
    }

    fn build_nc_set(&self, level: u8) -> (r: Vec<u8>) {
        let payload: Vec<u8> = vec![level_to_mode(level), 0x01];
        Packet::new(FB, FN, OP_MODE_SET, payload).to_bytes()
    }

    fn build_nc_off(&self) -> (r: Option<Vec<u8>>) {
        let payload: Vec<u8> = vec![MODE_USER2, 0x01];
        Some(Packet::new(FB, FN, OP_MODE_SET, payload).to_bytes())
    }

    fn parse_nc_status(&self, payload: &[u8]) -> (r: Result<NcStatus, DeviceError>) {
        if payload.len() == 0 {
            return Err(DeviceError::BmapParsing(PacketError::EmptyPayload));
        }
        let (level, enabled) = mode_to_level(payload[0]);
        Ok(NcStatus { level, max_level: MAX_LEVEL, enabled })
    }

    fn nc_set_repeat_count(&self) -> (r: i32) {
        1
    }

    fn accepts_status_payload(&self, payload: &[u8]) -> (r: bool) {
        true
    }

    proof fn lemma_commands_are_frames(&self, level: u8) {
        bmap::lemma_serialize_parse(request(FB, FN, bmap::OP_GET, seq![]));
        bmap::lemma_serialize_parse(request(FB, FN, OP_MODE_SET, seq![spec_level_to_mode(level), 0x01]));
        bmap::lemma_serialize_parse(request(FB, FN, OP_MODE_SET, seq![MODE_USER2, 0x01]));
    }

    proof fn lemma_status_level_bounded(&self, payload: Seq<u8>) {
    }

    proof fn lemma_levels_in_domain(&self) {
    }
}

/// Every level from 0 to the maximum selects a mode that reads back as the
/// same level with noise control on.
pub proof fn lemma_mode_roundtrip(level: u8)
    requires
        level <= MAX_LEVEL,
    ensures
        spec_mode_to_level(spec_level_to_mode(level)) == (level, true),
{
}

/// The off command (User-2) differs from the set command of every level, so
/// "off" is never confused with transparency.
pub proof fn lemma_off_differs_from_every_set(level: u8)
    ensures
        QcEarbuds.off_command() != Some(QcEarbuds.set_command(level)),
{
    let off = QcEarbuds.off_command()->Some_0;
    let set = QcEarbuds.set_command(level);
    assert(off[4] == MODE_USER2);
    assert(set[4] == spec_level_to_mode(level));
    assert(off[4] != set[4]);
}

/// A status response that reports the mode written by a set command reads
/// back as the level that was set, with noise control on.
pub proof fn lemma_set_then_status(level: u8)
    requires
        level <= MAX_LEVEL,
    ensures
        bmap::spec_parse(QcEarbuds.set_command(level)) matches Ok(p) && QcEarbuds.status_of(
            seq![p.payload[0]],
        ) == Ok::<NcStatus, PacketError>(NcStatus { level, max_level: MAX_LEVEL, enabled: true }),
{
    bmap::lemma_serialize_parse(
        request(FB, FN, OP_MODE_SET, seq![spec_level_to_mode(level), 0x01]),
    );
}

} // verus!
