//! Bose QuietComfort Ultra Headphones.
//!
//! ANR protocol: `function_block`=0x1f (NoiseControl), `function`=0x06 (SettingsAnr)
//!   Get: payload `[0x03]`
//!   Set: payload of 39 bytes: `[0x03, 0x00, num_steps]`, the mode name
//!        "None" padded with zeros to 32 bytes, the wire level, `[0, 0, 0]`
//!   Status: at least 47 bytes; number of steps at offset 2, wire level at
//!        offset 42, enabled flag at offset 45
use vstd::prelude::*;

use crate::bmap::{self, request, Packet, PacketError};
use crate::device::nc700::sat_sub;
use crate::device::types::{Capability, NcStatus};
use crate::device::{DeviceError, DeviceProfile};

verus! {

pub const PRODUCT_ID: u16 = 0x4066;

pub const FB: u8 = 0x1f;

pub const FN: u8 = 0x06;

pub const MAX_LEVEL: u8 = 10;

pub const MODE_NAME_LEN: usize = 32;

pub const MIN_STATUS_PAYLOAD: usize = 47;

pub struct QcUltra;

/// The mode name "None" in ASCII.
pub open spec fn mode_name() -> Seq<u8> {
    seq![0x4Eu8, 0x6F, 0x6E, 0x65]
}

/// The payload of a set command with the given wire level.
pub open spec fn set_payload(wire_level: u8) -> Seq<u8> {
    seq![0x03u8, 0x00, 0x0Bu8] + mode_name() + Seq::new(28, |i: int| 0u8) + seq![
        wire_level,
        0x00,
        0x00,
        0x00,
    ]
}

impl DeviceProfile for QcUltra {
    open spec fn name_of(&self) -> Seq<char> {
        "Bose QC Ultra"@
    }

    open spec fn max_level_of(&self) -> u8 {
        MAX_LEVEL
    }

    open spec fn capabilities_of(&self) -> Seq<Capability> {
        seq![Capability::NcGet, Capability::NcSet]
    }

    open spec fn get_command(&self) -> Seq<u8> {
        request(FB, FN, bmap::OP_GET, seq![0x03u8]).bytes()
    }

    open spec fn level_in_domain(&self, level: u8) -> bool {
        true
    }

    open spec fn set_command(&self, level: u8) -> Seq<u8> {
        request(FB, FN, bmap::OP_SET_GET, set_payload(sat_sub(MAX_LEVEL, level))).bytes()
    }

    open spec fn off_command(&self) -> Option<Seq<u8>> {
        None
    }

    open spec fn payload_in_domain(&self, payload: Seq<u8>) -> bool {
        true
    }

    open spec fn status_of(&self, payload: Seq<u8>) -> Result<NcStatus, PacketError> {
        if payload.len() < 47 {
            Err(PacketError::TooShort(payload.len() as usize, 47))
        } else {
            Ok(
                NcStatus {
                    level: sat_sub(sat_sub(payload[2], 1), payload[42]),
                    max_level: sat_sub(payload[2], 1),
                    enabled: payload[45] != 0,
                },
            )
        }
    }

    open spec fn repeat_of(&self) -> i32 {
        1
    }

    fn product_name(&self) -> (r: &'static str) {
        "Bose QC Ultra"
    }

    fn max_nc_level(&self) -> (r: u8) {
        MAX_LEVEL
    }

    fn capabilities(&self) -> (r: &'static [Capability]) {
        let caps: &'static [Capability] = &[Capability::NcGet, Capability::NcSet];
        assert(caps@ =~= seq![Capability::NcGet, Capability::NcSet]);
        caps
    }

    fn build_nc_get(&self) -> (r: Vec<u8>) {
        let payload: Vec<u8> = vec![0x03];
        Packet::new(FB, FN, bmap::OP_GET, payload).to_bytes()
    }

    fn build_nc_set(&self, level: u8) -> (r: Vec<u8>) {
        let wire_level = MAX_LEVEL.saturating_sub(level);
        let mut payload: Vec<u8> = vec![0x03, 0x00, MAX_LEVEL + 1, 0x4E, 0x6F, 0x6E, 0x65];
        while payload.len() < 3 + MODE_NAME_LEN
            invariant
                7 <= payload@.len() <= 3 + MODE_NAME_LEN,
                payload@ == seq![0x03u8, 0x00, 0x0Bu8] + mode_name() + Seq::new(
                    (payload@.len() - 7) as nat,
                    |i: int| 0u8,
                ),
            decreases 3 + MODE_NAME_LEN - payload@.len(),
        {
            let ghost before = payload@;
            payload.push(0x00);
            assert(payload@ =~= seq![0x03u8, 0x00, 0x0Bu8] + mode_name() + Seq::new(
                (payload@.len() - 7) as nat,
                |i: int| 0u8,
            ));
        }
        payload.push(wire_level);
        payload.push(0x00);
        payload.push(0x00);
        payload.push(0x00);
        assert(payload@ =~= set_payload(wire_level));
        Packet::new(FB, FN, bmap::OP_SET_GET, payload).to_bytes()
    }

    fn build_nc_off(&self) -> (r: Option<Vec<u8>>) {
        None
    }

    fn parse_nc_status(&self, payload: &[u8]) -> (r: Result<NcStatus, DeviceError>) {
        if payload.len() < MIN_STATUS_PAYLOAD {
            return Err(
                DeviceError::BmapParsing(PacketError::TooShort(payload.len(), MIN_STATUS_PAYLOAD)),
            );
        }
        let num_steps = payload[2];
        let max_level = num_steps.saturating_sub(1);
        let wire_level = payload[42];
        let level = max_level.saturating_sub(wire_level);
        let enabled = payload[45] != 0;
        Ok(NcStatus { level, max_level, enabled })
    }

    fn nc_set_repeat_count(&self) -> (r: i32) {
        1
    }

    fn accepts_status_payload(&self, payload: &[u8]) -> (r: bool) {
        true
    }

    proof fn lemma_commands_are_frames(&self, level: u8) {
        bmap::lemma_serialize_parse(request(FB, FN, bmap::OP_GET, seq![0x03u8]));
        bmap::lemma_serialize_parse(request(FB, FN, bmap::OP_SET_GET, set_payload(sat_sub(MAX_LEVEL, level))));
    }

    proof fn lemma_status_level_bounded(&self, payload: Seq<u8>) {
    }

    proof fn lemma_levels_in_domain(&self) {
    }
}

/// A status response that announces the model's step count and reports the
/// wire level written by a set command reads back as the level that was set.
pub proof fn lemma_set_then_status(level: u8, status: Seq<u8>)
    requires
        level <= MAX_LEVEL,
        status.len() >= 47,
        status[2] == MAX_LEVEL + 1,
        bmap::spec_parse(QcUltra.set_command(level)) matches Ok(p) && status[42] == p.payload[35],
    ensures
        QcUltra.status_of(status) == Ok::<NcStatus, PacketError>(
            NcStatus { level, max_level: MAX_LEVEL, enabled: status[45] != 0 },
        ),
{
    let sent = request(FB, FN, bmap::OP_SET_GET, set_payload(sat_sub(MAX_LEVEL, level)));
    bmap::lemma_serialize_parse(sent);
    assert(set_payload(sat_sub(MAX_LEVEL, level))[35] == sat_sub(MAX_LEVEL, level));
}

} // verus!
