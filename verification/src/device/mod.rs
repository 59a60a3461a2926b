//! Device models: the commands each model understands and how it reports its
//! noise-cancellation state.
pub mod nc700;
pub mod qc35;
pub mod qc45;
pub mod qc_earbuds;
pub mod qc_ultra;
pub mod types;

use vstd::prelude::*;

use crate::bluetooth::rfcomm::{code_fits, spec_rfcomm_result, spec_received, RfcommError, RfcommHandle};
use crate::bluetooth::system_profiler::{
    devices_view, listing_view, BluetoothDevice, BluetoothDeviceView, SystemProfilerError,
};
use crate::bmap::{self, spec_parse, Packet, PacketError};
use crate::device::nc700::Nc700;
use crate::device::qc35::Qc35;
use crate::device::qc45::Qc45;
use crate::device::qc_earbuds::QcEarbuds;
use crate::device::qc_ultra::QcUltra;
use crate::text::{hex_list, hex_list_string};
use crate::device::types::{Capability, NcStatus};

verus! {

#[derive(Debug)]
pub enum DeviceError {
    RfcommError(RfcommError),
    BmapParsing(PacketError),
    /// The device answered with an error packet; the payload bytes in hex.
    ResponseError(String),
    NcDisableNotSupported,
    UnsupportedDevice(u16),
}

/// A status decoding result as the device layer reports it.
pub open spec fn status_result(s: Result<NcStatus, PacketError>) -> Result<NcStatus, DeviceError> {
    match s {
        Ok(st) => Ok(st),
        Err(e) => Err(DeviceError::BmapParsing(e)),
    }
}

/// The bytes of an optional command.
pub open spec fn command_view(c: Option<Vec<u8>>) -> Option<Seq<u8>> {
    match c {
        Some(v) => Some(v@),
        None => None,
    }
}

/// The protocol of one headphone model.
pub trait DeviceProfile {
    /// The product name shown to the user.
    spec fn name_of(&self) -> Seq<char>;

    /// The highest user-facing noise-cancellation level.
    spec fn max_level_of(&self) -> u8;

    /// What the model can do.
    spec fn capabilities_of(&self) -> Seq<Capability>;

    /// The command that asks for the noise-cancellation state.
    spec fn get_command(&self) -> Seq<u8>;

    /// The levels on which building a set command is defined.
    spec fn level_in_domain(&self, level: u8) -> bool;

    /// The command that sets noise cancellation to `level`.
    spec fn set_command(&self, level: u8) -> Seq<u8>;

    /// The dedicated "disable" command, if the model has one.
    spec fn off_command(&self) -> Option<Seq<u8>>;

    /// The status payloads on which decoding is defined.
    spec fn payload_in_domain(&self, payload: Seq<u8>) -> bool;

    /// What a status payload says.
    spec fn status_of(&self, payload: Seq<u8>) -> Result<NcStatus, PacketError>;

    /// How many times a set or off command is written in one session.
    spec fn repeat_of(&self) -> i32;

    fn product_name(&self) -> (r: &'static str)
        ensures
            r@ == self.name_of(),
    ;

    fn max_nc_level(&self) -> (r: u8)
        ensures
            r == self.max_level_of(),
    ;

    fn capabilities(&self) -> (r: &'static [Capability])
        ensures
            r@ == self.capabilities_of(),
    ;

    fn build_nc_get(&self) -> (r: Vec<u8>)
        ensures
            r@ == self.get_command(),
    ;

    fn build_nc_set(&self, level: u8) -> (r: Vec<u8>)
        requires
            self.level_in_domain(level),
        ensures
            r@ == self.set_command(level),
    ;

    /// Build the "disable NC" packet; `None` where the model has no
    /// dedicated off command.
    fn build_nc_off(&self) -> (r: Option<Vec<u8>>)
        ensures
            command_view(r) == self.off_command(),
    ;

    fn parse_nc_status(&self, payload: &[u8]) -> (r: Result<NcStatus, DeviceError>)
        requires
            self.payload_in_domain(payload@),
        ensures
            r == status_result(self.status_of(payload@)),
    ;

    fn nc_set_repeat_count(&self) -> (r: i32)
        ensures
            r == self.repeat_of(),
    ;

    /// Whether [`Self::parse_nc_status`] is defined on `payload`.
    fn accepts_status_payload(&self, payload: &[u8]) -> (r: bool)
        ensures
            r == self.payload_in_domain(payload@),
    ;

    /// Every command the model builds is a BMAP frame: it parses, and
    /// serializing the parsed packet gives the command back.
    proof fn lemma_commands_are_frames(&self, level: u8)
        ensures
            spec_parse(self.get_command()) matches Ok(p) && p.bytes() == self.get_command(),
            self.level_in_domain(level) ==> (spec_parse(self.set_command(level)) matches Ok(p)
                && p.bytes() == self.set_command(level)),
            self.off_command() matches Some(c) ==> (spec_parse(c) matches Ok(p) && p.bytes() == c),
    ;

    /// A decoded status never reports a level above the maximum level it
    /// reports.
    proof fn lemma_status_level_bounded(&self, payload: Seq<u8>)
        requires
            self.payload_in_domain(payload),
        ensures
            self.status_of(payload) matches Ok(s) ==> s.level <= s.max_level,
    ;

    /// Every level from 0 to the maximum can be set.
    proof fn lemma_levels_in_domain(&self)
        ensures
            forall|level: u8| level <= self.max_level_of() ==> #[trigger] self.level_in_domain(level),
    ;
}

pub const BOSE_VENDOR_ID: u16 = 0x009E;

/// The supported headphone models.
#[derive(Debug, Clone, Copy, PartialEq, Eq, Structural)]
pub enum Model {
    Nc700,
    QcUltra,
    Qc35,
    Qc45,
    QcEarbuds,
}

impl DeviceProfile for Model {
    open spec fn name_of(&self) -> Seq<char> {
        match self {
            Model::Nc700 => Nc700.name_of(),
            Model::QcUltra => QcUltra.name_of(),
            Model::Qc35 => Qc35.name_of(),
            Model::Qc45 => Qc45.name_of(),
            Model::QcEarbuds => QcEarbuds.name_of(),
        }
    }

    open spec fn max_level_of(&self) -> u8 {
        match self {
            Model::Nc700 => Nc700.max_level_of(),
            Model::QcUltra => QcUltra.max_level_of(),
            Model::Qc35 => Qc35.max_level_of(),
            Model::Qc45 => Qc45.max_level_of(),
            Model::QcEarbuds => QcEarbuds.max_level_of(),
        }
    }

    open spec fn capabilities_of(&self) -> Seq<Capability> {
        match self {
            Model::Nc700 => Nc700.capabilities_of(),
            Model::QcUltra => QcUltra.capabilities_of(),
            Model::Qc35 => Qc35.capabilities_of(),
            Model::Qc45 => Qc45.capabilities_of(),
            Model::QcEarbuds => QcEarbuds.capabilities_of(),
        }
    }

    open spec fn get_command(&self) -> Seq<u8> {
        match self {
            Model::Nc700 => Nc700.get_command(),
            Model::QcUltra => QcUltra.get_command(),
            Model::Qc35 => Qc35.get_command(),
            Model::Qc45 => Qc45.get_command(),
            Model::QcEarbuds => QcEarbuds.get_command(),
        }
    }

    open spec fn level_in_domain(&self, level: u8) -> bool {
        match self {
            Model::Nc700 => Nc700.level_in_domain(level),
            Model::QcUltra => QcUltra.level_in_domain(level),
            Model::Qc35 => Qc35.level_in_domain(level),
            Model::Qc45 => Qc45.level_in_domain(level),
            Model::QcEarbuds => QcEarbuds.level_in_domain(level),
        }
    }

    open spec fn set_command(&self, level: u8) -> Seq<u8> {
        match self {
            Model::Nc700 => Nc700.set_command(level),
            Model::QcUltra => QcUltra.set_command(level),
            Model::Qc35 => Qc35.set_command(level),
            Model::Qc45 => Qc45.set_command(level),
            Model::QcEarbuds => QcEarbuds.set_command(level),
        }
    }

    open spec fn off_command(&self) -> Option<Seq<u8>> {
        match self {
            Model::Nc700 => Nc700.off_command(),
            Model::QcUltra => QcUltra.off_command(),
            Model::Qc35 => Qc35.off_command(),
            Model::Qc45 => Qc45.off_command(),
            Model::QcEarbuds => QcEarbuds.off_command(),
        }
    }

    open spec fn payload_in_domain(&self, payload: Seq<u8>) -> bool {
        match self {
            Model::Nc700 => Nc700.payload_in_domain(payload),
            Model::QcUltra => QcUltra.payload_in_domain(payload),
            Model::Qc35 => Qc35.payload_in_domain(payload),
            Model::Qc45 => Qc45.payload_in_domain(payload),
            Model::QcEarbuds => QcEarbuds.payload_in_domain(payload),
        }
    }

    open spec fn status_of(&self, payload: Seq<u8>) -> Result<NcStatus, PacketError> {
        match self {
            Model::Nc700 => Nc700.status_of(payload),
            Model::QcUltra => QcUltra.status_of(payload),
            Model::Qc35 => Qc35.status_of(payload),
            Model::Qc45 => Qc45.status_of(payload),
            Model::QcEarbuds => QcEarbuds.status_of(payload),
        }
    }

    open spec fn repeat_of(&self) -> i32 {
        match self {
            Model::Nc700 => Nc700.repeat_of(),
            Model::QcUltra => QcUltra.repeat_of(),
            Model::Qc35 => Qc35.repeat_of(),
            Model::Qc45 => Qc45.repeat_of(),
            Model::QcEarbuds => QcEarbuds.repeat_of(),
        }
    }

    fn product_name(&self) -> (r: &'static str) {
        match self {
            Model::Nc700 => Nc700.product_name(),
            Model::QcUltra => QcUltra.product_name(),
            Model::Qc35 => Qc35.product_name(),
            Model::Qc45 => Qc45.product_name(),
            Model::QcEarbuds => QcEarbuds.product_name(),
        }
    }

    fn max_nc_level(&self) -> (r: u8) {
        match self {
            Model::Nc700 => Nc700.max_nc_level(),
            Model::QcUltra => QcUltra.max_nc_level(),
            Model::Qc35 => Qc35.max_nc_level(),
            Model::Qc45 => Qc45.max_nc_level(),
            Model::QcEarbuds => QcEarbuds.max_nc_level(),
        }
    }

    fn capabilities(&self) -> (r: &'static [Capability]) {
        match self {
            Model::Nc700 => Nc700.capabilities(),
            Model::QcUltra => QcUltra.capabilities(),
            Model::Qc35 => Qc35.capabilities(),
            Model::Qc45 => Qc45.capabilities(),
            Model::QcEarbuds => QcEarbuds.capabilities(),
        }
    }

    fn build_nc_get(&self) -> (r: Vec<u8>) {
        match self {
            Model::Nc700 => Nc700.build_nc_get(),
            Model::QcUltra => QcUltra.build_nc_get(),
            Model::Qc35 => Qc35.build_nc_get(),
            Model::Qc45 => Qc45.build_nc_get(),
            Model::QcEarbuds => QcEarbuds.build_nc_get(),
        }
    }

    fn build_nc_set(&self, level: u8) -> (r: Vec<u8>) {
        match self {
            Model::Nc700 => Nc700.build_nc_set(level),
            Model::QcUltra => QcUltra.build_nc_set(level),
            Model::Qc35 => Qc35.build_nc_set(level),
            Model::Qc45 => Qc45.build_nc_set(level),
            Model::QcEarbuds => QcEarbuds.build_nc_set(level),
        }
    }

    fn build_nc_off(&self) -> (r: Option<Vec<u8>>) {
        match self {
            Model::Nc700 => Nc700.build_nc_off(),
            Model::QcUltra => QcUltra.build_nc_off(),
            Model::Qc35 => Qc35.build_nc_off(),
            Model::Qc45 => Qc45.build_nc_off(),
            Model::QcEarbuds => QcEarbuds.build_nc_off(),
        }
    }

    fn parse_nc_status(&self, payload: &[u8]) -> (r: Result<NcStatus, DeviceError>) {
        match self {
            Model::Nc700 => Nc700.parse_nc_status(payload),
            Model::QcUltra => QcUltra.parse_nc_status(payload),
            Model::Qc35 => Qc35.parse_nc_status(payload),
            Model::Qc45 => Qc45.parse_nc_status(payload),
            Model::QcEarbuds => QcEarbuds.parse_nc_status(payload),
        }
    }

    fn nc_set_repeat_count(&self) -> (r: i32) {
        match self {
            Model::Nc700 => Nc700.nc_set_repeat_count(),
            Model::QcUltra => QcUltra.nc_set_repeat_count(),
            Model::Qc35 => Qc35.nc_set_repeat_count(),
            Model::Qc45 => Qc45.nc_set_repeat_count(),
            Model::QcEarbuds => QcEarbuds.nc_set_repeat_count(),
        }
    }

    fn accepts_status_payload(&self, payload: &[u8]) -> (r: bool) {
        match self {
            Model::Nc700 => Nc700.accepts_status_payload(payload),
            Model::QcUltra => QcUltra.accepts_status_payload(payload),
            Model::Qc35 => Qc35.accepts_status_payload(payload),
            Model::Qc45 => Qc45.accepts_status_payload(payload),
            Model::QcEarbuds => QcEarbuds.accepts_status_payload(payload),
        }
    }

    proof fn lemma_commands_are_frames(&self, level: u8) {
        match self {
            Model::Nc700 => Nc700.lemma_commands_are_frames(level),
            Model::QcUltra => QcUltra.lemma_commands_are_frames(level),
            Model::Qc35 => Qc35.lemma_commands_are_frames(level),
            Model::Qc45 => Qc45.lemma_commands_are_frames(level),
            Model::QcEarbuds => QcEarbuds.lemma_commands_are_frames(level),
        }
    }

    proof fn lemma_status_level_bounded(&self, payload: Seq<u8>) {
        match self {
            Model::Nc700 => Nc700.lemma_status_level_bounded(payload),
            Model::QcUltra => QcUltra.lemma_status_level_bounded(payload),
            Model::Qc35 => Qc35.lemma_status_level_bounded(payload),
            Model::Qc45 => Qc45.lemma_status_level_bounded(payload),
            Model::QcEarbuds => QcEarbuds.lemma_status_level_bounded(payload),
        }
    }

    proof fn lemma_levels_in_domain(&self) {
        match self {
            Model::Nc700 => Nc700.lemma_levels_in_domain(),
            Model::QcUltra => QcUltra.lemma_levels_in_domain(),
            Model::Qc35 => Qc35.lemma_levels_in_domain(),
            Model::Qc45 => Qc45.lemma_levels_in_domain(),
            Model::QcEarbuds => QcEarbuds.lemma_levels_in_domain(),
        }
    }
}

/// Every model can report and set its level, and it advertises "nc_off"
/// exactly when it has a dedicated off command.
pub proof fn lemma_capabilities_match_commands(m: Model)
    ensures
        m.capabilities_of().contains(Capability::NcGet),
        m.capabilities_of().contains(Capability::NcSet),
        m.capabilities_of().contains(Capability::NcOff) <==> m.off_command() is Some,
{
    let caps = m.capabilities_of();
    assert(caps[0] == Capability::NcGet);
    assert(caps[1] == Capability::NcSet);
    if m.off_command() is Some {
        assert(caps[2] == Capability::NcOff);
    } else {
        assert(caps.len() == 2);
        assert forall|i: int| 0 <= i < caps.len() implies caps[i] != Capability::NcOff by {}
    }
}

/// Each model behaves as its own profile: name, maximum level,
/// capabilities, every command, status decoding and repeat count of the
/// model are those of the model's profile.
pub proof fn lemma_model_is_its_profile(m: Model, level: u8, payload: Seq<u8>)
    ensures
        m == Model::Nc700 ==> m.name_of() == Nc700.name_of() && m.max_level_of() == Nc700.max_level_of()
            && m.capabilities_of() == Nc700.capabilities_of() && m.get_command() == Nc700.get_command()
            && m.set_command(level) == Nc700.set_command(level) && m.off_command()
            == Nc700.off_command() && m.status_of(payload) == Nc700.status_of(payload)
            && m.repeat_of() == Nc700.repeat_of(),
        m == Model::QcUltra ==> m.name_of() == QcUltra.name_of() && m.max_level_of()
            == QcUltra.max_level_of() && m.capabilities_of() == QcUltra.capabilities_of()
            && m.get_command() == QcUltra.get_command() && m.set_command(level) == QcUltra.set_command(
            level,
        ) && m.off_command() == QcUltra.off_command() && m.status_of(payload) == QcUltra.status_of(
            payload,
        ) && m.repeat_of() == QcUltra.repeat_of(),
        m == Model::Qc35 ==> m.name_of() == Qc35.name_of() && m.max_level_of() == Qc35.max_level_of()
            && m.capabilities_of() == Qc35.capabilities_of() && m.get_command() == Qc35.get_command()
            && m.set_command(level) == Qc35.set_command(level) && m.off_command() == Qc35.off_command()
            && m.status_of(payload) == Qc35.status_of(payload) && m.repeat_of() == Qc35.repeat_of(),
        m == Model::Qc45 ==> m.name_of() == Qc45.name_of() && m.max_level_of() == Qc45.max_level_of()
            && m.capabilities_of() == Qc45.capabilities_of() && m.get_command() == Qc45.get_command()
            && m.set_command(level) == Qc45.set_command(level) && m.off_command() == Qc45.off_command()
            && m.status_of(payload) == Qc45.status_of(payload) && m.repeat_of() == Qc45.repeat_of(),
        m == Model::QcEarbuds ==> m.name_of() == QcEarbuds.name_of() && m.max_level_of()
            == QcEarbuds.max_level_of() && m.capabilities_of() == QcEarbuds.capabilities_of()
            && m.get_command() == QcEarbuds.get_command() && m.set_command(level)
            == QcEarbuds.set_command(level) && m.off_command() == QcEarbuds.off_command()
            && m.status_of(payload) == QcEarbuds.status_of(payload) && m.repeat_of()
            == QcEarbuds.repeat_of(),
{
}

/// The QC45 reports its state by mode alone: a quiet-mode payload (first
/// byte 0x00) reads as level 1 of 1 with noise cancellation on, any other
/// mode as level 0 of 1 with it off, and an empty payload is refused.
pub proof fn lemma_qc45_status(payload: Seq<u8>)
    ensures
        payload.len() == 0 ==> Model::Qc45.status_of(payload) == Err::<NcStatus, PacketError>(
            PacketError::EmptyPayload,
        ),
        payload.len() > 0 ==> Model::Qc45.status_of(payload) == Ok::<NcStatus, PacketError>(
            NcStatus {
                level: if payload[0] == 0 { 1 } else { 0 },
                max_level: 1,
                enabled: payload[0] == 0,
            },
        ),
{
}

/// For the models whose number of levels is fixed (QC35, QC45, QC Earbuds),
/// a decoded status reports the model's own maximum level.
pub proof fn lemma_fixed_models_report_their_maximum(m: Model, payload: Seq<u8>)
    requires
        m == Model::Qc35 || m == Model::Qc45 || m == Model::QcEarbuds,
    ensures
        m.status_of(payload) matches Ok(s) ==> s.max_level == m.max_level_of(),
{
}

/// Only the NC 700 and the QC Earbuds have an off command; the others
/// (QC35, QC45, QC Ultra) advertise exactly "nc_get" and "nc_set". Where an
/// off command exists, it differs from the set command of every level, so
/// turning noise cancellation off never just sets a level.
pub proof fn lemma_off_only_where_supported(m: Model, level: u8)
    ensures
        m.off_command() is Some <==> (m == Model::Nc700 || m == Model::QcEarbuds),
        m.off_command() is None ==> m.capabilities_of() == seq![Capability::NcGet, Capability::NcSet],
        m.off_command() matches Some(c) ==> c != m.set_command(level),
{
    if m == Model::Nc700 {
        nc700::lemma_set_keeps_noise_control_on(level);
    } else if m == Model::QcEarbuds {
        qc_earbuds::lemma_off_differs_from_every_set(level);
    }
}

/// The model with a product id.
pub open spec fn spec_resolve_profile(product_id: u16) -> Option<Model> {
    if product_id == nc700::PRODUCT_ID {
        Some(Model::Nc700)
    } else if product_id == qc_ultra::PRODUCT_ID {
        Some(Model::QcUltra)
    } else if product_id == qc35::PRODUCT_ID {
        Some(Model::Qc35)
    } else if product_id == qc45::PRODUCT_ID {
        Some(Model::Qc45)
    } else if product_id == qc_earbuds::PRODUCT_ID {
        Some(Model::QcEarbuds)
    } else {
        None
    }
}

pub fn resolve_profile(product_id: u16) -> (r: Option<Model>)
    ensures
        r == spec_resolve_profile(product_id),
{
    if product_id == nc700::PRODUCT_ID {
        Some(Model::Nc700)
    } else if product_id == qc_ultra::PRODUCT_ID {
        Some(Model::QcUltra)
    } else if product_id == qc35::PRODUCT_ID {
        Some(Model::Qc35)
    } else if product_id == qc45::PRODUCT_ID {
        Some(Model::Qc45)
    } else if product_id == qc_earbuds::PRODUCT_ID {
        Some(Model::QcEarbuds)
    } else {
        None
    }
}

/// The model of a listed device, if its product id is a known one.
pub open spec fn spec_device_model(device: BluetoothDeviceView) -> Option<Model> {
    match device.product_id {
        Some(id) => spec_resolve_profile(id),
        None => None,
    }
}

/// Static information about a recognized Bose device (no connection needed).
pub struct DeviceInfo {
    pub product_name: &'static str,
    pub max_nc_level: u8,
    pub capabilities: &'static [Capability],
}

pub fn device_info(device: &BluetoothDevice) -> (r: Option<DeviceInfo>)
    ensures
        match spec_device_model(device@) {
            None => r is None,
            Some(m) => r matches Some(i) && i.product_name@ == m.name_of() && i.max_nc_level
                == m.max_level_of() && i.capabilities@ == m.capabilities_of(),
        },
{
    let profile = match device.product_id {
        Some(id) => match resolve_profile(id) {
            Some(p) => p,
            None => {
                return None;
            },
        },
        None => {
            return None;
        },
    };
    Some(
        DeviceInfo {
            product_name: profile.product_name(),
            max_nc_level: profile.max_nc_level(),
            capabilities: profile.capabilities(),
        },
    )
}

/// The listed devices that Bose made, in listing order.
pub open spec fn bose_only(devices: Seq<BluetoothDeviceView>) -> Seq<BluetoothDeviceView>
    decreases devices.len(),
{
    if devices.len() == 0 {
        seq![]
    } else {
        bose_only(devices.drop_last()) + if devices.last().vendor_id == Some(BOSE_VENDOR_ID) {
            seq![devices.last()]
        } else {
            seq![]
        }
    }
}

/// Filtering keeps only Bose devices, each one taken from the listing.
pub proof fn lemma_bose_only_sound(devices: Seq<BluetoothDeviceView>)
    ensures
        forall|i: int| 0 <= i < bose_only(devices).len() ==> (#[trigger] bose_only(devices)[i]).vendor_id
            == Some(BOSE_VENDOR_ID) && devices.contains(bose_only(devices)[i]),
    decreases devices.len(),
{
    if devices.len() > 0 {
        let rest = devices.drop_last();
        lemma_bose_only_sound(rest);
        assert forall|i: int| 0 <= i < bose_only(devices).len() implies (#[trigger] bose_only(
            devices,
        )[i]).vendor_id == Some(BOSE_VENDOR_ID) && devices.contains(bose_only(devices)[i]) by {
            if i < bose_only(rest).len() {
                let k = choose|k: int| 0 <= k < rest.len() && rest[k] == bose_only(rest)[i];
                assert(devices[k] == rest[k]);
            } else {
                assert(devices[devices.len() - 1] == devices.last());
            }
        }
    }
}

/// The Bose devices of a listing; none when the listing failed.
pub open spec fn spec_list_bose_devices(
    listing: Result<Seq<BluetoothDeviceView>, SystemProfilerError>,
) -> Seq<BluetoothDeviceView> {
    match listing {
        Ok(devices) => bose_only(devices),
        Err(_) => seq![],
    }
}

pub fn list_bose_devices(listing: Result<Vec<BluetoothDevice>, SystemProfilerError>) -> (r: Vec<
    BluetoothDevice,
>)
    ensures
        devices_view(r@) == spec_list_bose_devices(listing_view(listing)),
{
    let mut devices = match listing {
        Ok(d) => d,
        Err(_) => {
            assert(devices_view(Seq::<BluetoothDevice>::empty()) =~= seq![]);
            return Vec::new();
        },
    };
    let ghost all = devices_view(devices@);
    let ghost n = devices@.len();
    let mut bose: Vec<BluetoothDevice> = Vec::new();
    let ghost mut k: int = 0;
    assert(devices_view(devices@) =~= all.skip(0));
    while devices.len() > 0
        invariant
            all.len() == n,
            0 <= k <= n,
            devices@.len() + k == n,
            devices_view(devices@) == all.skip(k),
            devices_view(bose@) == bose_only(all.take(k)),
        decreases devices.len(),
    {
        let ghost before = bose@;
        let ghost old_devices = devices@;
        let d = devices.remove(0);
        proof {
            assert(all.skip(k)[0] == d@);
            assert forall|j: int| 0 <= j < devices@.len() implies devices_view(devices@)[j] == all.skip(k + 1)[j] by {
                assert(devices@[j] == old_devices[j + 1]);
                assert(devices_view(old_devices)[j + 1] == all.skip(k)[j + 1]);
            }
            assert(devices_view(devices@) =~= all.skip(k + 1));
            let t = all.take(k + 1);
            assert(t.drop_last() =~= all.take(k));
            assert(t.last() == d@);
        }
        if d.vendor_id == Some(BOSE_VENDOR_ID) {
            bose.push(d);
            assert(devices_view(bose@) =~= devices_view(before) + seq![d@]);
        }
        proof {
            k = k + 1;
        }
    }
    assert(all.take(n as int) =~= all);
    bose
}

/// The model of a device, or the error that refuses an unknown product.
pub open spec fn spec_resolve_device_profile(device: BluetoothDeviceView) -> Result<Model, DeviceError> {
    match spec_device_model(device) {
        Some(m) => Ok(m),
        None => Err(
            DeviceError::UnsupportedDevice(
                match device.product_id {
                    Some(id) => id,
                    None => 0,
                },
            ),
        ),
    }
}

pub fn resolve_device_profile(device: &BluetoothDevice) -> (r: Result<Model, DeviceError>)
    ensures
        r == spec_resolve_device_profile(device@),
{
    let profile = match device.product_id {
        Some(id) => resolve_profile(id),
        None => None,
    };
    match profile {
        Some(p) => Ok(p),
        None => Err(
            DeviceError::UnsupportedDevice(
                match device.product_id {
                    Some(id) => id,
                    None => 0,
                },
            ),
        ),
    }
}

/// A command to write, and how many times to write it in one session.
pub struct Transfer {
    pub bytes: Vec<u8>,
    pub repeat: i32,
}

/// A device that commands can be sent to: its address and its model.
pub struct ConnectedDevice {
    handle: RfcommHandle,
    profile: Model,
}

impl ConnectedDevice {
    pub closed spec fn model(&self) -> Model {
        self.profile
    }

    pub closed spec fn address_view(&self) -> Seq<char> {
        self.handle.address_view()
    }

    pub fn new(address: &str, profile: Model) -> (r: Result<Self, DeviceError>)
        ensures
            match r {
                Ok(d) => d.address_view() == address@ && d.model() == profile && !address@.contains('\0'),
                Err(e) => address@.contains('\0') && (e matches DeviceError::RfcommError(
                    RfcommError::InvalidAddress(a),
                ) && a@ == address@),
            },
    {
        match RfcommHandle::new(address) {
            Ok(handle) => Ok(ConnectedDevice { handle, profile }),
            Err(e) => Err(DeviceError::RfcommError(e)),
        }
    }

    /// The transport target.
    pub fn handle(&self) -> (r: &RfcommHandle)
        ensures
            r.address_view() == self.address_view(),
    {
        &self.handle
    }

    pub fn profile(&self) -> (r: Model)
        ensures
            r == self.model(),
    {
        self.profile
    }

    pub fn product_name(&self) -> (r: &'static str)
        ensures
            r@ == self.model().name_of(),
    {
        self.profile.product_name()
    }

    pub fn max_nc_level(&self) -> (r: u8)
        ensures
            r == self.model().max_level_of(),
    {
        self.profile.max_nc_level()
    }

    /// The command that asks the device for its noise-cancellation state.
    pub fn nc_status_request(&self) -> (r: Vec<u8>)
        ensures
            r@ == self.model().get_command(),
    {
        self.profile.build_nc_get()
    }

    /// The noise-cancellation state, from the transport code and response
    /// buffer of the exchange that sent [`Self::nc_status_request`].
    pub fn get_nc_status(&self, code: i32, buf: &[u8]) -> (r: Result<NcStatus, DeviceError>)
        requires
            code_fits(code, buf@.len()),
            reply_in_domain(self.model(), code, buf@),
        ensures
            status_reply_matches(self.model(), code, buf@, r),
    {
        let data = match self.handle.received(code, buf) {
            Ok(d) => d,
            Err(e) => {
                return Err(DeviceError::RfcommError(e));
            },
        };
        let packet = match Packet::parse(data.as_slice()) {
            Ok(p) => p,
            Err(e) => {
                return Err(DeviceError::BmapParsing(e));
            },
        };
        if packet.operator == bmap::OP_ERROR {
            let response_bytes = hex_list_string(packet.payload.as_slice());
            return Err(DeviceError::ResponseError(response_bytes));
        }
        self.profile.parse_nc_status(packet.payload.as_slice())
    }

    /// The command that sets noise cancellation to `level`.
    pub fn nc_set_request(&self, level: u8) -> (r: Transfer)
        requires
            level <= self.model().max_level_of(),
        ensures
            r.bytes@ == self.model().set_command(level),
            r.repeat == self.model().repeat_of(),
    {
        proof {
            self.profile.lemma_levels_in_domain();
        }
        Transfer { bytes: self.profile.build_nc_set(level), repeat: self.profile.nc_set_repeat_count() }
    }

    /// The outcome of writing a set command, from the transport code.
    pub fn set_nc(&self, code: i32) -> (r: Result<(), DeviceError>)
        ensures
            match spec_rfcomm_result(code) {
                Ok(_) => r is Ok,
                Err(e) => r == Err::<(), DeviceError>(DeviceError::RfcommError(e)),
            },
    {
        match self.handle.sent(code) {
            Ok(()) => Ok(()),
            Err(e) => Err(DeviceError::RfcommError(e)),
        }
    }

    /// The command that disables noise cancellation, or the error for a
    /// model that has none.
    pub fn nc_off_request(&self) -> (r: Result<Transfer, DeviceError>)
        ensures
            match self.model().off_command() {
                Some(c) => r matches Ok(t) && t.bytes@ == c && t.repeat == self.model().repeat_of(),
                None => r == Err::<Transfer, DeviceError>(DeviceError::NcDisableNotSupported),
            },
    {
        match self.profile.build_nc_off() {
            Some(bytes) => Ok(Transfer { bytes, repeat: self.profile.nc_set_repeat_count() }),
            None => Err(DeviceError::NcDisableNotSupported),
        }
    }

    /// The outcome of disabling noise cancellation, from the transport code
    /// of writing [`Self::nc_off_request`]; a model without an off command
    /// refuses before anything is written.
    pub fn disable_nc(&self, code: i32) -> (r: Result<(), DeviceError>)
        ensures
            self.model().off_command() is None ==> r == Err::<(), DeviceError>(
                DeviceError::NcDisableNotSupported,
            ),
            self.model().off_command() is Some ==> match spec_rfcomm_result(code) {
                Ok(_) => r is Ok,
                Err(e) => r == Err::<(), DeviceError>(DeviceError::RfcommError(e)),
            },
    {
        if self.profile.build_nc_off().is_none() {
            return Err(DeviceError::NcDisableNotSupported);
        }
        self.set_nc(code)
    }
}

/// The status responses whose payload the model can decode.
pub open spec fn reply_in_domain(model: Model, code: i32, buf: Seq<u8>) -> bool {
    spec_received(code, buf) matches Ok(data) ==> (spec_parse(data) matches Ok(p) ==> (p.operator
        != bmap::OP_ERROR ==> model.payload_in_domain(p.payload)))
}

/// Whether the status exchange with the given transport code and response
/// buffer can be decoded for `model`: the code fits the buffer and a status
/// payload in the response is one that the model decodes.
pub fn status_reply_in_domain(model: Model, code: i32, buf: &[u8]) -> (r: bool)
    ensures
        r == (code_fits(code, buf@.len()) && reply_in_domain(model, code, buf@)),
{
    if code <= 0 {
        return true;
    }
    if code as usize > buf.len() {
        return false;
    }
    let len = code as usize;
    let mut data: Vec<u8> = Vec::new();
    let mut i: usize = 0;
    while i < len
        invariant
            0 < len <= buf@.len(),
            len == code,
            i <= len,
            data@ == buf@.take(i as int),
        decreases len - i,
    {
        data.push(buf[i]);
        i = i + 1;
        assert(data@ =~= buf@.take(i as int));
    }
    match Packet::parse(data.as_slice()) {
        Ok(p) => p.operator == bmap::OP_ERROR || model.accepts_status_payload(p.payload.as_slice()),
        Err(_) => true,
    }
}

/// What a status exchange gives: the transport failure, the framing error,
/// the device's error response (its payload in hex), or the decoded status.
pub open spec fn status_reply_matches(
    model: Model,
    code: i32,
    buf: Seq<u8>,
    r: Result<NcStatus, DeviceError>,
) -> bool {
    match spec_received(code, buf) {
        Err(e) => r == Err::<NcStatus, DeviceError>(DeviceError::RfcommError(e)),
        Ok(data) => match spec_parse(data) {
            Err(e) => r == Err::<NcStatus, DeviceError>(DeviceError::BmapParsing(e)),
            Ok(p) => if p.operator == bmap::OP_ERROR {
                r matches Err(DeviceError::ResponseError(s)) && s@ == hex_list(p.payload)
            } else {
                r == status_result(model.status_of(p.payload))
            },
        },
    }
}

/// The model of a device and a connection to it.
pub fn connect_device(device: &BluetoothDevice) -> (r: Result<ConnectedDevice, DeviceError>)
    ensures
        match spec_resolve_device_profile(device@) {
            Err(e) => r == Err::<ConnectedDevice, DeviceError>(e),
            Ok(m) => match r {
                Ok(d) => d.model() == m && d.address_view() == device.address@
                    && !device.address@.contains('\0'),
                Err(e) => device.address@.contains('\0') && (e matches DeviceError::RfcommError(
                    RfcommError::InvalidAddress(a),
                ) && a@ == device.address@),
            },
        },
{
    let profile = resolve_device_profile(device)?;
    ConnectedDevice::new(device.address.as_str(), profile)
}

} // verus!
