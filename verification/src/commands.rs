//! The commands: scan, status, set, off. Each one selects a device from the
//! Bluetooth listing and turns what the transport returns into a report.
use vstd::prelude::*;

use crate::bluetooth::rfcomm::{code_fits, spec_rfcomm_result, RfcommError};
use crate::bluetooth::system_profiler::{
    devices_view, listing_view, BluetoothDevice, BluetoothDeviceView, SystemProfilerError,
};
use crate::device::types::{capability_name, NcStatus};
use crate::device::{
    connect_device, device_info, list_bose_devices, reply_in_domain, spec_device_model,
    spec_list_bose_devices, spec_resolve_device_profile, status_reply_matches, ConnectedDevice,
    DeviceError, DeviceProfile, Transfer,
};
use crate::error::AppError;
use crate::output::{
    DeviceSummary, OffReport, Report, ScanItem, ScanReport, SelectionNotice, SetReport,
    StatusReport,
};
use crate::text::{contains, has_substring, join, join_strings, lowercase, strings_view, to_lowercase};

verus! {

/// The device that a command talks to, and what the selection has to say.
pub struct SelectedDevice {
    pub device: ConnectedDevice,
    pub notices: Vec<SelectionNotice>,
}

/// The filter text of an optional filter.
pub open spec fn filter_view(name_filter: Option<&str>) -> Option<Seq<char>> {
    match name_filter {
        Some(f) => Some(f@),
        None => None,
    }
}

/// A device name matches a filter when the filter is absent, or when its
/// lowercase form occurs in the lowercase form of the name.
pub open spec fn name_matches(name: Seq<char>, filter: Option<Seq<char>>) -> bool {
    match filter {
        None => true,
        Some(f) => has_substring(lowercase(name), lowercase(f)),
    }
}

/// The devices whose name matches the filter, in listing order.
pub open spec fn matching(devices: Seq<BluetoothDeviceView>, filter: Option<Seq<char>>) -> Seq<
    BluetoothDeviceView,
>
    decreases devices.len(),
{
    if devices.len() == 0 {
        seq![]
    } else {
        matching(devices.drop_last(), filter) + if name_matches(devices.last().name, filter) {
            seq![devices.last()]
        } else {
            seq![]
        }
    }
}

/// Without a filter every device matches, so the first listed device is the
/// one selected.
pub proof fn lemma_no_filter_matches_all(devices: Seq<BluetoothDeviceView>)
    ensures
        matching(devices, None) == devices,
    decreases devices.len(),
{
    if devices.len() > 0 {
        lemma_no_filter_matches_all(devices.drop_last());
        assert(devices.drop_last().push(devices.last()) =~= devices);
    }
}

/// Every selected candidate is a listed device whose name matches the filter.
pub proof fn lemma_matching_sound(devices: Seq<BluetoothDeviceView>, filter: Option<Seq<char>>)
    ensures
        forall|i: int| 0 <= i < matching(devices, filter).len() ==> name_matches(
            (#[trigger] matching(devices, filter)[i]).name,
            filter,
        ) && devices.contains(matching(devices, filter)[i]),
    decreases devices.len(),
{
    if devices.len() > 0 {
        let rest = devices.drop_last();
        lemma_matching_sound(rest, filter);
        assert forall|i: int| 0 <= i < matching(devices, filter).len() implies name_matches(
            (#[trigger] matching(devices, filter)[i]).name,
            filter,
        ) && devices.contains(matching(devices, filter)[i]) by {
            if i < matching(rest, filter).len() {
                let k = choose|k: int| 0 <= k < rest.len() && rest[k] == matching(rest, filter)[i];
                assert(devices[k] == rest[k]);
            } else {
                assert(devices[devices.len() - 1] == devices.last());
            }
        }
    }
}

/// The names of the devices.
pub open spec fn names(devices: Seq<BluetoothDeviceView>) -> Seq<Seq<char>> {
    devices.map_values(|d: BluetoothDeviceView| d.name)
}

/// A summary describes a device by name and address.
pub open spec fn summarizes(s: DeviceSummary, d: BluetoothDeviceView) -> bool {
    s.name@ == d.name && s.address@ == d.address
}

/// What selecting from `devices` with `filter` gives: no device, no match
/// (with the filter text and the available names), the connection error of the
/// first match, or the first match with a notice that lists every match when
/// there are several.
pub open spec fn selection_matches(
    devices: Seq<BluetoothDeviceView>,
    filter: Option<Seq<char>>,
    r: Result<SelectedDevice, AppError>,
) -> bool {
    let m = matching(devices, filter);
    if devices.len() == 0 {
        r matches Err(AppError::NoDeviceFound)
    } else if m.len() == 0 {
        r matches Err(AppError::NoMatch { filter: f, available: a }) && f@ == match filter {
            Some(t) => t,
            None => Seq::<char>::empty(),
        } && a@ == join(names(devices), ", "@)
    } else {
        match spec_resolve_device_profile(m[0]) {
            Err(e) => r == Err::<SelectedDevice, AppError>(AppError::Device(e)),
            Ok(model) => if m[0].address.contains('\0') {
                r matches Err(AppError::Device(DeviceError::RfcommError(RfcommError::InvalidAddress(a))))
                    && a@ == m[0].address
            } else {
                r matches Ok(sel) && sel.device.model() == model && sel.device.address_view()
                    == m[0].address && if m.len() == 1 {
                    sel.notices@.len() == 0
                } else {
                    sel.notices@.len() == 1 && (sel.notices@[0] matches SelectionNotice::MultipleMatches {
                        matched,
                        selected,
                    } && summarizes(selected, m[0]) && matched@.len() == m.len() && forall|k: int|
                        0 <= k < m.len() ==> summarizes(#[trigger] matched@[k], m[k]))
                }
            },
        }
    }
}

pub fn summarize(device: &BluetoothDevice) -> (s: DeviceSummary)
    ensures
        summarizes(s, device@),
{
    DeviceSummary { name: device.name.clone(), address: device.address.clone() }
}

fn device_names(devices: &Vec<BluetoothDevice>) -> (r: Vec<String>)
    ensures
        strings_view(r@) == names(devices_view(devices@)),
{
    let mut r: Vec<String> = Vec::new();
    let mut i: usize = 0;
    while i < devices.len()
        invariant
            i <= devices@.len(),
            strings_view(r@) == names(devices_view(devices@)).take(i as int),
        decreases devices.len() - i,
    {
        let ghost before = r@;
        r.push(devices[i].name.clone());
        proof {
            assert(names(devices_view(devices@))[i as int] == devices@[i as int].name@);
            assert(strings_view(r@) =~= strings_view(before).push(devices@[i as int].name@));
            assert(names(devices_view(devices@)).take(i + 1) =~= names(devices_view(devices@)).take(
                i as int,
            ).push(devices@[i as int].name@));
        }
        i = i + 1;
    }
    assert(names(devices_view(devices@)).take(devices@.len() as int) =~= names(devices_view(devices@)));
    r
}

/// Picks the device that a command talks to: among the Bose devices of the
/// listing, those whose name holds the filter (compared in lowercase); the
/// first of them is used.
pub fn find_device(
    listing: Result<Vec<BluetoothDevice>, SystemProfilerError>,
    name_filter: Option<&str>,
) -> (r: Result<SelectedDevice, AppError>)
    ensures
        selection_matches(
            spec_list_bose_devices(listing_view(listing)),
            filter_view(name_filter),
            r,
        ),
{
    let devices = list_bose_devices(listing);
    let ghost devs = devices_view(devices@);
    let ghost filter = filter_view(name_filter);
    if devices.len() == 0 {
        return Err(AppError::NoDeviceFound);
    }
    let normalized_filter: Option<String> = match name_filter {
        Some(f) => Some(to_lowercase(f)),
        None => None,
    };
    let mut filtered: Vec<usize> = Vec::new();
    let mut i: usize = 0;
    assert(devs.take(0) =~= Seq::<BluetoothDeviceView>::empty());
    while i < devices.len()
        invariant
            i <= devices@.len(),
            devs == devices_view(devices@),
            filter == filter_view(name_filter),
            match name_filter {
                Some(f) => normalized_filter matches Some(n) && n@ == lowercase(f@),
                None => normalized_filter is None,
            },
            forall|k: int| 0 <= k < filtered@.len() ==> #[trigger] filtered@[k] < i,
            filtered@.map_values(|k: usize| devs[k as int]) == matching(devs.take(i as int), filter),
        decreases devices.len() - i,
    {
        let keep = match &normalized_filter {
            Some(f) => {
                let name = to_lowercase(devices[i].name.as_str());
                contains(name.as_str(), f.as_str())
            },
            None => true,
        };
        let ghost before = filtered@;
        if keep {
            filtered.push(i);
        }
        proof {
            let t = devs.take(i + 1);
            assert(t.drop_last() =~= devs.take(i as int));
            assert(t.last() == devs[i as int]);
            assert(keep == name_matches(devs[i as int].name, filter));
            if keep {
                assert(filtered@.map_values(|k: usize| devs[k as int]) =~= before.map_values(
                    |k: usize| devs[k as int],
                ).push(devs[i as int]));
            } else {
                assert(filtered@.map_values(|k: usize| devs[k as int]) =~= before.map_values(
                    |k: usize| devs[k as int],
                ));
            }
        }
        i = i + 1;
    }
    assert(devs.take(devices@.len() as int) =~= devs);
    let ghost m = matching(devs, filter);
    assert(filtered@.len() == m.len());
    if filtered.len() == 0 {
        let filter_text = match name_filter {
            Some(f) => f.to_owned(),
            None => String::new(),
        };
        let names = device_names(&devices);
        return Err(AppError::NoMatch { filter: filter_text, available: join_strings(&names, ", ") });
    }
    let first = filtered[0];
    assert(devs[first as int] == m[0]);
    let device = match connect_device(&devices[first]) {
        Ok(d) => d,
        Err(e) => {
            return Err(AppError::Device(e));
        },
    };
    if filtered.len() == 1 {
        return Ok(SelectedDevice { device, notices: Vec::new() });
    }
    let mut matched: Vec<DeviceSummary> = Vec::new();
    let mut j: usize = 0;
    while j < filtered.len()
        invariant
            j <= filtered@.len(),
            filtered@.len() == m.len(),
            devs == devices_view(devices@),
            forall|k: int| 0 <= k < filtered@.len() ==> #[trigger] filtered@[k] < devices@.len(),
            forall|k: int| 0 <= k < m.len() ==> m[k] == devs[filtered@[k] as int],
            matched@.len() == j,
            forall|k: int| 0 <= k < j ==> summarizes(#[trigger] matched@[k], m[k]),
        decreases filtered.len() - j,
    {
        matched.push(summarize(&devices[filtered[j]]));
        j = j + 1;
    }
    let selected = summarize(&devices[first]);
    let mut notices: Vec<SelectionNotice> = Vec::new();
    notices.push(SelectionNotice::MultipleMatches { matched, selected });
    Ok(SelectedDevice { device, notices })
}

/// A scan item describes a listed device and, for a known model, the model's
/// name, maximum level and capabilities.
pub open spec fn describes(item: ScanItem, d: BluetoothDeviceView) -> bool {
    &&& item.name@ == d.name
    &&& item.address@ == d.address
    &&& match spec_device_model(d) {
        None => item.product is None && item.max_level is None && item.capabilities@.len() == 0,
        Some(m) => item.product matches Some(p) && p@ == m.name_of() && item.max_level == Some(
            m.max_level_of(),
        ) && strings_view(item.capabilities@) == m.capabilities_of().map_values(
            |c| capability_name(c),
        ),
    }
}

fn scan_item(d: BluetoothDevice) -> (item: ScanItem)
    ensures
        describes(item, d@),
{
    let info = device_info(&d);
    match info {
        Some(i) => {
            let mut caps: Vec<String> = Vec::new();
            let mut k: usize = 0;
            while k < i.capabilities.len()
                invariant
                    k <= i.capabilities@.len(),
                    strings_view(caps@) == i.capabilities@.take(k as int).map_values(
                        |c| capability_name(c),
                    ),
                decreases i.capabilities.len() - k,
            {
                let ghost before = caps@;
                let c = i.capabilities[k];
                caps.push(c.as_str().to_owned());
                proof {
                    assert(strings_view(caps@) =~= strings_view(before).push(capability_name(c)));
                    assert(i.capabilities@.take(k + 1).map_values(|c| capability_name(c))
                        =~= i.capabilities@.take(k as int).map_values(|c| capability_name(c)).push(
                        capability_name(c),
                    ));
                }
                k = k + 1;
            }
            assert(i.capabilities@.take(i.capabilities@.len() as int) =~= i.capabilities@);
            ScanItem {
                name: d.name,
                address: d.address,
                product: Some(i.product_name.to_owned()),
                max_level: Some(i.max_nc_level),
                capabilities: caps,
            }
        },
        None => ScanItem {
            name: d.name,
            address: d.address,
            product: None,
            max_level: None,
            capabilities: Vec::new(),
        },
    }
}

/// The scan report: one item for each Bose device of the listing.
pub fn run_scan(listing: Result<Vec<BluetoothDevice>, SystemProfilerError>) -> (r: Report)
    ensures
        r matches Report::Scan(s) && {
            let devs = spec_list_bose_devices(listing_view(listing));
            &&& s.items@.len() == devs.len()
            &&& forall|k: int| 0 <= k < devs.len() ==> describes(#[trigger] s.items@[k], devs[k])
        },
{
    let mut devices = list_bose_devices(listing);
    let ghost devs = devices_view(devices@);
    let ghost n = devs.len();
    let mut items: Vec<ScanItem> = Vec::new();
    let ghost mut k: int = 0;
    assert(devices_view(devices@) =~= devs.skip(0));
    while devices.len() > 0
        invariant
            devs.len() == n,
            0 <= k <= n,
            devices@.len() + k == n,
            devices_view(devices@) == devs.skip(k),
            items@.len() == k,
            forall|j: int| 0 <= j < k ==> describes(#[trigger] items@[j], devs[j]),
        decreases devices.len(),
    {
        let ghost old_devices = devices@;
        let d = devices.remove(0);
        proof {
            assert(devs.skip(k)[0] == d@);
            assert forall|j: int| 0 <= j < devices@.len() implies devices_view(devices@)[j]
                == devs.skip(k + 1)[j] by {
                assert(devices@[j] == old_devices[j + 1]);
                assert(devices_view(old_devices)[j + 1] == devs.skip(k)[j + 1]);
            }
            assert(devices_view(devices@) =~= devs.skip(k + 1));
        }
        items.push(scan_item(d));
        proof {
            k = k + 1;
        }
    }
    Report::Scan(ScanReport { items })
}

/// The status report, from the transport code and response buffer of the
/// exchange that sent the selected device's status request.
pub fn run_status(selected: SelectedDevice, code: i32, buf: &[u8]) -> (r: Result<Report, AppError>)
    requires
        code_fits(code, buf@.len()),
        reply_in_domain(selected.device.model(), code, buf@),
    ensures
        match r {
            Ok(report) => report matches Report::Status(s) && s.notices == selected.notices
                && status_reply_matches(
                selected.device.model(),
                code,
                buf@,
                Ok(NcStatus { level: s.level, max_level: s.max_level, enabled: s.enabled }),
            ),
            Err(e) => e matches AppError::Device(de) && status_reply_matches(
                selected.device.model(),
                code,
                buf@,
                Err(de),
            ),
        },
{
    let status = match selected.device.get_nc_status(code, buf) {
        Ok(s) => s,
        Err(e) => {
            return Err(AppError::Device(e));
        },
    };
    Ok(
        Report::Status(
            StatusReport {
                notices: selected.notices,
                enabled: status.enabled,
                level: status.level,
                max_level: status.max_level,
            },
        ),
    )
}

/// The command that sets the selected device to `level`, or the error for a
/// level above the model's maximum.
pub fn set_transfer(selected: &SelectedDevice, level: u8) -> (r: Result<Transfer, AppError>)
    ensures
        level > selected.device.model().max_level_of() ==> (r matches Err(
            AppError::NcLevelExceeded { level: l, max, product },
        ) && l == level && max == selected.device.model().max_level_of() && product@
            == selected.device.model().name_of()),
        level <= selected.device.model().max_level_of() ==> (r matches Ok(t) && t.bytes@
            == selected.device.model().set_command(level) && t.repeat
            == selected.device.model().repeat_of()),
{
    let max = selected.device.max_nc_level();
    if level > max {
        return Err(
            AppError::NcLevelExceeded {
                level,
                max,
                product: selected.device.product_name().to_owned(),
            },
        );
    }
    Ok(selected.device.nc_set_request(level))
}

/// The set report, from the transport code of writing the set command; a
/// level above the model's maximum is refused and nothing was written.
pub fn run_set(selected: SelectedDevice, level: u8, code: i32) -> (r: Result<Report, AppError>)
    ensures
        level > selected.device.model().max_level_of() ==> (r matches Err(
            AppError::NcLevelExceeded { level: l, max, product },
        ) && l == level && max == selected.device.model().max_level_of() && product@
            == selected.device.model().name_of()),
        level <= selected.device.model().max_level_of() ==> match spec_rfcomm_result(code) {
            Ok(_) => r matches Ok(Report::SetLevel(s)) && s.notices == selected.notices && s.level
                == level,
            Err(e) => r == Err::<Report, AppError>(AppError::Device(DeviceError::RfcommError(e))),
        },
{
    let max = selected.device.max_nc_level();
    if level > max {
        return Err(
            AppError::NcLevelExceeded {
                level,
                max,
                product: selected.device.product_name().to_owned(),
            },
        );
    }
    match selected.device.set_nc(code) {
        Ok(()) => Ok(Report::SetLevel(SetReport { notices: selected.notices, level })),
        Err(e) => Err(AppError::Device(e)),
    }
}

/// The command that disables noise cancellation on the selected device, or
/// the error for a model that has none.
pub fn off_transfer(selected: &SelectedDevice) -> (r: Result<Transfer, AppError>)
    ensures
        match selected.device.model().off_command() {
            Some(c) => r matches Ok(t) && t.bytes@ == c && t.repeat
                == selected.device.model().repeat_of(),
            None => r == Err::<Transfer, AppError>(AppError::Device(DeviceError::NcDisableNotSupported)),
        },
{
    match selected.device.nc_off_request() {
        Ok(t) => Ok(t),
        Err(e) => Err(AppError::Device(e)),
    }
}

/// The off report, from the transport code of writing the off command; a
/// model without an off command is refused and nothing was written.
pub fn run_off(selected: SelectedDevice, code: i32) -> (r: Result<Report, AppError>)
    ensures
        selected.device.model().off_command() is None ==> r == Err::<Report, AppError>(
            AppError::Device(DeviceError::NcDisableNotSupported),
        ),
        selected.device.model().off_command() is Some ==> match spec_rfcomm_result(code) {
            Ok(_) => r matches Ok(Report::Off(s)) && s.notices == selected.notices,
            Err(e) => r == Err::<Report, AppError>(AppError::Device(DeviceError::RfcommError(e))),
        },
{
    match selected.device.disable_nc(code) {
        Ok(()) => Ok(Report::Off(OffReport { notices: selected.notices })),
        Err(e) => Err(AppError::Device(e)),
    }
}

} // verus!
