//! Audio devices: what is shown of them and which is meant.

use crate::util::text;
use vstd::prelude::*;

verus! {

/// What a device without a name is called.
pub const UNKNOWN_INPUT_DEVICE: &'static str = "Unknown input device";

/// What a device without a name is called.
pub const UNKNOWN_OUTPUT_DEVICE: &'static str = "Unknown output device";

/// The driver that makes the virtual cable.
pub const VIRTUAL_CABLE_DRIVER: &'static str = "VB-CABLE";

/// What is known of a device.
#[derive(Debug)]
pub struct DeviceDescriptor {
    pub name: String,
    pub default_channels: Option<u16>,
    pub default_sample_rate_hz: Option<u32>,
}

impl Clone for DeviceDescriptor {
    fn clone(&self) -> (r: Self)
        ensures
            r == *self,
    {
        DeviceDescriptor {
            name: self.name.clone(),
            default_channels: self.default_channels,
            default_sample_rate_hz: self.default_sample_rate_hz,
        }
    }
}

impl DeviceDescriptor {
    pub open spec fn spec_summary(self) -> Seq<char> {
        match (self.default_channels, self.default_sample_rate_hz) {
            (Some(channels), Some(rate)) => self.name@ + " ("@ + text::decimal(channels as nat)
                + " ch / "@ + text::decimal(rate as nat) + " Hz)"@,
            _ => self.name@,
        }
    }

    /// The name of the device, with its default format where that is known.
    pub fn summary(&self) -> (r: String)
        ensures
            r@ == self.spec_summary(),
    {
        match (self.default_channels, self.default_sample_rate_hz) {
            (Some(channels), Some(rate)) => {
                let channel_text = text::decimal_text(channels as u64);
                let rate_text = text::decimal_text(rate as u64);
                let mut summary = text::joined3(self.name.as_str(), " (", channel_text.as_str());
                summary.append(" ch / ");
                summary.append(rate_text.as_str());
                summary.append(" Hz)");
                summary
            },
            _ => self.name.clone(),
        }
    }
}

/// A device by its name and default format, as far as they could be had.
pub fn describe_device(
    name: Option<String>,
    unknown: &str,
    default_format: Option<(u16, u32)>,
) -> (r: DeviceDescriptor)
    ensures
        r.name@ == match name {
            Some(known) => known@,
            None => unknown@,
        },
        r.default_channels == match default_format {
            Some((channels, _)) => Some(channels),
            None => None,
        },
        r.default_sample_rate_hz == match default_format {
            Some((_, rate)) => Some(rate),
            None => None,
        },
{
    let name = match name {
        Some(known) => known,
        None => unknown.to_owned(),
    };
    match default_format {
        Some((channels, rate)) => DeviceDescriptor {
            name,
            default_channels: Some(channels),
            default_sample_rate_hz: Some(rate),
        },
        None => DeviceDescriptor { name, default_channels: None, default_sample_rate_hz: None },
    }
}

/// The two ends of a virtual cable.
#[derive(Debug)]
pub struct VirtualCableRoute {
    pub driver_name: &'static str,
    pub playback_device_name: String,
    pub recording_device_name: String,
}

impl Clone for VirtualCableRoute {
    fn clone(&self) -> (r: Self)
        ensures
            r == *self,
    {
        VirtualCableRoute {
            driver_name: self.driver_name,
            playback_device_name: self.playback_device_name.clone(),
            recording_device_name: self.recording_device_name.clone(),
        }
    }
}

/// The devices that there are.
#[derive(Debug, Clone)]
pub struct DeviceInventory {
    pub host_name: String,
    pub input_devices: Vec<DeviceDescriptor>,
    pub output_devices: Vec<DeviceDescriptor>,
    pub virtual_cable_route: Option<VirtualCableRoute>,
}

impl Default for DeviceInventory {
    fn default() -> (r: Self)
        ensures
            r.host_name@ == Seq::<char>::empty(),
            r.input_devices@.len() == 0,
            r.output_devices@.len() == 0,
            r.virtual_cable_route is None,
    {
        DeviceInventory {
            host_name: String::new(),
            input_devices: Vec::new(),
            output_devices: Vec::new(),
            virtual_cable_route: None,
        }
    }
}

/// A name as it is compared: trimmed, ASCII letters in lower case.
pub open spec fn match_form(name: Seq<char>) -> Seq<char> {
    text::lowered(text::trimmed(name))
}

/// A name as it is compared.
pub fn normalize_for_match(name: &str) -> (r: String)
    ensures
        r@ == match_form(name@),
{
    let trimmed = text::trim_text(name);
    text::lower_text(trimmed.as_str())
}

/// Whether a name is that of one end of the cable: the maker, the cable, and the
/// word for the end.
pub open spec fn is_cable_end(name: Seq<char>, end: Seq<char>) -> bool {
    let form = match_form(name);
    text::occurs_in(form, "vb-audio"@) && text::occurs_in(form, "cable"@) && text::occurs_in(
        form,
        end,
    )
}

fn names_cable_end(name: &str, end: &str) -> (r: bool)
    ensures
        r == is_cable_end(name@, end@),
{
    let form = normalize_for_match(name);
    text::text_occurs_in(form.as_str(), "vb-audio") && text::text_occurs_in(form.as_str(), "cable")
        && text::text_occurs_in(form.as_str(), end)
}

/// Whether an output device is the playback end of the cable.
pub fn is_vb_cable_playback_device(name: &str) -> (r: bool)
    ensures
        r == is_cable_end(name@, "input"@),
{
    names_cable_end(name, "input")
}

/// Whether an input device is the recording end of the cable.
pub fn is_vb_cable_recording_device(name: &str) -> (r: bool)
    ensures
        r == is_cable_end(name@, "output"@),
{
    names_cable_end(name, "output")
}

/// The first device that is this end of the cable, or as many as there are.
pub open spec fn first_cable_end(devices: Seq<DeviceDescriptor>, end: Seq<char>, from: int) -> int
    decreases devices.len() - from,
{
    if from >= devices.len() || is_cable_end(devices[from].name@, end) {
        from
    } else {
        first_cable_end(devices, end, from + 1)
    }
}

fn find_cable_end(devices: &Vec<DeviceDescriptor>, end: &str) -> (r: usize)
    ensures
        r == first_cable_end(devices@, end@, 0),
        r <= devices@.len(),
{
    let mut i: usize = 0;
    while i < devices.len() && !names_cable_end(devices[i].name.as_str(), end)
        invariant
            i <= devices.len(),
            first_cable_end(devices@, end@, i as int) == first_cable_end(devices@, end@, 0),
        decreases devices.len() - i,
    {
        i = i + 1;
    }
    i
}

/// Whether `route` is the cable among these devices: there where both ends are,
/// made of the first device for each end.
pub open spec fn is_route_among(
    route: Option<VirtualCableRoute>,
    inputs: Seq<DeviceDescriptor>,
    outputs: Seq<DeviceDescriptor>,
) -> bool {
    let playback = first_cable_end(outputs, "input"@, 0);
    let recording = first_cable_end(inputs, "output"@, 0);
    match route {
        Some(found) => {
            &&& playback < outputs.len()
            &&& recording < inputs.len()
            &&& found.driver_name@ == VIRTUAL_CABLE_DRIVER@
            &&& found.playback_device_name == outputs[playback].name
            &&& found.recording_device_name == inputs[recording].name
        },
        None => playback >= outputs.len() || recording >= inputs.len(),
    }
}

/// Looks for the virtual cable among the devices.
pub fn detect_virtual_cable_route(
    input_devices: &Vec<DeviceDescriptor>,
    output_devices: &Vec<DeviceDescriptor>,
) -> (r: Option<VirtualCableRoute>)
    ensures
        is_route_among(r, input_devices@, output_devices@),
{
    let playback = find_cable_end(output_devices, "input");
    if playback >= output_devices.len() {
        return None;
    }
    let recording = find_cable_end(input_devices, "output");
    if recording >= input_devices.len() {
        return None;
    }
    Some(
        VirtualCableRoute {
            driver_name: VIRTUAL_CABLE_DRIVER,
            playback_device_name: output_devices[playback].name.clone(),
            recording_device_name: input_devices[recording].name.clone(),
        },
    )
}

/// Takes stock of the devices that a host listed.
pub fn enumerate_audio_devices(
    host_name: String,
    input_devices: Vec<DeviceDescriptor>,
    output_devices: Vec<DeviceDescriptor>,
) -> (r: DeviceInventory)
    ensures
        r.host_name == host_name,
        r.input_devices == input_devices,
        r.output_devices == output_devices,
        is_route_among(r.virtual_cable_route, input_devices@, output_devices@),
{
    let virtual_cable_route = detect_virtual_cable_route(&input_devices, &output_devices);
    DeviceInventory { host_name, input_devices, output_devices, virtual_cable_route }
}

/// The name of a chosen device, trimmed; none where nothing is left.
pub fn normalize_device_name(name: Option<&str>) -> (r: Option<String>)
    ensures
        match name {
            Some(given) => if text::trimmed(given@).len() == 0 {
                r is None
            } else {
                r matches Some(kept) && kept@ == text::trimmed(given@)
            },
            None => r is None,
        },
{
    match name {
        Some(given) => {
            let trimmed = text::trim_text(given);
            if trimmed.as_str().is_empty() {
                None
            } else {
                Some(trimmed)
            }
        },
        None => None,
    }
}

/// Which device is meant.
#[derive(Debug, PartialEq, Eq)]
pub enum DeviceChoice {
    /// The default device.
    Default,
    /// The device at this place in the list.
    At { position: usize },
    /// A device that is not there.
    Missing { name: String },
}

/// The first device of this name, or as many as there are. A device may have no
/// name.
pub open spec fn first_named(names: Seq<Option<String>>, name: Seq<char>, from: int) -> int
    decreases names.len() - from,
{
    if from >= names.len() || (names[from] matches Some(known) && known@ == name) {
        from
    } else {
        first_named(names, name, from + 1)
    }
}

/// Tells which of the listed devices a chosen name means. Nothing chosen means
/// the default device.
pub fn find_device(name: Option<&str>, names: &Vec<Option<String>>) -> (r: DeviceChoice)
    ensures
        match r {
            DeviceChoice::Default => match name {
                Some(given) => text::trimmed(given@).len() == 0,
                None => true,
            },
            DeviceChoice::At { position } => {
                &&& name matches Some(given)
                &&& text::trimmed(given@).len() > 0
                &&& position == first_named(names@, text::trimmed(given@), 0)
                &&& position < names@.len()
            },
            DeviceChoice::Missing { name: wanted } => {
                &&& name matches Some(given)
                &&& text::trimmed(given@).len() > 0
                &&& wanted@ == text::trimmed(given@)
                &&& first_named(names@, text::trimmed(given@), 0) == names@.len()
            },
        },
{
    let wanted = match normalize_device_name(name) {
        Some(wanted) => wanted,
        None => {
            return DeviceChoice::Default;
        },
    };
    let mut i: usize = 0;
    while i < names.len()
        invariant
            i <= names.len(),
            name matches Some(given) && text::trimmed(given@).len() > 0 && wanted@
                == text::trimmed(given@),
            first_named(names@, wanted@, i as int) == first_named(names@, wanted@, 0),
        decreases names.len() - i,
    {
        let same = match &names[i] {
            Some(known) => *known == wanted,
            None => false,
        };
        if same {
            return DeviceChoice::At { position: i };
        }
        i = i + 1;
    }
    DeviceChoice::Missing { name: wanted }
}

/// Padding and capital letters do not matter when the cable is looked for.
pub proof fn cable_name_may_be_padded(name: Seq<char>, end: Seq<char>)
    ensures
        is_cable_end(text::trimmed(name), end) == is_cable_end(name, end),
        is_cable_end(text::lowered(name), end) == is_cable_end(name, end),
{
    text::lemma_trimmed_twice(name);
    text::lemma_lowered_trimmed(name);
    text::lemma_lowered_twice(text::trimmed(name));
}

proof fn lemma_first_cable_end(devices: Seq<DeviceDescriptor>, end: Seq<char>, from: int)
    requires
        0 <= from <= devices.len(),
    ensures
        from <= first_cable_end(devices, end, from) <= devices.len(),
        first_cable_end(devices, end, from) < devices.len() ==> is_cable_end(
            devices[first_cable_end(devices, end, from)].name@,
            end,
        ),
        forall|i: int|
            from <= i < first_cable_end(devices, end, from) ==> !is_cable_end(
                (#[trigger] devices[i]).name@,
                end,
            ),
    decreases devices.len() - from,
{
    if from < devices.len() && !is_cable_end(devices[from].name@, end) {
        lemma_first_cable_end(devices, end, from + 1);
    }
}

/// There is a cable exactly where an output device is its playback end and an input device is its
/// recording end; each end is the first such device.
pub proof fn cable_needs_both_ends(
    route: Option<VirtualCableRoute>,
    inputs: Seq<DeviceDescriptor>,
    outputs: Seq<DeviceDescriptor>,
)
    requires
        is_route_among(route, inputs, outputs),
    ensures
        route is Some <==> (exists|i: int|
            0 <= i < outputs.len() && is_cable_end((#[trigger] outputs[i]).name@, "input"@)) && (
        exists|j: int|
            0 <= j < inputs.len() && is_cable_end((#[trigger] inputs[j]).name@, "output"@)),
        route matches Some(found) ==> found.driver_name@ == "VB-CABLE"@,
        route matches Some(found) ==> exists|i: int|
            {
                &&& 0 <= i < outputs.len()
                &&& found.playback_device_name == (#[trigger] outputs[i]).name
                &&& is_cable_end(outputs[i].name@, "input"@)
                &&& forall|k: int|
                    0 <= k < i ==> !is_cable_end((#[trigger] outputs[k]).name@, "input"@)
            },
        route matches Some(found) ==> exists|j: int|
            {
                &&& 0 <= j < inputs.len()
                &&& found.recording_device_name == (#[trigger] inputs[j]).name
                &&& is_cable_end(inputs[j].name@, "output"@)
                &&& forall|k: int|
                    0 <= k < j ==> !is_cable_end((#[trigger] inputs[k]).name@, "output"@)
            },
{
    lemma_first_cable_end(outputs, "input"@, 0);
    lemma_first_cable_end(inputs, "output"@, 0);
    let playback = first_cable_end(outputs, "input"@, 0);
    let recording = first_cable_end(inputs, "output"@, 0);
    if playback < outputs.len() {
        assert(is_cable_end(outputs[playback].name@, "input"@));
    }
    if recording < inputs.len() {
        assert(is_cable_end(inputs[recording].name@, "output"@));
    }
}

/// A device is an end of the cable exactly where its name, trimmed and in lower case, holds the
/// maker, the cable and the word for the end.
pub proof fn cable_ends_are_told_by_three_words(name: Seq<char>, end: Seq<char>)
    ensures
        is_cable_end(name, end) <==> {
            let form = text::lowered(text::trimmed(name));
            text::occurs_in(form, "vb-audio"@) && text::occurs_in(form, "cable"@)
                && text::occurs_in(form, end)
        },
{
}

/// The device that is meant is the first of that name.
pub proof fn first_device_of_a_name_counts(names: Seq<Option<String>>, name: Seq<char>, from: int)
    requires
        0 <= from <= names.len(),
    ensures
        from <= first_named(names, name, from) <= names.len(),
        first_named(names, name, from) < names.len() ==> (names[first_named(names, name, from)]
            matches Some(known) && known@ == name),
        forall|i: int|
            from <= i < first_named(names, name, from) ==> !((#[trigger] names[i])
                matches Some(known) && known@ == name),
    decreases names.len() - from,
{
    if from < names.len() && !(names[from] matches Some(known) && known@ == name) {
        first_device_of_a_name_counts(names, name, from + 1);
    }
}

} // verus!
