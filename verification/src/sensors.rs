//! Sensor readings of cooling devices, gathered from the status of each
//! device and sorted into sections by their unit.

use vstd::prelude::*;
use crate::text::str_equal;

verus! {

/// `serde_json::Value`, the value of a sensor: it is carried from the status
/// to the sensor and never looked into.
#[verifier::external_type_specification]
#[verifier::external_body]
pub struct ExJsonValue(serde_json::Value);

/// One item of a device's status: a key, a value and a unit.
pub struct Triple(pub String, pub serde_json::Value, pub String);

/// The status of one device.
pub struct Status {
    pub bus: String,
    pub address: String,
    pub description: String,
    pub status: Vec<Triple>,
}

/// One sensor together with what is known of its device.
pub struct Sensor<'a> {
    pub bus: &'a str,
    pub address: &'a str,
    pub description: &'a str,
    pub key: &'a str,
    pub value: &'a serde_json::Value,
    pub unit: &'a str,
}

/// A sensor as plain values.
pub struct SensorView {
    pub bus: Seq<char>,
    pub address: Seq<char>,
    pub description: Seq<char>,
    pub key: Seq<char>,
    pub value: serde_json::Value,
    pub unit: Seq<char>,
}

impl<'a> View for Sensor<'a> {
    type V = SensorView;

    open spec fn view(&self) -> SensorView {
        SensorView {
            bus: self.bus@,
            address: self.address@,
            description: self.description@,
            key: self.key@,
            value: *self.value,
            unit: self.unit@,
        }
    }
}

/// The views of a list of sensors.
pub open spec fn views(sensors: Seq<Sensor<'_>>) -> Seq<SensorView> {
    Seq::new(sensors.len(), |k: int| sensors[k]@)
}

/// The sensor that item `item` of `device` stands for.
pub open spec fn sensor_of(device: Status, item: int) -> SensorView {
    SensorView {
        bus: device.bus@,
        address: device.address@,
        description: device.description@,
        key: device.status@[item].0@,
        value: device.status@[item].1,
        unit: device.status@[item].2@,
    }
}

/// The sensors of the first `items` items of `device`.
pub open spec fn device_sensors(device: Status, items: int) -> Seq<SensorView> {
    Seq::new(items as nat, |t: int| sensor_of(device, t))
}

/// The sensors of the first `devices` of `statuses`: device by device, and
/// within a device in the order of its items.
pub open spec fn all_sensors(statuses: Seq<Status>, devices: int) -> Seq<SensorView>
    decreases devices,
{
    if devices <= 0 {
        Seq::empty()
    } else {
        all_sensors(statuses, devices - 1) + device_sensors(
            statuses[devices - 1],
            statuses[devices - 1].status@.len() as int,
        )
    }
}

/// The number of sections.
pub const SECTIONS: usize = 7;

/// The name of section `section`.
pub open spec fn name_of(section: int) -> Seq<char> {
    if section == 0 {
        "Temperature"@
    } else if section == 1 {
        "Fan/pump speed"@
    } else if section == 2 {
        "Fan/pump duty cycle"@
    } else if section == 3 {
        "Voltage"@
    } else if section == 4 {
        "Current"@
    } else if section == 5 {
        "Power"@
    } else {
        "Other"@
    }
}

/// The unit that section `section` gathers, for the six sections that have
/// one.
pub open spec fn unit_of(section: int) -> Seq<char> {
    if section == 0 {
        "°C"@
    } else if section == 1 {
        "rpm"@
    } else if section == 2 {
        "%"@
    } else if section == 3 {
        "V"@
    } else if section == 4 {
        "A"@
    } else {
        "W"@
    }
}

/// Whether a sensor of unit `unit` belongs to section `section`: to the
/// section of its unit if there is one, and to the last section otherwise.
pub open spec fn in_section(section: int, unit: Seq<char>) -> bool {
    if 0 <= section < 6 {
        unit == unit_of(section)
    } else {
        forall|s: int| 0 <= s < 6 ==> unit != #[trigger] unit_of(s)
    }
}

/// Whether a sensor of unit `unit` is asked for: any is, unless one unit was
/// asked for.
pub open spec fn wanted(unit: Seq<char>, with_unit: Option<Seq<char>>) -> bool {
    match with_unit {
        Some(only) => unit == only,
        None => true,
    }
}

/// The unit that was asked for, as plain characters.
pub open spec fn asked_unit(with_unit: Option<String>) -> Option<Seq<char>> {
    match with_unit {
        Some(only) => Some(only@),
        None => None,
    }
}

/// Those of the first `upto` of `sensors` that are asked for and belong to
/// `section`, in order.
pub open spec fn members(
    sensors: Seq<SensorView>,
    with_unit: Option<Seq<char>>,
    section: int,
    upto: int,
) -> Seq<SensorView>
    decreases upto,
{
    if upto <= 0 {
        Seq::empty()
    } else {
        let before = members(sensors, with_unit, section, upto - 1);
        let unit = sensors[upto - 1].unit;
        if wanted(unit, with_unit) && in_section(section, unit) {
            before.push(sensors[upto - 1])
        } else {
            before
        }
    }
}

/// The first `upto` sections that have members, each with its number and its
/// members.
pub open spec fn shown(sensors: Seq<SensorView>, with_unit: Option<Seq<char>>, upto: int) -> Seq<
    (int, Seq<SensorView>),
>
    decreases upto,
{
    if upto <= 0 {
        Seq::empty()
    } else {
        let before = shown(sensors, with_unit, upto - 1);
        let found = members(sensors, with_unit, upto - 1, sensors.len() as int);
        if found.len() > 0 {
            before.push((upto - 1, found))
        } else {
            before
        }
    }
}

/// One section of the output: its name and the sensors under it.
pub struct Section<'a> {
    pub name: &'static str,
    pub sensors: Vec<Sensor<'a>>,
}

/// The sections of a list as plain values: name and members.
pub open spec fn section_views(sections: Seq<Section<'_>>) -> Seq<(Seq<char>, Seq<SensorView>)> {
    Seq::new(sections.len(), |k: int| (sections[k].name@, views(sections[k].sensors@)))
}

/// What [`shown`] lists, with each section's name in place of its number.
pub open spec fn named(listed: Seq<(int, Seq<SensorView>)>) -> Seq<(Seq<char>, Seq<SensorView>)> {
    Seq::new(listed.len(), |k: int| (name_of(listed[k].0), listed[k].1))
}

/// The name of a section.
pub fn section_name(section: usize) -> (name: &'static str)
    ensures
        name@ == name_of(section as int),
{
    if section == 0 {
        "Temperature"
    } else if section == 1 {
        "Fan/pump speed"
    } else if section == 2 {
        "Fan/pump duty cycle"
    } else if section == 3 {
        "Voltage"
    } else if section == 4 {
        "Current"
    } else if section == 5 {
        "Power"
    } else {
        "Other"
    }
}

/// The unit of one of the six sections that have one.
pub fn section_unit(section: usize) -> (unit: &'static str)
    ensures
        unit@ == unit_of(section as int),
{
    if section == 0 {
        "°C"
    } else if section == 1 {
        "rpm"
    } else if section == 2 {
        "%"
    } else if section == 3 {
        "V"
    } else if section == 4 {
        "A"
    } else {
        "W"
    }
}

/// Whether a sensor of unit `unit` belongs to `section`.
pub fn belongs(section: usize, unit: &str) -> (belongs: bool)
    ensures
        belongs == in_section(section as int, unit@),
{
    if section < 6 {
        str_equal(unit, section_unit(section))
    } else {
        let mut s: usize = 0;
        while s < 6
            invariant
                s <= 6,
                section >= 6,
                forall|k: int| 0 <= k < s ==> unit@ != #[trigger] unit_of(k),
            decreases 6 - s,
        {
            if str_equal(unit, section_unit(s)) {
                assert(unit@ == unit_of(s as int));
                return false;
            }
            s = s + 1;
        }
        true
    }
}

/// The sensors of all devices, each with what is known of its device.
pub fn sensors<'a>(statuses: &'a [Status]) -> (found: Vec<Sensor<'a>>)
    ensures
        views(found@) == all_sensors(statuses@, statuses@.len() as int),
{
    let mut found: Vec<Sensor<'a>> = Vec::new();
    let mut d: usize = 0;
    while d < statuses.len()
        invariant
            d <= statuses@.len(),
            views(found@) =~= all_sensors(statuses@, d as int),
        decreases statuses@.len() - d,
    {
        let dev = &statuses[d];
        let ghost before = views(found@);
        let mut t: usize = 0;
        while t < dev.status.len()
            invariant
                t <= dev.status@.len(),
                views(found@) =~= before + device_sensors(*dev, t as int),
            decreases dev.status@.len() - t,
        {
            let item = &dev.status[t];
            let ghost listed = views(found@);
            found.push(
                Sensor {
                    bus: dev.bus.as_str(),
                    address: dev.address.as_str(),
                    description: dev.description.as_str(),
                    key: item.0.as_str(),
                    value: &item.1,
                    unit: item.2.as_str(),
                },
            );
            assert(views(found@) =~= listed.push(sensor_of(*dev, t as int)));
            t = t + 1;
        }
        d = d + 1;
    }
    found
}

/// Sorts the sensors into sections, to be shown in this order. Only the
/// sensors of the unit asked for are taken, or all of them where none was
/// asked for. A section without sensors is left out.
pub fn show_in_sections<'a>(statuses: &'a [Status], with_unit: &Option<String>) -> (sections: Vec<
    Section<'a>,
>)
    ensures
        section_views(sections@) == named(
            shown(
                all_sensors(statuses@, statuses@.len() as int),
                asked_unit(*with_unit),
                SECTIONS as int,
            ),
        ),
{
    let ghost all = all_sensors(statuses@, statuses@.len() as int);
    let ghost only: Option<Seq<char>> = asked_unit(*with_unit);
    let mut sections: Vec<Section<'a>> = Vec::new();
    let mut s: usize = 0;
    while s < SECTIONS
        invariant
            s <= SECTIONS,
            all == all_sensors(statuses@, statuses@.len() as int),
            only == asked_unit(*with_unit),
            section_views(sections@) =~= named(shown(all, only, s as int)),
        decreases SECTIONS - s,
    {
        let every = sensors(statuses);
        let mut chosen: Vec<Sensor<'a>> = Vec::new();
        let mut k: usize = 0;
        while k < every.len()
            invariant
                k <= every@.len(),
                views(every@) == all,
                only == asked_unit(*with_unit),
                views(chosen@) =~= members(all, only, s as int, k as int),
            decreases every@.len() - k,
        {
            let sensor = &every[k];
            assert(sensor@ == all[k as int]);
            let asked = match with_unit {
                Some(only_unit) => str_equal(sensor.unit, only_unit.as_str()),
                None => true,
            };
            let ghost picked = views(chosen@);
            if asked && belongs(s, sensor.unit) {
                chosen.push(
                    Sensor {
                        bus: sensor.bus,
                        address: sensor.address,
                        description: sensor.description,
                        key: sensor.key,
                        value: sensor.value,
                        unit: sensor.unit,
                    },
                );
                assert(views(chosen@) =~= picked.push(all[k as int]));
            }
            k = k + 1;
        }
        assert(every@.len() == all.len());
        let ghost listed = section_views(sections@);
        let ghost found = views(chosen@);
        if chosen.len() > 0 {
            sections.push(Section { name: section_name(s), sensors: chosen });
            assert(section_views(sections@) =~= listed.push((name_of(s as int), found)));
        }
        s = s + 1;
    }
    sections
}

/// Whether a device is asked for: its bus and its address are those asked
/// for, as far as any were.
pub fn selects(status: &Status, bus: &Option<String>, address: &Option<String>) -> (selected: bool)
    ensures
        selected == ((bus matches Some(b) ==> b@ == status.bus@) && (address matches Some(a)
            ==> a@ == status.address@)),
{
    let bus_fits = match bus {
        Some(b) => str_equal(b.as_str(), status.bus.as_str()),
        None => true,
    };
    let address_fits = match address {
        Some(a) => str_equal(a.as_str(), status.address.as_str()),
        None => true,
    };
    bus_fits && address_fits
}

} // verus!
