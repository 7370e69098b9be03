use serde_json::Value;
use snippets::sensors::{belongs, selects, sensors, show_in_sections, Status, Triple};
use snippets::zipf::find_words;

fn triple(key: &str, value: i64, unit: &str) -> Triple {
    Triple(String::from(key), Value::from(value), String::from(unit))
}

fn devices() -> Vec<Status> {
    vec![
        Status {
            bus: String::from("hid"),
            address: String::from("/dev/hidraw0"),
            description: String::from("Cooler"),
            status: vec![
                triple("Liquid temperature", 30, "°C"),
                triple("Fan speed", 900, "rpm"),
                triple("Firmware", 2, ""),
            ],
        },
        Status {
            bus: String::from("usb"),
            address: String::from("1:2"),
            description: String::from("Supply"),
            status: vec![triple("+12V", 12, "V"), triple("Case temperature", 41, "°C")],
        },
    ]
}

#[test]
fn sensors_come_device_by_device() {
    let statuses = devices();
    let all = sensors(&statuses);
    let keys: Vec<&str> = all.iter().map(|s| s.key).collect();
    assert_eq!(keys, vec!["Liquid temperature", "Fan speed", "Firmware", "+12V", "Case temperature"]);
    assert_eq!(all[3].bus, "usb");
    assert_eq!(all[3].address, "1:2");
    assert_eq!(all[3].description, "Supply");
    assert_eq!(all[3].value, &Value::from(12));
    assert_eq!(all[3].unit, "V");
    assert!(sensors(&[]).is_empty());
}

#[test]
fn sections_keep_their_order_and_drop_out_when_empty() {
    let statuses = devices();
    let sections = show_in_sections(&statuses, &None);
    let shown: Vec<(&str, Vec<&str>)> = sections
        .iter()
        .map(|s| (s.name, s.sensors.iter().map(|x| x.key).collect()))
        .collect();
    assert_eq!(
        shown,
        vec![
            ("Temperature", vec!["Liquid temperature", "Case temperature"]),
            ("Fan/pump speed", vec!["Fan speed"]),
            ("Voltage", vec!["+12V"]),
            ("Other", vec!["Firmware"]),
        ]
    );
}

#[test]
fn sections_take_only_the_unit_asked_for() {
    let statuses = devices();
    let sections = show_in_sections(&statuses, &Some(String::from("°C")));
    assert_eq!(sections.len(), 1);
    assert_eq!(sections[0].name, "Temperature");
    assert_eq!(sections[0].sensors.len(), 2);
    assert!(show_in_sections(&statuses, &Some(String::from("W"))).is_empty());
    let other = show_in_sections(&statuses, &Some(String::new()));
    assert_eq!(other.len(), 1);
    assert_eq!(other[0].name, "Other");
}

#[test]
fn units_belong_to_one_section() {
    let units = ["°C", "rpm", "%", "V", "A", "W"];
    for (section, unit) in units.iter().enumerate() {
        for other in 0..7 {
            assert_eq!(belongs(other, unit), other == section);
        }
    }
    assert!(belongs(6, "dB"));
    assert!(!belongs(0, "dB"));
}

#[test]
fn devices_are_selected_by_bus_and_address() {
    let statuses = devices();
    assert!(selects(&statuses[0], &None, &None));
    assert!(selects(&statuses[0], &Some(String::from("hid")), &None));
    assert!(!selects(&statuses[0], &Some(String::from("usb")), &None));
    assert!(selects(&statuses[1], &Some(String::from("usb")), &Some(String::from("1:2"))));
    assert!(!selects(&statuses[1], &Some(String::from("usb")), &Some(String::from("1:3"))));
}

#[test]
fn splits_words() {
    let input = "foo. bar BAZ foo' bar BAZ";
    let mut left = find_words(input);
    let mut right = vec!["foo", "bar", "BAZ", "foo", "bar", "BAZ"];

    left.sort();
    right.sort();

    assert_eq!(left, right);
}

#[test]
fn words_come_in_order() {
    assert_eq!(find_words("  one,two;;3rd  "), vec!["one", "two", "3rd"]);
    assert_eq!(find_words("über-größe"), vec!["über", "größe"]);
    assert!(find_words("").is_empty());
    assert!(find_words(" .,;").is_empty());
}
