use tymnl::device::DeviceInputs;
use tymnl::reply::{
    display_reply, file_name_text, forwarded_proto, image_url_text, Request,
};
use tymnl::table::Table;

fn json(inputs: &DeviceInputs) -> String {
    let mut map = Table::new();
    inputs.insert_into(&mut map);
    map.get("tymnl-internal").unwrap().clone()
}

fn request(header: Option<&[u8]>) -> Request {
    Request {
        mac: "AA:BB".to_string(),
        host: "panel.local".to_string(),
        forwarded_proto: header.map(|h| h.to_vec()),
        battery: 50,
    }
}

#[test]
fn devices_are_described_in_json() {
    let inputs = DeviceInputs::new_at("weather", 87, "kitchen", "Europe/Berlin", 1_711_846_800);
    assert_eq!(inputs.screen_name, "weather");
    assert_eq!(inputs.battery_percentage, "87");
    assert_eq!(inputs.id, "kitchen");
    assert_eq!(inputs.next_update_at, "03:00");
    assert_eq!(
        json(&inputs),
        "{\"screen-name\":\"weather\",\"battery-percentage\":\"87\",\"id\":\"kitchen\",\
         \"next-update-at\":\"03:00\"}"
    );
}

#[test]
fn json_reads_back() {
    for text in [
        "",
        "plain",
        "quote \" and \\ solidus /",
        "\u{8}\u{9}\u{a}\u{c}\u{d}",
        "\u{0}\u{1}\u{b}\u{f}\u{10}\u{1b}\u{1f}",
        "\u{7f}\u{80}\u{e9}\u{2028}\u{1f600}",
    ] {
        let inputs = DeviceInputs {
            screen_name: text.to_string(),
            battery_percentage: "1".to_string(),
            id: text.to_string(),
            next_update_at: "2".to_string(),
        };
        let value: serde_json::Value = serde_json::from_str(&json(&inputs)).unwrap();
        let object = value.as_object().unwrap();
        assert_eq!(object.len(), 4);
        assert_eq!(object["screen-name"], text);
        assert_eq!(object["battery-percentage"], "1");
        assert_eq!(object["id"], text);
        assert_eq!(object["next-update-at"], "2");
    }
}

#[test]
fn json_escapes_what_it_must() {
    let inputs = DeviceInputs {
        screen_name: "\u{1}\u{1f}\"\\\n\t\r\u{8}\u{c}\u{7f}\u{e9}/".to_string(),
        battery_percentage: String::new(),
        id: String::new(),
        next_update_at: String::new(),
    };
    assert_eq!(
        json(&inputs),
        "{\"screen-name\":\"\\u0001\\u001f\\\"\\\\\\n\\t\\r\\b\\f\u{7f}\u{e9}/\",\
         \"battery-percentage\":\"\",\"id\":\"\",\"next-update-at\":\"\"}"
    );
}

#[test]
fn different_devices_are_described_differently() {
    let one = DeviceInputs::new_at("a\",\"id\":\"b", 1, "c", "UTC", 0);
    let two = DeviceInputs::new_at("a", 1, "b\",\"id\":\"c", "UTC", 0);
    assert_ne!(json(&one), json(&two));
}

#[test]
fn devices_are_described_now() {
    let inputs = DeviceInputs::new("Setup", 0, "id", "nowhere");
    assert_eq!(inputs.battery_percentage, "0");
    assert_eq!(inputs.next_update_at.len(), 5);
    assert_eq!(&inputs.next_update_at[2..3], ":");
}

#[test]
fn descriptions_replace_inputs_of_their_name() {
    let mut map = Table::new();
    map.insert("tymnl-internal".to_string(), "mine".to_string());
    map.insert("x".to_string(), "y".to_string());
    DeviceInputs::new_at("s", 1, "i", "UTC", 0).insert_into(&mut map);
    assert_eq!(map.entries().len(), 2);
    assert!(map.get("tymnl-internal").unwrap().starts_with('{'));
    assert_eq!(map.get("x").unwrap(), "y");
}

#[test]
fn the_first_forwarded_protocol_counts() {
    for (header, protocol) in [
        ("https", "https"),
        ("https,http", "https"),
        (" https , http", "https"),
        ("\thttps", "https"),
        ("", ""),
        (",https", ""),
        ("a b", "a b"),
    ] {
        assert_eq!(forwarded_proto(&Some(header.as_bytes().to_vec())), protocol);
    }
    assert_eq!(forwarded_proto(&None), "http");
}

#[test]
fn headers_that_are_no_text_do_not_count() {
    for header in [&[0xffu8][..], b"https\xe9", b"a\nb", b"a\x7f", b"\x00"] {
        assert_eq!(forwarded_proto(&Some(header.to_vec())), "http");
    }
}

#[test]
fn urls_end_in_the_file_name() {
    let url = image_url_text("https", "panel.local", "screen", "AA:BB", 42);
    assert_eq!(url, "https://panel.local/screen/AA:BB/42.png");
    assert!(url.ends_with(&format!("/{}", file_name_text(42))));
}

#[test]
fn file_names_tell_numbers() {
    assert_eq!(file_name_text(u64::MAX), "18446744073709551615.png");
    assert_eq!(file_name_text(0), "0.png");
    assert_ne!(file_name_text(1), file_name_text(10));
}

#[test]
fn replies_point_to_the_image() {
    let reply = display_reply(&request(Some(b"https")), "welcome", 7, 900);
    assert_eq!(reply.image_url, "https://panel.local/welcome/AA:BB/7.png");
    assert_eq!(reply.filename, "7.png");
    assert_eq!(reply.refresh_rate, 900);
    let reply = display_reply(&request(None), "error", 8, 0);
    assert_eq!(reply.image_url, "http://panel.local/error/AA:BB/8.png");
}
