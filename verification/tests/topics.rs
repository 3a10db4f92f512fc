use grideye_terminal::config::{uuid, Config};
use grideye_terminal::mqtt::{
    classify_publish, create_topic, payload_cells, resolve_device, uniq_id, verify_topic,
    Incoming, MQTT_PAYLOAD_SIZE, POW,
};

fn config_with(delimiter: &str, parts: usize) -> Config {
    Config {
        app_title: String::from("grideye"),
        datetime_timezone: String::from("Utc"),
        mqtt_broker_url: String::from("localhost"),
        mqtt_user: String::new(),
        mqtt_pass: String::new(),
        mqtt_port: 1883,
        mqtt_topic_base: String::from("/grid_eye"),
        mqtt_topic_error_suffix: String::from("error"),
        mqtt_topic_wildcard: String::from("#"),
        mqtt_client_id: String::from("client"),
        topic_delimiter: String::from(delimiter),
        topic_parts_count: parts,
        flag_show_bar_index: false,
        flag_show_index: false,
        flag_show_color: false,
        flag_show_map_table_index: false,
        default_empty_topic: String::from("default_empty_topic"),
        default_empty_uuid: String::from("default_empty_uuid"),
        duration_limit_device_remove: 1000,
        duration_limit_device_remove_warn: 500,
        duration_limit_device_unknown: 100,
        log_file: String::from("log.txt"),
    }
}

fn pair(a: &str, b: &str) -> Option<(String, String)> {
    Some((String::from(a), String::from(b)))
}

#[test]
fn verify_topic_splits_parent_and_id() {
    let c = config_with("/", 4);
    assert_eq!(
        verify_topic("/grid_eye/queen/a4d1d8c1bc884b4abbbcf2b7a39a235a", &c),
        pair("/grid_eye/queen", "a4d1d8c1bc884b4abbbcf2b7a39a235a")
    );
}

#[test]
fn verify_topic_rejects_wrong_count() {
    let c = config_with("/", 4);
    assert_eq!(verify_topic("/grid_eye/queen", &c), None);
    assert_eq!(verify_topic("/grid_eye/queen/x/y", &c), None);
    assert_eq!(verify_topic("", &c), None);
    assert_eq!(verify_topic("a/b/c", &config_with("/", 0)), None);
}

#[test]
fn verify_topic_one_part() {
    let c = config_with("/", 1);
    assert_eq!(verify_topic("abc", &c), pair("", "abc"));
}

#[test]
fn verify_topic_multi_char_delimiter() {
    let c = config_with("::", 3);
    assert_eq!(verify_topic("a::b:c::d", &c), pair("a::b:c", "d"));
    assert_eq!(verify_topic("a:::b::c", &c), pair("a:::b", "c"));
    assert_eq!(verify_topic("::::", &c), pair("::", ""));
}

#[test]
fn verify_topic_matches_std_split() {
    for (topic, delim) in [
        ("/a/b/c", "/"),
        ("a//b", "/"),
        ("aaa", "aa"),
        ("abcabc", "bc"),
        ("héllo/wörld/ü", "/"),
        ("xyz", "xyz"),
    ] {
        let parts: Vec<&str> = topic.split(delim).collect();
        let c = config_with(delim, parts.len());
        let mut init = parts.clone();
        let last = init.pop().unwrap();
        assert_eq!(verify_topic(topic, &c), pair(&init.join(delim), last), "{} / {}", topic, delim);
        assert_eq!(verify_topic(topic, &config_with(delim, parts.len() + 1)), None);
    }
}

#[test]
fn verify_topic_empty_delimiter_cuts_every_char() {
    let c = config_with("", 5);
    assert_eq!(verify_topic("abc", &c), pair("abc", ""));
    let c = config_with("", 2);
    assert_eq!(verify_topic("", &c), pair("", ""));
}

#[test]
fn verify_topic_rebuilds_topic() {
    let topic = "/grid_eye/king/0123456789abcdef";
    let c = config_with("/", 4);
    let (parent, id) = verify_topic(topic, &c).unwrap();
    assert_eq!(format!("{}/{}", parent, id), topic);
}

#[test]
fn resolve_device_uses_parent_topic() {
    let c = config_with("/", 4);
    assert_eq!(resolve_device("/grid_eye/queen/abc", &c), pair("/grid_eye/queen", "abc"));
    assert_eq!(resolve_device("/grid_eye/queen", &c), None);
}

#[test]
fn resolve_device_keeps_whole_topic_for_simulators() {
    let c = config_with("/", 4);
    assert_eq!(
        resolve_device("/grid_eye/simulator_1/abc", &c),
        pair("/grid_eye/simulator_1/abc", "abc")
    );
    assert_eq!(resolve_device("/grid_eye/queen/simulator", &c), pair("/grid_eye/queen", "simulator"));
}

#[test]
fn create_topic_joins_segments() {
    assert_eq!(create_topic("/grid_eye", &["#"]), "/grid_eye/#");
    assert_eq!(create_topic("/grid_eye", &["error"]), "/grid_eye/error");
    assert_eq!(create_topic("base", &["a", "b"]), "base/a/b");
    assert_eq!(create_topic("base", &[]), "base");
}

#[test]
fn create_topic_follows_path_rules() {
    assert_eq!(create_topic("/grid_eye/", &["#"]), "/grid_eye/#");
    assert_eq!(create_topic("/grid_eye", &["/abs"]), "/abs");
    assert_eq!(create_topic("", &["x"]), "x");
    assert_eq!(create_topic("base", &[""]), "base/");
    assert_eq!(create_topic("base", &["a/", "b"]), "base/a/b");
    for (base, parts) in [("/grid_eye", vec!["a", "/b", "c"]), ("x/", vec!["", "y"]), ("", vec!["", ""])] {
        let mut p = std::path::PathBuf::new();
        p.push(base);
        for part in &parts {
            p = p.join(part);
        }
        assert_eq!(create_topic(base, &parts), p.to_str().unwrap());
    }
}

#[test]
fn uuid_is_simple_hex() {
    let id = uuid();
    assert_eq!(id.len(), 32);
    assert!(id.chars().all(|c| c.is_ascii_digit() || ('a'..='f').contains(&c)));
    assert_ne!(uuid(), uuid());
}

#[test]
fn uniq_id_prefixes_fresh_id() {
    let id = uniq_id("default_client_id_");
    assert!(id.starts_with("default_client_id__"));
    assert_eq!(id.len(), "default_client_id_".len() + 33);
    assert_ne!(uniq_id("p"), uniq_id("p"));
}

#[test]
fn classify_measurement_message_invalid() {
    let base = "/grid_eye";
    let error = "/grid_eye/error";
    assert_eq!(classify_publish("/grid_eye/queen/abc", MQTT_PAYLOAD_SIZE, base, error), Incoming::Measurement);
    assert_eq!(classify_publish("/grid_eye/queen/abc", 10, base, error), Incoming::Invalid);
    assert_eq!(classify_publish("/grid_eye/error", 10, base, error), Incoming::Message);
    assert_eq!(classify_publish("/grid_eye/error", MQTT_PAYLOAD_SIZE, base, error), Incoming::Measurement);
    assert_eq!(classify_publish("/other/queen", MQTT_PAYLOAD_SIZE, base, error), Incoming::Invalid);
}

#[test]
fn payload_cells_reads_big_endian_words() {
    let mut raw = vec![0u8; MQTT_PAYLOAD_SIZE];
    for i in 0..POW {
        let v: f32 = 20.0 + i as f32 * 0.25;
        raw[4 * i..4 * i + 4].copy_from_slice(&v.to_be_bytes());
    }
    let cells = payload_cells(&raw).unwrap();
    assert_eq!(cells.len(), POW);
    for i in 0..POW {
        assert_eq!(f32::from_bits(cells[i]), 20.0 + i as f32 * 0.25);
    }
    let mut raw2 = vec![0u8; MQTT_PAYLOAD_SIZE];
    raw2[0] = 0x12;
    raw2[1] = 0x34;
    raw2[2] = 0x56;
    raw2[3] = 0x78;
    assert_eq!(payload_cells(&raw2).unwrap()[0], 0x12345678);
}

#[test]
fn payload_cells_rejects_other_sizes() {
    assert_eq!(payload_cells(&[0u8; 255]), None);
    assert_eq!(payload_cells(&[0u8; 257]), None);
    assert_eq!(payload_cells(&[]), None);
}

#[test]
fn verify_topic_of_parent_and_id() {
    let c = config_with("/", 4);
    for (parent, id) in [("/grid_eye/queen", "0123abcd"), ("a/b/c", ""), ("//", "x")] {
        let topic = format!("{}/{}", parent, id);
        assert_eq!(verify_topic(&topic, &c), pair(parent, id));
    }
}
