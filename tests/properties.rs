use lodestone_core::events::ErrorKind;
use lodestone_core::properties::{parse_properties, rcon_settings};

fn lines(v: &[&str]) -> Vec<String> {
    v.iter().map(|s| s.to_string()).collect()
}

#[test]
fn properties_keep_first_order_and_last_value() {
    let m = parse_properties(&lines(&[
        "#Minecraft server properties",
        "",
        "motd=A Minecraft Server",
        "  server-port = 25565 ",
        "enable-rcon=true",
        "motd=second=ignored",
        "rcon.password=",
    ]))
    .unwrap();
    let entries: Vec<(&str, &str)> = m.iter().map(|(k, v)| (k.as_str(), v.as_str())).collect();
    assert_eq!(
        entries,
        vec![
            ("motd", "second"),
            ("server-port", "25565"),
            ("enable-rcon", "true"),
            ("rcon.password", ""),
        ]
    );
}

#[test]
fn properties_line_without_equals_fails() {
    let e = parse_properties(&lines(&["motd=x", "garbage"])).unwrap_err();
    assert_eq!(e.kind, ErrorKind::Internal);
}

#[test]
fn properties_empty_file() {
    assert!(parse_properties(&Vec::new()).unwrap().is_empty());
    assert!(parse_properties(&lines(&["# only a comment"])).unwrap().is_empty());
}

#[test]
fn rcon_settings_from_properties() {
    let m = parse_properties(&lines(&[
        "enable-rcon=true",
        "rcon.password=hunter2",
        "rcon.port=25575",
    ]))
    .unwrap();
    let t = rcon_settings(&m).unwrap();
    assert_eq!(t.address, "localhost:25575");
    assert_eq!(t.password, "hunter2");
    let off = parse_properties(&lines(&["enable-rcon=false", "rcon.password=x", "rcon.port=25575"])).unwrap();
    assert!(rcon_settings(&off).is_none());
    let no_port = parse_properties(&lines(&["enable-rcon=true", "rcon.password=x", "rcon.port=abc"])).unwrap();
    assert!(rcon_settings(&no_port).is_none());
    let missing = parse_properties(&lines(&["enable-rcon=true", "rcon.port=25575"])).unwrap();
    assert!(rcon_settings(&missing).is_none());
}
