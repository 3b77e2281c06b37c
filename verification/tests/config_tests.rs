use ebers_core::config::{parse_dotenv, resolve_port, resolve_serial_config, DEFAULT_BAUD_RATE};

fn some(s: &str) -> Option<String> {
    Some(s.to_string())
}

#[test]
fn defaults_apply_when_nothing_is_configured() {
    let config = resolve_serial_config(None, None, None, None);
    assert_eq!(config.port, "COM3");
    assert_eq!(config.baud_rate, 115_200);
    assert_eq!(config.api_endpoint, "http://localhost:8000/api/detect");
    assert_eq!(DEFAULT_BAUD_RATE, 115_200);
}

#[test]
fn stored_port_wins_over_the_environment() {
    let config = resolve_serial_config(
        some("/dev/ttyUSB0"),
        some("COM7"),
        some("9600"),
        some("http://example.test/detect"),
    );
    assert_eq!(config.port, "/dev/ttyUSB0");
    assert_eq!(config.baud_rate, 9600);
    assert_eq!(config.api_endpoint, "http://example.test/detect");
    assert_eq!(resolve_port(None, some("COM7")), "COM7");
    assert_eq!(resolve_port(some("COM1"), None), "COM1");
    assert_eq!(resolve_port(None, None), "COM3");
}

#[test]
fn unreadable_baud_rate_falls_back() {
    for bad in ["", "fast", " 9600", "9600 ", "-1", "4294967296", "96e2"] {
        let config = resolve_serial_config(None, None, some(bad), None);
        assert_eq!(config.baud_rate, 115_200, "baud {:?}", bad);
    }
    let config = resolve_serial_config(None, None, some("+57600"), None);
    assert_eq!(config.baud_rate, 57_600);
}

#[test]
fn dotenv_lines() {
    let content = "# comment\n\nSERIAL_PORT=COM5\r\n  SERIAL_BAUD = 9600  \nDETECTION_API_ENDPOINT=\"http://h/api?a=b\"\nNAME='single'\nnovalue\nEMPTY=\n=orphan\nMIXED=\"x'\nQ=\"\n";
    let entries = parse_dotenv(content);
    let expected: Vec<(String, String)> = [
        ("SERIAL_PORT", "COM5"),
        ("SERIAL_BAUD", "9600"),
        ("DETECTION_API_ENDPOINT", "http://h/api?a=b"),
        ("NAME", "single"),
        ("EMPTY", ""),
        ("", "orphan"),
        ("MIXED", "\"x'"),
        ("Q", "\""),
    ]
    .iter()
    .map(|(k, v)| (k.to_string(), v.to_string()))
    .collect();
    assert_eq!(entries, expected);
    assert_eq!(parse_dotenv(""), Vec::<(String, String)>::new());
    assert_eq!(
        parse_dotenv("A=\"\"\nB=''"),
        vec![
            ("A".to_string(), "".to_string()),
            ("B".to_string(), "".to_string())
        ]
    );
}
