use rust_rocket_sim::options::{parse_u16, Options, DEFAULT_VEHICLE_PORT};

fn args(list: &[&str]) -> Vec<String> {
    list.iter().map(|s| s.to_string()).collect()
}

#[test]
fn no_flags_gives_defaults() {
    let o = Options::from_args(&args(&["rust_rocket_sim", "--ground-station"]));
    assert_eq!(o.port, DEFAULT_VEHICLE_PORT);
    assert_eq!(o.port, 8888);
    assert!(!o.repeat);
    assert!(!o.rerun);
}

#[test]
fn all_flags() {
    let o = Options::from_args(&args(&["sim", "--ground-station", "--port", "9000", "--loop", "--rerun"]));
    assert_eq!(o.port, 9000);
    assert!(o.repeat);
    assert!(o.rerun);
}

#[test]
fn port_without_value_falls_back() {
    let o = Options::from_args(&args(&["sim", "--loop", "--port"]));
    assert_eq!(o.port, DEFAULT_VEHICLE_PORT);
    assert!(o.repeat);
}

#[test]
fn unreadable_port_falls_back() {
    assert_eq!(Options::from_args(&args(&["--port", "70000"])).port, DEFAULT_VEHICLE_PORT);
    assert_eq!(Options::from_args(&args(&["--port", "-1"])).port, DEFAULT_VEHICLE_PORT);
    assert_eq!(Options::from_args(&args(&["--port", "--loop"])).port, DEFAULT_VEHICLE_PORT);
}

#[test]
fn first_port_flag_wins() {
    let o = Options::from_args(&args(&["--port", "1234", "--port", "4321"]));
    assert_eq!(o.port, 1234);
}

#[test]
fn parse_u16_matches_std() {
    for text in ["0", "65535", "65536", "+7", "+", "", "-0", " 1", "1 ", "007", "12a", "٣", "99999999999"] {
        assert_eq!(parse_u16(text), text.parse::<u16>().ok(), "text {:?}", text);
    }
}
