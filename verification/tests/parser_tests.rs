use mcu_provision::parser::extract_param;

#[test]
fn extracts_firmware_and_mac_from_boot_line() {
    let line = "[EVENT:BOOT_COMPLETE] FIRMWARE=1.2.3 MAC=AA:BB:CC:DD:EE:FF";
    assert_eq!(extract_param(line, "FIRMWARE"), Some("1.2.3".to_string()));
    assert_eq!(extract_param(line, "MAC"), Some("AA:BB:CC:DD:EE:FF".to_string()));
}

#[test]
fn absent_parameter_yields_none() {
    let line = "[EVENT:BOOT_COMPLETE] FIRMWARE=1.2.3";
    assert_eq!(extract_param(line, "MAC"), None);
    assert_eq!(extract_param("plain text with no pairs", "FIRMWARE"), None);
}

#[test]
fn value_runs_to_end_of_line_without_space() {
    assert_eq!(extract_param("A=1 B=tail", "B"), Some("tail".to_string()));
}

#[test]
fn value_stops_at_first_space() {
    assert_eq!(extract_param("KEY=alpha beta", "KEY"), Some("alpha".to_string()));
}

#[test]
fn empty_value_before_space() {
    assert_eq!(extract_param("KEY= next=1", "KEY"), Some("".to_string()));
}

#[test]
fn value_returned_verbatim_no_unquoting() {
    assert_eq!(extract_param("K=\"quoted\"", "K"), Some("\"quoted\"".to_string()));
}

#[test]
fn first_occurrence_wins() {
    assert_eq!(extract_param("K=first K=second", "K"), Some("first".to_string()));
}

#[test]
fn round_trip_over_joined_pairs() {
    let keys = ["ALPHA", "BRAVO", "CHARLIE", "DELTA"];
    let vals = ["1", "two-2", "3.3.3", "x:y:z"];
    let mut line = String::new();
    for i in 0..keys.len() {
        if i > 0 {
            line.push(' ');
        }
        line.push_str(keys[i]);
        line.push('=');
        line.push_str(vals[i]);
    }
    for i in 0..keys.len() {
        assert_eq!(extract_param(&line, keys[i]), Some(vals[i].to_string()));
    }
}
