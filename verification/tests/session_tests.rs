use mcu_provision::serial::ReadEvent;
use mcu_provision::serial::TimedRead;
use mcu_provision::serial::reset_result;
use mcu_provision::serial::run_reset_session;
use mcu_provision::serial::run_test_session;
use mcu_provision::serial::RESET_DEADLINE_MS;
use mcu_provision::serial::TEST_DEADLINE_MS;
use mcu_provision::DeviceError;

fn line(s: &str) -> TimedRead {
    TimedRead { event: ReadEvent::Line(format!("{}\r\n", s)), dur_ms: 10 }
}

fn strings(v: &[&str]) -> Vec<String> {
    v.iter().map(|s| s.to_string()).collect()
}

#[test]
fn test_happy_path() {
    let reads = vec![
        line("[EVENT:BOOT_COMPLETE] FIRMWARE=1.2.3 MAC=AA:BB:CC:DD:EE:FF"),
        line("[EVENT:WIFI_CONNECTED]"),
        line("[EVENT:MQTT_CONNECTED]"),
        line("[EVENT:SENSOR_OK]"),
        line("[EVENT:MQTT_PUBLISH_OK]"),
    ];
    let run = run_test_session(&reads, TEST_DEADLINE_MS).unwrap();
    assert!(run.result.success);
    assert_eq!(run.result.message, "All tests passed");
    assert_eq!(run.result.firmware_version, Some("1.2.3".to_string()));
    assert_eq!(run.result.mac_address, Some("AA:BB:CC:DD:EE:FF".to_string()));
    assert_eq!(run.result.events.len(), 5);
    assert_eq!(
        run.ui,
        strings(&[
            "[EVENT:BOOT_COMPLETE] FIRMWARE=1.2.3 MAC=AA:BB:CC:DD:EE:FF",
            "[CHECK] ✓ Boot complete",
            "[INFO] Firmware: 1.2.3",
            "[INFO] MAC: AA:BB:CC:DD:EE:FF",
            "[EVENT:WIFI_CONNECTED]",
            "[CHECK] ✓ WiFi connected",
            "[EVENT:MQTT_CONNECTED]",
            "[CHECK] ✓ MQTT connected",
            "[EVENT:SENSOR_OK]",
            "[CHECK] ✓ Sensor OK",
            "[EVENT:MQTT_PUBLISH_OK]",
            "[CHECK] ✓ MQTT publish OK",
            "[CHECK] ✓ All checks passed!",
        ])
    );
    assert_eq!(run.elapsed_ms, 50);
}

#[test]
fn test_missing_publish_times_out() {
    let reads = vec![
        line("[EVENT:BOOT_COMPLETE] FIRMWARE=1.2.3 MAC=AA:BB:CC:DD:EE:FF"),
        line("[EVENT:WIFI_CONNECTED]"),
        line("[EVENT:MQTT_CONNECTED]"),
        line("[EVENT:SENSOR_OK]"),
    ];
    let run = run_test_session(&reads, TEST_DEADLINE_MS).unwrap();
    assert!(!run.result.success);
    assert_eq!(run.result.message, "Test timed out - missing events: MQTT_PUBLISH_OK");
    assert_eq!(run.result.firmware_version, None);
    assert_eq!(run.result.mac_address, None);
    assert_eq!(run.result.events.len(), 4);
}

#[test]
fn test_spurious_test_pass_is_ignored() {
    let reads = vec![line("[EVENT:TEST_PASS]")];
    let run = run_test_session(&reads, TEST_DEADLINE_MS).unwrap();
    assert!(!run.result.success);
    assert_eq!(
        run.result.message,
        "Test timed out - missing events: BOOT_COMPLETE, WIFI_CONNECTED, MQTT_CONNECTED, SENSOR_OK, MQTT_PUBLISH_OK"
    );
    assert_eq!(run.ui, strings(&["[EVENT:TEST_PASS]"]));
}

#[test]
fn test_sensor_and_publish_checks_deduplicated() {
    let reads = vec![
        line("[EVENT:SENSOR_OK]"),
        line("[EVENT:SENSOR_OK]"),
        line("[EVENT:SENSOR_OK]"),
        line("[EVENT:MQTT_PUBLISH_OK]"),
        line("[EVENT:MQTT_PUBLISH_OK]"),
    ];
    let run = run_test_session(&reads, TEST_DEADLINE_MS).unwrap();
    assert!(!run.result.success);
    let sensor_checks = run.ui.iter().filter(|l| l.as_str() == "[CHECK] ✓ Sensor OK").count();
    let publish_checks =
        run.ui.iter().filter(|l| l.as_str() == "[CHECK] ✓ MQTT publish OK").count();
    assert_eq!(sensor_checks, 1);
    assert_eq!(publish_checks, 1);
    // The raw device lines are still forwarded each time.
    assert_eq!(run.ui.iter().filter(|l| l.as_str() == "[EVENT:SENSOR_OK]").count(), 3);
}

#[test]
fn test_deadline_bound_holds() {
    // 70 timed-out reads of 100 ms against a 500 ms deadline: the session
    // must stop within one read quantum of the deadline.
    let reads: Vec<TimedRead> =
        (0..70).map(|_| TimedRead { event: ReadEvent::TimedOut, dur_ms: 100 }).collect();
    let run = run_test_session(&reads, 500).unwrap();
    assert!(!run.result.success);
    assert!(run.elapsed_ms <= 600);
    assert!(run.elapsed_ms >= 500);
}

#[test]
fn test_broken_read_fails() {
    let reads = vec![
        line("[EVENT:BOOT_COMPLETE]"),
        TimedRead { event: ReadEvent::Broken, dur_ms: 5 },
        line("[EVENT:WIFI_CONNECTED]"),
    ];
    match run_test_session(&reads, TEST_DEADLINE_MS) {
        Err(e) => assert_eq!(e, DeviceError::ReadFailed),
        Ok(_) => panic!("expected a read failure"),
    }
}

#[test]
fn test_empty_and_whitespace_lines_skipped() {
    let reads = vec![
        TimedRead { event: ReadEvent::Empty, dur_ms: 1 },
        line(""),
        line("   "),
        line("[EVENT:WIFI_CONNECTED]"),
    ];
    let run = run_test_session(&reads, TEST_DEADLINE_MS).unwrap();
    assert_eq!(run.result.events, strings(&["[EVENT:WIFI_CONNECTED]"]));
    assert_eq!(run.ui, strings(&["[EVENT:WIFI_CONNECTED]", "[CHECK] ✓ WiFi connected"]));
}

#[test]
fn reset_success_scenario() {
    let reads = vec![line("booting..."), line("Factory reset complete")];
    let run = run_reset_session(&reads, RESET_DEADLINE_MS).unwrap();
    assert!(run.result.success);
    assert_eq!(run.result.message, "Factory reset completed successfully");
    assert_eq!(
        run.ui,
        strings(&[
            "Sent FACTORY_RESET command...",
            "booting...",
            "Factory reset complete",
            "[CHECK] ✓ Factory reset complete",
        ])
    );
}

#[test]
fn reset_accepts_uppercase_marker() {
    let reads = vec![line("FACTORY_RESET_COMPLETE")];
    let run = run_reset_session(&reads, RESET_DEADLINE_MS).unwrap();
    assert!(run.result.success);
}

#[test]
fn reset_times_out_without_marker() {
    let reads = vec![line("still booting")];
    let run = run_reset_session(&reads, RESET_DEADLINE_MS).unwrap();
    assert!(!run.result.success);
    assert_eq!(run.result.message, "Factory reset timed out or failed");
    assert_eq!(run.ui, strings(&["Sent FACTORY_RESET command...", "still booting"]));
}

#[test]
fn reset_deadline_bound_holds() {
    let reads: Vec<TimedRead> =
        (0..20).map(|_| TimedRead { event: ReadEvent::TimedOut, dur_ms: 100 }).collect();
    let run = run_reset_session(&reads, 300).unwrap();
    assert!(!run.result.success);
    assert!(run.elapsed_ms <= 400);
}

#[test]
fn reset_broken_read_fails() {
    let reads = vec![TimedRead { event: ReadEvent::Broken, dur_ms: 5 }];
    match run_reset_session(&reads, RESET_DEADLINE_MS) {
        Err(e) => assert_eq!(e, DeviceError::ReadFailed),
        Ok(_) => panic!("expected a read failure"),
    }
}

#[test]
fn boot_without_parameters_derives_no_info_lines() {
    let reads = vec![line("[EVENT:BOOT_COMPLETE]")];
    let run = run_test_session(&reads, TEST_DEADLINE_MS).unwrap();
    assert_eq!(run.ui, strings(&["[EVENT:BOOT_COMPLETE]", "[CHECK] ✓ Boot complete"]));
    assert_eq!(run.result.firmware_version, None);
    assert_eq!(run.result.mac_address, None);
}

#[test]
fn first_marker_in_a_line_wins() {
    // A line carrying two markers counts only for the first in the fixed
    // vocabulary order.
    let reads = vec![line("[EVENT:BOOT_COMPLETE] [EVENT:WIFI_CONNECTED]")];
    let run = run_test_session(&reads, TEST_DEADLINE_MS).unwrap();
    assert_eq!(
        run.ui,
        strings(&["[EVENT:BOOT_COMPLETE] [EVENT:WIFI_CONNECTED]", "[CHECK] ✓ Boot complete"])
    );
    assert_eq!(
        run.result.message,
        "Test timed out - missing events: WIFI_CONNECTED, MQTT_CONNECTED, SENSOR_OK, MQTT_PUBLISH_OK"
    );
}

#[test]
fn reset_result_carries_fixed_messages() {
    let ok = reset_result(true);
    assert!(ok.success);
    assert_eq!(ok.message, "Factory reset completed successfully");
    let failed = reset_result(false);
    assert!(!failed.success);
    assert_eq!(failed.message, "Factory reset timed out or failed");
}
