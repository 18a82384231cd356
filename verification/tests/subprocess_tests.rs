use mcu_provision::python_command;
use mcu_provision::subprocess::choose_flasher_source;
use mcu_provision::subprocess::erase_args;
use mcu_provision::subprocess::erase_verdict;
use mcu_provision::subprocess::flash_args;
use mcu_provision::subprocess::flash_verdict;
use mcu_provision::subprocess::run_erase_session;
use mcu_provision::subprocess::run_flash_session;
use mcu_provision::subprocess::FlasherSource;
use mcu_provision::DeviceError;

fn strings(v: &[&str]) -> Vec<String> {
    v.iter().map(|s| s.to_string()).collect()
}

#[test]
fn flash_success_needs_both_conditions() {
    assert!(flash_verdict(true, "Writing...\nStatus: Success\nDone"));
    // Marker alone does not suffice.
    assert!(!flash_verdict(false, "Status: Success"));
    // Zero exit alone does not suffice.
    assert!(!flash_verdict(true, "Status: Failed"));
    assert!(!flash_verdict(false, "nothing"));
}

#[test]
fn flash_session_success() {
    let stdout = strings(&["Connecting...", "Status: Success"]);
    let stderr = strings(&[]);
    let run = run_flash_session(stdout, &stderr, true);
    assert!(run.result.success);
    assert_eq!(run.result.message, "Firmware flashed successfully");
    assert_eq!(run.result.output, "Connecting...\nStatus: Success");
    assert_eq!(run.ui, strings(&["Connecting...", "Status: Success"]));
}

#[test]
fn flash_marker_with_nonzero_exit_fails() {
    let stdout = strings(&["Status: Success"]);
    let run = run_flash_session(stdout, &strings(&[]), false);
    assert!(!run.result.success);
    assert_eq!(run.result.message, "Firmware flash failed");
}

#[test]
fn flash_zero_exit_without_marker_fails() {
    let stdout = strings(&["all quiet"]);
    let run = run_flash_session(stdout, &strings(&[]), true);
    assert!(!run.result.success);
}

#[test]
fn flash_stderr_lines_follow_stdout_in_order() {
    let stdout = strings(&["out1", "out2"]);
    let stderr = strings(&["err1", "err2"]);
    let run = run_flash_session(stdout, &stderr, false);
    assert_eq!(run.ui, strings(&["out1", "out2", "err1", "err2"]));
    assert_eq!(run.result.output, "out1\nout2\nerr1\nerr2");
}

#[test]
fn erase_success_by_exit_only() {
    let run = run_erase_session(&strings(&["erasing..."]), &strings(&[]), true);
    assert!(run.result.success);
    assert_eq!(run.result.message, "Flash erased successfully");
    assert_eq!(
        run.ui,
        strings(&["Starting flash erase...", "erasing...", "[CHECK] ✓ Flash erase complete"])
    );
}

#[test]
fn erase_success_by_marker_only() {
    let run = run_erase_session(&strings(&["Chip erase completed in 2.1s"]), &strings(&[]), false);
    assert!(run.result.success);
}

#[test]
fn erase_fails_without_either() {
    let run = run_erase_session(&strings(&["error: no device"]), &strings(&["boom"]), false);
    assert!(!run.result.success);
    assert_eq!(run.result.message, "Flash erase failed");
    assert_eq!(run.ui, strings(&["Starting flash erase...", "error: no device", "boom"]));
}

#[test]
fn erase_marker_on_stderr_counts() {
    // The marker is read over the merged stream, so standard error counts.
    assert!(erase_verdict(false, &strings(&[]), &strings(&["Chip erase completed"])));
    let run = run_erase_session(&strings(&[]), &strings(&["Chip erase completed"]), false);
    assert!(run.result.success);
    assert_eq!(
        run.ui,
        strings(&[
            "Starting flash erase...",
            "Chip erase completed",
            "[CHECK] ✓ Flash erase complete"
        ])
    );
}

#[test]
fn erase_verdict_scans_both_streams() {
    assert!(!erase_verdict(false, &strings(&["nothing here"]), &strings(&["nor here"])));
    assert!(erase_verdict(false, &strings(&["Chip erase completed"]), &strings(&[])));
    assert!(erase_verdict(true, &strings(&[]), &strings(&[])));
}

#[test]
fn flasher_source_prefers_packaged_then_dev() {
    assert_eq!(choose_flasher_source(true, true), Ok(FlasherSource::Packaged));
    assert_eq!(choose_flasher_source(true, false), Ok(FlasherSource::Packaged));
    assert_eq!(choose_flasher_source(false, true), Ok(FlasherSource::Development));
    assert_eq!(choose_flasher_source(false, false), Err(DeviceError::ResourceMissing));
}

#[test]
fn argument_vectors() {
    assert_eq!(flash_args("/dev/cu.usb1", "42"), strings(&["--port", "/dev/cu.usb1", "--firmware", "42"]));
    assert_eq!(
        erase_args("COM3"),
        strings(&["--chip", "esp32", "--port", "COM3", "erase_flash"])
    );
}

#[test]
fn python_command_per_platform() {
    assert_eq!(python_command(true), "python");
    assert_eq!(python_command(false), "python3");
}
