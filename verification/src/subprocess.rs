//! Subprocess sessions: the Flash and Erase operations drive an external
//! Python tool. The caller spawns it, streams its lines, and waits for the
//! exit status; the verdicts and the UI stream are decided here.

use vstd::prelude::*;

use crate::DeviceError;
use crate::FlashResult;
use crate::ResetResult;
use crate::text::contains_seq;
use crate::text::contains_substring;
use crate::text::join_strings;
use crate::text::join_with;
use crate::text::views;

verus! {

/// A flash run succeeds when the tool exited with status zero and its
/// joined output carries the `Status: Success` marker; one without the
/// other fails.
pub open spec fn flash_success(exit_zero: bool, output: Seq<char>) -> bool {
    exit_zero && contains_seq(output, "Status: Success"@)
}

/// Decide the flash verdict from the exit status and the joined output.
pub fn flash_verdict(exit_zero: bool, output: &str) -> (r: bool)
    ensures
        r == flash_success(exit_zero, output@),
{
    exit_zero && contains_substring(output, "Status: Success")
}

/// An erase run succeeds when the tool exited with status zero, and also
/// when some line of the merged output stream — standard output followed
/// by standard error — carries the `Chip erase completed` marker.
pub open spec fn erase_success(exit_zero: bool, lines: Seq<Seq<char>>) -> bool {
    exit_zero || exists|k: int|
        0 <= k < lines.len() && contains_seq(lines[k], "Chip erase completed"@)
}

/// Whether some line of `lines` carries the erase marker.
fn erase_marker_in(lines: &Vec<String>) -> (r: bool)
    ensures
        r == exists|k: int|
            0 <= k < views(lines@).len() && contains_seq(
                #[trigger] views(lines@)[k],
                "Chip erase completed"@,
            ),
{
    let mut found = false;
    let mut i: usize = 0;
    while i < lines.len()
        invariant
            0 <= i <= lines@.len(),
            found == exists|k: int|
                0 <= k < i && contains_seq(
                    #[trigger] views(lines@)[k],
                    "Chip erase completed"@,
                ),
        decreases lines@.len() - i,
    {
        proof {
            assert(views(lines@)[i as int] == lines@[i as int]@);
        }
        if contains_substring(lines[i].as_str(), "Chip erase completed") {
            found = true;
        }
        i += 1;
    }
    found
}

/// Decide the erase verdict from the exit status and the two streams.
pub fn erase_verdict(exit_zero: bool, stdout_lines: &Vec<String>, stderr_lines: &Vec<String>) -> (r:
    bool)
    ensures
        r == erase_success(exit_zero, views(stdout_lines@) + views(stderr_lines@)),
{
    let in_stdout = erase_marker_in(stdout_lines);
    let in_stderr = erase_marker_in(stderr_lines);
    proof {
        let merged = views(stdout_lines@) + views(stderr_lines@);
        let n = views(stdout_lines@).len() as int;
        if in_stdout {
            let k = choose|k: int|
                0 <= k < views(stdout_lines@).len() && contains_seq(
                    #[trigger] views(stdout_lines@)[k],
                    "Chip erase completed"@,
                );
            assert(merged[k] == views(stdout_lines@)[k]);
        }
        if in_stderr {
            let k = choose|k: int|
                0 <= k < views(stderr_lines@).len() && contains_seq(
                    #[trigger] views(stderr_lines@)[k],
                    "Chip erase completed"@,
                );
            assert(merged[n + k] == views(stderr_lines@)[k]);
        }
        if !in_stdout && !in_stderr {
            assert forall|k: int|
                0 <= k < merged.len() implies !contains_seq(
                #[trigger] merged[k],
                "Chip erase completed"@,
            ) by {
                if k < n {
                    assert(merged[k] == views(stdout_lines@)[k]);
                } else {
                    assert(merged[k] == views(stderr_lines@)[k - n]);
                }
            }
        }
    }
    exit_zero || in_stdout || in_stderr
}

/// Law of the flash rule: success requires the zero exit and the marker
/// together; one without the other fails.
pub proof fn lemma_flash_needs_both(exit_zero: bool, output: Seq<char>)
    ensures
        flash_success(exit_zero, output) <==> exit_zero && contains_seq(
            output,
            "Status: Success"@,
        ),
        !exit_zero ==> !flash_success(exit_zero, output),
        !contains_seq(output, "Status: Success"@) ==> !flash_success(exit_zero, output),
{
}

/// Law of the erase rule, over the merged output stream: the zero exit
/// suffices, the marker on any line suffices, and nothing else succeeds.
pub proof fn lemma_erase_either_suffices(exit_zero: bool, lines: Seq<Seq<char>>, k: int)
    ensures
        exit_zero ==> erase_success(exit_zero, lines),
        0 <= k < lines.len() && contains_seq(lines[k], "Chip erase completed"@) ==> erase_success(
            exit_zero,
            lines,
        ),
        erase_success(exit_zero, lines) ==> exit_zero || exists|j: int|
            0 <= j < lines.len() && contains_seq(#[trigger] lines[j], "Chip erase completed"@),
{
}

/// Everything a finished Flash session hands back: the verdict record and
/// the lines the UI channel received, in order.
pub struct FlashRun {
    pub result: FlashResult,
    pub ui: Vec<String>,
}

/// Decide a whole Flash session from its streams and exit status.
///
/// The UI receives every standard-output line in arrival order, then every
/// standard-error line; the returned output is the same lines joined with
/// newlines; the verdict follows the flash rule above.
pub fn run_flash_session(stdout_lines: Vec<String>, stderr_lines: &Vec<String>, exit_zero: bool) -> (out:
    FlashRun)
    ensures
        views(out.ui@) == views(stdout_lines@) + views(stderr_lines@),
        out.result.output@ == join_with(views(out.ui@), "\n"@),
        out.result.success == flash_success(exit_zero, out.result.output@),
        out.result.message@ == (if out.result.success {
            "Firmware flashed successfully"@
        } else {
            "Firmware flash failed"@
        }),
{
    let mut all_output = stdout_lines;
    let ghost base = all_output@;
    let mut i: usize = 0;
    proof {
        assert(views(all_output@) =~= views(base) + views(stderr_lines@).take(0));
    }
    while i < stderr_lines.len()
        invariant
            0 <= i <= stderr_lines@.len(),
            views(all_output@) == views(base) + views(stderr_lines@).take(i as int),
        decreases stderr_lines@.len() - i,
    {
        let ghost out0 = all_output@;
        all_output.push(stderr_lines[i].clone());
        proof {
            assert(views(all_output@) =~= views(out0).push(stderr_lines@[i as int]@));
            assert(views(stderr_lines@).take(i as int).push(stderr_lines@[i as int]@)
                =~= views(stderr_lines@).take(i + 1));
            assert(views(all_output@) =~= views(base) + views(stderr_lines@).take(i + 1));
        }
        i += 1;
    }
    proof {
        assert(views(stderr_lines@).take(stderr_lines@.len() as int) =~= views(stderr_lines@));
    }
    let combined = join_strings(&all_output, "\n");
    let success = flash_verdict(exit_zero, combined.as_str());
    let message = if success {
        "Firmware flashed successfully".to_owned()
    } else {
        "Firmware flash failed".to_owned()
    };
    FlashRun {
        result: FlashResult { success, message, output: combined },
        ui: all_output,
    }
}

/// Everything a finished Erase session hands back.
pub struct EraseRun {
    pub result: ResetResult,
    pub ui: Vec<String>,
}

/// Decide a whole Erase session from its streams and exit status.
///
/// The UI receives the opening advisory line, every standard-output line,
/// every standard-error line, and — on success — the closing check line;
/// the verdict follows the erase rule over the merged stream.
pub fn run_erase_session(stdout_lines: &Vec<String>, stderr_lines: &Vec<String>, exit_zero: bool) -> (out:
    EraseRun)
    ensures
        views(out.ui@) == seq!["Starting flash erase..."@] + views(stdout_lines@) + views(
            stderr_lines@,
        ) + (if out.result.success {
            seq!["[CHECK] ✓ Flash erase complete"@]
        } else {
            Seq::<Seq<char>>::empty()
        }),
        out.result.success == erase_success(
            exit_zero,
            views(stdout_lines@) + views(stderr_lines@),
        ),
        out.result.message@ == (if out.result.success {
            "Flash erased successfully"@
        } else {
            "Flash erase failed"@
        }),
{
    let mut ui: Vec<String> = Vec::new();
    ui.push("Starting flash erase...".to_owned());
    let mut i: usize = 0;
    while i < stdout_lines.len()
        invariant
            0 <= i <= stdout_lines@.len(),
            views(ui@) == seq!["Starting flash erase..."@] + views(stdout_lines@).take(i as int),
        decreases stdout_lines@.len() - i,
    {
        let ghost ui0 = ui@;
        ui.push(stdout_lines[i].clone());
        proof {
            assert(views(ui@) =~= views(ui0).push(stdout_lines@[i as int]@));
            assert(views(stdout_lines@).take(i as int).push(stdout_lines@[i as int]@)
                =~= views(stdout_lines@).take(i + 1));
            assert(views(ui@) =~= seq!["Starting flash erase..."@] + views(stdout_lines@).take(
                i + 1,
            ));
        }
        i += 1;
    }
    proof {
        assert(views(stdout_lines@).take(stdout_lines@.len() as int) =~= views(stdout_lines@));
    }
    let mut j: usize = 0;
    while j < stderr_lines.len()
        invariant
            0 <= j <= stderr_lines@.len(),
            views(ui@) == seq!["Starting flash erase..."@] + views(stdout_lines@) + views(
                stderr_lines@,
            ).take(j as int),
        decreases stderr_lines@.len() - j,
    {
        let ghost ui0 = ui@;
        ui.push(stderr_lines[j].clone());
        proof {
            assert(views(ui@) =~= views(ui0).push(stderr_lines@[j as int]@));
            assert(views(stderr_lines@).take(j as int).push(stderr_lines@[j as int]@)
                =~= views(stderr_lines@).take(j + 1));
            assert(views(ui@) =~= seq!["Starting flash erase..."@] + views(stdout_lines@) + views(
                stderr_lines@,
            ).take(j + 1));
        }
        j += 1;
    }
    proof {
        assert(views(stderr_lines@).take(stderr_lines@.len() as int) =~= views(stderr_lines@));
    }
    let success = erase_verdict(exit_zero, stdout_lines, stderr_lines);
    if success {
        let ghost ui0 = ui@;
        ui.push("[CHECK] ✓ Flash erase complete".to_owned());
        proof {
            assert(views(ui@) =~= views(ui0).push("[CHECK] ✓ Flash erase complete"@));
            assert(views(ui@) =~= seq!["Starting flash erase..."@] + views(stdout_lines@) + views(
                stderr_lines@,
            ) + seq!["[CHECK] ✓ Flash erase complete"@]);
        }
    } else {
        proof {
            assert(views(ui@) =~= seq!["Starting flash erase..."@] + views(stdout_lines@) + views(
                stderr_lines@,
            ) + Seq::<Seq<char>>::empty());
        }
    }
    let message = if success {
        "Flash erased successfully".to_owned()
    } else {
        "Flash erase failed".to_owned()
    };
    EraseRun { result: ResetResult { success, message }, ui }
}

/// Where the flasher script was found.
#[derive(Clone, Copy, PartialEq, Eq, Structural, Debug)]
pub enum FlasherSource {
    /// The packaged resource directory.
    Packaged,
    /// The development fallback directory.
    Development,
}

/// Resource discovery decision: the packaged resource directory wins, the
/// development fallback comes second, and a miss on both is
/// `ResourceMissing`. The caller probes the disk and reports what exists.
pub fn choose_flasher_source(packaged_exists: bool, dev_exists: bool) -> (r: Result<
    FlasherSource,
    DeviceError,
>)
    ensures
        packaged_exists ==> r == Ok::<FlasherSource, DeviceError>(FlasherSource::Packaged),
        !packaged_exists && dev_exists ==> r == Ok::<FlasherSource, DeviceError>(
            FlasherSource::Development,
        ),
        !packaged_exists && !dev_exists ==> r == Err::<FlasherSource, DeviceError>(
            DeviceError::ResourceMissing,
        ),
{
    if packaged_exists {
        Ok(FlasherSource::Packaged)
    } else if dev_exists {
        Ok(FlasherSource::Development)
    } else {
        Err(DeviceError::ResourceMissing)
    }
}

/// Argument vector of the flasher invocation:
/// `--port <port> --firmware <id>`. The firmware identifier is already
/// rendered as decimal digits by the caller.
pub fn flash_args(port: &str, firmware_id: &str) -> (r: Vec<String>)
    ensures
        views(r@) == seq!["--port"@, port@, "--firmware"@, firmware_id@],
{
    let mut args: Vec<String> = Vec::new();
    args.push("--port".to_owned());
    args.push(port.to_owned());
    args.push("--firmware".to_owned());
    args.push(firmware_id.to_owned());
    proof {
        assert(views(args@) =~= seq!["--port"@, port@, "--firmware"@, firmware_id@]);
    }
    args
}

/// Argument vector of the erase invocation:
/// `--chip esp32 --port <port> erase_flash`.
pub fn erase_args(port: &str) -> (r: Vec<String>)
    ensures
        views(r@) == seq!["--chip"@, "esp32"@, "--port"@, port@, "erase_flash"@],
{
    let mut args: Vec<String> = Vec::new();
    args.push("--chip".to_owned());
    args.push("esp32".to_owned());
    args.push("--port".to_owned());
    args.push(port.to_owned());
    args.push("erase_flash".to_owned());
    proof {
        assert(views(args@) =~= seq!["--chip"@, "esp32"@, "--port"@, port@, "erase_flash"@]);
    }
    args
}

} // verus!
