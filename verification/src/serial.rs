//! Serial-session interpreters for the Test and Factory Reset operations.
//!
//! The caller owns the port: it opens it at 115200 baud 8N1 with a 100 ms
//! read timeout, drives DTR and RTS low, writes the command, and then reads
//! lines. Each read is reported here as a [`TimedRead`]: what came back and
//! how long the read took. The interpreters replay the session decisions —
//! which lines are forwarded, when the verdict falls, when the deadline
//! ends the session — and their contracts pin the whole outcome down. A
//! trace shorter than the deadline stands for a device that stays silent
//! from then on.

use vstd::prelude::*;

use crate::DeviceError;
use crate::ResetResult;
use crate::TestResult;
use crate::checklist::TestChecklist;
use crate::checklist::TestSession;
use crate::checklist::all_passed;
use crate::checklist::fresh_checklist;
use crate::checklist::fresh_model;
use crate::checklist::lemma_run_model_flags;
use crate::checklist::lemma_run_model_push;
use crate::checklist::lemma_ui_stream_push;
use crate::checklist::run_model;
use crate::checklist::step_flags;
use crate::checklist::timeout_message;
use crate::checklist::ui_stream;
use crate::text::contains_seq;
use crate::text::contains_substring;
use crate::text::trim_line;
use crate::text::trim_spec;
use crate::text::view_opt;
use crate::text::views;

verus! {

/// Upper bound on one blocking read: the port's configured read timeout.
pub const READ_QUANTUM_MS: u64 = 100;

/// Deadline of a Test session, measured from the moment the command write
/// completes.
pub const TEST_DEADLINE_MS: u64 = 60000;

/// Deadline of a Factory Reset session.
pub const RESET_DEADLINE_MS: u64 = 30000;

/// What one blocking read of the serial port produced.
pub enum ReadEvent {
    /// A full line, terminator included, as the port handed it over.
    Line(String),
    /// A zero-byte read: no data this quantum.
    Empty,
    /// The read timed out; not an error.
    TimedOut,
    /// Any other I/O error; ends the session with `ReadFailed`.
    Broken,
}

/// One blocking read: its outcome and its duration.
pub struct TimedRead {
    pub event: ReadEvent,
    pub dur_ms: u64,
}

/// How a serial session ended.
#[derive(Clone, Copy, PartialEq, Eq, Structural, Debug)]
pub enum SessionEnd {
    /// The verdict predicate reached terminal success.
    Success,
    /// The deadline passed first.
    Timeout,
    /// A read failed.
    Failed,
}

/// Ghost summary of a serial session: how it ended, the nonempty trimmed
/// lines it consumed in order, and the clock when it returned.
#[verifier::ext_equal]
pub struct SerialOutcome {
    pub end: SessionEnd,
    pub lines: Seq<Seq<char>>,
    pub elapsed: int,
}

/// The Test session read loop over a trace of reads: reads are consumed
/// while the clock is under the deadline; nonempty trimmed lines feed the
/// checklist; the session ends on all five flags, on the deadline, or on a
/// failed read.
pub open spec fn spec_test_loop(
    c: TestChecklist,
    reads: Seq<TimedRead>,
    clock: int,
    deadline: int,
) -> SerialOutcome
    decreases reads.len(),
{
    if clock >= deadline || reads.len() == 0 {
        SerialOutcome { end: SessionEnd::Timeout, lines: Seq::empty(), elapsed: clock }
    } else {
        let clock2 = clock + reads[0].dur_ms as int;
        match reads[0].event {
            ReadEvent::Broken => SerialOutcome {
                end: SessionEnd::Failed,
                lines: Seq::empty(),
                elapsed: clock2,
            },
            ReadEvent::Empty => spec_test_loop(c, reads.drop_first(), clock2, deadline),
            ReadEvent::TimedOut => spec_test_loop(c, reads.drop_first(), clock2, deadline),
            ReadEvent::Line(l) => {
                let t = trim_spec(l@);
                if t.len() == 0 {
                    spec_test_loop(c, reads.drop_first(), clock2, deadline)
                } else if all_passed(step_flags(c, t)) {
                    SerialOutcome { end: SessionEnd::Success, lines: seq![t], elapsed: clock2 }
                } else {
                    let o = spec_test_loop(step_flags(c, t), reads.drop_first(), clock2, deadline);
                    SerialOutcome { end: o.end, lines: seq![t] + o.lines, elapsed: o.elapsed }
                }
            },
        }
    }
}

/// Deadline bound: when every read takes at most `quantum` and the clock
/// starts no later than `deadline + quantum`, the session returns no later
/// than `deadline + quantum`.
pub proof fn lemma_test_deadline_bound(
    c: TestChecklist,
    reads: Seq<TimedRead>,
    clock: int,
    deadline: int,
    quantum: int,
)
    requires
        clock <= deadline + quantum,
        forall|k: int| 0 <= k < reads.len() ==> (#[trigger] reads[k].dur_ms) <= quantum,
    ensures
        spec_test_loop(c, reads, clock, deadline).elapsed <= deadline + quantum,
    decreases reads.len(),
{
    if clock >= deadline || reads.len() == 0 {
    } else {
        let clock2 = clock + reads[0].dur_ms as int;
        assert(reads[0].dur_ms <= quantum);
        assert forall|k: int| 0 <= k < reads.drop_first().len() implies (
        #[trigger] reads.drop_first()[k].dur_ms) <= quantum by {
            assert(reads.drop_first()[k] == reads[k + 1]);
        }
        match reads[0].event {
            ReadEvent::Broken => {},
            ReadEvent::Empty => {
                lemma_test_deadline_bound(c, reads.drop_first(), clock2, deadline, quantum);
            },
            ReadEvent::TimedOut => {
                lemma_test_deadline_bound(c, reads.drop_first(), clock2, deadline, quantum);
            },
            ReadEvent::Line(l) => {
                let t = trim_spec(l@);
                if t.len() == 0 {
                    lemma_test_deadline_bound(c, reads.drop_first(), clock2, deadline, quantum);
                } else if all_passed(step_flags(c, t)) {
                } else {
                    lemma_test_deadline_bound(
                        step_flags(c, t),
                        reads.drop_first(),
                        clock2,
                        deadline,
                        quantum,
                    );
                }
            },
        }
    }
}

/// Deadline bound for the Factory Reset loop, as for the Test loop.
pub proof fn lemma_reset_deadline_bound(
    reads: Seq<TimedRead>,
    clock: int,
    deadline: int,
    quantum: int,
)
    requires
        clock <= deadline + quantum,
        forall|k: int| 0 <= k < reads.len() ==> (#[trigger] reads[k].dur_ms) <= quantum,
    ensures
        spec_reset_loop(reads, clock, deadline).elapsed <= deadline + quantum,
    decreases reads.len(),
{
    if clock >= deadline || reads.len() == 0 {
    } else {
        let clock2 = clock + reads[0].dur_ms as int;
        assert(reads[0].dur_ms <= quantum);
        assert forall|k: int| 0 <= k < reads.drop_first().len() implies (
        #[trigger] reads.drop_first()[k].dur_ms) <= quantum by {
            assert(reads.drop_first()[k] == reads[k + 1]);
        }
        match reads[0].event {
            ReadEvent::Broken => {},
            ReadEvent::Empty => {
                lemma_reset_deadline_bound(reads.drop_first(), clock2, deadline, quantum);
            },
            ReadEvent::TimedOut => {
                lemma_reset_deadline_bound(reads.drop_first(), clock2, deadline, quantum);
            },
            ReadEvent::Line(l) => {
                let t = trim_spec(l@);
                if t.len() == 0 || !reset_complete_line(t) {
                    lemma_reset_deadline_bound(reads.drop_first(), clock2, deadline, quantum);
                }
            },
        }
    }
}

/// Everything a finished Test session hands back: the verdict record, the
/// lines the UI channel received in order, and the session's elapsed time.
pub struct TestRun {
    pub result: TestResult,
    pub ui: Vec<String>,
    pub elapsed_ms: u64,
}

/// Run a whole Test session over a trace of reads.
///
/// The UI stream is the raw nonempty trimmed lines in arrival order, each
/// immediately followed by its derived `[CHECK]` / `[INFO]` lines. Success
/// comes exactly when all five checklist flags are set before the deadline;
/// the deadline yields a failure verdict naming the missing events; a broken
/// read yields `ReadFailed`. The session returns within one read quantum of
/// the deadline.
pub fn run_test_session(reads: &Vec<TimedRead>, deadline_ms: u64) -> (out: Result<
    TestRun,
    DeviceError,
>)
    requires
        deadline_ms + READ_QUANTUM_MS <= u64::MAX,
        forall|k: int| 0 <= k < reads@.len() ==> (#[trigger] reads@[k].dur_ms) <= READ_QUANTUM_MS,
    ensures
        ({
            let o = spec_test_loop(fresh_checklist(), reads@, 0, deadline_ms as int);
            let m = run_model(fresh_model(), o.lines);
            match out {
                Ok(run) => {
                    &&& o.end != SessionEnd::Failed
                    &&& run.elapsed_ms == o.elapsed
                    &&& run.elapsed_ms <= deadline_ms + READ_QUANTUM_MS
                    &&& views(run.result.events@) == o.lines
                    &&& views(run.ui@) == ui_stream(fresh_checklist(), o.lines)
                    &&& run.result.success <==> o.end == SessionEnd::Success
                    &&& (run.result.success ==> run.result.message@ == "All tests passed"@
                        && view_opt(run.result.firmware_version) == m.firmware && view_opt(
                        run.result.mac_address,
                    ) == m.mac)
                    &&& (!run.result.success ==> run.result.message@ == timeout_message(m.flags)
                        && run.result.firmware_version is None && run.result.mac_address is None)
                },
                Err(e) => o.end == SessionEnd::Failed && e == DeviceError::ReadFailed,
            }
        }),
{
    let ghost deadline = deadline_ms as int;
    let mut session = TestSession::new();
    let mut ui: Vec<String> = Vec::new();
    let mut clock: u64 = 0;
    let mut i: usize = 0;
    proof {
        assert(session@.events =~= Seq::<Seq<char>>::empty());
        assert(views(ui@) =~= Seq::<Seq<char>>::empty());
        assert(reads@.skip(0) =~= reads@);
    }
    loop
        invariant
            0 <= i <= reads@.len(),
            deadline_ms + READ_QUANTUM_MS <= u64::MAX,
            deadline == deadline_ms as int,
            forall|k: int| 0 <= k < reads@.len() ==> (#[trigger] reads@[k].dur_ms)
                <= READ_QUANTUM_MS,
            clock <= deadline_ms + READ_QUANTUM_MS,
            !all_passed(session@.flags),
            session@ == run_model(fresh_model(), session@.events),
            views(ui@) == ui_stream(fresh_checklist(), session@.events),
            ({
                let g = spec_test_loop(fresh_checklist(), reads@, 0, deadline);
                let o = spec_test_loop(
                    session@.flags,
                    reads@.skip(i as int),
                    clock as int,
                    deadline,
                );
                g.end == o.end && g.lines == session@.events + o.lines && g.elapsed == o.elapsed
            }),
        decreases reads@.len() - i,
    {
        let ghost flags0 = session@.flags;
        let ghost events0 = session@.events;
        if clock >= deadline_ms || i == reads.len() {
            proof {
                if i == reads.len() {
                    assert(reads@.skip(i as int).len() == 0);
                }
                assert(spec_test_loop(flags0, reads@.skip(i as int), clock as int, deadline)
                    == SerialOutcome {
                    end: SessionEnd::Timeout,
                    lines: Seq::empty(),
                    elapsed: clock as int,
                });
                assert(events0 + Seq::<Seq<char>>::empty() =~= events0);
                lemma_run_model_flags(fresh_model(), events0);
            }
            let result = session.into_result(false);
            return Ok(TestRun { result, ui, elapsed_ms: clock });
        }
        let dur = reads[i].dur_ms;
        proof {
            assert(reads@.skip(i as int)[0] == reads@[i as int]);
            assert(reads@.skip(i as int).drop_first() =~= reads@.skip(i + 1));
        }
        clock = clock + dur;
        match &reads[i].event {
            ReadEvent::Broken => {
                return Err(DeviceError::ReadFailed);
            },
            ReadEvent::Empty => {},
            ReadEvent::TimedOut => {},
            ReadEvent::Line(l) => {
                let t = trim_line(l.as_str());
                if t.unicode_len() > 0 {
                    let ghost ui0 = ui@;
                    ui.push(t.clone());
                    proof {
                        assert(views(ui@) =~= views(ui0).push(t@));
                        assert(views(ui@) =~= ui_stream(fresh_checklist(), events0) + seq![t@]
                            + views(Seq::<String>::empty()).take(0));
                    }
                    let processed = session.process_line(t.as_str());
                    let emits = processed.0;
                    let done = processed.1;
                    let mut j: usize = 0;
                    while j < emits.len()
                        invariant
                            0 <= j <= emits@.len(),
                            views(ui@) == ui_stream(fresh_checklist(), events0) + seq![t@] + views(
                                emits@,
                            ).take(j as int),
                        decreases emits@.len() - j,
                    {
                        let ghost ui1 = ui@;
                        ui.push(emits[j].clone());
                        proof {
                            assert(views(ui@) =~= views(ui1).push(emits@[j as int]@));
                            assert(views(emits@).take(j as int).push(emits@[j as int]@)
                                =~= views(emits@).take(j + 1));
                            assert(views(ui@) =~= ui_stream(fresh_checklist(), events0) + seq![t@]
                                + views(emits@).take(j + 1));
                        }
                        j += 1;
                    }
                    proof {
                        assert(views(emits@).take(emits@.len() as int) =~= views(emits@));
                        lemma_run_model_push(fresh_model(), events0, t@);
                        lemma_run_model_flags(fresh_model(), events0);
                        lemma_ui_stream_push(fresh_checklist(), events0, t@);
                        assert(session@.events =~= events0.push(t@));
                        assert(views(ui@) =~= ui_stream(fresh_checklist(), session@.events));
                    }
                    if done {
                        proof {
                            assert(spec_test_loop(
                                flags0,
                                reads@.skip(i as int),
                                (clock - dur) as int,
                                deadline,
                            ) == SerialOutcome {
                                end: SessionEnd::Success,
                                lines: seq![t@],
                                elapsed: clock as int,
                            });
                            assert(events0 + seq![t@] =~= session@.events);
                            lemma_run_model_flags(fresh_model(), session@.events);
                        }
                        let result = session.into_result(true);
                        return Ok(TestRun { result, ui, elapsed_ms: clock });
                    }
                    proof {
                        let o1 = spec_test_loop(
                            session@.flags,
                            reads@.skip(i + 1),
                            clock as int,
                            deadline,
                        );
                        assert(spec_test_loop(
                            flags0,
                            reads@.skip(i as int),
                            (clock - dur) as int,
                            deadline,
                        ) == SerialOutcome {
                            end: o1.end,
                            lines: seq![t@] + o1.lines,
                            elapsed: o1.elapsed,
                        });
                        assert(events0 + (seq![t@] + o1.lines) =~= session@.events + o1.lines);
                    }
                }
            },
        }
        i += 1;
    }
}

/// The milestone of a completed factory reset: either phrasing counts.
pub open spec fn reset_complete_line(line: Seq<char>) -> bool {
    contains_seq(line, "Factory reset complete"@) || contains_seq(line, "FACTORY_RESET_COMPLETE"@)
}

/// Close a reset session into its verdict record with its fixed message.
pub fn reset_result(success: bool) -> (r: ResetResult)
    ensures
        r.success == success,
        r.message@ == (if success {
            "Factory reset completed successfully"@
        } else {
            "Factory reset timed out or failed"@
        }),
{
    ResetResult {
        success,
        message: if success {
            "Factory reset completed successfully".to_owned()
        } else {
            "Factory reset timed out or failed".to_owned()
        },
    }
}

/// Whether one trimmed line completes a factory reset.
pub fn reset_line_done(line: &str) -> (r: bool)
    ensures
        r == reset_complete_line(line@),
{
    contains_substring(line, "Factory reset complete") || contains_substring(
        line,
        "FACTORY_RESET_COMPLETE",
    )
}

/// The Factory Reset read loop over a trace of reads: the session succeeds
/// on the first line carrying a completion marker, or times out.
pub open spec fn spec_reset_loop(reads: Seq<TimedRead>, clock: int, deadline: int) -> SerialOutcome
    decreases reads.len(),
{
    if clock >= deadline || reads.len() == 0 {
        SerialOutcome { end: SessionEnd::Timeout, lines: Seq::empty(), elapsed: clock }
    } else {
        let clock2 = clock + reads[0].dur_ms as int;
        match reads[0].event {
            ReadEvent::Broken => SerialOutcome {
                end: SessionEnd::Failed,
                lines: Seq::empty(),
                elapsed: clock2,
            },
            ReadEvent::Empty => spec_reset_loop(reads.drop_first(), clock2, deadline),
            ReadEvent::TimedOut => spec_reset_loop(reads.drop_first(), clock2, deadline),
            ReadEvent::Line(l) => {
                let t = trim_spec(l@);
                if t.len() == 0 {
                    spec_reset_loop(reads.drop_first(), clock2, deadline)
                } else if reset_complete_line(t) {
                    SerialOutcome { end: SessionEnd::Success, lines: seq![t], elapsed: clock2 }
                } else {
                    let o = spec_reset_loop(reads.drop_first(), clock2, deadline);
                    SerialOutcome { end: o.end, lines: seq![t] + o.lines, elapsed: o.elapsed }
                }
            },
        }
    }
}

/// Everything a finished Factory Reset session hands back.
pub struct ResetRun {
    pub result: ResetResult,
    pub ui: Vec<String>,
    pub elapsed_ms: u64,
}

/// Run a whole Factory Reset session over a trace of reads.
///
/// The UI stream opens with the advisory line, then carries each nonempty
/// trimmed line in arrival order, and closes with the completion check line
/// when a completion marker arrived before the deadline. The session returns
/// within one read quantum of the deadline.
pub fn run_reset_session(reads: &Vec<TimedRead>, deadline_ms: u64) -> (out: Result<
    ResetRun,
    DeviceError,
>)
    requires
        deadline_ms + READ_QUANTUM_MS <= u64::MAX,
        forall|k: int| 0 <= k < reads@.len() ==> (#[trigger] reads@[k].dur_ms) <= READ_QUANTUM_MS,
    ensures
        ({
            let o = spec_reset_loop(reads@, 0, deadline_ms as int);
            match out {
                Ok(run) => {
                    &&& o.end != SessionEnd::Failed
                    &&& run.elapsed_ms == o.elapsed
                    &&& run.elapsed_ms <= deadline_ms + READ_QUANTUM_MS
                    &&& views(run.ui@) == seq!["Sent FACTORY_RESET command..."@] + o.lines + (
                    if o.end == SessionEnd::Success {
                        seq!["[CHECK] ✓ Factory reset complete"@]
                    } else {
                        Seq::<Seq<char>>::empty()
                    })
                    &&& run.result.success <==> o.end == SessionEnd::Success
                    &&& run.result.message@ == (if run.result.success {
                        "Factory reset completed successfully"@
                    } else {
                        "Factory reset timed out or failed"@
                    })
                },
                Err(e) => o.end == SessionEnd::Failed && e == DeviceError::ReadFailed,
            }
        }),
{
    let ghost deadline = deadline_ms as int;
    let mut ui: Vec<String> = Vec::new();
    ui.push("Sent FACTORY_RESET command...".to_owned());
    let ghost mut seen: Seq<Seq<char>> = Seq::empty();
    let mut clock: u64 = 0;
    let mut i: usize = 0;
    proof {
        assert(views(ui@) =~= seq!["Sent FACTORY_RESET command..."@] + seen);
        assert(reads@.skip(0) =~= reads@);
    }
    loop
        invariant
            0 <= i <= reads@.len(),
            deadline_ms + READ_QUANTUM_MS <= u64::MAX,
            deadline == deadline_ms as int,
            forall|k: int| 0 <= k < reads@.len() ==> (#[trigger] reads@[k].dur_ms)
                <= READ_QUANTUM_MS,
            clock <= deadline_ms + READ_QUANTUM_MS,
            views(ui@) == seq!["Sent FACTORY_RESET command..."@] + seen,
            ({
                let g = spec_reset_loop(reads@, 0, deadline);
                let o = spec_reset_loop(reads@.skip(i as int), clock as int, deadline);
                g.end == o.end && g.lines == seen + o.lines && g.elapsed == o.elapsed
            }),
        decreases reads@.len() - i,
    {
        let ghost seen0 = seen;
        if clock >= deadline_ms || i == reads.len() {
            proof {
                if i == reads.len() {
                    assert(reads@.skip(i as int).len() == 0);
                }
                assert(seen0 + Seq::<Seq<char>>::empty() =~= seen0);
            }
            let result = reset_result(false);
            return Ok(ResetRun { result, ui, elapsed_ms: clock });
        }
        let dur = reads[i].dur_ms;
        proof {
            assert(reads@.skip(i as int)[0] == reads@[i as int]);
            assert(reads@.skip(i as int).drop_first() =~= reads@.skip(i + 1));
        }
        clock = clock + dur;
        match &reads[i].event {
            ReadEvent::Broken => {
                return Err(DeviceError::ReadFailed);
            },
            ReadEvent::Empty => {},
            ReadEvent::TimedOut => {},
            ReadEvent::Line(l) => {
                let t = trim_line(l.as_str());
                if t.unicode_len() > 0 {
                    let is_complete = contains_substring(t.as_str(), "Factory reset complete")
                        || contains_substring(t.as_str(), "FACTORY_RESET_COMPLETE");
                    let ghost ui0 = ui@;
                    ui.push(t.clone());
                    proof {
                        seen = seen.push(t@);
                        assert(seen0 + seq![t@] =~= seen);
                        assert(views(ui@) =~= views(ui0).push(t@));
                        assert(views(ui@) =~= seq!["Sent FACTORY_RESET command..."@] + seen);
                    }
                    if is_complete {
                        let ghost ui1 = ui@;
                        ui.push("[CHECK] ✓ Factory reset complete".to_owned());
                        proof {
                            assert(views(ui@) =~= views(ui1).push(
                                "[CHECK] ✓ Factory reset complete"@,
                            ));
                            assert(spec_reset_loop(
                                reads@.skip(i as int),
                                (clock - dur) as int,
                                deadline,
                            ) == SerialOutcome {
                                end: SessionEnd::Success,
                                lines: seq![t@],
                                elapsed: clock as int,
                            });
                            assert(views(ui@) =~= seq!["Sent FACTORY_RESET command..."@] + seen
                                + seq!["[CHECK] ✓ Factory reset complete"@]);
                        }
                        let result = reset_result(true);
                        return Ok(ResetRun { result, ui, elapsed_ms: clock });
                    }
                    proof {
                        let o1 = spec_reset_loop(reads@.skip(i + 1), clock as int, deadline);
                        assert(spec_reset_loop(
                            reads@.skip(i as int),
                            (clock - dur) as int,
                            deadline,
                        ) == SerialOutcome {
                            end: o1.end,
                            lines: seq![t@] + o1.lines,
                            elapsed: o1.elapsed,
                        });
                        assert(seen0 + (seq![t@] + o1.lines) =~= seen + o1.lines);
                    }
                }
            },
        }
        i += 1;
    }
}

} // verus!
