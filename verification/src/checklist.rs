//! Production-test checklist: the verdict predicate of the Test operation.
//!
//! Each device line is checked against the fixed milestone vocabulary; a
//! matching line sets one checklist flag and derives `[CHECK]` / `[INFO]`
//! lines for the UI. The session succeeds once all five flags are set.
//! `[EVENT:TEST_PASS]` and `[EVENT:TEST_FAIL]` are deliberately ignored:
//! they may fire before MQTT connects.

use vstd::prelude::*;

use crate::TestResult;
use crate::parser::extract_param;
use crate::parser::extract_param_spec;
use crate::text::contains_seq;
use crate::text::contains_substring;
use crate::text::join_strings;
use crate::text::join_with;
use crate::text::view_opt;
use crate::text::views;

verus! {

/// The five milestone flags tracked during a Test session. Flags are only
/// ever set, never cleared.
#[derive(Clone, Copy, PartialEq, Eq, Structural, Debug)]
pub struct TestChecklist {
    pub boot_complete: bool,
    pub wifi_connected: bool,
    pub mqtt_connected: bool,
    pub sensor_ok: bool,
    pub mqtt_publish_ok: bool,
}

pub open spec fn fresh_checklist() -> TestChecklist {
    TestChecklist {
        boot_complete: false,
        wifi_connected: false,
        mqtt_connected: false,
        sensor_ok: false,
        mqtt_publish_ok: false,
    }
}

pub open spec fn all_passed(c: TestChecklist) -> bool {
    c.boot_complete && c.wifi_connected && c.mqtt_connected && c.sensor_ok && c.mqtt_publish_ok
}

/// Flag `a` implies flag `b`, field by field: `b` has every flag of `a`.
pub open spec fn flags_le(a: TestChecklist, b: TestChecklist) -> bool {
    &&& a.boot_complete ==> b.boot_complete
    &&& a.wifi_connected ==> b.wifi_connected
    &&& a.mqtt_connected ==> b.mqtt_connected
    &&& a.sensor_ok ==> b.sensor_ok
    &&& a.mqtt_publish_ok ==> b.mqtt_publish_ok
}

pub open spec fn boot_marker() -> Seq<char> {
    "[EVENT:BOOT_COMPLETE]"@
}

pub open spec fn wifi_marker() -> Seq<char> {
    "[EVENT:WIFI_CONNECTED]"@
}

pub open spec fn mqtt_marker() -> Seq<char> {
    "[EVENT:MQTT_CONNECTED]"@
}

pub open spec fn sensor_marker() -> Seq<char> {
    "[EVENT:SENSOR_OK]"@
}

pub open spec fn publish_marker() -> Seq<char> {
    "[EVENT:MQTT_PUBLISH_OK]"@
}

pub open spec fn boot_check_line() -> Seq<char> {
    "[CHECK] ✓ Boot complete"@
}

pub open spec fn wifi_check_line() -> Seq<char> {
    "[CHECK] ✓ WiFi connected"@
}

pub open spec fn mqtt_check_line() -> Seq<char> {
    "[CHECK] ✓ MQTT connected"@
}

pub open spec fn sensor_check_line() -> Seq<char> {
    "[CHECK] ✓ Sensor OK"@
}

pub open spec fn publish_check_line() -> Seq<char> {
    "[CHECK] ✓ MQTT publish OK"@
}

pub open spec fn all_passed_line() -> Seq<char> {
    "[CHECK] ✓ All checks passed!"@
}

pub open spec fn firmware_info_prefix() -> Seq<char> {
    "[INFO] Firmware: "@
}

pub open spec fn mac_info_prefix() -> Seq<char> {
    "[INFO] MAC: "@
}

/// The checklist after one device line. The branches mirror the milestone
/// vocabulary: the first marker contained in the line wins.
pub open spec fn step_flags(c: TestChecklist, line: Seq<char>) -> TestChecklist {
    if contains_seq(line, boot_marker()) {
        TestChecklist { boot_complete: true, ..c }
    } else if contains_seq(line, wifi_marker()) {
        TestChecklist { wifi_connected: true, ..c }
    } else if contains_seq(line, mqtt_marker()) {
        TestChecklist { mqtt_connected: true, ..c }
    } else if contains_seq(line, sensor_marker()) {
        TestChecklist { sensor_ok: true, ..c }
    } else if contains_seq(line, publish_marker()) {
        TestChecklist { mqtt_publish_ok: true, ..c }
    } else {
        c
    }
}

/// The `[CHECK]` / `[INFO]` lines derived from one device line, before the
/// possible closing `All checks passed!` line.
pub open spec fn event_emits(c: TestChecklist, line: Seq<char>) -> Seq<Seq<char>> {
    if contains_seq(line, boot_marker()) {
        seq![boot_check_line()] + (match extract_param_spec(line, "FIRMWARE"@) {
            Some(fw) => seq![firmware_info_prefix() + fw],
            None => Seq::empty(),
        }) + (match extract_param_spec(line, "MAC"@) {
            Some(mac) => seq![mac_info_prefix() + mac],
            None => Seq::empty(),
        })
    } else if contains_seq(line, wifi_marker()) {
        seq![wifi_check_line()]
    } else if contains_seq(line, mqtt_marker()) {
        seq![mqtt_check_line()]
    } else if contains_seq(line, sensor_marker()) {
        if c.sensor_ok {
            Seq::empty()
        } else {
            seq![sensor_check_line()]
        }
    } else if contains_seq(line, publish_marker()) {
        if c.mqtt_publish_ok {
            Seq::empty()
        } else {
            seq![publish_check_line()]
        }
    } else {
        Seq::empty()
    }
}

/// All lines derived from one device line, closing line included.
pub open spec fn step_emits(c: TestChecklist, line: Seq<char>) -> Seq<Seq<char>> {
    event_emits(c, line) + if all_passed(step_flags(c, line)) {
        seq![all_passed_line()]
    } else {
        Seq::empty()
    }
}

/// Ghost model of a whole Test session: flags, captured parameters, and the
/// ordered list of nonempty device lines seen so far.
#[verifier::ext_equal]
pub struct TestModel {
    pub flags: TestChecklist,
    pub firmware: Option<Seq<char>>,
    pub mac: Option<Seq<char>>,
    pub events: Seq<Seq<char>>,
}

pub open spec fn fresh_model() -> TestModel {
    TestModel { flags: fresh_checklist(), firmware: None, mac: None, events: Seq::empty() }
}

/// The whole session model after one device line.
pub open spec fn step_model(m: TestModel, line: Seq<char>) -> TestModel {
    TestModel {
        flags: step_flags(m.flags, line),
        firmware: if contains_seq(line, boot_marker()) && extract_param_spec(line, "FIRMWARE"@)
            is Some {
            extract_param_spec(line, "FIRMWARE"@)
        } else {
            m.firmware
        },
        mac: if contains_seq(line, boot_marker()) && extract_param_spec(line, "MAC"@) is Some {
            extract_param_spec(line, "MAC"@)
        } else {
            m.mac
        },
        events: m.events.push(line),
    }
}

/// The session model after a sequence of device lines.
pub open spec fn run_model(m: TestModel, lines: Seq<Seq<char>>) -> TestModel
    decreases lines.len(),
{
    if lines.len() == 0 {
        m
    } else {
        run_model(step_model(m, lines[0]), lines.drop_first())
    }
}

/// The checklist after a sequence of device lines.
pub open spec fn run_flags(c: TestChecklist, lines: Seq<Seq<char>>) -> TestChecklist
    decreases lines.len(),
{
    if lines.len() == 0 {
        c
    } else {
        run_flags(step_flags(c, lines[0]), lines.drop_first())
    }
}

pub proof fn lemma_run_model_flags(m: TestModel, lines: Seq<Seq<char>>)
    ensures
        run_model(m, lines).flags == run_flags(m.flags, lines),
    decreases lines.len(),
{
    if lines.len() > 0 {
        lemma_run_model_flags(step_model(m, lines[0]), lines.drop_first());
    }
}

pub proof fn lemma_run_model_concat(m: TestModel, a: Seq<Seq<char>>, b: Seq<Seq<char>>)
    ensures
        run_model(m, a + b) == run_model(run_model(m, a), b),
    decreases a.len(),
{
    if a.len() == 0 {
        assert(a + b =~= b);
    } else {
        assert((a + b)[0] == a[0]);
        assert((a + b).drop_first() =~= a.drop_first() + b);
        lemma_run_model_concat(step_model(m, a[0]), a.drop_first(), b);
    }
}

/// One more line runs the session model one more step.
pub proof fn lemma_run_model_push(m: TestModel, lines: Seq<Seq<char>>, l: Seq<char>)
    ensures
        run_model(m, lines.push(l)) == step_model(run_model(m, lines), l),
{
    assert(lines.push(l) =~= lines + seq![l]);
    lemma_run_model_concat(m, lines, seq![l]);
    let m1 = run_model(m, lines);
    assert(seq![l].drop_first() =~= Seq::<Seq<char>>::empty());
    assert(run_model(step_model(m1, l), Seq::<Seq<char>>::empty()) == step_model(m1, l));
    assert(run_model(m1, seq![l]) == step_model(m1, l));
}

pub proof fn lemma_run_flags_push(c: TestChecklist, lines: Seq<Seq<char>>, l: Seq<char>)
    ensures
        run_flags(c, lines.push(l)) == step_flags(run_flags(c, lines), l),
{
    lemma_run_model_flags(TestModel { flags: c, firmware: None, mac: None, events: Seq::empty() }, lines.push(l));
    lemma_run_model_flags(TestModel { flags: c, firmware: None, mac: None, events: Seq::empty() }, lines);
    lemma_run_model_push(TestModel { flags: c, firmware: None, mac: None, events: Seq::empty() }, lines, l);
}

/// Everything the UI channel receives for a sequence of device lines: each
/// raw line in arrival order, immediately followed by its derived lines.
pub open spec fn ui_stream(c: TestChecklist, lines: Seq<Seq<char>>) -> Seq<Seq<char>>
    decreases lines.len(),
{
    if lines.len() == 0 {
        Seq::empty()
    } else {
        seq![lines[0]] + step_emits(c, lines[0]) + ui_stream(
            step_flags(c, lines[0]),
            lines.drop_first(),
        )
    }
}

/// Only the derived lines, in order, for a sequence of device lines.
pub open spec fn emits_stream(c: TestChecklist, lines: Seq<Seq<char>>) -> Seq<Seq<char>>
    decreases lines.len(),
{
    if lines.len() == 0 {
        Seq::empty()
    } else {
        step_emits(c, lines[0]) + emits_stream(step_flags(c, lines[0]), lines.drop_first())
    }
}

pub proof fn lemma_ui_stream_concat(c: TestChecklist, a: Seq<Seq<char>>, b: Seq<Seq<char>>)
    ensures
        ui_stream(c, a + b) == ui_stream(c, a) + ui_stream(run_flags(c, a), b),
    decreases a.len(),
{
    if a.len() == 0 {
        assert(a + b =~= b);
        assert(ui_stream(c, a) + ui_stream(c, b) =~= ui_stream(c, b));
    } else {
        assert((a + b)[0] == a[0]);
        assert((a + b).drop_first() =~= a.drop_first() + b);
        lemma_ui_stream_concat(step_flags(c, a[0]), a.drop_first(), b);
        assert(ui_stream(c, a + b) =~= ui_stream(c, a) + ui_stream(run_flags(c, a), b));
    }
}

/// One more line extends the UI stream with the raw line and its derived
/// lines.
pub proof fn lemma_ui_stream_push(c: TestChecklist, lines: Seq<Seq<char>>, l: Seq<char>)
    ensures
        ui_stream(c, lines.push(l)) == ui_stream(c, lines) + seq![l] + step_emits(
            run_flags(c, lines),
            l,
        ),
{
    assert(lines.push(l) =~= lines + seq![l]);
    lemma_ui_stream_concat(c, lines, seq![l]);
    let cf = run_flags(c, lines);
    assert(seq![l].drop_first() =~= Seq::<Seq<char>>::empty());
    assert(ui_stream(step_flags(cf, l), Seq::empty()) =~= Seq::<Seq<char>>::empty());
    assert(ui_stream(cf, seq![l]) =~= seq![l] + step_emits(cf, l));
    assert(ui_stream(c, lines) + (seq![l] + step_emits(cf, l)) =~= ui_stream(c, lines) + seq![l]
        + step_emits(cf, l));
}

/// Order preservation: device line `i` appears in the UI stream at the
/// offset holding everything emitted for the lines before it; its derived
/// lines follow immediately, and the next device line comes right after
/// them. Offsets are therefore strictly increasing in `i`.
pub proof fn lemma_order_preservation(c: TestChecklist, lines: Seq<Seq<char>>, i: int)
    requires
        0 <= i < lines.len(),
    ensures
        ({
            let ui = ui_stream(c, lines);
            let pos = ui_stream(c, lines.take(i)).len() as int;
            let ci = run_flags(c, lines.take(i));
            let emits = step_emits(ci, lines[i]);
            &&& pos + 1 + emits.len() <= ui.len()
            &&& ui[pos] == lines[i]
            &&& ui.subrange(pos + 1, pos + 1 + emits.len()) == emits
            &&& ui_stream(c, lines.take(i + 1)).len() == pos + 1 + emits.len()
        }),
{
    let ui = ui_stream(c, lines);
    let pre = lines.take(i);
    let ci = run_flags(c, pre);
    let emits = step_emits(ci, lines[i]);
    let rest = lines.skip(i);
    assert(lines =~= pre + rest);
    lemma_ui_stream_concat(c, pre, rest);
    assert(rest[0] == lines[i]);
    assert(ui_stream(ci, rest) == seq![lines[i]] + step_emits(ci, rest[0]) + ui_stream(
        step_flags(ci, rest[0]),
        rest.drop_first(),
    ));
    let pos = ui_stream(c, pre).len() as int;
    assert(ui[pos] == lines[i]);
    assert(ui.subrange(pos + 1, pos + 1 + emits.len()) =~= emits);
    let pre1 = lines.take(i + 1);
    assert(pre1 =~= pre + seq![lines[i]]);
    lemma_ui_stream_concat(c, pre, seq![lines[i]]);
    assert(ui_stream(ci, seq![lines[i]]) =~= seq![lines[i]] + emits + ui_stream(
        step_flags(ci, lines[i]),
        seq![lines[i]].drop_first(),
    ));
    assert(seq![lines[i]].drop_first() =~= Seq::<Seq<char>>::empty());
    assert(ui_stream(step_flags(ci, lines[i]), Seq::empty()) =~= Seq::<Seq<char>>::empty());
    assert(ui_stream(c, pre1).len() == pos + 1 + emits.len());
}

/// Checklist monotonicity over one step: no flag goes from set to cleared.
pub proof fn lemma_checklist_monotonic_step(c: TestChecklist, line: Seq<char>)
    ensures
        flags_le(c, step_flags(c, line)),
{
}

/// Checklist monotonicity over a whole session: no flag ever goes from set
/// to cleared, whatever lines the device produces.
pub proof fn lemma_checklist_monotonic(c: TestChecklist, lines: Seq<Seq<char>>)
    ensures
        flags_le(c, run_flags(c, lines)),
    decreases lines.len(),
{
    if lines.len() > 0 {
        lemma_checklist_monotonic(step_flags(c, lines[0]), lines.drop_first());
    }
}

/// Number of occurrences of `x` in `ss`.
pub open spec fn count_occ(ss: Seq<Seq<char>>, x: Seq<char>) -> nat
    decreases ss.len(),
{
    if ss.len() == 0 {
        0
    } else {
        (if ss[0] == x {
            1nat
        } else {
            0nat
        }) + count_occ(ss.drop_first(), x)
    }
}

pub proof fn lemma_count_occ_concat(a: Seq<Seq<char>>, b: Seq<Seq<char>>, x: Seq<char>)
    ensures
        count_occ(a + b, x) == count_occ(a, x) + count_occ(b, x),
    decreases a.len(),
{
    if a.len() == 0 {
        assert(a + b =~= b);
    } else {
        assert((a + b)[0] == a[0]);
        assert((a + b).drop_first() =~= a.drop_first() + b);
        lemma_count_occ_concat(a.drop_first(), b, x);
    }
}

/// Concrete facts about the derived-line literals: their lengths, and the
/// characters that tell the check lines apart from the `[INFO]` lines.
proof fn lemma_check_line_facts()
    ensures
        boot_check_line().len() == 23,
        wifi_check_line().len() == 24,
        mqtt_check_line().len() == 24,
        sensor_check_line().len() == 19,
        publish_check_line().len() == 25,
        all_passed_line().len() == 28,
        firmware_info_prefix().len() == 17,
        mac_info_prefix().len() == 12,
        sensor_check_line()[1] == 'C',
        publish_check_line()[1] == 'C',
        firmware_info_prefix()[1] == 'I',
        mac_info_prefix()[1] == 'I',
{
    reveal_strlit("[CHECK] ✓ Boot complete");
    reveal_strlit("[CHECK] ✓ WiFi connected");
    reveal_strlit("[CHECK] ✓ MQTT connected");
    reveal_strlit("[CHECK] ✓ Sensor OK");
    reveal_strlit("[CHECK] ✓ MQTT publish OK");
    reveal_strlit("[CHECK] ✓ All checks passed!");
    reveal_strlit("[INFO] Firmware: ");
    reveal_strlit("[INFO] MAC: ");
}

proof fn lemma_count_occ_single(x: Seq<char>, target: Seq<char>)
    ensures
        count_occ(seq![x], target) == (if x == target {
            1nat
        } else {
            0nat
        }),
{
    assert(seq![x].drop_first() =~= Seq::<Seq<char>>::empty());
    assert(seq![x][0] == x);
    assert(count_occ(Seq::<Seq<char>>::empty(), target) == 0);
}

/// The sensor check line comes out of one step exactly when the line carries
/// the sensor marker (and no earlier marker) and the flag was still clear.
proof fn lemma_step_sensor_count(c: TestChecklist, line: Seq<char>)
    ensures
        count_occ(step_emits(c, line), sensor_check_line()) == (if !c.sensor_ok && !contains_seq(
            line,
            boot_marker(),
        ) && !contains_seq(line, wifi_marker()) && !contains_seq(line, mqtt_marker())
            && contains_seq(line, sensor_marker()) {
            1nat
        } else {
            0nat
        }),
{
    lemma_check_line_facts();
    let target = sensor_check_line();
    lemma_count_occ_concat(
        event_emits(c, line),
        if all_passed(step_flags(c, line)) {
            seq![all_passed_line()]
        } else {
            Seq::empty()
        },
        target,
    );
    lemma_count_occ_single(all_passed_line(), target);
    lemma_count_occ_single(boot_check_line(), target);
    lemma_count_occ_single(wifi_check_line(), target);
    lemma_count_occ_single(mqtt_check_line(), target);
    lemma_count_occ_single(sensor_check_line(), target);
    lemma_count_occ_single(publish_check_line(), target);
    if contains_seq(line, boot_marker()) {
        let fw_part = match extract_param_spec(line, "FIRMWARE"@) {
            Some(fw) => seq![firmware_info_prefix() + fw],
            None => Seq::<Seq<char>>::empty(),
        };
        let mac_part = match extract_param_spec(line, "MAC"@) {
            Some(mac) => seq![mac_info_prefix() + mac],
            None => Seq::<Seq<char>>::empty(),
        };
        lemma_count_occ_concat(seq![boot_check_line()] + fw_part, mac_part, target);
        lemma_count_occ_concat(seq![boot_check_line()], fw_part, target);
        match extract_param_spec(line, "FIRMWARE"@) {
            Some(fw) => {
                assert((firmware_info_prefix() + fw)[1] == 'I');
                lemma_count_occ_single(firmware_info_prefix() + fw, target);
            },
            None => {},
        }
        match extract_param_spec(line, "MAC"@) {
            Some(mac) => {
                assert((mac_info_prefix() + mac)[1] == 'I');
                lemma_count_occ_single(mac_info_prefix() + mac, target);
            },
            None => {},
        }
    }
}

/// The publish check line, same shape as the sensor case.
proof fn lemma_step_publish_count(c: TestChecklist, line: Seq<char>)
    ensures
        count_occ(step_emits(c, line), publish_check_line()) == (if !c.mqtt_publish_ok
            && !contains_seq(line, boot_marker()) && !contains_seq(line, wifi_marker())
            && !contains_seq(line, mqtt_marker()) && !contains_seq(line, sensor_marker())
            && contains_seq(line, publish_marker()) {
            1nat
        } else {
            0nat
        }),
{
    lemma_check_line_facts();
    let target = publish_check_line();
    lemma_count_occ_concat(
        event_emits(c, line),
        if all_passed(step_flags(c, line)) {
            seq![all_passed_line()]
        } else {
            Seq::empty()
        },
        target,
    );
    lemma_count_occ_single(all_passed_line(), target);
    lemma_count_occ_single(boot_check_line(), target);
    lemma_count_occ_single(wifi_check_line(), target);
    lemma_count_occ_single(mqtt_check_line(), target);
    lemma_count_occ_single(sensor_check_line(), target);
    lemma_count_occ_single(publish_check_line(), target);
    if contains_seq(line, boot_marker()) {
        let fw_part = match extract_param_spec(line, "FIRMWARE"@) {
            Some(fw) => seq![firmware_info_prefix() + fw],
            None => Seq::<Seq<char>>::empty(),
        };
        let mac_part = match extract_param_spec(line, "MAC"@) {
            Some(mac) => seq![mac_info_prefix() + mac],
            None => Seq::<Seq<char>>::empty(),
        };
        lemma_count_occ_concat(seq![boot_check_line()] + fw_part, mac_part, target);
        lemma_count_occ_concat(seq![boot_check_line()], fw_part, target);
        match extract_param_spec(line, "FIRMWARE"@) {
            Some(fw) => {
                assert((firmware_info_prefix() + fw)[1] == 'I');
                lemma_count_occ_single(firmware_info_prefix() + fw, target);
            },
            None => {},
        }
        match extract_param_spec(line, "MAC"@) {
            Some(mac) => {
                assert((mac_info_prefix() + mac)[1] == 'I');
                lemma_count_occ_single(mac_info_prefix() + mac, target);
            },
            None => {},
        }
    }
}

/// Dedup of the sensor check: `[CHECK] ✓ Sensor OK` is derived at most once
/// per session, however often the sensor event repeats; never again once the
/// flag is set.
pub proof fn lemma_sensor_dedup(c: TestChecklist, lines: Seq<Seq<char>>)
    ensures
        count_occ(emits_stream(c, lines), sensor_check_line()) <= 1,
        c.sensor_ok ==> count_occ(emits_stream(c, lines), sensor_check_line()) == 0,
    decreases lines.len(),
{
    if lines.len() > 0 {
        let c1 = step_flags(c, lines[0]);
        lemma_step_sensor_count(c, lines[0]);
        lemma_count_occ_concat(
            step_emits(c, lines[0]),
            emits_stream(c1, lines.drop_first()),
            sensor_check_line(),
        );
        lemma_sensor_dedup(c1, lines.drop_first());
    }
}

/// Dedup of the publish check: `[CHECK] ✓ MQTT publish OK` is derived at
/// most once per session.
pub proof fn lemma_publish_dedup(c: TestChecklist, lines: Seq<Seq<char>>)
    ensures
        count_occ(emits_stream(c, lines), publish_check_line()) <= 1,
        c.mqtt_publish_ok ==> count_occ(emits_stream(c, lines), publish_check_line()) == 0,
    decreases lines.len(),
{
    if lines.len() > 0 {
        let c1 = step_flags(c, lines[0]);
        lemma_step_publish_count(c, lines[0]);
        lemma_count_occ_concat(
            step_emits(c, lines[0]),
            emits_stream(c1, lines.drop_first()),
            publish_check_line(),
        );
        lemma_publish_dedup(c1, lines.drop_first());
    }
}

/// The names of the flags still clear, in the fixed reporting order.
pub open spec fn missing_names(c: TestChecklist) -> Seq<Seq<char>> {
    (if !c.boot_complete {
        seq!["BOOT_COMPLETE"@]
    } else {
        Seq::<Seq<char>>::empty()
    }) + (if !c.wifi_connected {
        seq!["WIFI_CONNECTED"@]
    } else {
        Seq::<Seq<char>>::empty()
    }) + (if !c.mqtt_connected {
        seq!["MQTT_CONNECTED"@]
    } else {
        Seq::<Seq<char>>::empty()
    }) + (if !c.sensor_ok {
        seq!["SENSOR_OK"@]
    } else {
        Seq::<Seq<char>>::empty()
    }) + (if !c.mqtt_publish_ok {
        seq!["MQTT_PUBLISH_OK"@]
    } else {
        Seq::<Seq<char>>::empty()
    })
}

/// The message of a Test session that ran out of time.
pub open spec fn timeout_message(c: TestChecklist) -> Seq<char> {
    if missing_names(c).len() == 0 {
        "Test timed out"@
    } else {
        "Test timed out - missing events: "@ + join_with(missing_names(c), ", "@)
    }
}

/// Build the timeout message: the flags still clear, in the fixed order, or
/// a plain timeout note when none is missing.
pub fn missing_message(c: &TestChecklist) -> (r: String)
    ensures
        r@ == timeout_message(*c),
{
    let mut names: Vec<String> = Vec::new();
    if !c.boot_complete {
        names.push("BOOT_COMPLETE".to_owned());
    }
    if !c.wifi_connected {
        names.push("WIFI_CONNECTED".to_owned());
    }
    if !c.mqtt_connected {
        names.push("MQTT_CONNECTED".to_owned());
    }
    if !c.sensor_ok {
        names.push("SENSOR_OK".to_owned());
    }
    if !c.mqtt_publish_ok {
        names.push("MQTT_PUBLISH_OK".to_owned());
    }
    proof {
        assert(views(names@) =~= missing_names(*c));
    }
    if names.len() == 0 {
        "Test timed out".to_owned()
    } else {
        let mut out = "Test timed out - missing events: ".to_owned();
        let joined = join_strings(&names, ", ");
        out.append(joined.as_str());
        out
    }
}

/// Running state of one Test session: the checklist, the captured
/// parameters, and every nonempty device line in arrival order.
pub struct TestSession {
    pub checklist: TestChecklist,
    pub firmware_version: Option<String>,
    pub mac_address: Option<String>,
    pub events: Vec<String>,
}

impl View for TestSession {
    type V = TestModel;

    open spec fn view(&self) -> TestModel {
        TestModel {
            flags: self.checklist,
            firmware: match self.firmware_version {
                Some(s) => Some(s@),
                None => None,
            },
            mac: match self.mac_address {
                Some(s) => Some(s@),
                None => None,
            },
            events: views(self.events@),
        }
    }
}

impl TestSession {
    pub fn new() -> (s: Self)
        ensures
            s@ == fresh_model(),
    {
        let s = TestSession {
            checklist: TestChecklist {
                boot_complete: false,
                wifi_connected: false,
                mqtt_connected: false,
                sensor_ok: false,
                mqtt_publish_ok: false,
            },
            firmware_version: None,
            mac_address: None,
            events: Vec::new(),
        };
        proof {
            assert(s@ =~= fresh_model());
        }
        s
    }

    /// Feed one nonempty trimmed device line to the verdict predicate.
    /// Returns the derived lines to forward to the UI right after the raw
    /// line, and whether the session has reached terminal success.
    pub fn process_line(&mut self, line: &str) -> (out: (Vec<String>, bool))
        ensures
            final(self)@ == step_model(old(self)@, line@),
            views(out.0@) == step_emits(old(self)@.flags, line@),
            out.1 == all_passed(step_flags(old(self)@.flags, line@)),
    {
        let mut emits: Vec<String> = Vec::new();
        if contains_substring(line, "[EVENT:BOOT_COMPLETE]") {
            self.checklist.boot_complete = true;
            emits.push("[CHECK] ✓ Boot complete".to_owned());
            match extract_param(line, "FIRMWARE") {
                Some(fw) => {
                    let mut info = "[INFO] Firmware: ".to_owned();
                    info.append(fw.as_str());
                    emits.push(info);
                    self.firmware_version = Some(fw);
                },
                None => {},
            }
            match extract_param(line, "MAC") {
                Some(mac) => {
                    let mut info = "[INFO] MAC: ".to_owned();
                    info.append(mac.as_str());
                    emits.push(info);
                    self.mac_address = Some(mac);
                },
                None => {},
            }
        } else if contains_substring(line, "[EVENT:WIFI_CONNECTED]") {
            self.checklist.wifi_connected = true;
            emits.push("[CHECK] ✓ WiFi connected".to_owned());
        } else if contains_substring(line, "[EVENT:MQTT_CONNECTED]") {
            self.checklist.mqtt_connected = true;
            emits.push("[CHECK] ✓ MQTT connected".to_owned());
        } else if contains_substring(line, "[EVENT:SENSOR_OK]") {
            if !self.checklist.sensor_ok {
                self.checklist.sensor_ok = true;
                emits.push("[CHECK] ✓ Sensor OK".to_owned());
            }
        } else if contains_substring(line, "[EVENT:MQTT_PUBLISH_OK]") {
            if !self.checklist.mqtt_publish_ok {
                self.checklist.mqtt_publish_ok = true;
                emits.push("[CHECK] ✓ MQTT publish OK".to_owned());
            }
        }
        proof {
            assert(views(emits@) =~= event_emits(old(self)@.flags, line@));
        }
        let done = self.checklist.boot_complete && self.checklist.wifi_connected
            && self.checklist.mqtt_connected && self.checklist.sensor_ok
            && self.checklist.mqtt_publish_ok;
        if done {
            emits.push("[CHECK] ✓ All checks passed!".to_owned());
        }
        self.events.push(line.to_owned());
        proof {
            assert(self@ =~= step_model(old(self)@, line@));
            assert(views(emits@) =~= step_emits(old(self)@.flags, line@));
        }
        (emits, done)
    }

    /// Close the session into its verdict record: on success the captured
    /// parameters and the fixed message, on timeout the message naming the
    /// missing events and no parameters; the event list either way.
    pub fn into_result(self, passed: bool) -> (r: TestResult)
        ensures
            r.success == passed,
            views(r.events@) == self@.events,
            passed ==> r.message@ == "All tests passed"@ && view_opt(r.firmware_version)
                == self@.firmware && view_opt(r.mac_address) == self@.mac,
            !passed ==> r.message@ == timeout_message(self@.flags) && r.firmware_version is None
                && r.mac_address is None,
    {
        if passed {
            TestResult {
                success: true,
                message: "All tests passed".to_owned(),
                events: self.events,
                firmware_version: self.firmware_version,
                mac_address: self.mac_address,
            }
        } else {
            let message = missing_message(&self.checklist);
            TestResult {
                success: false,
                message,
                events: self.events,
                firmware_version: None,
                mac_address: None,
            }
        }
    }
}

} // verus!
