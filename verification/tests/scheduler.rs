use timed_post::client::{create_request, delete_request, reply_request, TransportError};
use timed_post::clock::{decode_time, local_wall_clock, WallClock};
use timed_post::scheduler::{
    coarse_wait, corrected_wait, entry_at, load_entry, measured_drift, probe_wait, read_world,
    wait_until,
    AbortReason, Action, ConfigError, Event, Phase, Readings, Runner, ScheduleEntry,
};
use timed_post::signer::Credential;

const TARGET: i64 = 1704110400000;
const PROBE: i64 = 1741791373578731520;
const REAL: i64 = 1741791378133745669;

fn credential() -> Credential {
    Credential {
        consumer_key: "ck".to_string(),
        consumer_secret: "cs".to_string(),
        access_token: "at".to_string(),
        access_token_secret: "ats".to_string(),
    }
}

fn entry(target: i64, message: &str, report: bool) -> ScheduleEntry {
    ScheduleEntry { target, message: message.to_string(), report }
}

fn at(now: i64, nonce: &str) -> Readings {
    Readings { now, nonce: nonce.to_string(), wall_clock: None }
}

fn at_with(now: i64, nonce: &str, wall_clock: WallClock) -> Readings {
    Readings { now, nonce: nonce.to_string(), wall_clock: Some(wall_clock) }
}

fn posted_clock() -> WallClock {
    WallClock { year: 2024, month: 1, day: 1, hour: 12, minute: 0, second: 0, millis: 123 }
}

#[test]
fn waits_until_the_deadline() {
    assert_eq!(wait_until(100, 350), 250);
    assert_eq!(wait_until(100, 100), 0);
    assert_eq!(wait_until(100, 99), 0);
    assert_eq!(wait_until(-5, 5), 10);
    assert_eq!(wait_until(i64::MAX, i128::MIN), 0);
    assert_eq!(wait_until(i64::MIN, i64::MAX as i128), u64::MAX);
    assert_eq!(wait_until(i64::MIN, i128::MAX), u64::MAX);
    assert_eq!(wait_until(0, u64::MAX as i128), u64::MAX);
    assert_eq!(wait_until(1, u64::MAX as i128), u64::MAX - 1);
    assert_eq!(wait_until(-1, u64::MAX as i128), u64::MAX);
}

#[test]
fn coarse_wait_ends_two_seconds_before_the_target() {
    assert_eq!(coarse_wait(TARGET, TARGET - 5000), 3000);
    assert_eq!(coarse_wait(TARGET, TARGET - 2001), 1);
    assert_eq!(coarse_wait(TARGET, TARGET - 2000), 0);
    assert_eq!(coarse_wait(i64::MIN, 0), 0);
}

#[test]
fn probe_wait_ends_one_second_before_the_target() {
    assert_eq!(probe_wait(TARGET, TARGET - 2000), 1000);
    assert_eq!(probe_wait(TARGET, TARGET - 1001), 1);
    assert_eq!(probe_wait(TARGET, TARGET - 1000), 0);
    assert_eq!(probe_wait(i64::MIN, i64::MAX), 0);
}

#[test]
fn a_target_in_the_past_is_not_waited_for() {
    for late in [0, 1, 999, 1000, 2000, 86_400_000] {
        assert_eq!(coarse_wait(TARGET, TARGET + late), 0);
        assert_eq!(probe_wait(TARGET, TARGET + late), 0);
    }
    assert_eq!(coarse_wait(0, i64::MAX), 0);
    assert_eq!(probe_wait(0, i64::MAX), 0);
}

#[test]
fn corrected_wait_shifts_the_target_by_the_drift() {
    // The probe was 37 ms late: the message is sent 37 ms early.
    assert_eq!(corrected_wait(TARGET, TARGET - 1000 + 37, TARGET - 800), 763);
    // The probe was 20 ms early: the message is sent 20 ms late.
    assert_eq!(corrected_wait(TARGET, TARGET - 1000 - 20, TARGET - 800), 820);
    // The probe was on time.
    assert_eq!(corrected_wait(TARGET, TARGET - 1000, TARGET - 800), 800);
}

#[test]
fn drift_is_positive_for_an_early_probe() {
    assert_eq!(measured_drift(TARGET, TARGET - 1000), 0);
    assert_eq!(measured_drift(TARGET, TARGET - 1000 - 20), 20);
    assert_eq!(measured_drift(TARGET, TARGET - 1000 + 37), -37);
    assert_eq!(measured_drift(i64::MAX, i64::MIN), 18446744073709550615);
    assert_eq!(measured_drift(i64::MIN, i64::MAX), -18446744073709552615);
}

#[test]
fn corrected_wait_is_clamped() {
    // A probe that stalled for an hour puts the corrected time in the past.
    assert_eq!(corrected_wait(TARGET, TARGET + 3_600_000, TARGET), 0);
    assert_eq!(corrected_wait(TARGET, TARGET - 1000, TARGET + 1), 0);
    assert_eq!(corrected_wait(i64::MIN, i64::MAX, i64::MAX), 0);
    assert_eq!(corrected_wait(i64::MAX, i64::MIN, i64::MIN), u64::MAX);
}

#[test]
fn an_entry_needs_an_instant() {
    assert_eq!(entry_at(Some(5), "m", true), Ok(entry(5, "m", true)));
    assert_eq!(entry_at(None, "m", true), Err(ConfigError::NoSuchLocalTime));
}

#[test]
fn loads_an_entry_at_its_local_time() {
    let loaded = load_entry("2024-01-01 12:00:00.000", "hello", true).unwrap();
    assert_eq!(loaded.message, "hello");
    assert!(loaded.report);
    assert_eq!(
        local_wall_clock(loaded.target),
        Some(WallClock { year: 2024, month: 1, day: 1, hour: 12, minute: 0, second: 0, millis: 0 })
    );
}

#[test]
fn a_malformed_date_is_a_configuration_error() {
    assert_eq!(load_entry("2024-01-01 12:00:00", "m", false), Err(ConfigError::MalformedDate));
    assert_eq!(load_entry("tomorrow", "m", false), Err(ConfigError::MalformedDate));
    assert_eq!(load_entry("2024-13-01 12:00:00.000", "m", false), Err(ConfigError::MalformedDate));
    assert_eq!(load_entry("", "m", false), Err(ConfigError::MalformedDate));
}

#[test]
fn a_date_outside_the_calendar_is_a_configuration_error() {
    assert_eq!(
        load_entry("2023-02-29 12:00:00.000", "m", false),
        Err(ConfigError::NoSuchLocalTime)
    );
}

#[test]
fn runs_one_entry_from_start_to_finish() {
    let mut runner = Runner::new(credential(), vec![entry(TARGET, "hello", true)]);
    assert_eq!(runner.phase, Phase::Ready);
    assert_eq!(runner.index, 0);

    let action = runner.step(Event::Start, &at(TARGET - 5000, "n0"));
    assert_eq!(action, Action::Sleep { millis: 3000 });
    assert_eq!(runner.phase, Phase::Idle);

    let action = runner.step(Event::Woke, &at(TARGET - 2000, "n0"));
    assert_eq!(action, Action::Sleep { millis: 1000 });
    assert_eq!(runner.phase, Phase::WaitingForTest);

    let action = runner.step(Event::Woke, &at(TARGET - 1000, "n1"));
    assert_eq!(
        action,
        Action::Create { request: create_request("test", &credential(), "n1", 1704110399) }
    );
    assert_eq!(runner.phase, Phase::Probing);

    let action = runner.step(Event::Created { identifier: PROBE }, &at(TARGET - 900, "n2"));
    assert_eq!(
        action,
        Action::Delete { request: delete_request(PROBE, &credential(), "n2", 1704110399) }
    );
    assert_eq!(decode_time(PROBE), TARGET - 963);
    assert_eq!(runner.phase, Phase::TestPosted { probe_posted: TARGET - 963 });

    // The probe was 37 ms late, so the message is sent at the target minus 37 ms.
    let now = TARGET - 800;
    let action = runner.step(Event::Completed, &at(now, "n2"));
    assert_eq!(action, Action::Sleep { millis: 763 });
    assert_eq!(now + 763, TARGET - 37);
    assert_eq!(runner.phase, Phase::WaitingForTarget);

    let action = runner.step(Event::Woke, &at(TARGET - 37, "n3"));
    assert_eq!(
        action,
        Action::Create { request: create_request("hello", &credential(), "n3", 1704110399) }
    );
    assert_eq!(runner.phase, Phase::Posting);

    let action = runner
        .step(Event::Created { identifier: REAL }, &at_with(TARGET + 200, "n4", posted_clock()));
    let expected =
        reply_request(REAL, "2024-01-01 12:00:00.123", &credential(), "n4", 1704110400);
    assert_eq!(
        expected.body,
        "status=2024-01-01%2012%3A00%3A00.123&in_reply_to_status_id=1741791378133745669"
    );
    assert_eq!(action, Action::Reply { request: expected });
    assert_eq!(runner.phase, Phase::Posted);
    assert_eq!(runner.index, 0);

    let action = runner.step(Event::Completed, &at(TARGET + 400, "n5"));
    assert_eq!(action, Action::Finish);
    assert_eq!(runner.phase, Phase::Finished);
    assert_eq!(runner.index, 1);

    let action = runner.step(Event::Woke, &at(TARGET + 500, "n6"));
    assert_eq!(action, Action::Finish);
    assert_eq!(runner.phase, Phase::Finished);
}

#[test]
fn the_requests_of_a_run_carry_the_expected_signatures() {
    let mut runner = Runner::new(credential(), vec![entry(TARGET, "hello", false)]);
    runner.step(Event::Start, &at(TARGET - 5000, "n0"));
    runner.step(Event::Woke, &at(TARGET - 2000, "n0"));
    match runner.step(Event::Woke, &at(TARGET - 1000, "n1")) {
        Action::Create { request } => {
            assert_eq!(request.body, "status=test");
            assert!(request.authorization.contains(
                "oauth_signature=\"%2FnlCEv3Eh6OUmZhKcz73nP4lk9g%3D\""
            ));
        },
        other => panic!("{:?}", other),
    }
    match runner.step(Event::Created { identifier: PROBE }, &at(TARGET - 900, "n2")) {
        Action::Delete { request } => {
            assert!(request.url.ends_with("/statuses/destroy/1741791373578731520.json"));
            assert!(request.authorization.contains(
                "oauth_signature=\"CC5LnJaq5Yw7HT2RAFSGbTAV8NY%3D\""
            ));
        },
        other => panic!("{:?}", other),
    }
    runner.step(Event::Completed, &at(TARGET - 800, "n2"));
    match runner.step(Event::Woke, &at(TARGET - 37, "n3")) {
        Action::Create { request } => {
            assert_eq!(request.body, "status=hello");
            assert!(request.authorization.contains(
                "oauth_signature=\"7eEioEz1Mhh4kNadRdMb5FXPs0o%3D\""
            ));
        },
        other => panic!("{:?}", other),
    }
}

#[test]
fn an_entry_without_a_report_gets_no_reply() {
    let mut runner = Runner::new(credential(), vec![entry(TARGET, "hello", false)]);
    runner.step(Event::Start, &at(TARGET - 5000, "n"));
    runner.step(Event::Woke, &at(TARGET - 2000, "n"));
    runner.step(Event::Woke, &at(TARGET - 1000, "n"));
    runner.step(Event::Created { identifier: PROBE }, &at(TARGET - 900, "n"));
    runner.step(Event::Completed, &at(TARGET - 800, "n"));
    runner.step(Event::Woke, &at(TARGET - 37, "n"));
    let action = runner.step(Event::Created { identifier: REAL }, &at(TARGET + 200, "n"));
    assert_eq!(action, Action::Finish);
    assert_eq!(runner.phase, Phase::Finished);
    assert_eq!(runner.index, 1);
}

#[test]
fn a_target_in_the_past_proceeds_at_once() {
    let mut runner = Runner::new(credential(), vec![entry(TARGET, "late", false)]);
    let now = TARGET + 60_000;
    assert_eq!(runner.step(Event::Start, &at(now, "n")), Action::Sleep { millis: 0 });
    assert_eq!(runner.step(Event::Woke, &at(now, "n")), Action::Sleep { millis: 0 });
    assert!(matches!(runner.step(Event::Woke, &at(now, "n")), Action::Create { .. }));
    // The probe is posted a minute late, so the corrected time is further in the past.
    let probe = ((now + 40 - 1288834974657) << 22) + 3;
    assert!(matches!(
        runner.step(Event::Created { identifier: probe }, &at(now + 50, "n")),
        Action::Delete { .. }
    ));
    assert_eq!(runner.phase, Phase::TestPosted { probe_posted: now + 40 });
    assert_eq!(runner.step(Event::Completed, &at(now + 90, "n")), Action::Sleep { millis: 0 });
    assert!(matches!(runner.step(Event::Woke, &at(now + 90, "n")), Action::Create { .. }));
}

#[test]
fn the_second_entry_waits_for_the_first_to_complete() {
    let second = TARGET + 60_000;
    let entries = vec![entry(TARGET, "first", true), entry(second, "second", false)];
    let mut runner = Runner::new(credential(), entries);
    let steps = [
        (Event::Start, at(TARGET - 5000, "n")),
        (Event::Woke, at(TARGET - 2000, "n")),
        (Event::Woke, at(TARGET - 1000, "n")),
        (Event::Created { identifier: PROBE }, at(TARGET - 900, "n")),
        (Event::Completed, at(TARGET - 800, "n")),
        (Event::Woke, at(TARGET - 37, "n")),
        (Event::Created { identifier: REAL }, at_with(TARGET + 200, "n", posted_clock())),
    ];
    for (event, readings) in steps {
        let action = runner.step(event, &readings);
        assert_eq!(runner.index, 0);
        assert!(!matches!(action, Action::Finish | Action::Abort { .. }));
        if let Action::Sleep { millis } = action {
            // No wait of the first entry reaches for the time of the second.
            assert!(readings.now + (millis as i64) <= TARGET);
        }
    }
    assert_eq!(runner.phase, Phase::Posted);
    // Only when the reply has gone through does the coarse wait of the second begin.
    let action = runner.step(Event::Completed, &at(TARGET + 400, "n"));
    assert_eq!(runner.index, 1);
    assert_eq!(runner.phase, Phase::Idle);
    assert_eq!(action, Action::Sleep { millis: 60_000 - 2000 - 400 });

    let action = runner.step(Event::Woke, &at(second - 2000, "n"));
    assert_eq!(action, Action::Sleep { millis: 1000 });
    let action = runner.step(Event::Woke, &at(second - 1000, "n"));
    assert!(matches!(action, Action::Create { .. }));
}

#[test]
fn an_empty_schedule_is_finished_at_once() {
    let mut runner = Runner::new(credential(), Vec::new());
    assert_eq!(runner.step(Event::Start, &at(0, "n")), Action::Finish);
    assert_eq!(runner.phase, Phase::Finished);
}

#[test]
fn a_failed_call_aborts_the_run() {
    let mut runner = Runner::new(credential(), vec![entry(TARGET, "m", false)]);
    runner.step(Event::Start, &at(TARGET - 5000, "n"));
    runner.step(Event::Woke, &at(TARGET - 2000, "n"));
    runner.step(Event::Woke, &at(TARGET - 1000, "n"));
    let action =
        runner.step(Event::Failed { error: TransportError::CallFailed }, &at(TARGET - 900, "n"));
    assert_eq!(
        action,
        Action::Abort { reason: AbortReason::Transport(TransportError::CallFailed) }
    );
    assert_eq!(runner.phase, Phase::Aborted);
    let action = runner.step(Event::Woke, &at(TARGET, "n"));
    assert_eq!(action, Action::Abort { reason: AbortReason::OutOfTurn });
    assert_eq!(runner.phase, Phase::Aborted);
}

#[test]
fn an_undecodable_response_aborts_the_run() {
    let mut runner = Runner::new(credential(), vec![entry(TARGET, "m", false)]);
    runner.step(Event::Start, &at(TARGET - 5000, "n"));
    let action = runner
        .step(Event::Failed { error: TransportError::UndecodableBody }, &at(TARGET - 900, "n"));
    assert_eq!(
        action,
        Action::Abort { reason: AbortReason::Transport(TransportError::UndecodableBody) }
    );
}

#[test]
fn an_event_out_of_turn_aborts_the_run() {
    let mut runner = Runner::new(credential(), vec![entry(TARGET, "m", false)]);
    let action = runner.step(Event::Woke, &at(TARGET - 5000, "n"));
    assert_eq!(action, Action::Abort { reason: AbortReason::OutOfTurn });
    assert_eq!(runner.phase, Phase::Aborted);

    let mut runner = Runner::new(credential(), vec![entry(TARGET, "m", false)]);
    runner.step(Event::Start, &at(TARGET - 5000, "n"));
    let action = runner.step(Event::Created { identifier: 1 }, &at(TARGET - 5000, "n"));
    assert_eq!(action, Action::Abort { reason: AbortReason::OutOfTurn });

    let mut runner = Runner::new(credential(), vec![entry(TARGET, "m", false)]);
    runner.step(Event::Start, &at(TARGET - 5000, "n"));
    runner.step(Event::Woke, &at(TARGET - 2000, "n"));
    runner.step(Event::Woke, &at(TARGET - 1000, "n"));
    let action = runner.step(Event::Completed, &at(TARGET - 900, "n"));
    assert_eq!(action, Action::Abort { reason: AbortReason::OutOfTurn });
}

#[test]
fn a_report_without_a_wall_clock_aborts_the_run() {
    let mut runner = Runner::new(credential(), vec![entry(TARGET, "m", true)]);
    runner.step(Event::Start, &at(TARGET - 5000, "n"));
    runner.step(Event::Woke, &at(TARGET - 2000, "n"));
    runner.step(Event::Woke, &at(TARGET - 1000, "n"));
    runner.step(Event::Created { identifier: PROBE }, &at(TARGET - 900, "n"));
    runner.step(Event::Completed, &at(TARGET - 800, "n"));
    runner.step(Event::Woke, &at(TARGET - 37, "n"));
    let action = runner.step(Event::Created { identifier: REAL }, &at(TARGET + 200, "n"));
    assert_eq!(action, Action::Abort { reason: AbortReason::NoWallClock });
    assert_eq!(runner.phase, Phase::Aborted);
}

#[test]
fn a_runner_without_its_entry_aborts() {
    let mut runner = Runner::new(credential(), vec![entry(TARGET, "m", false)]);
    runner.index = 3;
    runner.phase = Phase::Idle;
    let action = runner.step(Event::Woke, &at(TARGET, "n"));
    assert_eq!(action, Action::Abort { reason: AbortReason::OutOfTurn });
}

#[test]
fn the_world_is_read_for_a_step() {
    let readings = read_world(Event::Woke);
    assert!(readings.now > 1288834974657);
    assert_eq!(readings.nonce, (readings.now / 1000).to_string());
    assert_eq!(readings.wall_clock, None);

    let readings = read_world(Event::Created { identifier: REAL });
    assert_eq!(readings.wall_clock, local_wall_clock(decode_time(REAL)));
    assert!(readings.wall_clock.is_some());
}

#[test]
fn advancing_reads_the_clock() {
    let now = read_world(Event::Start).now;
    let mut runner = Runner::new(credential(), vec![entry(now + 3_600_000, "m", true)]);
    match runner.advance(Event::Start) {
        Action::Sleep { millis } => {
            assert!(millis <= 3_600_000 - 2000);
            assert!(millis > 3_600_000 - 2000 - 60_000);
        },
        other => panic!("{:?}", other),
    }
    assert_eq!(runner.phase, Phase::Idle);

    let mut late = Runner::new(credential(), vec![entry(now - 1, "m", true)]);
    assert_eq!(late.advance(Event::Start), Action::Sleep { millis: 0 });
    assert_eq!(late.advance(Event::Woke), Action::Sleep { millis: 0 });
    assert!(matches!(late.advance(Event::Woke), Action::Create { .. }));
    let probe = (now - 1288834974657) << 22;
    assert!(matches!(late.advance(Event::Created { identifier: probe }), Action::Delete { .. }));
    assert_eq!(late.phase, Phase::TestPosted { probe_posted: now });
    assert_eq!(late.advance(Event::Completed), Action::Sleep { millis: 0 });
    assert!(matches!(late.advance(Event::Woke), Action::Create { .. }));
    match late.advance(Event::Created { identifier: REAL }) {
        Action::Reply { request } => {
            assert!(request.body.starts_with("status=20"));
            assert!(request.body.ends_with("&in_reply_to_status_id=1741791378133745669"));
            // 23 characters of time, of which a space and two colons take three each.
            assert_eq!(
                request.body.len(),
                "status=".len() + 29 + "&in_reply_to_status_id=".len() + 19
            );
        },
        other => panic!("{:?}", other),
    }
    assert_eq!(late.advance(Event::Completed), Action::Finish);
}
