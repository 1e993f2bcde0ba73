use benchpmc::error::Error;
use benchpmc::mock::{ReplayEvent, ScriptedEvent};
use benchpmc::rsd::RSDPrinter;
use benchpmc::runner::{exit_code, exit_verdict, Runner, WaitOutcome, BAD_EXEC};

// The pid and wait outcome that a launch of the target reports are handed to
// the runner's two phases, as the program does around the launch itself.
fn drive(r: &mut Runner, counters: &mut Vec<ScriptedEvent>, outcome: WaitOutcome) -> Result<(), Error> {
    r.launched(counters, Some(4242))?;
    r.exited(counters, exit_code(outcome))
}

#[test]
fn args() {
    let args = vec!["one", "two"];

    let r = Runner::new("/usr/bin/true");
    assert_eq!(r.args, None);

    let r = r.args(&args);
    assert_eq!(r.args, Some(args.as_slice()));
}

#[test]
fn mod_success() {
    let mut r = Runner::new("/usr/bin/true");

    let mut counters = vec![ScriptedEvent::new()];

    assert!(drive(&mut r, &mut counters, WaitOutcome::Exited(0)).is_ok());
}

#[test]
fn bad_return_code() {
    let mut r = Runner::new("/usr/bin/false");

    assert_eq!(
        drive(&mut r, &mut vec![ScriptedEvent::new()], WaitOutcome::Exited(1)).unwrap_err(),
        Error::ExecError(String::from("non-zero exit status"))
    );
}

#[test]
fn bad_exec() {
    let mut r = Runner::new("not-a-thing");

    assert_eq!(
        drive(&mut r, &mut vec![ScriptedEvent::new()], WaitOutcome::Exited(BAD_EXEC)).unwrap_err(),
        Error::ExecError(String::from("failed to exec"))
    );
}

#[test]
fn attach_err() {
    let mut err = ScriptedEvent::new();
    err.attach_err = Some(Error::MockError);

    let counters = &mut vec![ScriptedEvent::new(), err, ScriptedEvent::new()];

    let mut r = Runner::new("/usr/bin/true");
    assert_eq!(drive(&mut r, counters, WaitOutcome::Exited(0)), Err(Error::MockError));
}

#[test]
fn start_err() {
    let mut err = ScriptedEvent::new();
    err.start_err = Some(Error::MockError);

    let counters = &mut vec![ScriptedEvent::new(), err, ScriptedEvent::new()];

    let mut r = Runner::new("/usr/bin/true");
    assert_eq!(
        drive(&mut r, counters, WaitOutcome::Exited(0)),
        Err(Error::StartError(Box::new(Error::MockError)))
    );
    // the counter after the failing one was never started
    assert!(counters[2].start_err.is_none());
}

#[test]
fn stop_err() {
    let mut err = ScriptedEvent::new();
    err.stop_err = Some(Error::MockError);

    let counters = &mut vec![ScriptedEvent::new(), err, ScriptedEvent::new()];

    let mut r = Runner::new("/usr/bin/true");
    assert_eq!(
        drive(&mut r, counters, WaitOutcome::Exited(0)),
        Err(Error::StopError(Box::new(Error::MockError)))
    );
    // no counter was reset
    assert_eq!(counters[0].value, None);
}

#[test]
fn set_err() {
    let mut err = ScriptedEvent::new();
    err.set_err = Some(Error::MockError);

    let counters = &mut vec![err];
    let mut r = Runner::new("/usr/bin/true");

    assert_eq!(drive(&mut r, counters, WaitOutcome::Exited(0)), Err(Error::MockError));
    assert_eq!(counters[0].value, Some(0));
}

#[test]
fn set_ok() {
    let mut mock = ScriptedEvent::new();
    mock.set_ret = Some(42);

    let counters = &mut vec![mock];
    let mut r = Runner::new("/usr/bin/true");

    assert!(drive(&mut r, counters, WaitOutcome::Exited(0)).is_ok());
    assert_eq!(counters[0].value, Some(0));
}

#[test]
fn missing_pid_fails_before_any_counter() {
    let mut r = Runner::new("/usr/bin/true");
    let mut err = ScriptedEvent::new();
    err.attach_err = Some(Error::MockError);
    let counters = &mut vec![err];

    assert_eq!(
        r.launched(counters, None),
        Err(Error::ExecError(String::from("failed to start child process")))
    );
    // the scripted attach failure was not consumed
    assert_eq!(counters[0].attach_err, Some(Error::MockError));
}

#[test]
fn attach_failure_starts_no_counter() {
    let mut r = Runner::new("/usr/bin/true");
    let mut first = ScriptedEvent::new();
    first.start_err = Some(Error::MockError);
    let mut second = ScriptedEvent::new();
    second.attach_err = Some(Error::ExecError(String::from("busy")));
    let counters = &mut vec![first, second];

    assert_eq!(
        r.launched(counters, Some(7)),
        Err(Error::ExecError(String::from("busy")))
    );
    // the first counter's planned start failure was never reached
    assert_eq!(counters[0].start_err, Some(Error::MockError));
}

#[test]
fn failed_target_still_stops_counters() {
    let mut r = Runner::new("/usr/bin/false");
    let mut c = ScriptedEvent::new();
    c.stop_err = Some(Error::MockError);
    let counters = &mut vec![c];

    r.launched(counters, Some(7)).unwrap();
    assert_eq!(
        r.exited(counters, Some(1)),
        Err(Error::StopError(Box::new(Error::MockError)))
    );
}

#[test]
fn failed_target_is_not_recorded() {
    let mut r = Runner::new("/usr/bin/false");
    let counters = &mut vec![ScriptedEvent::new()];

    r.launched(counters, Some(7)).unwrap();
    assert!(r.exited(counters, None).is_err());
    assert_eq!(counters[0].value, None);
}

#[test]
fn every_iteration_records_each_counter_once() {
    let mut r = Runner::new("/usr/bin/true");
    let counters = &mut vec![
        RSDPrinter::new(ReplayEvent::new("a", &[1, 2, 3, 4])),
        RSDPrinter::new(ReplayEvent::new("b", &[10, 20, 30, 40])),
    ];
    for _ in 0..3 {
        r.launched(counters, Some(11)).unwrap();
        r.exited(counters, Some(0)).unwrap();
    }
    assert_eq!(counters[0].values(), &[4, 3, 2]);
    assert_eq!(counters[1].values(), &[40, 30, 20]);

    // a run whose target fails records nothing
    r.launched(counters, Some(12)).unwrap();
    assert!(r.exited(counters, Some(1)).is_err());
    assert_eq!(counters[0].len(), 3);
    assert_eq!(counters[1].mean(), 30);
}

#[test]
fn exit_codes_of_wait_outcomes() {
    assert_eq!(exit_code(WaitOutcome::Exited(BAD_EXEC)), None);
    assert_eq!(exit_code(WaitOutcome::Exited(0)), Some(0));
    assert_eq!(exit_code(WaitOutcome::Exited(1)), Some(1));
    assert_eq!(exit_code(WaitOutcome::Other), None);
}

#[test]
fn verdicts_of_exit_codes() {
    assert_eq!(exit_verdict(Some(0)), Ok(()));
    assert_eq!(
        exit_verdict(Some(3)),
        Err(Error::ExecError(String::from("non-zero exit status")))
    );
    assert_eq!(
        exit_verdict(None),
        Err(Error::ExecError(String::from("failed to exec")))
    );
}
