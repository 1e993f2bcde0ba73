use benchpmc::counter::{Counter, Printable};
use benchpmc::error::Error;
use benchpmc::mock::{MockEvent, ReplayEvent, ScriptedEvent};
use benchpmc::relative::RelativePrinter;

#[test]
fn macro_err() {
    let mut e = ScriptedEvent::new();
    e.attach_err = Some(Error::ExecError("!".to_string()));
    assert_eq!(e.attach(42), Err(Error::ExecError("!".to_string())));
}

#[test]
fn macro_ok() {
    let mut e = ScriptedEvent::new();
    e.attach_err = None;
    assert!(e.attach(42).is_ok());
}

#[test]
fn scripted_error_is_returned_once() {
    let mut e = ScriptedEvent::new();
    e.stop_err = Some(Error::MockError);
    assert_eq!(e.stop(), Err(Error::MockError));
    assert!(e.stop().is_ok());
}

#[test]
fn mock_event_always_succeeds() {
    let mut m = MockEvent::new("mock", 42);
    assert!(m.attach(1).is_ok());
    assert!(m.start().is_ok());
    assert!(m.stop().is_ok());
    assert_eq!(m.set(0), Ok(42));
    assert_eq!(m.name(), "mock");
    assert_eq!(m.value(), 42);
}

#[test]
fn mock_event_renders_in_columns() {
    let m = MockEvent::new("instructions", 19031333328);
    assert_eq!(
        m.render(),
        "                  instructions: 19,031,333,328"
    );
}

#[test]
fn replay_fails_when_exhausted() {
    let mut r = ReplayEvent::new("r", &[5]);
    assert_eq!(r.value(), 0);
    assert_eq!(r.set(0), Ok(5));
    assert_eq!(r.value(), 5);
    assert_eq!(r.set(0), Err(Error::MockError));
    assert_eq!(r.value(), 0);
}

#[test]
fn relative_forwards_to_baseline_then_relatives() {
    let mut bad = ScriptedEvent::new();
    bad.attach_err = Some(Error::MockError);
    let mut later = ScriptedEvent::new();
    later.attach_err = Some(Error::ExecError("later".to_string()));
    let mut p = RelativePrinter::new(ScriptedEvent::new(), vec![bad, later]);

    assert_eq!(p.attach(1), Err(Error::MockError));
    // the relative after the failing one was not reached
    assert_eq!(p.relatives()[1].attach_err, Some(Error::ExecError("later".to_string())));
    assert_eq!(p.attach(1), Err(Error::ExecError("later".to_string())));
    assert!(p.attach(1).is_ok());
}

#[test]
fn relative_baseline_failure_skips_relatives() {
    let mut base = ScriptedEvent::new();
    base.set_err = Some(Error::MockError);
    let mut p = RelativePrinter::new(base, vec![ScriptedEvent::new()]);

    assert_eq!(p.set(7), Err(Error::MockError));
    assert_eq!(p.baseline().value, Some(7));
    assert_eq!(p.relatives()[0].value, None);

    assert_eq!(p.set(8), Ok(0));
    assert_eq!(p.relatives()[0].value, Some(8));
    assert!(p.start().is_ok());
    assert!(p.stop().is_ok());
}

#[test]
fn relative_share_line() {
    let p = RelativePrinter::new(MockEvent::new("instructions", 100), vec![]);
    assert_eq!(p.share("36.8"), "    ( 36.8% of instructions)");
    assert_eq!(p.share("100.0"), "    (100.0% of instructions)");
}

#[test]
fn relative_render_lays_out_every_relative() {
    let p = RelativePrinter::new(
        MockEvent::new("instructions", 200),
        vec![MockEvent::new("cycles", 50), MockEvent::new("misses", 3)],
    );
    let lines = vec![String::from("C"), String::from("M")];
    let pcts = vec![String::from("25.0"), String::from("1.5")];
    assert_eq!(
        p.render("I", &lines, &pcts),
        Some(String::from(
            "I\nC    ( 25.0% of instructions)\nM    (  1.5% of instructions)\n"
        ))
    );
    assert_eq!(p.render("I", &lines[..1], &pcts), None);
}
