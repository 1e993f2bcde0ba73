use benchpmc::counter::{Counter, Printable};
use benchpmc::error::Error;
use benchpmc::mock::{MockEvent, ReplayEvent, ScriptedEvent};
use benchpmc::rsd::RSDPrinter;

// Sample variance, standard deviation and relative standard deviation, in
// floating point, from the exact sums the aggregator keeps.
fn variance<T: Counter + Printable>(p: &RSDPrinter<T>) -> f64 {
    if p.len() < 2 {
        return 0.0;
    }
    p.deviation_total().unwrap() as f64 / (p.len() - 1) as f64
}

fn stddev<T: Counter + Printable>(p: &RSDPrinter<T>) -> f64 {
    variance(p).sqrt()
}

fn rsd<T: Counter + Printable>(p: &RSDPrinter<T>) -> f64 {
    if p.len() < 2 {
        return 0.0;
    }
    (stddev(p) * 100.0) / p.mean() as f64
}

#[test]
fn stats() {
    let mut values = vec![0, 10, 20, 30, 40];
    let mut p = RSDPrinter::new(ReplayEvent::new("mock", &values.clone()));

    // The replay pops, so swap ordering
    values.reverse();

    for v in values.iter() {
        p.set(0).unwrap(); // drive the replay
        assert_eq!(p.counter().value(), *v);
    }

    // Average
    assert_eq!(p.value(), 20);

    // Variance
    assert_eq!(variance(&p), 250.0);
    assert_eq!(stddev(&p) as f32, 15.811388);

    // RSD
    assert_eq!(rsd(&p) as f32, 79.0569415);
}

#[test]
fn div_zero() {
    let values = vec![];
    let p = RSDPrinter::new(ReplayEvent::new("mock", &values));

    assert_eq!(p.value(), 0);
    assert_eq!(variance(&p), 0.0);
    assert_eq!(stddev(&p), 0.0);
    assert_eq!(rsd(&p), 0.0);
}

#[test]
fn div_zero_one_val() {
    let values = vec![42];
    let p = RSDPrinter::new(ReplayEvent::new("mock", &values));

    assert_eq!(p.value(), 0);
    assert_eq!(variance(&p), 0.0);
    assert_eq!(stddev(&p), 0.0);
    assert_eq!(rsd(&p), 0.0);
}

#[test]
fn one_observation_is_its_own_mean() {
    let mut p = RSDPrinter::new(ReplayEvent::new("mock", &[42]));
    p.set(0).unwrap();
    assert_eq!(p.len(), 1);
    assert_eq!(p.mean(), 42);
    assert_eq!(p.deviation_total(), Some(0));
    assert_eq!(rsd(&p), 0.0);
}

#[test]
fn mean_rounds_down() {
    let mut p = RSDPrinter::new(ReplayEvent::new("mock", &[1, 2]));
    p.set(0).unwrap();
    p.set(0).unwrap();
    assert_eq!(p.mean(), 1);
    // (2 - 1)^2 + (1 - 1)^2
    assert_eq!(p.deviation_total(), Some(1));
}

#[test]
fn mean_of_the_largest_values_does_not_overflow() {
    let mut p = RSDPrinter::new(ReplayEvent::new("mock", &[u64::MAX, u64::MAX, u64::MAX]));
    for _ in 0..3 {
        p.set(0).unwrap();
    }
    assert_eq!(p.mean(), u64::MAX);
    assert_eq!(p.deviation_total(), Some(0));
}

#[test]
fn spread_of_extreme_values() {
    let mut p = RSDPrinter::new(ReplayEvent::new("mock", &[0, u64::MAX]));
    p.set(0).unwrap();
    p.set(0).unwrap();
    let m = u64::MAX / 2;
    assert_eq!(p.mean(), m);
    let lo = m as u128;
    let hi = (u64::MAX - m) as u128;
    assert_eq!(p.deviation_total(), Some(lo * lo + hi * hi));
}

#[test]
fn failed_record_is_not_observed() {
    let mut inner = ScriptedEvent::new();
    inner.set_err = Some(Error::MockError);
    inner.set_ret = Some(9);
    let mut p = RSDPrinter::new(inner);
    assert_eq!(p.set(0), Err(Error::MockError));
    assert_eq!(p.len(), 0);
    assert_eq!(p.set(0), Ok(9));
    assert_eq!(p.values(), &[9]);
}

#[test]
fn wrapper_forwards_calls_and_name() {
    let mut inner = ScriptedEvent::new();
    inner.attach_err = Some(Error::MockError);
    let mut p = RSDPrinter::new(inner);
    assert_eq!(p.attach(3), Err(Error::MockError));
    assert!(p.attach(3).is_ok());
    assert!(p.start().is_ok());
    assert!(p.stop().is_ok());

    let named = RSDPrinter::new(MockEvent::new("cycles", 5));
    assert_eq!(named.name(), "cycles");
    assert_eq!(named.value(), 0);
}

#[test]
fn render_with_and_without_spread() {
    let mut p = RSDPrinter::new(ReplayEvent::new("cycles", &[1000, 3000]));
    p.set(0).unwrap();
    assert_eq!(
        p.render("9.9%"),
        format!("{:>30}: {:>14} {}", "cycles", "3,000", "      ")
    );
    p.set(0).unwrap();
    assert_eq!(
        p.render("70.7%"),
        format!("{:>30}: {:>14} ±70.7%", "cycles", "2,000")
    );
    assert_eq!(
        p.render("4.2%"),
        format!("{:>30}: {:>14} ±4.2% ", "cycles", "2,000")
    );
}
