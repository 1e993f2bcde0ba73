use crate::counter::{Counter, Printable, Step};
use crate::error::Error;
use crate::text::{counter_line, render_line};
use vstd::prelude::*;

verus! {

/// A counter that measures nothing: every call succeeds, every record
/// returns 42, and it displays the fixed value it was made with.
pub struct MockEvent<'a> {
    pub name: &'a str,
    pub value: u64,
}

impl<'a> MockEvent<'a> {
    /// A mock counter named `name` that displays `value`.
    pub fn new(name: &'a str, value: u64) -> (r: Self)
        ensures
            r.name == name,
            r.value == value,
    {
        MockEvent { name, value }
    }

    /// The display line: name and value, right-aligned in their columns.
    pub fn render(&self) -> (r: String)
        ensures
            r@ == counter_line(self.name@, self.value),
    {
        render_line(self.name, self.value)
    }
}

impl<'a> Counter for MockEvent<'a> {
    type Model = ();

    open spec fn model(&self) -> () {
        ()
    }

    open spec fn outcome(m: (), step: Step) -> Option<Error> {
        None
    }

    open spec fn reading(m: ()) -> u64 {
        42
    }

    open spec fn advance(m: (), step: Step) -> () {
        ()
    }

    fn attach(&mut self, pid: u32) -> (r: Result<(), Error>)
        ensures
            *final(self) == *old(self),
    {
        Ok(())
    }

    fn start(&mut self) -> (r: Result<(), Error>)
        ensures
            *final(self) == *old(self),
    {
        Ok(())
    }

    fn stop(&mut self) -> (r: Result<(), Error>)
        ensures
            *final(self) == *old(self),
    {
        Ok(())
    }

    fn set(&mut self, value: u64) -> (r: Result<u64, Error>)
        ensures
            *final(self) == *old(self),
    {
        Ok(42)
    }
}

impl<'a> Printable for MockEvent<'a> {
    open spec fn label(&self) -> Seq<char> {
        self.name@
    }

    open spec fn magnitude(&self) -> u64 {
        self.value
    }

    fn name(&self) -> (r: &str) {
        self.name
    }

    fn value(&self) -> (r: u64) {
        self.value
    }
}

/// A counter whose failures are scripted: each `*_err` field, where set, is
/// the error that the next call of that kind returns (once); `set` stores the
/// value it was given in `value` and returns `set_ret`, or 0.
pub struct ScriptedEvent {
    pub value: Option<u64>,
    pub attach_err: Option<Error>,
    pub start_err: Option<Error>,
    pub stop_err: Option<Error>,
    pub set_err: Option<Error>,
    pub set_ret: Option<u64>,
}

/// Takes the scripted error out of `slot`.
fn take_err(slot: &mut Option<Error>) -> (r: Result<(), Error>)
    ensures
        scripted_result(*old(slot)) == r,
        *final(slot) is None,
{
    match slot.take() {
        Some(e) => Err(e),
        None => Ok(()),
    }
}

/// The result of a scripted call: the scripted error, else success.
pub open spec fn scripted_result(err: Option<Error>) -> Result<(), Error> {
    match err {
        Some(e) => Err(e),
        None => Ok(()),
    }
}

impl ScriptedEvent {
    /// A scripted counter with no failure planned.
    pub fn new() -> (r: Self)
        ensures
            r == (ScriptedEvent {
                value: None,
                attach_err: None,
                start_err: None,
                stop_err: None,
                set_err: None,
                set_ret: None,
            }),
    {
        ScriptedEvent {
            value: None,
            attach_err: None,
            start_err: None,
            stop_err: None,
            set_err: None,
            set_ret: None,
        }
    }
}

impl Counter for ScriptedEvent {
    type Model = ScriptedEvent;

    open spec fn model(&self) -> ScriptedEvent {
        *self
    }

    open spec fn outcome(m: ScriptedEvent, step: Step) -> Option<Error> {
        match step {
            Step::Attach(_) => m.attach_err,
            Step::Start => m.start_err,
            Step::Stop => m.stop_err,
            Step::Record(_) => m.set_err,
        }
    }

    open spec fn reading(m: ScriptedEvent) -> u64 {
        m.set_ret.unwrap_or(0)
    }

    open spec fn advance(m: ScriptedEvent, step: Step) -> ScriptedEvent {
        match step {
            Step::Attach(_) => ScriptedEvent { attach_err: None, ..m },
            Step::Start => ScriptedEvent { start_err: None, ..m },
            Step::Stop => ScriptedEvent { stop_err: None, ..m },
            Step::Record(v) => ScriptedEvent { value: Some(v), set_err: None, ..m },
        }
    }

    fn attach(&mut self, pid: u32) -> (r: Result<(), Error>) {
        take_err(&mut self.attach_err)
    }

    fn start(&mut self) -> (r: Result<(), Error>) {
        take_err(&mut self.start_err)
    }

    fn stop(&mut self) -> (r: Result<(), Error>) {
        take_err(&mut self.stop_err)
    }

    fn set(&mut self, value: u64) -> (r: Result<u64, Error>) {
        self.value = Some(value);
        match take_err(&mut self.set_err) {
            Ok(_) => Ok(self.set_ret.unwrap_or(0)),
            Err(e) => Err(e),
        }
    }
}

impl Printable for ScriptedEvent {
    open spec fn label(&self) -> Seq<char> {
        "scripted"@
    }

    open spec fn magnitude(&self) -> u64 {
        self.value.unwrap_or(0)
    }

    fn name(&self) -> (r: &str) {
        proof {
            reveal_strlit("scripted");
        }
        "scripted"
    }

    /// The value last handed to `set`, or 0 before the first.
    fn value(&self) -> (r: u64) {
        self.value.unwrap_or(0)
    }
}

/// A counter that replays given readings: each record returns the last
/// reading not yet returned (`values` holds them), and fails once none is
/// left; `value` is the reading returned last.
pub struct ReplayEvent<'a> {
    pub name: &'a str,
    pub value: Option<u64>,
    pub values: Vec<u64>,
}

impl<'a> ReplayEvent<'a> {
    /// A counter named `name` that replays `values`, the last first.
    pub fn new(name: &'a str, values: &[u64]) -> (r: Self)
        ensures
            r.name == name,
            r.values@ == values@,
            r.value is None,
    {
        let mut v: Vec<u64> = Vec::new();
        let mut i: usize = 0;
        while i < values.len()
            invariant
                0 <= i <= values@.len(),
                v@ == values@.subrange(0, i as int),
            decreases values@.len() - i,
        {
            v.push(values[i]);
            i += 1;
            assert(v@ =~= values@.subrange(0, i as int));
        }
        assert(v@ =~= values@);
        ReplayEvent { name, value: None, values: v }
    }
}

impl<'a> Counter for ReplayEvent<'a> {
    /// The readings not yet returned, and the reading returned last.
    type Model = (Seq<u64>, Option<u64>);

    open spec fn model(&self) -> (Seq<u64>, Option<u64>) {
        (self.values@, self.value)
    }

    open spec fn outcome(m: (Seq<u64>, Option<u64>), step: Step) -> Option<Error> {
        match step {
            Step::Record(_) => if m.0.len() == 0 {
                Some(Error::MockError)
            } else {
                None
            },
            _ => None,
        }
    }

    open spec fn reading(m: (Seq<u64>, Option<u64>)) -> u64 {
        m.0.last()
    }

    open spec fn advance(m: (Seq<u64>, Option<u64>), step: Step) -> (Seq<u64>, Option<u64>) {
        match step {
            Step::Record(_) => if m.0.len() == 0 {
                (m.0, None)
            } else {
                (m.0.drop_last(), Some(m.0.last()))
            },
            _ => m,
        }
    }

    fn attach(&mut self, pid: u32) -> (r: Result<(), Error>)
        ensures
            *final(self) == *old(self),
    {
        Ok(())
    }

    fn start(&mut self) -> (r: Result<(), Error>)
        ensures
            *final(self) == *old(self),
    {
        Ok(())
    }

    fn stop(&mut self) -> (r: Result<(), Error>)
        ensures
            *final(self) == *old(self),
    {
        Ok(())
    }

    fn set(&mut self, value: u64) -> (r: Result<u64, Error>)
        ensures
            final(self).name == old(self).name,
    {
        self.value = self.values.pop();
        match self.value {
            Some(v) => Ok(v),
            None => Err(Error::MockError),
        }
    }
}

impl<'a> Printable for ReplayEvent<'a> {
    open spec fn label(&self) -> Seq<char> {
        self.name@
    }

    open spec fn magnitude(&self) -> u64 {
        self.value.unwrap_or(0)
    }

    fn name(&self) -> (r: &str) {
        self.name
    }

    /// The reading returned last, or 0 before the first.
    fn value(&self) -> (r: u64) {
        self.value.unwrap_or(0)
    }
}

} // verus!
