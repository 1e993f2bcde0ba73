use crate::counter::{advanced, all_take, calls, failure_of, lemma_all_take, first_failure, forward, handed, models, pass, Counter, Step};
use crate::error::Error;
use vstd::prelude::*;

verus! {

/// Exit code of a forked child that could not execute the target.
pub const BAD_EXEC: i32 = 42;

/// How a released child ended, as the wait for it reported.
#[derive(Debug, Clone, Copy, PartialEq, Eq, Structural)]
pub enum WaitOutcome {
    /// The process exited normally with this code.
    Exited(i32),
    /// Any other outcome: killed by a signal, stopped, or unknown.
    Other,
}

/// The exit code that a run reports for a wait outcome: none where the target
/// could not be executed or did not exit normally.
pub open spec fn exit_code_spec(w: WaitOutcome) -> Option<i32> {
    match w {
        WaitOutcome::Exited(c) => if c == BAD_EXEC {
            None
        } else {
            Some(c)
        },
        WaitOutcome::Other => None,
    }
}

/// The exit code of a released child, from how its wait ended: `BAD_EXEC`
/// and abnormal ends give none.
pub fn exit_code(w: WaitOutcome) -> (r: Option<i32>)
    ensures
        r == exit_code_spec(w),
{
    match w {
        WaitOutcome::Exited(c) => if c == BAD_EXEC {
            None
        } else {
            Some(c)
        },
        WaitOutcome::Other => None,
    }
}

/// `e` is an `ExecError` carrying the message `msg`.
pub open spec fn exec_error_says(e: Error, msg: Seq<char>) -> bool {
    match e {
        Error::ExecError(s) => s@ == msg,
        _ => false,
    }
}

/// The error with which a run whose target ended with `code` fails, if any.
pub open spec fn refuses_exit(code: Option<i32>, e: Error) -> bool {
    match code {
        Some(c) => c != 0 && exec_error_says(e, "non-zero exit status"@),
        None => exec_error_says(e, "failed to exec"@),
    }
}

/// Success of a run is owed exactly when the target exited with code 0.
pub fn exit_verdict(code: Option<i32>) -> (r: Result<(), Error>)
    ensures
        r is Ok <==> code == Some(0i32),
        r matches Err(e) ==> refuses_exit(code, e),
{
    match code {
        Some(0) => Ok(()),
        Some(_) => Err(Error::ExecError(String::from_str("non-zero exit status"))),
        None => Err(Error::ExecError(String::from_str("failed to exec"))),
    }
}

/// How the start of a run, with the target held under `pid`, leaves counters
/// in states `ms`: `after` their states, the calls appended to the trace
/// `t0` giving `t1`, and the result `r`.
///
/// Every counter is attached, in order, before any is started. Where a
/// counter fails to attach, the run fails with its error and no counter is
/// started; where one fails to start, the run fails with a `StartError`.
pub open spec fn started<T: Counter>(
    ms: Seq<T::Model>,
    pid: u32,
    after: Seq<T::Model>,
    t0: Seq<(int, Step)>,
    t1: Seq<(int, Step)>,
    r: Result<(), Error>,
) -> bool {
    let attach = Step::Attach(pid);
    let mid = pass::<T>(ms, attach);
    let attaches = t0 + calls(handed::<T>(ms, attach), attach);
    match first_failure::<T>(ms, attach) {
        Some(e) => r == Err::<(), Error>(e) && after == mid && t1 == attaches,
        None => {
            &&& after == pass::<T>(mid, Step::Start)
            &&& t1 == attaches + calls(handed::<T>(mid, Step::Start), Step::Start)
            &&& match first_failure::<T>(mid, Step::Start) {
                Some(e) => r == Err::<(), Error>(Error::StartError(Box::new(e))),
                None => r is Ok,
            }
        },
    }
}

/// How the end of a run, the target having exited with `code`, leaves
/// counters in states `ms`: `after` their states, the calls appended to the
/// trace `t0` giving `t1`, and the result `r`.
///
/// Every counter is stopped, whatever the code. Where one fails to stop, the
/// run fails with a `StopError`. Else a target that did not exit with 0 fails
/// the run; one that did has every counter reset with `set(0)`, and a failure
/// there is the run's.
pub open spec fn finished<T: Counter>(
    ms: Seq<T::Model>,
    code: Option<i32>,
    after: Seq<T::Model>,
    t0: Seq<(int, Step)>,
    t1: Seq<(int, Step)>,
    r: Result<(), Error>,
) -> bool {
    let stopped = pass::<T>(ms, Step::Stop);
    let stops = t0 + calls(handed::<T>(ms, Step::Stop), Step::Stop);
    match first_failure::<T>(ms, Step::Stop) {
        Some(e) => r == Err::<(), Error>(Error::StopError(Box::new(e))) && after == stopped && t1
            == stops,
        None => if code == Some(0i32) {
            &&& after == pass::<T>(stopped, Step::Record(0))
            &&& t1 == stops + calls(handed::<T>(stopped, Step::Record(0)), Step::Record(0))
            &&& failure_of(r) == first_failure::<T>(stopped, Step::Record(0))
        } else {
            &&& after == stopped
            &&& t1 == stops
            &&& r matches Err(e) && refuses_exit(code, e)
        },
    }
}

/// A pass keeps the number of counters; one in which no counter fails
/// reaches them all.
pub proof fn lemma_pass_len<T: Counter>(ms: Seq<T::Model>, step: Step)
    ensures
        pass::<T>(ms, step).len() == ms.len(),
        first_failure::<T>(ms, step) is None ==> handed::<T>(ms, step) == ms.len(),
    decreases ms.len(),
{
    if ms.len() > 0 {
        lemma_pass_len::<T>(ms.drop_first(), step);
    }
}

/// The calls of one successful run against `pid` over `n` counters: every
/// attach, then every start, then every stop, then every record.
pub open spec fn run_calls(n: nat, pid: u32) -> Seq<(int, Step)> {
    calls(n, Step::Attach(pid)) + calls(n, Step::Start) + calls(n, Step::Stop) + calls(
        n,
        Step::Record(0),
    )
}

/// Over a run whose start and end both succeed, each counter receives
/// exactly one attach to the target's pid, one start, one stop and one
/// record of 0, in that order; all counters are attached before any is
/// started, and all are stopped before any is recorded.
pub proof fn lemma_run_protocol<T: Counter>(
    ms: Seq<T::Model>,
    pid: u32,
    code: Option<i32>,
    mid: Seq<T::Model>,
    after: Seq<T::Model>,
    t0: Seq<(int, Step)>,
    t1: Seq<(int, Step)>,
    t2: Seq<(int, Step)>,
)
    requires
        started::<T>(ms, pid, mid, t0, t1, Ok(())),
        finished::<T>(mid, code, after, t1, t2, Ok(())),
    ensures
        code == Some(0i32),
        after.len() == ms.len(),
        t2 == t0 + run_calls(ms.len(), pid),
        forall|i: int|
            0 <= i < ms.len() ==> {
                &&& #[trigger] run_calls(ms.len(), pid)[i] == (i, Step::Attach(pid))
                &&& run_calls(ms.len(), pid)[ms.len() + i] == (i, Step::Start)
                &&& run_calls(ms.len(), pid)[2 * ms.len() + i] == (i, Step::Stop)
                &&& run_calls(ms.len(), pid)[3 * ms.len() + i] == (i, Step::Record(0))
            },
        run_calls(ms.len(), pid).len() == 4 * ms.len(),
{
    let n = ms.len();
    let a = pass::<T>(ms, Step::Attach(pid));
    let s = pass::<T>(a, Step::Start);
    let st = pass::<T>(s, Step::Stop);
    lemma_pass_len::<T>(ms, Step::Attach(pid));
    lemma_pass_len::<T>(a, Step::Start);
    lemma_pass_len::<T>(s, Step::Stop);
    lemma_pass_len::<T>(st, Step::Record(0));
    assert(mid == s);
    assert(t2 =~= t0 + run_calls(n, pid));
}

/// The calls of successful runs against `pids`, one run per pid in order,
/// over `n` counters.
pub open spec fn series_calls(n: nat, pids: Seq<u32>) -> Seq<(int, Step)>
    decreases pids.len(),
{
    if pids.len() == 0 {
        Seq::empty()
    } else {
        series_calls(n, pids.drop_last()) + run_calls(n, pids.last())
    }
}

/// Over a series of successful runs, `ms[j]` and `ts[j]` being the counters'
/// states and the trace before run `j`, and `mids[j]` and `us[j]` those
/// between its start and its end, the trace gains the calls of each run in
/// turn: all calls of one run come before the first attach of the next.
pub proof fn lemma_runs_protocol<T: Counter>(
    ms: Seq<Seq<T::Model>>,
    mids: Seq<Seq<T::Model>>,
    ts: Seq<Seq<(int, Step)>>,
    us: Seq<Seq<(int, Step)>>,
    pids: Seq<u32>,
    codes: Seq<Option<i32>>,
)
    requires
        ms.len() == pids.len() + 1,
        ts.len() == pids.len() + 1,
        mids.len() == pids.len(),
        us.len() == pids.len(),
        codes.len() == pids.len(),
        forall|j: int|
            0 <= j < pids.len() ==> #[trigger] started::<T>(ms[j], pids[j], mids[j], ts[j], us[j], Ok(()))
                && finished::<T>(mids[j], codes[j], ms[j + 1], us[j], ts[j + 1], Ok(())),
    ensures
        ms.last().len() == ms[0].len(),
        ts.last() == ts[0] + series_calls(ms[0].len(), pids),
    decreases pids.len(),
{
    let k = pids.len() as int;
    if k == 0 {
        assert(ts[0] + series_calls(ms[0].len(), pids) =~= ts[0]);
    } else {
        assert(started::<T>(ms[k - 1], pids[k - 1], mids[k - 1], ts[k - 1], us[k - 1], Ok(())));
        assert forall|j: int| 0 <= j < k - 1 implies #[trigger] started::<T>(
            ms.drop_last()[j],
            pids.drop_last()[j],
            mids.drop_last()[j],
            ts.drop_last()[j],
            us.drop_last()[j],
            Ok(()),
        ) && finished::<T>(
            mids.drop_last()[j],
            codes.drop_last()[j],
            ms.drop_last()[j + 1],
            us.drop_last()[j],
            ts.drop_last()[j + 1],
            Ok(()),
        ) by {
            assert(started::<T>(ms[j], pids[j], mids[j], ts[j], us[j], Ok(())));
        }
        lemma_runs_protocol::<T>(
            ms.drop_last(),
            mids.drop_last(),
            ts.drop_last(),
            us.drop_last(),
            pids.drop_last(),
            codes.drop_last(),
        );
        lemma_run_protocol::<T>(
            ms[k - 1],
            pids[k - 1],
            codes[k - 1],
            mids[k - 1],
            ms[k],
            ts[k - 1],
            us[k - 1],
            ts[k],
        );
        assert(ts.last() =~= ts[0] + series_calls(ms[0].len(), pids));
    }
}

/// Runner holds the target of a benchmark and the arguments handed to it,
/// and takes the decisions around one run of it.
///
/// A run goes: launch the target held before it executes, `launched` with
/// the pid observed, release the target and wait for it, `exited` with its
/// exit code.
pub struct Runner<'a> {
    pub target: &'a str,
    pub args: Option<&'a [&'a str]>,
    /// Every call made to a counter, with the counter's index, in order.
    pub trace: Ghost<Seq<(int, Step)>>,
}

impl<'a> Runner<'a> {
    /// A runner that executes `target` without arguments.
    pub fn new(target: &'a str) -> (r: Self)
        ensures
            r.target == target,
            r.args is None,
            r.trace@ == Seq::<(int, Step)>::empty(),
    {
        Runner { target, args: None, trace: Ghost(Seq::empty()) }
    }

    /// The same runner, handing `args` to the target.
    pub fn args(self, args: &'a [&'a str]) -> (r: Self)
        ensures
            r.target == self.target,
            r.args == Some(args),
            r.trace == self.trace,
    {
        Runner { args: Some(args), ..self }
    }

    /// The start of a run, once the target has been launched and held: fails
    /// where no pid was observed; else attaches every counter to the pid, then
    /// starts every counter, so that the last counter goes live as soon after
    /// the first as possible.
    pub fn launched<T: Counter>(&mut self, counters: &mut Vec<T>, pid: Option<u32>) -> (r: Result<(), Error>)
        ensures
            final(self).target == old(self).target,
            final(self).args == old(self).args,
            final(counters)@.len() == old(counters)@.len(),
            pid is None ==> final(counters)@ == old(counters)@ && final(self).trace == old(self).trace
                && (r matches Err(e) && exec_error_says(e, "failed to start child process"@)),
            pid matches Some(p) ==> started::<T>(
                models(old(counters)@),
                p,
                models(final(counters)@),
                old(self).trace@,
                final(self).trace@,
                r,
            ),
            pid matches Some(p) ==> (all_take::<T>(models(old(counters)@), Step::Attach(p))
                && all_take::<T>(advanced::<T>(models(old(counters)@), Step::Attach(p)), Step::Start)
                ==> r is Ok && models(final(counters)@) == advanced::<T>(
                advanced::<T>(models(old(counters)@), Step::Attach(p)),
                Step::Start,
            ) && final(self).trace@ == old(self).trace@ + calls(old(counters)@.len(), Step::Attach(p))
                + calls(old(counters)@.len(), Step::Start) && forall|i: int|
                0 <= i < old(counters)@.len() ==> (#[trigger] final(counters)@[i]).model()
                    == T::advance(T::advance(old(counters)@[i].model(), Step::Attach(p)), Step::Start)),
    {
        let p = match pid {
            Some(p) => p,
            None => {
                return Err(Error::ExecError(String::from_str("failed to start child process")));
            },
        };
        match forward(counters, Step::Attach(p), &mut self.trace) {
            Ok(_) => {},
            Err(e) => {
                return Err(e);
            },
        }
        let ghost mid = counters@;
        match forward(counters, Step::Start, &mut self.trace) {
            Ok(_) => {},
            Err(e) => {
                return Err(Error::StartError(Box::new(e)));
            },
        }
        proof {
            let n = counters@.len() as int;
            assert forall|i: int| 0 <= i < n implies (#[trigger] counters@[i]).model() == models(
                counters@,
            )[i] by {}
            assert forall|i: int| 0 <= i < n implies old(counters)@[i].model() == models(
                old(counters)@,
            )[i] by {}
        }
        Ok(())
    }

    /// The end of a run, once the target has exited with `code` (none where it
    /// could not be executed or did not exit normally): stops every counter,
    /// whatever the outcome, so that none is left running; then, where the
    /// target exited with code 0, resets every counter with `set(0)`.
    pub fn exited<T: Counter>(&mut self, counters: &mut Vec<T>, code: Option<i32>) -> (r: Result<(), Error>)
        ensures
            final(self).target == old(self).target,
            final(self).args == old(self).args,
            final(counters)@.len() == old(counters)@.len(),
            finished::<T>(
                models(old(counters)@),
                code,
                models(final(counters)@),
                old(self).trace@,
                final(self).trace@,
                r,
            ),
            code == Some(0i32) && all_take::<T>(models(old(counters)@), Step::Stop) && all_take::<T>(
                advanced::<T>(models(old(counters)@), Step::Stop),
                Step::Record(0),
            ) ==> r is Ok && models(final(counters)@) == advanced::<T>(
                advanced::<T>(models(old(counters)@), Step::Stop),
                Step::Record(0),
            ) && final(self).trace@ == old(self).trace@ + calls(old(counters)@.len(), Step::Stop)
                + calls(old(counters)@.len(), Step::Record(0)),
            all_take::<T>(models(old(counters)@), Step::Stop) ==> if code == Some(0i32) {
                &&& failure_of(r) == first_failure::<T>(
                    advanced::<T>(models(old(counters)@), Step::Stop),
                    Step::Record(0),
                )
                &&& forall|i: int|
                    0 <= i < old(counters)@.len() ==> (#[trigger] final(counters)@[i]).model()
                        == pass::<T>(
                        advanced::<T>(models(old(counters)@), Step::Stop),
                        Step::Record(0),
                    )[i]
            } else {
                &&& r matches Err(e) && refuses_exit(code, e)
                &&& forall|i: int|
                    0 <= i < old(counters)@.len() ==> (#[trigger] final(counters)@[i]).model()
                        == T::advance(old(counters)@[i].model(), Step::Stop)
            },
    {
        match forward(counters, Step::Stop, &mut self.trace) {
            Ok(_) => {},
            Err(e) => {
                return Err(Error::StopError(Box::new(e)));
            },
        }
        proof {
            let n = counters@.len() as int;
            assert forall|i: int| 0 <= i < n implies (#[trigger] counters@[i]).model() == models(
                counters@,
            )[i] by {}
            assert forall|i: int| 0 <= i < n implies old(counters)@[i].model() == models(
                old(counters)@,
            )[i] by {}
        }
        match exit_verdict(code) {
            Ok(_) => {},
            Err(e) => {
                return Err(e);
            },
        }
        let ghost stopped = counters@;
        let r = forward(counters, Step::Record(0), &mut self.trace);
        proof {
            let n = counters@.len() as int;
            assert forall|i: int| 0 <= i < n implies (#[trigger] counters@[i]).model() == models(
                counters@,
            )[i] by {}
            assert forall|i: int| 0 <= i < n implies stopped[i].model() == models(stopped)[i] by {}
        }
        r
    }
}

} // verus!
