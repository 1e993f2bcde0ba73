use crate::counter::{Counter, Printable, Step};
use crate::error::Error;
use crate::text::{counter_line, padded_right, render_line, pad_right, spaces};
use vstd::prelude::*;

verus! {

/// The sum of the first `n` values of `s`.
pub open spec fn sum_prefix(s: Seq<u64>, n: int) -> int
    decreases n,
{
    if n <= 0 {
        0
    } else {
        sum_prefix(s, n - 1) + s[n - 1]
    }
}

/// The sum of the values of `s`.
pub open spec fn sum(s: Seq<u64>) -> int {
    sum_prefix(s, s.len() as int)
}

/// The arithmetic mean of `s`, rounded down; 0 for no values.
pub open spec fn mean_of(s: Seq<u64>) -> int {
    if s.len() == 0 {
        0
    } else {
        sum(s) / (s.len() as int)
    }
}

/// The sum of the squared distances to `m` of the first `n` values of `s`.
pub open spec fn sq_dev_prefix(s: Seq<u64>, m: int, n: int) -> int
    decreases n,
{
    if n <= 0 {
        0
    } else {
        sq_dev_prefix(s, m, n - 1) + (s[n - 1] - m) * (s[n - 1] - m)
    }
}

/// The sum of the squared distances of the values of `s` to their mean.
pub open spec fn deviation_total_of(s: Seq<u64>) -> int {
    sq_dev_prefix(s, mean_of(s), s.len() as int)
}

proof fn lemma_sum_prefix_bound(s: Seq<u64>, n: int)
    requires
        0 <= n <= s.len(),
    ensures
        0 <= sum_prefix(s, n) <= n * 0xffff_ffff_ffff_ffff,
    decreases n,
{
    if n > 0 {
        lemma_sum_prefix_bound(s, n - 1);
        assert(sum_prefix(s, n) <= n * 0xffff_ffff_ffff_ffff) by (nonlinear_arith)
            requires
                sum_prefix(s, n) == sum_prefix(s, n - 1) + s[n - 1],
                sum_prefix(s, n - 1) <= (n - 1) * 0xffff_ffff_ffff_ffff,
                s[n - 1] <= 0xffff_ffff_ffff_ffff,
        ;
    }
}

proof fn lemma_sq_dev_monotone(s: Seq<u64>, m: int, i: int, j: int)
    requires
        0 <= i <= j <= s.len(),
    ensures
        0 <= sq_dev_prefix(s, m, i) <= sq_dev_prefix(s, m, j),
    decreases j,
{
    if j > 0 {
        if i < j {
            lemma_sq_dev_monotone(s, m, i, j - 1);
        } else {
            lemma_sq_dev_monotone(s, m, j - 1, j - 1);
        }
        assert((s[j - 1] - m) * (s[j - 1] - m) >= 0) by (nonlinear_arith);
    }
}

/// `RSDPrinter` wraps a counter and keeps every value that it records, one
/// per completed run, to report their mean and spread.
pub struct RSDPrinter<T: Counter + Printable> {
    counter: T,
    values: Vec<u64>,
}

impl<T: Counter + Printable> RSDPrinter<T> {
    /// The wrapped counter.
    pub closed spec fn inner(&self) -> T {
        self.counter
    }

    /// The values recorded so far, oldest first.
    pub closed spec fn observations(&self) -> Seq<u64> {
        self.values@
    }

    /// A wrapper around `counter` with no observation yet.
    pub fn new(counter: T) -> (r: Self)
        ensures
            r.inner() == counter,
            r.observations() == Seq::<u64>::empty(),
    {
        RSDPrinter { counter, values: Vec::new() }
    }

    /// The wrapped counter.
    pub fn counter(&self) -> (r: &T)
        ensures
            *r == self.inner(),
    {
        &self.counter
    }

    /// The values recorded so far, oldest first.
    pub fn values(&self) -> (r: &[u64])
        ensures
            r@ == self.observations(),
    {
        self.values.as_slice()
    }

    /// The number of values recorded so far.
    pub fn len(&self) -> (r: usize)
        ensures
            r == self.observations().len(),
    {
        self.values.len()
    }

    /// The arithmetic mean of the recorded values, rounded down; 0 where none
    /// was recorded.
    pub fn mean(&self) -> (r: u64)
        ensures
            r == mean_of(self.observations()),
    {
        let n = self.values.len();
        if n == 0 {
            return 0;
        }
        let ghost s = self.values@;
        let mut total: u128 = 0;
        let mut i: usize = 0;
        while i < n
            invariant
                n == s.len(),
                s == self.values@,
                0 <= i <= n,
                total == sum_prefix(s, i as int),
            decreases n - i,
        {
            proof {
                lemma_sum_prefix_bound(s, i as int + 1);
                assert((i as int + 1) * 0xffff_ffff_ffff_ffff <= 0xffff_ffff_ffff_ffff
                    * 0xffff_ffff_ffff_ffff) by (nonlinear_arith)
                    requires
                        i < n,
                        n <= 0xffff_ffff_ffff_ffff,
                ;
            }
            total = total + self.values[i] as u128;
            i += 1;
        }
        proof {
            lemma_sum_prefix_bound(s, n as int);
            assert((total as int) / (n as int) <= 0xffff_ffff_ffff_ffff) by (nonlinear_arith)
                requires
                    total <= n * 0xffff_ffff_ffff_ffff,
                    n > 0,
            ;
        }
        (total / (n as u128)) as u64
    }

    /// The sum of the squared distances of the recorded values to their mean
    /// (the mean as `mean` gives it), where it fits in a `u128`.
    ///
    /// The sample variance is this sum divided by one less than the number of
    /// values.
    pub fn deviation_total(&self) -> (r: Option<u128>)
        ensures
            r matches Some(t) ==> t == deviation_total_of(self.observations()),
            r is None <==> deviation_total_of(self.observations()) > u128::MAX,
    {
        let m = self.mean();
        let n = self.values.len();
        let ghost s = self.values@;
        let mut total: u128 = 0;
        let mut i: usize = 0;
        while i < n
            invariant
                n == s.len(),
                s == self.values@,
                m == mean_of(s),
                0 <= i <= n,
                total == sq_dev_prefix(s, m as int, i as int),
            decreases n - i,
        {
            let x = self.values[i];
            let d: u64 = if x >= m {
                x - m
            } else {
                m - x
            };
            let dd = d as u128;
            proof {
                assert(dd * dd == (x - m) * (x - m)) by (nonlinear_arith)
                    requires
                        dd == d,
                        d == x - m || d == m - x,
                ;
                assert(dd * dd <= 0xffff_ffff_ffff_ffff * 0xffff_ffff_ffff_ffff) by (nonlinear_arith)
                    requires
                        dd <= 0xffff_ffff_ffff_ffff,
                ;
            }
            match total.checked_add(dd * dd) {
                Some(t) => {
                    total = t;
                },
                None => {
                    proof {
                        lemma_sq_dev_monotone(s, m as int, i as int + 1, n as int);
                    }
                    return None;
                },
            }
            i += 1;
        }
        Some(total)
    }
}

impl<T: Counter + Printable> Counter for RSDPrinter<T> {
    /// The wrapped counter's model, and the observations.
    type Model = (T::Model, Seq<u64>);

    open spec fn model(&self) -> (T::Model, Seq<u64>) {
        (self.inner().model(), self.observations())
    }

    open spec fn outcome(m: (T::Model, Seq<u64>), step: Step) -> Option<Error> {
        T::outcome(m.0, step)
    }

    open spec fn reading(m: (T::Model, Seq<u64>)) -> u64 {
        T::reading(m.0)
    }

    /// A successful record keeps the wrapped counter's reading.
    open spec fn advance(m: (T::Model, Seq<u64>), step: Step) -> (T::Model, Seq<u64>) {
        (
            T::advance(m.0, step),
            match step {
                Step::Record(_) => if T::outcome(m.0, step) is None {
                    m.1.push(T::reading(m.0))
                } else {
                    m.1
                },
                _ => m.1,
            },
        )
    }

    fn attach(&mut self, pid: u32) -> (r: Result<(), Error>) {
        self.counter.attach(pid)
    }

    fn start(&mut self) -> (r: Result<(), Error>) {
        self.counter.start()
    }

    fn stop(&mut self) -> (r: Result<(), Error>) {
        self.counter.stop()
    }

    /// Records the wrapped counter; the reading it returns is kept as an
    /// observation and returned, and a failure keeps none.
    fn set(&mut self, value: u64) -> (r: Result<u64, Error>) {
        let r = self.counter.set(value);
        if let Ok(v) = r {
            self.values.push(v);
        }
        r
    }
}

impl<T: Counter + Printable> Printable for RSDPrinter<T> {
    open spec fn label(&self) -> Seq<char> {
        self.inner().label()
    }

    /// The mean of the observations.
    open spec fn magnitude(&self) -> u64 {
        mean_of(self.observations()) as u64
    }

    fn name(&self) -> (r: &str) {
        self.counter.name()
    }

    fn value(&self) -> (r: u64) {
        self.mean()
    }
}

/// The display line of an aggregated counter: its name and mean, then,
/// where two values or more were observed, `±` and the relative standard
/// deviation `spread` in a column of 5, else six spaces.
pub open spec fn spread_line(name: Seq<char>, mean: u64, count: nat, spread: Seq<char>) -> Seq<char> {
    counter_line(name, mean) + " "@ + if count > 1 {
        "±"@ + padded_right(spread, 5)
    } else {
        spaces(6)
    }
}

impl<T: Counter + Printable> RSDPrinter<T> {
    /// The display line, with `spread` the relative standard deviation as
    /// text (such as `4.2%`).
    pub fn render(&self, spread: &str) -> (r: String)
        ensures
            r@ == spread_line(self.label(), self.magnitude(), self.observations().len(), spread@),
    {
        let mut out = render_line(self.name(), self.value());
        out.append(" ");
        if self.values.len() > 1 {
            out.append("±");
            let column = pad_right(spread, 5);
            out.append(column.as_str());
        } else {
            proof {
                reveal_strlit("      ");
            }
            out.append("      ");
            assert("      "@ =~= spaces(6));
        }
        out
    }
}

} // verus!
