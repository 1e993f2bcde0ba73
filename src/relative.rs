use crate::counter::{apply, failure_of, first_failure, forward, models, pass, Counter, Printable, Step};
use crate::error::Error;
use crate::text::padded;
use vstd::prelude::*;

verus! {

/// `RelativePrinter` holds a baseline counter and counters whose values are
/// reported as a percentage of the baseline's.
pub struct RelativePrinter<T: Printable + Counter> {
    absolute: T,
    relatives: Vec<T>,
}

impl<T: Printable + Counter> RelativePrinter<T> {
    /// The baseline counter.
    pub closed spec fn base(&self) -> T {
        self.absolute
    }

    /// The counters reported relative to the baseline, in order.
    pub closed spec fn others(&self) -> Seq<T> {
        self.relatives@
    }

    /// `relatives` reported against the baseline `absolute`.
    pub fn new(absolute: T, relatives: Vec<T>) -> (r: Self)
        ensures
            r.base() == absolute,
            r.others() == relatives@,
    {
        RelativePrinter { absolute, relatives }
    }

    /// The baseline counter.
    pub fn baseline(&self) -> (r: &T)
        ensures
            *r == self.base(),
    {
        &self.absolute
    }

    /// The counters reported relative to the baseline, in order.
    pub fn relatives(&self) -> (r: &[T])
        ensures
            r@ == self.others(),
    {
        self.relatives.as_slice()
    }

    /// Hands `step` to the baseline, then to every relative in order, stopping
    /// at the first failure.
    fn forward_all(&mut self, step: Step) -> (r: Result<(), Error>)
        ensures
            failure_of(r) == Self::outcome(old(self).model(), step),
            final(self).model() == Self::advance(old(self).model(), step),
            final(self).others().len() == old(self).others().len(),
    {
        let ghost ms = seq![self.absolute.model()] + models(self.relatives@);
        let ghost base = self.absolute.model();
        let ghost rels = models(self.relatives@);
        assert(ms[0] == base);
        assert(ms.drop_first() =~= rels);
        let mut trace: Ghost<Seq<(int, Step)>> = Ghost(Seq::empty());
        let r = match apply(&mut self.absolute, step) {
            Ok(_) => forward(&mut self.relatives, step, &mut trace),
            Err(e) => Err(e),
        };
        proof {
            let p = pass::<T>(ms, step);
            assert(p[0] == T::advance(base, step));
            if T::outcome(base, step) is Some {
                assert(p.drop_first() =~= rels);
            } else {
                assert(p.drop_first() =~= pass::<T>(rels, step));
            }
            assert(models(self.relatives@).len() == self.relatives@.len());
        }
        r
    }
}

impl<T: Printable + Counter> Counter for RelativePrinter<T> {
    /// The baseline's model, and the relatives' models in order.
    type Model = (T::Model, Seq<T::Model>);

    open spec fn model(&self) -> (T::Model, Seq<T::Model>) {
        (self.base().model(), models(self.others()))
    }

    /// The first error of the baseline, then of the relatives in order.
    open spec fn outcome(m: (T::Model, Seq<T::Model>), step: Step) -> Option<Error> {
        first_failure::<T>(seq![m.0] + m.1, step)
    }

    open spec fn reading(m: (T::Model, Seq<T::Model>)) -> u64 {
        0
    }

    open spec fn advance(m: (T::Model, Seq<T::Model>), step: Step) -> (T::Model, Seq<T::Model>) {
        let p = pass::<T>(seq![m.0] + m.1, step);
        (p[0], p.drop_first())
    }

    fn attach(&mut self, pid: u32) -> (r: Result<(), Error>) {
        self.forward_all(Step::Attach(pid))
    }

    fn start(&mut self) -> (r: Result<(), Error>) {
        self.forward_all(Step::Start)
    }

    fn stop(&mut self) -> (r: Result<(), Error>) {
        self.forward_all(Step::Stop)
    }

    /// Records the baseline and every relative; the value returned on success
    /// is always 0.
    fn set(&mut self, value: u64) -> (r: Result<u64, Error>) {
        match self.forward_all(Step::Record(value)) {
            Ok(_) => Ok(0),
            Err(e) => Err(e),
        }
    }
}

/// The line that follows a relative counter: four spaces, then the
/// percentage `pct` right-aligned in 5 columns and the baseline's name.
pub open spec fn share_line(pct: Seq<char>, base_name: Seq<char>) -> Seq<char> {
    "    ("@ + padded(pct, 5) + "% of "@ + base_name + ")"@
}

impl<T: Printable + Counter> RelativePrinter<T> {
    /// The line that follows a relative counter, with `pct` its value as a
    /// percentage of the baseline's, as text (such as `36.8`).
    pub fn share(&self, pct: &str) -> (r: String)
        ensures
            r@ == share_line(pct@, self.base().label()),
    {
        let mut out = String::from_str("    (");
        let column = crate::text::pad_left(pct, 5);
        out.append(column.as_str());
        out.append("% of ");
        out.append(self.absolute.name());
        out.append(")");
        out
    }
}

/// The lines of the first `k` relatives: each relative's own line from
/// `lines`, its share line with the percentage text from `pcts`, a newline.
pub open spec fn relative_lines(
    lines: Seq<Seq<char>>,
    pcts: Seq<Seq<char>>,
    base_name: Seq<char>,
    k: int,
) -> Seq<char>
    decreases k,
{
    if k <= 0 {
        Seq::empty()
    } else {
        relative_lines(lines, pcts, base_name, k - 1) + lines[k - 1] + share_line(pcts[k - 1], base_name)
            + "\n"@
    }
}

/// The views of the strings `v`.
pub open spec fn views(v: Seq<String>) -> Seq<Seq<char>> {
    v.map_values(|s: String| s@)
}

impl<T: Printable + Counter> RelativePrinter<T> {
    /// The display of the baseline and its relatives: `base_line`, a newline,
    /// then for each relative its line from `lines` followed by its share line
    /// with the percentage text from `pcts`, and a newline. None where `lines`
    /// or `pcts` does not hold one entry per relative.
    pub fn render(&self, base_line: &str, lines: &[String], pcts: &[String]) -> (r: Option<String>)
        ensures
            r is Some <==> lines@.len() == self.others().len() && pcts@.len() == self.others().len(),
            r matches Some(out) ==> out@ == base_line@ + "\n"@ + relative_lines(
                views(lines@),
                views(pcts@),
                self.base().label(),
                lines@.len() as int,
            ),
    {
        let n = self.relatives.len();
        if lines.len() != n || pcts.len() != n {
            return None;
        }
        let mut out = String::from_str(base_line);
        out.append("\n");
        let mut i: usize = 0;
        while i < n
            invariant
                n == lines@.len(),
                n == pcts@.len(),
                0 <= i <= n,
                out@ == base_line@ + "\n"@ + relative_lines(
                    views(lines@),
                    views(pcts@),
                    self.base().label(),
                    i as int,
                ),
            decreases n - i,
        {
            out.append(lines[i].as_str());
            let share = self.share(pcts[i].as_str());
            out.append(share.as_str());
            out.append("\n");
            assert(views(lines@)[i as int] == lines@[i as int]@);
            assert(views(pcts@)[i as int] == pcts@[i as int]@);
            assert(out@ =~= base_line@ + "\n"@ + relative_lines(
                views(lines@),
                views(pcts@),
                self.base().label(),
                i as int + 1,
            ));
            i += 1;
        }
        Some(out)
    }
}

} // verus!
