//! Scoring of recorded histories, in exact rational arithmetic: an actor
//! scores highest when exactly half of its recorded phases are non-eating,
//! a run scores the mean over its actors, and several runs score the mean
//! over runs.

use crate::results::ResultsStore;
use crate::state_machine::State;
use vstd::prelude::*;

verus! {

/// An exact nonnegative rational number `num / den`.
#[derive(Debug, PartialEq, Eq, Structural, Clone, Copy)]
pub struct Ratio {
    pub num: u64,
    pub den: u64,
}

/// The sum of two rationals as numerator/denominator pairs, sharing the
/// denominator when it is common and cross-multiplying otherwise.
pub open spec fn frac_plus(a: (int, int), b: (int, int)) -> (int, int) {
    if a.1 == b.1 {
        (a.0 + b.0, a.1)
    } else {
        (a.0 * b.1 + b.0 * a.1, a.1 * b.1)
    }
}

/// Whether the sum of two pairs stays within the machine range.
pub open spec fn frac_plus_fits(a: (int, int), b: (int, int)) -> bool {
    frac_plus(a, b).0 <= u64::MAX && frac_plus(a, b).1 <= u64::MAX
}

proof fn lemma_mul_fits_u128(a: int, b: int)
    requires
        0 <= a <= u64::MAX,
        0 <= b <= u64::MAX,
    ensures
        0 <= a * b <= u128::MAX,
        a >= 1 && b >= 1 ==> a * b >= 1,
{
    assert(0 <= a * b <= u128::MAX && (a >= 1 && b >= 1 ==> a * b >= 1)) by (nonlinear_arith)
        requires
            0 <= a <= u64::MAX,
            0 <= b <= u64::MAX,
    ;
}

impl Ratio {
    /// Denominators are nonzero.
    pub open spec fn wf(&self) -> bool {
        self.den >= 1
    }

    /// This ratio as a mathematical pair.
    pub open spec fn frac(&self) -> (int, int) {
        (self.num as int, self.den as int)
    }

    /// Whether two ratios denote the same rational number, by cross
    /// multiplication.
    pub open spec fn same_value(&self, other: Ratio) -> bool {
        self.num * other.den == other.num * self.den
    }

    pub fn new(num: u64, den: u64) -> (ratio: Ratio)
        requires
            den >= 1,
        ensures
            ratio == (Ratio { num, den }),
    {
        Ratio { num, den }
    }

    /// Decides `same_value` at run time.
    pub fn frac_eq(&self, other: &Ratio) -> (eq: bool)
        ensures
            eq == self.same_value(*other),
    {
        proof {
            lemma_mul_fits_u128(self.num as int, other.den as int);
            lemma_mul_fits_u128(other.num as int, self.den as int);
        }
        (self.num as u128) * (other.den as u128) == (other.num as u128) * (self.den as u128)
    }

    /// The exact sum, or `None` when numerator or denominator of the sum
    /// would exceed the machine range.
    pub fn plus(&self, other: &Ratio) -> (sum: Option<Ratio>)
        requires
            self.wf(),
            other.wf(),
        ensures
            (sum is Some) == frac_plus_fits(self.frac(), other.frac()),
            sum matches Some(v) ==> v.wf() && v.frac() == frac_plus(self.frac(), other.frac()),
    {
        if self.den == other.den {
            if self.num <= u64::MAX - other.num {
                Some(Ratio { num: self.num + other.num, den: self.den })
            } else {
                None
            }
        } else {
            proof {
                lemma_mul_fits_u128(self.num as int, other.den as int);
                lemma_mul_fits_u128(other.num as int, self.den as int);
                lemma_mul_fits_u128(self.den as int, other.den as int);
            }
            let first = (self.num as u128) * (other.den as u128);
            let second = (other.num as u128) * (self.den as u128);
            let den = (self.den as u128) * (other.den as u128);
            if first <= u128::MAX - second && first + second <= u64::MAX as u128 && den
                <= u64::MAX as u128 {
                Some(Ratio { num: (first + second) as u64, den: den as u64 })
            } else {
                None
            }
        }
    }

    /// The exact quotient by a count (the denominator scaled), or `None`
    /// when the scaled denominator would exceed the machine range.
    pub fn divided_by(&self, count: usize) -> (quotient: Option<Ratio>)
        requires
            self.wf(),
            count >= 1,
        ensures
            (quotient is Some) == (self.den * count <= u64::MAX),
            quotient matches Some(v) ==> v.wf() && v.num == self.num && v.den == self.den * count,
    {
        proof {
            lemma_mul_fits_u128(self.den as int, count as int);
        }
        let den = (self.den as u128) * (count as u128);
        if den <= u64::MAX as u128 {
            Some(Ratio { num: self.num, den: den as u64 })
        } else {
            None
        }
    }
}

/// How many recorded phases are not `Eating`.
pub open spec fn non_eating_count(history: Seq<State>) -> int
    decreases history.len(),
{
    if history.len() == 0 {
        0
    } else {
        non_eating_count(history.drop_last()) + if history.last() != State::Eating {
            1int
        } else {
            0int
        }
    }
}

pub proof fn lemma_non_eating_count_bounds(history: Seq<State>)
    ensures
        0 <= non_eating_count(history) <= history.len(),
    decreases history.len(),
{
    if history.len() > 0 {
        lemma_non_eating_count_bounds(history.drop_last());
    }
}

/// The numerator of a history's score over the denominator
/// `50 * history.len()`: the score is `1 - |percentage/50 - 1|` where
/// `percentage` is `100 * non_eating_count / len`, which works out to the
/// smaller of the non-eating numerator and its complement.
pub open spec fn score_num(history: Seq<State>) -> int {
    let n = 100 * non_eating_count(history);
    let d = history.len() as int;
    if n >= 50 * d {
        100 * d - n
    } else {
        n
    }
}

/// The denominator of a history's score.
pub open spec fn score_den(history: Seq<State>) -> int {
    50 * history.len() as int
}

/// The percentage of recorded phases in which the actor was not eating,
/// as the exact ratio `100 * non_eating_count / len`.
pub fn calculate_percentage(history: &Vec<State>) -> (percentage: Ratio)
    requires
        history@.len() >= 1,
        100 * history@.len() <= u64::MAX,
    ensures
        percentage.wf(),
        percentage.num == 100 * non_eating_count(history@),
        percentage.den == history@.len(),
{
    proof {
        lemma_non_eating_count_bounds(history@);
    }
    let total = history.len();
    let mut counted: usize = 0;
    let mut scan: usize = 0;
    while scan < total
        invariant
            total == history@.len(),
            100 * history@.len() <= u64::MAX,
            scan <= total,
            counted == non_eating_count(history@.take(scan as int)),
            counted <= scan,
        decreases total - scan,
    {
        proof {
            assert(history@.take(scan + 1).drop_last() =~= history@.take(scan as int));
            assert(history@.take(scan + 1).last() == history@[scan as int]);
        }
        if history[scan] != State::Eating {
            counted = counted + 1;
        }
        scan = scan + 1;
    }
    proof {
        assert(history@.take(total as int) =~= history@);
    }
    Ratio { num: 100 * (counted as u64), den: total as u64 }
}

/// The score of a percentage `p`: `1 - |p/50 - 1|`, maximal at exactly
/// fifty percent and zero at zero or one hundred percent, as an exact
/// ratio over the denominator `50 * p.den`.
pub fn score(percentage: Ratio) -> (result: Ratio)
    requires
        percentage.wf(),
        percentage.num <= 100 * percentage.den,
        50 * percentage.den <= u64::MAX,
    ensures
        result.wf(),
        result.den == 50 * percentage.den,
        percentage.num >= 50 * percentage.den ==> result.num == 100 * percentage.den
            - percentage.num,
        percentage.num < 50 * percentage.den ==> result.num == percentage.num,
{
    let half = 50 * percentage.den;
    if percentage.num >= half {
        Ratio { num: half - (percentage.num - half), den: half }
    } else {
        Ratio { num: percentage.num, den: half }
    }
}

/// Every history in the store is scorable: nonempty and small enough for
/// the percentage numerator.
pub open spec fn scorable(results: ResultsStore) -> bool {
    forall|i: int|
        0 <= i < results.entries_seq().len() ==> 1 <= (#[trigger] results.entries_seq()[i]).1.len()
            && 100 * results.entries_seq()[i].1.len() <= u64::MAX
}

/// The left-to-right sum of the entry scores of a run, as a pair.
pub open spec fn run_sum(entries: Seq<(usize, Seq<State>)>) -> (int, int)
    decreases entries.len(),
{
    if entries.len() <= 1 {
        (score_num(entries[0].1), score_den(entries[0].1))
    } else {
        frac_plus(
            run_sum(entries.drop_last()),
            (score_num(entries.last().1), score_den(entries.last().1)),
        )
    }
}

/// Whether every partial sum of the entry scores stays in machine range.
pub open spec fn run_sum_fits(entries: Seq<(usize, Seq<State>)>) -> bool
    decreases entries.len(),
{
    if entries.len() <= 1 {
        true
    } else {
        run_sum_fits(entries.drop_last()) && frac_plus_fits(
            run_sum(entries.drop_last()),
            (score_num(entries.last().1), score_den(entries.last().1)),
        )
    }
}

/// Whether a whole run can be scored in machine range: partial sums fit
/// and so does the final division by the actor count.
pub open spec fn run_score_fits(results: ResultsStore) -> bool {
    run_sum_fits(results.entries_seq()) && run_sum(results.entries_seq()).1
        * results.entries_seq().len() <= u64::MAX
}

/// The score of one run as a pair: the mean of its actors' scores.
pub open spec fn run_score(results: ResultsStore) -> (int, int) {
    (
        run_sum(results.entries_seq()).0,
        run_sum(results.entries_seq()).1 * results.entries_seq().len(),
    )
}

proof fn lemma_run_sum_fits_extend(entries: Seq<(usize, Seq<State>)>, upto: int)
    requires
        1 <= upto <= entries.len(),
        !run_sum_fits(entries.take(upto)),
    ensures
        !run_sum_fits(entries),
    decreases entries.len() - upto,
{
    if upto == entries.len() {
        assert(entries.take(upto) =~= entries);
    } else {
        assert(entries.take(upto + 1).drop_last() =~= entries.take(upto));
        lemma_run_sum_fits_extend(entries, upto + 1);
    }
}

/// The normalised score of one run: the mean over its actors of the score
/// of each actor's percentage, exactly; `None` when a partial sum or the
/// final denominator leaves the machine range.
pub fn score_one_run(results: &ResultsStore) -> (result: Option<Ratio>)
    requires
        results.wf(),
        results.entries_seq().len() >= 1,
        scorable(*results),
    ensures
        (result is Some) == run_score_fits(*results),
        result matches Some(v) ==> v.wf() && v.frac() == run_score(*results),
{
    let entries = results.len();
    let ghost all = results.entries_seq();
    let first = results.history_at(0);
    proof {
        assert(all[0] == (results.entries_seq()[0].0, results.entries_seq()[0].1));
        lemma_non_eating_count_bounds(first@);
    }
    let mut acc = score(calculate_percentage(first));
    proof {
        assert(all.take(1).drop_last() =~= Seq::<(usize, Seq<State>)>::empty());
        assert(acc.frac() == run_sum(all.take(1)));
        assert(run_sum_fits(all.take(1)));
    }
    let mut scan: usize = 1;
    while scan < entries
        invariant
            results.wf(),
            scorable(*results),
            all == results.entries_seq(),
            entries == all.len(),
            1 <= scan <= entries,
            acc.wf(),
            acc.frac() == run_sum(all.take(scan as int)),
            run_sum_fits(all.take(scan as int)),
        decreases entries - scan,
    {
        let history = results.history_at(scan);
        proof {
            lemma_non_eating_count_bounds(history@);
        }
        let entry_score = score(calculate_percentage(history));
        let stepped = acc.plus(&entry_score);
        proof {
            assert(all.take(scan + 1).drop_last() =~= all.take(scan as int));
            assert(all.take(scan + 1).last() == all[scan as int]);
        }
        match stepped {
            Some(next) => {
                acc = next;
            },
            None => {
                proof {
                    assert(!run_sum_fits(all.take(scan + 1)));
                    lemma_run_sum_fits_extend(all, scan + 1);
                }
                return None;
            },
        }
        scan = scan + 1;
    }
    proof {
        assert(all.take(entries as int) =~= all);
    }
    acc.divided_by(entries)
}

/// Every run in the collection can be fed to `score_one_run`.
pub open spec fn all_scorable(runs: Seq<ResultsStore>) -> bool {
    forall|i: int|
        0 <= i < runs.len() ==> (#[trigger] runs[i]).wf() && runs[i].entries_seq().len() >= 1
            && scorable(runs[i])
}

/// The left-to-right sum of the run scores, as a pair.
pub open spec fn avg_sum(runs: Seq<ResultsStore>) -> (int, int)
    decreases runs.len(),
{
    if runs.len() <= 1 {
        run_score(runs[0])
    } else {
        frac_plus(avg_sum(runs.drop_last()), run_score(runs.last()))
    }
}

/// Whether every run score and every partial sum of them stays in machine
/// range.
pub open spec fn avg_sum_fits(runs: Seq<ResultsStore>) -> bool
    decreases runs.len(),
{
    if runs.len() <= 1 {
        run_score_fits(runs[0])
    } else {
        avg_sum_fits(runs.drop_last()) && run_score_fits(runs.last()) && frac_plus_fits(
            avg_sum(runs.drop_last()),
            run_score(runs.last()),
        )
    }
}

proof fn lemma_avg_sum_fits_extend(runs: Seq<ResultsStore>, upto: int)
    requires
        1 <= upto <= runs.len(),
        !avg_sum_fits(runs.take(upto)),
    ensures
        !avg_sum_fits(runs),
    decreases runs.len() - upto,
{
    if upto == runs.len() {
        assert(runs.take(upto) =~= runs);
    } else {
        assert(runs.take(upto + 1).drop_last() =~= runs.take(upto));
        lemma_avg_sum_fits_extend(runs, upto + 1);
    }
}

/// The cross-run score: the mean over the collection of each run's score,
/// exactly; `None` when any run score, partial sum, or the final
/// denominator leaves the machine range.
pub fn compute_average_score(results: &Vec<ResultsStore>) -> (result: Option<Ratio>)
    requires
        results@.len() >= 1,
        all_scorable(results@),
    ensures
        (result is Some) == (avg_sum_fits(results@) && avg_sum(results@).1 * results@.len()
            <= u64::MAX),
        result matches Some(v) ==> v.wf() && v.num == avg_sum(results@).0 && v.den == avg_sum(
            results@,
        ).1 * results@.len(),
{
    let total = results.len();
    let ghost runs = results@;
    let mut acc = match score_one_run(&results[0]) {
        Some(first) => first,
        None => {
            proof {
                if total > 1 {
                    assert(!avg_sum_fits(runs.take(1)));
                    lemma_avg_sum_fits_extend(runs, 1);
                } else {
                    assert(runs.take(1) =~= runs);
                }
            }
            return None;
        },
    };
    proof {
        assert(acc.frac() == avg_sum(runs.take(1)));
        assert(avg_sum_fits(runs.take(1)));
    }
    let mut scan: usize = 1;
    while scan < total
        invariant
            all_scorable(runs),
            runs == results@,
            total == runs.len(),
            1 <= scan <= total,
            acc.wf(),
            acc.frac() == avg_sum(runs.take(scan as int)),
            avg_sum_fits(runs.take(scan as int)),
        decreases total - scan,
    {
        proof {
            assert(runs.take(scan + 1).drop_last() =~= runs.take(scan as int));
            assert(runs.take(scan + 1).last() == runs[scan as int]);
        }
        let run = match score_one_run(&results[scan]) {
            Some(value) => value,
            None => {
                proof {
                    assert(!avg_sum_fits(runs.take(scan + 1)));
                    lemma_avg_sum_fits_extend(runs, scan + 1);
                }
                return None;
            },
        };
        let stepped = match acc.plus(&run) {
            Some(next) => next,
            None => {
                proof {
                    assert(!avg_sum_fits(runs.take(scan + 1)));
                    lemma_avg_sum_fits_extend(runs, scan + 1);
                }
                return None;
            },
        };
        acc = stepped;
        scan = scan + 1;
    }
    proof {
        assert(runs.take(total as int) =~= runs);
    }
    acc.divided_by(total)
}

} // verus!
