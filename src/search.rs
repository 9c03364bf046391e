//! The search driver's decisions: its configuration, read once into closed
//! choices, and the selection of the partial solutions that survive a step.

use vstd::prelude::*;
use crate::parse::texts;
use crate::select::{ranked, select_greedy, select_sample, total, SelectError};
use crate::text::spells;

verus! {

/// How candidates are generated.
#[derive(Clone, Copy, Debug, PartialEq, Eq, Structural)]
pub enum GenerateMethod {
    /// Independent completions of the sampling prompt.
    Sample,
    /// One completion of the proposal prompt, one candidate per line.
    Propose,
}

/// How candidates are scored.
#[derive(Clone, Copy, Debug, PartialEq, Eq, Structural)]
pub enum EvaluateMethod {
    /// Each candidate judged on its own.
    Value,
    /// All candidates compared in one prompt.
    Vote,
}

/// How survivors are chosen.
#[derive(Clone, Copy, Debug, PartialEq, Eq, Structural)]
pub enum SelectMethod {
    /// Draws in proportion to the scores.
    Sample,
    /// The best scores.
    Greedy,
}

impl GenerateMethod {
    /// `sample` or `propose`.
    pub fn from_name(name: &str) -> (r: Option<GenerateMethod>)
        ensures
            r == if name@ == "sample"@ {
                Some(GenerateMethod::Sample)
            } else if name@ == "propose"@ {
                Some(GenerateMethod::Propose)
            } else {
                None
            },
    {
        if spells(name, "sample") {
            Some(GenerateMethod::Sample)
        } else if spells(name, "propose") {
            Some(GenerateMethod::Propose)
        } else {
            None
        }
    }
}

impl EvaluateMethod {
    /// `value` or `vote`.
    pub fn from_name(name: &str) -> (r: Option<EvaluateMethod>)
        ensures
            r == if name@ == "value"@ {
                Some(EvaluateMethod::Value)
            } else if name@ == "vote"@ {
                Some(EvaluateMethod::Vote)
            } else {
                None
            },
    {
        if spells(name, "value") {
            Some(EvaluateMethod::Value)
        } else if spells(name, "vote") {
            Some(EvaluateMethod::Vote)
        } else {
            None
        }
    }
}

impl SelectMethod {
    /// `sample` or `greedy`.
    pub fn from_name(name: &str) -> (r: Option<SelectMethod>)
        ensures
            r == if name@ == "sample"@ {
                Some(SelectMethod::Sample)
            } else if name@ == "greedy"@ {
                Some(SelectMethod::Greedy)
            } else {
                None
            },
    {
        if spells(name, "sample") {
            Some(SelectMethod::Sample)
        } else if spells(name, "greedy") {
            Some(SelectMethod::Greedy)
        } else {
            None
        }
    }
}

/// Whether `ids` is a possible outcome of selecting with `method`: with `Greedy`
/// the `n` best (all, if fewer), best first, ties in order; with `Sample`, `n`
/// indices of candidates whose score is positive.
pub open spec fn selected(method: SelectMethod, values: Seq<u64>, n: usize, ids: Seq<usize>) -> bool {
    &&& forall|a: int| 0 <= a < ids.len() ==> #[trigger] ids[a] < values.len()
    &&& match method {
        SelectMethod::Greedy => {
            &&& ids.len() == if n < values.len() {
                n as int
            } else {
                values.len() as int
            }
            &&& ranked(values, ids)
            &&& forall|a: int, b: int| 0 <= a < b < ids.len() ==> ids[a] != ids[b]
            &&& forall|a: int, i: int|
                0 <= a < ids.len() && 0 <= i < values.len() && #[trigger] values[i]
                    > values[#[trigger] ids[a] as int] ==> ids.contains(i as usize)
        },
        SelectMethod::Sample => {
            &&& ids.len() == n
            &&& forall|a: int| 0 <= a < ids.len() ==> values[#[trigger] ids[a] as int] > 0
        },
    }
}

/// The indices of the candidates that survive: with `Greedy` the
/// `n_select_sample` best (all, if fewer), best first, ties in order; with
/// `Sample`, `n_select_sample` independent draws in proportion to the scores,
/// refused when the scores sum to zero or past `u64::MAX`.
pub fn select_ids(method: SelectMethod, values: &Vec<u64>, n_select_sample: usize) -> (r: Result<Vec<usize>, SelectError>)
    ensures
        r matches Ok(ids) ==> selected(method, values@, n_select_sample, ids@),
        method == SelectMethod::Greedy ==> r is Ok,
        method == SelectMethod::Sample ==> {
            &&& (r == Err::<Vec<usize>, SelectError>(SelectError::ZeroSum) <==> total(values@) == 0)
            &&& (r == Err::<Vec<usize>, SelectError>(SelectError::TooLarge) <==> total(values@) > u64::MAX)
        },
{
    match method {
        SelectMethod::Greedy => Ok(select_greedy(values, n_select_sample)),
        SelectMethod::Sample => select_sample(values, n_select_sample),
    }
}

/// The candidates at `ids`, in that order.
pub fn pick(new_ys: &Vec<String>, ids: &Vec<usize>) -> (r: Vec<String>)
    requires
        forall|a: int| 0 <= a < ids@.len() ==> ids@[a] < new_ys@.len(),
    ensures
        texts(r@) == ids@.map_values(|i: usize| new_ys@[i as int]@),
{
    let mut r: Vec<String> = Vec::new();
    let mut a: usize = 0;
    while a < ids.len()
        invariant
            forall|j: int| 0 <= j < ids@.len() ==> ids@[j] < new_ys@.len(),
            a <= ids@.len(),
            r@.len() == a,
            forall|j: int| 0 <= j < a ==> (#[trigger] r@[j])@ == new_ys@[ids@[j] as int]@,
        decreases ids.len() - a,
    {
        r.push(new_ys[ids[a]].clone());
        a = a + 1;
    }
    assert(texts(r@) =~= ids@.map_values(|i: usize| new_ys@[i as int]@));
    r
}

/// The record of one search step: the puzzle, the solutions it started from, the
/// candidates generated, their scores, and the solutions selected.
pub struct StepRecord {
    pub step: u64,
    pub x: String,
    pub ys: Vec<String>,
    pub new_ys: Vec<String>,
    pub values: Vec<u64>,
    pub select_new_ys: Vec<String>,
}

/// The iterative search on one problem instance: the surviving partial
/// solutions, the step reached, and the record of each step so far.
pub struct Search {
    x: String,
    steps: u64,
    step: u64,
    ys: Vec<String>,
    trace: Vec<StepRecord>,
}

impl Search {
    /// The puzzle.
    pub closed spec fn puzzle(&self) -> Seq<char> {
        self.x@
    }

    /// The number of steps the search takes.
    pub closed spec fn total_steps(&self) -> u64 {
        self.steps
    }

    /// The steps taken so far.
    pub closed spec fn current_step(&self) -> u64 {
        self.step
    }

    /// The surviving partial solutions.
    pub closed spec fn survivors(&self) -> Seq<Seq<char>> {
        texts(self.ys@)
    }

    /// The records of the steps taken.
    pub closed spec fn records(&self) -> Seq<StepRecord> {
        self.trace@
    }

    /// A search on puzzle `x` over `steps` steps, from the one empty solution.
    pub fn new(x: &str, steps: u64) -> (r: Search)
        ensures
            r.puzzle() == x@,
            r.total_steps() == steps,
            r.current_step() == 0,
            r.survivors() == seq![Seq::<char>::empty()],
            r.records().len() == 0,
    {
        let mut ys: Vec<String> = Vec::new();
        ys.push(String::new());
        let r = Search { x: String::from_str(x), steps, step: 0, ys, trace: Vec::new() };
        assert(r.survivors() =~= seq![Seq::<char>::empty()]);
        r
    }

    /// Whether every step is taken.
    pub fn is_done(&self) -> (r: bool)
        ensures
            r == (self.current_step() >= self.total_steps()),
    {
        self.step >= self.steps
    }

    /// The surviving partial solutions, to be expanded by the next step.
    pub fn ys(&self) -> (r: Vec<String>)
        ensures
            texts(r@) == self.survivors(),
    {
        let ids = seq_indices(self.ys.len());
        let r = pick(&self.ys, &ids);
        assert(texts(r@) =~= self.survivors());
        r
    }

    /// Ends a step: of the candidates `new_ys`, scored by `values`, those that
    /// `method` selects become the survivors, and the step is recorded. When the
    /// selection is refused nothing changes.
    pub fn advance(
        &mut self,
        new_ys: Vec<String>,
        values: Vec<u64>,
        method: SelectMethod,
        n_select_sample: usize,
    ) -> (r: Result<Vec<usize>, SelectError>)
        requires
            values@.len() == new_ys@.len(),
            old(self).current_step() < old(self).total_steps(),
        ensures
            r is Err ==> *final(self) == *old(self),
            method == SelectMethod::Greedy ==> r is Ok,
            method == SelectMethod::Sample ==> {
                &&& (r == Err::<Vec<usize>, SelectError>(SelectError::ZeroSum) <==> total(values@) == 0)
                &&& (r == Err::<Vec<usize>, SelectError>(SelectError::TooLarge) <==> total(values@)
                    > u64::MAX)
            },
            r matches Ok(ids) ==> {
                let chosen = ids@.map_values(|i: usize| new_ys@[i as int]@);
                &&& selected(method, values@, n_select_sample, ids@)
                &&& final(self).puzzle() == old(self).puzzle()
                &&& final(self).total_steps() == old(self).total_steps()
                &&& final(self).current_step() == old(self).current_step() + 1
                &&& final(self).survivors() == chosen
                &&& final(self).records().len() == old(self).records().len() + 1
                &&& final(self).records().drop_last() == old(self).records()
                &&& final(self).records().last().step == old(self).current_step()
                &&& final(self).records().last().x@ == old(self).puzzle()
                &&& texts(final(self).records().last().ys@) == old(self).survivors()
                &&& texts(final(self).records().last().new_ys@) == texts(new_ys@)
                &&& final(self).records().last().values@ == values@
                &&& texts(final(self).records().last().select_new_ys@) == chosen
            },
    {
        let ids = select_ids(method, &values, n_select_sample)?;
        let survivors = pick(&new_ys, &ids);
        let selected_copy = pick(&new_ys, &ids);
        let previous = self.ys();
        self.ys = survivors;
        let record = StepRecord {
            step: self.step,
            x: self.x.clone(),
            ys: previous,
            new_ys,
            values,
            select_new_ys: selected_copy,
        };
        self.trace.push(record);
        self.step = self.step + 1;
        assert(self.trace@.drop_last() =~= old(self).trace@);
        Ok(ids)
    }

    /// The surviving solutions and the records of the steps, ending the search.
    pub fn finish(self) -> (r: (Vec<String>, Vec<StepRecord>))
        ensures
            texts(r.0@) == self.survivors(),
            r.1@ == self.records(),
    {
        (self.ys, self.trace)
    }
}

/// The indices `0..n`.
fn seq_indices(n: usize) -> (r: Vec<usize>)
    ensures
        r@.len() == n,
        forall|a: int| 0 <= a < n ==> #[trigger] r@[a] == a,
{
    let mut r: Vec<usize> = Vec::new();
    let mut i: usize = 0;
    while i < n
        invariant
            i <= n,
            r@.len() == i,
            forall|a: int| 0 <= a < i ==> #[trigger] r@[a] == a,
        decreases n - i,
    {
        r.push(i);
        i = i + 1;
    }
    r
}

} // verus!
