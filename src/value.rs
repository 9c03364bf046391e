//! Scoring candidates in value mode: the evaluation prompt, the value cache, and
//! the per-batch evaluation run that consults the caches before asking the model.

use vstd::prelude::*;
use crate::parse::{current_numbers, judge_value, judged_value, remove_all, texts};
use crate::prompts::{VALUE_GAME24_HEAD, VALUE_GAME24_TAIL, VALUE_LAST_STEP_HEAD, VALUE_LAST_STEP_MID, VALUE_LAST_STEP_TAIL};
use crate::text::{
    after_last_of, chars_of, contains, count_of, find_seq, last_line, line_count, push_all, single,
    string_of, trim, trim_chars,
};

verus! {

/// What `str::to_lowercase` makes of a string.
pub uninterp spec fn lower_of(s: Seq<char>) -> Seq<char>;

/// Relies on `str::to_lowercase`: the result depends on the characters alone.
#[verifier::external_body]
fn lowercase(s: &str) -> (r: String)
    ensures
        r@ == lower_of(s@),
{
    s.to_lowercase()
}

/// The first value stored under `k` in `entries`.
pub open spec fn lookup(entries: Seq<(String, u64)>, k: Seq<char>) -> Option<u64>
    decreases entries.len(),
{
    if entries.len() == 0 {
        None
    } else {
        match lookup(entries.drop_last(), k) {
            Some(v) => Some(v),
            None => if entries.last().0@ == k {
                Some(entries.last().1)
            } else {
                None
            },
        }
    }
}

proof fn lemma_lookup_prefix(entries: Seq<(String, u64)>, k: Seq<char>, j: int)
    requires
        0 <= j <= entries.len(),
        lookup(entries.subrange(0, j), k) is Some,
    ensures
        lookup(entries, k) == lookup(entries.subrange(0, j), k),
    decreases entries.len() - j,
{
    if j < entries.len() {
        assert(entries.subrange(0, j + 1).drop_last() =~= entries.subrange(0, j));
        lemma_lookup_prefix(entries, k, j + 1);
    } else {
        assert(entries.subrange(0, j) =~= entries);
    }
}

/// Scores keyed by the exact evaluation prompt. Entries are never evicted, and a
/// prompt keeps the first score stored for it.
pub struct ValueCache {
    entries: Vec<(String, u64)>,
}

impl View for ValueCache {
    type V = Map<Seq<char>, u64>;

    closed spec fn view(&self) -> Map<Seq<char>, u64> {
        Map::new(|k: Seq<char>| lookup(self.entries@, k) is Some, |k: Seq<char>| lookup(self.entries@, k)->0)
    }
}

impl ValueCache {
    /// An empty cache.
    pub fn new() -> (r: ValueCache)
        ensures
            r@ == Map::<Seq<char>, u64>::empty(),
    {
        let r = ValueCache { entries: Vec::new() };
        assert(r@ =~= Map::<Seq<char>, u64>::empty());
        r
    }

    /// The score stored for `prompt`.
    pub fn get(&self, prompt: &str) -> (r: Option<u64>)
        ensures
            r == if self@.contains_key(prompt@) { Some(self@[prompt@]) } else { None::<u64> },
    {
        let key = String::from_str(prompt);
        let mut i: usize = 0;
        while i < self.entries.len()
            invariant
                key@ == prompt@,
                i <= self.entries@.len(),
                lookup(self.entries@.subrange(0, i as int), prompt@) is None,
            decreases self.entries.len() - i,
        {
            assert(self.entries@.subrange(0, i + 1).drop_last() =~= self.entries@.subrange(0, i as int));
            if self.entries[i].0 == key {
                proof {
                    lemma_lookup_prefix(self.entries@, prompt@, i + 1);
                }
                return Some(self.entries[i].1);
            }
            i = i + 1;
        }
        assert(self.entries@.subrange(0, i as int) =~= self.entries@);
        None
    }

    /// Stores `score` for `prompt` unless the cache already holds a score for it.
    pub fn insert(&mut self, prompt: String, score: u64)
        ensures
            final(self)@ == if old(self)@.contains_key(prompt@) {
                old(self)@
            } else {
                old(self)@.insert(prompt@, score)
            },
    {
        if self.get(prompt.as_str()).is_none() {
            let ghost before = self.entries@;
            self.entries.push((prompt, score));
            assert(self.entries@.drop_last() =~= before);
            assert(self@ =~= old(self)@.insert(prompt@, score));
        }
    }
}

/// The evaluation prompt for candidate `y` of puzzle `x`. A last line without a
/// `"left: "` marker is a finished answer, judged against the puzzle; otherwise
/// the numbers still left are judged.
pub open spec fn value_prompt(x: Seq<char>, y: Seq<char>) -> Seq<char> {
    let line = last_line(trim(y));
    if !contains(line, "left: "@) {
        final_answer_prompt_text(x, lower_of(line))
    } else {
        VALUE_GAME24_HEAD@ + current_numbers(y) + VALUE_GAME24_TAIL@
    }
}

/// The final-answer judgement prompt for puzzle `x` and the lower-cased answer
/// line `lowered`, with its `"answer: "` label taken out.
pub open spec fn final_answer_prompt_text(x: Seq<char>, lowered: Seq<char>) -> Seq<char> {
    VALUE_LAST_STEP_HEAD@ + x + VALUE_LAST_STEP_MID@ + remove_all(lowered, "answer: "@)
        + VALUE_LAST_STEP_TAIL@
}

/// Whether candidate `y` is scored zero without asking the model: four lines of
/// steps and no answer yet.
pub open spec fn short_circuit(y: Seq<char>) -> bool {
    line_count(trim(y)) == 4 && !contains(lower_of(y), "answer"@)
}

/// The final-answer judgement prompt for puzzle `x` and a lower-cased answer line.
pub fn final_answer_prompt(x: &str, lowered: &str) -> (r: String)
    ensures
        r@ == final_answer_prompt_text(x@, lowered@),
{
    let label = chars_of("answer: ");
    let line = chars_of(lowered);
    let ans = crate::parse::remove_all_of(line.as_slice(), label.as_slice());
    let mut r = String::from_str(VALUE_LAST_STEP_HEAD);
    r.append(x);
    r.append(VALUE_LAST_STEP_MID);
    push_all(&mut r, ans.as_slice());
    r.append(VALUE_LAST_STEP_TAIL);
    r
}

fn contains_chars(s: &[char], p: &str) -> (r: bool)
    ensures
        r == contains(s@, p@),
{
    let pat = chars_of(p);
    find_seq(s, pat.as_slice()).is_some()
}

/// The evaluation prompt for candidate `y` of puzzle `x`.
pub fn value_prompt_of(x: &str, y: &str) -> (r: String)
    ensures
        r@ == value_prompt(x@, y@),
{
    let chars = chars_of(y);
    let t = trim_chars(chars.as_slice());
    let nl = single('\n');
    let line = after_last_of(t.as_slice(), nl.as_slice());
    if !contains_chars(line.as_slice(), "left: ") {
        let line_text = string_of(line.as_slice());
        let lowered = lowercase(line_text.as_str());
        final_answer_prompt(x, lowered.as_str())
    } else {
        let nums = crate::parse::get_current_number(y);
        let mut r = String::from_str(VALUE_GAME24_HEAD);
        r.append(nums.as_str());
        r.append(VALUE_GAME24_TAIL);
        r
    }
}

/// Whether a lower-cased candidate holds no answer line yet.
pub fn lacks_answer(lowered: &str) -> (r: bool)
    ensures
        r == !contains(lowered@, "answer"@),
{
    let chars = chars_of(lowered);
    !contains_chars(chars.as_slice(), "answer")
}

/// Whether candidate `y` is scored zero without asking the model.
pub fn short_circuits(y: &str) -> (r: bool)
    ensures
        r == short_circuit(y@),
{
    let chars = chars_of(y);
    let t = trim_chars(chars.as_slice());
    let lines: usize = if t.len() == 0 {
        0
    } else {
        let breaks = count_of(t.as_slice(), '\n');
        if breaks >= 4 {
            5
        } else {
            breaks + 1
        }
    };
    if lines != 4 {
        return false;
    }
    let lowered = lowercase(y);
    lacks_answer(lowered.as_str())
}

/// The score of a candidate without asking the model, if it has one: first the
/// batch's own cache, then (when caching) the task's cache, then the four-line
/// rule. A candidate whose prompt was already scored in the same batch gets that
/// same score.
pub open spec fn resolve(
    local: Map<Seq<char>, u64>,
    cache: Map<Seq<char>, u64>,
    cache_value: bool,
    prompt: Seq<char>,
    short: bool,
) -> Option<u64> {
    if local.contains_key(prompt) {
        Some(local[prompt])
    } else if cache_value && cache.contains_key(prompt) {
        Some(cache[prompt])
    } else if short {
        Some(0)
    } else {
        None
    }
}

/// `m` with `v` stored under `k`, unless `m` already has an entry for `k`.
pub open spec fn stored(m: Map<Seq<char>, u64>, k: Seq<char>, v: u64) -> Map<Seq<char>, u64> {
    if m.contains_key(k) {
        m
    } else {
        m.insert(k, v)
    }
}

/// What the next move of a value run is.
pub enum ValueAction {
    /// The next candidate was scored from a cache or by the four-line rule.
    Scored(u64),
    /// The model must judge `prompt` `n` times; hand the judgements to `answer`.
    Ask { prompt: String, n: u64 },
    /// Every candidate is scored.
    Done,
}

/// The scoring of one batch of candidates in value mode, one candidate at a time.
pub struct ValueRun {
    x: String,
    ys: Vec<String>,
    n_evaluate_sample: u64,
    cache_value: bool,
    pending: Option<String>,
    local: ValueCache,
    values: Vec<u64>,
}

impl ValueRun {
    /// The puzzle.
    pub closed spec fn puzzle(&self) -> Seq<char> {
        self.x@
    }

    /// The candidates.
    pub closed spec fn candidates(&self) -> Seq<Seq<char>> {
        texts(self.ys@)
    }

    /// The number of judgements asked of the model per prompt.
    pub closed spec fn samples(&self) -> u64 {
        self.n_evaluate_sample
    }

    /// Whether the task's cache is read and written.
    pub closed spec fn caching(&self) -> bool {
        self.cache_value
    }

    /// The prompt awaiting the model's judgements.
    pub closed spec fn waiting(&self) -> Option<Seq<char>> {
        match self.pending {
            Some(p) => Some(p@),
            None => None,
        }
    }

    /// The batch's own cache.
    pub closed spec fn local(&self) -> Map<Seq<char>, u64> {
        self.local@
    }

    /// The scores so far, one per candidate, in order.
    pub closed spec fn scores(&self) -> Seq<u64> {
        self.values@
    }

    /// A run over candidates `ys` of puzzle `x`, asking `n_evaluate_sample`
    /// judgements per prompt, reading and writing the task's cache when
    /// `cache_value` says so (the default).
    pub fn new(x: &str, ys: &Vec<String>, n_evaluate_sample: u64, cache_value: Option<bool>) -> (r: ValueRun)
        ensures
            r.puzzle() == x@,
            r.candidates() == texts(ys@),
            r.samples() == n_evaluate_sample,
            r.caching() == (cache_value != Some(false)),
            r.waiting() is None,
            r.local() == Map::<Seq<char>, u64>::empty(),
            r.scores().len() == 0,
    {
        let mut copy: Vec<String> = Vec::new();
        let mut i: usize = 0;
        while i < ys.len()
            invariant
                i <= ys@.len(),
                copy@.len() == i,
                forall|j: int| 0 <= j < i ==> (#[trigger] copy@[j])@ == ys@[j]@,
            decreases ys.len() - i,
        {
            copy.push(ys[i].clone());
            i = i + 1;
        }
        assert(texts(copy@) =~= texts(ys@));
        let caching = match cache_value {
            Some(false) => false,
            _ => true,
        };
        ValueRun {
            x: String::from_str(x),
            ys: copy,
            n_evaluate_sample,
            cache_value: caching,
            pending: None,
            local: ValueCache::new(),
            values: Vec::new(),
        }
    }

    /// The scores so far, one per candidate scored, in order.
    pub fn values(&self) -> (r: Vec<u64>)
        ensures
            r@ == self.scores(),
    {
        let mut r: Vec<u64> = Vec::new();
        let mut i: usize = 0;
        while i < self.values.len()
            invariant
                i <= self.values@.len(),
                r@ == self.values@.subrange(0, i as int),
            decreases self.values.len() - i,
        {
            r.push(self.values[i]);
            i = i + 1;
        }
        r
    }

    /// Moves the run on by one candidate. While the model's judgements are
    /// awaited the same request is returned again. Otherwise the next candidate's
    /// prompt is looked up (see `resolve`): a score found is recorded, in both
    /// caches, and returned; else the model is asked.
    pub fn step(&mut self, cache: &mut ValueCache) -> (r: ValueAction)
        ensures
            final(self).puzzle() == old(self).puzzle(),
            final(self).candidates() == old(self).candidates(),
            final(self).samples() == old(self).samples(),
            final(self).caching() == old(self).caching(),
            old(self).waiting() matches Some(p) ==> r matches ValueAction::Ask { prompt, n } && prompt@
                == p && n == old(self).samples() && *final(self) == *old(self) && *final(cache)
                == *old(cache),
            old(self).waiting() is None && old(self).scores().len() >= old(self).candidates().len()
                ==> r is Done && *final(self) == *old(self) && *final(cache) == *old(cache),
            old(self).waiting() is None && old(self).scores().len() < old(self).candidates().len()
                ==> {
                let y = old(self).candidates()[old(self).scores().len() as int];
                let p = value_prompt(old(self).puzzle(), y);
                match resolve(
                    old(self).local(),
                    old(cache)@,
                    old(self).caching(),
                    p,
                    short_circuit(y),
                ) {
                    Some(v) => {
                        &&& r == ValueAction::Scored(v)
                        &&& final(self).scores() == old(self).scores().push(v)
                        &&& final(self).local() == stored(old(self).local(), p, v)
                        &&& final(cache)@ == if old(self).caching() {
                            stored(old(cache)@, p, v)
                        } else {
                            old(cache)@
                        }
                        &&& final(self).waiting() is None
                    },
                    None => {
                        &&& r matches ValueAction::Ask { prompt, n } && prompt@ == p && n
                            == old(self).samples()
                        &&& final(self).waiting() == Some(p)
                        &&& final(self).scores() == old(self).scores()
                        &&& final(self).local() == old(self).local()
                        &&& *final(cache) == *old(cache)
                    },
                }
            },
    {
        match &self.pending {
            Some(p) => {
                return ValueAction::Ask { prompt: p.clone(), n: self.n_evaluate_sample };
            },
            None => {},
        }
        let k = self.values.len();
        if k >= self.ys.len() {
            return ValueAction::Done;
        }
        assert(texts(self.ys@)[k as int] == self.ys@[k as int]@);
        let prompt = value_prompt_of(self.x.as_str(), self.ys[k].as_str());
        let found = match self.local.get(prompt.as_str()) {
            Some(v) => Some(v),
            None => if self.cache_value {
                match cache.get(prompt.as_str()) {
                    Some(v) => Some(v),
                    None => None,
                }
            } else {
                None
            },
        };
        let score = match found {
            Some(v) => Some(v),
            None => if short_circuits(self.ys[k].as_str()) {
                Some(0)
            } else {
                None
            },
        };
        match score {
            Some(v) => {
                self.local.insert(prompt.clone(), v);
                if self.cache_value {
                    cache.insert(prompt, v);
                }
                self.values.push(v);
                ValueAction::Scored(v)
            },
            None => {
                self.pending = Some(prompt.clone());
                ValueAction::Ask { prompt, n: self.n_evaluate_sample }
            },
        }
    }

    /// Records the model's judgements of the awaited prompt: their value goes to
    /// the candidate and into both caches. Without an awaited prompt nothing changes.
    pub fn answer(&mut self, cache: &mut ValueCache, outputs: &Vec<String>)
        requires
            outputs@.len() <= u32::MAX,
        ensures
            final(self).puzzle() == old(self).puzzle(),
            final(self).candidates() == old(self).candidates(),
            final(self).samples() == old(self).samples(),
            final(self).caching() == old(self).caching(),
            final(self).waiting() is None,
            old(self).waiting() is None ==> *final(self) == *old(self) && *final(cache) == *old(cache),
            old(self).waiting() matches Some(p) ==> {
                let v = judged_value(texts(outputs@));
                &&& final(self).scores() == old(self).scores().push(v as u64)
                &&& final(self).local() == stored(old(self).local(), p, v as u64)
                &&& final(cache)@ == if old(self).caching() {
                    stored(old(cache)@, p, v as u64)
                } else {
                    old(cache)@
                }
            },
    {
        let prompt = match self.pending.take() {
            Some(p) => p,
            None => {
                return;
            },
        };
        let v = judge_value(outputs);
        self.local.insert(prompt.clone(), v);
        if self.cache_value {
            cache.insert(prompt, v);
        }
        self.values.push(v);
    }
}

/// Scoring a candidate a second time costs nothing: once the judgements of the
/// prompt of `(x, y)` were valued at `v` and stored, with caching, in a task cache
/// that did not hold that prompt, a later evaluation of the same `(x, y)` with
/// caching resolves to `v` without asking the model, in a fresh batch or in one
/// whose own cache agrees.
pub proof fn lemma_cached_score_reused(
    before: Map<Seq<char>, u64>,
    local: Map<Seq<char>, u64>,
    x: Seq<char>,
    y: Seq<char>,
    v: u64,
)
    requires
        !before.contains_key(value_prompt(x, y)),
        local.contains_key(value_prompt(x, y)) ==> local[value_prompt(x, y)] == v,
    ensures
        resolve(local, stored(before, value_prompt(x, y), v), true, value_prompt(x, y), short_circuit(y))
            == Some(v),
{
}

/// Once a prompt is scored it keeps its score: storing any score under any
/// prompt leaves an existing entry as it was.
pub proof fn lemma_cached_score_kept(m: Map<Seq<char>, u64>, p: Seq<char>, q: Seq<char>, v: u64)
    requires
        m.contains_key(p),
    ensures
        stored(m, q, v).contains_key(p),
        stored(m, q, v)[p] == m[p],
{
}

} // verus!
