//! The task: one of three problem variants, each with its dataset, its prompt
//! templates and, for the arithmetic and word-grid variants, its own state.

use vstd::prelude::*;
use crate::grid::{
    clues_text, matching_cells, matching_slots, render_text, replay_rows, statuses_after, FillStatus,
    GridError, MiniCrosswordEnv, Puzzle, BLANK,
};
use crate::parse::{current_numbers, join_tokens, join_tokens_of, kept_scores, mean_score, sum_scores};
use crate::reward::{Ratio, TOutput};
use crate::text::{
    after_last, after_last_of, lemma_split_on_nonempty, lines_chars, lines_of, split_chars, split_on,
    trim, trim_chars, views,
};
use crate::parse::{decimal, decimal_of, tally_votes, texts, votes_for};
use crate::prompts::{
    COT_CROSSWORDS_HEAD, COT_CROSSWORDS_TAIL, COT_GAME24_HEAD, COT_GAME24_TAIL, COT_TEXT_HEAD,
    COT_TEXT_TAIL, PROPOSE_CROSSWORDS_HEAD, PROPOSE_CROSSWORDS_TAIL, PROPOSE_GAME24_HEAD,
    PROPOSE_GAME24_TAIL, SCORE_TEXT, STANDARD_CROSSWORDS_HEAD, STANDARD_CROSSWORDS_TAIL, STANDARD_GAME24_HEAD,
    STANDARD_GAME24_TAIL, STANDARD_TEXT_HEAD, STANDARD_TEXT_TAIL, VOTE_TEXT,
};
use crate::text::{chars_of, push_all, spells};
use crate::value::{ValueCache, ValueRun};

verus! {

/// Why a task operation was refused.
#[derive(Clone, Copy, Debug, PartialEq, Eq, Structural)]
pub enum TaskError {
    /// The task name is none of `game24`, `text`, `crosswords`.
    InvalidTask,
    /// The operation or prompt style does not apply to this variant.
    InvalidMode,
    /// There is no dataset item with that index, or with that input.
    ItemNotFound,
    /// The model returned no completion.
    NoOutputs,
    /// The word grid refused a write.
    Grid(crate::grid::GridError),
}

/// The three problem variants.
#[derive(Clone, Copy, Debug, PartialEq, Eq, Structural)]
pub enum TaskKind {
    Game24,
    Text,
    MiniCrossword,
}

/// A task: the dataset and state of one problem variant.
pub enum Task {
    /// Arithmetic puzzles, one line of four numbers each, with the value cache.
    Game24 { data: Vec<String>, value_cache: ValueCache },
    /// Text continuation: the sentences that end the paragraphs, one item each.
    Text { data: Vec<String> },
    /// Word grids: the environment, and the clue text of each puzzle.
    MiniCrossword { env: MiniCrosswordEnv, xs: Vec<String> },
}

/// The variant that a task name selects.
pub open spec fn kind_of_name(name: Seq<char>) -> Option<TaskKind> {
    if name == "game24"@ {
        Some(TaskKind::Game24)
    } else if name == "text"@ {
        Some(TaskKind::Text)
    } else if name == "crosswords"@ {
        Some(TaskKind::MiniCrossword)
    } else {
        None
    }
}

/// The variant that a task name selects: `game24`, `text` or `crosswords`.
pub fn task_kind(name: &str) -> (r: Result<TaskKind, TaskError>)
    ensures
        r matches Ok(k) ==> kind_of_name(name@) == Some(k),
        r matches Err(e) ==> kind_of_name(name@) is None && e == TaskError::InvalidTask,
{
    if spells(name, "game24") {
        Ok(TaskKind::Game24)
    } else if spells(name, "text") {
        Ok(TaskKind::Text)
    } else if spells(name, "crosswords") {
        Ok(TaskKind::MiniCrossword)
    } else {
        Err(TaskError::InvalidTask)
    }
}

/// The clue text of a puzzle: every clue, tagged, one per line.
pub open spec fn puzzle_clues(p: Puzzle) -> Seq<char> {
    clues_text(p.clue_views(), Seq::new(10, |i: int| FillStatus::Unfilled), None, 10)
}

/// The task named `name`: the arithmetic and text variants take the dataset
/// `data`, the word grid takes `puzzles`.
pub fn get_task(name: &str, data: Vec<String>, puzzles: Vec<Puzzle>) -> (r: Result<Task, TaskError>)
    ensures
        kind_of_name(name@) is None ==> r == Err::<Task, TaskError>(TaskError::InvalidTask),
        kind_of_name(name@) matches Some(k) ==> (r matches Ok(t) && t.wf() && t.kind() == k),
        r matches Ok(t) ==> match t {
            Task::Game24 { data: d, value_cache } => texts(d@) == texts(data@) && value_cache@
                == Map::<Seq<char>, u64>::empty(),
            Task::Text { data: d } => texts(d@) == texts(data@),
            Task::MiniCrossword { env, xs } => env.puzzles() == puzzles@ && texts(xs@).len()
                == puzzles@.len() && forall|i: int|
                0 <= i < puzzles@.len() ==> #[trigger] texts(xs@)[i] == puzzle_clues(puzzles@[i]),
        },
{
    let kind = task_kind(name)?;
    match kind {
        TaskKind::Game24 => Ok(Task::Game24 { data, value_cache: ValueCache::new() }),
        TaskKind::Text => Ok(Task::Text { data }),
        TaskKind::MiniCrossword => {
            let mut env = MiniCrosswordEnv::new(puzzles);
            let ghost all = env.puzzles();
            let n = env.len();
            let mut xs: Vec<String> = Vec::new();
            let mut i: usize = 0;
            while i < n
                invariant
                    env.wf(),
                    env.puzzles() == all,
                    n == all.len(),
                    i <= n,
                    xs@.len() == i,
                    forall|j: int| 0 <= j < i ==> (#[trigger] xs@[j])@ == puzzle_clues(all[j]),
                decreases n - i,
            {
                let _ = env.reset(i);
                let clues = env.render_clues(None);
                proof {
                    assert(env.clues() == all[i as int].clue_views());
                    assert(clues_text(env.clues(), env.status(), None, 10) == puzzle_clues(all[i as int]))
                        by {
                        lemma_clues_text_ignores_status(env.clues(), env.status(), Seq::new(10, |k: int| FillStatus::Unfilled), 10);
                    }
                }
                xs.push(clues);
                i = i + 1;
            }
            let t = Task::MiniCrossword { env, xs };
            assert(texts(xs@).len() == xs@.len());
            Ok(t)
        },
    }
}

proof fn lemma_clues_text_ignores_status(
    clues: Seq<Seq<char>>,
    a: Seq<FillStatus>,
    b: Seq<FillStatus>,
    n: int,
)
    ensures
        clues_text(clues, a, None, n) == clues_text(clues, b, None, n),
    decreases n,
{
    if n > 0 {
        lemma_clues_text_ignores_status(clues, a, b, n - 1);
    }
}

/// The head of the standard prompt of each variant.
pub open spec fn standard_head(k: TaskKind) -> Seq<char> {
    match k {
        TaskKind::Game24 => STANDARD_GAME24_HEAD@,
        TaskKind::Text => STANDARD_TEXT_HEAD@,
        TaskKind::MiniCrossword => STANDARD_CROSSWORDS_HEAD@,
    }
}

/// The tail of the standard prompt of each variant.
pub open spec fn standard_tail(k: TaskKind) -> Seq<char> {
    match k {
        TaskKind::Game24 => STANDARD_GAME24_TAIL@,
        TaskKind::Text => STANDARD_TEXT_TAIL@,
        TaskKind::MiniCrossword => STANDARD_CROSSWORDS_TAIL@,
    }
}

/// The head of the chain-of-thought prompt of each variant.
pub open spec fn cot_head(k: TaskKind) -> Seq<char> {
    match k {
        TaskKind::Game24 => COT_GAME24_HEAD@,
        TaskKind::Text => COT_TEXT_HEAD@,
        TaskKind::MiniCrossword => COT_CROSSWORDS_HEAD@,
    }
}

/// The tail of the chain-of-thought prompt of each variant.
pub open spec fn cot_tail(k: TaskKind) -> Seq<char> {
    match k {
        TaskKind::Game24 => COT_GAME24_TAIL@,
        TaskKind::Text => COT_TEXT_TAIL@,
        TaskKind::MiniCrossword => COT_CROSSWORDS_TAIL@,
    }
}

/// The vote prompt's list of choices, the first `n` of `ys`, numbered from 1.
pub open spec fn choices_text(ys: Seq<Seq<char>>, n: int) -> Seq<char>
    decreases n,
{
    if n <= 0 {
        Seq::empty()
    } else {
        choices_text(ys, n - 1) + "Choice "@ + decimal(n as nat) + ":\n"@ + ys[n - 1].push('\n')
    }
}

/// Each of `samples` with `y` in front.
pub open spec fn prefixed(y: Seq<char>, samples: Seq<Seq<char>>) -> Seq<Seq<char>> {
    samples.map_values(|s: Seq<char>| y + s)
}

impl Task {
    /// The variant.
    pub open spec fn kind(&self) -> TaskKind {
        match self {
            Task::Game24 { .. } => TaskKind::Game24,
            Task::Text { .. } => TaskKind::Text,
            Task::MiniCrossword { .. } => TaskKind::MiniCrossword,
        }
    }

    /// The word grid's state is well formed and has one clue text per puzzle.
    pub open spec fn wf(&self) -> bool {
        match self {
            Task::MiniCrossword { env, xs } => env.wf() && xs@.len() == env.puzzles().len(),
            _ => true,
        }
    }

    /// The number of search steps: 4 for arithmetic, 2 for text, 10 for the word grid.
    pub fn get_steps(&self) -> (r: u64)
        ensures
            r == match self.kind() {
                TaskKind::Game24 => 4u64,
                TaskKind::Text => 2u64,
                TaskKind::MiniCrossword => 10u64,
            },
    {
        match self {
            Task::Game24 { .. } => 4,
            Task::Text { .. } => 2,
            Task::MiniCrossword { .. } => 10,
        }
    }

    /// Dataset item `idx`. For the word grid this makes puzzle `idx` the one in
    /// play, blank, and returns its clues.
    pub fn get_input(&mut self, idx: usize) -> (r: Result<String, TaskError>)
        requires
            old(self).wf(),
        ensures
            final(self).wf(),
            final(self).kind() == old(self).kind(),
            match *old(self) {
                Task::Game24 { data, .. } | Task::Text { data } => *final(self) == *old(self) && if idx
                    < data@.len() {
                    r matches Ok(s) && s@ == data@[idx as int]@
                } else {
                    r == Err::<String, TaskError>(TaskError::ItemNotFound)
                },
                Task::MiniCrossword { env: old_env, xs: old_xs } => match *final(self) {
                    Task::MiniCrossword { env, xs } => {
                        &&& xs == old_xs
                        &&& env.puzzles() == old_env.puzzles()
                        &&& idx < old_env.puzzles().len() ==> {
                            &&& env.current() == Some(idx)
                            &&& env.board() == Seq::new(25, |i: int| crate::grid::BLANK)
                            &&& env.status() == Seq::new(10, |i: int| FillStatus::Unfilled)
                            &&& r matches Ok(s) && s@ == puzzle_clues(old_env.puzzles()[idx as int])
                        }
                        &&& idx >= old_env.puzzles().len() ==> r == Err::<String, TaskError>(
                            TaskError::ItemNotFound,
                        ) && env == old_env
                    },
                    _ => false,
                },
            },
    {
        match self {
            Task::Game24 { data, .. } => {
                if idx < data.len() {
                    Ok(data[idx].clone())
                } else {
                    Err(TaskError::ItemNotFound)
                }
            },
            Task::Text { data } => {
                if idx < data.len() {
                    Ok(data[idx].clone())
                } else {
                    Err(TaskError::ItemNotFound)
                }
            },
            Task::MiniCrossword { env, .. } => {
                match env.reset(idx) {
                    Ok(_) => {},
                    Err(_) => {
                        return Err(TaskError::ItemNotFound);
                    },
                }
                let clues = env.render_clues(None);
                proof {
                    lemma_clues_text_ignores_status(env.clues(), env.status(), Seq::new(10, |k: int| FillStatus::Unfilled), 10);
                }
                Ok(clues)
            },
        }
    }

    /// The standard prompt: the variant's template around `x`, then `y`.
    pub fn standard_prompt_wrap(&self, x: &str, y: &str) -> (r: String)
        ensures
            r@ == standard_head(self.kind()) + x@ + standard_tail(self.kind()) + y@,
    {
        let (head, tail) = match self {
            Task::Game24 { .. } => (STANDARD_GAME24_HEAD, STANDARD_GAME24_TAIL),
            Task::Text { .. } => (STANDARD_TEXT_HEAD, STANDARD_TEXT_TAIL),
            Task::MiniCrossword { .. } => (STANDARD_CROSSWORDS_HEAD, STANDARD_CROSSWORDS_TAIL),
        };
        let mut prompt = String::from_str(head);
        prompt.append(x);
        prompt.append(tail);
        prompt.append(y);
        prompt
    }

    /// The chain-of-thought prompt: the variant's template around `x`, then `y`.
    pub fn cot_prompt_wrap(&self, x: &str, y: &str) -> (r: String)
        ensures
            r@ == cot_head(self.kind()) + x@ + cot_tail(self.kind()) + y@,
    {
        let (head, tail) = match self {
            Task::Game24 { .. } => (COT_GAME24_HEAD, COT_GAME24_TAIL),
            Task::Text { .. } => (COT_TEXT_HEAD, COT_TEXT_TAIL),
            Task::MiniCrossword { .. } => (COT_CROSSWORDS_HEAD, COT_CROSSWORDS_TAIL),
        };
        let mut prompt = String::from_str(head);
        prompt.append(x);
        prompt.append(tail);
        prompt.append(y);
        prompt
    }

    /// The prompt for sampling continuations of `y` in the style `prompt_sample`,
    /// `standard` or `cot`; any other style is refused.
    pub fn sample_prompt(&self, x: &str, y: &str, prompt_sample: &str) -> (r: Result<String, TaskError>)
        ensures
            prompt_sample@ == "standard"@ ==> (r matches Ok(s) && s@ == standard_head(self.kind()) + x@
                + standard_tail(self.kind()) + y@),
            prompt_sample@ == "cot"@ ==> (r matches Ok(s) && s@ == cot_head(self.kind()) + x@
                + cot_tail(self.kind()) + y@),
            prompt_sample@ != "standard"@ && prompt_sample@ != "cot"@ ==> r == Err::<String, TaskError>(
                TaskError::InvalidMode,
            ),
    {
        proof {
            reveal_strlit("standard");
            reveal_strlit("cot");
            assert("standard"@.len() == 8);
            assert("cot"@.len() == 3);
            assert("standard"@ != "cot"@);
        }
        if spells(prompt_sample, "standard") {
            Ok(self.standard_prompt_wrap(x, y))
        } else if spells(prompt_sample, "cot") {
            Ok(self.cot_prompt_wrap(x, y))
        } else {
            Err(TaskError::InvalidMode)
        }
    }

    /// The new partial solutions from sampled continuations: each after `y`.
    pub fn get_samples(&self, y: &str, samples: &Vec<String>) -> (r: Vec<String>)
        ensures
            texts(r@) == prefixed(y@, texts(samples@)),
    {
        let mut r: Vec<String> = Vec::new();
        let mut i: usize = 0;
        while i < samples.len()
            invariant
                i <= samples@.len(),
                r@.len() == i,
                forall|j: int| 0 <= j < i ==> (#[trigger] r@[j])@ == y@ + samples@[j]@,
            decreases samples.len() - i,
        {
            let mut s = String::from_str(y);
            s.append(samples[i].as_str());
            r.push(s);
            i = i + 1;
        }
        assert(texts(r@) =~= prefixed(y@, texts(samples@)));
        r
    }

    /// The vote prompt: the instruction, then each candidate as `Choice i:`,
    /// numbered from 1.
    pub fn vote_prompt_wrap(&self, ys: &Vec<String>) -> (r: String)
        ensures
            r@ == VOTE_TEXT@ + choices_text(texts(ys@), ys@.len() as int),
    {
        let mut prompt = String::from_str(VOTE_TEXT);
        let mut i: usize = 0;
        while i < ys.len()
            invariant
                i <= ys@.len(),
                prompt@ == VOTE_TEXT@ + choices_text(texts(ys@), i as int),
            decreases ys.len() - i,
        {
            let ghost before = prompt@;
            prompt.append("Choice ");
            let num = decimal_of((i + 1) as u64);
            push_all(&mut prompt, num.as_slice());
            prompt.append(":\n");
            prompt.append(ys[i].as_str());
            crate::text::push_char(&mut prompt, '\n');
            assert(texts(ys@)[i as int] == ys@[i as int]@);
            assert(prompt@ =~= VOTE_TEXT@ + choices_text(texts(ys@), i + 1));
            i = i + 1;
        }
        prompt
    }

    /// The tally of the judges' `vote_outputs` over the candidates `ys`: entry `i`
    /// counts the votes naming choice `i + 1`.
    pub fn get_votes(&self, ys: &Vec<String>, vote_outputs: &Vec<String>) -> (r: Vec<u64>)
        ensures
            r@.len() == ys@.len(),
            forall|i: int|
                0 <= i < ys@.len() ==> #[trigger] r@[i] == votes_for(texts(vote_outputs@), (i + 1) as nat),
    {
        tally_votes(vote_outputs, ys.len())
    }

    /// A value-mode evaluation of the candidates `ys` of puzzle `x`; only the
    /// arithmetic variant scores by value.
    pub fn get_values(&self, x: &str, ys: &Vec<String>, n_evaluate_sample: u64, cache_value: Option<bool>) -> (r: Result<ValueRun, TaskError>)
        ensures
            self.kind() != TaskKind::Game24 ==> r == Err::<ValueRun, TaskError>(TaskError::InvalidMode),
            self.kind() == TaskKind::Game24 ==> (r matches Ok(run) && run.puzzle() == x@ && run.candidates()
                == texts(ys@) && run.samples() == n_evaluate_sample && run.caching() == (cache_value
                != Some(false)) && run.waiting() is None && run.local() == Map::<Seq<char>, u64>::empty()
                && run.scores().len() == 0),
    {
        match self {
            Task::Game24 { .. } => Ok(ValueRun::new(x, ys, n_evaluate_sample, cache_value)),
            _ => Err(TaskError::InvalidMode),
        }
    }
}

/// The blank board.
pub open spec fn blank_board() -> Seq<char> {
    Seq::new(25, |i: int| BLANK)
}

/// The rows that a finished word-grid solution writes: of the trimmed text after
/// its last `"Output:\n"`, the last five lines (all, if fewer), each read as its
/// first five space-separated letters joined.
pub open spec fn output_rows(output: Seq<char>) -> Seq<Seq<char>> {
    let pieces = split_on(trim(after_last(output, "Output:\n"@)), '\n');
    let start = if pieces.len() >= 5 {
        pieces.len() - 5
    } else {
        0
    };
    pieces.subrange(start as int, pieces.len() as int).map_values(|l: Seq<char>| join_tokens(l, 5))
}

/// A row of up to five letters, filled out with blanks to five.
pub open spec fn padded(w: Seq<char>) -> Seq<char> {
    w + Seq::new((5 - w.len()) as nat, |i: int| BLANK)
}

/// The statuses after rows `0..n` are written with `words`, from a blank grid.
pub open spec fn replay_statuses(words: Seq<Seq<char>>, n: int) -> Seq<FillStatus>
    decreases n,
{
    if n <= 0 {
        Seq::new(10, |i: int| FillStatus::Unfilled)
    } else {
        statuses_after(
            replay_statuses(words, n - 1),
            n - 1,
            replay_rows(blank_board(), words, n - 1),
            replay_rows(blank_board(), words, n),
        )
    }
}

/// Whether `info` reports the partial credit of `board` against `solution`.
pub open spec fn grid_credit(info: TOutput, board: Seq<char>, solution: Seq<char>) -> bool {
    &&& info.r_letter == (Ratio { num: matching_cells(board, solution, 25) as u64, den: 25 })
    &&& info.r_word == (Ratio { num: matching_slots(board, solution, 10) as u64, den: 10 })
    &&& info.r_game == (board == solution)
}

/// What replaying a solution on puzzle `idx` does to `env`: the puzzle is in play
/// and its rows are written in order from a blank grid. Refused when a row has
/// more than five letters.
pub open spec fn replayed(old_env: MiniCrosswordEnv, env: MiniCrosswordEnv, idx: int, output: Seq<char>, r: Result<TOutput, TaskError>) -> bool {
    let rows = output_rows(output);
    let words = rows.map_values(|w: Seq<char>| padded(w));
    &&& env.wf()
    &&& env.puzzles() == old_env.puzzles()
    &&& env.current() == Some(idx as usize)
    &&& env.clues() == old_env.puzzles()[idx].clue_views()
    &&& env.solution() == old_env.puzzles()[idx].solution()
    &&& (forall|i: int| 0 <= i < rows.len() ==> (#[trigger] rows[i]).len() <= 5) ==> {
        &&& r matches Ok(info) && grid_credit(info, env.board(), env.solution())
        &&& env.board() == replay_rows(blank_board(), words, rows.len() as int)
        &&& env.status() == replay_statuses(words, rows.len() as int)
    }
    &&& !(forall|i: int| 0 <= i < rows.len() ==> (#[trigger] rows[i]).len() <= 5) ==> r
        == Err::<TOutput, TaskError>(TaskError::Grid(GridError::WordLength))
}

/// Replays the rows of a finished solution on puzzle `idx`.
fn replay(env: &mut MiniCrosswordEnv, idx: usize, output: &str) -> (r: Result<TOutput, TaskError>)
    requires
        old(env).wf(),
        idx < old(env).puzzles().len(),
    ensures
        replayed(*old(env), *final(env), idx as int, output@, r),
{
    let _ = env.reset(idx);
    let chars = chars_of(output);
    let marker = chars_of("Output:\n");
    let body = after_last_of(chars.as_slice(), marker.as_slice());
    let t = trim_chars(body.as_slice());
    let pieces = split_chars(t.as_slice(), '\n');
    proof {
        lemma_split_on_nonempty(t@, '\n');
        assert(views(pieces@).len() == pieces@.len());
    }
    let n = pieces.len();
    let start: usize = if n >= 5 {
        n - 5
    } else {
        0
    };
    let ghost rows = output_rows(output@);
    let ghost words = rows.map_values(|w: Seq<char>| padded(w));
    assert(rows.len() == n - start);
    let mut info = TOutput::new();
    let mut t: usize = 0;
    while start + t < n
        invariant
            env.wf(),
            env.puzzles() == old(env).puzzles(),
            idx < old(env).puzzles().len(),
            env.current() == Some(idx),
            env.clues() == old(env).puzzles()[idx as int].clue_views(),
            env.solution() == old(env).puzzles()[idx as int].solution(),
            start <= n,
            n - start <= 5,
            n == pieces@.len(),
            n >= 1,
            rows == output_rows(output@),
            words == rows.map_values(|w: Seq<char>| padded(w)),
            rows.len() == n - start,
            words.len() == rows.len(),
            forall|i: int| 0 <= i < rows.len() ==> #[trigger] rows[i] == join_tokens(views(pieces@)[start + i], 5),
            forall|i: int| 0 <= i < rows.len() ==> #[trigger] words[i] == padded(rows[i]),
            start + t <= n,
            forall|i: int| 0 <= i < t ==> (#[trigger] rows[i]).len() <= 5,
            env.board() == replay_rows(blank_board(), words, t as int),
            env.status() == replay_statuses(words, t as int),
            t > 0 ==> grid_credit(info, env.board(), env.solution()),
        decreases n - start - t,
    {
        assert(views(pieces@)[start + t] == pieces@[start + t]@);
        let tok = join_tokens_of(pieces[start + t].as_slice(), 5);
        if tok.len() > 5 {
            assert(rows[t as int].len() > 5);
            assert(!(forall|i: int| 0 <= i < rows.len() ==> (#[trigger] rows[i]).len() <= 5));
            return Err(TaskError::Grid(GridError::WordLength));
        }
        let mut word = tok;
        while word.len() < 5
            invariant
                t < rows.len(),
                word@.len() <= 5,
                word@ =~= rows[t as int] + Seq::new((word@.len() - rows[t as int].len()) as nat, |i: int| BLANK),
                rows[t as int].len() <= word@.len(),
            decreases 5 - word.len(),
        {
            word.push(BLANK);
        }
        assert(word@ == words[t as int]);
        let out = env.fill(t, &word);
        info = out.letter;
        t = t + 1;
    }
    assert(t == rows.len());
    Ok(info)
}

/// The index of the first of `xs` equal to `x`.
pub open spec fn index_of(xs: Seq<Seq<char>>, x: Seq<char>) -> Option<int> {
    if exists|i: int| 0 <= i < xs.len() && xs[i] == x {
        Some(choose|i: int| 0 <= i < xs.len() && xs[i] == x && forall|j: int| 0 <= j < i ==> xs[j] != x)
    } else {
        None
    }
}

/// The arithmetic variant's proposal prompt: with 24 reached, the final-answer
/// prompt over the steps so far; otherwise the next-step prompt over the
/// numbers left (those of the puzzle before any step).
pub open spec fn propose_game24(x: Seq<char>, y: Seq<char>) -> Seq<char> {
    let input = if y.len() > 0 {
        y
    } else {
        x
    };
    let current = current_numbers(input);
    if current == "24"@ {
        COT_GAME24_HEAD@ + x + COT_GAME24_TAIL@ + "Steps:"@ + y
    } else {
        PROPOSE_GAME24_HEAD@ + current + PROPOSE_GAME24_TAIL@
    }
}

/// The index of the first of `xs` equal to `x`.
fn position_of(xs: &Vec<String>, x: &str) -> (r: Option<usize>)
    ensures
        r matches Some(i) ==> index_of(texts(xs@), x@) == Some(i as int) && i < xs@.len(),
        r is None ==> index_of(texts(xs@), x@) is None,
{
    let key = String::from_str(x);
    let mut i: usize = 0;
    while i < xs.len()
        invariant
            key@ == x@,
            i <= xs@.len(),
            forall|j: int| 0 <= j < i ==> #[trigger] texts(xs@)[j] != x@,
        decreases xs.len() - i,
    {
        if xs[i] == key {
            proof {
                assert(texts(xs@)[i as int] == x@);
                let c = choose|c: int|
                    0 <= c < texts(xs@).len() && texts(xs@)[c] == x@ && forall|j: int|
                        0 <= j < c ==> texts(xs@)[j] != x@;
                assert(c == i) by {
                    if c < i {
                        assert(texts(xs@)[c] != x@);
                    }
                    if c > i {
                        assert(texts(xs@)[i as int] != x@);
                    }
                }
            }
            return Some(i);
        }
        i = i + 1;
    }
    None
}

impl Task {
    /// Replays solution `y` of the puzzle whose clue text is `x`, so that the grid
    /// shows it, and reports the partial credit. Only for the word grid.
    pub fn set_status(&mut self, x: &str, y: &str) -> (r: Result<TOutput, TaskError>)
        requires
            old(self).wf(),
        ensures
            final(self).wf(),
            final(self).kind() == old(self).kind(),
            old(self).kind() != TaskKind::MiniCrossword ==> r == Err::<TOutput, TaskError>(
                TaskError::InvalidMode,
            ) && *final(self) == *old(self),
            *old(self) matches Task::MiniCrossword { env: old_env, xs: old_xs } ==> (*final(self) matches Task::MiniCrossword { env, xs } && xs == old_xs && match index_of(texts(old_xs@), x@) {
                None => r == Err::<TOutput, TaskError>(TaskError::ItemNotFound) && env == old_env,
                Some(i) => replayed(old_env, env, i, y@, r),
            }),
    {
        match self {
            Task::MiniCrossword { env, xs } => match position_of(xs, x) {
                Some(i) => replay(env, i, y),
                None => Err(TaskError::ItemNotFound),
            },
            _ => Err(TaskError::InvalidMode),
        }
    }

    /// The prompt that asks for next steps. For the word grid, solution `y` of
    /// puzzle `x` is replayed first and the prompt shows the grid with its
    /// answers grouped by status. The text variant has no proposals.
    pub fn propose_prompt_wrap(&mut self, x: &str, y: &str) -> (r: Result<String, TaskError>)
        requires
            old(self).wf(),
        ensures
            final(self).wf(),
            final(self).kind() == old(self).kind(),
            old(self).kind() == TaskKind::Text ==> r == Err::<String, TaskError>(TaskError::InvalidMode)
                && *final(self) == *old(self),
            old(self).kind() == TaskKind::Game24 ==> (r matches Ok(s) && s@ == propose_game24(x@, y@))
                && *final(self) == *old(self),
            *old(self) matches Task::MiniCrossword { env: old_env, xs: old_xs } ==> (*final(self) matches Task::MiniCrossword { env, xs } && xs == old_xs && match index_of(texts(old_xs@), x@) {
                None => r == Err::<String, TaskError>(TaskError::ItemNotFound),
                Some(i) => exists|info: Result<TOutput, TaskError>| #[trigger] replayed(old_env, env, i, y@, info) && (info is Ok ==> (r matches Ok(s) && s@ == PROPOSE_CROSSWORDS_HEAD@ + render_text(env.clues(), env.board(), env.status(), true) + PROPOSE_CROSSWORDS_TAIL@)) && (info matches Err(e) ==> r == Err::<String, TaskError>(e)),
            }),
    {
        match self {
            Task::MiniCrossword { .. } => {
                let status = self.set_status(x, y);
                match status {
                    Err(e) => Err(e),
                    Ok(_) => match self {
                        Task::MiniCrossword { env, .. } => {
                            let mut prompt = String::from_str(PROPOSE_CROSSWORDS_HEAD);
                            let view = env.render(Some(true));
                            prompt.append(view.as_str());
                            prompt.append(PROPOSE_CROSSWORDS_TAIL);
                            Ok(prompt)
                        },
                        _ => Err(TaskError::InvalidMode),
                    },
                }
            },
            Task::Game24 { .. } => {
                let input = if y.unicode_len() > 0 {
                    y
                } else {
                    x
                };
                let current = crate::parse::get_current_number(input);
                if spells(current.as_str(), "24") {
                    let mut prompt = String::from_str(COT_GAME24_HEAD);
                    prompt.append(x);
                    prompt.append(COT_GAME24_TAIL);
                    prompt.append("Steps:");
                    prompt.append(y);
                    Ok(prompt)
                } else {
                    let mut prompt = String::from_str(PROPOSE_GAME24_HEAD);
                    prompt.append(current.as_str());
                    prompt.append(PROPOSE_GAME24_TAIL);
                    Ok(prompt)
                }
            },
            Task::Text { .. } => Err(TaskError::InvalidMode),
        }
    }
}
impl Task {
    /// The proposals in the model's completion `outputs[0]`: one new partial
    /// solution per line, `y` then the line then a line break. Refused when the
    /// model returned nothing.
    pub fn get_proposals(&self, y: &str, outputs: &Vec<String>) -> (r: Result<Vec<String>, TaskError>)
        ensures
            outputs@.len() == 0 ==> r == Err::<Vec<String>, TaskError>(TaskError::NoOutputs),
            outputs@.len() > 0 ==> (r matches Ok(v) && texts(v@) == lines_of(outputs@[0]@).map_values(
                |l: Seq<char>| (y@ + l).push('\n'),
            )),
    {
        if outputs.len() == 0 {
            return Err(TaskError::NoOutputs);
        }
        let chars = chars_of(outputs[0].as_str());
        let lines = lines_chars(chars.as_slice());
        let ghost want = lines_of(outputs@[0]@);
        assert(views(lines@).len() == lines@.len());
        let mut r: Vec<String> = Vec::new();
        let mut i: usize = 0;
        while i < lines.len()
            invariant
                views(lines@) == want,
                want.len() == lines@.len(),
                i <= lines@.len(),
                r@.len() == i,
                forall|j: int| 0 <= j < i ==> (#[trigger] r@[j])@ == (y@ + want[j]).push('\n'),
            decreases lines.len() - i,
        {
            assert(want[i as int] == lines@[i as int]@);
            let mut s = String::from_str(y);
            push_all(&mut s, lines[i].as_slice());
            crate::text::push_char(&mut s, '\n');
            r.push(s);
            i = i + 1;
        }
        assert(texts(r@) =~= want.map_values(|l: Seq<char>| (y@ + l).push('\n')));
        Ok(r)
    }

    /// The prompt that asks a judge to score a finished text: the scoring
    /// instruction, then the passage after the last `"Passage:\n"`. Only the text
    /// variant is graded by a judge.
    pub fn grading_prompt(&self, output: &str) -> (r: Option<String>)
        ensures
            self.kind() == TaskKind::Text ==> (r matches Some(s) && s@ == SCORE_TEXT@ + after_last(
                output@,
                "Passage:\n"@,
            )),
            self.kind() != TaskKind::Text ==> r is None,
    {
        match self {
            Task::Text { .. } => {
                let chars = chars_of(output);
                let marker = chars_of("Passage:\n");
                let passage = after_last_of(chars.as_slice(), marker.as_slice());
                let mut prompt = String::from_str(SCORE_TEXT);
                push_all(&mut prompt, passage.as_slice());
                Some(prompt)
            },
            _ => None,
        }
    }

    /// Grades the finished solution `output` of item `idx`. Arithmetic answers
    /// earn no reward. A text earns the mean of the scores in the judge's
    /// `judgements` (of the prompt from `grading_prompt`). A word grid earns the
    /// share of its slots that match, after its rows are replayed.
    pub fn test_output(&mut self, idx: usize, output: &str, judgements: &Vec<String>) -> (r: Result<TOutput, TaskError>)
        requires
            old(self).wf(),
            judgements@.len() <= u32::MAX,
        ensures
            final(self).wf(),
            final(self).kind() == old(self).kind(),
            *old(self) matches Task::Game24 { data, .. } ==> *final(self) == *old(self) && if idx
                < data@.len() {
                r matches Ok(info) && info.r == (Ratio { num: 0, den: 1 }) && info.r_letter == (Ratio {
                    num: 0,
                    den: 1,
                }) && info.r_word == (Ratio { num: 0, den: 1 }) && !info.r_game
            } else {
                r == Err::<TOutput, TaskError>(TaskError::ItemNotFound)
            },
            old(self).kind() == TaskKind::Text ==> *final(self) == *old(self) && (r matches Ok(info)
                && info.rs@ == kept_scores(texts(judgements@)) && info.r == if info.rs@.len() == 0 {
                Ratio { num: 0, den: 1 }
            } else {
                Ratio { num: sum_scores(info.rs@) as u64, den: info.rs@.len() as u64 }
            }),
            *old(self) matches Task::MiniCrossword { env: old_env, xs: old_xs } ==> (*final(self) matches Task::MiniCrossword { env, xs } && xs == old_xs && if idx < old_env.puzzles().len() {
                replayed(old_env, env, idx as int, output@, r) && (r matches Ok(g) ==> g.r == g.r_word)
            } else {
                r == Err::<TOutput, TaskError>(TaskError::ItemNotFound) && env == old_env
            }),
    {
        match self {
            Task::Game24 { data, .. } => {
                if idx < data.len() {
                    Ok(TOutput::new())
                } else {
                    Err(TaskError::ItemNotFound)
                }
            },
            Task::Text { .. } => {
                let (mean, scores) = mean_score(judgements);
                let mut info = TOutput::new();
                info.r = mean;
                info.rs = scores;
                Ok(info)
            },
            Task::MiniCrossword { env, .. } => {
                if idx >= env.len() {
                    return Err(TaskError::ItemNotFound);
                }
                let res = replay(env, idx, output);
                match res {
                    Ok(info) => {
                        let mut graded = info;
                        graded.r = graded.r_word;
                        Ok(graded)
                    },
                    Err(e) => Err(e),
                }
            },
        }
    }
}

} // verus!
