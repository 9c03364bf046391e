//! The word-grid (5 x 5 crossword) state machine: the board, the ten answer
//! slots derived from it, each slot's fill status, and partial-credit rewards.

use vstd::prelude::*;
use crate::reward::{Ratio, TOutput};
use crate::text::{
    after_last_of, before_first, before_first_of, chars_of, copy_range, find, find_seq,
    last_line, lemma_find_from_matches,
    push_all, push_char, same_chars, single, to_upper, trim, trim_chars, upper,
};

verus! {

/// The character of a cell that holds no letter yet.
pub const BLANK: char = '_';

/// Lifecycle stage of one answer slot.
#[derive(Clone, Copy, Debug, PartialEq, Eq, Structural)]
pub enum FillStatus {
    Unfilled,
    Filled,
    Changed,
}

/// Why a grid operation was refused.
#[derive(Clone, Copy, Debug, PartialEq, Eq, Structural)]
pub enum GridError {
    /// The action has no `". "` between position and word.
    Format,
    /// The word does not have exactly five characters.
    WordLength,
    /// The position is not one of `h1`..`h5`, `v1`..`v5`.
    Position,
    /// There is no puzzle with the index asked for.
    NoPuzzle,
    /// A puzzle does not have ten clues and twenty-five one-character cells.
    PuzzleShape,
}

/// Whether cell `c` (row-major, 0..25) lies on slot `k` (rows 0..5, then columns 5..10).
pub open spec fn in_slot(k: int, c: int) -> bool {
    if k < 5 {
        c / 5 == k
    } else {
        c % 5 == k - 5
    }
}

/// The place of cell `c` within slot `k`.
pub open spec fn place_in_slot(k: int, c: int) -> int {
    if k < 5 {
        c % 5
    } else {
        c / 5
    }
}

/// The cell at place `t` of slot `k`.
pub open spec fn cell_of(k: int, t: int) -> int {
    if k < 5 {
        5 * k + t
    } else {
        5 * t + (k - 5)
    }
}

/// The five characters of slot `k` on `board`.
pub open spec fn slot(board: Seq<char>, k: int) -> Seq<char> {
    Seq::new(5, |t: int| board[cell_of(k, t)])
}

/// The board after `word` is written, upper-cased, into slot `k`.
pub open spec fn write_slot(board: Seq<char>, k: int, word: Seq<char>) -> Seq<char> {
    Seq::new(
        25,
        |c: int|
            if in_slot(k, c) {
                upper(word[place_in_slot(k, c)])
            } else {
                board[c]
            },
    )
}

/// The status of a slot after a write: `written` says whether the write was into
/// this slot, `differs` whether the slot's characters changed.
pub open spec fn next_status(s: FillStatus, written: bool, differs: bool) -> FillStatus {
    match s {
        FillStatus::Unfilled => if written {
            FillStatus::Filled
        } else {
            FillStatus::Unfilled
        },
        FillStatus::Filled => if differs {
            FillStatus::Changed
        } else {
            FillStatus::Filled
        },
        FillStatus::Changed => FillStatus::Changed,
    }
}

/// All ten statuses after writing slot `k`, which took the board from `before` to `after`.
pub open spec fn statuses_after(
    status: Seq<FillStatus>,
    k: int,
    before: Seq<char>,
    after: Seq<char>,
) -> Seq<FillStatus> {
    Seq::new(10, |j: int| next_status(status[j], j == k, slot(before, j) != slot(after, j)))
}

/// The number of the first `n` cells on which `a` and `b` agree.
pub open spec fn matching_cells(a: Seq<char>, b: Seq<char>, n: int) -> nat
    decreases n,
{
    if n <= 0 {
        0
    } else {
        matching_cells(a, b, n - 1) + if a[n - 1] == b[n - 1] { 1nat } else { 0nat }
    }
}

/// The number of the first `n` slots on which `a` and `b` agree.
pub open spec fn matching_slots(a: Seq<char>, b: Seq<char>, n: int) -> nat
    decreases n,
{
    if n <= 0 {
        0
    } else {
        matching_slots(a, b, n - 1) + if slot(a, n - 1) == slot(b, n - 1) { 1nat } else { 0nat }
    }
}

fn cell_index(k: usize, t: usize) -> (c: usize)
    requires
        k < 10,
        t < 5,
    ensures
        c == cell_of(k as int, t as int),
        c < 25,
        in_slot(k as int, c as int),
        place_in_slot(k as int, c as int) == t,
{
    if k < 5 {
        5 * k + t
    } else {
        5 * t + (k - 5)
    }
}

proof fn lemma_slot_cell_unique(k: int, t: int, c: int)
    requires
        0 <= k < 10,
        0 <= t < 5,
        0 <= c < 25,
        in_slot(k, c),
        place_in_slot(k, c) == t,
    ensures
        c == cell_of(k, t),
{
}

/// The characters of slot `k` on `board`.
fn slot_chars(board: &Vec<char>, k: usize) -> (r: Vec<char>)
    requires
        board@.len() == 25,
        k < 10,
    ensures
        r@ == slot(board@, k as int),
{
    let mut r: Vec<char> = Vec::new();
    let mut t: usize = 0;
    while t < 5
        invariant
            board@.len() == 25,
            k < 10,
            t <= 5,
            r@ =~= slot(board@, k as int).subrange(0, t as int),
        decreases 5 - t,
    {
        r.push(board[cell_index(k, t)]);
        t = t + 1;
    }
    r
}

/// `board` is `start` with the first `t` places of slot `k` taken from `word`.
spec fn written_upto(board: Seq<char>, start: Seq<char>, k: int, word: Seq<char>, t: int) -> bool {
    forall|c: int|
        0 <= c < 25 ==> #[trigger] board[c] == if in_slot(k, c) && place_in_slot(k, c) < t {
            upper(word[place_in_slot(k, c)])
        } else {
            start[c]
        }
}

/// Writes `word`, upper-cased, into slot `k` of `board`.
fn write_word(board: &mut Vec<char>, k: usize, word: &Vec<char>)
    requires
        old(board)@.len() == 25,
        k < 10,
        word@.len() == 5,
    ensures
        final(board)@ == write_slot(old(board)@, k as int, word@),
{
    let ghost start = board@;
    let mut t: usize = 0;
    while t < 5
        invariant
            k < 10,
            t <= 5,
            word@.len() == 5,
            board@.len() == 25,
            start.len() == 25,
            written_upto(board@, start, k as int, word@, t as int),
        decreases 5 - t,
    {
        let c = cell_index(k, t);
        let ch = to_upper(word[t]);
        let ghost prev = board@;
        board.set(c, ch);
        proof {
            assert forall|d: int| 0 <= d < 25 implies #[trigger] board@[d] == (if in_slot(k as int, d)
                && place_in_slot(k as int, d) < t + 1 {
                upper(word@[place_in_slot(k as int, d)])
            } else {
                start[d]
            }) by {
                if d != c {
                    assert(board@[d] == prev[d]);
                    if in_slot(k as int, d) && place_in_slot(k as int, d) == t {
                        lemma_slot_cell_unique(k as int, t as int, d);
                    }
                }
            }
        }
        t = t + 1;
    }
    assert(board@ =~= write_slot(start, k as int, word@));
}

/// The digit character for `d` in `1..=5`.
pub open spec fn digit(d: int) -> char {
    if d == 1 {
        '1'
    } else if d == 2 {
        '2'
    } else if d == 3 {
        '3'
    } else if d == 4 {
        '4'
    } else {
        '5'
    }
}

/// The tag of slot `k`: `h1`..`h5` for rows, `v1`..`v5` for columns.
pub open spec fn slot_label(k: int) -> Seq<char> {
    if k < 5 {
        seq!['h', digit(k + 1)]
    } else {
        seq!['v', digit(k - 4)]
    }
}

/// The first `n` rows of `board`, one per line.
pub open spec fn rows_text(board: Seq<char>, n: int) -> Seq<char>
    decreases n,
{
    if n <= 0 {
        Seq::empty()
    } else {
        rows_text(board, n - 1) + slot(board, n - 1).push('\n')
    }
}

/// The full-board view.
pub open spec fn board_text(board: Seq<char>) -> Seq<char> {
    "Current board:\n"@ + rows_text(board, 5)
}

/// Whether slot `k` is listed under `filter`: every slot is when there is no filter.
pub open spec fn shown(status: Seq<FillStatus>, filter: Option<FillStatus>, k: int) -> bool {
    match filter {
        Some(f) => status[k] == f,
        None => true,
    }
}

/// The line `h1. <clue>: <answer>` for slot `k`.
pub open spec fn answer_line(clues: Seq<Seq<char>>, board: Seq<char>, k: int) -> Seq<char> {
    (slot_label(k) + ". "@ + clues[k] + ": "@ + slot(board, k)).push('\n')
}

/// The line `h1. <clue>` for slot `k`.
pub open spec fn clue_line(clues: Seq<Seq<char>>, k: int) -> Seq<char> {
    (slot_label(k) + ". "@ + clues[k]).push('\n')
}

/// The answer lines of the first `n` slots that `filter` lets through.
pub open spec fn answers_text(
    clues: Seq<Seq<char>>,
    board: Seq<char>,
    status: Seq<FillStatus>,
    filter: Option<FillStatus>,
    n: int,
) -> Seq<char>
    decreases n,
{
    if n <= 0 {
        Seq::empty()
    } else {
        answers_text(clues, board, status, filter, n - 1) + if shown(status, filter, n - 1) {
            answer_line(clues, board, n - 1)
        } else {
            Seq::empty()
        }
    }
}

/// The clue lines of the first `n` slots that `filter` lets through.
pub open spec fn clues_text(
    clues: Seq<Seq<char>>,
    status: Seq<FillStatus>,
    filter: Option<FillStatus>,
    n: int,
) -> Seq<char>
    decreases n,
{
    if n <= 0 {
        Seq::empty()
    } else {
        clues_text(clues, status, filter, n - 1) + if shown(status, filter, n - 1) {
            clue_line(clues, n - 1)
        } else {
            Seq::empty()
        }
    }
}

/// The rendering of a grid: the board, then either all answers or the answers
/// grouped by status.
pub open spec fn render_text(
    clues: Seq<Seq<char>>,
    board: Seq<char>,
    status: Seq<FillStatus>,
    by_status: bool,
) -> Seq<char> {
    if by_status {
        board_text(board) + "\nUnfilled:\n"@ + answers_text(
            clues,
            board,
            status,
            Some(FillStatus::Unfilled),
            10,
        ) + "\nFilled:\n"@ + answers_text(clues, board, status, Some(FillStatus::Filled), 10)
            + "\nChanged:\n"@ + answers_text(clues, board, status, Some(FillStatus::Changed), 10)
    } else {
        board_text(board).push('\n') + answers_text(clues, board, status, None, 10)
    }
}

fn digit_char(d: usize) -> (c: char)
    requires
        1 <= d <= 5,
    ensures
        c == digit(d as int),
{
    if d == 1 {
        '1'
    } else if d == 2 {
        '2'
    } else if d == 3 {
        '3'
    } else if d == 4 {
        '4'
    } else {
        '5'
    }
}

fn push_label(s: &mut String, k: usize)
    requires
        k < 10,
    ensures
        final(s)@ == old(s)@ + slot_label(k as int),
{
    if k < 5 {
        push_char(s, 'h');
        push_char(s, digit_char(k + 1));
    } else {
        push_char(s, 'v');
        push_char(s, digit_char(k - 4));
    }
    assert(final(s)@ =~= old(s)@ + slot_label(k as int));
}

/// The views of a sequence of strings.
pub open spec fn string_views(v: Seq<String>) -> Seq<Seq<char>> {
    v.map_values(|x: String| x@)
}

fn copy_strings(v: &Vec<String>) -> (r: Vec<String>)
    ensures
        string_views(r@) == string_views(v@),
{
    let mut r: Vec<String> = Vec::new();
    let mut i: usize = 0;
    while i < v.len()
        invariant
            i <= v@.len(),
            r@.len() == i,
            forall|j: int| 0 <= j < i ==> (#[trigger] r@[j])@ == v@[j]@,
        decreases v.len() - i,
    {
        let c = v[i].clone();
        assert(c@ == v@[i as int]@);
        r.push(c);
        i = i + 1;
        assert(string_views(r@) =~= string_views(v@.subrange(0, i as int)));
    }
    assert(string_views(r@) =~= string_views(v@));
    r
}

/// One puzzle: ten clues (rows `h1`..`h5`, then columns `v1`..`v5`) and the
/// solved board, row by row.
pub struct Puzzle {
    clues: Vec<String>,
    board_gt: Vec<char>,
}

impl Puzzle {
    #[verifier::type_invariant]
    spec fn shaped(&self) -> bool {
        self.clues@.len() == 10 && self.board_gt@.len() == 25
    }

    /// The ten clues.
    pub closed spec fn clue_views(&self) -> Seq<Seq<char>> {
        string_views(self.clues@)
    }

    /// The solved board.
    pub closed spec fn solution(&self) -> Seq<char> {
        self.board_gt@
    }

    /// A puzzle from its ten clues and the twenty-five cells of its solution, each
    /// cell a one-character string; refused when the shape is wrong.
    pub fn new(clues: Vec<String>, cells: Vec<String>) -> (r: Result<Puzzle, GridError>)
        ensures
            r is Ok <==> clues@.len() == 10 && cells@.len() == 25 && forall|i: int|
                0 <= i < 25 ==> (#[trigger] cells@[i])@.len() == 1,
            r matches Ok(p) ==> p.clue_views() == string_views(clues@) && p.solution() == Seq::new(
                25,
                |i: int| cells@[i]@[0],
            ),
            r matches Err(e) ==> e == GridError::PuzzleShape,
    {
        if clues.len() != 10 || cells.len() != 25 {
            return Err(GridError::PuzzleShape);
        }
        let mut board_gt: Vec<char> = Vec::new();
        let mut i: usize = 0;
        while i < 25
            invariant
                cells@.len() == 25,
                i <= 25,
                board_gt@.len() == i,
                forall|j: int| 0 <= j < i ==> (#[trigger] cells@[j])@.len() == 1,
                forall|j: int| 0 <= j < i ==> board_gt@[j] == cells@[j]@[0],
            decreases 25 - i,
        {
            let cell = chars_of(cells[i].as_str());
            if cell.len() != 1 {
                return Err(GridError::PuzzleShape);
            }
            board_gt.push(cell[0]);
            i = i + 1;
        }
        let p = Puzzle { clues, board_gt };
        assert(p.solution() =~= Seq::new(25, |i: int| cells@[i]@[0]));
        Ok(p)
    }
}

/// The value of the tag digits `1`..`5`; zero for any other character.
pub open spec fn tag_digit(c: char) -> int {
    if c == '1' {
        1
    } else if c == '2' {
        2
    } else if c == '3' {
        3
    } else if c == '4' {
        4
    } else if c == '5' {
        5
    } else {
        0
    }
}

/// The slot that a position tag names: `h1`..`h5` are slots 0..5, `v1`..`v5` slots 5..10.
pub open spec fn slot_of_tag(pos: Seq<char>) -> Option<int> {
    if pos.len() == 2 && tag_digit(pos[1]) >= 1 {
        if pos[0] == 'h' {
            Some(tag_digit(pos[1]) - 1)
        } else if pos[0] == 'v' {
            Some(tag_digit(pos[1]) + 4)
        } else {
            None
        }
    } else {
        None
    }
}

/// What an action such as `"h1. apple"` asks for: the slot and the word. Only the
/// last line of the trimmed action counts; the word runs up to the next `". "`.
pub open spec fn parse_action(a: Seq<char>) -> Result<(int, Seq<char>), GridError> {
    let line = last_line(trim(a));
    match find(line, ". "@) {
        None => Err(GridError::Format),
        Some(i) => {
            let word = before_first(line.subrange(i + 2, line.len() as int), ". "@);
            if word.len() != 5 {
                Err(GridError::WordLength)
            } else {
                match slot_of_tag(line.subrange(0, i)) {
                    Some(k) => Ok((k, word)),
                    None => Err(GridError::Position),
                }
            }
        },
    }
}

fn slot_of_tag_exec(pos: &Vec<char>) -> (r: Option<usize>)
    ensures
        r matches Some(k) ==> slot_of_tag(pos@) == Some(k as int) && k < 10,
        r is None ==> slot_of_tag(pos@) is None,
{
    if pos.len() != 2 {
        return None;
    }
    let c = pos[1];
    let d: usize = if c == '1' {
        1
    } else if c == '2' {
        2
    } else if c == '3' {
        3
    } else if c == '4' {
        4
    } else if c == '5' {
        5
    } else {
        return None;
    };
    if pos[0] == 'h' {
        Some(d - 1)
    } else if pos[0] == 'v' {
        Some(d + 4)
    } else {
        None
    }
}

/// The state of the puzzle in play: its clues and solution, the board, the
/// number of writes so far, and each slot's status.
pub struct MiniCrosswordEnvExt {
    data: Vec<String>,
    board_gt: Vec<char>,
    board: Vec<char>,
    steps: u64,
    status: Vec<FillStatus>,
}

/// What one write into the grid reports.
pub struct Out {
    /// The board and the answers grouped by status.
    pub render: String,
    /// Whether the board equals the solution.
    pub r_all: bool,
    /// Whether the game is over: solved, or twenty writes made.
    pub all: bool,
    /// The partial-credit rewards.
    pub letter: TOutput,
}

/// The word-grid environment over a list of puzzles.
pub struct MiniCrosswordEnv {
    file: Vec<Puzzle>,
    n: usize,
    idx: Option<usize>,
    ext: MiniCrosswordEnvExt,
}

impl MiniCrosswordEnv {
    pub closed spec fn wf(&self) -> bool {
        &&& self.n == self.file@.len()
        &&& self.ext.data@.len() == 10
        &&& self.ext.board_gt@.len() == 25
        &&& self.ext.board@.len() == 25
        &&& self.ext.status@.len() == 10
        &&& self.idx matches Some(i) ==> i < self.n
    }

    /// The puzzles.
    pub closed spec fn puzzles(&self) -> Seq<Puzzle> {
        self.file@
    }

    /// The index of the puzzle in play, once one was chosen.
    pub closed spec fn current(&self) -> Option<usize> {
        self.idx
    }

    /// The clues of the puzzle in play.
    pub closed spec fn clues(&self) -> Seq<Seq<char>> {
        string_views(self.ext.data@)
    }

    /// The solution of the puzzle in play.
    pub closed spec fn solution(&self) -> Seq<char> {
        self.ext.board_gt@
    }

    /// The board, row by row.
    pub closed spec fn board(&self) -> Seq<char> {
        self.ext.board@
    }

    /// The status of each slot.
    pub closed spec fn status(&self) -> Seq<FillStatus> {
        self.ext.status@
    }

    /// The number of writes since the last reset.
    pub closed spec fn steps(&self) -> u64 {
        self.ext.steps
    }

    /// An environment over `puzzles`; no puzzle is in play and the board is blank.
    pub fn new(puzzles: Vec<Puzzle>) -> (r: MiniCrosswordEnv)
        ensures
            r.wf(),
            r.puzzles() == puzzles@,
            r.current() is None,
            r.board() == Seq::new(25, |i: int| BLANK),
    {
        let n = puzzles.len();
        let mut data: Vec<String> = Vec::new();
        let mut i: usize = 0;
        while i < 10
            invariant
                i <= 10,
                data@.len() == i,
            decreases 10 - i,
        {
            data.push(String::new());
            i = i + 1;
        }
        let ext = MiniCrosswordEnvExt {
            data,
            board_gt: vec![BLANK; 25],
            board: vec![BLANK; 25],
            steps: 0,
            status: vec![FillStatus::Unfilled; 10],
        };
        let r = MiniCrosswordEnv { file: puzzles, n, idx: None, ext };
        assert(r.board() =~= Seq::new(25, |i: int| BLANK));
        r
    }

    /// Makes puzzle `idx` the one in play, with a blank board and every slot
    /// unfilled, and returns the board with all its answers.
    pub fn reset(&mut self, idx: usize) -> (r: Result<String, GridError>)
        requires
            old(self).wf(),
        ensures
            final(self).wf(),
            final(self).puzzles() == old(self).puzzles(),
            idx >= old(self).puzzles().len() ==> r == Err::<String, GridError>(GridError::NoPuzzle)
                && *final(self) == *old(self),
            idx < old(self).puzzles().len() ==> {
                &&& final(self).current() == Some(idx)
                &&& final(self).clues() == old(self).puzzles()[idx as int].clue_views()
                &&& final(self).solution() == old(self).puzzles()[idx as int].solution()
                &&& final(self).board() == Seq::new(25, |i: int| BLANK)
                &&& final(self).status() == Seq::new(10, |i: int| FillStatus::Unfilled)
                &&& final(self).steps() == 0
                &&& r matches Ok(s) && s@ == render_text(
                    final(self).clues(),
                    final(self).board(),
                    final(self).status(),
                    false,
                )
            },
    {
        if idx >= self.n {
            return Err(GridError::NoPuzzle);
        }
        let p = &self.file[idx];
        proof {
            use_type_invariant(p);
        }
        let data = copy_strings(&p.clues);
        let board_gt = copy_range(p.board_gt.as_slice(), 0, 25);
        assert(string_views(data@).len() == data@.len());
        assert(string_views(p.clues@).len() == p.clues@.len());
        self.idx = Some(idx);
        self.ext = MiniCrosswordEnvExt {
            data,
            board_gt,
            board: vec![BLANK; 25],
            steps: 0,
            status: vec![FillStatus::Unfilled; 10],
        };
        assert(self.board() =~= Seq::new(25, |i: int| BLANK));
        assert(self.status() =~= Seq::new(10, |i: int| FillStatus::Unfilled));
        assert(self.solution() =~= self.file@[idx as int].solution());
        Ok(self.render(None))
    }

    /// The ten slots of `board`: the rows, then the columns.
    pub fn get_ans(&self, board: &Vec<char>) -> (r: Vec<Vec<char>>)
        requires
            board@.len() == 25,
        ensures
            r@.len() == 10,
            forall|k: int| 0 <= k < 10 ==> (#[trigger] r@[k])@ == slot(board@, k),
    {
        let mut r: Vec<Vec<char>> = Vec::new();
        let mut k: usize = 0;
        while k < 10
            invariant
                board@.len() == 25,
                k <= 10,
                r@.len() == k,
                forall|j: int| 0 <= j < k ==> (#[trigger] r@[j])@ == slot(board@, j),
            decreases 10 - k,
        {
            r.push(slot_chars(board, k));
            k = k + 1;
        }
        r
    }

    /// Whether `new` is `old` after `word` went into slot `k`: the board, the
    /// statuses and the step counter move on, the rest stays.
    pub open spec fn written(old: Self, new: Self, k: int, word: Seq<char>) -> bool {
        &&& new.wf()
        &&& new.puzzles() == old.puzzles()
        &&& new.current() == old.current()
        &&& new.clues() == old.clues()
        &&& new.solution() == old.solution()
        &&& new.board() == write_slot(old.board(), k, word)
        &&& new.status() == statuses_after(old.status(), k, old.board(), new.board())
        &&& new.steps() == if old.steps() < u64::MAX {
            (old.steps() + 1) as u64
        } else {
            old.steps()
        }
    }

    /// Whether `out` reports on the state `s` reached by a write.
    pub open spec fn reports(s: Self, out: Out) -> bool {
        let solved = s.board() == s.solution();
        &&& out.letter.r_letter == (Ratio {
            num: matching_cells(s.board(), s.solution(), 25) as u64,
            den: 25,
        })
        &&& out.letter.r_word == (Ratio {
            num: matching_slots(s.board(), s.solution(), 10) as u64,
            den: 10,
        })
        &&& out.letter.r_game == solved
        &&& out.letter.r == (Ratio { num: 0, den: 1 })
        &&& out.letter.rs@.len() == 0
        &&& out.r_all == solved
        &&& out.all == (solved || s.steps() >= 20)
        &&& out.render@ == render_text(s.clues(), s.board(), s.status(), true)
    }

    /// Writes `word`, upper-cased, into slot `k` (rows 0..5, then columns) and
    /// reports the rewards.
    pub fn fill(&mut self, k: usize, word: &Vec<char>) -> (out: Out)
        requires
            old(self).wf(),
            k < 10,
            word@.len() == 5,
        ensures
            Self::written(*old(self), *final(self), k as int, word@),
            Self::reports(*final(self), out),
    {
        let ghost before = self.board();
        let old_ans = self.get_ans(&self.ext.board);
        write_word(&mut self.ext.board, k, word);
        let new_ans = self.get_ans(&self.ext.board);
        let ghost old_status = self.status();
        let mut new_status: Vec<FillStatus> = Vec::new();
        let mut j: usize = 0;
        while j < 10
            invariant
                self.wf(),
                self.ext.status@ == old_status,
                old_status.len() == 10,
                j <= 10,
                k < 10,
                new_status@.len() == j,
                old_ans@.len() == 10,
                new_ans@.len() == 10,
                forall|i: int| 0 <= i < 10 ==> (#[trigger] old_ans@[i])@ == slot(before, i),
                forall|i: int| 0 <= i < 10 ==> (#[trigger] new_ans@[i])@ == slot(self.ext.board@, i),
                forall|i: int|
                    0 <= i < j ==> #[trigger] new_status@[i] == next_status(
                        old_status[i],
                        i == k,
                        slot(before, i) != slot(self.ext.board@, i),
                    ),
            decreases 10 - j,
        {
            let differs = !same_chars(old_ans[j].as_slice(), new_ans[j].as_slice());
            let s = self.ext.status[j];
            let next = match s {
                FillStatus::Unfilled => if j == k {
                    FillStatus::Filled
                } else {
                    FillStatus::Unfilled
                },
                FillStatus::Filled => if differs {
                    FillStatus::Changed
                } else {
                    FillStatus::Filled
                },
                FillStatus::Changed => FillStatus::Changed,
            };
            new_status.push(next);
            j = j + 1;
        }
        self.ext.status = new_status;
        assert(self.status() =~= statuses_after(old_status, k as int, before, self.board()));
        if self.ext.steps < u64::MAX {
            self.ext.steps = self.ext.steps + 1;
        }
        let mut cells: u64 = 0;
        let mut c: usize = 0;
        while c < 25
            invariant
                self.wf(),
                c <= 25,
                cells == matching_cells(self.board(), self.solution(), c as int),
                cells <= c,
            decreases 25 - c,
        {
            if self.ext.board[c] == self.ext.board_gt[c] {
                cells = cells + 1;
            }
            c = c + 1;
        }
        let gt_ans = self.get_ans(&self.ext.board_gt);
        let mut words: u64 = 0;
        let mut m: usize = 0;
        while m < 10
            invariant
                self.wf(),
                m <= 10,
                new_ans@.len() == 10,
                gt_ans@.len() == 10,
                forall|i: int| 0 <= i < 10 ==> (#[trigger] new_ans@[i])@ == slot(self.board(), i),
                forall|i: int| 0 <= i < 10 ==> (#[trigger] gt_ans@[i])@ == slot(self.solution(), i),
                words == matching_slots(self.board(), self.solution(), m as int),
                words <= m,
            decreases 10 - m,
        {
            if same_chars(new_ans[m].as_slice(), gt_ans[m].as_slice()) {
                words = words + 1;
            }
            m = m + 1;
        }
        let solved = same_chars(self.ext.board.as_slice(), self.ext.board_gt.as_slice());
        let render = self.render(Some(true));
        let letter = TOutput {
            r_letter: Ratio { num: cells, den: 25 },
            r_word: Ratio { num: words, den: 10 },
            r_game: solved,
            r: Ratio::zero(),
            rs: Vec::new(),
        };
        Out { render, r_all: solved, all: solved || self.ext.steps >= 20, letter }
    }

    /// Applies an action of the form `"h1. apple"`: writes the five-letter word,
    /// upper-cased, into row 1 (`h1`..`h5`) or column (`v1`..`v5`), updates the
    /// statuses, and reports the board and the rewards. A slot's first write makes
    /// it filled; a filled slot whose letters change becomes changed, and stays so.
    pub fn step(&mut self, action: &str) -> (r: Result<Out, GridError>)
        requires
            old(self).wf(),
        ensures
            final(self).wf(),
            match parse_action(action@) {
                Err(e) => r == Err::<Out, GridError>(e) && *final(self) == *old(self),
                Ok((k, word)) => r matches Ok(out) && Self::written(
                    *old(self),
                    *final(self),
                    k,
                    word,
                ) && Self::reports(*final(self), out),
            },
    {
        let chars = chars_of(action);
        let trimmed = trim_chars(chars.as_slice());
        let nl = single('\n');
        let line = after_last_of(trimmed.as_slice(), nl.as_slice());
        let mut sep: Vec<char> = Vec::new();
        sep.push('.');
        sep.push(' ');
        proof {
            reveal_strlit(". ");
            assert(sep@ =~= ". "@);
        }
        let i = match find_seq(line.as_slice(), sep.as_slice()) {
            None => {
                return Err(GridError::Format);
            },
            Some(i) => i,
        };
        let n = line.len();
        proof {
            lemma_find_from_matches(line@, sep@, 0);
            assert(i + 2 <= n);
        }
        let pos = copy_range(line.as_slice(), 0, i);
        let rest = copy_range(line.as_slice(), i + 2, n);
        let word = before_first_of(rest.as_slice(), sep.as_slice());
        if word.len() != 5 {
            return Err(GridError::WordLength);
        }
        let k = match slot_of_tag_exec(&pos) {
            None => {
                return Err(GridError::Position);
            },
            Some(k) => k,
        };
        Ok(self.fill(k, &word))
    }

    /// The board, row by row.
    pub fn board_cells(&self) -> (r: Vec<char>)
        requires
            self.wf(),
        ensures
            r@ == self.board(),
    {
        copy_range(self.ext.board.as_slice(), 0, 25)
    }

    /// The status of each slot: rows `h1`..`h5`, then columns `v1`..`v5`.
    pub fn statuses(&self) -> (r: Vec<FillStatus>)
        requires
            self.wf(),
        ensures
            r@ == self.status(),
    {
        let mut r: Vec<FillStatus> = Vec::new();
        let mut k: usize = 0;
        while k < 10
            invariant
                self.wf(),
                k <= 10,
                r@ == self.status().subrange(0, k as int),
            decreases 10 - k,
        {
            r.push(self.ext.status[k]);
            k = k + 1;
        }
        r
    }

    /// The number of puzzles.
    pub fn len(&self) -> (r: usize)
        requires
            self.wf(),
        ensures
            r == self.puzzles().len(),
    {
        self.n
    }

    /// The board view: a heading, then the five rows.
    pub fn render_board(&self) -> (r: String)
        requires
            self.wf(),
        ensures
            r@ == board_text(self.board()),
    {
        let mut r = String::from_str("Current board:\n");
        let mut i: usize = 0;
        while i < 5
            invariant
                self.wf(),
                i <= 5,
                r@ == "Current board:\n"@ + rows_text(self.board(), i as int),
            decreases 5 - i,
        {
            let row = slot_chars(&self.ext.board, i);
            push_all(&mut r, row.as_slice());
            push_char(&mut r, '\n');
            i = i + 1;
            assert(r@ =~= "Current board:\n"@ + rows_text(self.board(), i as int));
        }
        r
    }

    /// The answer lines of the slots with status `status`, or of all slots.
    pub fn render_ans(&self, status: Option<FillStatus>) -> (r: String)
        requires
            self.wf(),
        ensures
            r@ == answers_text(self.clues(), self.board(), self.status(), status, 10),
    {
        let mut r = String::new();
        let mut k: usize = 0;
        while k < 10
            invariant
                self.wf(),
                k <= 10,
                r@ == answers_text(self.clues(), self.board(), self.status(), status, k as int),
            decreases 10 - k,
        {
            let show = match status {
                Some(f) => self.ext.status[k] == f,
                None => true,
            };
            if show {
                let ghost before = r@;
                push_label(&mut r, k);
                r.append(". ");
                r.append(self.ext.data[k].as_str());
                r.append(": ");
                let ans = slot_chars(&self.ext.board, k);
                push_all(&mut r, ans.as_slice());
                push_char(&mut r, '\n');
                assert(r@ =~= before + answer_line(self.clues(), self.board(), k as int));
            }
            k = k + 1;
        }
        r
    }

    /// The clue lines of the slots with status `status`, or of all slots.
    pub fn render_clues(&self, status: Option<FillStatus>) -> (r: String)
        requires
            self.wf(),
        ensures
            r@ == clues_text(self.clues(), self.status(), status, 10),
    {
        let mut r = String::new();
        let mut k: usize = 0;
        while k < 10
            invariant
                self.wf(),
                k <= 10,
                r@ == clues_text(self.clues(), self.status(), status, k as int),
            decreases 10 - k,
        {
            let show = match status {
                Some(f) => self.ext.status[k] == f,
                None => true,
            };
            if show {
                let ghost before = r@;
                push_label(&mut r, k);
                r.append(". ");
                r.append(self.ext.data[k].as_str());
                push_char(&mut r, '\n');
                assert(r@ =~= before + clue_line(self.clues(), k as int));
            }
            k = k + 1;
        }
        r
    }

    /// The board followed by all answers, or by the answers grouped by status.
    pub fn render(&self, status: Option<bool>) -> (r: String)
        requires
            self.wf(),
        ensures
            r@ == render_text(
                self.clues(),
                self.board(),
                self.status(),
                status == Some(true),
            ),
    {
        let mut s = self.render_board();
        match status {
            Some(true) => {
                s.append("\nUnfilled:\n");
                let a = self.render_ans(Some(FillStatus::Unfilled));
                s.append(a.as_str());
                s.append("\nFilled:\n");
                let b = self.render_ans(Some(FillStatus::Filled));
                s.append(b.as_str());
                s.append("\nChanged:\n");
                let c = self.render_ans(Some(FillStatus::Changed));
                s.append(c.as_str());
            },
            _ => {
                push_char(&mut s, '\n');
                let a = self.render_ans(None);
                s.append(a.as_str());
            },
        }
        s
    }
}

/// The board after rows `0..n` are written with `rows[0]`..`rows[n - 1]`, in order.
pub open spec fn replay_rows(start: Seq<char>, rows: Seq<Seq<char>>, n: int) -> Seq<char>
    decreases n,
{
    if n <= 0 {
        start
    } else {
        write_slot(replay_rows(start, rows, n - 1), n - 1, rows[n - 1])
    }
}

/// Reading the five rows off a board whose letters are upper case, and writing
/// them back into any board in order, gives back the board exactly.
pub proof fn lemma_rows_round_trip(start: Seq<char>, board: Seq<char>)
    requires
        start.len() == 25,
        board.len() == 25,
        forall|c: int| 0 <= c < 25 ==> upper(#[trigger] board[c]) == board[c],
    ensures
        replay_rows(start, Seq::new(5, |i: int| slot(board, i)), 5) == board,
{
    let rows = Seq::new(5, |i: int| slot(board, i));
    assert forall|n: int, c: int| 0 <= n <= 5 && 0 <= c < 25 implies #[trigger] replay_rows(
        start,
        rows,
        n,
    )[c] == if c / 5 < n {
        board[c]
    } else {
        start[c]
    } by {
        lemma_replay_prefix(start, board, n, c);
    }
    assert(replay_rows(start, rows, 5) =~= board);
}

proof fn lemma_replay_prefix(start: Seq<char>, board: Seq<char>, n: int, c: int)
    requires
        start.len() == 25,
        board.len() == 25,
        forall|c: int| 0 <= c < 25 ==> upper(#[trigger] board[c]) == board[c],
        0 <= n <= 5,
        0 <= c < 25,
    ensures
        replay_rows(start, Seq::new(5, |i: int| slot(board, i)), n).len() == 25,
        replay_rows(start, Seq::new(5, |i: int| slot(board, i)), n)[c] == if c / 5 < n {
            board[c]
        } else {
            start[c]
        },
    decreases n,
{
    if n > 0 {
        lemma_replay_prefix(start, board, n - 1, c);
        if c / 5 == n - 1 {
            assert(cell_of(n - 1, c % 5) == c);
        }
    }
}

/// A slot's status moves only forward: writing an unfilled slot fills it; a filled
/// slot whose letters a write changes, directly or across, becomes changed; and a
/// changed slot stays changed whatever is written.
pub proof fn lemma_status_transitions(
    status: Seq<FillStatus>,
    k: int,
    before: Seq<char>,
    after: Seq<char>,
    j: int,
)
    requires
        status.len() == 10,
        0 <= k < 10,
        0 <= j < 10,
    ensures
        j == k && status[j] == FillStatus::Unfilled ==> statuses_after(status, k, before, after)[j]
            == FillStatus::Filled,
        status[j] == FillStatus::Filled && slot(before, j) != slot(after, j) ==> statuses_after(
            status,
            k,
            before,
            after,
        )[j] == FillStatus::Changed,
        status[j] == FillStatus::Changed ==> statuses_after(status, k, before, after)[j]
            == FillStatus::Changed,
        statuses_after(status, k, before, after)[j] == FillStatus::Unfilled ==> status[j]
            == FillStatus::Unfilled,
{
}

} // verus!
