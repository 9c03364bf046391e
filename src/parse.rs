//! Reading model output and building the small pieces of prompt text: the
//! remaining numbers of an arithmetic step, judgements, votes, scores, numerals.

use vstd::prelude::*;
use crate::text::{
    after_last, after_last_of, before_first, before_first_of, copy_range, find,
    find_seq, last_line, lemma_find_from_matches, occurs_at, single, trim, trim_chars,
};

verus! {

/// `s` with every occurrence of `p` taken out, scanning left to right, as
/// `str::replace(p, "")` gives it.
pub open spec fn remove_all(s: Seq<char>, p: Seq<char>) -> Seq<char>
    decreases s.len(),
{
    if p.len() == 0 || s.len() < p.len() {
        s
    } else if s.subrange(0, p.len() as int) == p {
        remove_all(s.subrange(p.len() as int, s.len() as int), p)
    } else {
        seq![s[0]] + remove_all(s.subrange(1, s.len() as int), p)
    }
}

pub fn remove_all_of(s: &[char], p: &[char]) -> (r: Vec<char>)
    ensures
        r@ == remove_all(s@, p@),
{
    let n = s.len();
    let mut r: Vec<char> = Vec::new();
    let mut i: usize = 0;
    if p.len() == 0 {
        return copy_range(s, 0, n);
    }
    assert(s@.subrange(0, n as int) =~= s@);
    assert(r@ + remove_all(s@, p@) =~= remove_all(s@, p@));
    while i < n
        invariant
            n == s@.len(),
            p@.len() > 0,
            i <= n,
            r@ + remove_all(s@.subrange(i as int, n as int), p@) == remove_all(s@, p@),
        decreases n - i,
    {
        let ghost rest = s@.subrange(i as int, n as int);
        if occurs_at(s, p, i) {
            assert(rest.subrange(0, p@.len() as int) =~= s@.subrange(i as int, i + p@.len()));
            assert(rest.subrange(p@.len() as int, rest.len() as int) =~= s@.subrange(
                i + p@.len(),
                n as int,
            ));
            i = i + p.len();
        } else {
            if n - i >= p.len() {
                assert(rest.subrange(0, p@.len() as int) =~= s@.subrange(i as int, i + p@.len()));
                assert(rest.subrange(1, rest.len() as int) =~= s@.subrange(i + 1, n as int));
                let ghost before = r@;
                r.push(s[i]);
                assert(r@ + remove_all(s@.subrange(i + 1, n as int), p@) =~= before + (seq![s@[i as int]]
                    + remove_all(s@.subrange(i + 1, n as int), p@)));
                i = i + 1;
            } else {
                assert(remove_all(rest, p@) == rest);
                let tail = copy_range(s, i, n);
                let mut out = r;
                let mut k: usize = 0;
                while k < tail.len()
                    invariant
                        k <= tail@.len(),
                        out@ == r@ + tail@.subrange(0, k as int),
                    decreases tail.len() - k,
                {
                    out.push(tail[k]);
                    k = k + 1;
                    assert(out@ =~= r@ + tail@.subrange(0, k as int));
                }
                assert(tail@.subrange(0, tail@.len() as int) =~= tail@);
                return out;
            }
        }
    }
    assert(s@.subrange(n as int, n as int) =~= Seq::<char>::empty());
    assert(r@ + Seq::<char>::empty() =~= r@);
    r
}

/// The numbers still to be used after an arithmetic step: on the last line of the
/// trimmed solution, what follows the last `"left: "` and precedes the next `')'`.
pub open spec fn current_numbers(y: Seq<char>) -> Seq<char> {
    before_first(after_last(last_line(trim(y)), "left: "@), ")"@)
}

pub fn get_current_number(y: &str) -> (r: String)
    ensures
        r@ == current_numbers(y@),
{
    let chars = crate::text::chars_of(y);
    let t = trim_chars(chars.as_slice());
    let nl = single('\n');
    let line = after_last_of(t.as_slice(), nl.as_slice());
    let marker = crate::text::chars_of("left: ");
    let after = after_last_of(line.as_slice(), marker.as_slice());
    let close = crate::text::chars_of(")");
    let nums = before_first_of(after.as_slice(), close.as_slice());
    crate::text::string_of(nums.as_slice())
}

/// The last line of a model output, as `str::lines().last()` gives it: a final
/// line break ends the last line rather than starting a new one, and a trailing
/// carriage return is dropped. Empty for an empty output.
pub open spec fn final_line(o: Seq<char>) -> Seq<char> {
    let t = if o.len() > 0 && o.last() == '\n' {
        o.drop_last()
    } else {
        o
    };
    let l = last_line(t);
    if l.len() > 0 && l.last() == '\r' {
        l.drop_last()
    } else {
        l
    }
}

pub fn final_line_of(o: &[char]) -> (r: Vec<char>)
    ensures
        r@ == final_line(o@),
{
    let n = o.len();
    let t = if n > 0 && o[n - 1] == '\n' {
        copy_range(o, 0, n - 1)
    } else {
        copy_range(o, 0, n)
    };
    assert(o@.subrange(0, n as int) =~= o@);
    let nl = single('\n');
    let l = after_last_of(t.as_slice(), nl.as_slice());
    let m = l.len();
    if m > 0 && l[m - 1] == '\r' {
        copy_range(l.as_slice(), 0, m - 1)
    } else {
        assert(l@.subrange(0, m as int) =~= l@);
        copy_range(l.as_slice(), 0, m)
    }
}

/// The weight of a judgement, in thousandths: `sure` 20, `likely` 1,
/// `impossible` 0.001, anything else nothing.
pub open spec fn judgement_weight(line: Seq<char>) -> nat {
    if line == "sure"@ {
        20000
    } else if line == "likely"@ {
        1000
    } else if line == "impossible"@ {
        1
    } else {
        0
    }
}

/// The value of a set of judgements, in thousandths: the weights of their last
/// lines summed.
pub open spec fn judged_value(outputs: Seq<Seq<char>>) -> nat
    decreases outputs.len(),
{
    if outputs.len() == 0 {
        0
    } else {
        judged_value(outputs.drop_last()) + judgement_weight(final_line(outputs.last()))
    }
}

/// The views of a sequence of strings.
pub open spec fn texts(v: Seq<String>) -> Seq<Seq<char>> {
    v.map_values(|x: String| x@)
}

pub fn judgement_weight_of(line: &Vec<char>) -> (r: u64)
    ensures
        r == judgement_weight(line@),
{
    let sure = crate::text::chars_of("sure");
    let likely = crate::text::chars_of("likely");
    let impossible = crate::text::chars_of("impossible");
    if crate::text::same_chars(line.as_slice(), sure.as_slice()) {
        20000
    } else if crate::text::same_chars(line.as_slice(), likely.as_slice()) {
        1000
    } else if crate::text::same_chars(line.as_slice(), impossible.as_slice()) {
        1
    } else {
        0
    }
}

/// The value, in thousandths, of the judgements `outputs`: each output counts by
/// its last line, `sure` 20, `likely` 1, `impossible` 0.001.
pub fn judge_value(outputs: &Vec<String>) -> (r: u64)
    requires
        outputs@.len() <= u32::MAX,
    ensures
        r == judged_value(texts(outputs@)),
{
    let mut r: u64 = 0;
    let mut i: usize = 0;
    while i < outputs.len()
        invariant
            outputs@.len() <= u32::MAX,
            i <= outputs@.len(),
            r == judged_value(texts(outputs@.subrange(0, i as int))),
            r <= 20000 * i,
        decreases outputs.len() - i,
    {
        let o = crate::text::chars_of(outputs[i].as_str());
        let line = final_line_of(o.as_slice());
        let w = judgement_weight_of(&line);
        assert(texts(outputs@.subrange(0, i + 1)).drop_last() =~= texts(
            outputs@.subrange(0, i as int),
        ));
        r = r + w;
        i = i + 1;
    }
    assert(outputs@.subrange(0, outputs@.len() as int) =~= outputs@);
    r
}

/// Whether `c` is one of the digits `0`..`9`.
pub open spec fn is_digit(c: char) -> bool {
    '0' <= c <= '9'
}

/// The value of a digit.
pub open spec fn digit_value(c: char) -> nat {
    ((c as u32) - ('0' as u32)) as nat
}

/// The number that the digits `d` write, in decimal.
pub open spec fn digits_value(d: Seq<char>) -> nat
    decreases d.len(),
{
    if d.len() == 0 {
        0
    } else {
        digits_value(d.drop_last()) * 10 + digit_value(d.last())
    }
}

/// Where the run of digits starting at `j` ends.
pub open spec fn digits_end(s: Seq<char>, j: int) -> int
    decreases s.len() - j,
{
    if 0 <= j < s.len() && is_digit(s[j]) {
        digits_end(s, j + 1)
    } else {
        j
    }
}

/// The first digit at or after `j` on the same line.
pub open spec fn number_start(s: Seq<char>, j: int) -> Option<int>
    decreases s.len() - j,
{
    if j < 0 || j >= s.len() || s[j] == '\n' {
        None
    } else if is_digit(s[j]) {
        Some(j)
    } else {
        number_start(s, j + 1)
    }
}

/// The choice a vote names: the first number after the first `"best choice is"`,
/// on the same line.
pub open spec fn vote_choice(o: Seq<char>) -> Option<nat> {
    match find(o, "best choice is"@) {
        None => None,
        Some(i) => match number_start(o, i + 14) {
            None => None,
            Some(a) => Some(digits_value(o.subrange(a, digits_end(o, a)))),
        },
    }
}

/// `v`, but no more than `cap`.
pub open spec fn capped(v: nat, cap: nat) -> nat {
    if v < cap {
        v
    } else {
        cap
    }
}

proof fn lemma_digits_end_bounds(s: Seq<char>, j: int)
    requires
        0 <= j <= s.len(),
    ensures
        j <= digits_end(s, j) <= s.len(),
        forall|t: int| j <= t < digits_end(s, j) ==> is_digit(#[trigger] s[t]),
    decreases s.len() - j,
{
    if j < s.len() && is_digit(s[j]) {
        lemma_digits_end_bounds(s, j + 1);
    }
}

/// The number written by the digits of `s` from `a` up to the end of the run,
/// but no more than `cap`; also where the run ends.
fn read_number(s: &[char], a: usize, cap: u128) -> (r: (u128, usize))
    requires
        a <= s@.len(),
    ensures
        r.1 == digits_end(s@, a as int),
        r.0 == capped(digits_value(s@.subrange(a as int, r.1 as int)), cap as nat),
{
    let mut v: u128 = 0;
    let mut j: usize = a;
    proof {
        lemma_digits_end_bounds(s@, a as int);
    }
    while j < s.len() && '0' <= s[j] && s[j] <= '9'
        invariant
            a <= j <= s@.len(),
            digits_end(s@, a as int) == digits_end(s@, j as int),
            v == capped(digits_value(s@.subrange(a as int, j as int)), cap as nat),
        decreases s.len() - j,
    {
        let d = (s[j] as u32 - '0' as u32) as u128;
        assert(s@.subrange(a as int, j + 1).drop_last() =~= s@.subrange(a as int, j as int));
        let ghost full = digits_value(s@.subrange(a as int, j as int));
        assert(digits_value(s@.subrange(a as int, j + 1)) == full * 10 + d);
        if v >= cap || d >= cap || v > (cap - d) / 10 {
            assert(full * 10 + d >= cap) by (nonlinear_arith)
                requires
                    full >= v,
                    v >= cap || d >= cap || v > (cap - d) / 10,
                    v < cap ==> full == v,
                    d <= 9,
            ;
            v = cap;
        } else {
            assert(v * 10 + d <= cap) by (nonlinear_arith)
                requires
                    v <= (cap - d) / 10,
                    d <= cap,
            ;
            v = v * 10 + d;
        }
        j = j + 1;
    }
    (v, j)
}

/// The choice that a vote names, but no more than `cap`.
pub fn vote_choice_capped(o: &[char], cap: u128) -> (r: Option<u128>)
    ensures
        r matches Some(v) ==> vote_choice(o@) matches Some(w) && v == capped(w, cap as nat),
        r is None ==> vote_choice(o@) is None,
{
    let phrase = crate::text::chars_of("best choice is");
    proof {
        reveal_strlit("best choice is");
    }
    let i = match find_seq(o, phrase.as_slice()) {
        None => {
            return None;
        },
        Some(i) => i,
    };
    let n = o.len();
    proof {
        lemma_find_from_matches(o@, phrase@, 0);
        assert(i + 14 <= n);
    }
    let mut j: usize = i + 14;
    while j < n && o[j] != '\n' && !('0' <= o[j] && o[j] <= '9')
        invariant
            n == o@.len(),
            i + 14 <= j <= n,
            number_start(o@, i + 14) == number_start(o@, j as int),
        decreases n - j,
    {
        j = j + 1;
    }
    if j >= n || o[j] == '\n' {
        return None;
    }
    let (v, _end) = read_number(o, j, cap);
    Some(v)
}

/// The number of votes among `outputs` that name choice `c` (counted from 1).
pub open spec fn votes_for(outputs: Seq<Seq<char>>, c: nat) -> nat
    decreases outputs.len(),
{
    if outputs.len() == 0 {
        0
    } else {
        votes_for(outputs.drop_last(), c) + if vote_choice(outputs.last()) == Some(c) {
            1nat
        } else {
            0nat
        }
    }
}

/// The tally of `outputs` over `n` candidates: entry `i` counts the votes that
/// name choice `i + 1`. Votes naming no choice, or one out of range, count for none.
pub fn tally_votes(outputs: &Vec<String>, n: usize) -> (r: Vec<u64>)
    ensures
        r@.len() == n,
        forall|i: int| 0 <= i < n ==> #[trigger] r@[i] == votes_for(texts(outputs@), (i + 1) as nat),
{
    let mut r: Vec<u64> = Vec::new();
    let mut k: usize = 0;
    while k < n
        invariant
            k <= n,
            r@.len() == k,
            forall|i: int| 0 <= i < k ==> r@[i] == 0,
        decreases n - k,
    {
        r.push(0);
        k = k + 1;
    }
    let cap: u128 = n as u128 + 1;
    let mut m: usize = 0;
    while m < outputs.len()
        invariant
            m <= outputs@.len(),
            r@.len() == n,
            cap == n + 1,
            forall|i: int|
                0 <= i < n ==> #[trigger] r@[i] == votes_for(
                    texts(outputs@.subrange(0, m as int)),
                    (i + 1) as nat,
                ),
            forall|i: int| 0 <= i < n ==> r@[i] <= m,
        decreases outputs.len() - m,
    {
        let o = crate::text::chars_of(outputs[m].as_str());
        let choice = vote_choice_capped(o.as_slice(), cap);
        let ghost prev = texts(outputs@.subrange(0, m as int));
        assert(texts(outputs@.subrange(0, m + 1)).drop_last() =~= prev);
        assert(texts(outputs@.subrange(0, m + 1)).last() == o@);
        let ghost r0 = r@;
        match choice {
            Some(c) => {
                if 1 <= c && c <= n as u128 {
                    let idx = (c - 1) as usize;
                    let cur = r[idx];
                    r.set(idx, cur + 1);
                }
            },
            None => {},
        }
        m = m + 1;
    }
    assert(outputs@.subrange(0, outputs@.len() as int) =~= outputs@);
    r
}

/// The score a judge gives in `o`: the number written right after the first
/// `"coherency score is "`.
pub open spec fn coherency_score(o: Seq<char>) -> Option<nat> {
    match find(o, "coherency score is "@) {
        None => None,
        Some(i) => if i + 19 < o.len() && is_digit(o[i + 19]) {
            Some(digits_value(o.subrange(i + 19, digits_end(o, i + 19))))
        } else {
            None
        },
    }
}

/// The scores read from `outputs`, in order; an output with no score, or with one
/// past `u32::MAX`, gives none.
pub open spec fn kept_scores(outputs: Seq<Seq<char>>) -> Seq<u32>
    decreases outputs.len(),
{
    if outputs.len() == 0 {
        Seq::empty()
    } else {
        kept_scores(outputs.drop_last()) + match coherency_score(outputs.last()) {
            Some(v) => if v <= u32::MAX {
                seq![v as u32]
            } else {
                Seq::empty()
            },
            None => Seq::empty(),
        }
    }
}

proof fn lemma_kept_scores_len(outputs: Seq<Seq<char>>)
    ensures
        kept_scores(outputs).len() <= outputs.len(),
    decreases outputs.len(),
{
    if outputs.len() > 0 {
        lemma_kept_scores_len(outputs.drop_last());
    }
}

/// The score in `o`, if it has one that fits in a `u32`.
fn coherency_score_of(o: &[char]) -> (r: Option<u32>)
    ensures
        r matches Some(v) ==> coherency_score(o@) == Some(v as nat),
        r is None ==> !(coherency_score(o@) matches Some(v) && v <= u32::MAX),
{
    let phrase = crate::text::chars_of("coherency score is ");
    proof {
        reveal_strlit("coherency score is ");
    }
    let i = match find_seq(o, phrase.as_slice()) {
        None => {
            return None;
        },
        Some(i) => i,
    };
    let n = o.len();
    proof {
        lemma_find_from_matches(o@, phrase@, 0);
        assert(i + 19 <= n);
    }
    let a = i + 19;
    if a >= n || !('0' <= o[a] && o[a] <= '9') {
        return None;
    }
    let cap: u128 = 0x1_0000_0000;
    let (v, _end) = read_number(o, a, cap);
    if v >= cap {
        None
    } else {
        Some(v as u32)
    }
}

/// The scores that the judge outputs give, in order.
pub fn coherency_scores(outputs: &Vec<String>) -> (r: Vec<u32>)
    ensures
        r@ == kept_scores(texts(outputs@)),
{
    let mut r: Vec<u32> = Vec::new();
    let mut m: usize = 0;
    while m < outputs.len()
        invariant
            m <= outputs@.len(),
            r@ == kept_scores(texts(outputs@.subrange(0, m as int))),
        decreases outputs.len() - m,
    {
        let o = crate::text::chars_of(outputs[m].as_str());
        let ghost prev = texts(outputs@.subrange(0, m as int));
        assert(texts(outputs@.subrange(0, m + 1)).drop_last() =~= prev);
        assert(texts(outputs@.subrange(0, m + 1)).last() == o@);
        match coherency_score_of(o.as_slice()) {
            Some(v) => {
                r.push(v);
                assert(r@ =~= kept_scores(texts(outputs@.subrange(0, m + 1))));
            },
            None => {
                assert(r@ =~= kept_scores(texts(outputs@.subrange(0, m + 1))));
            },
        }
        m = m + 1;
    }
    assert(outputs@.subrange(0, outputs@.len() as int) =~= outputs@);
    r
}

/// The sum of `v`.
pub open spec fn sum_scores(v: Seq<u32>) -> nat
    decreases v.len(),
{
    if v.len() == 0 {
        0
    } else {
        sum_scores(v.drop_last()) + v.last() as nat
    }
}

/// The mean of the scores kept from `outputs`, as the fraction sum / count, or
/// `0 / 1` when there are none; also the scores.
pub fn mean_score(outputs: &Vec<String>) -> (r: (crate::reward::Ratio, Vec<u32>))
    requires
        outputs@.len() <= u32::MAX,
    ensures
        r.1@ == kept_scores(texts(outputs@)),
        r.1@.len() == 0 ==> r.0 == (crate::reward::Ratio { num: 0, den: 1 }),
        r.1@.len() > 0 ==> r.0 == (crate::reward::Ratio {
            num: sum_scores(r.1@) as u64,
            den: r.1@.len() as u64,
        }),
{
    let scores = coherency_scores(outputs);
    proof {
        lemma_kept_scores_len(texts(outputs@));
    }
    if scores.len() == 0 {
        return (crate::reward::Ratio::zero(), scores);
    }
    let mut sum: u64 = 0;
    let mut i: usize = 0;
    while i < scores.len()
        invariant
            scores@.len() <= u32::MAX,
            i <= scores@.len(),
            sum == sum_scores(scores@.subrange(0, i as int)),
            sum <= i * 0xffff_ffff,
        decreases scores.len() - i,
    {
        assert(scores@.subrange(0, i + 1).drop_last() =~= scores@.subrange(0, i as int));
        assert(sum + scores[i as int] <= (i + 1) * 0xffff_ffff) by (nonlinear_arith)
            requires
                sum <= i * 0xffff_ffff,
                scores[i as int] <= 0xffff_ffff,
        ;
        sum = sum + scores[i] as u64;
        i = i + 1;
    }
    assert(scores@.subrange(0, scores@.len() as int) =~= scores@);
    (crate::reward::Ratio { num: sum, den: scores.len() as u64 }, scores)
}

/// The decimal numeral of `n`.
pub open spec fn decimal(n: nat) -> Seq<char>
    decreases n,
{
    if n < 10 {
        seq![digit_char(n)]
    } else {
        decimal(n / 10).push(digit_char(n % 10))
    }
}

/// The digit character for `d` below ten.
pub open spec fn digit_char(d: nat) -> char {
    ((d + 48) as u8) as char
}

/// The decimal numeral of `n`.
pub fn decimal_of(n: u64) -> (r: Vec<char>)
    ensures
        r@ == decimal(n as nat),
    decreases n,
{
    if n < 10 {
        let mut r: Vec<char> = Vec::new();
        r.push(((n as u8) + 48) as char);
        r
    } else {
        let mut r = decimal_of(n / 10);
        r.push((((n % 10) as u8) + 48) as char);
        r
    }
}

/// The first `k` space-separated pieces of `s`, joined with nothing between them.
pub open spec fn join_tokens(s: Seq<char>, k: nat) -> Seq<char>
    decreases k,
{
    if k == 0 {
        Seq::empty()
    } else {
        match find(s, seq![' ']) {
            Some(i) => if 0 <= i < s.len() {
                s.subrange(0, i) + join_tokens(s.subrange(i + 1, s.len() as int), (k - 1) as nat)
            } else {
                s
            },
            None => s,
        }
    }
}

pub fn join_tokens_of(s: &[char], k: usize) -> (r: Vec<char>)
    ensures
        r@ == join_tokens(s@, k as nat),
{
    let space = single(' ');
    let mut out: Vec<char> = Vec::new();
    let mut rest = copy_range(s, 0, s.len());
    assert(rest@ =~= s@);
    let mut t: usize = k;
    while t > 0
        invariant
            space@ == seq![' '],
            out@ + join_tokens(rest@, t as nat) == join_tokens(s@, k as nat),
        decreases t,
    {
        match find_seq(rest.as_slice(), space.as_slice()) {
            Some(i) => {
                let n = rest.len();
                proof {
                    lemma_find_from_matches(rest@, seq![' '], 0);
                    assert(i + 1 <= n);
                }
                let head = copy_range(rest.as_slice(), 0, i);
                let tail = copy_range(rest.as_slice(), i + 1, n);
                let ghost before = out@;
                crate::text::append_chars(&mut out, head.as_slice());
                assert(out@ + join_tokens(tail@, (t - 1) as nat) =~= before + join_tokens(
                    rest@,
                    t as nat,
                ));
                rest = tail;
            },
            None => {
                crate::text::append_chars(&mut out, rest.as_slice());
                return out;
            },
        }
        t = t - 1;
    }
    assert(out@ + Seq::<char>::empty() =~= out@);
    out
}

} // verus!
