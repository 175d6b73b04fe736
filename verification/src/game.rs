//! The guess evaluator: per-letter classification of a guess against a
//! solution word, with standard Wordle duplicate-letter accounting.

use vstd::prelude::*;
use vstd::string::StrSliceExecFns;

pub mod db;
pub mod dictionary;
pub mod session;
pub mod types;

use crate::game::types::PlayerGuess;

verus! {

/// Classification of one guessed character against the solution.
/// `Unsubmitted` is never produced by evaluation; presentation layers use it
/// to prefill an empty board.
#[derive(Clone, Copy, PartialEq, Eq, Debug)]
pub enum Letter {
    Correct(char),
    InTheWord(char),
    Wrong(char),
    Unsubmitted(char),
}

/// The sequence of characters that `str::to_lowercase` yields for `s`.
/// Left uninterpreted: evaluation is case-insensitive exactly up to what
/// that function computes.
pub uninterp spec fn lower_of(s: Seq<char>) -> Seq<char>;

/// Relies on `str::to_lowercase`: the result is a function of the input
/// characters alone, and a non-empty string stays non-empty (every character
/// maps to at least one character).
#[verifier::external_body]
pub(crate) fn lowercase(s: &str) -> (r: String)
    ensures
        r@ == lower_of(s@),
        s@.len() > 0 ==> r@.len() > 0,
{
    s.to_lowercase()
}

/// Comparison proceeds position by position only up to the shorter length.
pub open spec fn eval_len(g: Seq<char>, s: Seq<char>) -> int {
    if g.len() <= s.len() {
        g.len() as int
    } else {
        s.len() as int
    }
}

/// Occurrences of `c` among the first `n` characters of `s`.
pub open spec fn count_char(s: Seq<char>, c: char, n: int) -> nat
    decreases n,
{
    if n <= 0 {
        0
    } else {
        count_char(s, c, n - 1) + (if s[n - 1] == c {
            1nat
        } else {
            0nat
        })
    }
}

/// Solution positions before `n` that hold `c` but were not matched in
/// place: how many occurrences of `c` the solution still offers to the
/// guess's out-of-place letters.
pub open spec fn count_missing(g: Seq<char>, s: Seq<char>, c: char, n: int) -> nat
    decreases n,
{
    if n <= 0 {
        0
    } else {
        count_missing(g, s, c, n - 1) + (if s[n - 1] == c && g[n - 1] != s[n - 1] {
            1nat
        } else {
            0nat
        })
    }
}

/// Guess positions before `n` that hold `c` but were not matched in place:
/// earlier claims of the guess on the solution's unmatched occurrences of
/// `c`.
pub open spec fn count_claimed(g: Seq<char>, s: Seq<char>, c: char, n: int) -> nat
    decreases n,
{
    if n <= 0 {
        0
    } else {
        count_claimed(g, s, c, n - 1) + (if g[n - 1] == c && g[n - 1] != s[n - 1] {
            1nat
        } else {
            0nat
        })
    }
}

/// The classification of position `i`: an in-place match is `Correct`.
/// Otherwise the letter is `InTheWord` while the earlier out-of-place
/// occurrences of it in the guess have not yet claimed all the solution's
/// unmatched occurrences (leftmost occurrence first), and `Wrong` after
/// that.
pub open spec fn letter_at(g: Seq<char>, s: Seq<char>, i: int) -> Letter {
    if g[i] == s[i] {
        Letter::Correct(g[i])
    } else if count_claimed(g, s, g[i], i) < count_missing(g, s, g[i], eval_len(g, s)) {
        Letter::InTheWord(g[i])
    } else {
        Letter::Wrong(g[i])
    }
}

/// The full per-letter classification of guess `g` against solution `s`.
pub open spec fn eval_letters(g: Seq<char>, s: Seq<char>) -> Seq<Letter> {
    Seq::new(eval_len(g, s) as nat, |i: int| letter_at(g, s, i))
}

/// A guess wins when every compared position matches in place.
pub open spec fn is_winning(g: Seq<char>, s: Seq<char>) -> bool {
    forall|i: int| 0 <= i < eval_len(g, s) ==> g[i] == s[i]
}

fn count_missing_upto(guess: &str, solution: &str, c: char, n: usize) -> (r: usize)
    requires
        n <= guess@.len(),
        n <= solution@.len(),
    ensures
        r == count_missing(guess@, solution@, c, n as int),
{
    let mut r: usize = 0;
    let mut j: usize = 0;
    while j < n
        invariant
            j <= n,
            n <= guess@.len(),
            n <= solution@.len(),
            r == count_missing(guess@, solution@, c, j as int),
            r <= j,
        decreases n - j,
    {
        let sc = solution.get_char(j);
        let gc = guess.get_char(j);
        if sc == c && gc != sc {
            r = r + 1;
        }
        j = j + 1;
    }
    r
}

fn count_claimed_upto(guess: &str, solution: &str, c: char, n: usize) -> (r: usize)
    requires
        n <= guess@.len(),
        n <= solution@.len(),
    ensures
        r == count_claimed(guess@, solution@, c, n as int),
{
    let mut r: usize = 0;
    let mut j: usize = 0;
    while j < n
        invariant
            j <= n,
            n <= guess@.len(),
            n <= solution@.len(),
            r == count_claimed(guess@, solution@, c, j as int),
            r <= j,
        decreases n - j,
    {
        let gc = guess.get_char(j);
        let sc = solution.get_char(j);
        if gc == c && gc != sc {
            r = r + 1;
        }
        j = j + 1;
    }
    r
}

/// Evaluate an already lowercase-normalized guess against an already
/// normalized solution: no further case folding happens here.
pub fn check_normalized(guess: &str, solution: &str) -> (r: PlayerGuess)
    ensures
        r.letters@ == eval_letters(guess@, solution@),
        r.is_winning_guess == is_winning(guess@, solution@),
{
    let gl = guess.unicode_len();
    let sl = solution.unicode_len();
    let n = if gl <= sl {
        gl
    } else {
        sl
    };
    let mut letters: Vec<Letter> = Vec::new();
    let mut all_correct = true;
    let mut i: usize = 0;
    while i < n
        invariant
            i <= n,
            n as int == eval_len(guess@, solution@),
            n <= guess@.len(),
            n <= solution@.len(),
            letters@.len() == i as int,
            forall|j: int| 0 <= j < i ==> letters@[j] == letter_at(guess@, solution@, j),
            all_correct == (forall|j: int| 0 <= j < i ==> guess@[j] == solution@[j]),
        decreases n - i,
    {
        let gc = guess.get_char(i);
        let sc = solution.get_char(i);
        if gc == sc {
            letters.push(Letter::Correct(gc));
        } else {
            all_correct = false;
            let wanted = count_missing_upto(guess, solution, gc, n);
            let claimed = count_claimed_upto(guess, solution, gc, i);
            if claimed < wanted {
                letters.push(Letter::InTheWord(gc));
            } else {
                letters.push(Letter::Wrong(gc));
            }
        }
        i = i + 1;
    }
    proof {
        assert(letters@ =~= eval_letters(guess@, solution@));
    }
    PlayerGuess { letters, is_winning_guess: all_correct }
}

/// Occurrences of `c` among the first `n` evaluated letters that were
/// credited, as `Correct` or as `InTheWord`.
pub open spec fn count_credited(ls: Seq<Letter>, c: char, n: int) -> nat
    decreases n,
{
    if n <= 0 {
        0
    } else {
        count_credited(ls, c, n - 1) + (if ls[n - 1] == Letter::Correct(c) || ls[n - 1]
            == Letter::InTheWord(c) {
            1nat
        } else {
            0nat
        })
    }
}

/// In-place matches of `c` among the first `n` positions.
spec fn count_matched(g: Seq<char>, s: Seq<char>, c: char, n: int) -> nat
    decreases n,
{
    if n <= 0 {
        0
    } else {
        count_matched(g, s, c, n - 1) + (if g[n - 1] == c && g[n - 1] == s[n - 1] {
            1nat
        } else {
            0nat
        })
    }
}

spec fn nat_min(a: nat, b: nat) -> nat {
    if a <= b {
        a
    } else {
        b
    }
}

proof fn lemma_credit_decompose(g: Seq<char>, s: Seq<char>, c: char, n: int)
    requires
        0 <= n <= eval_len(g, s),
    ensures
        count_credited(eval_letters(g, s), c, n) == count_matched(g, s, c, n) + nat_min(
            count_claimed(g, s, c, n),
            count_missing(g, s, c, eval_len(g, s)),
        ),
    decreases n,
{
    if n > 0 {
        lemma_credit_decompose(g, s, c, n - 1);
        assert(eval_letters(g, s)[n - 1] == letter_at(g, s, n - 1));
    }
}

proof fn lemma_matched_missing(g: Seq<char>, s: Seq<char>, c: char, n: int)
    requires
        0 <= n <= eval_len(g, s),
    ensures
        count_matched(g, s, c, n) + count_missing(g, s, c, n) == count_char(s, c, n),
    decreases n,
{
    if n > 0 {
        lemma_matched_missing(g, s, c, n - 1);
    }
}

proof fn lemma_count_char_mono(s: Seq<char>, c: char, n: int, m: int)
    requires
        0 <= n <= m,
    ensures
        count_char(s, c, n) <= count_char(s, c, m),
    decreases m,
{
    if n < m {
        lemma_count_char_mono(s, c, n, m - 1);
    }
}

/// For every character, evaluation never credits a guess — as `Correct` or
/// as `InTheWord` together — with more occurrences of that character than
/// the solution contains.
pub proof fn lemma_credit_bounded(g: Seq<char>, s: Seq<char>, c: char)
    ensures
        count_credited(eval_letters(g, s), c, eval_letters(g, s).len() as int) <= count_char(
            s,
            c,
            s.len() as int,
        ),
{
    let n = eval_len(g, s);
    lemma_credit_decompose(g, s, c, n);
    lemma_matched_missing(g, s, c, n);
    lemma_count_char_mono(s, c, n, s.len() as int);
}

/// Evaluation is deterministic: two results of evaluating the same inputs
/// are identical.
pub proof fn lemma_evaluate_deterministic(
    g: Seq<char>,
    s: Seq<char>,
    letters1: Seq<Letter>,
    win1: bool,
    letters2: Seq<Letter>,
    win2: bool,
)
    requires
        letters1 == eval_letters(g, s),
        win1 == is_winning(g, s),
        letters2 == eval_letters(g, s),
        win2 == is_winning(g, s),
    ensures
        letters1 == letters2,
        win1 == win2,
{
}

/// Guessing the solution itself wins, and every one of its letters is
/// classified `Correct`.
pub proof fn lemma_self_guess_wins(s: Seq<char>)
    ensures
        is_winning(s, s),
        eval_letters(s, s).len() == s.len(),
        forall|i: int| 0 <= i < s.len() ==> eval_letters(s, s)[i] == Letter::Correct(s[i]),
{
}

/// Evaluate a guess against a solution, case-insensitively: both words are
/// lowercase-folded, then compared position by position up to the shorter
/// length, with Wordle duplicate-letter accounting.
pub fn check_guess(guess: &str, solution: &str) -> (r: PlayerGuess)
    ensures
        r.letters@ == eval_letters(lower_of(guess@), lower_of(solution@)),
        r.is_winning_guess == is_winning(lower_of(guess@), lower_of(solution@)),
{
    let g = lowercase(guess);
    let s = lowercase(solution);
    check_normalized(g.as_str(), s.as_str())
}

} // verus!
