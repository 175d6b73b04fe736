//! The dictionary oracle: the playable-word list, folded to lowercase and
//! bucketed by character length, for validating guesses and for picking a
//! random solution word.

use vstd::prelude::*;
use vstd::string::StrSliceExecFns;

use crate::game::lower_of;
use crate::game::lowercase;

verus! {

/// The playable words, lowercase-folded and bucketed by exact character
/// length, each word held once. Only lengths 4, 5 and 6 are playable;
/// entries of any other length are dropped when the dictionary is built.
pub struct Dictionary {
    pub words4: Vec<String>,
    pub words5: Vec<String>,
    pub words6: Vec<String>,
}

/// Relies on `rand::Rng::gen_range`: on the non-empty range `0..bound` it
/// returns a value of that range.
#[verifier::external_body]
fn pick_index(bound: usize) -> (r: usize)
    requires
        bound > 0,
    ensures
        r < bound,
{
    rand::Rng::gen_range(&mut rand::thread_rng(), 0..bound)
}

fn bucket_contains(bucket: &Vec<String>, w: &String) -> (r: bool)
    ensures
        r == exists|i: int| 0 <= i < bucket@.len() && (#[trigger] bucket@[i])@ == w@,
{
    let mut i: usize = 0;
    while i < bucket.len()
        invariant
            i <= bucket@.len(),
            forall|j: int| 0 <= j < i ==> (#[trigger] bucket@[j])@ != w@,
        decreases bucket@.len() - i,
    {
        if bucket[i].eq(w) {
            return true;
        }
        i = i + 1;
    }
    false
}

fn choose_from(bucket: &Vec<String>) -> (r: Option<String>)
    ensures
        r matches Some(w) ==> exists|i: int| 0 <= i < bucket@.len() && (#[trigger] bucket@[i])@
            == w@,
        r is None ==> bucket@.len() == 0,
{
    if bucket.len() == 0 {
        None
    } else {
        let i = pick_index(bucket.len());
        Some(bucket[i].clone())
    }
}

/// No two entries of the bucket read the same.
pub open spec fn distinct_words(bucket: Seq<String>) -> bool {
    forall|i: int, j: int|
        0 <= i < j < bucket.len() ==> (#[trigger] bucket[i])@ != (#[trigger] bucket[j])@
}

impl Dictionary {
    /// Every word sits in the bucket of its exact character length, and no
    /// bucket holds a word twice.
    pub open spec fn wf(self) -> bool {
        &&& forall|i: int| 0 <= i < self.words4@.len() ==> (#[trigger] self.words4@[i])@.len()
            == 4
        &&& forall|i: int| 0 <= i < self.words5@.len() ==> (#[trigger] self.words5@[i])@.len()
            == 5
        &&& forall|i: int| 0 <= i < self.words6@.len() ==> (#[trigger] self.words6@[i])@.len()
            == 6
        &&& distinct_words(self.words4@)
        &&& distinct_words(self.words5@)
        &&& distinct_words(self.words6@)
    }

    /// Membership of an already folded word in the dictionary.
    pub open spec fn contains_word(self, w: Seq<char>) -> bool {
        ||| exists|i: int| 0 <= i < self.words4@.len() && (#[trigger] self.words4@[i])@ == w
        ||| exists|i: int| 0 <= i < self.words5@.len() && (#[trigger] self.words5@[i])@ == w
        ||| exists|i: int| 0 <= i < self.words6@.len() && (#[trigger] self.words6@[i])@ == w
    }

    /// Build the dictionary from a raw word list: each entry is lowercase-
    /// folded, then kept exactly when its folded character length is 4, 5
    /// or 6; a word listed twice is held once.
    pub fn new(words: &Vec<String>) -> (d: Dictionary)
        ensures
            d.wf(),
            forall|w: Seq<char>|
                d.contains_word(w) <==> (exists|i: int|
                    0 <= i < words@.len() && w == lower_of((#[trigger] words@[i])@) && 4 <= w.len()
                        <= 6),
    {
        let mut d = Dictionary { words4: Vec::new(), words5: Vec::new(), words6: Vec::new() };
        let mut i: usize = 0;
        while i < words.len()
            invariant
                i <= words@.len(),
                d.wf(),
                forall|w: Seq<char>|
                    d.contains_word(w) <==> (exists|j: int|
                        0 <= j < i && w == lower_of((#[trigger] words@[j])@) && 4 <= w.len() <= 6),
            decreases words@.len() - i,
        {
            let lw = lowercase(words[i].as_str());
            let n = lw.as_str().unicode_len();
            let ghost prev = d;
            let ghost lws = lw@;
            if n == 4 {
                if !bucket_contains(&d.words4, &lw) {
                    d.words4.push(lw);
                }
            } else if n == 5 {
                if !bucket_contains(&d.words5, &lw) {
                    d.words5.push(lw);
                }
            } else if n == 6 {
                if !bucket_contains(&d.words6, &lw) {
                    d.words6.push(lw);
                }
            }
            proof {
                lemma_dictionary_step(prev, d, lws, n as int);
                assert forall|w: Seq<char>| d.contains_word(w) <==> (exists|j: int|
                    0 <= j < i + 1 && w == lower_of((#[trigger] words@[j])@) && 4 <= w.len()
                        <= 6) by {
                    if d.contains_word(w) {
                        if w == lws && 4 <= n <= 6 {
                            assert(w == lower_of(words@[i as int]@));
                        }
                    }
                    if exists|j: int|
                        0 <= j < i + 1 && w == lower_of((#[trigger] words@[j])@) && 4 <= w.len()
                            <= 6 {
                        let j = choose|j: int|
                            0 <= j < i + 1 && w == lower_of((#[trigger] words@[j])@) && 4 <= w.len()
                                <= 6;
                        if j < i {
                            assert(prev.contains_word(w));
                        } else {
                            assert(w == lws && w.len() == n);
                        }
                    }
                }
            }
            i = i + 1;
        }
        d
    }

    /// Case-insensitive membership: the candidate is folded and looked up in
    /// the bucket of its folded length.
    pub fn is_valid_word(&self, word: &str) -> (r: bool)
        requires
            self.wf(),
        ensures
            r == self.contains_word(lower_of(word@)),
    {
        let lw = lowercase(word);
        let n = lw.as_str().unicode_len();
        if n == 4 {
            bucket_contains(&self.words4, &lw)
        } else if n == 5 {
            bucket_contains(&self.words5, &lw)
        } else if n == 6 {
            bucket_contains(&self.words6, &lw)
        } else {
            false
        }
    }

    /// A word of exactly the requested character length, picked at random
    /// from the dictionary, or `None` when the dictionary has no word of
    /// that length.
    pub fn get_random_word(&self, word_length: usize) -> (r: Option<String>)
        requires
            self.wf(),
        ensures
            r matches Some(w) ==> self.contains_word(w@) && w@.len() == word_length,
            r is None ==> forall|w: Seq<char>| self.contains_word(w) ==> w.len() != word_length,
    {
        if word_length == 4 {
            choose_from(&self.words4)
        } else if word_length == 5 {
            choose_from(&self.words5)
        } else if word_length == 6 {
            choose_from(&self.words6)
        } else {
            None
        }
    }
}

/// One build step either keeps the dictionary (the word's folded length is
/// not playable, or the word is already held) or adds exactly the folded
/// word to the bucket of its length.
proof fn lemma_dictionary_step(prev: Dictionary, d: Dictionary, lws: Seq<char>, n: int)
    requires
        prev.wf(),
        lws.len() == n,
        ({
            ||| (d == prev && (n < 4 || n > 6 || prev.contains_word(lws)))
            ||| (n == 4 && !prev.contains_word(lws) && d.words5 == prev.words5 && d.words6
                == prev.words6 && d.words4@ == prev.words4@.push(d.words4@.last())
                && d.words4@.last()@ == lws)
            ||| (n == 5 && !prev.contains_word(lws) && d.words4 == prev.words4 && d.words6
                == prev.words6 && d.words5@ == prev.words5@.push(d.words5@.last())
                && d.words5@.last()@ == lws)
            ||| (n == 6 && !prev.contains_word(lws) && d.words4 == prev.words4 && d.words5
                == prev.words5 && d.words6@ == prev.words6@.push(d.words6@.last())
                && d.words6@.last()@ == lws)
        }),
    ensures
        d.wf(),
        forall|w: Seq<char>|
            d.contains_word(w) <==> (prev.contains_word(w) || (w == lws && 4 <= n <= 6)),
{
    if d == prev {
        assert forall|w: Seq<char>| d.contains_word(w) <==> (prev.contains_word(w) || (w == lws && 4
            <= n <= 6)) by {
            if w == lws && 4 <= n <= 6 {
                assert(prev.contains_word(w));
            }
        }
    } else {
        assert forall|w: Seq<char>| d.contains_word(w) implies (prev.contains_word(w) || w
            == lws) by {
            if exists|k: int| 0 <= k < d.words4@.len() && (#[trigger] d.words4@[k])@ == w {
                let k = choose|k: int| 0 <= k < d.words4@.len() && (#[trigger] d.words4@[k])@ == w;
                if k < prev.words4@.len() {
                    assert(prev.words4@[k]@ == w);
                }
            } else if exists|k: int| 0 <= k < d.words5@.len() && (#[trigger] d.words5@[k])@ == w {
                let k = choose|k: int| 0 <= k < d.words5@.len() && (#[trigger] d.words5@[k])@ == w;
                if k < prev.words5@.len() {
                    assert(prev.words5@[k]@ == w);
                }
            } else {
                let k = choose|k: int| 0 <= k < d.words6@.len() && (#[trigger] d.words6@[k])@ == w;
                if k < prev.words6@.len() {
                    assert(prev.words6@[k]@ == w);
                }
            }
        }
        assert forall|w: Seq<char>| (prev.contains_word(w) || w == lws) implies d.contains_word(
            w,
        ) by {
            if w == lws {
                if n == 4 {
                    assert(d.words4@[prev.words4@.len() as int]@ == w);
                } else if n == 5 {
                    assert(d.words5@[prev.words5@.len() as int]@ == w);
                } else {
                    assert(d.words6@[prev.words6@.len() as int]@ == w);
                }
            } else if exists|k: int|
                0 <= k < prev.words4@.len() && (#[trigger] prev.words4@[k])@ == w {
                let k = choose|k: int|
                    0 <= k < prev.words4@.len() && (#[trigger] prev.words4@[k])@ == w;
                assert(d.words4@[k]@ == w);
            } else if exists|k: int|
                0 <= k < prev.words5@.len() && (#[trigger] prev.words5@[k])@ == w {
                let k = choose|k: int|
                    0 <= k < prev.words5@.len() && (#[trigger] prev.words5@[k])@ == w;
                assert(d.words5@[k]@ == w);
            } else {
                let k = choose|k: int|
                    0 <= k < prev.words6@.len() && (#[trigger] prev.words6@[k])@ == w;
                assert(d.words6@[k]@ == w);
            }
        }
    }
}

} // verus!
