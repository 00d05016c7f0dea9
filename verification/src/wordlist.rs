use vstd::prelude::*;

use crate::errors::LockerError;

verus! {

/// No two words of the dictionary read the same.
pub open spec fn distinct_words(ws: Seq<Seq<char>>) -> bool {
    forall|i: int, j: int| 0 <= i < j < ws.len() ==> ws[i] != ws[j]
}

/// An immutable dictionary of exactly 2048 distinct words; the word index is
/// the encoding alphabet of the mnemonic codec. The hosting layer loads the
/// raw words once and injects them here, so tests can substitute their own
/// in-memory dictionary.
pub struct WordList {
    words: Vec<String>,
}

impl View for WordList {
    type V = Seq<Seq<char>>;

    closed spec fn view(&self) -> Seq<Seq<char>> {
        self.words.deep_view()
    }
}

impl WordList {
    /// The dictionary invariant: 2048 words, no repeats.
    pub open spec fn wf(&self) -> bool {
        self@.len() == 2048 && distinct_words(self@)
    }

    /// Validates a loaded dictionary: exactly 2048 words, all distinct.
    /// A malformed dictionary is reported, never silently accepted.
    pub fn new(words: Vec<String>) -> (r: Result<WordList, LockerError>)
        ensures
            match r {
                Ok(wl) => wl@ == words.deep_view() && wl.wf(),
                Err(e) => {
                    &&& e == LockerError::WordListUnavailable
                    &&& !(words.deep_view().len() == 2048 && distinct_words(words.deep_view()))
                },
            },
    {
        if words.len() != 2048 {
            return Err(LockerError::WordListUnavailable);
        }
        let mut i: usize = 1;
        while i < 2048
            invariant
                1 <= i <= 2048,
                words.deep_view().len() == 2048,
                forall|a: int, b: int|
                    0 <= a < b < i ==> words.deep_view()[a] != words.deep_view()[b],
            decreases 2048 - i,
        {
            let mut j: usize = 0;
            while j < i
                invariant
                    j <= i < 2048,
                    words.deep_view().len() == 2048,
                    forall|a: int|
                        0 <= a < j ==> words.deep_view()[a] != words.deep_view()[i as int],
                decreases i - j,
            {
                if words[j] == words[i] {
                    proof {
                        assert(words.deep_view()[j as int] == words@[j as int]@);
                        assert(words.deep_view()[i as int] == words@[i as int]@);
                        assert(!distinct_words(words.deep_view()));
                    }
                    return Err(LockerError::WordListUnavailable);
                }
                proof {
                    assert(words.deep_view()[j as int] == words@[j as int]@);
                    assert(words.deep_view()[i as int] == words@[i as int]@);
                }
                j += 1;
            }
            i += 1;
        }
        Ok(WordList { words })
    }

    /// The number of words; always 2048 for a well-formed dictionary.
    pub fn len(&self) -> (r: usize)
        ensures
            r == self@.len(),
    {
        self.words.len()
    }

    /// The word at dictionary index `i`.
    pub fn word_at(&self, i: usize) -> (r: String)
        requires
            i < self@.len(),
        ensures
            r@ == self@[i as int],
    {
        self.words[i].clone()
    }

    /// The first dictionary index whose word reads as `w`, if any.
    pub fn find(&self, w: &String) -> (r: Option<usize>)
        ensures
            match r {
                Some(i) => i < self@.len() && self@[i as int] == w@,
                None => forall|t: int| 0 <= t < self@.len() ==> self@[t] != w@,
            },
    {
        let n = self.words.len();
        let mut i: usize = 0;
        while i < n
            invariant
                i <= n,
                n == self@.len(),
                forall|t: int| 0 <= t < i ==> self@[t] != w@,
            decreases n - i,
        {
            let hit = self.words[i].eq(w);
            proof {
                assert(self@[i as int] == self.words@[i as int]@);
            }
            if hit {
                return Some(i);
            }
            i += 1;
        }
        None
    }
}

} // verus!
