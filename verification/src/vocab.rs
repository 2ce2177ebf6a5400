//! The vocabulary: a fixed, non-empty list of words from which the engine
//! draws at random.

use crate::random::random_below;
use vstd::prelude::*;

verus! {

/// A source of random words. It never runs dry: words may repeat.
pub struct VocabGenerator {
    vocab: Vec<String>,
}

impl VocabGenerator {
    /// The words of the list, in the order in which they were given.
    pub closed spec fn words(&self) -> Seq<Seq<char>> {
        Seq::new(self.vocab@.len(), |i: int| self.vocab@[i]@)
    }

    /// A vocabulary holds at least one word.
    pub open spec fn wf(&self) -> bool {
        self.words().len() > 0
    }

    /// Makes a vocabulary of the given words, or `None` if there are none.
    pub fn new(words: Vec<String>) -> (r: Option<VocabGenerator>)
        ensures
            r is None <==> words@.len() == 0,
            r matches Some(g) ==> g.wf() && g.words() == Seq::new(
                words@.len(),
                |i: int| words@[i]@,
            ),
    {
        if words.len() == 0 {
            None
        } else {
            Some(VocabGenerator { vocab: words })
        }
    }

    /// The number of words.
    pub fn len(&self) -> (n: usize)
        ensures
            n == self.words().len(),
    {
        self.vocab.len()
    }

    /// The word at position `index`.
    pub fn word_at(&self, index: usize) -> (word: String)
        requires
            index < self.words().len(),
        ensures
            word@ == self.words()[index as int],
    {
        self.vocab[index].clone()
    }

    /// One word of the list, picked at random. Every word can come out, and
    /// nothing but a word of the list.
    pub fn generate(&self) -> (word: String)
        requires
            self.wf(),
        ensures
            exists|i: int| 0 <= i < self.words().len() && word@ == #[trigger] self.words()[i],
    {
        let index = random_below(self.vocab.len());
        self.word_at(index)
    }
}

} // verus!
