//! A contiguous backing store: one 32-bit cell per word address, starting
//! zero-filled. Reads outside the store return zero; writes outside it are
//! absorbed.

use crate::mem::Memory;
use vstd::prelude::*;

verus! {

/// A zero-initialised array of backing words.
pub struct LinearMemory {
    words: Vec<u32>,
}

impl LinearMemory {
    /// A store of `size` backing words, all zero.
    pub fn new(size: usize) -> (r: LinearMemory)
        ensures
            forall|a: int| #[trigger] r.word_at(a) == 0u32,
            forall|a: int| #[trigger] r.writable(a) <==> 0 <= a < size,
    {
        let mut words: Vec<u32> = Vec::new();
        let mut i: usize = 0;
        while i < size
            invariant
                i <= size,
                words@.len() == i,
                forall|j: int| 0 <= j < i ==> #[trigger] words@[j] == 0u32,
            decreases size - i,
        {
            words.push(0);
            i = i + 1;
        }
        LinearMemory { words }
    }
}

impl Memory for LinearMemory {
    closed spec fn word_at(&self, word_addr: int) -> u32 {
        if 0 <= word_addr < self.words@.len() {
            self.words@[word_addr]
        } else {
            0
        }
    }

    closed spec fn writable(&self, word_addr: int) -> bool {
        0 <= word_addr < self.words@.len()
    }

    fn read(&self, word_addr: usize) -> (r: u32) {
        if word_addr < self.words.len() {
            self.words[word_addr]
        } else {
            0
        }
    }

    fn write(&mut self, word_addr: usize, value: u32) {
        if word_addr < self.words.len() {
            self.words.set(word_addr, value);
        }
    }
}

} // verus!
