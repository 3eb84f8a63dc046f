//! The register record from which an application starts.

use crate::words::{
    lemma_word_bytes_len, lemma_word_round_trip, read_word, word_at, word_bytes, write_word,
};
use vstd::prelude::*;

verus! {

/// Number of machine words in a context: the general registers, the saved
/// status word and the saved program counter.
pub const CONTEXT_WORDS: usize = 34;

/// Number of bytes a context occupies in memory, eight per word.
pub const CONTEXT_SIZE: usize = 272;

/// Index of the stack pointer among the general registers.
pub const STACK_POINTER: usize = 2;

/// Bit of the status word that is set when a return from the trap goes to
/// supervisor mode, and clear when it goes to user mode.
pub const SSTATUS_SPP: u64 = 0x100;

/// What the processor restores when it enters an application: the general
/// registers, the saved status word and the address at which execution starts.
#[derive(Clone, Copy, Debug, PartialEq, Eq)]
pub struct TrapContext {
    /// The general registers; register 2 is the stack pointer.
    pub x: [usize; 32],
    /// The saved status word.
    pub sstatus: usize,
    /// The address at which the application starts.
    pub sepc: usize,
}

/// Word `k` of the context of an application that has not run yet and that
/// starts at `entry` with its stack pointer at `sp`.
pub open spec fn initial_word(entry: usize, sp: usize, k: int) -> usize {
    if k == STACK_POINTER {
        sp
    } else if k == CONTEXT_WORDS - 1 {
        entry
    } else {
        0
    }
}

/// The bytes in memory of the context of an application that has not run
/// yet and that starts at `entry` with its stack pointer at `sp`.
pub open spec fn initial_encoding(entry: usize, sp: usize) -> Seq<u8> {
    Seq::new(CONTEXT_SIZE as nat, |i: int| word_bytes(initial_word(entry, sp, i / 8))[i % 8])
}

/// `cx` is the context that `bytes` hold: each of its words is the one
/// found at its place in `bytes`.
pub open spec fn decodes_to(bytes: Seq<u8>, cx: TrapContext) -> bool {
    forall|k: int| 0 <= k < CONTEXT_WORDS ==> cx.word(k) == word_at(bytes, k)
}

impl TrapContext {
    /// Word `k` of the context in memory order: the registers, then the
    /// status word, then the program counter.
    pub open spec fn word(&self, k: int) -> usize {
        if k < 32 {
            self.x@[k]
        } else if k == 32 {
            self.sstatus
        } else {
            self.sepc
        }
    }

    /// The bytes of the context in memory: its words in order, each lowest
    /// byte first.
    pub open spec fn encoding(&self) -> Seq<u8> {
        Seq::new(CONTEXT_SIZE as nat, |i: int| word_bytes(self.word(i / 8))[i % 8])
    }

    /// A return from the trap with this context goes to user mode.
    pub open spec fn returns_to_user(&self) -> bool {
        (self.sstatus as u64) & SSTATUS_SPP == 0
    }

    /// The context of an application that has not run yet: execution starts
    /// at `entry` in user mode, with the stack pointer at `sp` and every other
    /// register zero.
    pub open spec fn is_initial(&self, entry: usize, sp: usize) -> bool {
        &&& self.sepc == entry
        &&& self.sstatus == 0
        &&& self.returns_to_user()
        &&& forall|i: int|
            0 <= i < 32 ==> #[trigger] self.x@[i] == (if i == STACK_POINTER {
                sp
            } else {
                0
            })
    }

    /// Builds the context of an application that has not run yet.
    pub fn app_init_context(entry: usize, sp: usize) -> (cx: TrapContext)
        ensures
            cx.is_initial(entry, sp),
            cx.encoding() == initial_encoding(entry, sp),
    {
        let mut x: [usize; 32] = [0usize;32];
        x[2] = sp;
        assert(0u64 & 0x100u64 == 0) by (bit_vector);
        let cx = TrapContext { x, sstatus: 0, sepc: entry };
        proof {
            cx.lemma_initial_encoding(entry, sp);
        }
        cx
    }

    /// The bytes of an initial context are those that its entry address and
    /// stack pointer determine.
    pub proof fn lemma_initial_encoding(&self, entry: usize, sp: usize)
        requires
            self.is_initial(entry, sp),
        ensures
            self.encoding() == initial_encoding(entry, sp),
    {
        assert forall|k: int| 0 <= k < CONTEXT_WORDS implies self.word(k) == initial_word(
            entry,
            sp,
            k,
        ) by {
            if k < 32 {
                assert(self.x@[k] == (if k == STACK_POINTER {
                    sp
                } else {
                    0
                }));
            }
        }
        assert(self.encoding() =~= initial_encoding(entry, sp));
    }

    /// The address at which the application starts.
    pub fn entry(&self) -> (a: usize)
        ensures
            a == self.sepc,
    {
        self.sepc
    }

    /// The application's stack pointer.
    pub fn stack_pointer(&self) -> (a: usize)
        ensures
            a == self.x@[STACK_POINTER as int],
    {
        self.x[2]
    }

    fn get_word(&self, k: usize) -> (w: usize)
        requires
            k < CONTEXT_WORDS,
        ensures
            w == self.word(k as int),
    {
        if k < 32 {
            self.x[k]
        } else if k == 32 {
            self.sstatus
        } else {
            self.sepc
        }
    }

    /// The bytes of the context as they lie in memory.
    pub fn to_bytes(&self) -> (out: Vec<u8>)
        ensures
            out@ == self.encoding(),
    {
        let mut out: Vec<u8> = Vec::new();
        let mut k: usize = 0;
        while k < CONTEXT_WORDS
            invariant
                k <= CONTEXT_WORDS,
                out@.len() == 8 * k,
                forall|i: int|
                    0 <= i < 8 * k ==> out@[i] == word_bytes(self.word(i / 8))[i % 8],
            decreases CONTEXT_WORDS - k,
        {
            let word: Vec<u8> = write_word(self.get_word(k));
            let mut j: usize = 0;
            while j < 8
                invariant
                    j <= 8,
                    k < CONTEXT_WORDS,
                    word@ == word_bytes(self.word(k as int)),
                    word@.len() == 8,
                    out@.len() == 8 * k + j,
                    forall|i: int|
                        0 <= i < 8 * k + j ==> out@[i] == word_bytes(self.word(i / 8))[i % 8],
                decreases 8 - j,
            {
                out.push(word[j]);
                j += 1;
            }
            k += 1;
        }
        assert(out@ =~= self.encoding());
        out
    }

    /// Reads a context back from the bytes it occupies in memory.
    pub fn from_bytes(bytes: &[u8]) -> (cx: TrapContext)
        requires
            bytes@.len() == CONTEXT_SIZE,
        ensures
            decodes_to(bytes@, cx),
    {
        let mut x: [usize; 32] = [0usize;32];
        let mut k: usize = 0;
        while k < 32
            invariant
                k <= 32,
                bytes@.len() == CONTEXT_SIZE,
                forall|j: int| 0 <= j < k ==> x@[j] == word_at(bytes@, j),
            decreases 32 - k,
        {
            x[k] = read_word(bytes, k);
            k += 1;
        }
        let sstatus: usize = read_word(bytes, 32);
        let sepc: usize = read_word(bytes, 33);
        TrapContext { x, sstatus, sepc }
    }

    /// Each word of a context is read back unchanged from the context's
    /// bytes.
    pub proof fn lemma_word_round_trip(&self, k: int)
        requires
            0 <= k < CONTEXT_WORDS,
        ensures
            word_at(self.encoding(), k) == self.word(k),
    {
        let w = self.word(k);
        lemma_word_bytes_len(w);
        assert(self.encoding().subrange(8 * k, 8 * k + 8) =~= word_bytes(w));
        lemma_word_round_trip(self.encoding(), k, w);
    }

    /// A context read back from the bytes of `self` equals `self`.
    pub proof fn lemma_round_trip(&self, back: TrapContext)
        requires
            decodes_to(self.encoding(), back),
        ensures
            back == *self,
    {
        assert forall|k: int| 0 <= k < CONTEXT_WORDS implies back.word(k) == self.word(k) by {
            self.lemma_word_round_trip(k);
        }
        assert(back.word(32) == self.word(32));
        assert(back.word(33) == self.word(33));
        assert forall|i: int| 0 <= i < 32 implies back.x[i] == self.x[i] by {
            assert(back.word(i) == self.word(i));
        }
        assert(back.x =~= self.x);
    }
}

} // verus!
