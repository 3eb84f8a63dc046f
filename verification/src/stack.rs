//! Kernel and user stacks, one pair for each application slot.

use crate::config::{KERNEL_STACK_SIZE, MAX_APP_NUM, USER_STACK_SIZE};
use crate::context::{
    decodes_to, initial_encoding, initial_word, TrapContext, CONTEXT_SIZE, CONTEXT_WORDS,
    STACK_POINTER,
};
use crate::region::Region;
use crate::words::{lemma_word_bytes_len, lemma_word_round_trip, word_bytes};
use vstd::prelude::*;

verus! {

/// Size in bytes of a page; every stack begins on a page boundary.
pub const PAGE_SIZE: usize = 4096;

/// A stack the kernel runs on while it serves an application. It grows
/// downwards from its highest address.
pub struct KernelStack {
    data: Region,
}

/// A stack an application runs on. The kernel only hands out its top.
pub struct UserStack {
    data: Region,
}

impl KernelStack {
    /// Lowest address of the stack.
    pub closed spec fn spec_base(&self) -> int {
        self.data.spec_base()
    }

    /// The bytes of the stack, lowest address first.
    pub closed spec fn bytes(&self) -> Seq<u8> {
        self.data.bytes()
    }

    /// The stack has its fixed size, begins on a page boundary and does not
    /// wrap around the end of the address space.
    pub closed spec fn wf(&self) -> bool {
        &&& self.data.wf()
        &&& self.data.bytes().len() == KERNEL_STACK_SIZE
        &&& self.data.spec_base() % (PAGE_SIZE as int) == 0
    }

    /// The address just above the stack, where an empty stack's pointer stands.
    pub open spec fn spec_sp(&self) -> int {
        self.spec_base() + KERNEL_STACK_SIZE
    }

    /// The `len` bytes that the stack holds from address `addr` on.
    pub open spec fn slice(&self, addr: int, len: int) -> Seq<u8> {
        self.bytes().subrange(addr - self.spec_base(), addr - self.spec_base() + len)
    }

    /// `self` is `before` after `record` was pushed at the top: the record
    /// fills the highest addresses, starting at `addr`, and every byte below
    /// it is as it was.
    pub open spec fn pushed(&self, before: KernelStack, record: Seq<u8>, addr: int) -> bool {
        &&& self.spec_base() == before.spec_base()
        &&& self.bytes().len() == KERNEL_STACK_SIZE
        &&& addr == self.spec_sp() - record.len()
        &&& self.slice(addr, record.len() as int) == record
        &&& forall|k: int|
            0 <= k < KERNEL_STACK_SIZE - record.len() ==> self.bytes()[k] == before.bytes()[k]
    }

    /// A wellformed stack has exactly its fixed number of bytes.
    pub proof fn lemma_size(&self)
        requires
            self.wf(),
        ensures
            self.bytes().len() == KERNEL_STACK_SIZE,
            self.spec_sp() <= usize::MAX,
            self.spec_base() % (PAGE_SIZE as int) == 0,
    {
    }

    /// A zero-filled stack whose lowest address is `base`.
    pub fn new(base: usize) -> (s: KernelStack)
        requires
            base % PAGE_SIZE == 0,
            base + KERNEL_STACK_SIZE <= usize::MAX,
        ensures
            s.wf(),
            s.spec_base() == base,
            s.bytes() == crate::region::zeros(KERNEL_STACK_SIZE as int),
    {
        KernelStack { data: Region::new(base, KERNEL_STACK_SIZE) }
    }

    /// The address just above the stack.
    pub fn get_sp(&self) -> (sp: usize)
        requires
            self.wf(),
        ensures
            sp == self.spec_sp(),
    {
        self.data.base() + KERNEL_STACK_SIZE
    }

    /// Copies `record` onto the top of the stack and returns the address of
    /// the copy. A record larger than the stack cannot be pushed.
    pub fn push_record(&mut self, record: &[u8]) -> (addr: usize)
        requires
            old(self).wf(),
            record@.len() <= KERNEL_STACK_SIZE,
        ensures
            final(self).wf(),
            final(self).pushed(*old(self), record@, addr as int),
    {
        let addr: usize = self.data.base() + (KERNEL_STACK_SIZE - record.len());
        self.data.write(addr, record);
        addr
    }

    /// Copies `cx` onto the top of the stack and returns the address of the
    /// copy, which is what the routine that enters user mode reads from.
    pub fn push_context(&mut self, cx: TrapContext) -> (addr: usize)
        requires
            old(self).wf(),
        ensures
            final(self).wf(),
            final(self).pushed(*old(self), cx.encoding(), addr as int),
            addr == old(self).spec_sp() - CONTEXT_SIZE,
    {
        let bytes: Vec<u8> = cx.to_bytes();
        self.push_record(bytes.as_slice())
    }

    /// A copy of the `len` bytes that the stack holds from address `addr` on.
    pub fn read(&self, addr: usize, len: usize) -> (out: Vec<u8>)
        requires
            self.wf(),
            self.spec_base() <= addr,
            addr + len <= self.spec_sp(),
        ensures
            out@ == self.slice(addr as int, len as int),
    {
        self.data.read(addr, len)
    }

    /// The context that lies at address `addr` of the stack.
    pub fn read_context(&self, addr: usize) -> (cx: TrapContext)
        requires
            self.wf(),
            self.spec_base() <= addr,
            addr + CONTEXT_SIZE <= self.spec_sp(),
        ensures
            decodes_to(self.slice(addr as int, CONTEXT_SIZE as int), cx),
    {
        let bytes: Vec<u8> = self.data.read(addr, CONTEXT_SIZE);
        TrapContext::from_bytes(bytes.as_slice())
    }
}

/// A context that was pushed onto a kernel stack and is read back from the
/// address that the push returned is the context that was pushed.
pub proof fn lemma_pushed_context_reads_back(
    before: KernelStack,
    after: KernelStack,
    cx: TrapContext,
    addr: int,
    back: TrapContext,
)
    requires
        after.pushed(before, cx.encoding(), addr),
        decodes_to(after.slice(addr, CONTEXT_SIZE as int), back),
    ensures
        back == cx,
{
    cx.lemma_round_trip(back);
}

/// The context of a fresh application, built from an entry address and a
/// stack pointer, pushed onto a kernel stack and read back from the address
/// that the push returned, holds that entry address and that stack pointer,
/// and it returns to user mode.
pub proof fn lemma_initial_context_reads_back(
    before: KernelStack,
    after: KernelStack,
    entry: usize,
    sp: usize,
    addr: int,
    back: TrapContext,
)
    requires
        after.pushed(before, initial_encoding(entry, sp), addr),
        decodes_to(after.slice(addr, CONTEXT_SIZE as int), back),
    ensures
        back.is_initial(entry, sp),
        back.sepc == entry,
        back.x@[STACK_POINTER as int] == sp,
        back.returns_to_user(),
{
    let bytes = initial_encoding(entry, sp);
    assert forall|k: int| 0 <= k < CONTEXT_WORDS implies back.word(k) == initial_word(
        entry,
        sp,
        k,
    ) by {
        let w = initial_word(entry, sp, k);
        lemma_word_bytes_len(w);
        assert(bytes.subrange(8 * k, 8 * k + 8) =~= word_bytes(w));
        lemma_word_round_trip(bytes, k, w);
    }
    assert(back.word(32) == 0);
    assert(back.word(33) == entry);
    assert forall|i: int| 0 <= i < 32 implies #[trigger] back.x@[i] == (if i == STACK_POINTER {
        sp
    } else {
        0
    }) by {
        assert(back.word(i) == initial_word(entry, sp, i));
    }
    assert(0u64 & 0x100u64 == 0) by (bit_vector);
}

impl UserStack {
    /// Lowest address of the stack.
    pub closed spec fn spec_base(&self) -> int {
        self.data.spec_base()
    }

    /// The stack has its fixed size, begins on a page boundary and does not
    /// wrap around the end of the address space.
    pub closed spec fn wf(&self) -> bool {
        &&& self.data.wf()
        &&& self.data.bytes().len() == USER_STACK_SIZE
        &&& self.data.spec_base() % (PAGE_SIZE as int) == 0
    }

    /// The address just above the stack, where an empty stack's pointer stands.
    pub open spec fn spec_sp(&self) -> int {
        self.spec_base() + USER_STACK_SIZE
    }

    /// The top of a wellformed stack is an address.
    pub proof fn lemma_size(&self)
        requires
            self.wf(),
        ensures
            self.spec_sp() <= usize::MAX,
    {
    }

    /// A zero-filled stack whose lowest address is `base`.
    pub fn new(base: usize) -> (s: UserStack)
        requires
            base % PAGE_SIZE == 0,
            base + USER_STACK_SIZE <= usize::MAX,
        ensures
            s.wf(),
            s.spec_base() == base,
    {
        UserStack { data: Region::new(base, USER_STACK_SIZE) }
    }

    /// The address just above the stack.
    pub fn get_sp(&self) -> (sp: usize)
        requires
            self.wf(),
        ensures
            sp == self.spec_sp(),
    {
        self.data.base() + USER_STACK_SIZE
    }
}

/// The stacks of all slots: for each slot one kernel stack and one user
/// stack, which no other slot uses.
pub struct StackPool {
    kernel: Vec<KernelStack>,
    user: Vec<UserStack>,
}

impl StackPool {
    /// Number of slots that the pool serves.
    pub closed spec fn slots(&self) -> int {
        self.kernel@.len() as int
    }

    /// The kernel stack of slot `i`.
    pub closed spec fn kernel_at(&self, i: int) -> KernelStack {
        self.kernel@[i]
    }

    /// The user stack of slot `i`.
    pub closed spec fn user_at(&self, i: int) -> UserStack {
        self.user@[i]
    }

    /// Every slot has its pair of wellformed stacks.
    pub closed spec fn wf(&self) -> bool {
        &&& self.kernel@.len() == self.user@.len()
        &&& self.kernel@.len() <= MAX_APP_NUM
        &&& forall|i: int| 0 <= i < self.kernel@.len() ==> (#[trigger] self.kernel@[i]).wf()
        &&& forall|i: int| 0 <= i < self.user@.len() ==> (#[trigger] self.user@[i]).wf()
    }

    /// In a wellformed pool the stacks of every slot are wellformed.
    pub proof fn lemma_slot_wf(&self, i: int)
        requires
            self.wf(),
            0 <= i < self.slots(),
        ensures
            self.slots() <= MAX_APP_NUM,
            self.kernel_at(i).wf(),
            self.user_at(i).wf(),
    {
    }

    /// A pool of `slots` zero-filled stack pairs. The kernel stacks lie one
    /// after another from `kernel_base` on, the user stacks from `user_base` on.
    pub fn new(kernel_base: usize, user_base: usize, slots: usize) -> (pool: StackPool)
        requires
            slots <= MAX_APP_NUM,
            kernel_base % PAGE_SIZE == 0,
            user_base % PAGE_SIZE == 0,
            kernel_base + slots * KERNEL_STACK_SIZE <= usize::MAX,
            user_base + slots * USER_STACK_SIZE <= usize::MAX,
        ensures
            pool.wf(),
            pool.slots() == slots,
            forall|i: int|
                0 <= i < slots ==> (#[trigger] pool.kernel_at(i)).spec_base() == kernel_base + i
                    * KERNEL_STACK_SIZE,
            forall|i: int|
                0 <= i < slots ==> (#[trigger] pool.kernel_at(i)).bytes() == crate::region::zeros(
                    KERNEL_STACK_SIZE as int,
                ),
            forall|i: int|
                0 <= i < slots ==> (#[trigger] pool.user_at(i)).spec_base() == user_base + i
                    * USER_STACK_SIZE,
    {
        let mut kernel: Vec<KernelStack> = Vec::new();
        let mut user: Vec<UserStack> = Vec::new();
        let mut i: usize = 0;
        while i < slots
            invariant
                i <= slots,
                slots <= MAX_APP_NUM,
                kernel_base % PAGE_SIZE == 0,
                user_base % PAGE_SIZE == 0,
                kernel_base + slots * KERNEL_STACK_SIZE <= usize::MAX,
                user_base + slots * USER_STACK_SIZE <= usize::MAX,
                kernel@.len() == i,
                user@.len() == i,
                forall|j: int| 0 <= j < i ==> (#[trigger] kernel@[j]).wf(),
                forall|j: int| 0 <= j < i ==> (#[trigger] user@[j]).wf(),
                forall|j: int|
                    0 <= j < i ==> (#[trigger] kernel@[j]).spec_base() == kernel_base + j
                        * KERNEL_STACK_SIZE,
                forall|j: int|
                    0 <= j < i ==> (#[trigger] kernel@[j]).bytes() == crate::region::zeros(
                        KERNEL_STACK_SIZE as int,
                    ),
                forall|j: int|
                    0 <= j < i ==> (#[trigger] user@[j]).spec_base() == user_base + j
                        * USER_STACK_SIZE,
            decreases slots - i,
        {
            let kb: usize = kernel_base + i * KERNEL_STACK_SIZE;
            let ub: usize = user_base + i * USER_STACK_SIZE;
            kernel.push(KernelStack::new(kb));
            user.push(UserStack::new(ub));
            i += 1;
        }
        StackPool { kernel, user }
    }

    /// Number of slots that the pool serves.
    pub fn slot_count(&self) -> (n: usize)
        ensures
            n == self.slots(),
    {
        self.kernel.len()
    }

    /// The address just above the kernel stack of slot `slot_id`.
    pub fn kernel_sp(&self, slot_id: usize) -> (sp: usize)
        requires
            self.wf(),
            slot_id < self.slots(),
        ensures
            sp == self.kernel_at(slot_id as int).spec_sp(),
    {
        self.kernel[slot_id].get_sp()
    }

    /// The address just above the user stack of slot `slot_id`.
    pub fn user_sp(&self, slot_id: usize) -> (sp: usize)
        requires
            self.wf(),
            slot_id < self.slots(),
        ensures
            sp == self.user_at(slot_id as int).spec_sp(),
    {
        self.user[slot_id].get_sp()
    }

    /// Copies `cx` onto the top of the kernel stack of slot `slot_id` and
    /// returns the address of the copy. No other stack changes.
    pub fn push_context(&mut self, slot_id: usize, cx: TrapContext) -> (addr: usize)
        requires
            old(self).wf(),
            slot_id < old(self).slots(),
        ensures
            final(self).wf(),
            final(self).slots() == old(self).slots(),
            final(self).kernel_at(slot_id as int).pushed(
                old(self).kernel_at(slot_id as int),
                cx.encoding(),
                addr as int,
            ),
            addr == old(self).kernel_at(slot_id as int).spec_sp() - CONTEXT_SIZE,
            forall|j: int|
                0 <= j < old(self).slots() && j != slot_id ==> final(self).kernel_at(j) == old(
                    self,
                ).kernel_at(j),
            forall|j: int| 0 <= j < old(self).slots() ==> final(self).user_at(j) == old(self).user_at(j),
    {
        let stack: &mut KernelStack = &mut self.kernel[slot_id];
        stack.push_context(cx)
    }

    /// The context that lies at address `addr` of the kernel stack of slot
    /// `slot_id`.
    pub fn read_context(&self, slot_id: usize, addr: usize) -> (cx: TrapContext)
        requires
            self.wf(),
            slot_id < self.slots(),
            self.kernel_at(slot_id as int).spec_base() <= addr,
            addr + CONTEXT_SIZE <= self.kernel_at(slot_id as int).spec_sp(),
        ensures
            decodes_to(self.kernel_at(slot_id as int).slice(addr as int, CONTEXT_SIZE as int), cx),
    {
        self.kernel[slot_id].read_context(addr)
    }
}

} // verus!
