//! Placing applications into their slots and preparing their first entry.

use crate::config::{get_base_i, slot_base, APP_BASE_ADDRESS, APP_SIZE_LIMIT, MAX_APP_NUM};
use crate::context::{initial_encoding, TrapContext, CONTEXT_SIZE};
use crate::image::ImageTable;
use crate::region::{zeros, Region};
use crate::stack::StackPool;
use vstd::prelude::*;

verus! {

/// The slot that begins at address `base` in `memory` holds application `id`
/// and nothing else: the application's bytes, then zeros to the slot's end.
pub open spec fn slot_holds(memory: Region, base: int, table: ImageTable, id: int) -> bool {
    memory.slice(base, APP_SIZE_LIMIT as int) == table.slot_image(id)
}

/// `after` is `before` with application `id` loaded into the slot at `base`:
/// the slot holds the application and nothing else, and memory outside the
/// slot is as it was.
pub open spec fn loaded(before: Region, after: Region, base: int, table: ImageTable, id: int) -> bool {
    &&& after.spec_base() == before.spec_base()
    &&& after.bytes().len() == before.bytes().len()
    &&& slot_holds(after, base, table, id)
    &&& forall|k: int|
        0 <= k < before.bytes().len() && !(base - before.spec_base() <= k < base
            - before.spec_base() + APP_SIZE_LIMIT) ==> after.bytes()[k] == before.bytes()[k]
}

/// A loaded slot begins with the application's bytes, and every byte after
/// them, up to the slot's end, is zero.
pub proof fn lemma_loaded_slot_contents(memory: Region, base: int, table: ImageTable, id: int)
    requires
        table.wf(),
        0 <= id < table.spec_count(),
        memory.covers(base, APP_SIZE_LIMIT as int),
        slot_holds(memory, base, table, id),
    ensures
        memory.slice(base, table.app_len(id)) == table.app_bytes(id),
        forall|a: int|
            base + table.app_len(id) <= a < base + APP_SIZE_LIMIT ==> #[trigger] memory.byte_at(a)
                == 0u8,
{
    table.lemma_app_in_image(id);
    let slot = memory.slice(base, APP_SIZE_LIMIT as int);
    let len = table.app_len(id);
    assert(memory.slice(base, len) =~= slot.subrange(0, len));
    assert(slot.subrange(0, len) =~= table.app_bytes(id));
    assert forall|a: int| base + len <= a < base + APP_SIZE_LIMIT implies #[trigger] memory.byte_at(
        a,
    ) == 0u8 by {
        assert(memory.byte_at(a) == slot[a - base]);
        assert(table.slot_image(id)[a - base] == zeros(APP_SIZE_LIMIT - len)[a - base - len]);
    }
}

/// What a slot holds after a load does not depend on what it held before:
/// loading application `next` over a slot in which another application was
/// loaded gives the same slot as loading it into any other memory.
pub proof fn lemma_no_residue(
    table: ImageTable,
    base: int,
    first: int,
    next: int,
    m0: Region,
    m1: Region,
    m2: Region,
    fresh: Region,
    fresh_loaded: Region,
)
    requires
        loaded(m0, m1, base, table, first),
        loaded(m1, m2, base, table, next),
        loaded(fresh, fresh_loaded, base, table, next),
    ensures
        m2.slice(base, APP_SIZE_LIMIT as int) == fresh_loaded.slice(base, APP_SIZE_LIMIT as int),
        m2.slice(base, APP_SIZE_LIMIT as int) == table.slot_image(next),
{
}

/// Number of embedded applications.
pub fn get_num_app(table: &ImageTable) -> (n: usize)
    ensures
        n == table.spec_count(),
{
    table.application_count()
}

/// Loads application `id` into the slot that begins at address `base`: the
/// whole slot is set to zero, then the application's bytes are copied to its
/// start. An instruction fence must follow before the copy is executed.
pub fn load_slot(table: &ImageTable, id: usize, memory: &mut Region, base: usize)
    requires
        table.wf(),
        id < table.spec_count(),
        old(memory).wf(),
        old(memory).covers(base as int, APP_SIZE_LIMIT as int),
    ensures
        final(memory).wf(),
        loaded(*old(memory), *final(memory), base as int, *table, id as int),
{
    proof {
        table.lemma_app_in_image(id as int);
    }
    memory.zero(base, APP_SIZE_LIMIT);
    let ghost zeroed = *memory;
    let src: &[u8] = table.app_image(id);
    memory.write(base, src);
    proof {
        let len = table.app_len(id as int);
        let off = base - memory.spec_base();
        assert(memory.slice(base as int, APP_SIZE_LIMIT as int) =~= table.slot_image(id as int)) by {
            assert forall|k: int| 0 <= k < APP_SIZE_LIMIT implies memory.slice(
                base as int,
                APP_SIZE_LIMIT as int,
            )[k] == table.slot_image(id as int)[k] by {
                if k < len {
                    assert(memory.slice(base as int, len)[k] == src@[k]);
                } else {
                    assert(memory.bytes()[off + k] == zeroed.bytes()[off + k]);
                    assert(zeroed.slice(base as int, APP_SIZE_LIMIT as int)[k] == 0u8);
                }
            }
        }
    }
}

/// Loads every embedded application into its own slot, application `i` into
/// the slot at `get_base_i(i)`. An instruction fence must follow before any
/// of the copies is executed.
pub fn load_apps(table: &ImageTable, memory: &mut Region)
    requires
        table.wf(),
        old(memory).wf(),
        old(memory).covers(APP_BASE_ADDRESS as int, table.spec_count() * APP_SIZE_LIMIT),
    ensures
        final(memory).wf(),
        final(memory).spec_base() == old(memory).spec_base(),
        final(memory).bytes().len() == old(memory).bytes().len(),
        forall|i: int|
            0 <= i < table.spec_count() ==> #[trigger] slot_holds(
                *final(memory),
                slot_base(i),
                *table,
                i,
            ),
        forall|k: int|
            0 <= k < old(memory).bytes().len() && !(APP_BASE_ADDRESS - old(memory).spec_base() <= k
                < APP_BASE_ADDRESS - old(memory).spec_base() + table.spec_count() * APP_SIZE_LIMIT)
                ==> final(memory).bytes()[k] == old(memory).bytes()[k],
{
    let num_app: usize = get_num_app(table);
    let mut i: usize = 0;
    while i < num_app
        invariant
            i <= num_app,
            num_app == table.spec_count(),
            num_app <= MAX_APP_NUM,
            table.wf(),
            memory.wf(),
            memory.spec_base() == old(memory).spec_base(),
            memory.bytes().len() == old(memory).bytes().len(),
            memory.covers(APP_BASE_ADDRESS as int, num_app * APP_SIZE_LIMIT),
            forall|j: int| 0 <= j < i ==> #[trigger] slot_holds(*memory, slot_base(j), *table, j),
            forall|k: int|
                0 <= k < memory.bytes().len() && !(APP_BASE_ADDRESS - memory.spec_base() <= k
                    < APP_BASE_ADDRESS - memory.spec_base() + i * APP_SIZE_LIMIT)
                    ==> memory.bytes()[k] == old(memory).bytes()[k],
        decreases num_app - i,
    {
        let base_i: usize = get_base_i(i);
        let ghost before = *memory;
        load_slot(table, i, memory, base_i);
        proof {
            assert forall|j: int| 0 <= j < i implies #[trigger] slot_holds(
                *memory,
                slot_base(j),
                *table,
                j,
            ) by {
                assert(slot_holds(before, slot_base(j), *table, j));
                assert(memory.slice(slot_base(j), APP_SIZE_LIMIT as int) =~= before.slice(
                    slot_base(j),
                    APP_SIZE_LIMIT as int,
                ));
            }
        }
        i += 1;
    }
}

/// Prepares the first entry of application `app_id`, which lies in its own
/// slot: builds the context that starts it at the slot's first address with
/// the stack pointer at the top of its user stack, pushes the context onto
/// its kernel stack, and returns the address of the pushed context.
pub fn init_app_cx(pool: &mut StackPool, app_id: usize) -> (addr: usize)
    requires
        old(pool).wf(),
        app_id < old(pool).slots(),
    ensures
        final(pool).wf(),
        final(pool).slots() == old(pool).slots(),
        addr == old(pool).kernel_at(app_id as int).spec_sp() - CONTEXT_SIZE,
        final(pool).kernel_at(app_id as int).pushed(
            old(pool).kernel_at(app_id as int),
            initial_encoding(
                slot_base(app_id as int) as usize,
                old(pool).user_at(app_id as int).spec_sp() as usize,
            ),
            addr as int,
        ),
        forall|j: int|
            0 <= j < old(pool).slots() && j != app_id ==> final(pool).kernel_at(j) == old(
                pool,
            ).kernel_at(j),
        forall|j: int| 0 <= j < old(pool).slots() ==> final(pool).user_at(j) == old(pool).user_at(j),
{
    proof {
        pool.lemma_slot_wf(app_id as int);
        pool.user_at(app_id as int).lemma_size();
    }
    let entry: usize = get_base_i(app_id);
    let sp: usize = pool.user_sp(app_id);
    let cx: TrapContext = TrapContext::app_init_context(entry, sp);
    let addr: usize = pool.push_context(app_id, cx);
    addr
}

} // verus!
