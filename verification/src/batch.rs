//! Running the embedded applications one after another in a single slot.

use crate::config::{APP_BASE_ADDRESS, APP_SIZE_LIMIT};
use crate::console::{decimal, hexadecimal, push_decimal, push_hexadecimal, push_text};
use crate::context::{initial_encoding, TrapContext, CONTEXT_SIZE};
use crate::image::ImageTable;
use crate::loader::{load_slot, loaded};
use crate::region::Region;
use crate::stack::{KernelStack, UserStack};
use vstd::prelude::*;
use vstd::string::StringSliceAdditionalSpecFns;

verus! {

/// What a load request came to.
#[derive(Clone, Copy, Debug, PartialEq, Eq, Structural)]
pub enum LoadResult {
    /// The application lies in the slot. An instruction fence must follow
    /// before the slot is executed.
    Loaded,
    /// There is no such application: all of them have run.
    Exhausted,
}

/// What the kernel does next when it is entered from boot or from a trap
/// that ended an application.
#[derive(Clone, Copy, Debug, PartialEq, Eq, Structural)]
pub enum NextStep {
    /// Application `app_id` lies in the slot and its context lies at
    /// `cx_addr` on the kernel stack: issue an instruction fence, then enter
    /// user mode from that context.
    Enter { app_id: usize, cx_addr: usize },
    /// Every application has run: power the machine off.
    Shutdown { failure: bool },
}

/// The first line of the boot report: how many applications there are.
pub open spec fn count_line(n: nat) -> Seq<u8> {
    "[kernel] num_app = ".spec_bytes() + decimal(n) + "\n".spec_bytes()
}

/// The line of the boot report for application `id`, whose bytes lie from
/// address `start` up to address `end` in the kernel image.
pub open spec fn app_line(id: nat, start: nat, end: nat) -> Seq<u8> {
    "[kernel] app_".spec_bytes() + decimal(id) + " [".spec_bytes() + hexadecimal(start)
        + ", ".spec_bytes() + hexadecimal(end) + ")\n".spec_bytes()
}

/// The lines of the boot report for the first `n` applications of `table`.
pub open spec fn app_lines(table: ImageTable, n: nat) -> Seq<u8>
    decreases n,
{
    if n == 0 {
        Seq::empty()
    } else {
        app_lines(table, (n - 1) as nat) + app_line(
            (n - 1) as nat,
            table.spec_range(n - 1).0 as nat,
            table.spec_range(n - 1).1 as nat,
        )
    }
}

/// The boot report of `table`: the number of applications, then one line
/// for each of them, in order.
pub open spec fn report_text(table: ImageTable) -> Seq<u8> {
    count_line(table.spec_count() as nat) + app_lines(table, table.spec_count() as nat)
}

/// The line the kernel writes to the console when it takes `step`.
pub open spec fn step_text(step: NextStep) -> Seq<u8> {
    match step {
        NextStep::Enter { app_id, .. } => "[kernel] Loading app_".spec_bytes() + decimal(
            app_id as nat,
        ) + "\n".spec_bytes(),
        NextStep::Shutdown { .. } => "All applications completed!\n".spec_bytes(),
    }
}

/// The line the kernel writes to the console when it takes `step`.
pub fn step_message(step: NextStep) -> (out: Vec<u8>)
    ensures
        out@ == step_text(step),
{
    let mut out: Vec<u8> = Vec::new();
    match step {
        NextStep::Enter { app_id, .. } => {
            push_text(&mut out, "[kernel] Loading app_");
            push_decimal(&mut out, app_id);
            push_text(&mut out, "\n");
        },
        NextStep::Shutdown { .. } => {
            push_text(&mut out, "All applications completed!\n");
        },
    }
    assert(out@ =~= step_text(step));
    out
}

/// The index that follows `current` once the application at `current`, if
/// there is one among `count`, has been dispatched.
pub open spec fn next_index(current: int, count: int) -> int {
    if current < count {
        current + 1
    } else {
        current
    }
}

/// The application that is dispatched when the index stands at `current`,
/// or `None` where the machine shuts down instead.
pub open spec fn dispatched(current: int, count: int) -> Option<int> {
    if current < count {
        Some(current)
    } else {
        None
    }
}

/// The index after the kernel has been entered `steps` times since boot.
pub open spec fn index_after(steps: nat, count: int) -> int
    decreases steps,
{
    if steps == 0 {
        0
    } else {
        next_index(index_after((steps - 1) as nat, count), count)
    }
}

/// Applications are dispatched in the order `0, 1, .., count - 1`: the entry
/// number `steps` dispatches application `steps` while there is one, and the
/// index never goes back and never passes `count`.
pub proof fn lemma_dispatch_order(steps: nat, count: int)
    requires
        0 <= count,
    ensures
        index_after(steps, count) == (if steps <= count {
            steps as int
        } else {
            count
        }),
        index_after(steps, count) <= index_after(steps + 1, count) <= count,
        steps < count ==> dispatched(index_after(steps, count), count) == Some(steps as int),
        steps < count ==> index_after(steps + 1, count) == index_after(steps, count) + 1,
    decreases steps,
{
    if steps > 0 {
        lemma_dispatch_order((steps - 1) as nat, count);
    }
    assert(index_after(steps + 1, count) == next_index(index_after(steps, count), count));
}

/// Once every application has been dispatched, each further entry shuts the
/// machine down and loads nothing.
pub proof fn lemma_shutdown_after_last(steps: nat, count: int)
    requires
        0 <= count <= steps,
    ensures
        index_after(steps, count) == count,
        dispatched(index_after(steps, count), count) is None,
{
    lemma_dispatch_order(steps, count);
}

/// The run manager: the embedded applications and the index of the one that
/// runs next.
pub struct AppManager {
    table: ImageTable,
    current_app: usize,
}

impl AppManager {
    /// The embedded applications.
    pub closed spec fn spec_table(&self) -> ImageTable {
        self.table
    }

    /// Index of the application that runs next.
    pub closed spec fn spec_current(&self) -> int {
        self.current_app as int
    }

    /// Number of embedded applications.
    pub open spec fn spec_num_app(&self) -> int {
        self.spec_table().spec_count()
    }

    /// The table has no defect and the index has not passed its end.
    pub open spec fn wf(&self) -> bool {
        &&& self.spec_table().wf()
        &&& 0 <= self.spec_current() <= self.spec_num_app()
    }

    /// The manager at boot: no application has run yet.
    pub fn new(table: ImageTable) -> (m: AppManager)
        requires
            table.wf(),
        ensures
            m.wf(),
            m.spec_table() == table,
            m.spec_current() == 0,
    {
        AppManager { table, current_app: 0 }
    }

    /// Number of embedded applications.
    pub fn num_app(&self) -> (n: usize)
        ensures
            n == self.spec_num_app(),
    {
        self.table.application_count()
    }

    /// The boot report as console text: the number of applications, then
    /// one line for each of them with its address range in the kernel image.
    pub fn print_app_info(&self) -> (out: Vec<u8>)
        requires
            self.wf(),
        ensures
            out@ == report_text(self.spec_table()),
    {
        let n: usize = self.table.application_count();
        let mut out: Vec<u8> = Vec::new();
        push_text(&mut out, "[kernel] num_app = ");
        push_decimal(&mut out, n);
        push_text(&mut out, "\n");
        assert(out@ =~= count_line(n as nat));
        let mut i: usize = 0;
        while i < n
            invariant
                i <= n,
                n == self.spec_num_app(),
                self.wf(),
                out@ == count_line(n as nat) + app_lines(self.spec_table(), i as nat),
            decreases n - i,
        {
            let ghost before = out@;
            let (start, end) = self.table.image_range(i);
            push_text(&mut out, "[kernel] app_");
            push_decimal(&mut out, i);
            push_text(&mut out, " [");
            push_hexadecimal(&mut out, start);
            push_text(&mut out, ", ");
            push_hexadecimal(&mut out, end);
            push_text(&mut out, ")\n");
            assert(out@ =~= before + app_line(i as nat, start as nat, end as nat));
            i += 1;
            assert(out@ =~= count_line(n as nat) + app_lines(self.spec_table(), i as nat));
        }
        out
    }

    /// Loads application `app_id` into the shared slot, which begins at
    /// `APP_BASE_ADDRESS`, or reports that there is no such application and
    /// leaves memory as it is.
    pub fn load_app(&self, app_id: usize, memory: &mut Region) -> (r: LoadResult)
        requires
            self.wf(),
            old(memory).wf(),
            old(memory).covers(APP_BASE_ADDRESS as int, APP_SIZE_LIMIT as int),
        ensures
            final(memory).wf(),
            app_id >= self.spec_num_app() ==> r == LoadResult::Exhausted && *final(memory) == *old(
                memory,
            ),
            app_id < self.spec_num_app() ==> r == LoadResult::Loaded && loaded(
                *old(memory),
                *final(memory),
                APP_BASE_ADDRESS as int,
                self.spec_table(),
                app_id as int,
            ),
    {
        if app_id >= self.table.application_count() {
            return LoadResult::Exhausted;
        }
        load_slot(&self.table, app_id, memory, APP_BASE_ADDRESS);
        LoadResult::Loaded
    }

    /// Index of the application that runs next.
    pub fn get_current_app(&self) -> (id: usize)
        ensures
            id == self.spec_current(),
    {
        self.current_app
    }

    /// Moves on to the application after the current one.
    pub fn move_to_next_app(&mut self)
        requires
            old(self).wf(),
            old(self).spec_current() < old(self).spec_num_app(),
        ensures
            final(self).wf(),
            final(self).spec_table() == old(self).spec_table(),
            final(self).spec_current() == old(self).spec_current() + 1,
    {
        self.current_app += 1;
    }
}

/// Enters the kernel's dispatch step, at boot and each time an application
/// has ended or faulted. While an application is left, it is loaded into the
/// shared slot, a fresh context that starts it at the slot's first address on
/// the user stack's top is pushed onto the kernel stack, and the index moves
/// on by one. Once none is left, nothing changes and the machine is to be
/// shut down without a failure.
pub fn run_next_app(
    manager: &mut AppManager,
    memory: &mut Region,
    kernel_stack: &mut KernelStack,
    user_stack: &UserStack,
) -> (step: NextStep)
    requires
        old(manager).wf(),
        old(memory).wf(),
        old(memory).covers(APP_BASE_ADDRESS as int, APP_SIZE_LIMIT as int),
        old(kernel_stack).wf(),
        user_stack.wf(),
    ensures
        final(manager).wf(),
        final(memory).wf(),
        final(kernel_stack).wf(),
        final(manager).spec_table() == old(manager).spec_table(),
        final(manager).spec_current() == next_index(
            old(manager).spec_current(),
            old(manager).spec_num_app(),
        ),
        match dispatched(old(manager).spec_current(), old(manager).spec_num_app()) {
            Some(id) => {
                &&& step == (NextStep::Enter {
                    app_id: id as usize,
                    cx_addr: (old(kernel_stack).spec_sp() - CONTEXT_SIZE) as usize,
                })
                &&& loaded(
                    *old(memory),
                    *final(memory),
                    APP_BASE_ADDRESS as int,
                    old(manager).spec_table(),
                    id,
                )
                &&& final(kernel_stack).pushed(
                    *old(kernel_stack),
                    initial_encoding(APP_BASE_ADDRESS, user_stack.spec_sp() as usize),
                    old(kernel_stack).spec_sp() - CONTEXT_SIZE,
                )
            },
            None => {
                &&& step == (NextStep::Shutdown { failure: false })
                &&& *final(memory) == *old(memory)
                &&& *final(kernel_stack) == *old(kernel_stack)
            },
        },
{
    let current_app: usize = manager.get_current_app();
    match manager.load_app(current_app, memory) {
        LoadResult::Exhausted => NextStep::Shutdown { failure: false },
        LoadResult::Loaded => {
            manager.move_to_next_app();
            proof {
                user_stack.lemma_size();
                kernel_stack.lemma_size();
            }
            let cx: TrapContext = TrapContext::app_init_context(
                APP_BASE_ADDRESS,
                user_stack.get_sp(),
            );
            let cx_addr: usize = kernel_stack.push_context(cx);
            NextStep::Enter { app_id: current_app, cx_addr }
        },
    }
}

/// Sets the batch subsystem up at boot and returns the boot report to write
/// to the console.
pub fn init(manager: &AppManager) -> (out: Vec<u8>)
    requires
        manager.wf(),
    ensures
        out@ == report_text(manager.spec_table()),
{
    print_app_info(manager)
}

/// The boot report of `manager` as console text.
pub fn print_app_info(manager: &AppManager) -> (out: Vec<u8>)
    requires
        manager.wf(),
    ensures
        out@ == report_text(manager.spec_table()),
{
    manager.print_app_info()
}

} // verus!
