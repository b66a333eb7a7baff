//! The interpreter of compiled modules, as a machine that runs one
//! instruction per step.
//!
//! Functions share one value stack; each running function has a frame with
//! its instruction index and local slots. A step that needs work the library
//! leaves to its caller (floating-point arithmetic, printing, formatting)
//! says so in its result; the caller does that work and hands the resulting
//! value back with `push_value`.
use vstd::prelude::*;
use crate::ast::{BinaryOp, BuiltinFunction, UnaryOp};
use crate::errors::RuntimeError;
use crate::function::{InternalFunctionSource, SourceView};
use crate::instruction::{Instruction, InstructionView};
use crate::module::Module;
use crate::ast::BuiltinOutcome;
use crate::value::{Computed, ComputedView, FloatOp, Value, ValueView, assert_all, spec_binary, spec_unary, values_view};

verus! {

/// A running function as plain data.
pub struct FrameView {
    /// The slot of the function in the module.
    pub function: int,
    /// The index of the next instruction.
    pub index: int,
    pub slots: Seq<ValueView>,
}

/// The machine as plain data: the shared value stack and the frames, the
/// running function's last.
pub struct MachineView {
    pub stack: Seq<ValueView>,
    pub frames: Seq<FrameView>,
}

/// What a step gives as plain data.
pub enum StepView {
    /// The step is done; go on.
    Continue,
    /// The first function returned this value; the machine has stopped.
    Finished(ValueView),
    /// The caller computes this floating-point operation and pushes its result.
    NeedsFloat { op: FloatOp, lhs: u64, rhs: u64 },
    /// The caller prints these values and pushes `Void`.
    Print(Seq<ValueView>),
    /// The caller formats these values into one string and pushes it.
    Format(Seq<ValueView>),
}

/// The binary operator an instruction applies, if any.
pub open spec fn binary_op_of(i: InstructionView) -> Option<BinaryOp> {
    match i {
        InstructionView::Add => Some(BinaryOp::Add),
        InstructionView::Sub => Some(BinaryOp::Sub),
        InstructionView::Mul => Some(BinaryOp::Mul),
        InstructionView::Div => Some(BinaryOp::Div),
        InstructionView::Modulo => Some(BinaryOp::Modulo),
        InstructionView::Equal => Some(BinaryOp::Equal),
        InstructionView::NotEqual => Some(BinaryOp::NotEqual),
        InstructionView::Less => Some(BinaryOp::Less),
        InstructionView::LessEqual => Some(BinaryOp::LessEqual),
        InstructionView::Greater => Some(BinaryOp::Greater),
        InstructionView::GreaterEqual => Some(BinaryOp::GreaterEqual),
        InstructionView::And => Some(BinaryOp::And),
        InstructionView::Or => Some(BinaryOp::Or),
        _ => None,
    }
}

pub open spec fn unary_op_of(i: InstructionView) -> Option<UnaryOp> {
    match i {
        InstructionView::Not => Some(UnaryOp::Not),
        InstructionView::Negate => Some(UnaryOp::Negate),
        _ => None,
    }
}

/// The slots and calls of an instruction stay within a function's slot
/// count and the module's functions.
pub open spec fn instruction_wf(srcs: Seq<SourceView>, slot_count: usize, i: InstructionView) -> bool {
    match i {
        InstructionView::Store { slot } => slot < slot_count,
        InstructionView::LoadCopy { slot } => slot < slot_count,
        InstructionView::Call { call_slot } => call_slot < srcs.len(),
        _ => true,
    }
}

/// Every instruction of every function is well formed.
pub open spec fn code_wf(srcs: Seq<SourceView>) -> bool {
    forall|f: int, k: int|
        0 <= f < srcs.len() && 0 <= k < srcs[f].body.len() ==> instruction_wf(srcs, srcs[f].slot_count, #[trigger] srcs[f].body[k])
}

/// Each frame runs a function of the module and has one slot per local.
pub open spec fn machine_wf(srcs: Seq<SourceView>, m: MachineView) -> bool {
    forall|j: int|
        0 <= j < m.frames.len() ==> 0 <= (#[trigger] m.frames[j]).function < srcs.len() && m.frames[j].index >= 0
            && m.frames[j].slots.len() == srcs[m.frames[j].function].slot_count
            && (j < m.frames.len() - 1 ==> m.frames[j].index < usize::MAX)
}

/// A new frame for the function in slot `f`: every slot `Void`.
pub open spec fn new_frame(srcs: Seq<SourceView>, f: int) -> FrameView {
    FrameView { function: f, index: 0, slots: Seq::new(srcs[f].slot_count as nat, |k: int| ValueView::Void) }
}

/// The machine with its last frame replaced.
pub open spec fn with_frame(m: MachineView, f: FrameView) -> MachineView {
    MachineView { frames: m.frames.update(m.frames.len() - 1, f), ..m }
}

/// The machine with its stack replaced and the running function moved on
/// to its next instruction.
pub open spec fn advance(m: MachineView, stack: Seq<ValueView>) -> MachineView {
    let f = m.frames.last();
    MachineView { stack, frames: m.frames.update(m.frames.len() - 1, FrameView { index: f.index + 1, ..f }) }
}

/// The top `n` values of a stack, top first.
pub open spec fn top_values(s: Seq<ValueView>, n: int) -> Seq<ValueView> {
    Seq::new(n as nat, |i: int| s[s.len() - 1 - i])
}

/// A binary operator on the top two values: the lower one is its left
/// operand; the result, if the machine computes it, replaces both.
pub open spec fn spec_apply_bin_op(op: BinaryOp, m: MachineView) -> (Result<StepView, RuntimeError>, MachineView) {
    let s = m.stack;
    let n = s.len() as int;
    if n < 2 {
        (Err(RuntimeError::ValueStackUnderflow), m)
    } else {
        let rest = s.subrange(0, n - 2);
        match spec_binary(op, s[n - 2], s[n - 1]) {
            Err(e) => (Err(e), MachineView { stack: rest, ..m }),
            Ok(ComputedView::Value(v)) => (Ok(StepView::Continue), advance(m, rest.push(v))),
            Ok(ComputedView::NeedsFloat { op, lhs, rhs }) => (Ok(StepView::NeedsFloat { op, lhs, rhs }), advance(m, rest)),
        }
    }
}

/// A unary operator on the top value; the result, if the machine computes
/// it, replaces it.
pub open spec fn spec_apply_un_op(op: UnaryOp, m: MachineView) -> (Result<StepView, RuntimeError>, MachineView) {
    let s = m.stack;
    let n = s.len() as int;
    if n == 0 {
        (Err(RuntimeError::ValueStackUnderflow), m)
    } else {
        let rest = s.drop_last();
        match spec_unary(op, s[n - 1]) {
            Err(e) => (Err(e), MachineView { stack: rest, ..m }),
            Ok(ComputedView::Value(v)) => (Ok(StepView::Continue), advance(m, rest.push(v))),
            Ok(ComputedView::NeedsFloat { op, lhs, rhs }) => (Ok(StepView::NeedsFloat { op, lhs, rhs }), advance(m, rest)),
        }
    }
}

/// One step of the running function: its next instruction. An instruction
/// the machine does not run is an `Unknown` error.
pub open spec fn spec_step(srcs: Seq<SourceView>, m: MachineView) -> (Result<StepView, RuntimeError>, MachineView) {
    let f = m.frames.last();
    let body = srcs[f.function].body;
    let s = m.stack;
    let n = s.len() as int;
    if f.index >= body.len() {
        (Err(RuntimeError::FunctionDidNotReturn), m)
    } else {
        let ins = body[f.index];
        match ins {
            InstructionView::LoadConst(v) => (Ok(StepView::Continue), advance(m, s.push(v))),
            InstructionView::Pop => if n == 0 {
                (Err(RuntimeError::ValueStackUnderflow), m)
            } else {
                (Ok(StepView::Continue), advance(m, s.drop_last()))
            },
            InstructionView::Store { slot } => if n == 0 {
                (Err(RuntimeError::ValueStackUnderflow), m)
            } else {
                (
                    Ok(StepView::Continue),
                    with_frame(
                        MachineView { stack: s.drop_last(), ..m },
                        FrameView { index: f.index + 1, slots: f.slots.update(slot as int, s.last()), ..f },
                    ),
                )
            },
            InstructionView::LoadCopy { slot } => (Ok(StepView::Continue), advance(m, s.push(f.slots[slot as int]))),
            InstructionView::Call { call_slot } => (
                Ok(StepView::Continue),
                MachineView { frames: m.frames.push(new_frame(srcs, call_slot as int)), ..m },
            ),
            InstructionView::Return => if n == 0 {
                (Err(RuntimeError::ValueStackUnderflow), m)
            } else if m.frames.len() == 1 {
                (Ok(StepView::Finished(s.last())), MachineView { stack: s.drop_last(), frames: Seq::empty() })
            } else {
                let caller = m.frames[m.frames.len() - 2];
                (
                    Ok(StepView::Continue),
                    MachineView {
                        stack: s,
                        frames: m.frames.drop_last().update(m.frames.len() - 2, FrameView { index: caller.index + 1, ..caller }),
                    },
                )
            },
            InstructionView::Jump(t) => (Ok(StepView::Continue), with_frame(m, FrameView { index: t as int, ..f })),
            InstructionView::JumpIfFalse(t) => if n == 0 {
                (Err(RuntimeError::ValueStackUnderflow), m)
            } else {
                let popped = MachineView { stack: s.drop_last(), ..m };
                match s.last() {
                    ValueView::Bool(b) => if !b {
                        (Ok(StepView::Continue), with_frame(popped, FrameView { index: t as int, ..f }))
                    } else {
                        (Ok(StepView::Continue), advance(m, s.drop_last()))
                    },
                    _ => (Err(RuntimeError::TypeError), popped),
                }
            },
            InstructionView::BuiltinFunctionCall { function, arg_count } => if n < arg_count {
                (Err(RuntimeError::ValueStackUnderflow), m)
            } else {
                let args = top_values(s, arg_count as int);
                let rest = s.subrange(0, n - arg_count);
                match function {
                    BuiltinFunction::Print => (Ok(StepView::Print(args)), advance(m, rest)),
                    BuiltinFunction::Format => (Ok(StepView::Format(args)), advance(m, rest)),
                    BuiltinFunction::Assert => match assert_all(args) {
                        Err(e) => (Err(e), MachineView { stack: rest, ..m }),
                        Ok(_) => (Ok(StepView::Continue), advance(m, rest.push(ValueView::Void))),
                    },
                }
            },
            _ => if let Some(op) = binary_op_of(ins) {
                spec_apply_bin_op(op, m)
            } else if let Some(op) = unary_op_of(ins) {
                spec_apply_un_op(op, m)
            } else {
                (Err(RuntimeError::Unknown), m)
            },
        }
    }
}

/// What a step gives.
#[derive(Debug)]
pub enum Step {
    Continue,
    Finished(Value),
    NeedsFloat { op: FloatOp, lhs: u64, rhs: u64 },
    Print(Vec<Value>),
    Format(Vec<Value>),
}

impl View for Step {
    type V = StepView;

    open spec fn view(&self) -> StepView {
        match self {
            Step::Continue => StepView::Continue,
            Step::Finished(v) => StepView::Finished(v@),
            Step::NeedsFloat { op, lhs, rhs } => StepView::NeedsFloat { op: *op, lhs: *lhs, rhs: *rhs },
            Step::Print(vs) => StepView::Print(values_view(vs@)),
            Step::Format(vs) => StepView::Format(values_view(vs@)),
        }
    }
}

pub open spec fn step_result(r: Result<Step, RuntimeError>) -> Result<StepView, RuntimeError> {
    match r {
        Ok(s) => Ok(s@),
        Err(e) => Err(e),
    }
}

/// A running function.
struct Frame {
    function: usize,
    index: usize,
    slots: Vec<Value>,
}

impl Frame {
    spec fn view(&self) -> FrameView {
        FrameView { function: self.function as int, index: self.index as int, slots: values_view(self.slots@) }
    }
}

/// `count` slots holding `Void`.
fn void_slots(count: usize) -> (v: Vec<Value>)
    ensures
        values_view(v@) == Seq::new(count as nat, |k: int| ValueView::Void),
{
    let mut v: Vec<Value> = Vec::new();
    let mut i: usize = 0;
    while i < count
        invariant
            i <= count,
            v@.len() == i,
            forall|k: int| 0 <= k < i ==> v@[k] == Value::Void,
        decreases count - i,
    {
        v.push(Value::Void);
        i = i + 1;
    }
    assert(values_view(v@) =~= Seq::new(count as nat, |k: int| ValueView::Void));
    v
}

fn binary_of(i: &Instruction) -> (r: Option<BinaryOp>)
    ensures
        r == binary_op_of(i@),
{
    match i {
        Instruction::Add => Some(BinaryOp::Add),
        Instruction::Sub => Some(BinaryOp::Sub),
        Instruction::Mul => Some(BinaryOp::Mul),
        Instruction::Div => Some(BinaryOp::Div),
        Instruction::Modulo => Some(BinaryOp::Modulo),
        Instruction::Equal => Some(BinaryOp::Equal),
        Instruction::NotEqual => Some(BinaryOp::NotEqual),
        Instruction::Less => Some(BinaryOp::Less),
        Instruction::LessEqual => Some(BinaryOp::LessEqual),
        Instruction::Greater => Some(BinaryOp::Greater),
        Instruction::GreaterEqual => Some(BinaryOp::GreaterEqual),
        Instruction::And => Some(BinaryOp::And),
        Instruction::Or => Some(BinaryOp::Or),
        _ => None,
    }
}

fn unary_of(i: &Instruction) -> (r: Option<UnaryOp>)
    ensures
        r == unary_op_of(i@),
{
    match i {
        Instruction::Not => Some(UnaryOp::Not),
        Instruction::Negate => Some(UnaryOp::Negate),
        _ => None,
    }
}

fn instruction_is_well_formed(srcs: &[InternalFunctionSource], slot_count: usize, i: &Instruction) -> (b: bool)
    ensures
        b == instruction_wf(srcs@.map_values(|s: InternalFunctionSource| s@), slot_count, i@),
{
    match i {
        Instruction::Store { slot } => (*slot as usize) < slot_count,
        Instruction::LoadCopy { slot } => (*slot as usize) < slot_count,
        Instruction::Call { call_slot } => (*call_slot as usize) < srcs.len(),
        _ => true,
    }
}

/// Whether every slot and call in the module's code is in range, so that
/// the interpreter can run it.
pub fn code_is_well_formed(module: &Module) -> (b: bool)
    ensures
        b == code_wf(module@.sources),
{
    let srcs = module.get_sources();
    let ghost sv = module@.sources;
    assert(sv =~= srcs@.map_values(|s: InternalFunctionSource| s@));
    let mut f: usize = 0;
    while f < srcs.len()
        invariant
            f <= srcs@.len(),
            sv == srcs@.map_values(|s: InternalFunctionSource| s@),
            sv == module@.sources,
            forall|g: int, k: int| 0 <= g < f && 0 <= k < sv[g].body.len() ==> instruction_wf(sv, sv[g].slot_count, #[trigger] sv[g].body[k]),
        decreases srcs@.len() - f,
    {
        let body = &srcs[f].body;
        let mut k: usize = 0;
        while k < body.len()
            invariant
                f < srcs@.len(),
                body@ == srcs@[f as int].body@,
                sv == srcs@.map_values(|s: InternalFunctionSource| s@),
                sv == module@.sources,
                k <= body@.len(),
                forall|j: int| 0 <= j < k ==> instruction_wf(sv, sv[f as int].slot_count, #[trigger] sv[f as int].body[j]),
            decreases body@.len() - k,
        {
            if !instruction_is_well_formed(srcs, srcs[f].slot_count, &body[k]) {
                assert(sv[f as int] == srcs@[f as int]@);
                assert(sv[f as int].body[k as int] == body@[k as int]@);
                assert(!instruction_wf(sv, sv[f as int].slot_count, sv[f as int].body[k as int]));
                return false;
            }
            k = k + 1;
        }
        f = f + 1;
    }
    true
}

/// Runs a module's code, one instruction per step.
pub struct Interpreter<'a> {
    module: &'a Module,
    stack: Vec<Value>,
    frames: Vec<Frame>,
}

impl<'a> Interpreter<'a> {
    pub closed spec fn module(&self) -> Module {
        *self.module
    }

    pub closed spec fn machine(&self) -> MachineView {
        MachineView {
            stack: values_view(self.stack@),
            frames: self.frames@.map_values(|f: Frame| f.view()),
        }
    }

    /// The compiled functions of the module.
    pub open spec fn sources(&self) -> Seq<SourceView> {
        self.module()@.sources
    }

    /// The module's code is well formed and so is the machine.
    pub open spec fn wf(&self) -> bool {
        &&& code_wf(self.sources())
        &&& machine_wf(self.sources(), self.machine())
    }

    /// A machine for `module`, with nothing running.
    pub fn new(module: &'a Module) -> (i: Self)
        ensures
            i.module() == *module,
            i.machine() == (MachineView { stack: Seq::empty(), frames: Seq::empty() }),
    {
        let i = Interpreter { module, stack: Vec::new(), frames: Vec::new() };
        assert(i.machine().stack =~= Seq::<ValueView>::empty());
        assert(i.machine().frames =~= Seq::<FrameView>::empty());
        i
    }

    /// Whether a function is running.
    pub fn is_running(&self) -> (b: bool)
        ensures
            b == (self.machine().frames.len() > 0),
    {
        self.frames.len() > 0
    }

    /// Starts the module's `main` function; a module without one cannot run.
    pub fn start(&mut self) -> (r: Result<(), RuntimeError>)
        requires
            old(self).machine().frames.len() == 0,
        ensures
            final(self).module() == old(self).module(),
            machine_wf(final(self).sources(), final(self).machine()),
            code_wf(old(self).sources()) ==> final(self).wf(),
            r is Err ==> final(self).machine() == old(self).machine(),
            match old(self).module()@.main_slot {
                Some(slot) => if (slot as int) < old(self).sources().len() {
                    r is Ok && final(self).machine() == (MachineView {
                        frames: old(self).machine().frames.push(new_frame(old(self).sources(), slot as int)),
                        ..old(self).machine()
                    })
                } else {
                    r matches Err(RuntimeError::Other(m)) && m@ == "Module is not executable (missing main function)"@
                },
                None => r matches Err(RuntimeError::Other(m)) && m@ == "Module is not executable (missing main function)"@,
            },
    {
        proof {
            reveal_strlit("Module is not executable (missing main function)");
        }
        let main = match self.module.get_main_source() {
            Some(source) => source,
            None => {
                return Err(RuntimeError::Other(crate::text::string_of("Module is not executable (missing main function)")));
            },
        };
        let ghost slot = self.module()@.main_slot->0 as int;
        let function = self.main_slot_index();
        let frame = Frame { function, index: 0, slots: void_slots(main.slot_count) };
        assert(main.slot_count == old(self).sources()[slot].slot_count);
        assert(frame.view() == new_frame(old(self).sources(), slot));
        self.frames.push(frame);
        assert(self.machine().frames =~= old(self).machine().frames.push(new_frame(old(self).sources(), slot)));
        Ok(())
    }

    /// The slot of `main`, for a module whose `main` has a body.
    fn main_slot_index(&self) -> (s: usize)
        requires
            self.module()@.main_slot matches Some(m) && (m as int) < self.sources().len(),
        ensures
            self.module()@.main_slot matches Some(m) && s as int == m as int,
    {
        let m = self.module.main_slot_value();
        m as usize
    }

    /// Pushes a value that the caller computed for the last step.
    pub fn push_value(&mut self, v: Value)
        ensures
            final(self).module() == old(self).module(),
            final(self).machine() == (MachineView { stack: old(self).machine().stack.push(v@), ..old(self).machine() }),
            old(self).wf() ==> final(self).wf(),
    {
        self.stack.push(v);
        assert(values_view(self.stack@) =~= values_view(old(self).stack@).push(v@));
    }

    /// Moves the running function on to its next instruction.
    fn advance(&mut self)
        requires
            old(self).machine().frames.len() > 0,
            old(self).machine().frames.last().index < usize::MAX,
        ensures
            final(self).module() == old(self).module(),
            final(self).machine() == advance(old(self).machine(), old(self).machine().stack),
    {
        let mut f = self.frames.pop().unwrap();
        f.index = f.index + 1;
        self.frames.push(f);
        proof {
            let m = old(self).machine();
            assert(self.machine().frames =~= m.frames.update(m.frames.len() - 1, FrameView { index: m.frames.last().index + 1, ..m.frames.last() }));
        }
    }

    /// Continues the running function at instruction `target`.
    fn jump_to(&mut self, target: usize)
        requires
            old(self).machine().frames.len() > 0,
        ensures
            final(self).module() == old(self).module(),
            final(self).machine() == with_frame(old(self).machine(), FrameView { index: target as int, ..old(self).machine().frames.last() }),
    {
        let mut f = self.frames.pop().unwrap();
        f.index = target;
        self.frames.push(f);
        proof {
            let m = old(self).machine();
            assert(self.machine().frames =~= m.frames.update(m.frames.len() - 1, FrameView { index: target as int, ..m.frames.last() }));
        }
    }

    /// Stores `v` in slot `slot` of the running function and moves it on.
    fn store_and_advance(&mut self, slot: usize, v: Value)
        requires
            old(self).machine().frames.len() > 0,
            old(self).machine().frames.last().index < usize::MAX,
            slot < old(self).machine().frames.last().slots.len(),
        ensures
            final(self).module() == old(self).module(),
            final(self).machine() == with_frame(
                old(self).machine(),
                FrameView {
                    index: old(self).machine().frames.last().index + 1,
                    slots: old(self).machine().frames.last().slots.update(slot as int, v@),
                    ..old(self).machine().frames.last()
                },
            ),
    {
        let mut f = self.frames.pop().unwrap();
        let ghost old_slots = f.slots@;
        f.slots.set(slot, v);
        f.index = f.index + 1;
        assert(values_view(f.slots@) =~= values_view(old_slots).update(slot as int, v@));
        self.frames.push(f);
        proof {
            let m = old(self).machine();
            assert(self.machine().frames =~= m.frames.update(
                m.frames.len() - 1,
                FrameView { index: m.frames.last().index + 1, slots: m.frames.last().slots.update(slot as int, v@), ..m.frames.last() },
            ));
        }
    }

    /// Pops the top `k` values, top first.
    fn get_args_from_stack(&mut self, k: usize) -> (args: Vec<Value>)
        requires
            k <= old(self).machine().stack.len(),
        ensures
            final(self).module() == old(self).module(),
            values_view(args@) == top_values(old(self).machine().stack, k as int),
            final(self).machine() == (MachineView {
                stack: old(self).machine().stack.subrange(0, old(self).machine().stack.len() - k),
                ..old(self).machine()
            }),
    {
        let ghost s = values_view(self.stack@);
        let mut args: Vec<Value> = Vec::new();
        let mut i: usize = 0;
        while i < k
            invariant
                i <= k,
                k <= s.len(),
                self.module == old(self).module,
                self.frames == old(self).frames,
                values_view(self.stack@) == s.subrange(0, s.len() - i),
                self.stack@.len() == s.len() - i,
                values_view(args@) == top_values(s, i as int),
            decreases k - i,
        {
            let ghost before = self.stack@;
            let v = self.stack.pop().unwrap();
            assert(self.stack@ == before.drop_last());
            assert(v@ == values_view(before)[before.len() - 1]);
            assert(v@ == s[s.len() - 1 - i]);
            let ghost old_args = args@;
            args.push(v);
            assert(values_view(args@) =~= values_view(old_args).push(s[s.len() - 1 - i]));
            i = i + 1;
            assert(values_view(self.stack@) =~= s.subrange(0, s.len() - i));
            assert(values_view(args@) =~= top_values(s, i as int));
        }
        args
    }

    /// Applies a binary operator to the top two values of the stack.
    fn apply_bin_op(&mut self, op: BinaryOp) -> (r: Result<Step, RuntimeError>)
        requires
            old(self).wf(),
            old(self).machine().frames.len() > 0,
            old(self).machine().frames.last().index < usize::MAX,
        ensures
            final(self).module() == old(self).module(),
            final(self).wf(),
            (step_result(r), final(self).machine()) == spec_apply_bin_op(op, old(self).machine()),
    {
        let ghost m = self.machine();
        let n = self.stack.len();
        if n < 2 {
            return Err(RuntimeError::ValueStackUnderflow);
        }
        let rhs = self.stack.pop().unwrap();
        let lhs = self.stack.pop().unwrap();
        assert(values_view(self.stack@) =~= m.stack.subrange(0, n - 2));
        match lhs.binary(op, rhs)? {
            Computed::Value(v) => {
                self.push_value(v);
                self.advance();
                Ok(Step::Continue)
            },
            Computed::NeedsFloat { op, lhs, rhs } => {
                self.advance();
                Ok(Step::NeedsFloat { op, lhs, rhs })
            },
        }
    }

    /// Applies a unary operator to the top value of the stack.
    fn apply_un_op(&mut self, op: UnaryOp) -> (r: Result<Step, RuntimeError>)
        requires
            old(self).wf(),
            old(self).machine().frames.len() > 0,
            old(self).machine().frames.last().index < usize::MAX,
        ensures
            final(self).module() == old(self).module(),
            final(self).wf(),
            (step_result(r), final(self).machine()) == spec_apply_un_op(op, old(self).machine()),
    {
        let ghost m = self.machine();
        let n = self.stack.len();
        if n == 0 {
            return Err(RuntimeError::ValueStackUnderflow);
        }
        let operand = self.stack.pop().unwrap();
        assert(values_view(self.stack@) =~= m.stack.drop_last());
        match operand.unary(op)? {
            Computed::Value(v) => {
                self.push_value(v);
                self.advance();
                Ok(Step::Continue)
            },
            Computed::NeedsFloat { op, lhs, rhs } => {
                self.advance();
                Ok(Step::NeedsFloat { op, lhs, rhs })
            },
        }
    }

    /// Runs the next instruction of the running function.
    #[verifier::rlimit(50)]
    pub fn step(&mut self) -> (r: Result<Step, RuntimeError>)
        requires
            old(self).wf(),
            old(self).machine().frames.len() > 0,
        ensures
            final(self).module() == old(self).module(),
            final(self).wf(),
            (step_result(r), final(self).machine()) == spec_step(old(self).sources(), old(self).machine()),
    {
        let ghost m = self.machine();
        let ghost srcs = self.sources();
        let module = self.module;
        let sources = module.get_sources();
        let last = self.frames.len() - 1;
        let function = self.frames[last].function;
        let index = self.frames[last].index;
        assert(m.frames.last() == self.frames@[last as int].view());
        assert(srcs[function as int] == sources@[function as int]@);
        let body = &sources[function].body;
        if index >= body.len() {
            return Err(RuntimeError::FunctionDidNotReturn);
        }
        let n = self.stack.len();
        let instruction = &body[index];
        assert(srcs[function as int].body[index as int] == instruction@);
        assert(instruction_wf(srcs, srcs[function as int].slot_count, instruction@));
        match instruction {
            Instruction::LoadConst(v) => {
                self.push_value(v.clone());
                self.advance();
                Ok(Step::Continue)
            },
            Instruction::Pop => {
                if n == 0 {
                    return Err(RuntimeError::ValueStackUnderflow);
                }
                let _ = self.stack.pop();
                assert(values_view(self.stack@) =~= m.stack.drop_last());
                self.advance();
                Ok(Step::Continue)
            },
            Instruction::Store { slot } => {
                if n == 0 {
                    return Err(RuntimeError::ValueStackUnderflow);
                }
                let v = self.stack.pop().unwrap();
                assert(values_view(self.stack@) =~= m.stack.drop_last());
                self.store_and_advance(*slot as usize, v);
                Ok(Step::Continue)
            },
            Instruction::LoadCopy { slot } => {
                let v = self.frames[last].slots[*slot as usize].clone();
                self.push_value(v);
                self.advance();
                Ok(Step::Continue)
            },
            Instruction::Call { call_slot } => {
                let callee = &sources[*call_slot as usize];
                let frame = Frame { function: *call_slot as usize, index: 0, slots: void_slots(callee.slot_count) };
                assert(frame.view() == new_frame(srcs, *call_slot as int));
                self.frames.push(frame);
                assert(self.machine().frames =~= m.frames.push(new_frame(srcs, *call_slot as int)));
                Ok(Step::Continue)
            },
            Instruction::Return => {
                if n == 0 {
                    return Err(RuntimeError::ValueStackUnderflow);
                }
                let v = self.stack.pop().unwrap();
                let _ = self.frames.pop();
                if self.frames.len() == 0 {
                    assert(values_view(self.stack@) =~= m.stack.drop_last());
                    assert(self.machine().frames =~= Seq::<FrameView>::empty());
                    return Ok(Step::Finished(v));
                }
                assert(self.machine().frames =~= m.frames.drop_last());
                self.advance();
                self.push_value(v);
                assert(values_view(self.stack@) =~= m.stack);
                Ok(Step::Continue)
            },
            Instruction::Jump(target) => {
                self.jump_to(*target as usize);
                Ok(Step::Continue)
            },
            Instruction::JumpIfFalse(target) => {
                if n == 0 {
                    return Err(RuntimeError::ValueStackUnderflow);
                }
                let cond = self.stack.pop().unwrap();
                assert(values_view(self.stack@) =~= m.stack.drop_last());
                match cond.is_false() {
                    Err(e) => Err(e),
                    Ok(true) => {
                        self.jump_to(*target as usize);
                        Ok(Step::Continue)
                    },
                    Ok(false) => {
                        self.advance();
                        Ok(Step::Continue)
                    },
                }
            },
            Instruction::BuiltinFunctionCall { function, arg_count } => {
                let k = *arg_count as usize;
                if n < k {
                    return Err(RuntimeError::ValueStackUnderflow);
                }
                let args = self.get_args_from_stack(k);
                match function.execute(args)? {
                    BuiltinOutcome::Value(v) => {
                        self.push_value(v);
                        self.advance();
                        Ok(Step::Continue)
                    },
                    BuiltinOutcome::Print(args) => {
                        self.advance();
                        Ok(Step::Print(args))
                    },
                    BuiltinOutcome::Format(args) => {
                        self.advance();
                        Ok(Step::Format(args))
                    },
                }
            },
            _ => {
                if let Some(op) = binary_of(instruction) {
                    self.apply_bin_op(op)
                } else if let Some(op) = unary_of(instruction) {
                    self.apply_un_op(op)
                } else {
                    Err(RuntimeError::Unknown)
                }
            },
        }
    }
}

} // verus!
