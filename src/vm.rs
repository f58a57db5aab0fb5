use vstd::prelude::*;

use crate::bytecode::{ops_of, Bytecode, Compiled, Op};
use crate::heap::{heap_store, Heap};
use crate::record::{bool_val, plain, undefined_val, val_as_bool, LispRecord, RecordModel};
use crate::value::Val;

verus! {

/// How deep `Call` instructions may nest before a run is given up.
pub const MAX_CALL_DEPTH: u64 = 512;

/// The instructions that take their operands from the stack.
#[derive(Debug, Clone, Copy, PartialEq, Eq, Structural)]
pub enum Operator {
    Add,
    Sub,
    Mul,
    Div,
    Lte,
    Equ,
    Not,
}

/// Why a run stopped.
#[derive(Debug, Clone, Copy, PartialEq, Eq, Structural)]
pub enum RuntimeError {
    NotEnoughArguments(Operator),
    WrongArgumentType(Operator),
    Overflow(Operator),
    DivisionByZero,
    CallDepthExceeded,
    MissingEntry,
}

/// The stack and the heap, as the model sees them.
pub struct Machine {
    pub stack: Seq<RecordModel>,
    pub heap: Map<Seq<char>, RecordModel>,
}

pub open spec fn stack_model(s: Seq<LispRecord>) -> Seq<RecordModel> {
    s.map_values(|r: LispRecord| r@)
}

/// What `Push` and `Load` read: the stored record, or the undefined symbol.
pub open spec fn lookup(h: Map<Seq<char>, RecordModel>, s: Seq<char>) -> RecordModel {
    if h.contains_key(s) {
        h[s]
    } else {
        plain(undefined_val())
    }
}

/// Division that rounds toward zero.
pub open spec fn trunc_div(x: int, y: int) -> int {
    let q = (if x < 0 { -x } else { x }) / (if y < 0 { -y } else { y });
    if (x < 0) != (y < 0) {
        -q
    } else {
        q
    }
}

pub open spec fn fits_i64(n: int) -> bool {
    i64::MIN <= n <= i64::MAX
}

/// A checked numeric result of `o` on `a` (the top of the stack) and `b`
/// (the record below it).
pub open spec fn numeric(o: Operator, a: i64, b: i64) -> Result<Val, RuntimeError> {
    match o {
        Operator::Add => if fits_i64(a + b) {
            Ok(Val::Number((a + b) as i64))
        } else {
            Err(RuntimeError::Overflow(o))
        },
        Operator::Sub => if fits_i64(a - b) {
            Ok(Val::Number((a - b) as i64))
        } else {
            Err(RuntimeError::Overflow(o))
        },
        Operator::Mul => if fits_i64(a * b) {
            Ok(Val::Number((a * b) as i64))
        } else {
            Err(RuntimeError::Overflow(o))
        },
        Operator::Div => if b == 0 {
            Err(RuntimeError::DivisionByZero)
        } else if fits_i64(trunc_div(a as int, b as int)) {
            Ok(Val::Number(trunc_div(a as int, b as int) as i64))
        } else {
            Err(RuntimeError::Overflow(o))
        },
        _ => Ok(bool_val(a <= b)),
    }
}

/// A numeric operator on the stack: pops `a`, then `b`, pushes `a o b`.
pub open spec fn apply_numeric(o: Operator, s: Seq<RecordModel>) -> Result<
    Seq<RecordModel>,
    RuntimeError,
> {
    if s.len() < 2 {
        Err(RuntimeError::NotEnoughArguments(o))
    } else {
        let a = s[s.len() - 1].val;
        let b = s[s.len() - 2].val;
        match (a, b) {
            (Val::Number(x), Val::Number(y)) => match numeric(o, x, y) {
                Ok(v) => Ok(s.take(s.len() - 2).push(plain(v))),
                Err(e) => Err(e),
            },
            _ => Err(RuntimeError::WrongArgumentType(o)),
        }
    }
}

/// `Equ`: pops two records and pushes whether they are equal.
pub open spec fn apply_equ(s: Seq<RecordModel>) -> Result<Seq<RecordModel>, RuntimeError> {
    if s.len() < 2 {
        Err(RuntimeError::NotEnoughArguments(Operator::Equ))
    } else {
        Ok(s.take(s.len() - 2).push(plain(bool_val(s[s.len() - 1] == s[s.len() - 2]))))
    }
}

/// `Not`: pops a boolean and pushes its negation.
pub open spec fn apply_not(s: Seq<RecordModel>) -> Result<Seq<RecordModel>, RuntimeError> {
    if s.len() < 1 {
        Err(RuntimeError::NotEnoughArguments(Operator::Not))
    } else {
        match val_as_bool(s.last().val) {
            Some(b) => Ok(s.drop_last().push(plain(bool_val(!b)))),
            None => Err(RuntimeError::WrongArgumentType(Operator::Not)),
        }
    }
}

pub open spec fn on_stack(m: Machine, r: Result<Seq<RecordModel>, RuntimeError>) -> Result<
    Machine,
    RuntimeError,
> {
    match r {
        Ok(s) => Ok(Machine { stack: s, heap: m.heap }),
        Err(e) => Err(e),
    }
}

/// One instruction other than `Call`.
pub open spec fn step(op: Op, m: Machine) -> Result<Machine, RuntimeError> {
    match op {
        Op::PushConst(r) => Ok(Machine { stack: m.stack.push(r), heap: m.heap }),
        Op::Push(s) => Ok(Machine { stack: m.stack.push(lookup(m.heap, s)), heap: m.heap }),
        Op::Load(s) => Ok(Machine { stack: m.stack.push(lookup(m.heap, s)), heap: m.heap }),
        Op::Pop(s) => if m.stack.len() > 0 {
            Ok(Machine { stack: m.stack.drop_last(), heap: heap_store(m.heap, s, m.stack.last()) })
        } else {
            Ok(Machine { stack: m.stack, heap: heap_store(m.heap, s, plain(undefined_val())) })
        },
        Op::StoreConst(r, s) => Ok(Machine { stack: m.stack, heap: heap_store(m.heap, s, r) }),
        Op::Add => on_stack(m, apply_numeric(Operator::Add, m.stack)),
        Op::Sub => on_stack(m, apply_numeric(Operator::Sub, m.stack)),
        Op::Mul => on_stack(m, apply_numeric(Operator::Mul, m.stack)),
        Op::Div => on_stack(m, apply_numeric(Operator::Div, m.stack)),
        Op::Lte => on_stack(m, apply_numeric(Operator::Lte, m.stack)),
        Op::Equ => on_stack(m, apply_equ(m.stack)),
        Op::Not => on_stack(m, apply_not(m.stack)),
        Op::Call(_) => Ok(m),
    }
}

/// The operator that a name stands for where the program does not bind it.
pub open spec fn builtin(s: Seq<char>) -> Option<Op> {
    if s == "+"@ {
        Some(Op::Add)
    } else if s == "-"@ {
        Some(Op::Sub)
    } else if s == "*"@ {
        Some(Op::Mul)
    } else if s == "/"@ {
        Some(Op::Div)
    } else if s == "<="@ {
        Some(Op::Lte)
    } else if s == "="@ {
        Some(Op::Equ)
    } else if s == "not"@ {
        Some(Op::Not)
    } else {
        None
    }
}

/// The sequence bound to `s`, empty where there is none.
pub open spec fn body_of(prog: Map<Seq<char>, Seq<Op>>, s: Seq<char>) -> Seq<Op> {
    if prog.contains_key(s) {
        prog[s]
    } else {
        Seq::empty()
    }
}

/// Runs `code` from `m`, with `depth` calls left to nest. A call of a
/// symbol that the program does not bind applies the built-in operator of
/// that name, and does nothing where there is none.
pub open spec fn run_code(prog: Map<Seq<char>, Seq<Op>>, code: Seq<Op>, m: Machine, depth: nat) -> Result<
    Machine,
    RuntimeError,
>
    decreases depth, code.len(),
{
    if code.len() == 0 {
        Ok(m)
    } else {
        match code[0] {
            Op::Call(s) => if !prog.contains_key(s) {
                match builtin(s) {
                    Some(op) => match step(op, m) {
                        Ok(m2) => run_code(prog, code.drop_first(), m2, depth),
                        Err(e) => Err(e),
                    },
                    None => run_code(prog, code.drop_first(), m, depth),
                }
            } else if depth == 0 {
                Err(RuntimeError::CallDepthExceeded)
            } else {
                match run_code(prog, prog[s], m, (depth - 1) as nat) {
                    Ok(m2) => run_code(prog, code.drop_first(), m2, depth),
                    Err(e) => Err(e),
                }
            },
            op => match step(op, m) {
                Ok(m2) => run_code(prog, code.drop_first(), m2, depth),
                Err(e) => Err(e),
            },
        }
    }
}

/// `Not` on a record that encodes a boolean replaces it by a record that
/// encodes the negation; the rest of the stack and the heap stay.
pub proof fn lemma_not_negates(prog: Map<Seq<char>, Seq<Op>>, m: Machine, b: bool, depth: nat)
    requires
        m.stack.len() > 0,
        m.stack.last().val == bool_val(b),
    ensures
        run_code(prog, seq![Op::Not], m, depth) == Ok::<Machine, RuntimeError>(
            Machine { stack: m.stack.drop_last().push(plain(bool_val(!b))), heap: m.heap },
        ),
{
    reveal_strlit("true");
    reveal_strlit("false");
    assert(seq![Op::Not].drop_first() =~= Seq::<Op>::empty());
    reveal_with_fuel(run_code, 2);
    assert("true"@.len() != "false"@.len());
    assert(bool_val(true) != bool_val(false));
    assert(val_as_bool(m.stack.last().val) == Some(b));
}

/// A call of a symbol that the program does not define, and that names no
/// built-in operator, changes neither the stack nor the heap.
pub proof fn lemma_undefined_call_is_noop(
    prog: Map<Seq<char>, Seq<Op>>,
    s: Seq<char>,
    m: Machine,
    depth: nat,
)
    requires
        !prog.contains_key(s),
        builtin(s) is None,
    ensures
        run_code(prog, seq![Op::Call(s)], m, depth) == Ok::<Machine, RuntimeError>(m),
{
    assert(seq![Op::Call(s)].drop_first() =~= Seq::<Op>::empty());
    reveal_with_fuel(run_code, 2);
}

/// An operator that finds too few records on the stack stops the run with
/// an arity error; no default record stands in for a missing operand.
pub proof fn lemma_missing_operands_abort(
    prog: Map<Seq<char>, Seq<Op>>,
    op: Op,
    m: Machine,
    depth: nat,
)
    requires
        op is Add || op is Sub || op is Mul || op is Div || op is Lte || op is Equ || op is Not,
        m.stack.len() < (if op is Not { 1int } else { 2int }),
    ensures
        run_code(prog, seq![op], m, depth) == Err::<Machine, RuntimeError>(
            RuntimeError::NotEnoughArguments(
                match op {
                    Op::Add => Operator::Add,
                    Op::Sub => Operator::Sub,
                    Op::Mul => Operator::Mul,
                    Op::Div => Operator::Div,
                    Op::Lte => Operator::Lte,
                    Op::Equ => Operator::Equ,
                    _ => Operator::Not,
                },
            ),
        ),
{
}

fn push_record(stack: &mut Vec<LispRecord>, r: LispRecord)
    ensures
        stack_model(final(stack)@) == stack_model(old(stack)@).push(r@),
{
    let ghost rv = r@;
    stack.push(r);
    assert(stack_model(stack@) =~= stack_model(old(stack)@).push(rv));
}

fn pop_record(stack: &mut Vec<LispRecord>) -> (r: Option<LispRecord>)
    ensures
        old(stack)@.len() == 0 ==> r is None && final(stack)@ == old(stack)@,
        old(stack)@.len() > 0 ==> r is Some && r->Some_0@ == stack_model(old(stack)@).last()
            && stack_model(final(stack)@) == stack_model(old(stack)@).drop_last(),
{
    let r = stack.pop();
    proof {
        if old(stack)@.len() > 0 {
            assert(stack_model(stack@) =~= stack_model(old(stack)@).drop_last());
        }
    }
    r
}

/// `x / y`, rounded toward zero, where it fits.
fn checked_trunc_div(x: i64, y: i64) -> (r: Option<i64>)
    requires
        y != 0,
    ensures
        fits_i64(trunc_div(x as int, y as int)) ==> r == Some(trunc_div(x as int, y as int) as i64),
        !fits_i64(trunc_div(x as int, y as int)) ==> r is None,
{
    let ax: u64 = if x < 0 {
        (0i128 - x as i128) as u64
    } else {
        x as u64
    };
    let ay: u64 = if y < 0 {
        (0i128 - y as i128) as u64
    } else {
        y as u64
    };
    let q: u64 = ax / ay;
    assert(ax as int == (if x < 0 { -(x as int) } else { x as int }));
    assert(ay as int == (if y < 0 { -(y as int) } else { y as int }));
    if (x < 0) != (y < 0) {
        if q <= 9223372036854775808u64 {
            Some((0i128 - q as i128) as i64)
        } else {
            None
        }
    } else {
        if q <= 9223372036854775807u64 {
            Some(q as i64)
        } else {
            None
        }
    }
}

fn exec_numeric(o: Operator, a: i64, b: i64) -> (r: Result<LispRecord, RuntimeError>)
    requires
        o != Operator::Equ && o != Operator::Not,
    ensures
        match numeric(o, a, b) {
            Ok(v) => r is Ok && r->Ok_0@ == plain(v),
            Err(e) => r == Err::<LispRecord, RuntimeError>(e),
        },
{
    match o {
        Operator::Add => match a.checked_add(b) {
            Some(v) => Ok(LispRecord::from_number(v)),
            None => Err(RuntimeError::Overflow(o)),
        },
        Operator::Sub => match a.checked_sub(b) {
            Some(v) => Ok(LispRecord::from_number(v)),
            None => Err(RuntimeError::Overflow(o)),
        },
        Operator::Mul => match a.checked_mul(b) {
            Some(v) => Ok(LispRecord::from_number(v)),
            None => Err(RuntimeError::Overflow(o)),
        },
        Operator::Div => if b == 0 {
            Err(RuntimeError::DivisionByZero)
        } else {
            match checked_trunc_div(a, b) {
                Some(v) => Ok(LispRecord::from_number(v)),
                None => Err(RuntimeError::Overflow(o)),
            }
        },
        _ => Ok(LispRecord::from_bool(a <= b)),
    }
}

fn exec_numeric_op(o: Operator, stack: &mut Vec<LispRecord>) -> (r: Result<(), RuntimeError>)
    requires
        o != Operator::Equ && o != Operator::Not,
    ensures
        match apply_numeric(o, stack_model(old(stack)@)) {
            Ok(s) => r is Ok && stack_model(final(stack)@) == s,
            Err(e) => r == Err::<(), RuntimeError>(e),
        },
{
    let ghost s0 = stack_model(stack@);
    let a = match pop_record(stack) {
        Some(a) => a,
        None => {
            return Err(RuntimeError::NotEnoughArguments(o));
        },
    };
    let b = match pop_record(stack) {
        Some(b) => b,
        None => {
            return Err(RuntimeError::NotEnoughArguments(o));
        },
    };
    assert(s0.drop_last().last() == s0[s0.len() - 2]);
    let x = match a.to_number() {
        Ok(x) => x,
        Err(_) => {
            return Err(RuntimeError::WrongArgumentType(o));
        },
    };
    let y = match b.to_number() {
        Ok(y) => y,
        Err(_) => {
            return Err(RuntimeError::WrongArgumentType(o));
        },
    };
    let v = match exec_numeric(o, x, y) {
        Ok(v) => v,
        Err(e) => {
            return Err(e);
        },
    };
    push_record(stack, v);
    assert(s0.drop_last().drop_last() =~= s0.take(s0.len() - 2));
    Ok(())
}

fn exec_equ(stack: &mut Vec<LispRecord>) -> (r: Result<(), RuntimeError>)
    ensures
        match apply_equ(stack_model(old(stack)@)) {
            Ok(s) => r is Ok && stack_model(final(stack)@) == s,
            Err(e) => r == Err::<(), RuntimeError>(e),
        },
{
    let ghost s0 = stack_model(stack@);
    let a = match pop_record(stack) {
        Some(a) => a,
        None => {
            return Err(RuntimeError::NotEnoughArguments(Operator::Equ));
        },
    };
    let b = match pop_record(stack) {
        Some(b) => b,
        None => {
            assert(stack_model(stack@).len() == stack@.len());
            return Err(RuntimeError::NotEnoughArguments(Operator::Equ));
        },
    };
    assert(s0.drop_last().last() == s0[s0.len() - 2]);
    push_record(stack, LispRecord::from_bool(a.equals(&b)));
    assert(s0.drop_last().drop_last() =~= s0.take(s0.len() - 2));
    Ok(())
}

fn exec_not(stack: &mut Vec<LispRecord>) -> (r: Result<(), RuntimeError>)
    ensures
        match apply_not(stack_model(old(stack)@)) {
            Ok(s) => r is Ok && stack_model(final(stack)@) == s,
            Err(e) => r == Err::<(), RuntimeError>(e),
        },
{
    let a = match pop_record(stack) {
        Some(a) => a,
        None => {
            return Err(RuntimeError::NotEnoughArguments(Operator::Not));
        },
    };
    let b = match a.to_bool() {
        Ok(b) => b,
        Err(_) => {
            return Err(RuntimeError::WrongArgumentType(Operator::Not));
        },
    };
    push_record(stack, LispRecord::from_bool(!b));
    Ok(())
}

/// One instruction other than `Call`, on the stack and the heap.
fn exec_step<H: Heap>(op: &Bytecode, stack: &mut Vec<LispRecord>, heap: &mut H) -> (r: Result<
    (),
    RuntimeError,
>)
    requires
        !(op is Call),
        old(heap).inv(),
    ensures
        final(heap).inv(),
        match step(op@, Machine { stack: stack_model(old(stack)@), heap: old(heap).contents() }) {
            Ok(m) => r is Ok && stack_model(final(stack)@) == m.stack && final(heap).contents()
                == m.heap,
            Err(e) => r == Err::<(), RuntimeError>(e),
        },
{
    match op {
        Bytecode::PushConst(v) => {
            push_record(stack, v.duplicate());
        },
        Bytecode::Push(s) => {
            let v = match heap.get(s) {
                Some(v) => v,
                None => LispRecord::undefined(),
            };
            push_record(stack, v);
        },
        Bytecode::Load(s) => {
            let v = match heap.get(s) {
                Some(v) => v,
                None => LispRecord::undefined(),
            };
            push_record(stack, v);
        },
        Bytecode::Pop(s) => {
            let v = match pop_record(stack) {
                Some(v) => v,
                None => LispRecord::undefined(),
            };
            heap.insert(s.clone(), v);
        },
        Bytecode::StoreConst(v, s) => {
            heap.insert(s.clone(), v.duplicate());
        },
        Bytecode::Add => {
            let res = exec_numeric_op(Operator::Add, stack);
            if let Err(e) = res {
                return Err(e);
            }
        },
        Bytecode::Sub => {
            let res = exec_numeric_op(Operator::Sub, stack);
            if let Err(e) = res {
                return Err(e);
            }
        },
        Bytecode::Mul => {
            let res = exec_numeric_op(Operator::Mul, stack);
            if let Err(e) = res {
                return Err(e);
            }
        },
        Bytecode::Div => {
            let res = exec_numeric_op(Operator::Div, stack);
            if let Err(e) = res {
                return Err(e);
            }
        },
        Bytecode::Lte => {
            let res = exec_numeric_op(Operator::Lte, stack);
            if let Err(e) = res {
                return Err(e);
            }
        },
        Bytecode::Equ => {
            let res = exec_equ(stack);
            if let Err(e) = res {
                return Err(e);
            }
        },
        Bytecode::Not => {
            let res = exec_not(stack);
            if let Err(e) = res {
                return Err(e);
            }
        },
        Bytecode::Call(_) => {},
    }
    Ok(())
}

/// The instruction that a built-in operator name stands for.
fn builtin_op(s: &String) -> (r: Option<Bytecode>)
    ensures
        r is Some == builtin(s@) is Some,
        r is Some ==> r->Some_0@ == builtin(s@)->Some_0 && !(r->Some_0 is Call),
{
    proof {
        reveal_strlit("+");
        reveal_strlit("-");
        reveal_strlit("*");
        reveal_strlit("/");
        reveal_strlit("<=");
        reveal_strlit("=");
        reveal_strlit("not");
    }
    if *s == "+".to_string() {
        Some(Bytecode::Add)
    } else if *s == "-".to_string() {
        Some(Bytecode::Sub)
    } else if *s == "*".to_string() {
        Some(Bytecode::Mul)
    } else if *s == "/".to_string() {
        Some(Bytecode::Div)
    } else if *s == "<=".to_string() {
        Some(Bytecode::Lte)
    } else if *s == "=".to_string() {
        Some(Bytecode::Equ)
    } else if *s == "not".to_string() {
        Some(Bytecode::Not)
    } else {
        None
    }
}

impl Compiled {
    /// Runs the sequence bound to `sym` against the stack and the heap,
    /// with `depth` calls left to nest.
    pub fn run_depth<H: Heap>(
        &self,
        sym: &String,
        stack: &mut Vec<LispRecord>,
        heap: &mut H,
        depth: u64,
    ) -> (r: Result<(), RuntimeError>)
        requires
            self.wf(),
            old(heap).inv(),
        ensures
            final(heap).inv(),
            match run_code(
                self@,
                body_of(self@, sym@),
                Machine { stack: stack_model(old(stack)@), heap: old(heap).contents() },
                depth as nat,
            ) {
                Ok(m) => r is Ok && stack_model(final(stack)@) == m.stack && final(heap).contents() == m.heap,
                Err(e) => r == Err::<(), RuntimeError>(e),
            },
        decreases depth,
    {
        let code = match self.code(sym) {
            Some(c) => c,
            None => {
                return Ok(());
            },
        };
        let ghost ops = ops_of(code@);
        let ghost m0 = Machine { stack: stack_model(stack@), heap: heap.contents() };
        assert(ops.skip(0) =~= ops);
        let mut i: usize = 0;
        while i < code.len()
            invariant
                i <= code@.len(),
                self.wf(),
                heap.inv(),
                ops == ops_of(code@),
                ops == body_of(self@, sym@),
                m0 == (Machine { stack: stack_model(old(stack)@), heap: old(heap).contents() }),
                run_code(
                    self@,
                    ops.skip(i as int),
                    Machine { stack: stack_model(stack@), heap: heap.contents() },
                    depth as nat,
                ) == run_code(self@, ops, m0, depth as nat),
            decreases code@.len() - i,
        {
            let ghost m = Machine { stack: stack_model(stack@), heap: heap.contents() };
            let ghost rest = ops.skip(i as int + 1);
            assert(ops.skip(i as int).drop_first() =~= rest);
            assert(ops.skip(i as int)[0] == code@[i as int]@);
            match &code[i] {
                Bytecode::Call(s) => {
                    match self.code(s) {
                        None => {
                            match builtin_op(s) {
                                Some(op) => {
                                    let res = exec_step(&op, stack, heap);
                                    if let Err(e) = res {
                                        return Err(e);
                                    }
                                },
                                None => {},
                            }
                        },
                        Some(_) => {
                            if depth == 0 {
                                assert(run_code(self@, ops.skip(i as int), m, depth as nat)
                                    == Err::<Machine, RuntimeError>(RuntimeError::CallDepthExceeded));
                                return Err(RuntimeError::CallDepthExceeded);
                            }
                            let res = self.run_depth(s, stack, heap, depth - 1);
                            assert(body_of(self@, s@) == self@[s@]);
                            if let Err(e) = res {
                                assert(run_code(self@, ops.skip(i as int), m, depth as nat)
                                    == Err::<Machine, RuntimeError>(e));
                                return Err(e);
                            }
                        },
                    }
                },
                _ => {
                    let res = exec_step(&code[i], stack, heap);
                    if let Err(e) = res {
                        return Err(e);
                    }
                },
            }
            i = i + 1;
        }
        assert(ops.skip(code@.len() as int) =~= Seq::<Op>::empty());
        Ok(())
    }

    /// Runs the sequence bound to `entry`, which must exist, against the
    /// stack and the heap. Calls nest at most `MAX_CALL_DEPTH` deep.
    pub fn run<H: Heap>(&self, entry: &String, stack: &mut Vec<LispRecord>, heap: &mut H) -> (r: Result<
        (),
        RuntimeError,
    >)
        requires
            self.wf(),
            old(heap).inv(),
        ensures
            final(heap).inv(),
            !self@.contains_key(entry@) ==> r == Err::<(), RuntimeError>(RuntimeError::MissingEntry)
                && final(stack)@ == old(stack)@ && final(heap).contents() == old(heap).contents(),
            self@.contains_key(entry@) ==> match run_code(
                self@,
                self@[entry@],
                Machine { stack: stack_model(old(stack)@), heap: old(heap).contents() },
                MAX_CALL_DEPTH as nat,
            ) {
                Ok(m) => r is Ok && stack_model(final(stack)@) == m.stack && final(heap).contents() == m.heap,
                Err(e) => r == Err::<(), RuntimeError>(e),
            },
    {
        if self.code(entry).is_none() {
            return Err(RuntimeError::MissingEntry);
        }
        self.run_depth(entry, stack, heap, MAX_CALL_DEPTH)
    }
}

} // verus!
