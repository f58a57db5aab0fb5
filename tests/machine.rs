use lispvm::{
    entry_symbol, AstValue, Bytecode, Compiled, LispHeap, LispRecord, LispValue, Operator,
    RuntimeError,
};

fn sym(s: &str) -> LispValue {
    LispValue::Symbol(s.to_string())
}

fn list(items: Vec<LispValue>) -> LispValue {
    LispValue::List(items)
}

fn run_ast(ast: LispValue) -> (Vec<LispRecord>, LispHeap, Result<(), RuntimeError>) {
    let prog = ast.compile();
    let mut stack = Vec::new();
    let mut heap = LispHeap::new();
    let r = prog.run(&entry_symbol(), &mut stack, &mut heap);
    (stack, heap, r)
}

fn run_code(code: Vec<Bytecode>) -> (Vec<LispRecord>, Result<(), RuntimeError>) {
    let mut prog = Compiled::new();
    for c in code {
        prog.append(c);
    }
    let mut stack = Vec::new();
    let mut heap = LispHeap::new();
    let r = prog.run(&entry_symbol(), &mut stack, &mut heap);
    (stack, r)
}

#[test]
fn literal_compiles_to_one_push() {
    let prog = LispValue::Number(12).compile();
    let entry = prog.entry();
    assert_eq!(entry.len(), 1);
    match &entry[0] {
        Bytecode::PushConst(r) => assert_eq!(r.to_number().unwrap(), 12),
        other => panic!("unexpected {:?}", other),
    }
    let prog = LispValue::Char('q').compile();
    match &prog.entry()[0] {
        Bytecode::PushConst(r) => assert_eq!(r.to_char().unwrap(), 'q'),
        other => panic!("unexpected {:?}", other),
    }
}

#[test]
fn quoted_list_is_pushed_whole() {
    let quoted = LispValue::Expression(Box::new(list(vec![sym("a"), LispValue::Number(1)])));
    let prog = quoted.compile();
    assert_eq!(prog.entry().len(), 1);
    match &prog.entry()[0] {
        Bytecode::PushConst(r) => {
            assert!(r.value().equals(&list(vec![sym("a"), LispValue::Number(1)])))
        }
        other => panic!("unexpected {:?}", other),
    }
}

#[test]
fn symbol_compiles_to_push() {
    let prog = sym("x").compile();
    assert_eq!(prog.entry().len(), 1);
    assert!(matches!(&prog.entry()[0], Bytecode::Push(s) if s == "x"));
}

#[test]
fn empty_inputs_compile_to_nothing() {
    let nodes: Vec<LispValue> = Vec::new();
    assert!(nodes.compile().entry().is_empty());
    assert!(list(vec![]).compile().entry().is_empty());
}

#[test]
fn call_compiles_operands_then_call() {
    let prog = list(vec![sym("f"), LispValue::Number(1), sym("y")]).compile();
    let e = prog.entry();
    assert_eq!(e.len(), 3);
    assert!(matches!(&e[0], Bytecode::PushConst(_)));
    assert!(matches!(&e[1], Bytecode::Push(s) if s == "y"));
    assert!(matches!(&e[2], Bytecode::Call(s) if s == "f"));
}

#[test]
fn non_symbol_head_emits_no_call() {
    let prog = list(vec![list(vec![]), LispValue::Number(1)]).compile();
    assert_eq!(prog.entry().len(), 1);
    assert!(matches!(&prog.entry()[0], Bytecode::PushConst(_)));
}

#[test]
fn sequence_joins_entries_in_order() {
    let nodes = vec![LispValue::Number(1), sym("a")];
    let prog = nodes.compile();
    let e = prog.entry();
    assert_eq!(e.len(), 2);
    assert!(matches!(&e[0], Bytecode::PushConst(_)));
    assert!(matches!(&e[1], Bytecode::Push(s) if s == "a"));
}

#[test]
fn merge_rejects_redefinition() {
    let mut a = Compiled::new();
    a.add_entry("f".to_string(), vec![Bytecode::Add]);
    let mut b = Compiled::new();
    b.add_entry("f".to_string(), vec![Bytecode::Sub]);
    match a.append_compiled(b) {
        Err(lispvm::CompileError::Redefinition(s)) => assert_eq!(s, "f"),
        Ok(()) => panic!("merge accepted a redefinition"),
    }
}

#[test]
fn merge_joins_entries() {
    let mut a = Compiled::new();
    a.append(Bytecode::Add);
    let mut b = Compiled::new();
    b.append(Bytecode::Sub);
    b.add_entry("g".to_string(), vec![Bytecode::Mul]);
    a.append_compiled(b).unwrap();
    assert_eq!(a.entry().len(), 2);
    assert!(matches!(&a.entry()[0], Bytecode::Add));
    assert!(matches!(&a.entry()[1], Bytecode::Sub));
    assert_eq!(a.code(&"g".to_string()).unwrap().len(), 1);
}

#[test]
fn add_twelve_and_one() {
    let (stack, _heap, r) = run_ast(list(vec![sym("+"), LispValue::Number(12), LispValue::Number(1)]));
    assert!(r.is_ok());
    assert_eq!(stack.len(), 1);
    assert_eq!(stack[0].to_number().unwrap(), 13);
}

#[test]
fn lte_compares_top_against_second() {
    // the last operand is popped first and stands on the left: 5 <= 3
    let (stack, _heap, r) = run_ast(list(vec![sym("<="), LispValue::Number(3), LispValue::Number(5)]));
    assert!(r.is_ok());
    assert_eq!(stack.len(), 1);
    assert_eq!(stack[0].to_bool().unwrap(), false);
    let (stack, _heap, _) = run_ast(list(vec![sym("<="), LispValue::Number(5), LispValue::Number(3)]));
    assert_eq!(stack[0].to_bool().unwrap(), true);
}

#[test]
fn sub_and_div_take_top_as_left_operand() {
    let (stack, _, _) = run_ast(list(vec![sym("-"), LispValue::Number(5), LispValue::Number(3)]));
    assert_eq!(stack[0].to_number().unwrap(), -2);
    let (stack, _, _) = run_ast(list(vec![sym("/"), LispValue::Number(2), LispValue::Number(8)]));
    assert_eq!(stack[0].to_number().unwrap(), 4);
    let (stack, _, _) = run_ast(list(vec![sym("/"), LispValue::Number(2), LispValue::Number(-7)]));
    assert_eq!(stack[0].to_number().unwrap(), -3);
    let (stack, _, _) = run_ast(list(vec![sym("*"), LispValue::Number(6), LispValue::Number(7)]));
    assert_eq!(stack[0].to_number().unwrap(), 42);
}

#[test]
fn division_by_zero_and_overflow_fail() {
    let (_, _, r) = run_ast(list(vec![sym("/"), LispValue::Number(0), LispValue::Number(5)]));
    assert_eq!(r, Err(RuntimeError::DivisionByZero));
    let (_, _, r) = run_ast(list(vec![sym("+"), LispValue::Number(i64::MAX), LispValue::Number(1)]));
    assert_eq!(r, Err(RuntimeError::Overflow(Operator::Add)));
    let (_, _, r) = run_ast(list(vec![sym("/"), LispValue::Number(-1), LispValue::Number(i64::MIN)]));
    assert_eq!(r, Err(RuntimeError::Overflow(Operator::Div)));
}

#[test]
fn wrong_argument_type_fails() {
    let (_, _, r) = run_ast(list(vec![
        sym("+"),
        LispValue::Number(1),
        LispValue::String("a".to_string()),
    ]));
    assert_eq!(r, Err(RuntimeError::WrongArgumentType(Operator::Add)));
    let (_, r) = run_code(vec![Bytecode::PushConst(LispRecord::from_number(1)), Bytecode::Not]);
    assert_eq!(r, Err(RuntimeError::WrongArgumentType(Operator::Not)));
}

#[test]
fn not_negates_booleans() {
    let (stack, r) = run_code(vec![Bytecode::PushConst(LispRecord::from_bool(true)), Bytecode::Not]);
    assert!(r.is_ok());
    assert!(stack[0].value().equals(&sym("false")));
    let (stack, _) = run_code(vec![Bytecode::PushConst(LispRecord::from_bool(false)), Bytecode::Not]);
    assert!(stack[0].value().equals(&sym("true")));
}

#[test]
fn equ_compares_records() {
    let (stack, _, _) = run_ast(list(vec![sym("="), LispValue::Number(4), LispValue::Number(4)]));
    assert_eq!(stack[0].to_bool().unwrap(), true);
    let (stack, _, _) = run_ast(list(vec![sym("="), LispValue::Number(4), sym("undefinedsym")]));
    assert_eq!(stack[0].to_bool().unwrap(), false);
}

#[test]
fn undefined_call_is_noop() {
    let mut prog = Compiled::new();
    prog.append(Bytecode::Call("nowhere".to_string()));
    let mut stack = vec![LispRecord::from_number(7)];
    let mut heap = LispHeap::new();
    heap.insert("k".to_string(), LispRecord::from_number(1));
    assert!(prog.run(&entry_symbol(), &mut stack, &mut heap).is_ok());
    assert_eq!(stack.len(), 1);
    assert_eq!(stack[0].to_number().unwrap(), 7);
    assert_eq!(heap.get(&"k".to_string()).unwrap().to_number().unwrap(), 1);
    assert!(heap.get(&"nowhere".to_string()).is_none());
}

#[test]
fn missing_operands_abort() {
    for (op, name) in [
        (Bytecode::Add, Operator::Add),
        (Bytecode::Sub, Operator::Sub),
        (Bytecode::Mul, Operator::Mul),
        (Bytecode::Div, Operator::Div),
        (Bytecode::Lte, Operator::Lte),
        (Bytecode::Equ, Operator::Equ),
        (Bytecode::Not, Operator::Not),
    ] {
        let (stack, r) = run_code(vec![op]);
        assert_eq!(r, Err(RuntimeError::NotEnoughArguments(name)));
        assert!(stack.is_empty());
    }
    let (_, r) = run_code(vec![Bytecode::PushConst(LispRecord::from_number(1)), Bytecode::Sub]);
    assert_eq!(r, Err(RuntimeError::NotEnoughArguments(Operator::Sub)));
}

#[test]
fn missing_entry_is_an_error() {
    let prog = Compiled::new();
    let mut stack = Vec::new();
    let mut heap = LispHeap::new();
    assert_eq!(
        prog.run(&"main".to_string(), &mut stack, &mut heap),
        Err(RuntimeError::MissingEntry)
    );
}

#[test]
fn store_load_and_pop() {
    let (stack, r) = run_code(vec![
        Bytecode::StoreConst(LispRecord::from_number(9), "x".to_string()),
        Bytecode::Load("x".to_string()),
        Bytecode::Push("y".to_string()),
        Bytecode::Pop("z".to_string()),
        Bytecode::Push("z".to_string()),
    ]);
    assert!(r.is_ok());
    assert_eq!(stack.len(), 2);
    assert_eq!(stack[0].to_number().unwrap(), 9);
    assert!(stack[1].value().equals(&sym("undefined")));
}

#[test]
fn pop_on_empty_stack_stores_undefined() {
    let mut prog = Compiled::new();
    prog.append(Bytecode::Pop("v".to_string()));
    let mut stack = Vec::new();
    let mut heap = LispHeap::new();
    assert!(prog.run(&entry_symbol(), &mut stack, &mut heap).is_ok());
    assert!(heap.get(&"v".to_string()).unwrap().value().equals(&sym("undefined")));
}

#[test]
fn calls_share_stack_and_recurse_to_a_limit() {
    let mut prog = Compiled::new();
    prog.add_entry("two".to_string(), vec![Bytecode::PushConst(LispRecord::from_number(2))]);
    prog.add_entry("double".to_string(), vec![Bytecode::Call("two".to_string()), Bytecode::Mul]);
    prog.append(Bytecode::PushConst(LispRecord::from_number(21)));
    prog.append(Bytecode::Call("double".to_string()));
    let mut stack = Vec::new();
    let mut heap = LispHeap::new();
    assert!(prog.run(&entry_symbol(), &mut stack, &mut heap).is_ok());
    assert_eq!(stack.len(), 1);
    assert_eq!(stack[0].to_number().unwrap(), 42);

    let mut looping = Compiled::new();
    looping.add_entry("f".to_string(), vec![Bytecode::Call("f".to_string())]);
    looping.append(Bytecode::Call("f".to_string()));
    let mut stack = Vec::new();
    assert_eq!(
        looping.run(&entry_symbol(), &mut stack, &mut heap),
        Err(RuntimeError::CallDepthExceeded)
    );
}

#[test]
fn program_binding_takes_precedence_over_builtin() {
    let mut prog = list(vec![sym("+"), LispValue::Number(12), LispValue::Number(1)]).compile();
    prog.add_entry("+".to_string(), vec![Bytecode::Mul]);
    let mut stack = Vec::new();
    let mut heap = LispHeap::new();
    assert!(prog.run(&entry_symbol(), &mut stack, &mut heap).is_ok());
    assert_eq!(stack.len(), 1);
    assert_eq!(stack[0].to_number().unwrap(), 12);
}

#[test]
fn builtin_not_through_call() {
    let (stack, _, r) = run_ast(list(vec![sym("not"), LispValue::Expression(Box::new(sym("true")))]));
    assert!(r.is_ok());
    assert_eq!(stack.len(), 1);
    assert_eq!(stack[0].to_bool().unwrap(), false);
}
