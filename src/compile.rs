use vstd::prelude::*;

use crate::bytecode::{entry_name, entry_symbol, ops_of, Bytecode, Compiled, Op};
use crate::record::{plain, LispRecord};
use crate::value::{LispValue, Val};

verus! {

/// The call that ends a list whose head is `head`: a symbol is called,
/// anything else is ignored.
pub open spec fn call_of(head: Val) -> Seq<Op> {
    match head {
        Val::Symbol(s) => seq![Op::Call(s)],
        _ => Seq::empty(),
    }
}

/// The lowered operands `items[1]`, ..., `items[n]`, in order.
pub open spec fn compile_args(items: Seq<Val>, n: int) -> Seq<Op>
    decreases items, n,
{
    if n <= 0 || n >= items.len() {
        Seq::empty()
    } else {
        compile_args(items, n - 1) + compile_val(items[n])
    }
}

/// The entry instructions that one node lowers to.
pub open spec fn compile_val(v: Val) -> Seq<Op>
    decreases v, 0int,
{
    if v.is_literal() {
        seq![Op::PushConst(plain(v))]
    } else {
        match v {
            Val::Expression(e) => seq![Op::PushConst(plain(*e))],
            Val::Symbol(s) => seq![Op::Push(s)],
            Val::List(items) => if items.len() == 0 {
                Seq::empty()
            } else {
                compile_args(items, items.len() - 1) + call_of(items[0])
            },
            _ => Seq::empty(),
        }
    }
}

/// The models of a sequence of nodes.
pub open spec fn views_of(vs: Seq<LispValue>) -> Seq<Val> {
    vs.map_values(|v: LispValue| v@)
}

/// The entry instructions of the first `n` top-level nodes, in order.
pub open spec fn compile_prefix(vs: Seq<Val>, n: int) -> Seq<Op>
    decreases n,
{
    if n <= 0 || n > vs.len() {
        Seq::empty()
    } else {
        compile_prefix(vs, n - 1) + compile_val(vs[n - 1])
    }
}

/// The entry instructions that a sequence of top-level nodes lowers to.
pub open spec fn compile_seq(vs: Seq<Val>) -> Seq<Op> {
    compile_prefix(vs, vs.len() as int)
}

/// A literal node lowers to exactly one constant push, whose record holds
/// the node itself and no properties.
pub proof fn lemma_literal_compiles_to_one_push(v: Val)
    requires
        v.is_literal(),
    ensures
        compile_val(v).len() == 1,
        compile_val(v)[0] is PushConst,
        compile_val(v)[0]->PushConst_0 == plain(v),
        compile_val(v)[0]->PushConst_0.val == v,
{
}

/// An empty list, and an empty sequence of nodes, lower to no instructions.
pub proof fn lemma_empty_compiles_to_nothing(vs: Seq<LispValue>)
    requires
        vs.len() == 0,
    ensures
        compile_val(Val::List(Seq::empty())) == Seq::<Op>::empty(),
        compile_seq(views_of(vs)) == Seq::<Op>::empty(),
{
}

/// Whatever can be lowered to a program.
pub trait AstValue {
    spec fn compiled(&self) -> Map<Seq<char>, Seq<Op>>;

    fn compile(&self) -> (r: Compiled)
        ensures
            r.wf(),
            r@ == self.compiled(),
    ;
}

impl LispValue {
    /// Lowers one node; operands are lowered in place, left to right.
    pub fn compile_node(&self) -> (r: Compiled)
        ensures
            r.wf(),
            r@ == map![entry_name() => compile_val(self@)],
        decreases self,
    {
        let mut res = Compiled::new();
        if self.literal() {
            res.append(Bytecode::PushConst(LispRecord::from_value(self.duplicate())));
        } else {
            match self {
                LispValue::Expression(e) => {
                    res.append(Bytecode::PushConst(LispRecord::from_value(e.duplicate())));
                },
                LispValue::Symbol(s) => {
                    res.append(Bytecode::Push(s.clone()));
                },
                LispValue::List(v) => {
                    if v.len() > 0 {
                        let ghost items = self@->List_0;
                        let mut i: usize = 1;
                        while i < v.len()
                            invariant
                                1 <= i <= v@.len(),
                                self is List && self->List_0 == *v,
                                items == self@->List_0,
                                res.wf(),
                                res@ == map![entry_name() => compile_args(items, i - 1)],
                            decreases v@.len() - i,
                        {
                            proof {
                                assert(decreases_to!(*self => self->List_0));
                                assert(decreases_to!(self->List_0 => v[i as int]));
                            }
                            let sub = v[i].compile_node();
                            let _ = res.append_compiled(sub);
                            proof {
                                assert(items[i as int] == v@[i as int]@);
                                assert(res@ =~= map![entry_name() => compile_args(items, i as int)]);
                            }
                            i = i + 1;
                        }
                        let ghost after_args = res@[entry_name()];
                        assert(items[0] == v@[0]@);
                        match &v[0] {
                            LispValue::Symbol(s) => {
                                res.append(Bytecode::Call(s.clone()));
                                assert(res@[entry_name()] =~= after_args + call_of(items[0]));
                            },
                            _ => {
                                assert(after_args =~= after_args + call_of(items[0]));
                            },
                        }
                        assert(res@[entry_name()] == after_args + call_of(items[0]));
                        proof {
                            assert(items.len() == v@.len());
                            assert(!self@.is_literal());
                            assert(self@ == Val::List(items));
                            assert(res@ =~= map![entry_name() => compile_val(self@)]);
                        }
                    }
                },
                _ => {},
            }
        }
        assert(res@ =~= map![entry_name() => compile_val(self@)]);
        res
    }
}

impl AstValue for LispValue {
    open spec fn compiled(&self) -> Map<Seq<char>, Seq<Op>> {
        map![entry_name() => compile_val(self@)]
    }

    fn compile(&self) -> (r: Compiled) {
        self.compile_node()
    }
}

impl AstValue for Vec<LispValue> {
    open spec fn compiled(&self) -> Map<Seq<char>, Seq<Op>> {
        map![entry_name() => compile_seq(views_of(self@))]
    }

    /// Lowers each node on its own and joins their entry sequences in order.
    fn compile(&self) -> (r: Compiled) {
        let ghost vals = views_of(self@);
        let mut entry: Vec<Bytecode> = Vec::new();
        let mut i: usize = 0;
        assert(ops_of(entry@) =~= compile_prefix(vals, 0));
        while i < self.len()
            invariant
                i <= self@.len(),
                vals == views_of(self@),
                ops_of(entry@) == compile_prefix(vals, i as int),
            decreases self@.len() - i,
        {
            let stmts = self[i].compile_node();
            let code = stmts.entry();
            let ghost start = entry@;
            let mut j: usize = 0;
            while j < code.len()
                invariant
                    j <= code@.len(),
                    ops_of(entry@) == ops_of(start) + ops_of(code@).take(j as int),
                decreases code@.len() - j,
            {
                let c = code[j].duplicate();
                let ghost prev = entry@;
                entry.push(c);
                assert(ops_of(entry@) =~= ops_of(prev).push(c@));
                assert(ops_of(code@).take(j as int + 1) =~= ops_of(code@).take(j as int).push(c@));
                assert(ops_of(entry@) =~= ops_of(start) + ops_of(code@).take(j as int + 1));
                j = j + 1;
            }
            assert(ops_of(code@).take(code@.len() as int) =~= ops_of(code@));
            assert(vals[i as int] == self@[i as int]@);
            i = i + 1;
        }
        let mut res = Compiled::new();
        res.add_entry(entry_symbol(), entry);
        assert(Seq::<Op>::empty() + ops_of(entry@) =~= ops_of(entry@));
        assert(res@ =~= map![entry_name() => compile_seq(vals)]);
        res
    }
}

} // verus!
