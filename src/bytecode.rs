use vstd::prelude::*;

use crate::assoc::{
    assoc_map, find_key, keys_distinct, lemma_assoc_dom, lemma_assoc_index, lemma_assoc_push,
    lemma_assoc_update,
};
use crate::record::{LispRecord, RecordModel};

verus! {

/// One instruction of the stack machine.
#[derive(Debug)]
pub enum Bytecode {
    PushConst(LispRecord),
    Push(String),
    Pop(String),
    StoreConst(LispRecord, String),
    Load(String),
    Call(String),
    Add,
    Sub,
    Mul,
    Div,
    Lte,
    Equ,
    Not,
}

/// Model of an instruction.
pub enum Op {
    PushConst(RecordModel),
    Push(Seq<char>),
    Pop(Seq<char>),
    StoreConst(RecordModel, Seq<char>),
    Load(Seq<char>),
    Call(Seq<char>),
    Add,
    Sub,
    Mul,
    Div,
    Lte,
    Equ,
    Not,
}

impl View for Bytecode {
    type V = Op;

    open spec fn view(&self) -> Op {
        match self {
            Bytecode::PushConst(r) => Op::PushConst(r@),
            Bytecode::Push(s) => Op::Push(s@),
            Bytecode::Pop(s) => Op::Pop(s@),
            Bytecode::StoreConst(r, s) => Op::StoreConst(r@, s@),
            Bytecode::Load(s) => Op::Load(s@),
            Bytecode::Call(s) => Op::Call(s@),
            Bytecode::Add => Op::Add,
            Bytecode::Sub => Op::Sub,
            Bytecode::Mul => Op::Mul,
            Bytecode::Div => Op::Div,
            Bytecode::Lte => Op::Lte,
            Bytecode::Equ => Op::Equ,
            Bytecode::Not => Op::Not,
        }
    }
}

impl Bytecode {
    pub fn duplicate(&self) -> (r: Bytecode)
        ensures
            r@ == self@,
    {
        match self {
            Bytecode::PushConst(r) => Bytecode::PushConst(r.duplicate()),
            Bytecode::Push(s) => Bytecode::Push(s.clone()),
            Bytecode::Pop(s) => Bytecode::Pop(s.clone()),
            Bytecode::StoreConst(r, s) => Bytecode::StoreConst(r.duplicate(), s.clone()),
            Bytecode::Load(s) => Bytecode::Load(s.clone()),
            Bytecode::Call(s) => Bytecode::Call(s.clone()),
            Bytecode::Add => Bytecode::Add,
            Bytecode::Sub => Bytecode::Sub,
            Bytecode::Mul => Bytecode::Mul,
            Bytecode::Div => Bytecode::Div,
            Bytecode::Lte => Bytecode::Lte,
            Bytecode::Equ => Bytecode::Equ,
            Bytecode::Not => Bytecode::Not,
        }
    }
}

impl Clone for Bytecode {
    fn clone(&self) -> (r: Bytecode)
        ensures
            r@ == self@,
    {
        self.duplicate()
    }
}

/// The models of a sequence of instructions.
pub open spec fn ops_of(code: Seq<Bytecode>) -> Seq<Op> {
    code.map_values(|b: Bytecode| b@)
}

/// The symbol that names a program's top level.
pub open spec fn entry_name() -> Seq<char> {
    "entry"@
}

/// The name of a program's top level.
pub fn entry_symbol() -> (r: String)
    ensures
        r@ == entry_name(),
{
    proof {
        reveal_strlit("entry");
    }
    "entry".to_string()
}

/// `b` merged into `a`: where both define a symbol (the entry, in a merge
/// that succeeds) the sequences are joined; every other symbol comes from
/// whichever program defines it.
pub open spec fn merge_programs(a: Map<Seq<char>, Seq<Op>>, b: Map<Seq<char>, Seq<Op>>) -> Map<
    Seq<char>,
    Seq<Op>,
> {
    Map::new(
        |k: Seq<char>| a.contains_key(k) || b.contains_key(k),
        |k: Seq<char>|
            if a.contains_key(k) && b.contains_key(k) {
                a[k] + b[k]
            } else if b.contains_key(k) {
                b[k]
            } else {
                a[k]
            },
    )
}

/// The program model of an association list of code.
pub open spec fn code_map(es: Seq<(String, Vec<Bytecode>)>) -> Map<Seq<char>, Seq<Op>> {
    Map::new(
        |k: Seq<char>| assoc_map(es).contains_key(k),
        |k: Seq<char>| ops_of(assoc_map(es)[k]),
    )
}

/// Both programs define `k`, and `k` is not the entry symbol.
pub open spec fn clashes(a: Map<Seq<char>, Seq<Op>>, b: Map<Seq<char>, Seq<Op>>, k: Seq<char>) -> bool {
    k != entry_name() && a.contains_key(k) && b.contains_key(k)
}

/// A merge that would define one symbol twice.
#[derive(Debug)]
pub enum CompileError {
    Redefinition(String),
}

/// A program: named instruction sequences, one of them the entry.
#[derive(Debug)]
pub struct Compiled {
    entries: Vec<(String, Vec<Bytecode>)>,
}

impl View for Compiled {
    type V = Map<Seq<char>, Seq<Op>>;

    closed spec fn view(&self) -> Map<Seq<char>, Seq<Op>> {
        code_map(self.entries@)
    }
}

impl Compiled {
    pub closed spec fn wf(&self) -> bool {
        &&& keys_distinct(self.entries@)
        &&& assoc_map(self.entries@).contains_key(entry_name())
    }

    /// A program whose entry sequence is empty and which defines nothing else.
    pub fn new() -> (r: Compiled)
        ensures
            r.wf(),
            r@ == map![entry_name() => Seq::<Op>::empty()],
    {
        let mut entries: Vec<(String, Vec<Bytecode>)> = Vec::new();
        let e = (entry_symbol(), Vec::new());
        proof {
            lemma_assoc_push(entries@, e);
            assert(keys_distinct(entries@.push(e)));
        }
        entries.push(e);
        let r = Compiled { entries };
        assert(ops_of(Seq::<Bytecode>::empty()) =~= Seq::<Op>::empty());
        assert(r@ =~= map![entry_name() => Seq::<Op>::empty()]);
        r
    }

    /// Appends `v` to the sequence of `k`, or binds `k` to `v` where it has none.
    pub fn add_entry(&mut self, k: String, v: Vec<Bytecode>)
        requires
            old(self).wf(),
        ensures
            final(self).wf(),
            final(self)@ == old(self)@.insert(
                k@,
                if old(self)@.contains_key(k@) {
                    old(self)@[k@] + ops_of(v@)
                } else {
                    ops_of(v@)
                },
            ),
    {
        proof {
            lemma_assoc_dom(self.entries@, k@);
            lemma_assoc_dom(self.entries@, entry_name());
        }
        let ghost old_entries = self.entries@;
        match find_key(&self.entries, &k) {
            Some(i) => {
                proof {
                    lemma_assoc_index(self.entries@, i as int);
                }
                let mut code = Vec::new();
                std::mem::swap(&mut code, &mut self.entries[i].1);
                let ghost before = code@;
                let mut v = v;
                let ghost added = v@;
                code.append(&mut v);
                let e = (k, code);
                proof {
                    lemma_assoc_update(old_entries, i as int, e);
                }
                self.entries.set(i, e);
                proof {
                    assert(self.entries@ == old_entries.update(i as int, e));
                    assert(ops_of(before + added) =~= ops_of(before) + ops_of(added));
                    lemma_assoc_dom(self.entries@, entry_name());
                    assert(self@ =~= old(self)@.insert(k@, old(self)@[k@] + ops_of(added)));
                }
            },
            None => {
                let e = (k, v);
                proof {
                    lemma_assoc_push(self.entries@, e);
                    assert(keys_distinct(self.entries@.push(e)));
                }
                self.entries.push(e);
                proof {
                    assert(self@ =~= old(self)@.insert(k@, ops_of(v@)));
                }
            },
        }
    }

    /// Merges a second program into this one. Fails, and changes nothing,
    /// where a symbol other than the entry is defined by both.
    pub fn append_compiled(&mut self, c: Compiled) -> (r: Result<(), CompileError>)
        requires
            old(self).wf(),
            c.wf(),
        ensures
            final(self).wf(),
            r is Ok <==> forall|k: Seq<char>| !clashes(old(self)@, c@, k),
            r is Ok ==> final(self)@ == merge_programs(old(self)@, c@),
            r matches Err(CompileError::Redefinition(s)) ==> clashes(old(self)@, c@, s@)
                && final(self)@ == old(self)@,
    {
        let ent = entry_symbol();
        let mut j: usize = 0;
        while j < c.entries.len()
            invariant
                j <= c.entries@.len(),
                self.wf(),
                c.wf(),
                self@ == old(self)@,
                ent@ == entry_name(),
                forall|t: int|
                    0 <= t < j ==> !clashes(self@, c@, (#[trigger] c.entries@[t]).0@),
            decreases c.entries@.len() - j,
        {
            let k = &c.entries[j].0;
            proof {
                lemma_assoc_index(c.entries@, j as int);
            }
            if *k != ent && self.code(k).is_some() {
                assert(c@.contains_key(k@));
                assert(clashes(old(self)@, c@, k@));
                return Err(CompileError::Redefinition(k.clone()));
            }
            j = j + 1;
        }
        proof {
            assert forall|k: Seq<char>| !clashes(self@, c@, k) by {
                lemma_assoc_dom(c.entries@, k);
                if c@.contains_key(k) {
                    let t = choose|t: int| 0 <= t < c.entries@.len() && c.entries@[t].0@ == k;
                    assert(!clashes(self@, c@, c.entries@[t].0@));
                }
            }
        }
        let ghost ces = c.entries@;
        let ghost start = self@;
        let mut es = c.entries;
        let mut i: usize = 0;
        assert(code_map(ces.take(0)) =~= Map::empty());
        assert(merge_programs(start, Map::empty()) =~= start);
        while i < es.len()
            invariant
                i <= es@.len(),
                es@.len() == ces.len(),
                keys_distinct(ces),
                self.wf(),
                forall|k: Seq<char>| !clashes(start, code_map(ces), k),
                forall|t: int| i <= t < es@.len() ==> #[trigger] es@[t] == ces[t],
                self@ == merge_programs(start, code_map(ces.take(i as int))),
            decreases es@.len() - i,
        {
            let mut code = Vec::new();
            std::mem::swap(&mut code, &mut es[i].1);
            let k = es[i].0.clone();
            proof {
                assert(ces.take(i as int + 1) =~= ces.take(i as int).push(ces[i as int]));
                lemma_assoc_push(ces.take(i as int), ces[i as int]);
                lemma_assoc_dom(ces.take(i as int), k@);
                lemma_assoc_index(ces, i as int);
                if assoc_map(ces.take(i as int)).contains_key(k@) {
                    let t = choose|t: int|
                        0 <= t < i && ces.take(i as int)[t].0@ == k@;
                    assert(ces[t].0@ == k@);
                }
            }
            self.add_entry(k, code);
            proof {
                let done_before = code_map(ces.take(i as int));
                let done_after = code_map(ces.take(i as int + 1));
                assert(done_after =~= done_before.insert(ces[i as int].0@, ops_of(ces[i as int].1@)));
                assert(self@ =~= merge_programs(start, done_after));
            }
            i = i + 1;
        }
        proof {
            assert(ces.take(ces.len() as int) =~= ces);
        }
        Ok(())
    }

    /// Appends one instruction to the entry sequence.
    pub fn append(&mut self, c: Bytecode)
        requires
            old(self).wf(),
        ensures
            final(self).wf(),
            final(self)@ == old(self)@.insert(entry_name(), old(self)@[entry_name()].push(c@)),
    {
        let ghost cv = c@;
        let mut v = Vec::new();
        v.push(c);
        assert(ops_of(v@) =~= seq![cv]);
        self.add_entry(entry_symbol(), v);
        assert(old(self)@[entry_name()] + seq![cv] =~= old(self)@[entry_name()].push(cv));
    }

    /// The entry sequence.
    pub fn entry(&self) -> (r: &Vec<Bytecode>)
        requires
            self.wf(),
        ensures
            self@.contains_key(entry_name()),
            ops_of(r@) == self@[entry_name()],
    {
        self.code(&entry_symbol()).unwrap()
    }

    /// The sequence bound to a symbol, if there is one.
    pub fn code(&self, sym: &String) -> (r: Option<&Vec<Bytecode>>)
        requires
            self.wf(),
        ensures
            r is Some == self@.contains_key(sym@),
            r is Some ==> ops_of(r->Some_0@) == self@[sym@],
    {
        proof {
            lemma_assoc_dom(self.entries@, sym@);
        }
        match find_key(&self.entries, sym) {
            Some(i) => {
                proof {
                    lemma_assoc_index(self.entries@, i as int);
                }
                Some(&self.entries[i].1)
            },
            None => None,
        }
    }
}

} // verus!
