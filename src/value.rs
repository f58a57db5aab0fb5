use vstd::prelude::*;

verus! {

/// The classification of a value, with quoted expressions seen through.
#[derive(Debug, Clone, Copy, PartialEq, Eq, Structural)]
pub enum LispType {
    List,
    String,
    Number,
    Symbol,
    Char,
}

/// Mathematical model of a `LispValue`.
pub enum Val {
    List(Seq<Val>),
    Number(i64),
    Str(Seq<char>),
    Symbol(Seq<char>),
    Char(char),
    Expression(Box<Val>),
}

impl Val {
    pub open spec fn kind(self) -> LispType
        decreases self,
    {
        match self {
            Val::List(_) => LispType::List,
            Val::Number(_) => LispType::Number,
            Val::Str(_) => LispType::String,
            Val::Symbol(_) => LispType::Symbol,
            Val::Char(_) => LispType::Char,
            Val::Expression(e) => e.kind(),
        }
    }

    /// A value is literal when it is neither a list nor a symbol; a quoted
    /// expression is literal when what it quotes is.
    pub open spec fn is_literal(self) -> bool
        decreases self,
    {
        match self {
            Val::List(_) => false,
            Val::Symbol(_) => false,
            Val::Expression(e) => e.is_literal(),
            _ => true,
        }
    }
}

/// A node of the syntax tree, and the payload of every record.
#[derive(Debug)]
pub enum LispValue {
    List(Vec<LispValue>),
    Number(i64),
    String(String),
    Symbol(String),
    Char(char),
    Expression(Box<LispValue>),
}

impl View for LispValue {
    type V = Val;

    open spec fn view(&self) -> Val {
        self.model()
    }
}

impl LispValue {
    pub open spec fn model(&self) -> Val
        decreases self,
    {
        match self {
            LispValue::List(v) => Val::List(
                Seq::new(
                    v.len() as nat,
                    |i: int|
                        if 0 <= i < v.len() {
                            v[i].model()
                        } else {
                            Val::Number(0)
                        },
                ),
            ),
            LispValue::Number(n) => Val::Number(*n),
            LispValue::String(s) => Val::Str(s@),
            LispValue::Symbol(s) => Val::Symbol(s@),
            LispValue::Char(c) => Val::Char(*c),
            LispValue::Expression(e) => Val::Expression(Box::new(e.model())),
        }
    }
}

impl LispValue {
    pub fn get_type(&self) -> (r: LispType)
        ensures
            r == self@.kind(),
        decreases self,
    {
        match self {
            LispValue::List(_) => LispType::List,
            LispValue::Number(_) => LispType::Number,
            LispValue::String(_) => LispType::String,
            LispValue::Symbol(_) => LispType::Symbol,
            LispValue::Char(_) => LispType::Char,
            LispValue::Expression(e) => e.get_type(),
        }
    }

    pub fn literal(&self) -> (r: bool)
        ensures
            r == self@.is_literal(),
        decreases self,
    {
        match self {
            LispValue::List(_) => false,
            LispValue::Symbol(_) => false,
            LispValue::Expression(e) => e.literal(),
            _ => true,
        }
    }

    /// A copy of the value, equal to it in the model.
    pub fn duplicate(&self) -> (r: LispValue)
        ensures
            r@ == self@,
        decreases self,
    {
        match self {
            LispValue::List(v) => {
                let mut out: Vec<LispValue> = Vec::new();
                let mut i: usize = 0;
                while i < v.len()
                    invariant
                        i <= v.len(),
                        self is List && self->List_0 == *v,
                        out@.len() == i,
                        forall|j: int| 0 <= j < i ==> (#[trigger] out@[j])@ == v@[j]@,
                    decreases v.len() - i,
                {
                    proof {
                        assert(decreases_to!(*self => self->List_0));
                        assert(decreases_to!(*v => v[i as int]));
                    }
                    let c = v[i].duplicate();
                    out.push(c);
                    i = i + 1;
                }
                let r = LispValue::List(out);
                assert(r@ == self@) by {
                    if let Val::List(a) = r@ {
                        if let Val::List(b) = self@ {
                            assert(a =~= b);
                        }
                    }
                }
                r
            },
            LispValue::Number(n) => LispValue::Number(*n),
            LispValue::String(s) => LispValue::String(s.clone()),
            LispValue::Symbol(s) => LispValue::Symbol(s.clone()),
            LispValue::Char(c) => LispValue::Char(*c),
            LispValue::Expression(e) => LispValue::Expression(Box::new(e.duplicate())),
        }
    }

    /// Structural equality on the model.
    pub fn equals(&self, other: &LispValue) -> (r: bool)
        ensures
            r == (self@ == other@),
        decreases self,
    {
        match (self, other) {
            (LispValue::List(a), LispValue::List(b)) => {
                if a.len() != b.len() {
                    assert(self@->List_0.len() != other@->List_0.len());
                    return false;
                }
                let mut i: usize = 0;
                while i < a.len()
                    invariant
                        i <= a.len(),
                        a.len() == b.len(),
                        self is List && self->List_0 == *a,
                        other is List && other->List_0 == *b,
                        forall|j: int| 0 <= j < i ==> (#[trigger] a@[j])@ == b@[j]@,
                    decreases a.len() - i,
                {
                    proof {
                        assert(decreases_to!(*self => self->List_0));
                        assert(decreases_to!(*a => a[i as int]));
                    }
                    if !a[i].equals(&b[i]) {
                        assert(self@->List_0[i as int] != other@->List_0[i as int]);
                        return false;
                    }
                    i = i + 1;
                }
                assert(self@->List_0 =~= other@->List_0);
                true
            },
            (LispValue::Number(a), LispValue::Number(b)) => *a == *b,
            (LispValue::String(a), LispValue::String(b)) => *a == *b,
            (LispValue::Symbol(a), LispValue::Symbol(b)) => *a == *b,
            (LispValue::Char(a), LispValue::Char(b)) => *a == *b,
            (LispValue::Expression(a), LispValue::Expression(b)) => {
                let r = a.equals(b);
                proof {
                    if r {
                        assert(self@ == other@);
                    } else {
                        if let Val::Expression(x) = self@ {
                            if let Val::Expression(y) = other@ {
                                assert(*x != *y);
                            }
                        }
                    }
                }
                r
            },
            _ => false,
        }
    }
}

impl From<i64> for LispValue {
    fn from(n: i64) -> (r: LispValue) {
        LispValue::Number(n)
    }
}

impl vstd::std_specs::convert::FromSpecImpl<i64> for LispValue {
    open spec fn obeys_from_spec() -> bool {
        true
    }

    open spec fn from_spec(n: i64) -> LispValue {
        LispValue::Number(n)
    }
}

impl From<char> for LispValue {
    fn from(c: char) -> (r: LispValue) {
        LispValue::Char(c)
    }
}

impl vstd::std_specs::convert::FromSpecImpl<char> for LispValue {
    open spec fn obeys_from_spec() -> bool {
        true
    }

    open spec fn from_spec(c: char) -> LispValue {
        LispValue::Char(c)
    }
}

impl From<String> for LispValue {
    fn from(s: String) -> (r: LispValue) {
        LispValue::String(s)
    }
}

impl vstd::std_specs::convert::FromSpecImpl<String> for LispValue {
    open spec fn obeys_from_spec() -> bool {
        true
    }

    open spec fn from_spec(s: String) -> LispValue {
        LispValue::String(s)
    }
}

impl Default for LispValue {
    /// The symbol `undefined`.
    fn default() -> (r: LispValue)
        ensures
            r@ == Val::Symbol("undefined"@),
    {
        proof {
            reveal_strlit("undefined");
        }
        LispValue::Symbol("undefined".to_string())
    }
}

impl Clone for LispValue {
    fn clone(&self) -> (r: LispValue)
        ensures
            r@ == self@,
    {
        self.duplicate()
    }
}

} // verus!
