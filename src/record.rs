use vstd::prelude::*;

use crate::assoc::{
    assoc_map, find_key, keys_distinct, lemma_assoc_dom, lemma_assoc_index, lemma_assoc_push,
    lemma_assoc_update,
};
use crate::value::{LispValue, Val};

verus! {

/// The primitive a projection was asked for.
#[derive(Debug, Clone, Copy, PartialEq, Eq, Structural)]
pub enum Target {
    Bool,
    Number,
    Char,
    String,
}

/// A failed projection: the value that did not fit, and what was asked for.
#[derive(Debug)]
pub struct ConversionError {
    source: LispValue,
    target: Target,
}

impl ConversionError {
    pub closed spec fn spec_source(&self) -> Val {
        self.source@
    }

    pub closed spec fn spec_target(&self) -> Target {
        self.target
    }

    pub fn new(source: LispValue, target: Target) -> (r: ConversionError)
        ensures
            r.spec_source() == source@,
            r.spec_target() == target,
    {
        ConversionError { source, target }
    }

    pub fn source(&self) -> (r: &LispValue)
        ensures
            r@ == self.spec_source(),
    {
        &self.source
    }

    pub fn target(&self) -> (r: Target)
        ensures
            r == self.spec_target(),
    {
        self.target
    }

    /// Two errors are alike when they carry the same source value.
    pub fn same_source(&self, other: &ConversionError) -> (r: bool)
        ensures
            r == (self.spec_source() == other.spec_source()),
    {
        self.source.equals(&other.source)
    }
}

/// Model of a record: its value and its properties.
pub struct RecordModel {
    pub val: Val,
    pub props: Map<Seq<char>, Val>,
}

/// A record that holds `v` and no properties.
pub open spec fn plain(v: Val) -> RecordModel {
    RecordModel { val: v, props: Map::empty() }
}

pub open spec fn bool_val(b: bool) -> Val {
    Val::Symbol(if b { "true"@ } else { "false"@ })
}

/// The boolean that a value encodes, if it encodes one.
pub open spec fn val_as_bool(v: Val) -> Option<bool> {
    if v == bool_val(true) {
        Some(true)
    } else if v == bool_val(false) {
        Some(false)
    } else {
        None
    }
}

/// What a store of `new` over `prior` leaves: the new value, and the prior
/// properties that the new record does not set.
pub open spec fn merge(prior: RecordModel, new: RecordModel) -> RecordModel {
    RecordModel { val: new.val, props: prior.props.union_prefer_right(new.props) }
}

pub open spec fn undefined_val() -> Val {
    Val::Symbol("undefined"@)
}

/// A value with a set of named properties.
#[derive(Debug)]
pub struct LispRecord {
    val: LispValue,
    properties: Vec<(String, LispValue)>,
}

impl View for LispRecord {
    type V = RecordModel;

    closed spec fn view(&self) -> RecordModel {
        RecordModel { val: self.val@, props: assoc_map(self.properties@) }
    }
}

impl LispRecord {
    #[verifier::type_invariant]
    spec fn inv(&self) -> bool {
        keys_distinct(self.properties@)
    }

    /// Embeds a value, with no properties.
    pub fn from_value(v: LispValue) -> (r: LispRecord)
        ensures
            r@ == plain(v@),
    {
        let r = LispRecord { val: v, properties: Vec::new() };
        assert(r@.props =~= Map::empty());
        r
    }

    pub fn from_number(n: i64) -> (r: LispRecord)
        ensures
            r@ == plain(Val::Number(n)),
    {
        LispRecord::from_value(LispValue::Number(n))
    }

    pub fn from_char(c: char) -> (r: LispRecord)
        ensures
            r@ == plain(Val::Char(c)),
    {
        LispRecord::from_value(LispValue::Char(c))
    }

    pub fn from_string(s: String) -> (r: LispRecord)
        ensures
            r@ == plain(Val::Str(s@)),
    {
        LispRecord::from_value(LispValue::String(s))
    }

    /// Embeds a boolean as the symbol `true` or `false`.
    pub fn from_bool(b: bool) -> (r: LispRecord)
        ensures
            r@ == plain(bool_val(b)),
    {
        let s = if b {
            "true".to_string()
        } else {
            "false".to_string()
        };
        proof {
            reveal_strlit("true");
            reveal_strlit("false");
        }
        LispRecord::from_value(LispValue::Symbol(s))
    }

    /// The record stored for a symbol that holds none.
    pub fn undefined() -> (r: LispRecord)
        ensures
            r@ == plain(undefined_val()),
    {
        proof {
            reveal_strlit("undefined");
        }
        LispRecord::from_value(LispValue::Symbol("undefined".to_string()))
    }

    pub fn value(&self) -> (r: &LispValue)
        ensures
            r@ == self@.val,
    {
        &self.val
    }

    pub fn to_value(&self) -> (r: LispValue)
        ensures
            r@ == self@.val,
    {
        self.val.duplicate()
    }

    pub fn to_number(&self) -> (r: Result<i64, ConversionError>)
        ensures
            match self@.val {
                Val::Number(n) => r == Ok::<i64, ConversionError>(n),
                _ => r is Err && r->Err_0.spec_source() == self@.val && r->Err_0.spec_target()
                    == Target::Number,
            },
    {
        match &self.val {
            LispValue::Number(n) => Ok(*n),
            _ => Err(ConversionError::new(self.val.duplicate(), Target::Number)),
        }
    }

    pub fn to_char(&self) -> (r: Result<char, ConversionError>)
        ensures
            match self@.val {
                Val::Char(c) => r == Ok::<char, ConversionError>(c),
                _ => r is Err && r->Err_0.spec_source() == self@.val && r->Err_0.spec_target()
                    == Target::Char,
            },
    {
        match &self.val {
            LispValue::Char(c) => Ok(*c),
            _ => Err(ConversionError::new(self.val.duplicate(), Target::Char)),
        }
    }

    pub fn to_string_value(&self) -> (r: Result<String, ConversionError>)
        ensures
            match self@.val {
                Val::Str(s) => r is Ok && r->Ok_0@ == s,
                _ => r is Err && r->Err_0.spec_source() == self@.val && r->Err_0.spec_target()
                    == Target::String,
            },
    {
        match &self.val {
            LispValue::String(s) => Ok(s.clone()),
            _ => Err(ConversionError::new(self.val.duplicate(), Target::String)),
        }
    }

    /// Projects a boolean: only the symbols `true` and `false` encode one.
    pub fn to_bool(&self) -> (r: Result<bool, ConversionError>)
        ensures
            match val_as_bool(self@.val) {
                Some(b) => r == Ok::<bool, ConversionError>(b),
                None => r is Err && r->Err_0.spec_source() == self@.val && r->Err_0.spec_target()
                    == Target::Bool,
            },
    {
        proof {
            reveal_strlit("true");
            reveal_strlit("false");
        }
        match &self.val {
            LispValue::Symbol(s) => {
                let t = "true".to_string();
                let f = "false".to_string();
                if *s == t {
                    return Ok(true);
                } else if *s == f {
                    return Ok(false);
                }
            },
            _ => {},
        }
        Err(ConversionError::new(self.val.duplicate(), Target::Bool))
    }

    pub fn property(&self, key: &String) -> (r: Option<LispValue>)
        ensures
            r is Some == self@.props.contains_key(key@),
            r is Some ==> r->Some_0@ == self@.props[key@],
    {
        proof {
            use_type_invariant(self);
            lemma_assoc_dom(self.properties@, key@);
        }
        match find_key(&self.properties, key) {
            Some(i) => {
                proof {
                    lemma_assoc_index(self.properties@, i as int);
                }
                Some(self.properties[i].1.duplicate())
            },
            None => None,
        }
    }

    /// Sets one property, leaving the others as they are.
    pub fn set_property(&mut self, key: String, v: LispValue)
        ensures
            final(self)@ == (RecordModel {
                val: old(self)@.val,
                props: old(self)@.props.insert(key@, v@),
            }),
    {
        proof {
            use_type_invariant(&*self);
        }
        let mut props = copy_props(&self.properties);
        match find_key(&props, &key) {
            Some(i) => {
                proof {
                    lemma_assoc_update(props@, i as int, (key, v));
                }
                props.set(i, (key, v));
            },
            None => {
                proof {
                    lemma_assoc_push(props@, (key, v));
                    assert(keys_distinct(props@.push((key, v))));
                }
                props.push((key, v));
            },
        }
        self.properties = props;
    }

    /// Equality of value and of properties, in any order.
    pub fn equals(&self, other: &LispRecord) -> (r: bool)
        ensures
            r == (self@ == other@),
    {
        proof {
            use_type_invariant(self);
            use_type_invariant(other);
        }
        if !self.val.equals(&other.val) {
            return false;
        }
        let a = &self.properties;
        let b = &other.properties;
        let mut i: usize = 0;
        while i < a.len()
            invariant
                i <= a@.len(),
                a@ == self.properties@,
                b@ == other.properties@,
                keys_distinct(a@),
                keys_distinct(b@),
                forall|j: int|
                    0 <= j < i ==> assoc_map(b@).contains_key((#[trigger] a@[j]).0@)
                        && assoc_map(b@)[a@[j].0@] == a@[j].1@,
            decreases a@.len() - i,
        {
            proof {
                lemma_assoc_index(a@, i as int);
                lemma_assoc_dom(b@, a@[i as int].0@);
            }
            match find_key(b, &a[i].0) {
                Some(k) => {
                    proof {
                        lemma_assoc_index(b@, k as int);
                    }
                    if !a[i].1.equals(&b[k].1) {
                        assert(assoc_map(a@)[a@[i as int].0@] != assoc_map(b@)[a@[i as int].0@]);
                        assert(self@.props != other@.props);
                        return false;
                    }
                },
                None => {
                    assert(!assoc_map(b@).contains_key(a@[i as int].0@));
                    assert(self@.props != other@.props);
                    return false;
                },
            }
            i = i + 1;
        }
        let mut k: usize = 0;
        while k < b.len()
            invariant
                k <= b@.len(),
                a@ == self.properties@,
                b@ == other.properties@,
                keys_distinct(b@),
                forall|j: int| 0 <= j < k ==> assoc_map(a@).contains_key((#[trigger] b@[j]).0@),
            decreases b@.len() - k,
        {
            proof {
                lemma_assoc_dom(a@, b@[k as int].0@);
            }
            match find_key(a, &b[k].0) {
                Some(_) => {},
                None => {
                    proof {
                        lemma_assoc_index(b@, k as int);
                    }
                    assert(!assoc_map(a@).contains_key(b@[k as int].0@));
                    assert(self@.props != other@.props);
                    return false;
                },
            }
            k = k + 1;
        }
        proof {
            assert forall|key: Seq<char>| #[trigger] assoc_map(a@).contains_key(key) implies
                assoc_map(b@).contains_key(key) && assoc_map(b@)[key] == assoc_map(a@)[key] by {
                lemma_assoc_dom(a@, key);
                let j = choose|j: int| 0 <= j < a@.len() && a@[j].0@ == key;
                lemma_assoc_index(a@, j);
            }
            assert forall|key: Seq<char>| #[trigger] assoc_map(b@).contains_key(key) implies
                assoc_map(a@).contains_key(key) by {
                lemma_assoc_dom(b@, key);
                let j = choose|j: int| 0 <= j < b@.len() && b@[j].0@ == key;
            }
            assert(assoc_map(a@) =~= assoc_map(b@));
        }
        true
    }

    /// This record stored over `prior`: its own value and properties, and
    /// those properties of `prior` that it does not set.
    pub fn merged_over(&self, prior: &LispRecord) -> (r: LispRecord)
        ensures
            r@ == merge(prior@, self@),
    {
        proof {
            use_type_invariant(self);
            use_type_invariant(prior);
        }
        let mut props = copy_props(&self.properties);
        let old_props = &prior.properties;
        let mut i: usize = 0;
        while i < old_props.len()
            invariant
                i <= old_props@.len(),
                keys_distinct(old_props@),
                keys_distinct(props@),
                assoc_map(props@) == assoc_map(old_props@.take(i as int)).union_prefer_right(
                    assoc_map(self.properties@),
                ),
            decreases old_props@.len() - i,
        {
            let e = &old_props[i];
            proof {
                assert(old_props@.take(i as int + 1) =~= old_props@.take(i as int).push(*e));
                lemma_assoc_push(old_props@.take(i as int), *e);
                lemma_assoc_dom(props@, e.0@);
                lemma_assoc_dom(old_props@.take(i as int), e.0@);
            }
            match find_key(&props, &e.0) {
                Some(_) => {
                    proof {
                        assert(!assoc_map(old_props@.take(i as int)).contains_key(e.0@));
                        assert(assoc_map(props@) =~= assoc_map(
                            old_props@.take(i as int + 1),
                        ).union_prefer_right(assoc_map(self.properties@)));
                    }
                },
                None => {
                    let ne = (e.0.clone(), e.1.duplicate());
                    proof {
                        lemma_assoc_push(props@, ne);
                        assert(keys_distinct(props@.push(ne)));
                        assert(assoc_map(props@.push(ne)) =~= assoc_map(
                            old_props@.take(i as int + 1),
                        ).union_prefer_right(assoc_map(self.properties@)));
                    }
                    props.push(ne);
                },
            }
            i = i + 1;
        }
        assert(old_props@.take(old_props@.len() as int) =~= old_props@);
        LispRecord { val: self.val.duplicate(), properties: props }
    }

    pub fn duplicate(&self) -> (r: LispRecord)
        ensures
            r@ == self@,
    {
        proof {
            use_type_invariant(self);
        }
        let props = copy_props(&self.properties);
        LispRecord { val: self.val.duplicate(), properties: props }
    }
}

fn copy_props(ps: &Vec<(String, LispValue)>) -> (r: Vec<(String, LispValue)>)
    ensures
        assoc_map(r@) == assoc_map(ps@),
        keys_distinct(ps@) ==> keys_distinct(r@),
{
    let mut props: Vec<(String, LispValue)> = Vec::new();
    let mut i: usize = 0;
    while i < ps.len()
        invariant
            i <= ps@.len(),
            props@.len() == i,
            forall|j: int|
                0 <= j < i ==> (#[trigger] props@[j]).0@ == ps@[j].0@ && props@[j].1@
                    == ps@[j].1@,
        decreases ps@.len() - i,
    {
        let e = &ps[i];
        props.push((e.0.clone(), e.1.duplicate()));
        i = i + 1;
    }
    proof {
        lemma_assoc_same(props@, ps@);
    }
    props
}

/// Two association lists with the same keys and models in the same places
/// denote the same map.
proof fn lemma_assoc_same(a: Seq<(String, LispValue)>, b: Seq<(String, LispValue)>)
    requires
        a.len() == b.len(),
        forall|j: int| 0 <= j < a.len() ==> (#[trigger] a[j]).0@ == b[j].0@ && a[j].1@ == b[j].1@,
    ensures
        assoc_map(a) == assoc_map(b),
        keys_distinct(b) ==> keys_distinct(a),
    decreases a.len(),
{
    if a.len() > 0 {
        lemma_assoc_same(a.drop_last(), b.drop_last());
        assert(a.last() == a[a.len() - 1]);
    }
}

impl Default for LispRecord {
    /// The undefined symbol, with no properties.
    fn default() -> (r: LispRecord)
        ensures
            r@ == plain(undefined_val()),
    {
        LispRecord::undefined()
    }
}

impl Clone for LispRecord {
    fn clone(&self) -> (r: LispRecord)
        ensures
            r@ == self@,
    {
        self.duplicate()
    }
}

} // verus!
