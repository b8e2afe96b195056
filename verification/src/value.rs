//! The dynamic value type that crosses the host/script boundary, with
//! JS-style coercion for addition and property lookup.
//!
//! Values are immutable once constructed; composite values own their
//! children, so no cycles can be built. An object is an ordered map from
//! names to values: lookup finds the first binding of a name, and
//! `Object::from_values` never keeps two bindings of one name.
use vstd::prelude::*;
use vstd::string::StringExecFns;

use crate::num::{
    num_to_string, parse_number, spec_num_add, spec_num_text, spec_parse_num, Num,
};

verus! {

/// A dynamic script value.
#[derive(Debug, PartialEq)]
pub enum Value {
    String(String),
    Number(Num),
    Object(Object),
    Array(Array),
    Undefined,
}

/// An ordered name-to-value map.
///
/// The `entries` field is public, so a caller can build an object that binds
/// one name twice; lookup is still well defined — it takes the first binding
/// — and `Object::from_values` never keeps a second binding of a name.
#[derive(Debug, PartialEq)]
pub struct Object {
    pub entries: Vec<(String, Value)>,
}

/// An ordered sequence of values.
#[derive(Debug, PartialEq)]
pub struct Array {
    pub elems: Vec<Value>,
}

/// The mathematical shape of a dynamic value: strings are character
/// sequences, objects are sequences of name/value bindings, arrays are
/// sequences of values.
pub enum ValueModel {
    Str(Seq<char>),
    Num(Num),
    Obj(Seq<(Seq<char>, ValueModel)>),
    Arr(Seq<ValueModel>),
    Undef,
}

/// The model of a value.
pub open spec fn value_model(v: Value) -> ValueModel
    decreases v,
{
    match v {
        Value::String(s) => ValueModel::Str(s@),
        Value::Number(n) => ValueModel::Num(n),
        Value::Object(o) => ValueModel::Obj(entries_model(o.entries@)),
        Value::Array(a) => ValueModel::Arr(elems_model(a.elems@)),
        Value::Undefined => ValueModel::Undef,
    }
}

/// The models of an object's bindings, in order.
pub open spec fn entries_model(s: Seq<(String, Value)>) -> Seq<(Seq<char>, ValueModel)>
    decreases s,
{
    if s.len() == 0 {
        Seq::empty()
    } else {
        entries_model(s.drop_last()).push((s.last().0@, value_model(s.last().1)))
    }
}

/// The models of an array's elements, in order.
pub open spec fn elems_model(s: Seq<Value>) -> Seq<ValueModel>
    decreases s,
{
    if s.len() == 0 {
        Seq::empty()
    } else {
        elems_model(s.drop_last()).push(value_model(s.last()))
    }
}

impl View for Value {
    type V = ValueModel;

    open spec fn view(&self) -> ValueModel {
        value_model(*self)
    }
}

impl View for Object {
    type V = Seq<(Seq<char>, ValueModel)>;

    open spec fn view(&self) -> Seq<(Seq<char>, ValueModel)> {
        entries_model(self.entries@)
    }
}

impl View for Array {
    type V = Seq<ValueModel>;

    open spec fn view(&self) -> Seq<ValueModel> {
        elems_model(self.elems@)
    }
}

/// What a value coerces to as a number: numbers are themselves, strings are
/// parsed, and everything else is the not-a-number value.
pub open spec fn spec_coerce_to_number(v: ValueModel) -> Num {
    match v {
        ValueModel::Str(s) => spec_parse_num(s),
        ValueModel::Num(n) => n,
        _ => Num::NaN,
    }
}

/// What a value coerces to as text: strings are themselves, numbers are
/// written in decimal, objects and the undefined value have fixed spellings,
/// and an array is its elements' coercions joined with a comma.
pub open spec fn spec_coerce_to_string(v: ValueModel) -> Seq<char>
    decreases v,
{
    match v {
        ValueModel::Str(s) => s,
        ValueModel::Num(n) => spec_num_text(n),
        ValueModel::Obj(_) => "[object Object]"@,
        ValueModel::Undef => "undefined"@,
        ValueModel::Arr(elems) => spec_join(elems),
    }
}

/// The coercions of a sequence of values, joined with `", "`; the empty
/// sequence joins to the empty text.
pub open spec fn spec_join(elems: Seq<ValueModel>) -> Seq<char>
    decreases elems,
{
    if elems.len() == 0 {
        Seq::empty()
    } else if elems.len() == 1 {
        spec_coerce_to_string(elems[0])
    } else {
        spec_join(elems.drop_last()) + ", "@ + spec_coerce_to_string(elems.last())
    }
}

/// The value bound to the first binding of `key`, or the undefined value
/// where no binding of `key` exists.
pub open spec fn spec_lookup_entries(
    entries: Seq<(Seq<char>, ValueModel)>,
    key: Seq<char>,
) -> ValueModel
    decreases entries,
{
    if entries.len() == 0 {
        ValueModel::Undef
    } else if entries[0].0 == key {
        entries[0].1
    } else {
        spec_lookup_entries(entries.subrange(1, entries.len() as int), key)
    }
}

/// What property lookup returns: only objects carry properties; an absent
/// key, or any other kind of value, yields the undefined value.
pub open spec fn spec_index(v: ValueModel, key: Seq<char>) -> ValueModel {
    match v {
        ValueModel::Obj(entries) => spec_lookup_entries(entries, key),
        _ => ValueModel::Undef,
    }
}

/// What `+` returns. A string meeting a number first tries to read itself as
/// a number and adds numerically when that works; two numbers add
/// numerically when both are finite; a number meeting anything else that
/// coerces to a number adds numerically; an object or the undefined value
/// meeting a number is the not-a-number value; every remaining pair
/// concatenates the two values' text coercions.
pub open spec fn spec_add(a: ValueModel, b: ValueModel) -> ValueModel {
    match a {
        ValueModel::Str(s) => match b {
            ValueModel::Str(t) => ValueModel::Str(s + t),
            ValueModel::Undef => ValueModel::Str(s + spec_coerce_to_string(b)),
            ValueModel::Obj(_) => ValueModel::Str(s + spec_coerce_to_string(b)),
            ValueModel::Num(n) => {
                let c = spec_parse_num(s);
                if c is NaN {
                    ValueModel::Str(s + spec_num_text(n))
                } else {
                    ValueModel::Num(spec_num_add(c, n))
                }
            },
            ValueModel::Arr(_) => ValueModel::Str(
                spec_coerce_to_string(a) + spec_coerce_to_string(b),
            ),
        },
        ValueModel::Num(m) => match b {
            ValueModel::Num(n) => {
                if m is NaN || n is NaN {
                    ValueModel::Str(spec_coerce_to_string(a) + spec_coerce_to_string(b))
                } else {
                    ValueModel::Num(spec_num_add(m, n))
                }
            },
            _ => {
                let c = spec_coerce_to_number(b);
                if c is NaN {
                    ValueModel::Str(spec_coerce_to_string(a) + spec_coerce_to_string(b))
                } else {
                    ValueModel::Num(spec_num_add(m, c))
                }
            },
        },
        ValueModel::Obj(_) => match b {
            ValueModel::Str(t) => ValueModel::Str(spec_coerce_to_string(a) + t),
            ValueModel::Num(_) => ValueModel::Num(Num::NaN),
            _ => ValueModel::Str(spec_coerce_to_string(a) + spec_coerce_to_string(b)),
        },
        ValueModel::Undef => match b {
            ValueModel::Str(t) => ValueModel::Str(spec_coerce_to_string(a) + t),
            ValueModel::Num(_) => ValueModel::Num(Num::NaN),
            _ => ValueModel::Str(spec_coerce_to_string(a) + spec_coerce_to_string(b)),
        },
        ValueModel::Arr(_) => ValueModel::Str(spec_coerce_to_string(a) + spec_coerce_to_string(b)),
    }
}

/// `elems_model` maps the element model over the sequence pointwise.
proof fn lemma_elems_model_index(s: Seq<Value>)
    ensures
        elems_model(s).len() == s.len(),
        forall|i: int| 0 <= i < s.len() ==> #[trigger] elems_model(s)[i] == value_model(s[i]),
    decreases s,
{
    if s.len() > 0 {
        lemma_elems_model_index(s.drop_last());
    }
}

impl Value {
    /// Coerces a value to a number.
    pub fn coerce_to_number(&self) -> (r: Num)
        ensures
            r == spec_coerce_to_number(self@),
    {
        match self {
            Value::String(s) => parse_number(s.as_str()),
            Value::Number(n) => *n,
            Value::Object(_) => Num::NaN,
            Value::Array(_) => Num::NaN,
            Value::Undefined => Num::NaN,
        }
    }

    /// Coerces a value to text.
    pub fn coerce_to_string(&self) -> (r: String)
        ensures
            r@ == spec_coerce_to_string(self@),
        decreases *self,
    {
        match self {
            Value::String(s) => s.clone(),
            Value::Number(n) => num_to_string(*n),
            Value::Object(_) => "[object Object]".to_owned(),
            Value::Undefined => "undefined".to_owned(),
            Value::Array(a) => {
                let ghost m = elems_model(a.elems@);
                proof {
                    lemma_elems_model_index(a.elems@);
                }
                let mut out = String::new();
                let n: usize = a.elems.len();
                let mut i: usize = 0;
                while i < n
                    invariant
                        i <= n,
                        n == a.elems.len(),
                        *self == Value::Array(*a),
                        m == elems_model(a.elems@),
                        m.len() == n,
                        out@ == spec_join(m.subrange(0, i as int)),
                    decreases n - i,
                {
                    proof {
                        lemma_elems_model_index(a.elems@);
                        assert(m.subrange(0, i + 1).drop_last() =~= m.subrange(0, i as int));
                        assert(decreases_to!(*self => self->Array_0));
                        assert(decreases_to!(self->Array_0 => self->Array_0.elems));
                        assert(decreases_to!(self->Array_0.elems => self->Array_0.elems@));
                        assert(decreases_to!(
                            self->Array_0.elems@ => self->Array_0.elems@[i as int]
                        ));
                        assert(decreases_to!(*self => a.elems@[i as int]));
                    }
                    if i > 0 {
                        out.append(", ");
                    }
                    let piece = a.elems[i].coerce_to_string();
                    out.append(piece.as_str());
                    proof {
                        if i == 0 {
                            assert(out@ =~= spec_join(m.subrange(0, 1)));
                        } else {
                            assert(out@ =~= spec_join(m.subrange(0, i + 1)));
                        }
                    }
                    i = i + 1;
                }
                proof {
                    assert(m.subrange(0, n as int) =~= m);
                }
                out
            },
        }
    }
}

/// Joins two pieces of text.
fn concat2(a: &str, b: &str) -> (r: String)
    ensures
        r@ == a@ + b@,
{
    let mut out: String = a.to_owned();
    out.append(b);
    out
}

/// A deep copy with the same model.
fn clone_value(v: &Value) -> (r: Value)
    ensures
        r@ == v@,
    decreases *v,
{
    match v {
        Value::String(s) => Value::String(s.clone()),
        Value::Number(n) => Value::Number(*n),
        Value::Undefined => Value::Undefined,
        Value::Array(a) => {
            let mut elems: Vec<Value> = Vec::new();
            let n: usize = a.elems.len();
            let mut i: usize = 0;
            while i < n
                invariant
                    i <= n,
                    n == a.elems.len(),
                    *v == Value::Array(*a),
                    elems@.len() == i,
                    elems_model(elems@) == elems_model(a.elems@).subrange(0, i as int),
                decreases n - i,
            {
                proof {
                    lemma_elems_model_index(a.elems@);
                    lemma_elems_model_index(elems@);
                    assert(decreases_to!(*v => v->Array_0));
                    assert(decreases_to!(v->Array_0 => v->Array_0.elems));
                    assert(decreases_to!(v->Array_0.elems => v->Array_0.elems@));
                    assert(decreases_to!(v->Array_0.elems@ => v->Array_0.elems@[i as int]));
                    assert(decreases_to!(*v => a.elems@[i as int]));
                }
                let ghost before = elems@;
                let e = clone_value(&a.elems[i]);
                elems.push(e);
                proof {
                    assert(elems@.drop_last() =~= before);
                    assert(elems_model(elems@) =~= elems_model(a.elems@).subrange(0, i + 1));
                }
                i = i + 1;
            }
            proof {
                lemma_elems_model_index(a.elems@);
                assert(elems_model(a.elems@).subrange(0, n as int) =~= elems_model(a.elems@));
            }
            Value::Array(Array { elems })
        },
        Value::Object(o) => {
            let mut entries: Vec<(String, Value)> = Vec::new();
            let n: usize = o.entries.len();
            let mut i: usize = 0;
            while i < n
                invariant
                    i <= n,
                    n == o.entries.len(),
                    *v == Value::Object(*o),
                    entries@.len() == i,
                    entries_model(entries@) == entries_model(o.entries@).subrange(0, i as int),
                decreases n - i,
            {
                proof {
                    lemma_entries_model_index(o.entries@);
                    lemma_entries_model_index(entries@);
                    assert(decreases_to!(*v => v->Object_0));
                    assert(decreases_to!(v->Object_0 => v->Object_0.entries));
                    assert(decreases_to!(v->Object_0.entries => v->Object_0.entries@));
                    assert(decreases_to!(
                        v->Object_0.entries@ => v->Object_0.entries@[i as int]
                    ));
                    assert(decreases_to!(v->Object_0.entries@[i as int] =>
                        v->Object_0.entries@[i as int].1));
                    assert(decreases_to!(*v => o.entries@[i as int].1));
                }
                let ghost before = entries@;
                let pair = &o.entries[i];
                let key = pair.0.clone();
                let val = clone_value(&pair.1);
                entries.push((key, val));
                proof {
                    assert(entries@.drop_last() =~= before);
                    assert(entries_model(entries@) =~= entries_model(o.entries@).subrange(
                        0,
                        i + 1,
                    ));
                }
                i = i + 1;
            }
            proof {
                lemma_entries_model_index(o.entries@);
                assert(entries_model(o.entries@).subrange(0, n as int) =~= entries_model(
                    o.entries@,
                ));
            }
            Value::Object(Object { entries })
        },
    }
}

impl Value {
    /// The value of `self + rhs` under the script's coercion rules.
    pub fn add(&self, rhs: &Value) -> (r: Value)
        ensures
            r@ == spec_add(self@, rhs@),
    {
        match self {
            Value::String(s) => match rhs {
                Value::String(t) => Value::String(concat2(s.as_str(), t.as_str())),
                Value::Undefined => {
                    let t = rhs.coerce_to_string();
                    Value::String(concat2(s.as_str(), t.as_str()))
                },
                Value::Object(_) => {
                    let t = rhs.coerce_to_string();
                    Value::String(concat2(s.as_str(), t.as_str()))
                },
                Value::Number(n) => {
                    let c = self.coerce_to_number();
                    if c.is_nan() {
                        let t = num_to_string(*n);
                        Value::String(concat2(s.as_str(), t.as_str()))
                    } else {
                        Value::Number(c.add(*n))
                    }
                },
                Value::Array(_) => {
                    let x = self.coerce_to_string();
                    let y = rhs.coerce_to_string();
                    Value::String(concat2(x.as_str(), y.as_str()))
                },
            },
            Value::Number(m) => match rhs {
                Value::Number(n) => {
                    if m.is_nan() || n.is_nan() {
                        let x = self.coerce_to_string();
                        let y = rhs.coerce_to_string();
                        Value::String(concat2(x.as_str(), y.as_str()))
                    } else {
                        Value::Number((*m).add(*n))
                    }
                },
                Value::String(_) => {
                    let c = rhs.coerce_to_number();
                    if c.is_nan() {
                        let x = self.coerce_to_string();
                        let y = rhs.coerce_to_string();
                        Value::String(concat2(x.as_str(), y.as_str()))
                    } else {
                        Value::Number((*m).add(c))
                    }
                },
                Value::Object(_) => {
                    let x = self.coerce_to_string();
                    let y = rhs.coerce_to_string();
                    Value::String(concat2(x.as_str(), y.as_str()))
                },
                Value::Array(_) => {
                    let x = self.coerce_to_string();
                    let y = rhs.coerce_to_string();
                    Value::String(concat2(x.as_str(), y.as_str()))
                },
                Value::Undefined => {
                    let x = self.coerce_to_string();
                    let y = rhs.coerce_to_string();
                    Value::String(concat2(x.as_str(), y.as_str()))
                },
            },
            Value::Object(_) => match rhs {
                Value::String(t) => {
                    let x = self.coerce_to_string();
                    Value::String(concat2(x.as_str(), t.as_str()))
                },
                Value::Number(_) => Value::Number(Num::NaN),
                Value::Object(_) => {
                    let x = self.coerce_to_string();
                    let y = rhs.coerce_to_string();
                    Value::String(concat2(x.as_str(), y.as_str()))
                },
                Value::Undefined => {
                    let x = self.coerce_to_string();
                    let y = rhs.coerce_to_string();
                    Value::String(concat2(x.as_str(), y.as_str()))
                },
                Value::Array(_) => {
                    let x = self.coerce_to_string();
                    let y = rhs.coerce_to_string();
                    Value::String(concat2(x.as_str(), y.as_str()))
                },
            },
            Value::Undefined => match rhs {
                Value::String(t) => {
                    let x = self.coerce_to_string();
                    Value::String(concat2(x.as_str(), t.as_str()))
                },
                Value::Number(_) => Value::Number(Num::NaN),
                Value::Undefined => {
                    let x = self.coerce_to_string();
                    let y = rhs.coerce_to_string();
                    Value::String(concat2(x.as_str(), y.as_str()))
                },
                Value::Object(_) => {
                    let x = self.coerce_to_string();
                    let y = rhs.coerce_to_string();
                    Value::String(concat2(x.as_str(), y.as_str()))
                },
                Value::Array(_) => {
                    let x = self.coerce_to_string();
                    let y = rhs.coerce_to_string();
                    Value::String(concat2(x.as_str(), y.as_str()))
                },
            },
            Value::Array(_) => {
                let x = self.coerce_to_string();
                let y = rhs.coerce_to_string();
                Value::String(concat2(x.as_str(), y.as_str()))
            },
        }
    }

    /// A shared reference to the value bound to `key`: `Some` exactly when
    /// `self` is an object with a binding of `key`, and `None` — a lookup
    /// that yields the undefined value — otherwise.
    pub fn get<'a>(&'a self, key: &str) -> (r: Option<&'a Value>)
        ensures
            match r {
                Option::Some(found) => found@ == spec_index(self@, key@),
                Option::None => spec_index(self@, key@) == ValueModel::Undef,
            },
            r is Some <==> (self@ is Obj && spec_has_key(self@->Obj_0, key@)),
    {
        match self {
            Value::Object(o) => {
                let key_string: String = key.to_owned();
                let ghost m = entries_model(o.entries@);
                let n: usize = o.entries.len();
                let mut i: usize = 0;
                proof {
                    lemma_entries_model_index(o.entries@);
                    assert(m.subrange(0, n as int) =~= m);
                }
                while i < n
                    invariant
                        i <= n,
                        n == o.entries.len(),
                        *self == Value::Object(*o),
                        key_string@ == key@,
                        m == entries_model(o.entries@),
                        m.len() == n,
                        spec_lookup_entries(m, key@) == spec_lookup_entries(
                            m.subrange(i as int, n as int),
                            key@,
                        ),
                        forall|j: int| 0 <= j < i ==> (#[trigger] m[j]).0 != key@,
                    decreases n - i,
                {
                    proof {
                        lemma_entries_model_index(o.entries@);
                    }
                    let pair = &o.entries[i];
                    let ghost tail = m.subrange(i as int, n as int);
                    if pair.0 == key_string {
                        proof {
                            assert(tail[0] == m[i as int]);
                            assert(m[i as int].0 == key@);
                        }
                        return Some(&pair.1);
                    }
                    proof {
                        assert(tail[0] == m[i as int]);
                        assert(tail.subrange(1, tail.len() as int) =~= m.subrange(
                            i + 1,
                            n as int,
                        ));
                    }
                    i = i + 1;
                }
                proof {
                    assert(m.subrange(n as int, n as int) =~= Seq::<
                        (Seq<char>, ValueModel),
                    >::empty());
                    assert(!spec_has_key(m, key@));
                }
                None
            },
            Value::String(_) => None,
            Value::Number(_) => None,
            Value::Array(_) => None,
            Value::Undefined => None,
        }
    }

    /// The value bound to `key`, as an owned copy; the undefined value where
    /// `key` is absent or `self` is not an object.
    pub fn index(&self, key: &str) -> (r: Value)
        ensures
            r@ == spec_index(self@, key@),
    {
        match self.get(key) {
            Some(found) => clone_value(found),
            None => Value::Undefined,
        }
    }
}

/// The script `String(...)` conversion: a string holding the value's text
/// coercion.
pub fn string_value(v: &Value) -> (r: Value)
    ensures
        r@ == ValueModel::Str(spec_coerce_to_string(v@)),
{
    Value::String(v.coerce_to_string())
}

/// The script `Number(...)` conversion: a number holding the value's
/// numeric coercion.
pub fn number_value(v: &Value) -> (r: Value)
    ensures
        r@ == ValueModel::Num(spec_coerce_to_number(v@)),
{
    Value::Number(v.coerce_to_number())
}

impl Array {
    /// Wraps a sequence of values as an array.
    pub fn new(initial: Vec<Value>) -> (r: Array)
        ensures
            r@ == elems_model(initial@),
    {
        Array { elems: initial }
    }

    /// An array value copied from a borrowed slice.
    pub fn from(arr: &[Value]) -> (r: Value)
        ensures
            r@ == ValueModel::Arr(elems_model(arr@)),
    {
        let mut elems: Vec<Value> = Vec::new();
        let n: usize = arr.len();
        let mut i: usize = 0;
        while i < n
            invariant
                i <= n,
                n == arr@.len(),
                elems@.len() == i,
                elems_model(elems@) == elems_model(arr@).subrange(0, i as int),
            decreases n - i,
        {
            proof {
                lemma_elems_model_index(arr@);
                lemma_elems_model_index(elems@);
            }
            let ghost before = elems@;
            let e = clone_value(vstd::slice::slice_index_get(arr, i));
            elems.push(e);
            proof {
                assert(elems@.drop_last() =~= before);
                assert(elems_model(elems@) =~= elems_model(arr@).subrange(0, i + 1));
            }
            i = i + 1;
        }
        proof {
            lemma_elems_model_index(arr@);
            assert(elems_model(arr@).subrange(0, n as int) =~= elems_model(arr@));
        }
        Value::Array(Array { elems })
    }
}

/// True when some binding in `entries` carries the name `key`.
pub open spec fn spec_has_key(entries: Seq<(Seq<char>, ValueModel)>, key: Seq<char>) -> bool {
    exists|i: int| 0 <= i < entries.len() && (#[trigger] entries[i]).0 == key
}

/// Folds loose name/value pairs into object bindings, the way a map built
/// from them would end up: walking the pairs from the last to the first, a
/// pair is kept unless its name is already bound, so the last pair of each
/// name wins.
pub open spec fn spec_collect_bindings(
    pairs: Seq<(Seq<char>, ValueModel)>,
    acc: Seq<(Seq<char>, ValueModel)>,
) -> Seq<(Seq<char>, ValueModel)>
    decreases pairs,
{
    if pairs.len() == 0 {
        acc
    } else if spec_has_key(acc, pairs.last().0) {
        spec_collect_bindings(pairs.drop_last(), acc)
    } else {
        spec_collect_bindings(pairs.drop_last(), acc.push(pairs.last()))
    }
}

/// Whether some binding of `entries` carries the name `key`.
fn entries_have_key(entries: &Vec<(String, Value)>, key: &String) -> (r: bool)
    ensures
        r == spec_has_key(entries_model(entries@), key@),
{
    let ghost m = entries_model(entries@);
    let n: usize = entries.len();
    let mut i: usize = 0;
    proof {
        lemma_entries_model_index(entries@);
    }
    while i < n
        invariant
            i <= n,
            n == entries.len(),
            m == entries_model(entries@),
            m.len() == n,
            forall|j: int| 0 <= j < i ==> (#[trigger] m[j]).0 != key@,
        decreases n - i,
    {
        proof {
            lemma_entries_model_index(entries@);
        }
        if entries[i].0 == *key {
            proof {
                assert(m[i as int].0 == key@);
            }
            return true;
        }
        i = i + 1;
    }
    false
}

impl Object {
    /// An object built from loose name/value pairs: the last pair of each
    /// name becomes its binding, as in a map the pairs were inserted into in
    /// order.
    pub fn from_values(pairs: Vec<(String, Value)>) -> (r: Value)
        ensures
            r@ == ValueModel::Obj(
                spec_collect_bindings(
                    entries_model(pairs@),
                    Seq::<(Seq<char>, ValueModel)>::empty(),
                ),
            ),
    {
        let ghost m = entries_model(pairs@);
        let mut entries: Vec<(String, Value)> = Vec::new();
        let n: usize = pairs.len();
        let mut i: usize = n;
        proof {
            lemma_entries_model_index(pairs@);
            assert(m.subrange(0, n as int) =~= m);
        }
        while i > 0
            invariant
                i <= n,
                n == pairs.len(),
                m == entries_model(pairs@),
                m.len() == n,
                spec_collect_bindings(m, Seq::<(Seq<char>, ValueModel)>::empty())
                    == spec_collect_bindings(m.subrange(0, i as int), entries_model(entries@)),
            decreases i,
        {
            let j: usize = i - 1;
            proof {
                lemma_entries_model_index(pairs@);
                lemma_entries_model_index(entries@);
                assert(m.subrange(0, i as int).drop_last() =~= m.subrange(0, j as int));
                assert(m.subrange(0, i as int).last() == m[j as int]);
            }
            let pair = &pairs[j];
            if !entries_have_key(&entries, &pair.0) {
                let ghost before = entries@;
                let key = pair.0.clone();
                let val = clone_value(&pair.1);
                entries.push((key, val));
                proof {
                    assert(entries@.drop_last() =~= before);
                }
            }
            i = j;
        }
        proof {
            assert(m.subrange(0, 0) =~= Seq::<(Seq<char>, ValueModel)>::empty());
        }
        Value::Object(Object { entries })
    }
}

impl From<i64> for Value {
    /// A 64-bit integer as a number value.
    fn from(n: i64) -> (r: Value) {
        Value::Number(Num::Int(n))
    }
}

impl vstd::std_specs::convert::FromSpecImpl<i64> for Value {
    open spec fn obeys_from_spec() -> bool {
        true
    }

    open spec fn from_spec(n: i64) -> Value {
        Value::Number(Num::Int(n))
    }
}

impl From<Num> for Value {
    /// A number as a number value.
    fn from(n: Num) -> (r: Value) {
        Value::Number(n)
    }
}

impl vstd::std_specs::convert::FromSpecImpl<Num> for Value {
    open spec fn obeys_from_spec() -> bool {
        true
    }

    open spec fn from_spec(n: Num) -> Value {
        Value::Number(n)
    }
}

impl From<String> for Value {
    /// Text as a string value.
    fn from(s: String) -> (r: Value) {
        Value::String(s)
    }
}

impl vstd::std_specs::convert::FromSpecImpl<String> for Value {
    open spec fn obeys_from_spec() -> bool {
        true
    }

    open spec fn from_spec(s: String) -> Value {
        Value::String(s)
    }
}

impl From<Object> for Value {
    /// An object as an object value.
    fn from(o: Object) -> (r: Value) {
        Value::Object(o)
    }
}

impl vstd::std_specs::convert::FromSpecImpl<Object> for Value {
    open spec fn obeys_from_spec() -> bool {
        true
    }

    open spec fn from_spec(o: Object) -> Value {
        Value::Object(o)
    }
}

impl From<Array> for Value {
    /// An array as an array value.
    fn from(a: Array) -> (r: Value) {
        Value::Array(a)
    }
}

impl vstd::std_specs::convert::FromSpecImpl<Array> for Value {
    open spec fn obeys_from_spec() -> bool {
        true
    }

    open spec fn from_spec(a: Array) -> Value {
        Value::Array(a)
    }
}

impl From<Vec<Value>> for Value {
    /// A vector of values as an array value.
    fn from(elems: Vec<Value>) -> (r: Value) {
        Value::Array(Array { elems })
    }
}

impl vstd::std_specs::convert::FromSpecImpl<Vec<Value>> for Value {
    open spec fn obeys_from_spec() -> bool {
        true
    }

    open spec fn from_spec(elems: Vec<Value>) -> Value {
        Value::Array(Array { elems })
    }
}

/// Coercing to text is idempotent: a string holding some value's text
/// coercion coerces to that same text.
pub proof fn lemma_coerce_to_string_idempotent(v: ValueModel)
    ensures
        spec_coerce_to_string(ValueModel::Str(spec_coerce_to_string(v))) == spec_coerce_to_string(
            v,
        ),
{
}

/// `entries_model` maps the binding model over the sequence pointwise.
proof fn lemma_entries_model_index(s: Seq<(String, Value)>)
    ensures
        entries_model(s).len() == s.len(),
        forall|i: int| 0 <= i < s.len() ==> #[trigger] entries_model(s)[i] == (
            s[i].0@,
            value_model(s[i].1),
        ),
    decreases s,
{
    if s.len() > 0 {
        lemma_entries_model_index(s.drop_last());
    }
}

} // verus!
