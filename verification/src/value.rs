//! Run-time values and bindings of the interpreter, and their model.
use vstd::prelude::*;
use crate::syntax::{Func, Num, Path, Str, SpecFunc, SpecPath};

verus! {

/// The state of the six input buttons, one bit per button.
#[derive(Debug, Clone, Copy, PartialEq, Eq, Hash)]
pub struct InputState(pub u8);

/// A built-in function.
#[derive(Debug, Clone, Copy, PartialEq, Eq, Structural, Hash, PartialOrd, Ord)]
pub enum Intrinsic {
    Draw,
    Pressed,
    ArrayGet,
    ArraySet,
    CharCode,
    LoadTilemap,
}

/// A run-time value.
#[derive(Debug, PartialEq, Eq, Hash, PartialOrd, Ord)]
pub enum Value {
    Arr(Vec<Value>),
    Num(Num),
    Str(Str),
    Bool(bool),
    Unit,
    Window,
    Input,
}

/// What a name is bound to: a value (with its mutability flag), a
/// function, or a built-in.
#[derive(Debug, PartialEq, Eq, Hash, PartialOrd, Ord)]
pub enum Binding {
    Value(bool, Value),
    Func(Func),
    Intrinsic(Intrinsic),
}

/// A value in the model.
pub enum SpecValue {
    Arr(Seq<SpecValue>),
    Num(isize),
    Str(Seq<char>),
    Bool(bool),
    Unit,
    Window,
    Input,
}

/// A binding in the model.
pub enum SpecBinding {
    Value(bool, SpecValue),
    Func(SpecFunc),
    Intrinsic(Intrinsic),
}

/// A request made of the host environment.
pub enum SpecEffect {
    ActionOne(u32),
    ActionTwo(u32),
    DrawTile(u32, u32, u32),
    LoadTile(Seq<char>),
}

/// Why an evaluation did not produce a result.
///
/// `Invalid` is the ordinary failure of an ill-formed program (an unbound
/// name, an operand of the wrong kind, a missing argument); the other
/// variants are the faults after which a run cannot go on.
#[derive(Debug, PartialEq, Eq)]
pub enum EvalError {
    Invalid,
    Undefined(Path),
    ArrayGetOutOfBounds(usize, usize),
    ArraySetOutOfBounds(usize, usize),
    CharCodeIndex(isize),
    CharCodeOutOfRange(usize, usize),
    Overflow,
    DivisionByZero,
    ShiftOverflow,
    Exhausted,
}

/// An evaluation error in the model.
pub enum SpecError {
    Invalid,
    Undefined(SpecPath),
    ArrayGetOutOfBounds(usize, usize),
    ArraySetOutOfBounds(usize, usize),
    CharCodeIndex(isize),
    CharCodeOutOfRange(usize, usize),
    Overflow,
    DivisionByZero,
    ShiftOverflow,
    Exhausted,
}

pub open spec fn value_view(v: Value) -> SpecValue
    decreases v,
{
    match v {
        Value::Arr(items) => SpecValue::Arr(
            Seq::new(
                items@.len(),
                |i: int|
                    if 0 <= i < items@.len() {
                        value_view(items@[i])
                    } else {
                        SpecValue::Unit
                    },
            ),
        ),
        Value::Num(n) => SpecValue::Num(n.0),
        Value::Str(s) => SpecValue::Str(s.0@),
        Value::Bool(b) => SpecValue::Bool(b),
        Value::Unit => SpecValue::Unit,
        Value::Window => SpecValue::Window,
        Value::Input => SpecValue::Input,
    }
}

impl View for Value {
    type V = SpecValue;

    open spec fn view(&self) -> SpecValue {
        value_view(*self)
    }
}

impl View for Binding {
    type V = SpecBinding;

    open spec fn view(&self) -> SpecBinding {
        match *self {
            Binding::Value(m, v) => SpecBinding::Value(m, v@),
            Binding::Func(f) => SpecBinding::Func(f@),
            Binding::Intrinsic(i) => SpecBinding::Intrinsic(i),
        }
    }
}

impl View for EvalError {
    type V = SpecError;

    open spec fn view(&self) -> SpecError {
        match *self {
            EvalError::Invalid => SpecError::Invalid,
            EvalError::Undefined(p) => SpecError::Undefined(p@),
            EvalError::ArrayGetOutOfBounds(l, i) => SpecError::ArrayGetOutOfBounds(l, i),
            EvalError::ArraySetOutOfBounds(l, i) => SpecError::ArraySetOutOfBounds(l, i),
            EvalError::CharCodeIndex(i) => SpecError::CharCodeIndex(i),
            EvalError::CharCodeOutOfRange(l, i) => SpecError::CharCodeOutOfRange(l, i),
            EvalError::Overflow => SpecError::Overflow,
            EvalError::DivisionByZero => SpecError::DivisionByZero,
            EvalError::ShiftOverflow => SpecError::ShiftOverflow,
            EvalError::Exhausted => SpecError::Exhausted,
        }
    }
}

/// A copy of a value.
pub fn copy_value(v: &Value) -> (res: Value)
    ensures
        res@ == v@,
    decreases v,
{
    match v {
        Value::Arr(items) => {
            let mut out: Vec<Value> = Vec::new();
            let mut i: usize = 0;
            while i < items.len()
                invariant
                    *v == Value::Arr(*items),
                    i <= items@.len(),
                    out@.len() == i,
                    forall|j: int| 0 <= j < i ==> #[trigger] out@[j]@ == items@[j]@,
                decreases items@.len() - i,
            {
                assert(decreases_to!(*v => v->Arr_0));
                assert(decreases_to!(v->Arr_0 => v->Arr_0@));
                assert(decreases_to!(v->Arr_0@ => items@[i as int]));
                out.push(copy_value(&items[i]));
                i = i + 1;
            }
            let res = Value::Arr(out);
            proof {
                let a = value_view(res);
                let b = value_view(*v);
                assert(a matches SpecValue::Arr(_));
                assert forall|j: int| 0 <= j < items@.len() implies
                    (a->Arr_0)[j] == (b->Arr_0)[j] by {
                    assert(out@[j]@ == items@[j]@);
                }
                assert(a->Arr_0 =~= b->Arr_0);
            }
            res
        },
        Value::Num(n) => Value::Num(Num(n.0)),
        Value::Str(s) => Value::Str(Str(s.0.clone())),
        Value::Bool(b) => Value::Bool(*b),
        Value::Unit => Value::Unit,
        Value::Window => Value::Window,
        Value::Input => Value::Input,
    }
}


impl Clone for Value {
    fn clone(&self) -> (res: Self)
        ensures
            res@ == self@,
    {
        copy_value(self)
    }
}

impl Clone for Binding {
    fn clone(&self) -> (res: Self)
        ensures
            res@ == self@,
    {
        match self {
            Binding::Value(m, v) => Binding::Value(*m, copy_value(v)),
            Binding::Func(f) => Binding::Func(f.clone()),
            Binding::Intrinsic(i) => Binding::Intrinsic(*i),
        }
    }
}

// ---------------------------------------------------------------------
// Conversions between values and their variants' contents.

impl From<Vec<Value>> for Value {
    fn from(v: Vec<Value>) -> (r: Self) {
        Value::Arr(v)
    }
}

impl vstd::std_specs::convert::FromSpecImpl<Vec<Value>> for Value {
    open spec fn obeys_from_spec() -> bool {
        true
    }

    open spec fn from_spec(v: Vec<Value>) -> Self {
        Value::Arr(v)
    }
}

impl TryFrom<Value> for Vec<Value> {
    type Error = Value;

    fn try_from(v: Value) -> (r: Result<Self, Value>) {
        match v {
            Value::Arr(x) => Ok(x),
            other => Err(other),
        }
    }
}

impl vstd::std_specs::convert::TryFromSpecImpl<Value> for Vec<Value> {
    open spec fn obeys_try_from_spec() -> bool {
        true
    }

    open spec fn try_from_spec(v: Value) -> Result<Self, Value> {
        match v {
            Value::Arr(x) => Ok(x),
            other => Err(other),
        }
    }
}

impl From<Num> for Value {
    fn from(v: Num) -> (r: Self) {
        Value::Num(v)
    }
}

impl vstd::std_specs::convert::FromSpecImpl<Num> for Value {
    open spec fn obeys_from_spec() -> bool {
        true
    }

    open spec fn from_spec(v: Num) -> Self {
        Value::Num(v)
    }
}

impl TryFrom<Value> for Num {
    type Error = Value;

    fn try_from(v: Value) -> (r: Result<Self, Value>) {
        match v {
            Value::Num(x) => Ok(x),
            other => Err(other),
        }
    }
}

impl vstd::std_specs::convert::TryFromSpecImpl<Value> for Num {
    open spec fn obeys_try_from_spec() -> bool {
        true
    }

    open spec fn try_from_spec(v: Value) -> Result<Self, Value> {
        match v {
            Value::Num(x) => Ok(x),
            other => Err(other),
        }
    }
}

impl From<Str> for Value {
    fn from(v: Str) -> (r: Self) {
        Value::Str(v)
    }
}

impl vstd::std_specs::convert::FromSpecImpl<Str> for Value {
    open spec fn obeys_from_spec() -> bool {
        true
    }

    open spec fn from_spec(v: Str) -> Self {
        Value::Str(v)
    }
}

impl TryFrom<Value> for Str {
    type Error = Value;

    fn try_from(v: Value) -> (r: Result<Self, Value>) {
        match v {
            Value::Str(x) => Ok(x),
            other => Err(other),
        }
    }
}

impl vstd::std_specs::convert::TryFromSpecImpl<Value> for Str {
    open spec fn obeys_try_from_spec() -> bool {
        true
    }

    open spec fn try_from_spec(v: Value) -> Result<Self, Value> {
        match v {
            Value::Str(x) => Ok(x),
            other => Err(other),
        }
    }
}

impl From<bool> for Value {
    fn from(v: bool) -> (r: Self) {
        Value::Bool(v)
    }
}

impl vstd::std_specs::convert::FromSpecImpl<bool> for Value {
    open spec fn obeys_from_spec() -> bool {
        true
    }

    open spec fn from_spec(v: bool) -> Self {
        Value::Bool(v)
    }
}

impl TryFrom<Value> for bool {
    type Error = Value;

    fn try_from(v: Value) -> (r: Result<Self, Value>) {
        match v {
            Value::Bool(x) => Ok(x),
            other => Err(other),
        }
    }
}

impl vstd::std_specs::convert::TryFromSpecImpl<Value> for bool {
    open spec fn obeys_try_from_spec() -> bool {
        true
    }

    open spec fn try_from_spec(v: Value) -> Result<Self, Value> {
        match v {
            Value::Bool(x) => Ok(x),
            other => Err(other),
        }
    }
}

impl From<Func> for Binding {
    fn from(v: Func) -> (r: Self) {
        Binding::Func(v)
    }
}

impl vstd::std_specs::convert::FromSpecImpl<Func> for Binding {
    open spec fn obeys_from_spec() -> bool {
        true
    }

    open spec fn from_spec(v: Func) -> Self {
        Binding::Func(v)
    }
}

impl TryFrom<Binding> for Func {
    type Error = Binding;

    fn try_from(v: Binding) -> (r: Result<Self, Binding>) {
        match v {
            Binding::Func(x) => Ok(x),
            other => Err(other),
        }
    }
}

impl vstd::std_specs::convert::TryFromSpecImpl<Binding> for Func {
    open spec fn obeys_try_from_spec() -> bool {
        true
    }

    open spec fn try_from_spec(v: Binding) -> Result<Self, Binding> {
        match v {
            Binding::Func(x) => Ok(x),
            other => Err(other),
        }
    }
}

impl From<Intrinsic> for Binding {
    fn from(v: Intrinsic) -> (r: Self) {
        Binding::Intrinsic(v)
    }
}

impl vstd::std_specs::convert::FromSpecImpl<Intrinsic> for Binding {
    open spec fn obeys_from_spec() -> bool {
        true
    }

    open spec fn from_spec(v: Intrinsic) -> Self {
        Binding::Intrinsic(v)
    }
}

impl TryFrom<Binding> for Intrinsic {
    type Error = Binding;

    fn try_from(v: Binding) -> (r: Result<Self, Binding>) {
        match v {
            Binding::Intrinsic(x) => Ok(x),
            other => Err(other),
        }
    }
}

impl vstd::std_specs::convert::TryFromSpecImpl<Binding> for Intrinsic {
    open spec fn obeys_try_from_spec() -> bool {
        true
    }

    open spec fn try_from_spec(v: Binding) -> Result<Self, Binding> {
        match v {
            Binding::Intrinsic(x) => Ok(x),
            other => Err(other),
        }
    }
}

} // verus!
