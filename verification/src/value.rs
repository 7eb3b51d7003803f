//! The values that generating an expression yields.
//!
//! `F` stands for a function handle of the backend, `R` for a value held
//! in a register, `P` for a pointer and `T` for a type.
use vstd::prelude::*;

verus! {

/// A value held in memory: where it is and its type.
#[derive(Clone, Copy, Debug)]
pub struct MemoryValue<P, T> {
    pub ptr: P,
    pub ty: T,
}

/// What generating an expression yields.
#[derive(Clone, Copy, Debug)]
pub enum Value<F, R, P, T> {
    /// Nothing: the expression is zero-sized or control does not reach
    /// past it.
    Void,
    Fn(F),
    Memory(MemoryValue<P, T>),
    Register(R),
}

/// A value loaded into a register, if it is not zero-sized.
#[derive(Clone, Copy, Debug)]
pub enum LoadedValue<R> {
    Void,
    Register(R),
}

/// Something that can be called: a function, or a pointer to one.
#[derive(Clone, Copy, Debug)]
pub enum CallableValue<F, P> {
    Fn(F),
    Register(P),
}

impl<F, R, P, T> Value<F, R, P, T> {
    /// The value held in memory at `ptr`, of type `ty`.
    pub fn memory(ptr: P, ty: T) -> (r: Self)
        ensures
            r == Value::<F, R, P, T>::Memory(MemoryValue { ptr, ty }),
    {
        Value::Memory(MemoryValue { ptr, ty })
    }

    pub fn is_void(&self) -> (r: bool)
        ensures
            r == (*self is Void),
    {
        match self {
            Value::Void => true,
            _ => false,
        }
    }

    /// The function this value is; it must be one.
    pub fn into_function_value(self) -> (r: F)
        requires
            self is Fn,
        ensures
            self == Value::<F, R, P, T>::Fn(r),
    {
        match self {
            Value::Fn(f) => f,
            _ => vstd::pervasive::unreached(),
        }
    }
}

impl<R> LoadedValue<R> {
    /// The same value, as a value that may also be in memory or a
    /// function.
    pub fn into_value<F, P, T>(self) -> (r: Value<F, R, P, T>)
        ensures
            r == match self {
                LoadedValue::Void => Value::<F, R, P, T>::Void,
                LoadedValue::Register(v) => Value::<F, R, P, T>::Register(v),
            },
    {
        match self {
            LoadedValue::Void => Value::Void,
            LoadedValue::Register(v) => Value::Register(v),
        }
    }

    /// The register value, as a pointer to call through; it must be one.
    pub fn into_callable_value<F>(self) -> (r: CallableValue<F, R>)
        requires
            self is Register,
        ensures
            self == LoadedValue::Register(r->Register_0),
            r is Register,
    {
        match self {
            LoadedValue::Register(v) => CallableValue::Register(v),
            LoadedValue::Void => vstd::pervasive::unreached(),
        }
    }

    /// The register value; there must be one.
    pub fn into_basic_value(self) -> (r: R)
        requires
            self is Register,
        ensures
            self == LoadedValue::Register(r),
    {
        match self {
            LoadedValue::Register(v) => v,
            LoadedValue::Void => vstd::pervasive::unreached(),
        }
    }

    /// The register value, if there is one.
    pub fn as_basic_value(&self) -> (r: Option<&R>)
        ensures
            match r {
                Some(v) => *self == LoadedValue::Register(*v),
                None => *self is Void,
            },
    {
        match self {
            LoadedValue::Register(v) => Some(v),
            LoadedValue::Void => None,
        }
    }
}

/// How a value is brought into a register.
#[derive(Clone, Copy, PartialEq, Eq, Structural, Debug)]
pub enum LoadAction {
    /// There is nothing to load.
    Nothing,
    /// The function's address is taken.
    FnAddress,
    /// The value is loaded from memory.
    Load,
    /// The value already is in a register.
    InRegister,
}

/// How a value of the given kind is loaded, when its type is sized or not:
/// a value in memory of a zero-sized type loads to nothing.
pub fn load_action<F, R, P, T>(value: &Value<F, R, P, T>, ty_is_sized: bool) -> (r: LoadAction)
    ensures
        r == match *value {
            Value::Void => LoadAction::Nothing,
            Value::Fn(_) => LoadAction::FnAddress,
            Value::Memory(_) => if ty_is_sized { LoadAction::Load } else { LoadAction::Nothing },
            Value::Register(_) => LoadAction::InRegister,
        },
{
    match value {
        Value::Void => LoadAction::Nothing,
        Value::Fn(_) => LoadAction::FnAddress,
        Value::Memory(_) => if ty_is_sized { LoadAction::Load } else { LoadAction::Nothing },
        Value::Register(_) => LoadAction::InRegister,
    }
}

} // verus!
