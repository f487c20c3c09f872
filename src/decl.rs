//! Declarations of the intermediate representation beyond pages: components, imports,
//! handlers, hooks, props, parameters and variables, and their types.

use vstd::prelude::*;
use crate::ast::owned_strings;
use crate::ir::{IrFunction, IrNode};

verus! {

/// A primitive or composite type.
#[derive(Debug)]
pub enum Type {
    Void,
    Bool,
    /// Signed 32-bit integer.
    Int,
    /// 64-bit floating point.
    Float,
    String,
    Custom(String),
    Function { params: Vec<Type>, ret: Box<Type> },
    Ref(Box<Type>),
}

/// Binary operators of expressions.
#[derive(Debug, Clone, Copy, PartialEq, Eq)]
pub enum BinaryOpKind {
    Add,
    Subtract,
    Multiply,
    Divide,
    Equal,
    NotEqual,
    GreaterThan,
    LessThan,
}

/// A component: its props, render nodes and functions.
#[derive(Debug)]
pub struct ComponentDecl {
    pub name: String,
    pub props: Vec<String>,
    pub render: Vec<IrNode>,
    pub functions: Vec<IrFunction>,
}

impl ComponentDecl {
    pub fn new(name: &str, props: Vec<&str>, render: Vec<IrNode>, functions: Vec<IrFunction>) -> (r:
        ComponentDecl)
        ensures
            r.name@ == name@,
            r.props@.len() == props@.len(),
            forall|i: int| 0 <= i < props@.len() ==> #[trigger] r.props@[i]@ == props@[i]@,
            r.render == render,
            r.functions == functions,
    {
        ComponentDecl { name: String::from_str(name), props: owned_strings(props), render, functions }
    }
}

/// An import: the module and the names taken from it.
#[derive(Debug, Clone, PartialEq, Eq)]
pub struct IrImport {
    pub module: String,
    pub names: Vec<String>,
}

impl IrImport {
    pub fn new(module: &str, names: Vec<&str>) -> (r: IrImport)
        ensures
            r.module@ == module@,
            r.names@.len() == names@.len(),
            forall|i: int| 0 <= i < names@.len() ==> #[trigger] r.names@[i]@ == names@[i]@,
    {
        IrImport { module: String::from_str(module), names: owned_strings(names) }
    }
}

/// An event handler: the event and the function it calls.
#[derive(Debug, Clone, PartialEq, Eq)]
pub struct Handler {
    pub event: String,
    pub function: String,
}

impl Handler {
    pub fn new(event: &str, function: &str) -> (r: Handler)
        ensures
            r.event@ == event@,
            r.function@ == function@,
    {
        Handler { event: String::from_str(event), function: String::from_str(function) }
    }
}

/// A hook call: its name and arguments as text.
#[derive(Debug, Clone, PartialEq, Eq)]
pub struct Hook {
    pub name: String,
    pub args: Vec<String>,
}

impl Hook {
    pub fn new(name: &str, args: Vec<&str>) -> (r: Hook)
        ensures
            r.name@ == name@,
            r.args@.len() == args@.len(),
            forall|i: int| 0 <= i < args@.len() ==> #[trigger] r.args@[i]@ == args@[i]@,
    {
        Hook { name: String::from_str(name), args: owned_strings(args) }
    }
}

/// A property with its type and optional default value.
#[derive(Debug)]
pub struct Prop {
    pub name: String,
    pub ty: Type,
    pub default_value: Option<String>,
}

impl Prop {
    pub fn new(name: &str, ty: Type, default_value: Option<String>) -> (r: Prop)
        ensures
            r.name@ == name@,
            r.ty == ty,
            r.default_value == default_value,
    {
        Prop { name: String::from_str(name), ty, default_value }
    }
}

/// A parameter of a function or method.
#[derive(Debug)]
pub struct Param {
    pub name: String,
    pub ty: Type,
}

impl Param {
    pub fn new(name: &str, ty: Type) -> (r: Param)
        ensures
            r.name@ == name@,
            r.ty == ty,
    {
        Param { name: String::from_str(name), ty }
    }
}

/// A variable with its type and mutability.
#[derive(Debug)]
pub struct Variable {
    pub name: String,
    pub ty: Type,
    pub mutable: bool,
}

impl Variable {
    pub fn new(name: &str, ty: Type, mutable: bool) -> (r: Variable)
        ensures
            r.name@ == name@,
            r.ty == ty,
            r.mutable == mutable,
    {
        Variable { name: String::from_str(name), ty, mutable }
    }
}

} // verus!
