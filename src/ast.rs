use vstd::prelude::*;
use crate::insordmap::InsordMap;
use crate::ops::Operation;
use crate::types::Type;

verus! {

/// A function parameter.
pub struct Arg {
    pub name: String,
    pub typ: Type,
    pub mutable: bool,
}

/// A node of the syntax tree: expressions and statements alike.
pub enum Value {
    String(String),
    Int(usize),
    SInt(isize),
    Bool(bool),
    Expr(Box<Value>, Box<Value>, Operation),
    Unary(Operation, Box<Value>),
    Array(Vec<Value>),
    Tuple(Vec<Value>),
    /// reading a named variable of a type
    Get(String, Type),
    /// address of a value, mutable or not
    Ptr(Box<Value>, bool),
    /// load through an address, of the pointee type
    LoadFromPtr(Box<Value>, Type),
    /// address of an element: container, index, container type, mutability
    LoadAddress(Box<Value>, Box<Value>, Type, bool),
    FunctionPointer(String, Type, Vec<Type>),
    AnonFunction { args: Vec<Arg>, body: Vec<Value>, ret: Type },
    Call(Box<Value>, Vec<Value>),
    InitVar(String, Type, Option<Box<Value>>),
    ModifyVar(String, Type, Box<Value>),
    ModifyByPointer(Box<Value>, Type, Box<Value>),
    Return(Option<Box<Value>>, Type),
    /// marks that every path before it has returned
    ReturnMark,
    Extern(String, Vec<Type>, Type),
    If { condition: Box<Value>, body: Vec<Value>, else_then: Option<Box<Value>> },
    Else(Vec<Value>),
    Loop(Vec<Value>, Option<String>),
    Break(Option<String>),
    Continue(Option<String>),
    Unreachable,
    Typecast(Box<Value>, Type, Type),
    Namespace(String),
    StructInit(String, Vec<(String, Value)>),
    /// a function or struct declaration, by its slot in the declaration table
    Declared(usize),
}

/// A declaration slot: filled with a promise when the declaration is first seen and
/// overwritten once, when its body has been parsed.
pub enum Decl {
    /// a function whose body, the tokens `span.0 .. span.1`, is not parsed yet;
    /// `prefix` is the namespace path it was declared in and `token` the position of
    /// its `fn` keyword
    PromisedFunction { name: String, args: Vec<Arg>, span: (usize, usize), ret: Type, token: usize, prefix: Vec<String> },
    Function { name: String, args: Vec<Arg>, body: Vec<Value>, ret: Type },
    PromisedStruct { name: String, span: (usize, usize), prefix: Vec<String> },
    Struct { name: String, kv: InsordMap<Type>, alignment: u32, size: usize },
    /// a slot whose content has been taken out for resolution or lowering
    Taken,
}

} // verus!
