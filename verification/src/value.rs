//! The JSON value tree that the digest is computed over, and the
//! mathematical tree that it stands for.

use vstd::prelude::*;
use crate::double::{double_bits_of_i64, double_bits_of_u64};

verus! {

/// A JSON number, kept as the parser found it.
#[derive(Clone, Copy, Debug)]
pub enum Number {
    /// A non-negative integer.
    PosInt(u64),
    /// A signed integer.
    NegInt(i64),
    /// A binary64 number, held as its IEEE-754 bit pattern.
    Float(u64),
}

/// A JSON value. An object is the list of its properties; the keys of one
/// object are expected to be distinct.
#[derive(Debug)]
pub enum Value {
    Null,
    Bool(bool),
    Number(Number),
    String(String),
    Array(Vec<Value>),
    Object(Vec<(String, Value)>),
}

/// What a `Value` stands for. Every number is a binary64 number, given by
/// its bit pattern; an object is the sequence of its properties, in the order
/// in which they are listed.
pub enum Tree {
    Null,
    Bool(bool),
    Number(u64),
    String(Seq<char>),
    Array(Seq<Tree>),
    Object(Seq<(Seq<char>, Tree)>),
}

impl View for Number {
    type V = u64;

    /// The bit pattern of the binary64 number nearest to this number.
    open spec fn view(&self) -> u64 {
        match *self {
            Number::PosInt(u) => double_bits_of_u64(u),
            Number::NegInt(i) => double_bits_of_i64(i),
            Number::Float(bits) => bits,
        }
    }
}

/// The trees that the values in `a` stand for.
pub open spec fn trees_of(a: Seq<Value>) -> Seq<Tree>
    decreases a, 0nat,
{
    Seq::new(
        a.len(),
        |i: int|
            if 0 <= i < a.len() {
                tree_of(a[i])
            } else {
                Tree::Null
            },
    )
}

/// The properties that those in `o` stand for.
pub open spec fn properties_of(o: Seq<(String, Value)>) -> Seq<(Seq<char>, Tree)>
    decreases o, 0nat,
{
    Seq::new(
        o.len(),
        |i: int|
            if 0 <= i < o.len() {
                (o[i].0@, tree_of(o[i].1))
            } else {
                (Seq::empty(), Tree::Null)
            },
    )
}

/// The tree that `v` stands for.
pub open spec fn tree_of(v: Value) -> Tree
    decreases v, 1nat,
{
    match v {
        Value::Null => Tree::Null,
        Value::Bool(t) => Tree::Bool(t),
        Value::Number(n) => Tree::Number(n@),
        Value::String(s) => Tree::String(s@),
        Value::Array(a) => Tree::Array(trees_of(a@)),
        Value::Object(o) => Tree::Object(properties_of(o@)),
    }
}

impl View for Value {
    type V = Tree;

    open spec fn view(&self) -> Tree {
        tree_of(*self)
    }
}

} // verus!
