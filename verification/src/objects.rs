//! The unified syntax/value type of the interpreter and its ghost mirror.

use vstd::prelude::*;

verus! {

/// A single tagged union used both for syntax trees and for runtime values:
/// the interpreter does not distinguish AST nodes from evaluated results.
#[derive(Debug, PartialEq, Eq)]
pub enum Object {
    /// The empty/absent value; also the canonical end-of-list marker.
    Nil,
    /// A signed 64-bit integer.
    Integer(i64),
    /// A truth value; the symbols `T` and `F` evaluate to these.
    Bool(bool),
    /// An identifier, evaluated by environment lookup unless reserved.
    Symbol(String),
    /// A function value: parameter names and an unevaluated body expression
    /// list. No environment is captured; a call pairs the value with the
    /// caller's current frame.
    Lambda(Vec<String>, Vec<Object>),
    /// Both a syntactic grouping and a runtime sequence value.
    List(Vec<Object>),
}

/// The ghost mirror of [`Object`]: text as character sequences, integers as
/// unbounded integers, lists as `Seq`. All contracts speak of this type.
#[verifier::ext_equal]
pub enum ObjV {
    Nil,
    Integer(int),
    Bool(bool),
    Symbol(Seq<char>),
    Lambda(Seq<Seq<char>>, Seq<ObjV>),
    List(Seq<ObjV>),
}

impl View for Object {
    type V = ObjV;

    open spec fn view(&self) -> ObjV
        decreases self,
    {
        // The range guards in the closures below keep the recursion
        // well-founded: only in-range elements are recursed into.
        match self {
            Object::Nil => ObjV::Nil,
            Object::Integer(n) => ObjV::Integer(*n as int),
            Object::Bool(b) => ObjV::Bool(*b),
            Object::Symbol(s) => ObjV::Symbol(s@),
            Object::Lambda(params, body) => ObjV::Lambda(
                Seq::new(params@.len(), |i: int| params@[i]@),
                Seq::new(
                    body@.len(),
                    |i: int|
                        if 0 <= i < body@.len() {
                            body@[i]@
                        } else {
                            ObjV::Nil
                        },
                ),
            ),
            Object::List(items) => ObjV::List(
                Seq::new(
                    items@.len(),
                    |i: int|
                        if 0 <= i < items@.len() {
                            items@[i]@
                        } else {
                            ObjV::Nil
                        },
                ),
            ),
        }
    }
}

/// The ghost image of a sequence of objects.
pub open spec fn objs_view(s: Seq<Object>) -> Seq<ObjV> {
    Seq::new(s.len(), |i: int| s[i]@)
}

/// The ghost image of a sequence of names.
pub open spec fn names_view(s: Seq<String>) -> Seq<Seq<char>> {
    Seq::new(s.len(), |i: int| s[i]@)
}

impl Object {
    /// A structural copy: the result has the same ghost image as `self`.
    #[verifier::loop_isolation(false)]
    pub fn dup(&self) -> (r: Object)
        ensures
            r@ == self@,
        decreases self,
    {
        match self {
            Object::Nil => Object::Nil,
            Object::Integer(n) => Object::Integer(*n),
            Object::Bool(b) => Object::Bool(*b),
            Object::Symbol(s) => Object::Symbol(s.clone()),
            Object::Lambda(params, body) => {
                let mut params2: Vec<String> = Vec::new();
                let mut i: usize = 0;
                while i < params.len()
                    invariant
                        i <= params@.len(),
                        params2@.len() == i as int,
                        forall|j: int| 0 <= j < i as int ==> params2@[j]@ == params@[j]@,
                    decreases params@.len() - i,
                {
                    params2.push(params[i].clone());
                    i = i + 1;
                }
                let mut body2: Vec<Object> = Vec::new();
                let mut k: usize = 0;
                while k < body.len()
                    invariant
                        k <= body@.len(),
                        body2@.len() == k as int,
                        forall|j: int| 0 <= j < k as int ==> body2@[j]@ == body@[j]@,
                    decreases body@.len() - k,
                {
                    proof {
                        assert(decreases_to!(*self => self->Lambda_1));
                        assert(decreases_to!(self->Lambda_1 => self->Lambda_1@));
                        assert(decreases_to!(self->Lambda_1@ => self->Lambda_1@[k as int]));
                        assert(decreases_to!(*self => body@[k as int]));
                    }
                    body2.push(body[k].dup());
                    k = k + 1;
                }
                let r = Object::Lambda(params2, body2);
                proof {
                    assert(r@ is Lambda && self@ is Lambda);
                    assert(r@->Lambda_0 =~~= self@->Lambda_0);
                    assert(r@->Lambda_1 =~~= self@->Lambda_1);
                    assert(r@ =~~= self@);
                }
                r
            },
            Object::List(items) => {
                let mut items2: Vec<Object> = Vec::new();
                let mut i: usize = 0;
                while i < items.len()
                    invariant
                        i <= items@.len(),
                        items2@.len() == i as int,
                        forall|j: int| 0 <= j < i as int ==> items2@[j]@ == items@[j]@,
                    decreases items@.len() - i,
                {
                    proof {
                        assert(decreases_to!(*self => self->List_0));
                        assert(decreases_to!(self->List_0 => self->List_0@));
                        assert(decreases_to!(self->List_0@ => self->List_0@[i as int]));
                        assert(decreases_to!(*self => items@[i as int]));
                    }
                    items2.push(items[i].dup());
                    i = i + 1;
                }
                let r = Object::List(items2);
                proof {
                    assert(r@ is List && self@ is List);
                    assert(r@->List_0 =~~= self@->List_0);
                    assert(r@ =~~= self@);
                }
                r
            },
        }
    }
}

} // verus!
