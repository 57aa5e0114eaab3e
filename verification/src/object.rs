//! The values that a program computes.

use vstd::prelude::*;
use vstd::std_specs::cmp::PartialEqSpecImpl;
use crate::ast::{Node, NodeView};
use crate::text::{decimal, push_decimal};

verus! {

/// The variant of a value, without what it holds.
#[derive(Debug, PartialEq, Eq, Structural, Clone, Copy)]
pub enum ObjectKind {
    Null,
    Integer,
    Bool,
    StringValue,
    ReturnValue,
    Error,
    Function,
    Builtin,
    Array,
    Hash,
}

/// A runtime value.
///
/// A function keeps the scope it was made in by the index of that scope in
/// the environment, so that the scope is shared, not copied. A hash keeps
/// its entries in the order in which their keys first came.
#[derive(Debug)]
pub enum Object {
    Null,
    Integer(i64),
    Bool(bool),
    StringValue(String),
    ReturnValue(Box<Object>),
    Error(String),
    Function { parameters: Vec<Box<Node>>, body: Box<Node>, environment: usize },
    Builtin(String),
    Array(Vec<Object>),
    Hash(Vec<HashPair>),
}

/// An entry of a hash: the key as it was given, the text that it is found
/// by, and the value.
#[derive(Debug)]
pub struct HashPair {
    pub hash_key: String,
    pub key: Object,
    pub value: Object,
}

/// The mathematical value of an [`Object`].
pub enum ObjectView {
    Null,
    Integer(i64),
    Bool(bool),
    StringValue(Seq<char>),
    ReturnValue(Box<ObjectView>),
    Error(Seq<char>),
    Function { parameters: Seq<NodeView>, body: Box<NodeView>, environment: nat },
    Builtin(Seq<char>),
    Array(Seq<ObjectView>),
    Hash(Seq<HashPairView>),
}

/// The mathematical value of a [`HashPair`].
pub struct HashPairView {
    pub hash_key: Seq<char>,
    pub key: ObjectView,
    pub value: ObjectView,
}

impl ObjectKind {
    /// The name of the variant, as messages show it.
    pub open spec fn name(self) -> Seq<char> {
        match self {
            ObjectKind::Null => "Null"@,
            ObjectKind::Integer => "Integer"@,
            ObjectKind::Bool => "Bool"@,
            ObjectKind::StringValue => "StringValue"@,
            ObjectKind::ReturnValue => "ReturnValue"@,
            ObjectKind::Error => "Error"@,
            ObjectKind::Function => "Function"@,
            ObjectKind::Builtin => "Builtin"@,
            ObjectKind::Array => "Array"@,
            ObjectKind::Hash => "Hash"@,
        }
    }

    /// The name of the variant.
    pub fn name_str(self) -> (r: &'static str)
        ensures
            r@ == self.name(),
    {
        match self {
            ObjectKind::Null => "Null",
            ObjectKind::Integer => "Integer",
            ObjectKind::Bool => "Bool",
            ObjectKind::StringValue => "StringValue",
            ObjectKind::ReturnValue => "ReturnValue",
            ObjectKind::Error => "Error",
            ObjectKind::Function => "Function",
            ObjectKind::Builtin => "Builtin",
            ObjectKind::Array => "Array",
            ObjectKind::Hash => "Hash",
        }
    }
}

/// How a truth value is written.
pub open spec fn bool_text(b: bool) -> Seq<char> {
    if b {
        "true"@
    } else {
        "false"@
    }
}

impl ObjectView {
    /// The variant of the value.
    pub open spec fn kind(self) -> ObjectKind {
        match self {
            ObjectView::Null => ObjectKind::Null,
            ObjectView::Integer(_) => ObjectKind::Integer,
            ObjectView::Bool(_) => ObjectKind::Bool,
            ObjectView::StringValue(_) => ObjectKind::StringValue,
            ObjectView::ReturnValue(_) => ObjectKind::ReturnValue,
            ObjectView::Error(_) => ObjectKind::Error,
            ObjectView::Function { .. } => ObjectKind::Function,
            ObjectView::Builtin(_) => ObjectKind::Builtin,
            ObjectView::Array(_) => ObjectKind::Array,
            ObjectView::Hash(_) => ObjectKind::Hash,
        }
    }

    /// The text by which a hash finds this value as a key: the variant and
    /// what it holds, for an integer, a truth value and a string. No other
    /// value can be a key.
    pub open spec fn hash_key(self) -> Option<Seq<char>> {
        match self {
            ObjectView::Integer(n) => Some("Integer<"@ + decimal(n as int) + ">"@),
            ObjectView::Bool(b) => Some("Bool<"@ + bool_text(b) + ">"@),
            ObjectView::StringValue(s) => Some("StringValue<"@ + s + ">"@),
            _ => None,
        }
    }

    /// Equality of values as `==` on [`Object`] decides it: two values are
    /// equal where both are `Null`, or both are integers, truth values,
    /// strings or errors that hold the same. No function, builtin, array,
    /// hash or return value equals anything.
    pub open spec fn same_value(self, other: ObjectView) -> bool {
        match (self, other) {
            (ObjectView::Null, ObjectView::Null) => true,
            (ObjectView::Integer(a), ObjectView::Integer(b)) => a == b,
            (ObjectView::Bool(a), ObjectView::Bool(b)) => a == b,
            (ObjectView::StringValue(a), ObjectView::StringValue(b)) => a == b,
            (ObjectView::Error(a), ObjectView::Error(b)) => a == b,
            _ => false,
        }
    }

    /// The value as messages show it: the name of the variant, followed for
    /// an integer and a truth value by what it holds in round brackets, and
    /// for a string, an error and a builtin by its text, quoted, in round
    /// brackets.
    pub open spec fn inspect(self) -> Seq<char> {
        match self {
            ObjectView::Integer(n) => "Integer("@ + decimal(n as int) + ")"@,
            ObjectView::Bool(b) => "Bool("@ + bool_text(b) + ")"@,
            ObjectView::StringValue(s) => "StringValue(\""@ + s + "\")"@,
            ObjectView::Error(s) => "Error(\""@ + s + "\")"@,
            ObjectView::Builtin(s) => "Builtin(\""@ + s + "\")"@,
            _ => self.kind().name(),
        }
    }
}

impl Object {
    /// The mathematical value of the object.
    pub open spec fn model(&self) -> ObjectView
        decreases self,
    {
        match self {
            Object::Null => ObjectView::Null,
            Object::Integer(n) => ObjectView::Integer(*n),
            Object::Bool(b) => ObjectView::Bool(*b),
            Object::StringValue(s) => ObjectView::StringValue(s@),
            Object::ReturnValue(v) => ObjectView::ReturnValue(Box::new(v.model())),
            Object::Error(s) => ObjectView::Error(s@),
            Object::Function { parameters, body, environment } => ObjectView::Function {
                parameters: Node::models(parameters),
                body: Box::new(body@),
                environment: *environment as nat,
            },
            Object::Builtin(s) => ObjectView::Builtin(s@),
            Object::Array(elements) => ObjectView::Array(Object::models(elements)),
            Object::Hash(pairs) => ObjectView::Hash(Object::pair_models(pairs)),
        }
    }

    /// The values of a list of objects, in order.
    pub open spec fn models(objects: &Vec<Object>) -> Seq<ObjectView>
        decreases objects,
    {
        Seq::new(
            objects.len() as nat,
            |i: int|
                if 0 <= i < objects.len() {
                    objects[i].model()
                } else {
                    arbitrary()
                },
        )
    }

    /// The values of the entries of a hash, in order.
    pub open spec fn pair_models(pairs: &Vec<HashPair>) -> Seq<HashPairView>
        decreases pairs,
    {
        Seq::new(
            pairs.len() as nat,
            |i: int|
                if 0 <= i < pairs.len() {
                    HashPairView {
                        hash_key: pairs[i].hash_key@,
                        key: pairs[i].key.model(),
                        value: pairs[i].value.model(),
                    }
                } else {
                    arbitrary()
                },
        )
    }
}

impl View for Object {
    type V = ObjectView;

    open spec fn view(&self) -> ObjectView {
        self.model()
    }
}

impl View for HashPair {
    type V = HashPairView;

    open spec fn view(&self) -> HashPairView {
        HashPairView { hash_key: self.hash_key@, key: self.key@, value: self.value@ }
    }
}

/// The value of an optional object.
pub open spec fn optional_value(object: Option<Object>) -> Option<ObjectView> {
    match object {
        Some(o) => Some(o@),
        None => None,
    }
}

/// Appending an object to a list appends its value to the list's values.
pub fn push_object(objects: &mut Vec<Object>, object: Object)
    ensures
        Object::models(final(objects)) == Object::models(old(objects)).push(object@),
{
    objects.push(object);
    assert(Object::models(objects) =~= Object::models(old(objects)).push(object@));
}

/// Appending an entry to a hash's list appends its value to the list's values.
pub fn push_pair(pairs: &mut Vec<HashPair>, pair: HashPair)
    ensures
        Object::pair_models(final(pairs)) == Object::pair_models(old(pairs)).push(pair@),
{
    pairs.push(pair);
    assert(Object::pair_models(pairs) =~= Object::pair_models(old(pairs)).push(pair@));
}

impl Object {
    /// The variant of the object.
    pub fn kind(&self) -> (r: ObjectKind)
        ensures
            r == self@.kind(),
    {
        match self {
            Object::Null => ObjectKind::Null,
            Object::Integer(_) => ObjectKind::Integer,
            Object::Bool(_) => ObjectKind::Bool,
            Object::StringValue(_) => ObjectKind::StringValue,
            Object::ReturnValue(_) => ObjectKind::ReturnValue,
            Object::Error(_) => ObjectKind::Error,
            Object::Function { .. } => ObjectKind::Function,
            Object::Builtin(_) => ObjectKind::Builtin,
            Object::Array(_) => ObjectKind::Array,
            Object::Hash(_) => ObjectKind::Hash,
        }
    }

    /// Whether the two objects are of the same variant.
    pub fn is_same(&self, other: &Object) -> (r: bool)
        ensures
            r == (self@.kind() == other@.kind()),
    {
        self.kind() == other.kind()
    }

    /// Whether the object is an integer.
    pub fn is_integer(&self) -> (r: bool)
        ensures
            r == (self@ is Integer),
    {
        self.kind() == ObjectKind::Integer
    }

    /// Whether the object is a string.
    pub fn is_string(&self) -> (r: bool)
        ensures
            r == (self@ is StringValue),
    {
        match self {
            Object::StringValue(_) => true,
            _ => false,
        }
    }

    /// Whether the object is an error.
    pub fn is_error(&self) -> (r: bool)
        ensures
            r == (self@ is Error),
    {
        self.kind() == ObjectKind::Error
    }

    /// The text by which a hash finds this object as a key; `None` for an
    /// object that cannot be a key.
    pub fn create_hash_key(&self) -> (r: Option<String>)
        ensures
            match self@.hash_key() {
                Some(k) => r is Some && r->Some_0@ == k,
                None => r is None,
            },
    {
        match self {
            Object::Integer(n) => {
                let mut out = "Integer<".to_owned();
                push_decimal(&mut out, *n);
                out.append(">");
                Some(out)
            },
            Object::Bool(b) => {
                let mut out = "Bool<".to_owned();
                if *b {
                    out.append("true");
                } else {
                    out.append("false");
                }
                out.append(">");
                Some(out)
            },
            Object::StringValue(s) => {
                let mut out = "StringValue<".to_owned();
                out.append(s.as_str());
                out.append(">");
                Some(out)
            },
            _ => None,
        }
    }

    /// The object as messages show it.
    pub fn inspect(&self) -> (r: String)
        ensures
            r@ == self@.inspect(),
    {
        match self {
            Object::Integer(n) => {
                let mut out = "Integer(".to_owned();
                push_decimal(&mut out, *n);
                out.append(")");
                out
            },
            Object::Bool(b) => {
                let mut out = "Bool(".to_owned();
                if *b {
                    out.append("true");
                } else {
                    out.append("false");
                }
                out.append(")");
                out
            },
            Object::StringValue(s) => {
                let mut out = "StringValue(\"".to_owned();
                out.append(s.as_str());
                out.append("\")");
                out
            },
            Object::Error(s) => {
                let mut out = "Error(\"".to_owned();
                out.append(s.as_str());
                out.append("\")");
                out
            },
            Object::Builtin(s) => {
                let mut out = "Builtin(\"".to_owned();
                out.append(s.as_str());
                out.append("\")");
                out
            },
            _ => self.kind().name_str().to_owned(),
        }
    }

    /// A copy of a list of objects.
    pub fn clone_objects(objects: &Vec<Object>) -> (r: Vec<Object>)
        ensures
            Object::models(&r) == Object::models(objects),
        decreases objects,
    {
        let mut out: Vec<Object> = Vec::new();
        let mut i: usize = 0;
        while i < objects.len()
            invariant
                i <= objects.len(),
                out.len() == i,
                forall|j: int| 0 <= j < i ==> out[j]@ == objects[j]@,
            decreases objects.len() - i,
        {
            let copy = objects[i].clone();
            out.push(copy);
            i += 1;
        }
        assert(Object::models(&out) =~= Object::models(objects));
        out
    }

    /// A copy of the entries of a hash.
    pub fn clone_pairs(pairs: &Vec<HashPair>) -> (r: Vec<HashPair>)
        ensures
            Object::pair_models(&r) == Object::pair_models(pairs),
        decreases pairs,
    {
        let mut out: Vec<HashPair> = Vec::new();
        let mut i: usize = 0;
        while i < pairs.len()
            invariant
                i <= pairs.len(),
                out.len() == i,
                forall|j: int|
                    0 <= j < i ==> out[j].hash_key@ == pairs[j].hash_key@ && out[j].key@
                        == pairs[j].key@ && out[j].value@ == pairs[j].value@,
            decreases pairs.len() - i,
        {
            let hash_key = pairs[i].hash_key.clone();
            let key = pairs[i].key.clone();
            let value = pairs[i].value.clone();
            out.push(HashPair { hash_key, key, value });
            i += 1;
        }
        assert(Object::pair_models(&out) =~= Object::pair_models(pairs));
        out
    }
}

impl Clone for Object {
    fn clone(&self) -> (r: Self)
        ensures
            r@ == self@,
        decreases self,
    {
        match self {
            Object::Null => Object::Null,
            Object::Integer(n) => Object::Integer(*n),
            Object::Bool(b) => Object::Bool(*b),
            Object::StringValue(s) => Object::StringValue(s.clone()),
            Object::ReturnValue(v) => Object::ReturnValue(Box::new((**v).clone())),
            Object::Error(s) => Object::Error(s.clone()),
            Object::Function { parameters, body, environment } => Object::Function {
                parameters: Node::clone_nodes(parameters),
                body: Box::new((**body).clone()),
                environment: *environment,
            },
            Object::Builtin(s) => Object::Builtin(s.clone()),
            Object::Array(elements) => Object::Array(Object::clone_objects(elements)),
            Object::Hash(pairs) => Object::Hash(Object::clone_pairs(pairs)),
        }
    }
}

impl Clone for HashPair {
    fn clone(&self) -> (r: Self)
        ensures
            r@ == self@,
    {
        HashPair {
            hash_key: self.hash_key.clone(),
            key: self.key.clone(),
            value: self.value.clone(),
        }
    }
}

impl PartialEq for Object {
    fn eq(&self, other: &Object) -> (r: bool) {
        match (self, other) {
            (Object::Null, Object::Null) => true,
            (Object::Integer(a), Object::Integer(b)) => *a == *b,
            (Object::Bool(a), Object::Bool(b)) => *a == *b,
            (Object::StringValue(a), Object::StringValue(b)) => *a == *b,
            (Object::Error(a), Object::Error(b)) => *a == *b,
            _ => false,
        }
    }
}

impl PartialEqSpecImpl for Object {
    open spec fn obeys_eq_spec() -> bool {
        true
    }

    open spec fn eq_spec(&self, other: &Object) -> bool {
        self@.same_value(other@)
    }
}

} // verus!
