//! Session attributes: a closed set of value shapes, and the typed access to
//! them that `get` and `set` go through.

use vstd::prelude::*;

verus! {

/// The shape of an attribute, without its contents.
#[derive(Debug, Clone, Copy, PartialEq, Eq, Structural)]
pub enum AttributeKind {
    Bool,
    Integer,
    Text,
    Bytes,
}

/// A value stored under a name in a session. The store never looks inside.
#[derive(Debug)]
pub enum AttributeValue {
    Bool(bool),
    Integer(i64),
    Text(String),
    Bytes(Vec<u8>),
}

/// What an [`AttributeValue`] holds, as mathematics.
pub enum AttributeModel {
    Bool(bool),
    Integer(i64),
    Text(Seq<char>),
    Bytes(Seq<u8>),
}

impl AttributeModel {
    /// The shape of this attribute.
    pub open spec fn kind(self) -> AttributeKind {
        match self {
            AttributeModel::Bool(_) => AttributeKind::Bool,
            AttributeModel::Integer(_) => AttributeKind::Integer,
            AttributeModel::Text(_) => AttributeKind::Text,
            AttributeModel::Bytes(_) => AttributeKind::Bytes,
        }
    }
}

impl View for AttributeValue {
    type V = AttributeModel;

    open spec fn view(&self) -> AttributeModel {
        match self {
            AttributeValue::Bool(b) => AttributeModel::Bool(*b),
            AttributeValue::Integer(n) => AttributeModel::Integer(*n),
            AttributeValue::Text(s) => AttributeModel::Text(s@),
            AttributeValue::Bytes(v) => AttributeModel::Bytes(v@),
        }
    }
}

impl AttributeValue {
    /// The shape of this attribute.
    pub fn kind(&self) -> (k: AttributeKind)
        ensures
            k == self@.kind(),
    {
        match self {
            AttributeValue::Bool(_) => AttributeKind::Bool,
            AttributeValue::Integer(_) => AttributeKind::Integer,
            AttributeValue::Text(_) => AttributeKind::Text,
            AttributeValue::Bytes(_) => AttributeKind::Bytes,
        }
    }
}

/// A type whose values can be kept in a session.
///
/// Each such type is stored in one shape of [`AttributeValue`], and reading an
/// attribute of another shape as this type gives nothing.
pub trait SessionValue: Sized {
    /// The shape in which values of this type are stored.
    spec fn kind() -> AttributeKind;

    /// The attribute that stores this value.
    spec fn model(&self) -> AttributeModel;

    /// A value is stored in the shape of its type.
    proof fn lemma_model_has_kind(&self)
        ensures
            self.model().kind() == Self::kind(),
    ;

    /// Wraps the value for storage.
    fn into_attribute(self) -> (a: AttributeValue)
        ensures
            a@ == self.model(),
    ;

    /// Reads a stored attribute as this type: a copy of the value when the
    /// attribute has this type's shape, nothing otherwise.
    fn from_attribute(a: &AttributeValue) -> (r: Option<Self>)
        ensures
            r is Some <==> a@.kind() == Self::kind(),
            r matches Some(v) ==> v.model() == a@,
    ;
}

impl SessionValue for bool {
    open spec fn kind() -> AttributeKind {
        AttributeKind::Bool
    }

    open spec fn model(&self) -> AttributeModel {
        AttributeModel::Bool(*self)
    }

    proof fn lemma_model_has_kind(&self) {
    }

    fn into_attribute(self) -> (a: AttributeValue) {
        AttributeValue::Bool(self)
    }

    fn from_attribute(a: &AttributeValue) -> (r: Option<Self>) {
        match a {
            AttributeValue::Bool(b) => Some(*b),
            _ => None,
        }
    }
}

impl SessionValue for i64 {
    open spec fn kind() -> AttributeKind {
        AttributeKind::Integer
    }

    open spec fn model(&self) -> AttributeModel {
        AttributeModel::Integer(*self)
    }

    proof fn lemma_model_has_kind(&self) {
    }

    fn into_attribute(self) -> (a: AttributeValue) {
        AttributeValue::Integer(self)
    }

    fn from_attribute(a: &AttributeValue) -> (r: Option<Self>) {
        match a {
            AttributeValue::Integer(n) => Some(*n),
            _ => None,
        }
    }
}

impl SessionValue for String {
    open spec fn kind() -> AttributeKind {
        AttributeKind::Text
    }

    open spec fn model(&self) -> AttributeModel {
        AttributeModel::Text(self@)
    }

    proof fn lemma_model_has_kind(&self) {
    }

    fn into_attribute(self) -> (a: AttributeValue) {
        AttributeValue::Text(self)
    }

    fn from_attribute(a: &AttributeValue) -> (r: Option<Self>) {
        match a {
            AttributeValue::Text(s) => Some(s.clone()),
            _ => None,
        }
    }
}

impl SessionValue for Vec<u8> {
    open spec fn kind() -> AttributeKind {
        AttributeKind::Bytes
    }

    open spec fn model(&self) -> AttributeModel {
        AttributeModel::Bytes(self@)
    }

    proof fn lemma_model_has_kind(&self) {
    }

    fn into_attribute(self) -> (a: AttributeValue) {
        AttributeValue::Bytes(self)
    }

    fn from_attribute(a: &AttributeValue) -> (r: Option<Self>) {
        match a {
            AttributeValue::Bytes(v) => {
                let copy = v.clone();
                assert(copy@ =~= v@);
                Some(copy)
            },
            _ => None,
        }
    }
}

} // verus!
