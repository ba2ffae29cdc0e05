//! Typed values of profile fields.

use crate::address::Address;
use vstd::prelude::*;

verus! {

/// The value of one profile field. The variant is part of the value: nothing
/// is ever coerced from one variant to another.
#[derive(Debug, PartialEq, Eq)]
pub enum FieldValue {
    /// Text.
    StringField(String),
    /// A signed 128-bit integer.
    IntField(i128),
    /// A truth value.
    BoolField(bool),
    /// A reference to an account.
    AddressField(Address),
    /// Raw bytes.
    BytesField(Vec<u8>),
}

/// What a field value holds.
pub enum FieldValueView {
    StringField(Seq<char>),
    IntField(i128),
    BoolField(bool),
    AddressField(Seq<u8>),
    BytesField(Seq<u8>),
}

impl View for FieldValue {
    type V = FieldValueView;

    open spec fn view(&self) -> FieldValueView {
        match self {
            FieldValue::StringField(s) => FieldValueView::StringField(s@),
            FieldValue::IntField(i) => FieldValueView::IntField(*i),
            FieldValue::BoolField(b) => FieldValueView::BoolField(*b),
            FieldValue::AddressField(a) => FieldValueView::AddressField(a@),
            FieldValue::BytesField(b) => FieldValueView::BytesField(b@),
        }
    }
}

impl Clone for FieldValue {
    fn clone(&self) -> (copy: Self)
        ensures
            copy@ == self@,
    {
        match self {
            FieldValue::StringField(s) => FieldValue::StringField(s.clone()),
            FieldValue::IntField(i) => FieldValue::IntField(*i),
            FieldValue::BoolField(b) => FieldValue::BoolField(*b),
            FieldValue::AddressField(a) => FieldValue::AddressField(a.clone()),
            FieldValue::BytesField(b) => FieldValue::BytesField(b.clone()),
        }
    }
}

impl FieldValue {
    /// The text, where this is a text value.
    pub fn as_string(&self) -> (text: Option<&String>)
        ensures
            match text {
                Some(s) => self@ == FieldValueView::StringField(s@),
                None => !(self@ is StringField),
            },
    {
        match self {
            FieldValue::StringField(s) => Some(s),
            _ => None,
        }
    }

    /// The integer, where this is an integer value.
    pub fn as_int(&self) -> (number: Option<i128>)
        ensures
            match number {
                Some(i) => self@ == FieldValueView::IntField(i),
                None => !(self@ is IntField),
            },
    {
        match self {
            FieldValue::IntField(i) => Some(*i),
            _ => None,
        }
    }

    /// The truth value, where this is a boolean value.
    pub fn as_bool(&self) -> (flag: Option<bool>)
        ensures
            match flag {
                Some(b) => self@ == FieldValueView::BoolField(b),
                None => !(self@ is BoolField),
            },
    {
        match self {
            FieldValue::BoolField(b) => Some(*b),
            _ => None,
        }
    }

    /// The account, where this is an account reference.
    pub fn as_address(&self) -> (address: Option<&Address>)
        ensures
            match address {
                Some(a) => self@ == FieldValueView::AddressField(a@),
                None => !(self@ is AddressField),
            },
    {
        match self {
            FieldValue::AddressField(a) => Some(a),
            _ => None,
        }
    }

    /// The bytes, where this is a raw value.
    pub fn as_bytes(&self) -> (bytes: Option<&Vec<u8>>)
        ensures
            match bytes {
                Some(b) => self@ == FieldValueView::BytesField(b@),
                None => !(self@ is BytesField),
            },
    {
        match self {
            FieldValue::BytesField(b) => Some(b),
            _ => None,
        }
    }
}

} // verus!
