//! A JSON document as a tree, and the rules by which the fields of the
//! status document are read from it.

use vstd::prelude::*;
use vstd::string::StringExecFns;
use crate::status_models::address::{endpoint_parsed, Address, AddressView};
use crate::status_models::network_address::ParseError;
use crate::text::text_eq;

verus! {

/// A JSON value.
pub enum Json {
    Null,
    Bool(bool),
    /// A number, with the integer that it is where it is a whole number that
    /// fits 64 bits with a sign.
    Number(Option<i64>),
    Text(String),
    Array(Vec<Json>),
    /// The members of an object. Of two members with the same key the first
    /// is the one that counts.
    Object(Vec<(String, Json)>),
}

/// The value type of the `serde_json` crate.
#[verifier::external_type_specification]
#[verifier::external_body]
pub struct ExValue(serde_json::Value);

/// The value that a text spells, where the text is JSON.
pub uninterp spec fn parsed_value(bytes: Seq<u8>) -> Option<serde_json::Value>;

/// A value of the `serde_json` crate as a tree of this library.
pub uninterp spec fn value_tree(value: serde_json::Value) -> Json;

/// `serde_json::from_slice` for a `serde_json::Value`, its error dropped.
#[verifier::external_body]
fn value_of_bytes(bytes: &[u8]) -> (r: Option<serde_json::Value>)
    ensures
        r == parsed_value(bytes@),
{
    serde_json::from_slice::<serde_json::Value>(bytes).ok()
}

/// Tells the variants of `serde_json::Value` apart and moves what each holds
/// into the same variant of `Json`: a number through `Number::as_i64`, the
/// items of an array and the members of an object one by one, in their
/// order.
#[verifier::external_body]
fn json_of_value(value: serde_json::Value) -> (j: Json)
    ensures
        j == value_tree(value),
{
    match value {
        serde_json::Value::Null => Json::Null,
        serde_json::Value::Bool(b) => Json::Bool(b),
        serde_json::Value::Number(n) => Json::Number(n.as_i64()),
        serde_json::Value::String(s) => Json::Text(s),
        serde_json::Value::Array(a) => Json::Array(a.into_iter().map(json_of_value).collect()),
        serde_json::Value::Object(m) => Json::Object(
            m.into_iter().map(|(k, v)| (k, json_of_value(v))).collect(),
        ),
    }
}

/// The tree that a text spells, where the text is JSON.
pub open spec fn document_of(bytes: Seq<u8>) -> Option<Json> {
    match parsed_value(bytes) {
        Some(value) => Some(value_tree(value)),
        None => None,
    }
}

/// What is wrong with a document.
#[derive(Clone, Copy, Debug, PartialEq, Eq, Structural)]
pub enum DecodeFault {
    /// The text is not JSON.
    Syntax,
    /// A value is of another type than its field.
    WrongType,
    /// A text that should be an endpoint is none.
    Address(ParseError),
}

/// A decode failure, with the keys that lead from the root of the document
/// to the value at fault.
#[derive(Debug)]
pub struct DecodeError {
    pub path: Vec<String>,
    pub fault: DecodeFault,
}

/// A decode failure with its path as texts.
pub struct DecodeErrorView {
    pub path: Seq<Seq<char>>,
    pub fault: DecodeFault,
}

impl View for DecodeError {
    type V = DecodeErrorView;

    open spec fn view(&self) -> DecodeErrorView {
        DecodeErrorView { path: Seq::new(self.path@.len(), |i: int| self.path@[i]@), fault: self.fault }
    }
}

impl DecodeErrorView {
    /// A fault of the value at hand.
    pub open spec fn here(fault: DecodeFault) -> DecodeErrorView {
        DecodeErrorView { path: Seq::empty(), fault }
    }

    /// The same failure, seen from the value that holds the faulty one under
    /// `key`.
    pub open spec fn under(self, key: Seq<char>) -> DecodeErrorView {
        DecodeErrorView { path: seq![key] + self.path, fault: self.fault }
    }
}

/// The keys of a path written one after the other, with a dot between them.
pub open spec fn dotted(path: Seq<Seq<char>>) -> Seq<char>
    decreases path.len(),
{
    if path.len() == 0 {
        Seq::empty()
    } else if path.len() == 1 {
        path[0]
    } else {
        dotted(path.drop_last()) + seq!['.'] + path.last()
    }
}

impl DecodeFault {
    /// What the fault is, in words.
    pub open spec fn words(self) -> Seq<char> {
        match self {
            DecodeFault::Syntax => "the text is not JSON"@,
            DecodeFault::WrongType => "a value of another type was expected"@,
            DecodeFault::Address(e) => match e {
                ParseError::MissingPort => "the endpoint has no port"@,
                ParseError::ParsingHost => "the endpoint has no host"@,
                ParseError::ParsingPort => "the port of the endpoint is no port"@,
            },
        }
    }
}

impl DecodeErrorView {
    /// The failure in words: the path, a colon and the fault; for a fault at
    /// the root, a dot stands for the path.
    pub open spec fn words(self) -> Seq<char> {
        if self.path.len() == 0 {
            seq!['.'] + ": "@ + self.fault.words()
        } else {
            dotted(self.path) + ": "@ + self.fault.words()
        }
    }
}

impl DecodeError {
    /// Writes the failure in words.
    pub fn to_string(&self) -> (r: String)
        ensures
            r@ == self@.words(),
    {
        let mut out = String::new();
        if self.path.len() == 0 {
            out.push('.');
        } else {
            let mut i: usize = 0;
            while i < self.path.len()
                invariant
                    i <= self.path.len(),
                    out@ == dotted(self@.path.take(i as int)),
                decreases self.path.len() - i,
            {
                if i > 0 {
                    out.push('.');
                }
                out.append(self.path[i].as_str());
                assert(self@.path.take(i + 1).drop_last() =~= self@.path.take(i as int));
                assert(self@.path.take(i + 1).last() == self.path@[i as int]@);
                i = i + 1;
            }
            assert(self@.path.take(self.path.len() as int) =~= self@.path);
        }
        out.append(": ");
        out.append(
            match self.fault {
                DecodeFault::Syntax => "the text is not JSON",
                DecodeFault::WrongType => "a value of another type was expected",
                DecodeFault::Address(ParseError::MissingPort) => "the endpoint has no port",
                DecodeFault::Address(ParseError::ParsingHost) => "the endpoint has no host",
                DecodeFault::Address(ParseError::ParsingPort) => {
                    "the port of the endpoint is no port"
                },
            },
        );
        out
    }

    /// A fault of the value at hand.
    pub fn here(fault: DecodeFault) -> (e: DecodeError)
        ensures
            e@ == DecodeErrorView::here(fault),
    {
        let e = DecodeError { path: Vec::new(), fault };
        assert(e@.path =~= Seq::empty());
        e
    }

    /// The same failure, seen from the value that holds the faulty one
    /// under `key`.
    pub fn under(self, key: &str) -> (e: DecodeError)
        ensures
            e@ == self@.under(key@),
    {
        let mut path = self.path;
        path.insert(0, String::from_str(key));
        let e = DecodeError { path, fault: self.fault };
        assert(e@.path =~= (seq![key@] + self@.path));
        e
    }
}

/// The value under a key among the members of an object: that of the first
/// member with the key.
pub open spec fn lookup(members: Seq<(String, Json)>, key: Seq<char>) -> Option<Json>
    decreases members.len(),
{
    if members.len() == 0 {
        None
    } else if members[0].0@ == key {
        Some(members[0].1)
    } else {
        lookup(members.drop_first(), key)
    }
}

impl Json {
    /// The value under a key, where this is an object that has the key.
    pub open spec fn member(self, key: Seq<char>) -> Option<Json> {
        match self {
            Json::Object(members) => lookup(members@, key),
            _ => None,
        }
    }

    /// A field that may be absent: a missing key and `null` both stand for
    /// absence.
    pub open spec fn optional(self, key: Seq<char>) -> Option<Json> {
        match self.member(key) {
            Some(Json::Null) => None,
            other => other,
        }
    }

    /// An optional integer field.
    pub open spec fn optional_i64(self, key: Seq<char>) -> Result<Option<i64>, DecodeErrorView> {
        match self.optional(key) {
            None => Ok(None),
            Some(Json::Number(Some(n))) => Ok(Some(n)),
            Some(_) => Err(DecodeErrorView::here(DecodeFault::WrongType).under(key)),
        }
    }

    /// An optional flag.
    pub open spec fn optional_bool(self, key: Seq<char>) -> Result<Option<bool>, DecodeErrorView> {
        match self.optional(key) {
            None => Ok(None),
            Some(Json::Bool(b)) => Ok(Some(b)),
            Some(_) => Err(DecodeErrorView::here(DecodeFault::WrongType).under(key)),
        }
    }

    /// An optional text.
    pub open spec fn optional_text(self, key: Seq<char>) -> Result<Option<String>, DecodeErrorView> {
        match self.optional(key) {
            None => Ok(None),
            Some(Json::Text(s)) => Ok(Some(s)),
            Some(_) => Err(DecodeErrorView::here(DecodeFault::WrongType).under(key)),
        }
    }

    /// An optional endpoint: a text that spells an endpoint.
    pub open spec fn optional_address(self, key: Seq<char>) -> Result<
        Option<AddressView>,
        DecodeErrorView,
    > {
        match self.optional(key) {
            None => Ok(None),
            Some(Json::Text(s)) => match endpoint_parsed(s@) {
                Ok(a) => Ok(Some(a)),
                Err(e) => Err(DecodeErrorView::here(DecodeFault::Address(e)).under(key)),
            },
            Some(_) => Err(DecodeErrorView::here(DecodeFault::WrongType).under(key)),
        }
    }

    /// Reads a JSON text. `None` where the text is not JSON.
    pub fn parse(bytes: &[u8]) -> (r: Option<Json>)
        ensures
            r == document_of(bytes@),
    {
        match value_of_bytes(bytes) {
            Some(value) => Some(json_of_value(value)),
            None => None,
        }
    }

    /// Whether the value is an object.
    pub fn is_object(&self) -> (b: bool)
        ensures
            b == (self is Object),
    {
        match self {
            Json::Object(_) => true,
            _ => false,
        }
    }

    /// The value under a key.
    pub fn get(&self, key: &str) -> (r: Option<&Json>)
        ensures
            r matches Some(j) ==> self.member(key@) == Some(*j),
            r is None ==> self.member(key@) is None,
    {
        match self {
            Json::Object(members) => {
                let mut i: usize = 0;
                assert(members@.skip(0) == members@);
                while i < members.len()
                    invariant
                        i <= members.len(),
                        self.member(key@) == lookup(members@.skip(i as int), key@),
                    decreases members.len() - i,
                {
                    assert(members@.skip(i as int)[0] == members@[i as int]);
                    if text_eq(members[i].0.as_str(), key) {
                        return Some(&members[i].1);
                    }
                    assert(members@.skip(i as int).drop_first() == members@.skip(i + 1));
                    i = i + 1;
                }
                None
            },
            _ => None,
        }
    }

    /// The value of a field that may be absent.
    pub fn get_optional(&self, key: &str) -> (r: Option<&Json>)
        ensures
            r matches Some(j) ==> self.optional(key@) == Some(*j),
            r is None ==> self.optional(key@) is None,
    {
        match self.get(key) {
            Some(Json::Null) => None,
            other => other,
        }
    }

    /// Reads an optional integer field.
    pub fn get_optional_i64(&self, key: &str) -> (r: Result<Option<i64>, DecodeError>)
        ensures
            r matches Ok(v) ==> self.optional_i64(key@) == Ok::<_, DecodeErrorView>(v),
            r matches Err(e) ==> self.optional_i64(key@) == Err::<Option<i64>, _>(e@),
    {
        match self.get_optional(key) {
            None => Ok(None),
            Some(Json::Number(Some(n))) => Ok(Some(*n)),
            Some(_) => Err(DecodeError::here(DecodeFault::WrongType).under(key)),
        }
    }

    /// Reads an optional flag.
    pub fn get_optional_bool(&self, key: &str) -> (r: Result<Option<bool>, DecodeError>)
        ensures
            r matches Ok(v) ==> self.optional_bool(key@) == Ok::<_, DecodeErrorView>(v),
            r matches Err(e) ==> self.optional_bool(key@) == Err::<Option<bool>, _>(e@),
    {
        match self.get_optional(key) {
            None => Ok(None),
            Some(Json::Bool(b)) => Ok(Some(*b)),
            Some(_) => Err(DecodeError::here(DecodeFault::WrongType).under(key)),
        }
    }

    /// Reads an optional text.
    pub fn get_optional_text(&self, key: &str) -> (r: Result<Option<String>, DecodeError>)
        ensures
            r matches Ok(v) ==> self.optional_text(key@) == Ok::<_, DecodeErrorView>(v),
            r matches Err(e) ==> self.optional_text(key@) == Err::<Option<String>, _>(e@),
    {
        match self.get_optional(key) {
            None => Ok(None),
            Some(Json::Text(s)) => Ok(Some(s.clone())),
            Some(_) => Err(DecodeError::here(DecodeFault::WrongType).under(key)),
        }
    }

    /// Reads an optional endpoint.
    pub fn get_optional_address(&self, key: &str) -> (r: Result<Option<Address>, DecodeError>)
        ensures
            r matches Ok(None) ==> self.optional_address(key@) == Ok::<_, DecodeErrorView>(
                None::<AddressView>,
            ),
            r matches Ok(Some(a)) ==> self.optional_address(key@) == Ok::<_, DecodeErrorView>(
                Some(a@),
            ),
            r matches Err(e) ==> self.optional_address(key@) == Err::<Option<AddressView>, _>(e@),
    {
        match self.get_optional(key) {
            None => Ok(None),
            Some(Json::Text(s)) => match Address::from_str(s.as_str()) {
                Ok(a) => Ok(Some(a)),
                Err(e) => Err(DecodeError::here(DecodeFault::Address(e)).under(key)),
            },
            Some(_) => Err(DecodeError::here(DecodeFault::WrongType).under(key)),
        }
    }
}

} // verus!
