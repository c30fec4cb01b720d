//! A library for the documents of a discovery service: the list of the APIs it knows, and
//! the descriptor of each API.
//!
//! Documents are decoded from JSON text under a closed-field policy: a member outside the
//! known set of a document is an error, an absent optional member takes its default, and
//! opaque subtrees are kept as untyped JSON. Decoding is a pure function of the text; see
//! [`document::decode`], [`list::from_str`] and [`descriptor::from_str`].
//! Fetching many descriptors at once is planned by [`fetch_plan::FetchPlan`], which bounds the
//! number of requests in flight, and tallied by [`fetch_plan::Report`].
use vstd::prelude::*;

pub mod decode;
pub mod descriptor;
pub mod document;
pub mod fetch_plan;
pub mod json;
pub mod list;

use crate::decode::{key_is, DecodeError, Fault};

verus! {

/// The `kind` marker of a directory list.
#[derive(Clone, Copy, PartialEq, Eq, Structural, Hash, Debug)]
pub enum DiscoveryListKind {
    /// `discovery#directoryList`
    DirectoryList,
}

impl DiscoveryListKind {
    /// The value that the JSON name `s` stands for; names are matched exactly.
    pub open spec fn from_name(s: Seq<char>) -> Option<DiscoveryListKind> {
        if s == "discovery#directoryList"@ {
            Some(DiscoveryListKind::DirectoryList)
        } else {
            None
        }
    }

    /// Reads the JSON name `s`.
    pub fn parse(s: &String) -> (r: Option<DiscoveryListKind>)
        ensures
            r == DiscoveryListKind::from_name(s@),
    {
        if key_is(s, "discovery#directoryList") {
            Some(DiscoveryListKind::DirectoryList)
        } else {
            None
        }
    }
}

/// The `kind` marker of a directory item.
#[derive(Clone, Copy, PartialEq, Eq, Structural, Hash, Debug)]
pub enum DiscoveryItemKind {
    /// `discovery#directoryItem`
    DirectoryItem,
}

impl DiscoveryItemKind {
    /// The value that the JSON name `s` stands for; names are matched exactly.
    pub open spec fn from_name(s: Seq<char>) -> Option<DiscoveryItemKind> {
        if s == "discovery#directoryItem"@ {
            Some(DiscoveryItemKind::DirectoryItem)
        } else {
            None
        }
    }

    /// Reads the JSON name `s`.
    pub fn parse(s: &String) -> (r: Option<DiscoveryItemKind>)
        ensures
            r == DiscoveryItemKind::from_name(s@),
    {
        if key_is(s, "discovery#directoryItem") {
            Some(DiscoveryItemKind::DirectoryItem)
        } else {
            None
        }
    }
}

/// The `kind` marker of a service descriptor.
#[derive(Clone, Copy, PartialEq, Eq, Structural, Hash, Debug)]
pub enum RestDescriptionKind {
    /// `discovery#restDescription`
    RestDescription,
}

impl RestDescriptionKind {
    /// The value that the JSON name `s` stands for; names are matched exactly.
    pub open spec fn from_name(s: Seq<char>) -> Option<RestDescriptionKind> {
        if s == "discovery#restDescription"@ {
            Some(RestDescriptionKind::RestDescription)
        } else {
            None
        }
    }

    /// Reads the JSON name `s`.
    pub fn parse(s: &String) -> (r: Option<RestDescriptionKind>)
        ensures
            r == RestDescriptionKind::from_name(s@),
    {
        if key_is(s, "discovery#restDescription") {
            Some(RestDescriptionKind::RestDescription)
        } else {
            None
        }
    }
}

/// The version of the discovery document format.
#[derive(Clone, Copy, PartialEq, Eq, Structural, Hash, Debug)]
pub enum Version {
    /// `v1`
    V1,
}

impl Version {
    /// The value that the JSON name `s` stands for; names are matched exactly.
    pub open spec fn from_name(s: Seq<char>) -> Option<Version> {
        if s == "v1"@ {
            Some(Version::V1)
        } else {
            None
        }
    }

    /// Reads the JSON name `s`.
    pub fn parse(s: &String) -> (r: Option<Version>)
        ensures
            r == Version::from_name(s@),
    {
        if key_is(s, "v1") {
            Some(Version::V1)
        } else {
            None
        }
    }
}

/// The size of an icon.
#[derive(Clone, Copy, PartialEq, Eq, Structural, Hash, Debug)]
pub enum IconKey {
    /// `x16`
    X16,
    /// `x32`
    X32,
}

impl IconKey {
    /// The value that the JSON name `s` stands for; names are matched exactly.
    pub open spec fn from_name(s: Seq<char>) -> Option<IconKey> {
        if s == "x16"@ {
            Some(IconKey::X16)
        } else if s == "x32"@ {
            Some(IconKey::X32)
        } else {
            None
        }
    }

    /// Reads the JSON name `s`.
    pub fn parse(s: &String) -> (r: Option<IconKey>)
        ensures
            r == IconKey::from_name(s@),
    {
        if key_is(s, "x16") {
            Some(IconKey::X16)
        } else if key_is(s, "x32") {
            Some(IconKey::X32)
        } else {
            None
        }
    }
}

/// The protocol that a service speaks.
#[derive(Clone, Copy, PartialEq, Eq, Structural, Hash, Debug)]
pub enum RestProtocol {
    /// `rest`
    REST,
}

impl RestProtocol {
    /// The value that the JSON name `s` stands for; names are matched exactly.
    pub open spec fn from_name(s: Seq<char>) -> Option<RestProtocol> {
        if s == "rest"@ {
            Some(RestProtocol::REST)
        } else {
            None
        }
    }

    /// Reads the JSON name `s`.
    pub fn parse(s: &String) -> (r: Option<RestProtocol>)
        ensures
            r == RestProtocol::from_name(s@),
    {
        if key_is(s, "rest") {
            Some(RestProtocol::REST)
        } else {
            None
        }
    }
}

/// The JSON type of a parameter or schema.
#[derive(Clone, Copy, PartialEq, Eq, Structural, Hash, Debug)]
pub enum ParameterType {
    /// `any`
    Any,
    /// `array`
    Array,
    /// `boolean`
    Boolean,
    /// `integer`
    Integer,
    /// `number`
    Number,
    /// `object`
    Object,
    /// `string`
    String,
}

impl ParameterType {
    /// The value that the JSON name `s` stands for; names are matched exactly.
    pub open spec fn from_name(s: Seq<char>) -> Option<ParameterType> {
        if s == "any"@ {
            Some(ParameterType::Any)
        } else if s == "array"@ {
            Some(ParameterType::Array)
        } else if s == "boolean"@ {
            Some(ParameterType::Boolean)
        } else if s == "integer"@ {
            Some(ParameterType::Integer)
        } else if s == "number"@ {
            Some(ParameterType::Number)
        } else if s == "object"@ {
            Some(ParameterType::Object)
        } else if s == "string"@ {
            Some(ParameterType::String)
        } else {
            None
        }
    }

    /// Reads the JSON name `s`.
    pub fn parse(s: &String) -> (r: Option<ParameterType>)
        ensures
            r == ParameterType::from_name(s@),
    {
        if key_is(s, "any") {
            Some(ParameterType::Any)
        } else if key_is(s, "array") {
            Some(ParameterType::Array)
        } else if key_is(s, "boolean") {
            Some(ParameterType::Boolean)
        } else if key_is(s, "integer") {
            Some(ParameterType::Integer)
        } else if key_is(s, "number") {
            Some(ParameterType::Number)
        } else if key_is(s, "object") {
            Some(ParameterType::Object)
        } else if key_is(s, "string") {
            Some(ParameterType::String)
        } else {
            None
        }
    }
}

/// The format that refines a parameter's type.
#[derive(Clone, Copy, PartialEq, Eq, Structural, Hash, Debug)]
pub enum ParameterFormat {
    /// `int32`
    Int32,
    /// `uint32`
    Uint32,
    /// `double`
    Double,
    /// `float`
    Float,
    /// `byte`
    Byte,
    /// `date`
    Date,
    /// `date-time`
    DateTime,
    /// `google-datetime`
    GoogleDatetime,
    /// `google-duration`
    GoogleDuration,
    /// `google-fieldmask`
    GoogleFieldmask,
    /// `int64`
    Int64,
    /// `uint64`
    Uint64,
}

impl ParameterFormat {
    /// The value that the JSON name `s` stands for; names are matched exactly.
    pub open spec fn from_name(s: Seq<char>) -> Option<ParameterFormat> {
        if s == "int32"@ {
            Some(ParameterFormat::Int32)
        } else if s == "uint32"@ {
            Some(ParameterFormat::Uint32)
        } else if s == "double"@ {
            Some(ParameterFormat::Double)
        } else if s == "float"@ {
            Some(ParameterFormat::Float)
        } else if s == "byte"@ {
            Some(ParameterFormat::Byte)
        } else if s == "date"@ {
            Some(ParameterFormat::Date)
        } else if s == "date-time"@ {
            Some(ParameterFormat::DateTime)
        } else if s == "google-datetime"@ {
            Some(ParameterFormat::GoogleDatetime)
        } else if s == "google-duration"@ {
            Some(ParameterFormat::GoogleDuration)
        } else if s == "google-fieldmask"@ {
            Some(ParameterFormat::GoogleFieldmask)
        } else if s == "int64"@ {
            Some(ParameterFormat::Int64)
        } else if s == "uint64"@ {
            Some(ParameterFormat::Uint64)
        } else {
            None
        }
    }

    /// Reads the JSON name `s`.
    pub fn parse(s: &String) -> (r: Option<ParameterFormat>)
        ensures
            r == ParameterFormat::from_name(s@),
    {
        if key_is(s, "int32") {
            Some(ParameterFormat::Int32)
        } else if key_is(s, "uint32") {
            Some(ParameterFormat::Uint32)
        } else if key_is(s, "double") {
            Some(ParameterFormat::Double)
        } else if key_is(s, "float") {
            Some(ParameterFormat::Float)
        } else if key_is(s, "byte") {
            Some(ParameterFormat::Byte)
        } else if key_is(s, "date") {
            Some(ParameterFormat::Date)
        } else if key_is(s, "date-time") {
            Some(ParameterFormat::DateTime)
        } else if key_is(s, "google-datetime") {
            Some(ParameterFormat::GoogleDatetime)
        } else if key_is(s, "google-duration") {
            Some(ParameterFormat::GoogleDuration)
        } else if key_is(s, "google-fieldmask") {
            Some(ParameterFormat::GoogleFieldmask)
        } else if key_is(s, "int64") {
            Some(ParameterFormat::Int64)
        } else if key_is(s, "uint64") {
            Some(ParameterFormat::Uint64)
        } else {
            None
        }
    }
}

/// A reference by name to a schema of the descriptor.
#[derive(Debug, PartialEq)]
pub struct Ref {
    pub ref_: Option<String>,
}

/// Errors that may occur while interacting with the discovery service.
#[derive(Debug, PartialEq)]
pub enum Error {
    /// The request could not be sent.
    HttpSendError(String),
    /// The response could not be received.
    HttpReceiveError(String),
    /// The body is not the document that was asked for; `json` is the body as received.
    JsonError { message: String, json: String, source: DecodeError },
}

/// The model of an [`Error`].
pub enum ErrorView {
    HttpSendError(Seq<char>),
    HttpReceiveError(Seq<char>),
    JsonError { message: Seq<char>, json: Seq<char>, source: Fault },
}

impl View for Error {
    type V = ErrorView;

    open spec fn view(&self) -> ErrorView {
        match self {
            Error::HttpSendError(m) => ErrorView::HttpSendError(m@),
            Error::HttpReceiveError(m) => ErrorView::HttpReceiveError(m@),
            Error::JsonError { message, json, source } => ErrorView::JsonError {
                message: message@,
                json: json@,
                source: source@,
            },
        }
    }
}

} // verus!
