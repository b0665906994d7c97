use vstd::prelude::*;

use crate::json::{entry_keys_distinct, json_wf, IoError, JSONDeserializationError, JSONView, Number, JSON};
use crate::text::str_eq;

verus! {

/// A JSON value of `serde_json` (`serde_json::Value`).
#[verifier::external_type_specification]
#[verifier::external_body]
pub struct ExValue(serde_json::Value);

/// The JSON value that a `serde_json::Value` holds, its object entries in the
/// order in which `serde_json::Map::iter` walks them.
pub uninterp spec fn value_json(value: serde_json::Value) -> JSONView;

/// What `serde_json::from_str::<serde_json::Value>` makes of `text`: the JSON
/// value, or the facts of its error.
pub uninterp spec fn parsed_json(text: Seq<char>) -> Result<JSONView, JsonErrorFactsView>;

/// The category of a `serde_json` error (`serde_json::error::Category`).
#[derive(Clone, Copy, Debug, PartialEq, Eq, Structural)]
pub enum JsonErrorCategory {
    Io,
    Syntax,
    Data,
    Eof,
}

/// The facts of a `serde_json` error: its category, the line and column at
/// which it arose, and for an I/O error the `Debug` name of its
/// `std::io::ErrorKind`.
pub struct JsonErrorFacts {
    pub category: JsonErrorCategory,
    pub line: u64,
    pub column: u64,
    pub io_kind: Option<String>,
}

pub struct JsonErrorFactsView {
    pub category: JsonErrorCategory,
    pub line: u64,
    pub column: u64,
    pub io_kind: Option<Seq<char>>,
}

impl View for JsonErrorFacts {
    type V = JsonErrorFactsView;

    open spec fn view(&self) -> JsonErrorFactsView {
        JsonErrorFactsView {
            category: self.category,
            line: self.line,
            column: self.column,
            io_kind: match self.io_kind {
                Some(s) => Some(s@),
                None => None,
            },
        }
    }
}

/// Parses `text` with `serde_json::from_str::<serde_json::Value>`: the value,
/// or the facts of the error (`classify`, `line`, `column`, and the `Debug`
/// name of `io_error_kind`).
#[verifier::external_body]
fn parse_value(text: &str) -> (r: Result<serde_json::Value, JsonErrorFacts>)
    ensures
        parsed_json(text@) == match r {
            Ok(v) => Ok::<JSONView, JsonErrorFactsView>(value_json(v)),
            Err(f) => Err::<JSONView, JsonErrorFactsView>(f@),
        },
{
    match serde_json::from_str::<serde_json::Value>(text) {
        Ok(value) => Ok(value),
        Err(error) => Err(JsonErrorFacts {
            category: match error.classify() {
                serde_json::error::Category::Io => JsonErrorCategory::Io,
                serde_json::error::Category::Syntax => JsonErrorCategory::Syntax,
                serde_json::error::Category::Data => JsonErrorCategory::Data,
                serde_json::error::Category::Eof => JsonErrorCategory::Eof,
            },
            line: error.line() as u64,
            column: error.column() as u64,
            io_kind: error.io_error_kind().map(|kind| format!("{:?}", kind)),
        }),
    }
}

/// What a `serde_json::Value` is, with the scalar it holds, or the number of
/// items or entries of an array or object.
pub enum ValueKind {
    Null,
    Bool { bool: bool },
    Number { number: Number },
    Str { string: String },
    Array { len: usize },
    Object { len: usize },
}

/// Tells the variants of a `serde_json::Value` apart, converting a scalar
/// (a number by `as_u64`, `as_i64`, or else the bits of `as_f64`) and
/// counting an array's items or an object's entries.  An object's keys are
/// distinct, as `serde_json::Map` holds one entry per key.
#[verifier::external_body]
fn value_kind(value: &serde_json::Value) -> (kind: ValueKind)
    ensures
        match kind {
            ValueKind::Null => value_json(*value) == JSONView::Null,
            ValueKind::Bool { bool } => value_json(*value) == JSONView::Bool(bool),
            ValueKind::Number { number } => value_json(*value) == JSONView::Number(number),
            ValueKind::Str { string } => value_json(*value) == JSONView::Str(string@),
            ValueKind::Array { len } => value_json(*value) is Array && value_json(*value)->Array_0.len() == len,
            ValueKind::Object { len } => value_json(*value) is Object && value_json(*value)->Object_0.len() == len
                && entry_keys_distinct(value_json(*value)->Object_0),
        },
{
    match value {
        serde_json::Value::Null => ValueKind::Null,
        serde_json::Value::Bool(bool) => ValueKind::Bool { bool: *bool },
        serde_json::Value::Number(n) => ValueKind::Number { number: match (n.as_u64(), n.as_i64()) {
            (Some(pos), _) => Number::PosInt { pos },
            (None, Some(neg)) => Number::NegInt { neg },
            (None, None) => Number::Float { bits: n.as_f64().map(|x| x.to_bits()).unwrap_or(0) },
        } },
        serde_json::Value::String(string) => ValueKind::Str { string: string.clone() },
        serde_json::Value::Array(array) => ValueKind::Array { len: array.len() },
        serde_json::Value::Object(object) => ValueKind::Object { len: object.len() },
    }
}

/// The item at `index` of a `serde_json` array (`serde_json::Value::get`).
#[verifier::external_body]
fn array_item(value: &serde_json::Value, index: usize) -> (item: &serde_json::Value)
    requires
        value_json(*value) is Array,
        index < value_json(*value)->Array_0.len(),
    ensures
        value_json(*item) == value_json(*value)->Array_0[index as int],
{
    value.get(index).unwrap()
}

/// The entry at `index` of a `serde_json` object, in the order of
/// `serde_json::Map::iter`.
#[verifier::external_body]
fn object_entry(value: &serde_json::Value, index: usize) -> (entry: (&String, &serde_json::Value))
    requires
        value_json(*value) is Object,
        index < value_json(*value)->Object_0.len(),
    ensures
        entry.0@ == value_json(*value)->Object_0[index as int].0,
        value_json(*entry.1) == value_json(*value)->Object_0[index as int].1,
{
    value.as_object().unwrap().iter().nth(index).unwrap()
}

/// The library's JSON value of a `serde_json` value.
fn json_of_value(value: &serde_json::Value) -> (json: JSON)
    ensures
        json@ == value_json(*value),
        json_wf(json@),
    decreases value_json(*value),
{
    match value_kind(value) {
        ValueKind::Null => JSON::Null,
        ValueKind::Bool { bool } => JSON::Bool { bool },
        ValueKind::Number { number } => JSON::Number { number },
        ValueKind::Str { string } => JSON::Str { string },
        ValueKind::Array { len } => {
            let ghost items = value_json(*value)->Array_0;
            let mut array: Vec<JSON> = Vec::new();
            let mut i: usize = 0;
            while i < len
                invariant
                    0 <= i <= len,
                    value_json(*value) == JSONView::Array(items),
                    items.len() == len,
                    array@.len() == i,
                    forall|j: int| 0 <= j < i ==> (#[trigger] array@[j])@ == items[j],
                    forall|j: int| 0 <= j < i ==> json_wf(#[trigger] items[j]),
                decreases len - i,
            {
                let item = array_item(value, i);
                proof {
                    assert(decreases_to!(value_json(*value) => items));
                    assert(decreases_to!(items => items[i as int]));
                }
                let converted = json_of_value(item);
                array.push(converted);
                i = i + 1;
            }
            proof {
                crate::json::lemma_array_view(&array);
            }
            let json = JSON::Array { array };
            assert(json@ matches JSONView::Array(s) && s =~= items);
            json
        },
        ValueKind::Object { len } => {
            let ghost entries = value_json(*value)->Object_0;
            let mut object: Vec<(String, JSON)> = Vec::new();
            let mut i: usize = 0;
            while i < len
                invariant
                    0 <= i <= len,
                    value_json(*value) == JSONView::Object(entries),
                    entries.len() == len,
                    object@.len() == i,
                    entry_keys_distinct(entries),
                    forall|j: int| 0 <= j < i ==> (#[trigger] object@[j]).0@ == entries[j].0 && object@[j].1@ == entries[j].1,
                    forall|j: int| 0 <= j < i ==> json_wf(#[trigger] entries[j].1),
                decreases len - i,
            {
                let (key, item) = object_entry(value, i);
                proof {
                    assert(decreases_to!(value_json(*value) => entries));
                    assert(decreases_to!(entries => entries[i as int]));
                    assert(decreases_to!(entries[i as int] => entries[i as int].1));
                }
                let converted = json_of_value(item);
                object.push((key.clone(), converted));
                i = i + 1;
            }
            proof {
                crate::json::lemma_object_view(&object);
            }
            let json = JSON::Object { object };
            assert(json@ matches JSONView::Object(s) && s =~= entries);
            json
        },
    }
}

/// The library's I/O error for the `Debug` name of a `std::io::ErrorKind`;
/// a kind without its own variant is `Uncategorized`.
pub open spec fn io_error_named(name: Seq<char>) -> IoError {
    if name == "NotFound"@ {
        IoError::NotFound
    } else if name == "PermissionDenied"@ {
        IoError::PermissionDenied
    } else if name == "ConnectionRefused"@ {
        IoError::ConnectionRefused
    } else if name == "ConnectionReset"@ {
        IoError::ConnectionReset
    } else if name == "HostUnreachable"@ {
        IoError::HostUnreachable
    } else if name == "NetworkUnreachable"@ {
        IoError::NetworkUnreachable
    } else if name == "ConnectionAborted"@ {
        IoError::ConnectionAborted
    } else if name == "NotConnected"@ {
        IoError::NotConnected
    } else if name == "AddrInUse"@ {
        IoError::AddrInUse
    } else if name == "AddrNotAvailable"@ {
        IoError::AddrNotAvailable
    } else if name == "NetworkDown"@ {
        IoError::NetworkDown
    } else if name == "BrokenPipe"@ {
        IoError::BrokenPipe
    } else if name == "AlreadyExists"@ {
        IoError::AlreadyExists
    } else if name == "WouldBlock"@ {
        IoError::WouldBlock
    } else if name == "NotADirectory"@ {
        IoError::NotADirectory
    } else if name == "IsADirectory"@ {
        IoError::IsADirectory
    } else if name == "DirectoryNotEmpty"@ {
        IoError::DirectoryNotEmpty
    } else if name == "ReadOnlyFilesystem"@ {
        IoError::ReadOnlyFilesystem
    } else if name == "FilesystemLoop"@ {
        IoError::FilesystemLoop
    } else if name == "StaleNetworkFileHandle"@ {
        IoError::StaleNetworkFileHandle
    } else if name == "InvalidInput"@ {
        IoError::InvalidInput
    } else if name == "InvalidData"@ {
        IoError::InvalidData
    } else if name == "TimedOut"@ {
        IoError::TimedOut
    } else if name == "WriteZero"@ {
        IoError::WriteZero
    } else if name == "StorageFull"@ {
        IoError::StorageFull
    } else if name == "NotSeekable"@ {
        IoError::NotSeekable
    } else if name == "FilesystemQuotaExceeded"@ {
        IoError::FilesystemQuotaExceeded
    } else if name == "FileTooLarge"@ {
        IoError::FileTooLarge
    } else if name == "ResourceBusy"@ {
        IoError::ResourceBusy
    } else if name == "ExecutableFileBusy"@ {
        IoError::ExecutableFileBusy
    } else if name == "Deadlock"@ {
        IoError::Deadlock
    } else if name == "CrossesDevices"@ {
        IoError::CrossesDevices
    } else if name == "TooManyLinks"@ {
        IoError::TooManyLinks
    } else if name == "InvalidFilename"@ {
        IoError::InvalidFilename
    } else if name == "ArgumentListTooLong"@ {
        IoError::ArgumentListTooLong
    } else if name == "Interrupted"@ {
        IoError::Interrupted
    } else if name == "Unsupported"@ {
        IoError::Unsupported
    } else if name == "UnexpectedEof"@ {
        IoError::UnexpectedEof
    } else if name == "OutOfMemory"@ {
        IoError::OutOfMemory
    } else if name == "Other"@ {
        IoError::Other
    } else {
        IoError::Uncategorized
    }
}

/// The library's I/O error for the `Debug` name of a `std::io::ErrorKind`.
fn io_error_of_name(name: &str) -> (e: IoError)
    ensures
        e == io_error_named(name@),
{
    if str_eq(name, "NotFound") {
        IoError::NotFound
    } else if str_eq(name, "PermissionDenied") {
        IoError::PermissionDenied
    } else if str_eq(name, "ConnectionRefused") {
        IoError::ConnectionRefused
    } else if str_eq(name, "ConnectionReset") {
        IoError::ConnectionReset
    } else if str_eq(name, "HostUnreachable") {
        IoError::HostUnreachable
    } else if str_eq(name, "NetworkUnreachable") {
        IoError::NetworkUnreachable
    } else if str_eq(name, "ConnectionAborted") {
        IoError::ConnectionAborted
    } else if str_eq(name, "NotConnected") {
        IoError::NotConnected
    } else if str_eq(name, "AddrInUse") {
        IoError::AddrInUse
    } else if str_eq(name, "AddrNotAvailable") {
        IoError::AddrNotAvailable
    } else if str_eq(name, "NetworkDown") {
        IoError::NetworkDown
    } else if str_eq(name, "BrokenPipe") {
        IoError::BrokenPipe
    } else if str_eq(name, "AlreadyExists") {
        IoError::AlreadyExists
    } else if str_eq(name, "WouldBlock") {
        IoError::WouldBlock
    } else if str_eq(name, "NotADirectory") {
        IoError::NotADirectory
    } else if str_eq(name, "IsADirectory") {
        IoError::IsADirectory
    } else if str_eq(name, "DirectoryNotEmpty") {
        IoError::DirectoryNotEmpty
    } else if str_eq(name, "ReadOnlyFilesystem") {
        IoError::ReadOnlyFilesystem
    } else if str_eq(name, "FilesystemLoop") {
        IoError::FilesystemLoop
    } else if str_eq(name, "StaleNetworkFileHandle") {
        IoError::StaleNetworkFileHandle
    } else if str_eq(name, "InvalidInput") {
        IoError::InvalidInput
    } else if str_eq(name, "InvalidData") {
        IoError::InvalidData
    } else if str_eq(name, "TimedOut") {
        IoError::TimedOut
    } else if str_eq(name, "WriteZero") {
        IoError::WriteZero
    } else if str_eq(name, "StorageFull") {
        IoError::StorageFull
    } else if str_eq(name, "NotSeekable") {
        IoError::NotSeekable
    } else if str_eq(name, "FilesystemQuotaExceeded") {
        IoError::FilesystemQuotaExceeded
    } else if str_eq(name, "FileTooLarge") {
        IoError::FileTooLarge
    } else if str_eq(name, "ResourceBusy") {
        IoError::ResourceBusy
    } else if str_eq(name, "ExecutableFileBusy") {
        IoError::ExecutableFileBusy
    } else if str_eq(name, "Deadlock") {
        IoError::Deadlock
    } else if str_eq(name, "CrossesDevices") {
        IoError::CrossesDevices
    } else if str_eq(name, "TooManyLinks") {
        IoError::TooManyLinks
    } else if str_eq(name, "InvalidFilename") {
        IoError::InvalidFilename
    } else if str_eq(name, "ArgumentListTooLong") {
        IoError::ArgumentListTooLong
    } else if str_eq(name, "Interrupted") {
        IoError::Interrupted
    } else if str_eq(name, "Unsupported") {
        IoError::Unsupported
    } else if str_eq(name, "UnexpectedEof") {
        IoError::UnexpectedEof
    } else if str_eq(name, "OutOfMemory") {
        IoError::OutOfMemory
    } else if str_eq(name, "Other") {
        IoError::Other
    } else {
        IoError::Uncategorized
    }
}

/// The library's deserialization error for the facts of a `serde_json` error;
/// an I/O error without a kind is `Uncategorized`.
pub open spec fn deserialization_error(facts: JsonErrorFactsView) -> JSONDeserializationError {
    match facts.category {
        JsonErrorCategory::Io => JSONDeserializationError::IO {
            line: facts.line,
            column: facts.column,
            io_error: match facts.io_kind {
                Some(name) => io_error_named(name),
                None => IoError::Uncategorized,
            },
        },
        JsonErrorCategory::Syntax => JSONDeserializationError::Syntax { line: facts.line, column: facts.column },
        JsonErrorCategory::Data => JSONDeserializationError::Data { line: facts.line, column: facts.column },
        JsonErrorCategory::Eof => JSONDeserializationError::EOF { line: facts.line, column: facts.column },
    }
}

impl JSONDeserializationError {
    /// The deserialization error for the facts of a `serde_json` error.
    pub fn from_facts(facts: &JsonErrorFacts) -> (e: JSONDeserializationError)
        ensures
            e == deserialization_error(facts@),
    {
        let io_error = match &facts.io_kind {
            Some(name) => io_error_of_name(name.as_str()),
            None => IoError::Uncategorized,
        };
        match facts.category {
            JsonErrorCategory::Io => JSONDeserializationError::IO { line: facts.line, column: facts.column, io_error },
            JsonErrorCategory::Syntax => JSONDeserializationError::Syntax { line: facts.line, column: facts.column },
            JsonErrorCategory::Data => JSONDeserializationError::Data { line: facts.line, column: facts.column },
            JsonErrorCategory::Eof => JSONDeserializationError::EOF { line: facts.line, column: facts.column },
        }
    }
}

/// What parsing `text` as JSON gives: the JSON value, or the error.
pub open spec fn json_parse(text: Seq<char>) -> Result<JSONView, JSONDeserializationError> {
    match parsed_json(text) {
        Ok(v) => Ok(v),
        Err(f) => Err(deserialization_error(f)),
    }
}

/// Parses JSON text.
pub fn parse_json(text: &str) -> (r: Result<JSON, JSONDeserializationError>)
    ensures
        match r {
            Ok(j) => json_parse(text@) == Ok::<JSONView, JSONDeserializationError>(j@) && json_wf(j@),
            Err(e) => json_parse(text@) == Err::<JSONView, JSONDeserializationError>(e),
        },
{
    match parse_value(text) {
        Ok(value) => Ok(json_of_value(&value)),
        Err(facts) => Err(JSONDeserializationError::from_facts(&facts)),
    }
}

impl JSON {
    /// Deserializes JSON text into a JSON value.
    pub fn deserialize(serialized: String) -> (r: Result<JSON, JSONDeserializationError>)
        ensures
            match r {
                Ok(j) => json_parse(serialized@) == Ok::<JSONView, JSONDeserializationError>(j@) && json_wf(j@),
                Err(e) => json_parse(serialized@) == Err::<JSONView, JSONDeserializationError>(e),
            },
    {
        parse_json(serialized.as_str())
    }
}

} // verus!
