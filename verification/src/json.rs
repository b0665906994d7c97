use vstd::prelude::*;

verus! {

broadcast use vstd::std_specs::vec::group_vec_axioms;

/// A JSON number: a non-negative integer, a negative integer, or a finite
/// float, which is held here by its IEEE 754 bit pattern.
#[derive(Clone, Copy, Debug, PartialEq, Eq, Structural, Hash)]
pub enum Number {
    PosInt { pos: u64 },
    NegInt { neg: i64 },
    Float { bits: u64 },
}

/// A JSON value.  Objects keep their entries in order; a well formed value
/// (`json_wf`) has one entry per key in each object, as every parsed value has.
#[derive(Debug)]
pub enum JSON {
    /// JSON `null`
    Null,
    /// JSON `true` or `false`
    Bool {
        /// The boolean
        bool: bool,
    },
    /// JSON integer or float
    Number {
        /// The integer or float
        number: Number,
    },
    /// JSON string
    Str {
        /// The string
        string: String,
    },
    /// JSON array of JSON
    Array {
        /// The array
        array: Vec<JSON>,
    },
    /// JSON object
    Object {
        /// The entries of the object
        object: Vec<(String, JSON)>,
    },
}

/// The abstract value of a JSON value.
pub enum JSONView {
    Null,
    Bool(bool),
    Number(Number),
    Str(Seq<char>),
    Array(Seq<JSONView>),
    Object(Seq<(Seq<char>, JSONView)>),
}

/// No two entries of an object have the same key.
pub open spec fn entry_keys_distinct(entries: Seq<(Seq<char>, JSONView)>) -> bool {
    forall|i: int, j: int| 0 <= i < entries.len() && 0 <= j < entries.len() && i != j ==> entries[i].0 != entries[j].0
}

/// Every object within a JSON value has one entry per key.
pub open spec fn json_wf(json: JSONView) -> bool
    decreases json,
{
    match json {
        JSONView::Array(items) => forall|i: int| 0 <= i < items.len() ==> json_wf(#[trigger] items[i]),
        JSONView::Object(entries) => entry_keys_distinct(entries) && forall|i: int|
            0 <= i < entries.len() ==> json_wf(#[trigger] entries[i].1),
        _ => true,
    }
}

impl JSON {
    /// The abstract value of this JSON value.
    pub open spec fn view_json(&self) -> JSONView
        decreases self, 0nat,
    {
        match self {
            JSON::Null => JSONView::Null,
            JSON::Bool { bool } => JSONView::Bool(*bool),
            JSON::Number { number } => JSONView::Number(*number),
            JSON::Str { string } => JSONView::Str(string@),
            JSON::Array { array } => JSONView::Array(view_elements(array, array.len() as nat)),
            JSON::Object { object } => JSONView::Object(view_entries(object, object.len() as nat)),
        }
    }
}

/// The abstract values of the first `n` elements of `array`.
pub open spec fn view_elements(array: &Vec<JSON>, n: nat) -> Seq<JSONView>
    decreases array, n,
{
    if n == 0 || n > array.len() {
        Seq::empty()
    } else {
        view_elements(array, (n - 1) as nat).push(array[n - 1].view_json())
    }
}

/// The abstract values of the first `n` entries of `object`.
pub open spec fn view_entries(object: &Vec<(String, JSON)>, n: nat) -> Seq<(Seq<char>, JSONView)>
    decreases object, n,
{
    if n == 0 || n > object.len() {
        Seq::empty()
    } else {
        view_entries(object, (n - 1) as nat).push((object[n - 1].0@, object[n - 1].1.view_json()))
    }
}

impl View for JSON {
    type V = JSONView;

    open spec fn view(&self) -> JSONView {
        self.view_json()
    }
}

proof fn lemma_view_elements(array: &Vec<JSON>, n: nat)
    requires
        n <= array.len(),
    ensures
        view_elements(array, n).len() == n,
        forall|i: int| 0 <= i < n ==> #[trigger] view_elements(array, n)[i] == array[i].view_json(),
    decreases n,
{
    if n > 0 {
        lemma_view_elements(array, (n - 1) as nat);
    }
}

proof fn lemma_view_entries(object: &Vec<(String, JSON)>, n: nat)
    requires
        n <= object.len(),
    ensures
        view_entries(object, n).len() == n,
        forall|i: int|
            0 <= i < n ==> #[trigger] view_entries(object, n)[i] == (object[i].0@, object[i].1.view_json()),
    decreases n,
{
    if n > 0 {
        lemma_view_entries(object, (n - 1) as nat);
    }
}

/// The abstract values of the elements of an array are the elements' values.
pub proof fn lemma_array_view(array: &Vec<JSON>)
    ensures
        view_elements(array, array.len() as nat).len() == array.len(),
        forall|i: int|
            0 <= i < array.len() ==> #[trigger] view_elements(array, array.len() as nat)[i]
                == array[i].view_json(),
{
    lemma_view_elements(array, array.len() as nat);
}

/// The abstract values of the entries of an object are the entries' values.
pub proof fn lemma_object_view(object: &Vec<(String, JSON)>)
    ensures
        view_entries(object, object.len() as nat).len() == object.len(),
        forall|i: int|
            0 <= i < object.len() ==> #[trigger] view_entries(object, object.len() as nat)[i] == (
            object[i].0@,
            object[i].1.view_json(),
        ),
{
    lemma_view_entries(object, object.len() as nat);
}

impl JSON {
    /// A copy of this value.
    pub fn copy(&self) -> (r: JSON)
        ensures
            r@ == self@,
        decreases self,
    {
        match self {
            JSON::Null => JSON::Null,
            JSON::Bool { bool } => JSON::Bool { bool: *bool },
            JSON::Number { number } => JSON::Number { number: *number },
            JSON::Str { string } => JSON::Str { string: string.clone() },
            JSON::Array { array } => {
                let mut copied: Vec<JSON> = Vec::new();
                let mut i: usize = 0;
                while i < array.len()
                    invariant
                        *self == (JSON::Array { array: *array }),
                        0 <= i <= array.len(),
                        copied.len() == i,
                        forall|j: int| 0 <= j < i ==> (#[trigger] copied[j])@ == array[j]@,
                    decreases array.len() - i,
                {
                    proof {
                        assert(decreases_to!(*self => self->array));
                        assert(decreases_to!(*array => array[i as int]));
                    }
                    let element = array[i].copy();
                    copied.push(element);
                    i = i + 1;
                }
                proof {
                    lemma_array_view(array);
                    lemma_array_view(&copied);
                    assert(view_elements(&copied, copied.len() as nat) =~= view_elements(
                        array,
                        array.len() as nat,
                    ));
                }
                JSON::Array { array: copied }
            },
            JSON::Object { object } => {
                let mut copied: Vec<(String, JSON)> = Vec::new();
                let mut i: usize = 0;
                while i < object.len()
                    invariant
                        *self == (JSON::Object { object: *object }),
                        0 <= i <= object.len(),
                        copied.len() == i,
                        forall|j: int|
                            0 <= j < i ==> (#[trigger] copied[j]).0@ == object[j].0@ && copied[j].1@
                                == object[j].1@,
                    decreases object.len() - i,
                {
                    proof {
                        assert(decreases_to!(*self => self->object));
                        assert(decreases_to!(*object => object[i as int]));
                        assert(decreases_to!(object[i as int] => object[i as int].1));
                    }
                    let key = object[i].0.clone();
                    let value = object[i].1.copy();
                    copied.push((key, value));
                    i = i + 1;
                }
                proof {
                    lemma_object_view(object);
                    lemma_object_view(&copied);
                    assert(view_entries(&copied, copied.len() as nat) =~= view_entries(
                        object,
                        object.len() as nat,
                    ));
                }
                JSON::Object { object: copied }
            },
        }
    }
}

/// A copy of the entries of an object.
pub fn copy_object(object: &Vec<(String, JSON)>) -> (r: Vec<(String, JSON)>)
    ensures
        view_entries(&r, r.len() as nat) == view_entries(object, object.len() as nat),
{
    let mut copied: Vec<(String, JSON)> = Vec::new();
    let mut i: usize = 0;
    while i < object.len()
        invariant
            0 <= i <= object.len(),
            copied.len() == i,
            forall|j: int|
                0 <= j < i ==> (#[trigger] copied[j]).0@ == object[j].0@ && copied[j].1@ == object[j].1@,
        decreases object.len() - i,
    {
        let key = object[i].0.clone();
        let value = object[i].1.copy();
        copied.push((key, value));
        i = i + 1;
    }
    proof {
        lemma_object_view(object);
        lemma_object_view(&copied);
        assert(view_entries(&copied, copied.len() as nat) =~= view_entries(object, object.len() as nat));
    }
    copied
}

/// The kind of an I/O error, as `std::io::ErrorKind` classifies it.
#[derive(Clone, Copy, Debug, PartialEq, Eq, Structural, Hash)]
pub enum IoError {
    NotFound,
    PermissionDenied,
    ConnectionRefused,
    ConnectionReset,
    HostUnreachable,
    NetworkUnreachable,
    ConnectionAborted,
    NotConnected,
    AddrInUse,
    AddrNotAvailable,
    NetworkDown,
    BrokenPipe,
    AlreadyExists,
    WouldBlock,
    NotADirectory,
    IsADirectory,
    DirectoryNotEmpty,
    ReadOnlyFilesystem,
    FilesystemLoop,
    StaleNetworkFileHandle,
    InvalidInput,
    InvalidData,
    TimedOut,
    WriteZero,
    StorageFull,
    NotSeekable,
    FilesystemQuotaExceeded,
    FileTooLarge,
    ResourceBusy,
    ExecutableFileBusy,
    Deadlock,
    CrossesDevices,
    TooManyLinks,
    InvalidFilename,
    ArgumentListTooLong,
    Interrupted,
    Unsupported,
    UnexpectedEof,
    OutOfMemory,
    Other,
    Uncategorized,
}

/// Error from deserializing JSON text.
#[derive(Clone, Copy, Debug, PartialEq, Eq, Structural)]
pub enum JSONDeserializationError {
    /// There was error reading from the underlying IO device after reading `column` of `line`.
    IO { line: u64, column: u64, io_error: IoError },
    /// There was a JSON syntax error at `line` on `column`.
    Syntax { line: u64, column: u64 },
    /// The data such as a string or number could not be converted from JSON at `line` on `column`.
    Data { line: u64, column: u64 },
    /// The EOF was reached at `line` on `column` while still parsing a JSON structure.
    EOF { line: u64, column: u64 },
}

} // verus!
