//! JSON documents as trees of plain values. Texts are read and written by
//! `serde_json`; what is proved here is proved of the trees, and of the texts
//! only that they are what `serde_json` makes of the trees.

use crate::vecs::reversed;
use vstd::prelude::*;

verus! {

/// `serde_json::Value`, the document as `serde_json` holds it. Nothing is
/// known of one but through [`value_tree`].
#[verifier::external_type_specification]
#[verifier::external_body]
pub struct ExValue(serde_json::Value);

/// `serde_json::Number`, a number of a document. It is carried along and
/// never looked into.
#[verifier::external_type_specification]
#[verifier::external_body]
pub struct ExNumber(serde_json::Number);

/// `serde_json::Error`, of which only the message is taken.
#[verifier::external_type_specification]
#[verifier::external_body]
pub struct ExError(serde_json::Error);

/// A JSON document.
#[derive(Debug, PartialEq, Eq)]
pub enum Json {
    Null,
    Bool(bool),
    Number(serde_json::Number),
    Text(String),
    /// An array: the items in their order.
    List(Vec<Json>),
    /// An object: the fields in their order, each a key and its value.
    Record(Vec<(String, Json)>),
}

/// What a [`Json`] document holds, as a mathematical tree.
pub enum JsonTree {
    Null,
    Bool(bool),
    Number(serde_json::Number),
    Text(Seq<char>),
    List(Seq<JsonTree>),
    Record(Seq<(Seq<char>, JsonTree)>),
}

impl View for Json {
    type V = JsonTree;

    // Every index that the two sequences are read at lies in range; the
    // tests on `i` are there for the proof of termination.
    open spec fn view(&self) -> JsonTree
        decreases self,
    {
        match self {
            Json::Null => JsonTree::Null,
            Json::Bool(b) => JsonTree::Bool(*b),
            Json::Number(n) => JsonTree::Number(*n),
            Json::Text(s) => JsonTree::Text(s@),
            Json::List(items) => JsonTree::List(
                Seq::new(
                    items@.len(),
                    |i: int|
                        if 0 <= i < items@.len() {
                            items@[i].view()
                        } else {
                            JsonTree::Null
                        },
                ),
            ),
            Json::Record(fields) => JsonTree::Record(
                Seq::new(
                    fields@.len(),
                    |i: int|
                        (
                            fields@[i].0@,
                            if 0 <= i < fields@.len() {
                                fields@[i].1.view()
                            } else {
                                JsonTree::Null
                            },
                        ),
                ),
            ),
        }
    }
}

impl DeepView for Json {
    type V = JsonTree;

    open spec fn deep_view(&self) -> JsonTree {
        self@
    }
}

/// How deep lists and records may stand inside one another in a document
/// that is written out. It is the depth to which `serde_json` reads: a text
/// nested deeper is refused when it is read.
pub const MAX_NESTING: usize = 127;

impl JsonTree {
    /// Lists and records stand inside one another at most `depth` deep.
    pub open spec fn nested_within(self, depth: nat) -> bool
        decreases self,
    {
        match self {
            JsonTree::List(items) => depth > 0 && forall|i: int|
                0 <= i < items.len() ==> (#[trigger] items[i]).nested_within((depth - 1) as nat),
            JsonTree::Record(fields) => depth > 0 && forall|i: int|
                0 <= i < fields.len() ==> (#[trigger] fields[i]).1.nested_within(
                    (depth - 1) as nat,
                ),
            _ => true,
        }
    }

    /// No record of the tree, at any depth, names a key twice.
    pub open spec fn unambiguous(self) -> bool
        decreases self,
    {
        match self {
            JsonTree::List(items) => forall|i: int|
                0 <= i < items.len() ==> (#[trigger] items[i]).unambiguous(),
            JsonTree::Record(fields) => distinct_keys(fields) && forall|i: int|
                0 <= i < fields.len() ==> (#[trigger] fields[i]).1.unambiguous(),
            _ => true,
        }
    }
}

/// No two fields have the same key.
pub open spec fn distinct_keys(fields: Seq<(Seq<char>, JsonTree)>) -> bool {
    forall|i: int, j: int| 0 <= i < j < fields.len() ==> fields[i].0 != fields[j].0
}

/// What a `serde_json::Value` holds: the tree of its variants, an object as
/// the entries of its map in the order in which the map hands them out.
pub uninterp spec fn value_tree(value: serde_json::Value) -> JsonTree;

/// The document that `serde_json` reads from a text, where it accepts the text.
pub uninterp spec fn parsed(text: Seq<char>) -> Option<JsonTree>;

/// The text that `serde_json` writes for a document, where it writes one.
pub uninterp spec fn rendered(tree: JsonTree) -> Option<Seq<char>>;

/// One level of a `serde_json::Value`: its variant, with the values below it
/// left as they are.
pub(crate) enum Parts {
    Null,
    Bool(bool),
    Number(serde_json::Number),
    Text(String),
    List(Vec<serde_json::Value>),
    Record(Vec<(String, serde_json::Value)>),
}

impl Parts {
    /// The tree that the parts make, with each value below as what it holds.
    pub(crate) open spec fn tree(self) -> JsonTree {
        match self {
            Parts::Null => JsonTree::Null,
            Parts::Bool(b) => JsonTree::Bool(b),
            Parts::Number(n) => JsonTree::Number(n),
            Parts::Text(s) => JsonTree::Text(s@),
            Parts::List(items) => JsonTree::List(
                Seq::new(items@.len(), |i: int| value_tree(items@[i])),
            ),
            Parts::Record(fields) => JsonTree::Record(
                Seq::new(fields@.len(), |i: int| (fields@[i].0@, value_tree(fields@[i].1))),
            ),
        }
    }

    /// The parts are no record, or one whose keys all differ.
    pub(crate) open spec fn distinct_keys(self) -> bool {
        self matches Parts::Record(fields) ==> forall|i: int, j: int|
            0 <= i < j < fields@.len() ==> fields@[i].0@ != fields@[j].0@
    }
}

/// Calls `serde_json::from_str` for a `serde_json::Value`. The contract names
/// what comes back: the value read holds `parsed` of the text, and the text
/// is refused exactly where `parsed` is `None`.
#[verifier::external_body]
fn parse_value(text: &str) -> (outcome: Result<serde_json::Value, serde_json::Error>)
    ensures
        match outcome {
            Ok(value) => parsed(text@) == Some(value_tree(value)),
            Err(_) => parsed(text@) is None,
        },
{
    serde_json::from_str::<serde_json::Value>(text)
}

/// Takes a `serde_json::Value` apart by its variant, the map of an object
/// through `serde_json::Map::into_iter`. The contract says that the parts
/// hold what the value held, the entries of an object in the order in which
/// its map hands them out.
#[verifier::external_body]
fn unpack(value: serde_json::Value) -> (parts: Parts)
    ensures
        parts.tree() == value_tree(value),
{
    match value {
        serde_json::Value::Null => Parts::Null,
        serde_json::Value::Bool(b) => Parts::Bool(b),
        serde_json::Value::Number(n) => Parts::Number(n),
        serde_json::Value::String(s) => Parts::Text(s),
        serde_json::Value::Array(items) => Parts::List(items),
        serde_json::Value::Object(fields) => Parts::Record(fields.into_iter().collect()),
    }
}

/// Builds a `serde_json::Value` of the variant that the parts name, the map
/// of an object through `serde_json::Map::from_iter`. The keys of a record
/// must differ from one another: a map keeps one entry for each key. The
/// contract says that the value holds what the parts held, the entries of an
/// object in the order given: with the feature `preserve_order` of
/// `serde_json`, which this crate asks for, a map hands its entries out in the
/// order in which they went in.
#[verifier::external_body]
fn pack(parts: Parts) -> (value: serde_json::Value)
    requires
        parts.distinct_keys(),
    ensures
        value_tree(value) == parts.tree(),
{
    match parts {
        Parts::Null => serde_json::Value::Null,
        Parts::Bool(b) => serde_json::Value::Bool(b),
        Parts::Number(n) => serde_json::Value::Number(n),
        Parts::Text(s) => serde_json::Value::String(s),
        Parts::List(items) => serde_json::Value::Array(items),
        Parts::Record(fields) => serde_json::Value::Object(serde_json::Map::from_iter(fields)),
    }
}

/// Calls `serde_json::to_string`, which goes down a value by recursion: the
/// value must not be nested deeper than [`MAX_NESTING`]. The contract names
/// what comes back: the text is `rendered` of what the value holds, and the
/// value is refused exactly where `rendered` is `None`.
#[verifier::external_body]
fn render_value(value: &serde_json::Value) -> (outcome: Result<String, serde_json::Error>)
    requires
        value_tree(*value).nested_within(MAX_NESTING as nat),
    ensures
        match outcome {
            Ok(text) => rendered(value_tree(*value)) == Some(text@),
            Err(_) => rendered(value_tree(*value)) is None,
        },
{
    serde_json::to_string(value)
}

/// The message of a `serde_json::Error`, as its `Display` writes it. Nothing
/// is claimed of the text.
#[verifier::external_body]
fn error_text(error: &serde_json::Error) -> String {
    error.to_string()
}

/// The document that a value of `serde_json` holds, level by level.
fn from_value(value: serde_json::Value) -> (json: Json)
    ensures
        json@ == value_tree(value),
    decreases value_tree(value),
{
    let ghost whole = value_tree(value);
    match unpack(value) {
        Parts::Null => Json::Null,
        Parts::Bool(b) => Json::Bool(b),
        Parts::Number(n) => Json::Number(n),
        Parts::Text(s) => Json::Text(s),
        Parts::List(items) => {
            let ghost below = Seq::new(items@.len(), |i: int| value_tree(items@[i]));
            let mut rest = items;
            let mut backwards: Vec<Json> = Vec::new();
            while rest.len() > 0
                invariant
                    whole == value_tree(value),
                    whole == JsonTree::List(below),
                    rest@.len() + backwards@.len() == below.len(),
                    forall|k: int| 0 <= k < rest@.len() ==> value_tree(#[trigger] rest@[k]) == below[k],
                    forall|k: int|
                        0 <= k < backwards@.len() ==> (#[trigger] backwards@[k])@ == below[below.len()
                            - 1 - k],
                decreases rest@.len(),
            {
                let item = rest.pop().unwrap();
                proof {
                    assert(value_tree(item) == below[rest@.len() as int]);
                    assert(decreases_to!(whole => whole->List_0));
                    assert(decreases_to!(below => below[rest@.len() as int]));
                }
                let json = from_value(item);
                backwards.push(json);
            }
            let list = reversed(backwards);
            assert(Json::List(list)@->List_0 =~= below);
            Json::List(list)
        },
        Parts::Record(fields) => {
            let ghost below = Seq::new(
                fields@.len(),
                |i: int| (fields@[i].0@, value_tree(fields@[i].1)),
            );
            let mut rest = fields;
            let mut backwards: Vec<(String, Json)> = Vec::new();
            while rest.len() > 0
                invariant
                    whole == value_tree(value),
                    whole == JsonTree::Record(below),
                    rest@.len() + backwards@.len() == below.len(),
                    forall|k: int|
                        0 <= k < rest@.len() ==> ((#[trigger] rest@[k]).0@, value_tree(rest@[k].1))
                            == below[k],
                    forall|k: int|
                        0 <= k < backwards@.len() ==> ((#[trigger] backwards@[k]).0@, backwards@[k].1@)
                            == below[below.len() - 1 - k],
                decreases rest@.len(),
            {
                let (key, item) = rest.pop().unwrap();
                proof {
                    assert((key@, value_tree(item)) == below[rest@.len() as int]);
                    assert(decreases_to!(whole => whole->Record_0));
                    assert(decreases_to!(below => below[rest@.len() as int]));
                    assert(decreases_to!(below[rest@.len() as int] => below[rest@.len() as int].1));
                }
                let json = from_value(item);
                backwards.push((key, json));
            }
            let record = reversed(backwards);
            assert(Json::Record(record)@->Record_0 =~= below);
            Json::Record(record)
        },
    }
}

/// The value of `serde_json` that holds a document, level by level.
fn to_value(json: Json) -> (value: serde_json::Value)
    requires
        json@.unambiguous(),
    ensures
        value_tree(value) == json@,
    decreases json,
{
    let ghost whole = json;
    match json {
        Json::Null => pack(Parts::Null),
        Json::Bool(b) => pack(Parts::Bool(b)),
        Json::Number(n) => pack(Parts::Number(n)),
        Json::Text(s) => pack(Parts::Text(s)),
        Json::List(items) => {
            let ghost below = whole@->List_0;
            let mut rest = items;
            let mut backwards: Vec<serde_json::Value> = Vec::new();
            while rest.len() > 0
                invariant
                    whole == json,
                    whole is List,
                    below == whole@->List_0,
                    whole@.unambiguous(),
                    rest@.len() + backwards@.len() == below.len(),
                    rest@ == whole->List_0@.take(rest@.len() as int),
                    forall|k: int|
                        0 <= k < backwards@.len() ==> value_tree(#[trigger] backwards@[k])
                            == below[below.len() - 1 - k],
                decreases rest@.len(),
            {
                let item = rest.pop().unwrap();
                proof {
                    let at = rest@.len() as int;
                    assert(item == whole->List_0@[at]);
                    assert(item@ == below[at]);
                    assert(below[at].unambiguous());
                    assert(decreases_to!(whole => whole->List_0));
                    assert(decreases_to!(whole->List_0 => whole->List_0@));
                    assert(decreases_to!(whole->List_0@ => whole->List_0@[at]));
                }
                let value = to_value(item);
                backwards.push(value);
            }
            let list = reversed(backwards);
            assert(Parts::List(list).tree()->List_0 =~= below);
            pack(Parts::List(list))
        },
        Json::Record(fields) => {
            let ghost below = whole@->Record_0;
            let mut rest = fields;
            let mut backwards: Vec<(String, serde_json::Value)> = Vec::new();
            while rest.len() > 0
                invariant
                    whole == json,
                    whole is Record,
                    below == whole@->Record_0,
                    whole@.unambiguous(),
                    rest@.len() + backwards@.len() == below.len(),
                    rest@ == whole->Record_0@.take(rest@.len() as int),
                    forall|k: int|
                        0 <= k < backwards@.len() ==> ((#[trigger] backwards@[k]).0@, value_tree(
                            backwards@[k].1,
                        )) == below[below.len() - 1 - k],
                decreases rest@.len(),
            {
                let (key, item) = rest.pop().unwrap();
                proof {
                    let at = rest@.len() as int;
                    assert((key, item) == whole->Record_0@[at]);
                    assert((key@, item@) == below[at]);
                    assert(below[at].1.unambiguous());
                    assert(decreases_to!(whole => whole->Record_0));
                    assert(decreases_to!(whole->Record_0 => whole->Record_0@));
                    assert(decreases_to!(whole->Record_0@ => whole->Record_0@[at]));
                    assert(decreases_to!(whole->Record_0@[at] => whole->Record_0@[at].1));
                }
                let value = to_value(item);
                backwards.push((key, value));
            }
            let record = reversed(backwards);
            assert(Parts::Record(record).tree()->Record_0 =~= below);
            assert(Parts::Record(record).distinct_keys()) by {
                assert forall|i: int, j: int| 0 <= i < j < record@.len() implies record@[i].0@
                    != record@[j].0@ by {
                    assert(below[i].0 == record@[i].0@);
                    assert(below[j].0 == record@[j].0@);
                }
            }
            pack(Parts::Record(record))
        },
    }
}

/// The first field of `fields`, from index `from` on, whose key is `key`.
pub open spec fn lookup_from(fields: Seq<(Seq<char>, JsonTree)>, key: Seq<char>, from: int) -> Option<
    JsonTree,
>
    decreases fields.len() - from,
{
    if from < 0 || from >= fields.len() {
        None
    } else if fields[from].0 == key {
        Some(fields[from].1)
    } else {
        lookup_from(fields, key, from + 1)
    }
}

impl JsonTree {
    /// The value of the field `key` where the tree is a record that has one;
    /// the first such field where it has several.
    pub open spec fn get(self, key: Seq<char>) -> Option<JsonTree> {
        match self {
            JsonTree::Record(fields) => lookup_from(fields, key, 0),
            _ => None,
        }
    }
}

/// A lookup finds nothing exactly where no field from `from` on has the key;
/// what it finds is the value of the first field from there on that has it.
pub proof fn lemma_lookup_finds_first(
    fields: Seq<(Seq<char>, JsonTree)>,
    key: Seq<char>,
    from: int,
)
    requires
        0 <= from,
    ensures
        match lookup_from(fields, key, from) {
            None => forall|i: int| from <= i < fields.len() ==> (#[trigger] fields[i]).0 != key,
            Some(value) => exists|i: int|
                from <= i < fields.len() && #[trigger] fields[i] == (key, value) && forall|j: int|
                    from <= j < i ==> (#[trigger] fields[j]).0 != key,
        },
    decreases fields.len() - from,
{
    if from < fields.len() {
        if fields[from].0 == key {
            assert(fields[from] == (key, fields[from].1));
        } else {
            lemma_lookup_finds_first(fields, key, from + 1);
            match lookup_from(fields, key, from + 1) {
                None => {},
                Some(value) => {
                    let i = choose|i: int|
                        from + 1 <= i < fields.len() && #[trigger] fields[i] == (key, value)
                            && forall|j: int| from + 1 <= j < i ==> (#[trigger] fields[j]).0 != key;
                    assert(forall|j: int| from <= j < i ==> (#[trigger] fields[j]).0 != key);
                },
            }
        }
    }
}

/// A tree that is nested within a depth is nested within every greater one.
pub proof fn lemma_nesting_grows(tree: JsonTree, depth: nat, more: nat)
    requires
        tree.nested_within(depth),
        depth <= more,
    ensures
        tree.nested_within(more),
    decreases tree,
{
    match tree {
        JsonTree::List(items) => {
            assert forall|i: int| 0 <= i < items.len() implies (#[trigger] items[i]).nested_within(
                (more - 1) as nat,
            ) by {
                lemma_nesting_grows(items[i], (depth - 1) as nat, (more - 1) as nat);
            }
        },
        JsonTree::Record(fields) => {
            assert forall|i: int| 0 <= i < fields.len() implies (#[trigger] fields[i]).1.nested_within(
                (more - 1) as nat,
            ) by {
                lemma_nesting_grows(fields[i].1, (depth - 1) as nat, (more - 1) as nat);
            }
        },
        _ => {},
    }
}

/// Why a document was not written out as text.
#[derive(Debug, PartialEq, Eq)]
pub enum RenderError {
    /// The document is nested deeper than [`MAX_NESTING`].
    TooDeep,
    /// A record of the document names a key twice.
    DuplicateKey,
    /// `serde_json` refused the document. Holds its message.
    Refused { message: String },
}

impl Json {
    /// Reads a JSON text. The result is the document that `serde_json` reads
    /// from it; a text that `serde_json` refuses gives the error with its
    /// message.
    pub fn parse(text: &str) -> (document: Result<Json, String>)
        ensures
            match parsed(text@) {
                Some(tree) => document matches Ok(json) && json@ == tree,
                None => document is Err,
            },
    {
        match parse_value(text) {
            Ok(value) => Ok(from_value(value)),
            Err(error) => Err(error_text(&error)),
        }
    }

    /// Writes the document as JSON text, as `serde_json` writes it. A
    /// document that is nested deeper than [`MAX_NESTING`] is not written,
    /// nor one with a record that names a key twice.
    pub fn render(self) -> (text: Result<String, RenderError>)
        ensures
            text == Err::<String, RenderError>(RenderError::TooDeep) <==> !self@.nested_within(
                MAX_NESTING as nat,
            ),
            text == Err::<String, RenderError>(RenderError::DuplicateKey) <==> self@.nested_within(
                MAX_NESTING as nat,
            ) && !self@.unambiguous(),
            self@.nested_within(MAX_NESTING as nat) && self@.unambiguous() ==> match rendered(
                self@,
            ) {
                Some(written) => text matches Ok(t) && t@ == written,
                None => text matches Err(RenderError::Refused { .. }),
            },
    {
        if !self.is_nested_within(MAX_NESTING) {
            return Err(RenderError::TooDeep);
        }
        if !self.is_unambiguous() {
            return Err(RenderError::DuplicateKey);
        }
        let value = to_value(self);
        match render_value(&value) {
            Ok(written) => Ok(written),
            Err(error) => Err(RenderError::Refused { message: error_text(&error) }),
        }
    }

    /// Whether lists and records stand inside one another at most `depth`
    /// deep in the document.
    pub fn is_nested_within(&self, depth: usize) -> (yes: bool)
        ensures
            yes == self@.nested_within(depth as nat),
        decreases self,
    {
        match self {
            Json::List(items) => {
                if depth == 0 {
                    return false;
                }
                let mut i: usize = 0;
                while i < items.len()
                    invariant
                        self == Json::List(*items),
                        depth > 0,
                        i <= items@.len(),
                        forall|k: int|
                            0 <= k < i ==> (#[trigger] self@->List_0[k]).nested_within(
                                (depth - 1) as nat,
                            ),
                    decreases items@.len() - i,
                {
                    assert(self@->List_0[i as int] == items@[i as int]@);
                    if !items[i].is_nested_within(depth - 1) {
                        return false;
                    }
                    i += 1;
                }
                true
            },
            Json::Record(fields) => {
                if depth == 0 {
                    return false;
                }
                let mut i: usize = 0;
                while i < fields.len()
                    invariant
                        self == Json::Record(*fields),
                        depth > 0,
                        i <= fields@.len(),
                        forall|k: int|
                            0 <= k < i ==> (#[trigger] self@->Record_0[k]).1.nested_within(
                                (depth - 1) as nat,
                            ),
                    decreases fields@.len() - i,
                {
                    assert(self@->Record_0[i as int] == (fields@[i as int].0@, fields@[i as int].1@));
                    if !fields[i].1.is_nested_within(depth - 1) {
                        return false;
                    }
                    i += 1;
                }
                true
            },
            _ => true,
        }
    }

    /// Whether no record of the document, at any depth, names a key twice.
    pub fn is_unambiguous(&self) -> (yes: bool)
        ensures
            yes == self@.unambiguous(),
        decreases self,
    {
        match self {
            Json::List(items) => {
                let mut i: usize = 0;
                while i < items.len()
                    invariant
                        self == Json::List(*items),
                        i <= items@.len(),
                        forall|k: int| 0 <= k < i ==> (#[trigger] self@->List_0[k]).unambiguous(),
                    decreases items@.len() - i,
                {
                    assert(self@->List_0[i as int] == items@[i as int]@);
                    if !items[i].is_unambiguous() {
                        return false;
                    }
                    i += 1;
                }
                true
            },
            Json::Record(fields) => {
                let mut i: usize = 0;
                while i < fields.len()
                    invariant
                        self == Json::Record(*fields),
                        i <= fields@.len(),
                        forall|k: int|
                            0 <= k < i ==> (#[trigger] self@->Record_0[k]).1.unambiguous(),
                        forall|k: int, j: int|
                            0 <= k < j < i ==> self@->Record_0[k].0 != self@->Record_0[j].0,
                    decreases fields@.len() - i,
                {
                    assert(self@->Record_0[i as int] == (fields@[i as int].0@, fields@[i as int].1@));
                    if !fields[i].1.is_unambiguous() {
                        return false;
                    }
                    let mut j: usize = 0;
                    while j < i
                        invariant
                            self == Json::Record(*fields),
                            j <= i < fields@.len(),
                            forall|k: int|
                                0 <= k < j ==> self@->Record_0[k].0 != self@->Record_0[i as int].0,
                        decreases i - j,
                    {
                        assert(self@->Record_0[j as int].0 == fields@[j as int].0@);
                        assert(self@->Record_0[i as int].0 == fields@[i as int].0@);
                        if fields[j].0 == fields[i].0 {
                            return false;
                        }
                        j += 1;
                    }
                    i += 1;
                }
                true
            },
            _ => true,
        }
    }

    /// The value of the field `key` where the document is a record that has
    /// one; the first such field where it has several.
    pub fn get(&self, key: &str) -> (found: Option<&Json>)
        ensures
            match self@.get(key@) {
                Some(tree) => found matches Some(json) && json@ == tree,
                None => found is None,
            },
    {
        match self {
            Json::Record(fields) => {
                let wanted = key.to_owned();
                let mut i: usize = 0;
                while i < fields.len()
                    invariant
                        self == Json::Record(*fields),
                        wanted@ == key@,
                        i <= fields@.len(),
                        self@.get(key@) == lookup_from(self@->Record_0, key@, i as int),
                    decreases fields@.len() - i,
                {
                    assert(self@->Record_0[i as int] == (fields@[i as int].0@, fields@[i as int].1@));
                    if fields[i].0 == wanted {
                        return Some(&fields[i].1);
                    }
                    i += 1;
                }
                None
            },
            _ => None,
        }
    }
}

} // verus!
