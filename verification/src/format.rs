//! The two files of the controller as JSON documents: which documents are a
//! configuration or a registry, and which document a registry is written as.

use crate::config::{Config, ConfigView, RegistrationState, ServerSpec, ServerSpecView};
use crate::json::{
    Json, JsonTree, MAX_NESTING, RenderError, lemma_nesting_grows, lookup_from, parsed, rendered,
};
use vstd::pervasive::unreached;
use vstd::prelude::*;

verus! {

/// The fields that the two files name.
#[derive(Clone, Copy, Debug, PartialEq, Eq)]
pub enum Field {
    MarcvAddresses,
    Uuid,
    PackageName,
    RootCertificate,
    ServerSpecs,
    MarcvAddress,
    ClientChain,
    RootCert,
}

impl Field {
    /// The key under which a document holds the field.
    pub open spec fn key(self) -> Seq<char> {
        match self {
            Field::MarcvAddresses => "marcv_addresses"@,
            Field::Uuid => "uuid"@,
            Field::PackageName => "package_name"@,
            Field::RootCertificate => "root_certificate"@,
            Field::ServerSpecs => "server_specs"@,
            Field::MarcvAddress => "marcv_address"@,
            Field::ClientChain => "client_chain"@,
            Field::RootCert => "root_cert"@,
        }
    }

    /// The key under which a document holds the field.
    pub fn name(self) -> (name: &'static str)
        ensures
            name@ == self.key(),
    {
        match self {
            Field::MarcvAddresses => "marcv_addresses",
            Field::Uuid => "uuid",
            Field::PackageName => "package_name",
            Field::RootCertificate => "root_certificate",
            Field::ServerSpecs => "server_specs",
            Field::MarcvAddress => "marcv_address",
            Field::ClientChain => "client_chain",
            Field::RootCert => "root_cert",
        }
    }
}

/// What keeps a JSON document from being a configuration or a registry.
#[derive(Clone, Copy, Debug, PartialEq, Eq)]
pub enum Defect {
    /// The document is not an object (`entry` is `None`), or the entry of the
    /// registry at index `entry` is not one.
    NotAnObject { entry: Option<usize> },
    /// A field is missing where it is required, or holds a value of the wrong
    /// type; of the document itself, or of the entry at index `entry`.
    InvalidField { entry: Option<usize>, field: Field },
}

/// Why the text of a file was not taken.
#[derive(Clone, Debug, PartialEq, Eq)]
pub enum ParseError {
    /// The text is not JSON. Holds the parser's message.
    Syntax { message: String },
    /// The text is JSON, but not of the expected shape.
    Shape(Defect),
}

/// Why a registry was not put into the text of its file.
#[derive(Clone, Debug, PartialEq, Eq)]
pub enum SaveError {
    /// `serde_json` refused the document of the registry. Holds its message.
    Refused { message: String },
    /// The text that was written does not read back as the registry.
    NotReadBack,
}

/// A field that holds a text and may be left out: no field and `null` both
/// read as absent. `None` says that the field holds something else.
pub open spec fn optional_text(field: Option<JsonTree>) -> Option<Option<Seq<char>>> {
    match field {
        None => Some(None),
        Some(JsonTree::Null) => Some(None),
        Some(JsonTree::Text(text)) => Some(Some(text)),
        Some(_) => None,
    }
}

/// The texts of a list of texts. `None` says that the tree is no such list.
pub open spec fn texts(tree: JsonTree) -> Option<Seq<Seq<char>>> {
    match tree {
        JsonTree::List(items) => if forall|i: int| 0 <= i < items.len() ==> items[i] is Text {
            Some(Seq::new(items.len(), |i: int| items[i]->Text_0))
        } else {
            None
        },
        _ => None,
    }
}

/// A field that holds a list of texts and may be left out, as in
/// [`optional_text`].
pub open spec fn optional_texts(field: Option<JsonTree>) -> Option<Option<Seq<Seq<char>>>> {
    match field {
        None => Some(None),
        Some(JsonTree::Null) => Some(None),
        Some(tree) => match texts(tree) {
            Some(list) => Some(Some(list)),
            None => None,
        },
    }
}

/// The configuration that a document holds, or the first thing that keeps it
/// from being one. The fields are looked at in the order `marcv_addresses`,
/// `uuid`, `package_name`, `root_certificate`; fields of other names are
/// passed over.
pub open spec fn decode_config(tree: JsonTree) -> Result<ConfigView, Defect> {
    let addresses = optional_texts(tree.get(Field::MarcvAddresses.key()));
    let uuid = optional_text(tree.get(Field::Uuid.key()));
    let package_name = optional_text(tree.get(Field::PackageName.key()));
    let root_certificate = optional_text(tree.get(Field::RootCertificate.key()));
    if !(tree is Record) {
        Err(Defect::NotAnObject { entry: None })
    } else if addresses is None {
        Err(Defect::InvalidField { entry: None, field: Field::MarcvAddresses })
    } else if uuid is None {
        Err(Defect::InvalidField { entry: None, field: Field::Uuid })
    } else if package_name is None {
        Err(Defect::InvalidField { entry: None, field: Field::PackageName })
    } else if root_certificate is None {
        Err(Defect::InvalidField { entry: None, field: Field::RootCertificate })
    } else {
        Ok(
            ConfigView {
                marcv_addresses: addresses->0,
                uuid: uuid->0,
                package_name: package_name->0,
                root_certificate: root_certificate->0,
            },
        )
    }
}

/// What the text of a configuration file holds, where `None` stands for a
/// file that does not exist: `Err(None)` for a text that is not JSON.
pub open spec fn read_config(file: Option<Seq<char>>) -> Result<ConfigView, Option<Defect>> {
    match file {
        None => Ok(ConfigView::absent()),
        Some(text) => match parsed(text) {
            None => Err(None),
            Some(tree) => match decode_config(tree) {
                Ok(config) => Ok(config),
                Err(defect) => Err(Some(defect)),
            },
        },
    }
}

impl ParseError {
    /// The defect of a document of the wrong shape; `None` for a text that is
    /// not JSON.
    pub open spec fn defect(self) -> Option<Defect> {
        match self {
            ParseError::Syntax { .. } => None,
            ParseError::Shape(defect) => Some(defect),
        }
    }
}

fn read_optional_text(field: Option<&Json>) -> (read: Option<Option<String>>)
    ensures
        read.deep_view() == optional_text(field.deep_view()),
{
    match field {
        None => Some(None),
        Some(Json::Null) => Some(None),
        Some(Json::Text(text)) => Some(Some(text.clone())),
        Some(_) => None,
    }
}

fn read_texts(document: &Json) -> (read: Option<Vec<String>>)
    ensures
        read.deep_view() == texts(document@),
{
    match document {
        Json::List(items) => {
            let mut list: Vec<String> = Vec::new();
            let mut i: usize = 0;
            while i < items.len()
                invariant
                    document == Json::List(*items),
                    i <= items@.len(),
                    list@.len() == i,
                    forall|k: int| 0 <= k < i ==> document@->List_0[k] == JsonTree::Text(list@[k]@),
                decreases items@.len() - i,
            {
                assert(document@->List_0[i as int] == items@[i as int]@);
                match &items[i] {
                    Json::Text(text) => {
                        list.push(text.clone());
                    },
                    _ => {
                        return None;
                    },
                }
                i += 1;
            }
            assert(list.deep_view() =~= texts(document@)->0);
            Some(list)
        },
        _ => None,
    }
}

fn read_optional_texts(field: Option<&Json>) -> (read: Option<Option<Vec<String>>>)
    ensures
        read.deep_view() == optional_texts(field.deep_view()),
{
    match field {
        None => Some(None),
        Some(Json::Null) => Some(None),
        Some(document) => match read_texts(document) {
            Some(list) => Some(Some(list)),
            None => None,
        },
    }
}

impl Config {
    /// Reads a configuration from a JSON document: an object whose fields
    /// `marcv_addresses` (a list of texts), `uuid`, `package_name` and
    /// `root_certificate` (texts) may each be left out or be `null`. Fields of
    /// other names are passed over.
    pub fn from_json(document: &Json) -> (config: Result<Config, Defect>)
        ensures
            match decode_config(document@) {
                Ok(view) => config matches Ok(c) && c@ == view,
                Err(defect) => config == Err::<Config, Defect>(defect),
            },
    {
        match document {
            Json::Record(_) => {},
            _ => {
                return Err(Defect::NotAnObject { entry: None });
            },
        }
        let marcv_addresses = match read_optional_texts(
            document.get(Field::MarcvAddresses.name()),
        ) {
            Some(value) => value,
            None => {
                return Err(Defect::InvalidField { entry: None, field: Field::MarcvAddresses });
            },
        };
        let uuid = match read_optional_text(document.get(Field::Uuid.name())) {
            Some(value) => value,
            None => {
                return Err(Defect::InvalidField { entry: None, field: Field::Uuid });
            },
        };
        let package_name = match read_optional_text(document.get(Field::PackageName.name())) {
            Some(value) => value,
            None => {
                return Err(Defect::InvalidField { entry: None, field: Field::PackageName });
            },
        };
        let root_certificate = match read_optional_text(
            document.get(Field::RootCertificate.name()),
        ) {
            Some(value) => value,
            None => {
                return Err(Defect::InvalidField { entry: None, field: Field::RootCertificate });
            },
        };
        Ok(Config { marcv_addresses, uuid, package_name, root_certificate })
    }

    /// Reads the configuration file from its text, where `None` stands for a
    /// file that does not exist: such a file gives the configuration in which
    /// every field is absent. A text that is not JSON, or not a
    /// configuration, gives an error and no configuration.
    pub fn from_file(file: Option<&str>) -> (config: Result<Config, ParseError>)
        ensures
            match read_config(file.deep_view()) {
                Ok(view) => config matches Ok(c) && c@ == view,
                Err(defect) => config matches Err(error) && error.defect() == defect,
            },
    {
        match file {
            None => Ok(Config::empty_config()),
            Some(text) => match Json::parse(text) {
                Err(message) => Err(ParseError::Syntax { message }),
                Ok(document) => match Config::from_json(&document) {
                    Ok(config) => Ok(config),
                    Err(defect) => Err(ParseError::Shape(defect)),
                },
            },
        }
    }
}

/// An entry that is added twice stands twice at the end of the registry,
/// and both are read back from the document that the registry is written as.
pub proof fn lemma_no_deduplication(entries: Seq<ServerSpecView>, entry: ServerSpecView)
    ensures
        ({
            let twice = entries.push(entry).push(entry);
            &&& twice.len() == entries.len() + 2
            &&& twice[entries.len() as int] == entry
            &&& twice[entries.len() as int + 1] == entry
            &&& twice.take(entries.len() as int) == entries
            &&& decode_registry(encode_registry(twice)) == Ok::<Seq<ServerSpecView>, Defect>(twice)
        }),
{
    let twice = entries.push(entry).push(entry);
    lemma_registry_round_trip(twice);
    assert(twice.take(entries.len() as int) =~= entries);
}

/// A field that must hold a text. `None` says that it is missing or holds
/// something else.
pub open spec fn required_text(field: Option<JsonTree>) -> Option<Seq<char>> {
    match field {
        Some(JsonTree::Text(text)) => Some(text),
        _ => None,
    }
}

/// The entry that a document holds, or the first thing that keeps it from
/// being one; `index` is the place of the entry in the registry. The fields
/// are looked at in the order `marcv_address`, `uuid`, `client_chain`,
/// `root_cert`; fields of other names are passed over.
pub open spec fn decode_entry(tree: JsonTree, index: usize) -> Result<ServerSpecView, Defect> {
    let marcv_address = required_text(tree.get(Field::MarcvAddress.key()));
    let uuid = required_text(tree.get(Field::Uuid.key()));
    let client_chain = required_text(tree.get(Field::ClientChain.key()));
    let root_cert = required_text(tree.get(Field::RootCert.key()));
    if !(tree is Record) {
        Err(Defect::NotAnObject { entry: Some(index) })
    } else if marcv_address is None {
        Err(Defect::InvalidField { entry: Some(index), field: Field::MarcvAddress })
    } else if uuid is None {
        Err(Defect::InvalidField { entry: Some(index), field: Field::Uuid })
    } else if client_chain is None {
        Err(Defect::InvalidField { entry: Some(index), field: Field::ClientChain })
    } else if root_cert is None {
        Err(Defect::InvalidField { entry: Some(index), field: Field::RootCert })
    } else {
        Ok(
            ServerSpecView {
                marcv_address: marcv_address->0,
                uuid: uuid->0,
                client_chain: client_chain->0,
                root_cert: root_cert->0,
            },
        )
    }
}

/// The entries that the first `count` documents of `items` hold, in their
/// order, or the defect of the first of them that holds none.
pub open spec fn decode_entries(items: Seq<JsonTree>, count: nat) -> Result<
    Seq<ServerSpecView>,
    Defect,
>
    decreases count,
{
    if count == 0 {
        Ok(Seq::empty())
    } else {
        match decode_entries(items, (count - 1) as nat) {
            Err(defect) => Err(defect),
            Ok(entries) => match decode_entry(items[count - 1], (count - 1) as usize) {
                Err(defect) => Err(defect),
                Ok(entry) => Ok(entries.push(entry)),
            },
        }
    }
}

/// The registry that a document holds, or the first thing that keeps it from
/// being one: an object whose field `server_specs`, where it has one, is a
/// list of entries. Without that field the registry is empty.
pub open spec fn decode_registry(tree: JsonTree) -> Result<Seq<ServerSpecView>, Defect> {
    if !(tree is Record) {
        Err(Defect::NotAnObject { entry: None })
    } else {
        match tree.get(Field::ServerSpecs.key()) {
            None => Ok(Seq::empty()),
            Some(JsonTree::List(items)) => decode_entries(items, items.len()),
            Some(_) => Err(Defect::InvalidField { entry: None, field: Field::ServerSpecs }),
        }
    }
}

/// The document that an entry is written as.
pub open spec fn encode_entry(entry: ServerSpecView) -> JsonTree {
    JsonTree::Record(
        seq![
            (Field::MarcvAddress.key(), JsonTree::Text(entry.marcv_address)),
            (Field::Uuid.key(), JsonTree::Text(entry.uuid)),
            (Field::ClientChain.key(), JsonTree::Text(entry.client_chain)),
            (Field::RootCert.key(), JsonTree::Text(entry.root_cert)),
        ],
    )
}

/// The document that a registry is written as.
pub open spec fn encode_registry(entries: Seq<ServerSpecView>) -> JsonTree {
    JsonTree::Record(
        seq![
            (
                Field::ServerSpecs.key(),
                JsonTree::List(Seq::new(entries.len(), |i: int| encode_entry(entries[i]))),
            ),
        ],
    )
}

/// What the text of a registry file holds, where `None` stands for a file
/// that does not exist: `Err(None)` for a text that is not JSON.
pub open spec fn read_registry(file: Option<Seq<char>>) -> Result<
    Seq<ServerSpecView>,
    Option<Defect>,
> {
    match file {
        None => Ok(Seq::empty()),
        Some(text) => match parsed(text) {
            None => Err(None),
            Some(tree) => match decode_registry(tree) {
                Ok(entries) => Ok(entries),
                Err(defect) => Err(Some(defect)),
            },
        },
    }
}

/// The text that a registry is saved as: the text that `serde_json` writes
/// for its document, provided that the text reads back as the registry.
/// `None` where no text is written, or one that reads back as anything else.
pub open spec fn saved(entries: Seq<ServerSpecView>) -> Option<Seq<char>> {
    match rendered(encode_registry(entries)) {
        Some(written) => if read_registry(Some(written)) == Ok::<
            Seq<ServerSpecView>,
            Option<Defect>,
        >(entries) {
            Some(written)
        } else {
            None
        },
        None => None,
    }
}

impl SaveError {
    /// Whether this is the error that keeps a registry with these entries
    /// from being saved: `Refused` where `serde_json` writes no text,
    /// `NotReadBack` where it writes one that reads back as anything else.
    pub open spec fn explains(self, entries: Seq<ServerSpecView>) -> bool {
        if rendered(encode_registry(entries)) is None {
            self is Refused
        } else {
            self == SaveError::NotReadBack
        }
    }
}

/// A registry that is saved and then loaded from the text that was saved is
/// the same registry: the same entries with the same texts, in the same
/// order.
pub proof fn lemma_saved_is_loaded(entries: Seq<ServerSpecView>, text: Seq<char>)
    requires
        saved(entries) == Some(text),
    ensures
        read_registry(Some(text)) == Ok::<Seq<ServerSpecView>, Option<Defect>>(entries),
{
}

/// Different fields have different keys.
pub proof fn lemma_keys_differ(a: Field, b: Field)
    requires
        a != b,
    ensures
        a.key() != b.key(),
{
    reveal_strlit("marcv_addresses");
    reveal_strlit("uuid");
    reveal_strlit("package_name");
    reveal_strlit("root_certificate");
    reveal_strlit("server_specs");
    reveal_strlit("marcv_address");
    reveal_strlit("client_chain");
    reveal_strlit("root_cert");
    assert(a.key().len() != b.key().len() || a.key()[0] != b.key()[0]);
}

/// An entry is read back from the document that it is written as.
pub proof fn lemma_entry_round_trip(entry: ServerSpecView, index: usize)
    ensures
        decode_entry(encode_entry(entry), index) == Ok::<ServerSpecView, Defect>(entry),
        encode_entry(entry).unambiguous(),
{
    let tree = encode_entry(entry);
    let fields = tree->Record_0;
    lemma_keys_differ(Field::MarcvAddress, Field::Uuid);
    lemma_keys_differ(Field::MarcvAddress, Field::ClientChain);
    lemma_keys_differ(Field::MarcvAddress, Field::RootCert);
    lemma_keys_differ(Field::Uuid, Field::ClientChain);
    lemma_keys_differ(Field::Uuid, Field::RootCert);
    lemma_keys_differ(Field::ClientChain, Field::RootCert);
    reveal_with_fuel(lookup_from, 5);
    assert(tree.get(Field::MarcvAddress.key()) == Some(JsonTree::Text(entry.marcv_address)));
    assert(tree.get(Field::Uuid.key()) == Some(JsonTree::Text(entry.uuid)));
    assert(tree.get(Field::ClientChain.key()) == Some(JsonTree::Text(entry.client_chain)));
    assert(tree.get(Field::RootCert.key()) == Some(JsonTree::Text(entry.root_cert)));
    assert forall|i: int| 0 <= i < fields.len() implies (#[trigger] fields[i]).1.unambiguous() by {}
}

/// The first `count` entries of a registry are read back from the documents
/// that they are written as.
proof fn lemma_entries_round_trip(entries: Seq<ServerSpecView>, count: nat)
    requires
        count <= entries.len(),
    ensures
        decode_entries(Seq::new(entries.len(), |i: int| encode_entry(entries[i])), count) == Ok::<
            Seq<ServerSpecView>,
            Defect,
        >(entries.take(count as int)),
    decreases count,
{
    if count > 0 {
        lemma_entries_round_trip(entries, (count - 1) as nat);
        lemma_entry_round_trip(entries[count - 1], (count - 1) as usize);
        assert(entries.take(count - 1).push(entries[count - 1]) =~= entries.take(count as int));
    } else {
        assert(entries.take(0) =~= Seq::<ServerSpecView>::empty());
    }
}

/// A registry is read back, entry for entry and in the same order, from the
/// document that it is written as; and no record of that document names a
/// key twice.
pub proof fn lemma_registry_round_trip(entries: Seq<ServerSpecView>)
    ensures
        decode_registry(encode_registry(entries)) == Ok::<Seq<ServerSpecView>, Defect>(entries),
        encode_registry(entries).unambiguous(),
{
    let tree = encode_registry(entries);
    let items = Seq::new(entries.len(), |i: int| encode_entry(entries[i]));
    reveal_with_fuel(lookup_from, 2);
    assert(tree.get(Field::ServerSpecs.key()) == Some(JsonTree::List(items)));
    lemma_entries_round_trip(entries, entries.len());
    assert(entries.take(entries.len() as int) =~= entries);
    assert forall|i: int| 0 <= i < items.len() implies (#[trigger] items[i]).unambiguous() by {
        lemma_entry_round_trip(entries[i], 0);
    }
    assert(JsonTree::List(items).unambiguous());
    assert forall|i: int| 0 <= i < tree->Record_0.len() implies (#[trigger] tree->Record_0[i]).1.unambiguous() by {}
}

fn read_required_text(field: Option<&Json>) -> (read: Option<String>)
    ensures
        read.deep_view() == required_text(field.deep_view()),
{
    match field {
        Some(Json::Text(text)) => Some(text.clone()),
        _ => None,
    }
}

impl ServerSpec {
    /// Whether the two entries hold the same four texts.
    pub fn same_as(&self, other: &ServerSpec) -> (same: bool)
        ensures
            same == (self@ == other@),
    {
        self.marcv_address == other.marcv_address && self.uuid == other.uuid && self.client_chain
            == other.client_chain && self.root_cert == other.root_cert
    }

    /// Reads the entry at place `index` of a registry from its document: an
    /// object whose fields `marcv_address`, `uuid`, `client_chain` and
    /// `root_cert` all hold texts. Fields of other names are passed over.
    pub fn from_json(document: &Json, index: usize) -> (entry: Result<ServerSpec, Defect>)
        ensures
            match decode_entry(document@, index) {
                Ok(view) => entry matches Ok(e) && e@ == view,
                Err(defect) => entry == Err::<ServerSpec, Defect>(defect),
            },
    {
        match document {
            Json::Record(_) => {},
            _ => {
                return Err(Defect::NotAnObject { entry: Some(index) });
            },
        }
        let marcv_address = match read_required_text(document.get(Field::MarcvAddress.name())) {
            Some(text) => text,
            None => {
                return Err(
                    Defect::InvalidField { entry: Some(index), field: Field::MarcvAddress },
                );
            },
        };
        let uuid = match read_required_text(document.get(Field::Uuid.name())) {
            Some(text) => text,
            None => {
                return Err(Defect::InvalidField { entry: Some(index), field: Field::Uuid });
            },
        };
        let client_chain = match read_required_text(document.get(Field::ClientChain.name())) {
            Some(text) => text,
            None => {
                return Err(Defect::InvalidField { entry: Some(index), field: Field::ClientChain });
            },
        };
        let root_cert = match read_required_text(document.get(Field::RootCert.name())) {
            Some(text) => text,
            None => {
                return Err(Defect::InvalidField { entry: Some(index), field: Field::RootCert });
            },
        };
        Ok(ServerSpec { marcv_address, uuid, client_chain, root_cert })
    }

    /// The document that the entry is written as: an object with the four
    /// fields, in the order `marcv_address`, `uuid`, `client_chain`,
    /// `root_cert`.
    pub fn to_json(&self) -> (document: Json)
        ensures
            document@ == encode_entry(self@),
    {
        let mut fields: Vec<(String, Json)> = Vec::new();
        fields.push((Field::MarcvAddress.name().to_owned(), Json::Text(self.marcv_address.clone())));
        fields.push((Field::Uuid.name().to_owned(), Json::Text(self.uuid.clone())));
        fields.push((Field::ClientChain.name().to_owned(), Json::Text(self.client_chain.clone())));
        fields.push((Field::RootCert.name().to_owned(), Json::Text(self.root_cert.clone())));
        let document = Json::Record(fields);
        proof {
            assert(fields@[0].1@ == JsonTree::Text(self.marcv_address@));
            assert(fields@[1].1@ == JsonTree::Text(self.uuid@));
            assert(fields@[2].1@ == JsonTree::Text(self.client_chain@));
            assert(fields@[3].1@ == JsonTree::Text(self.root_cert@));
            assert(document@->Record_0 =~= encode_entry(self@)->Record_0);
        }
        document
    }
}

impl RegistrationState {
    /// Reads a registry from a JSON document: an object whose field
    /// `server_specs`, where it has one, is a list of entries. The entries
    /// keep their order, and an entry that stands twice is read twice.
    pub fn from_json(document: &Json) -> (state: Result<RegistrationState, Defect>)
        ensures
            match decode_registry(document@) {
                Ok(entries) => state matches Ok(s) && s@ == entries,
                Err(defect) => state == Err::<RegistrationState, Defect>(defect),
            },
    {
        match document {
            Json::Record(_) => {},
            _ => {
                return Err(Defect::NotAnObject { entry: None });
            },
        }
        match document.get(Field::ServerSpecs.name()) {
            None => Ok(RegistrationState::empty_state()),
            Some(Json::List(items)) => {
                let ghost trees = Json::List(*items)@->List_0;
                let mut server_specs: Vec<ServerSpec> = Vec::new();
                let mut i: usize = 0;
                assert(server_specs@.map_values(|entry: ServerSpec| entry@) =~= Seq::empty());
                while i < items.len()
                    invariant
                        trees == Json::List(*items)@->List_0,
                        decode_registry(document@) == decode_entries(trees, trees.len()),
                        i <= items@.len() == trees.len(),
                        server_specs@.len() == i,
                        decode_entries(trees, i as nat) == Ok::<Seq<ServerSpecView>, Defect>(
                            server_specs@.map_values(|entry: ServerSpec| entry@),
                        ),
                    decreases items@.len() - i,
                {
                    assert(trees[i as int] == items@[i as int]@);
                    let ghost before = server_specs@.map_values(|entry: ServerSpec| entry@);
                    match ServerSpec::from_json(&items[i], i) {
                        Ok(entry) => {
                            server_specs.push(entry);
                            assert(server_specs@.map_values(|entry: ServerSpec| entry@)
                                =~= before.push(entry@));
                        },
                        Err(defect) => {
                            proof {
                                assert(decode_entries(trees, (i + 1) as nat) == Err::<
                                    Seq<ServerSpecView>,
                                    Defect,
                                >(defect));
                                lemma_defect_stays(trees, (i + 1) as nat, trees.len());
                            }
                            return Err(defect);
                        },
                    }
                    i += 1;
                }
                Ok(RegistrationState { server_specs })
            },
            Some(_) => Err(Defect::InvalidField { entry: None, field: Field::ServerSpecs }),
        }
    }

    /// The document that the registry is written as: an object whose one
    /// field, `server_specs`, is the list of the entries in their order.
    pub fn to_json(&self) -> (document: Json)
        ensures
            document@ == encode_registry(self@),
    {
        let mut items: Vec<Json> = Vec::new();
        let mut i: usize = 0;
        while i < self.server_specs.len()
            invariant
                i <= self.server_specs@.len(),
                items@.len() == i,
                forall|k: int| 0 <= k < i ==> (#[trigger] items@[k])@ == encode_entry(self@[k]),
            decreases self.server_specs@.len() - i,
        {
            items.push(self.server_specs[i].to_json());
            i += 1;
        }
        let list = Json::List(items);
        assert(list@->List_0 =~= Seq::new(self@.len(), |i: int| encode_entry(self@[i])));
        let mut fields: Vec<(String, Json)> = Vec::new();
        fields.push((Field::ServerSpecs.name().to_owned(), list));
        let document = Json::Record(fields);
        proof {
            assert(fields@[0].1@ == list@);
            assert(document@->Record_0 =~= encode_registry(self@)->Record_0);
        }
        document
    }

    /// Reads the registry file from its text, where `None` stands for a file
    /// that does not exist: such a file gives the registry without entries.
    /// A text that is not JSON, or not a registry, gives an error and no
    /// registry.
    pub fn from_file(file: Option<&str>) -> (state: Result<RegistrationState, ParseError>)
        ensures
            match read_registry(file.deep_view()) {
                Ok(entries) => state matches Ok(s) && s@ == entries,
                Err(defect) => state matches Err(error) && error.defect() == defect,
            },
    {
        match file {
            None => Ok(RegistrationState::empty_state()),
            Some(text) => match Json::parse(text) {
                Err(message) => Err(ParseError::Syntax { message }),
                Ok(document) => match RegistrationState::from_json(&document) {
                    Ok(state) => Ok(state),
                    Err(defect) => Err(ParseError::Shape(defect)),
                },
            },
        }
    }

    /// The text that the registry file is to hold: the document of
    /// [`RegistrationState::to_json`] as `serde_json` writes it. The text is
    /// read again before it is handed out, and is handed out only if it
    /// holds this registry: the same entries, in the same order. So a file
    /// that holds the text of a registry gives that registry when it is
    /// loaded.
    pub fn to_file(self) -> (text: Result<String, SaveError>)
        ensures
            match saved(self@) {
                Some(written) => text matches Ok(t) && t@ == written,
                None => text matches Err(error) && error.explains(self@),
            },
    {
        proof {
            lemma_registry_round_trip(self@);
            lemma_registry_nesting(self@);
            lemma_nesting_grows(encode_registry(self@), 3, MAX_NESTING as nat);
        }
        let written = match self.to_json().render() {
            Ok(written) => written,
            Err(RenderError::Refused { message }) => {
                return Err(SaveError::Refused { message });
            },
            Err(RenderError::DuplicateKey) => unreached(),
            Err(RenderError::TooDeep) => unreached(),
        };
        match RegistrationState::from_file(Some(written.as_str())) {
            Ok(read) => if read.same_as(&self) {
                Ok(written)
            } else {
                Err(SaveError::NotReadBack)
            },
            Err(_) => Err(SaveError::NotReadBack),
        }
    }

    /// Whether the two registries hold the same entries in the same order.
    pub fn same_as(&self, other: &RegistrationState) -> (same: bool)
        ensures
            same == (self@ == other@),
    {
        if self.server_specs.len() != other.server_specs.len() {
            assert(self@.len() != other@.len());
            return false;
        }
        let mut i: usize = 0;
        while i < self.server_specs.len()
            invariant
                self.server_specs@.len() == other.server_specs@.len(),
                i <= self.server_specs@.len(),
                forall|k: int| 0 <= k < i ==> self@[k] == other@[k],
            decreases self.server_specs@.len() - i,
        {
            if !self.server_specs[i].same_as(&other.server_specs[i]) {
                assert(self@[i as int] != other@[i as int]);
                return false;
            }
            i += 1;
        }
        assert(self@ =~= other@);
        true
    }
}

/// The document of a registry is three deep: the entries stand in a list,
/// and the list in the document.
pub proof fn lemma_registry_nesting(entries: Seq<ServerSpecView>)
    ensures
        encode_registry(entries).nested_within(3),
{
    let tree = encode_registry(entries);
    let list = tree->Record_0[0].1;
    let items = list->List_0;
    assert forall|i: int| 0 <= i < items.len() implies (#[trigger] items[i]).nested_within(1) by {
        let fields = items[i]->Record_0;
        assert forall|k: int| 0 <= k < fields.len() implies (#[trigger] fields[k]).1.nested_within(
            0,
        ) by {}
    }
    assert(list.nested_within(2));
    assert forall|i: int| 0 <= i < tree->Record_0.len() implies (#[trigger] tree->Record_0[i]).1.nested_within(
        2,
    ) by {}
}

/// Once an entry among the first `count` holds a defect, that defect is the
/// result for every larger count.
proof fn lemma_defect_stays(items: Seq<JsonTree>, count: nat, more: nat)
    requires
        count <= more,
        decode_entries(items, count) is Err,
    ensures
        decode_entries(items, more) == decode_entries(items, count),
    decreases more,
{
    if count < more {
        lemma_defect_stays(items, count, (more - 1) as nat);
    }
}

} // verus!
