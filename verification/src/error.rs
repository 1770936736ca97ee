//! Why a configuration document is refused.

use vstd::prelude::*;

verus! {

/// The kinds of fault for which a configuration document is refused.
#[derive(Clone, Copy, Debug, PartialEq, Eq, Structural)]
pub enum ConfigErrorKind {
    /// The document is not JSON.
    MalformedJson,
    /// An object lacks a key that it must have.
    MissingKey,
    /// A value is not of the JSON type that its place asks for.
    WrongType,
    /// An address is not the text of an IPv4 or IPv6 address.
    BadAddress,
    /// A prefix length is not a number, or is longer than the address.
    BadPrefixLength,
    /// The key of an observation domain is neither a number nor `default`.
    BadDomainId,
    /// An address and its netmask are of different families.
    FamilyMismatch,
    /// An enrichment object nests too deep, or could not be written back as
    /// text.
    Enrichment,
}

/// What a refusal holds.
pub struct ConfigErrorView {
    pub kind: ConfigErrorKind,
    /// The keys that lead to the fault, from the outermost one down.
    pub path: Seq<Seq<char>>,
    /// The text at fault, where the fault lies in a text.
    pub value: Seq<char>,
}

impl ConfigErrorView {
    /// The same refusal, met under the given key.
    pub open spec fn within(self, key: Seq<char>) -> ConfigErrorView {
        ConfigErrorView { path: seq![key] + self.path, ..self }
    }
}

/// The refusal of a configuration document: the kind of fault, the keys that
/// lead to it, and the text at fault.
#[derive(Debug)]
pub struct ConfigError {
    kind: ConfigErrorKind,
    path: Vec<String>,
    value: String,
}

impl View for ConfigError {
    type V = ConfigErrorView;

    closed spec fn view(&self) -> ConfigErrorView {
        ConfigErrorView {
            kind: self.kind,
            path: self.path@.map_values(|key: String| key@),
            value: self.value@,
        }
    }
}

impl ConfigError {
    /// A refusal for a fault in the given text, met under no key yet.
    pub fn new(kind: ConfigErrorKind, value: &str) -> (error: Self)
        ensures
            error@ == (ConfigErrorView { kind, path: Seq::empty(), value: value@ }),
    {
        let error = ConfigError { kind, path: Vec::new(), value: value.to_owned() };
        assert(error@.path =~= Seq::empty());
        error
    }

    /// A refusal for a fault that lies in no text, met under no key yet.
    pub fn bare(kind: ConfigErrorKind) -> (error: Self)
        ensures
            error@ == (ConfigErrorView { kind, path: Seq::empty(), value: Seq::empty() }),
    {
        proof {
            reveal_strlit("");
            assert(""@ =~= Seq::<char>::empty());
        }
        ConfigError::new(kind, "")
    }

    /// The same refusal, met under the given key.
    pub fn within(self, key: &str) -> (error: Self)
        ensures
            error@ == self@.within(key@),
    {
        let mut error = self;
        error.path.insert(0, key.to_owned());
        assert(error@.path =~= seq![key@] + self@.path);
        error
    }

    pub fn get_kind(&self) -> (kind: ConfigErrorKind)
        ensures
            kind == self@.kind,
    {
        self.kind
    }

    /// The keys that lead to the fault, from the outermost one down.
    pub fn get_path(&self) -> (path: &Vec<String>)
        ensures
            path@.map_values(|key: String| key@) == self@.path,
    {
        &self.path
    }

    /// The text at fault; empty where the fault lies in no text.
    pub fn get_value(&self) -> (value: &str)
        ensures
            value@ == self@.value,
    {
        self.value.as_str()
    }
}

} // verus!
