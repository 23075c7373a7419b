//! What the compiler says of itself, and the targets it can build for.

use std::collections::hash_map::DefaultHasher;
use vstd::prelude::*;

use crate::digest::{feed_text, text_feed};
use crate::errors::ConfigError;
use crate::paths::{file_name, file_name_of, join, joined, lemma_last_separator, trimmed};
use crate::text::{ends_with, opt_view, same_text, strip_suffix, views};

verus! {

/// The release channel of a compiler.
#[derive(Debug, PartialEq, Eq, Clone, Copy, Structural)]
pub enum Channel {
    Dev,
    Nightly,
    Beta,
    Stable,
}

impl Channel {
    /// The name of the channel.
    pub open spec fn spec_name(self) -> Seq<char> {
        match self {
            Channel::Dev => "Dev"@,
            Channel::Nightly => "Nightly"@,
            Channel::Beta => "Beta"@,
            Channel::Stable => "Stable"@,
        }
    }

    /// The name of the channel.
    pub fn name(self) -> (r: &'static str)
        ensures
            r@ == self.spec_name(),
    {
        match self {
            Channel::Dev => "Dev",
            Channel::Nightly => "Nightly",
            Channel::Beta => "Beta",
            Channel::Stable => "Stable",
        }
    }
}

/// What is known of the compiler that builds the libraries.
#[derive(Debug)]
pub struct VersionMeta {
    /// The target that the compiler runs on.
    pub host: String,
    /// The commit that the compiler was built from, where it says so.
    pub commit_hash: Option<String>,
    /// The compiler's release channel.
    pub channel: Channel,
}

/// What a [`VersionMeta`] holds.
pub struct VersionMetaView {
    pub host: Seq<char>,
    pub commit_hash: Option<Seq<char>>,
    pub channel: Channel,
}

impl View for VersionMeta {
    type V = VersionMetaView;

    open spec fn view(&self) -> VersionMetaView {
        VersionMetaView {
            host: self.host@,
            commit_hash: opt_view(self.commit_hash),
            channel: self.channel,
        }
    }
}

#[verifier::external_type_specification]
#[verifier::external_body]
pub struct ExVersionError(rustc_version::Error);

/// What the compiler says of itself in `text`, its answer to `-vV`, where
/// that is in the form expected: what `rustc_version::version_meta_for`
/// reads from it.
pub uninterp spec fn described(text: Seq<char>) -> Option<VersionMetaView>;

/// `rustc_version::version_meta_for`: reads the compiler's answer to `-vV`.
/// Of what it reads, the host, the commit and the channel are kept. Whether
/// it succeeds, and with what, depends on `text` alone.
#[verifier::external_body]
fn version_meta_for(text: &str) -> (r: Result<VersionMeta, rustc_version::Error>)
    ensures
        match r {
            Ok(meta) => described(text@) == Some(meta@),
            Err(_) => described(text@) is None,
        },
{
    let meta = rustc_version::version_meta_for(text)?;
    let channel = match meta.channel {
        rustc_version::Channel::Dev => Channel::Dev,
        rustc_version::Channel::Nightly => Channel::Nightly,
        rustc_version::Channel::Beta => Channel::Beta,
        rustc_version::Channel::Stable => Channel::Stable,
    };
    Ok(VersionMeta { host: meta.host, commit_hash: meta.commit_hash, channel })
}

/// The message of `rustc_version::Error`, as its `Display` writes it.
#[verifier::external_body]
fn version_error_message(e: &rustc_version::Error) -> String {
    e.to_string()
}

/// What the compiler says of itself in `text`, its answer to `-vV`.
pub fn version(text: &str) -> (r: Result<VersionMeta, ConfigError>)
    ensures
        match described(text@) {
            Some(meta) => r is Ok && r->Ok_0@ == meta,
            None => r matches Err(ConfigError::Version { .. }),
        },
{
    match version_meta_for(text) {
        Ok(meta) => Ok(meta),
        Err(e) => Err(ConfigError::Version { message: version_error_message(&e) }),
    }
}

#[verifier::external_type_specification]
#[verifier::external_body]
pub struct ExJsonError(serde_json::Error);

#[verifier::external_type_specification]
#[verifier::external_body]
pub struct ExJsonValue(serde_json::Value);

/// The JSON document that `text` is, where it is one: what
/// `serde_json::from_str` reads from it.
pub uninterp spec fn json_parsed(text: Seq<char>) -> Option<serde_json::Value>;

/// The text that `serde_json::Value`'s `to_string` writes for a document.
pub uninterp spec fn json_text(v: serde_json::Value) -> Seq<char>;

/// The JSON document `text` written anew, where it is one.
pub open spec fn json_normal_form(text: Seq<char>) -> Option<Seq<char>> {
    match json_parsed(text) {
        Some(v) => Some(json_text(v)),
        None => None,
    }
}

/// `serde_json::from_str` for a `serde_json::Value`: reads a JSON document.
/// Whether it succeeds, and with what, depends on `text` alone.
#[verifier::external_body]
fn parse_json(text: &str) -> (r: Result<serde_json::Value, serde_json::Error>)
    ensures
        match r {
            Ok(v) => json_parsed(text@) == Some(v),
            Err(_) => json_parsed(text@) is None,
        },
{
    serde_json::from_str(text)
}

/// `serde_json::Value`'s `to_string`: writes a JSON document. The text
/// depends on the document alone.
#[verifier::external_body]
fn write_json(v: &serde_json::Value) -> (r: String)
    ensures
        r@ == json_text(*v),
{
    v.to_string()
}

/// The message of `serde_json::Error`, as its `Display` writes it.
#[verifier::external_body]
fn json_error_message(e: &serde_json::Error) -> String {
    e.to_string()
}

/// Where the libraries' code is taken from.
#[derive(Debug)]
pub enum Source {
    /// The directory that the environment names.
    Environment(String),
    /// The directory that comes with the compiler.
    Sysroot,
}

/// Where a compiler of `channel` takes the libraries' code from, `named`
/// being the directory that the environment names: a compiler built from
/// source needs one named, a nightly one prefers it to its own, and no other
/// compiler can build the libraries.
pub fn choose_source(channel: Channel, named: Option<String>) -> (r: Result<Source, ConfigError>)
    ensures
        match channel {
            Channel::Dev => match named {
                Some(dir) => r == Ok::<Source, ConfigError>(Source::Environment(dir)),
                None => r == Err::<Source, ConfigError>(ConfigError::MissingSource),
            },
            Channel::Nightly => match named {
                Some(dir) => r == Ok::<Source, ConfigError>(Source::Environment(dir)),
                None => r == Ok::<Source, ConfigError>(Source::Sysroot),
            },
            _ => r matches Err(ConfigError::Channel { name }) && name@ == channel.spec_name(),
        },
{
    match channel {
        Channel::Dev => match named {
            Some(dir) => Ok(Source::Environment(dir)),
            None => Err(ConfigError::MissingSource),
        },
        Channel::Nightly => match named {
            Some(dir) => Ok(Source::Environment(dir)),
            None => Ok(Source::Sysroot),
        },
        _ => Err(ConfigError::Channel { name: channel.name().to_owned() }),
    }
}

/// The ending of a descriptor file's name.
pub open spec fn descriptor_ending() -> Seq<char> {
    ".json"@
}

/// The name by which a target's libraries are filed: the last component of
/// `orig`, without the ending of a descriptor file.
pub open spec fn condensed(orig: Seq<char>) -> Seq<char> {
    let name = file_name_of(orig);
    if descriptor_ending().is_suffix_of(name) {
        name.take(name.len() - descriptor_ending().len())
    } else {
        name
    }
}

/// A condensed name holds no separator, so it names one directory.
pub proof fn lemma_condensed_is_bare(orig: Seq<char>)
    ensures
        forall|i: int| 0 <= i < condensed(orig).len() ==> condensed(orig)[i] != '/',
{
    lemma_last_separator(trimmed(orig));
}

/// The name by which the libraries of the target `orig` are filed.
pub fn condense(orig: &str) -> (r: &str)
    ensures
        r@ == condensed(orig@),
{
    let name = file_name(orig);
    match strip_suffix(name, ".json") {
        Some(stem) => {
            assert(stem@ =~= name@.take(name@.len() - descriptor_ending().len()));
            assert(descriptor_ending().is_suffix_of(name@)) by {
                let whole = stem@ + descriptor_ending();
                assert(whole.subrange(whole.len() - descriptor_ending().len(), whole.len() as int)
                    =~= descriptor_ending());
            }
            stem
        },
        None => name,
    }
}

/// A target's descriptor file.
#[derive(Debug)]
pub struct Descriptor {
    /// The path of the file.
    pub json: String,
    /// What tells the descriptor from others wherever its file lies.
    pub identity: String,
}

impl Descriptor {
    /// The descriptor in the file at `json`, which holds `content`. Its
    /// identity is its content read and written anew: it does not change
    /// with the place of the file nor with how the file is laid out.
    pub fn read(json: String, content: &str) -> (r: Result<Descriptor, ConfigError>)
        ensures
            match json_normal_form(content@) {
                Some(normal) => r is Ok && r->Ok_0.json@ == json@ && r->Ok_0.identity@ == normal,
                None => r matches Err(ConfigError::InvalidJson { path, .. }) && path@ == json@,
            },
    {
        match parse_json(content) {
            Ok(document) => Ok(Descriptor { json, identity: write_json(&document) }),
            Err(e) => Err(ConfigError::InvalidJson { path: json, message: json_error_message(&e) }),
        }
    }
}

/// Whether `targets`, the names of the targets that the compiler knows,
/// holds `triple`.
pub fn knows(targets: &Vec<String>, triple: &str) -> (r: bool)
    ensures
        r == views(targets@).contains(triple@),
{
    let mut i: usize = 0;
    while i < targets.len()
        invariant
            i <= targets.len(),
            forall|j: int| 0 <= j < i ==> targets@[j]@ != triple@,
        decreases targets.len() - i,
    {
        if same_text(targets[i].as_str(), triple) {
            assert(views(targets@)[i as int] == triple@);
            return true;
        }
        i += 1;
    }
    assert forall|j: int| 0 <= j < views(targets@).len() implies views(targets@)[j] != triple@ by {
        assert(targets@[j]@ != triple@);
    }
    false
}

/// A target that is not the compiler's own.
#[derive(Debug)]
pub struct Target {
    triple: String,
    orig_triple: String,
    descriptor: Option<Descriptor>,
}

impl Target {
    /// The name by which the target's libraries are filed.
    pub closed spec fn spec_triple(&self) -> Seq<char> {
        self.triple@
    }

    /// The name of the target as it was asked for.
    pub closed spec fn spec_orig_triple(&self) -> Seq<char> {
        self.orig_triple@
    }

    /// The descriptor of a target that the compiler does not know by itself.
    pub closed spec fn spec_descriptor(&self) -> Option<Descriptor> {
        self.descriptor
    }

    /// The target asked for as `triple`: one that the compiler knows, where
    /// `targets`, the names of those, holds it, and then it keeps its name;
    /// else one described by `descriptor`, filed under its condensed name;
    /// else none.
    pub fn new(triple: &str, targets: &Vec<String>, descriptor: Option<Descriptor>) -> (r: Option<
        Target,
    >)
        ensures
            r is Some <==> views(targets@).contains(triple@) || descriptor is Some,
            r matches Some(t) ==> {
                &&& t.spec_orig_triple() == triple@
                &&& t.spec_triple() == if views(targets@).contains(triple@) {
                    triple@
                } else {
                    condensed(triple@)
                }
                &&& t.spec_descriptor() == if views(targets@).contains(triple@) {
                    None
                } else {
                    descriptor
                }
            },
    {
        let builtin = knows(targets, triple);
        if builtin {
            Some(Target { triple: triple.to_owned(), orig_triple: triple.to_owned(), descriptor: None })
        } else if descriptor.is_some() {
            Some(
                Target {
                    triple: condense(triple).to_owned(),
                    orig_triple: triple.to_owned(),
                    descriptor,
                },
            )
        } else {
            None
        }
    }

    /// The name by which the target's libraries are filed.
    pub fn triple(&self) -> (r: &str)
        ensures
            r@ == self.spec_triple(),
    {
        self.triple.as_str()
    }

    /// The name of the target as it was asked for.
    pub fn orig_triple(&self) -> (r: &str)
        ensures
            r@ == self.spec_orig_triple(),
    {
        self.orig_triple.as_str()
    }

    /// The path of the target's descriptor file, where it has one.
    pub fn json(&self) -> (r: Option<&str>)
        ensures
            match r {
                Some(path) => self.spec_descriptor() is Some && self.spec_descriptor()->Some_0.json@
                    == path@,
                None => self.spec_descriptor() is None,
            },
    {
        match &self.descriptor {
            Some(d) => Some(d.json.as_str()),
            None => None,
        }
    }

    /// What the target adds to the hasher's log: its name and, where it has
    /// a descriptor, the descriptor's identity.
    pub open spec fn feed(&self) -> Seq<Seq<u8>> {
        text_feed(self.spec_triple()) + match self.spec_descriptor() {
            Some(d) => text_feed(d.identity@),
            None => Seq::empty(),
        }
    }

    /// Feeds the target to `hasher`.
    pub fn hash(&self, hasher: &mut DefaultHasher)
        ensures
            final(hasher)@ == old(hasher)@ + self.feed(),
    {
        feed_text(hasher, self.triple.as_str());
        match &self.descriptor {
            Some(d) => {
                feed_text(hasher, d.identity.as_str());
            },
            None => {},
        }
        assert(hasher@ =~= old(hasher)@ + self.feed());
    }
}

/// Where the descriptor file of the target `triple` is looked for in the
/// directory `dir`: under the target's name, with the ending of a descriptor
/// file unless it has it.
pub open spec fn descriptor_path(dir: Seq<char>, triple: Seq<char>) -> Seq<char> {
    if descriptor_ending().is_suffix_of(triple) {
        joined(dir, triple)
    } else {
        joined(dir, triple + descriptor_ending())
    }
}

/// Where the descriptor file of the target `triple` is looked for in `dir`.
pub fn descriptor_candidate(dir: &str, triple: &str) -> (r: String)
    ensures
        r@ == descriptor_path(dir@, triple@),
{
    if ends_with(triple, ".json") {
        join(dir, triple)
    } else {
        let name = triple.to_owned().concat(".json");
        join(dir, name.as_str())
    }
}

} // verus!
