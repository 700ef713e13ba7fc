//! Configuration sources: content versions, change detection, the checks a
//! loaded payload goes through, and the choice between a primary and a
//! fallback source.

use vstd::prelude::*;

use sha2::{Digest, Sha256};
use vstd::string::StringSliceAdditionalSpecFns;

use crate::error::{error_views, SwitchboardError};
use crate::model::Config;
use crate::validation::{validate, validation_errors};

verus! {

/// What `sha2::Sha256::digest` gives for some bytes, written as lower-case
/// hexadecimal.
pub uninterp spec fn sha256_hex_of(b: Seq<u8>) -> Seq<char>;

/// Relies on `sha2::Sha256::digest`, and on the `LowerHex` formatting of the
/// digest.
#[verifier::external_body]
pub fn sha256_hex(data: &[u8]) -> (r: String)
    ensures
        r@ == sha256_hex_of(data@),
{
    format!("{:x}", Sha256::digest(data))
}

/// The version of a configuration: the SHA-256 digest of its source payload.
#[derive(Debug, Clone)]
pub enum ConfigVersion {
    Hash(String),
}

impl View for ConfigVersion {
    type V = Seq<char>;

    open spec fn view(&self) -> Seq<char> {
        match self {
            ConfigVersion::Hash(h) => h@,
        }
    }
}

impl PartialEq for ConfigVersion {
    fn eq(&self, other: &ConfigVersion) -> (r: bool)
        ensures
            r == (self@ == other@),
    {
        match (self, other) {
            (ConfigVersion::Hash(a), ConfigVersion::Hash(b)) => crate::text::str_eq(
                a.as_str(),
                b.as_str(),
            ),
        }
    }
}

impl vstd::std_specs::cmp::PartialEqSpecImpl for ConfigVersion {
    open spec fn obeys_eq_spec() -> bool {
        true
    }

    open spec fn eq_spec(&self, other: &ConfigVersion) -> bool {
        self@ == other@
    }
}

/// The version of a payload.
pub open spec fn payload_version(payload: Seq<u8>) -> Seq<char> {
    sha256_hex_of(payload)
}

/// Whether a payload differs from the one a version was computed from.
pub open spec fn payload_changed(current: Seq<char>, payload: Seq<u8>) -> bool {
    current != payload_version(payload)
}

impl ConfigVersion {
    /// The version of a payload: its digest.
    pub fn of_payload(payload: &str) -> (r: ConfigVersion)
        ensures
            r@ == payload_version(payload.spec_bytes()),
    {
        ConfigVersion::Hash(sha256_hex(payload.as_bytes()))
    }

    /// The first eight characters of the digest, or all of it where it is
    /// shorter.
    pub fn short(&self) -> (r: String)
        ensures
            self@.len() >= 8 ==> r@ == self@.subrange(0, 8),
            self@.len() < 8 ==> r@ == self@,
    {
        match self {
            ConfigVersion::Hash(h) => {
                let cs = crate::text::chars_of(h.as_str());
                if cs.len() >= 8 {
                    crate::text::string_of(&crate::text::sub_chars(&cs, 0, 8))
                } else {
                    h.clone()
                }
            },
        }
    }
}

/// Whether the payload now read differs from the one of the current
/// version.
pub fn has_changed(current: &ConfigVersion, payload: &str) -> (r: bool)
    ensures
        r == payload_changed(current@, payload.spec_bytes()),
{
    let now = ConfigVersion::of_payload(payload);
    !(*current == now)
}

/// Validates a configuration read from a payload and versions it with the
/// payload's digest.
pub fn validate_and_hash(config: Config, payload: &str) -> (r: Result<
    (Config, ConfigVersion),
    SwitchboardError,
>)
    ensures
        r is Ok <==> validation_errors(config).len() == 0,
        r matches Ok((c, v)) ==> c == config && v@ == payload_version(payload.spec_bytes()),
        r matches Err(e) ==> (e matches SwitchboardError::ConfigValidation { errors }
            && error_views(errors@) == validation_errors(config)),
{
    match validate(&config) {
        Err(errors) => Err(SwitchboardError::ConfigValidation { errors }),
        Ok(()) => {
            let v = ConfigVersion::of_payload(payload);
            Ok((config, v))
        },
    }
}

/// What the resolver does once the primary source has been loaded.
#[derive(Debug)]
pub enum ResolverStep {
    /// The load is over, with this result.
    Done(Result<(Config, ConfigVersion), SwitchboardError>),
    /// The primary failed with this error and the fallback is loaded next.
    TryFallback(SwitchboardError),
}

/// Decides what follows the primary source's load: its success is the
/// result; its failure is the result where there is no fallback, and leads
/// to the fallback otherwise.
pub fn after_primary_load(
    primary: Result<(Config, ConfigVersion), SwitchboardError>,
    has_fallback: bool,
) -> (r: ResolverStep)
    ensures
        primary is Ok ==> r == ResolverStep::Done(primary),
        primary matches Err(e) ==> (has_fallback ==> r == ResolverStep::TryFallback(e)) && (
        !has_fallback ==> r == ResolverStep::Done(primary)),
{
    match primary {
        Ok(x) => ResolverStep::Done(Ok(x)),
        Err(e) => if has_fallback {
            ResolverStep::TryFallback(e)
        } else {
            ResolverStep::Done(Err(e))
        },
    }
}

/// The result of a load that went to the fallback: the fallback's
/// configuration where it loaded, else the primary's error.
pub fn after_fallback_load(
    primary_error: SwitchboardError,
    fallback: Result<(Config, ConfigVersion), SwitchboardError>,
) -> (r: Result<(Config, ConfigVersion), SwitchboardError>)
    ensures
        fallback is Ok ==> r == fallback,
        fallback is Err ==> r == Err::<(Config, ConfigVersion), SwitchboardError>(primary_error),
{
    match fallback {
        Ok(x) => Ok(x),
        Err(_) => Err(primary_error),
    }
}

/// Pairs the configured sources: a database backend is the primary, with
/// the file as its fallback; a file alone is the primary; with neither there
/// is no source.
pub fn pair_sources<T>(database: Option<T>, file: Option<T>) -> (r: Result<
    (T, Option<T>),
    SwitchboardError,
>)
    ensures
        database matches Some(d) ==> r == Ok::<(T, Option<T>), SwitchboardError>((d, file)),
        database is None && file is Some ==> r == Ok::<(T, Option<T>), SwitchboardError>(
            (file->Some_0, None),
        ),
        database is None && file is None ==> r matches Err(SwitchboardError::NoConfigSource { .. }),
{
    match database {
        Some(d) => Ok((d, file)),
        None => match file {
            Some(f) => Ok((f, None)),
            None => Err(
                SwitchboardError::NoConfigSource {
                    hint: String::from_str(
                        "Provide --config <file> or a database backend flag.\\n  Run 'switchboard init' to create a config file.",
                    ),
                },
            ),
        },
    }
}

/// The format of a configuration file.
#[derive(Debug, Clone, Copy, PartialEq, Eq)]
pub enum ConfigFormat {
    Yaml,
    Json,
    Toml,
}

impl ConfigFormat {
    /// The file extension of the format.
    pub fn extension(&self) -> (r: &'static str)
        ensures
            *self == ConfigFormat::Yaml ==> r@ == "yaml"@,
            *self == ConfigFormat::Json ==> r@ == "json"@,
            *self == ConfigFormat::Toml ==> r@ == "toml"@,
    {
        match self {
            ConfigFormat::Yaml => "yaml",
            ConfigFormat::Json => "json",
            ConfigFormat::Toml => "toml",
        }
    }
}

/// The format a file extension stands for.
pub open spec fn format_of_extension(ext: Seq<char>) -> Option<ConfigFormat> {
    if ext == "yaml"@ || ext == "yml"@ {
        Some(ConfigFormat::Yaml)
    } else if ext == "json"@ {
        Some(ConfigFormat::Json)
    } else if ext == "toml"@ {
        Some(ConfigFormat::Toml)
    } else {
        None
    }
}

/// The format of a configuration file from its extension; any other
/// extension is unsupported.
pub fn format_for_extension(ext: &str) -> (r: Result<ConfigFormat, SwitchboardError>)
    ensures
        format_of_extension(ext@) matches Some(f) ==> r == Ok::<ConfigFormat, SwitchboardError>(f),
        format_of_extension(ext@) is None ==> (r matches Err(SwitchboardError::UnsupportedFormat(x))
            && x@ == ext@),
{
    if crate::text::str_eq(ext, "yaml") || crate::text::str_eq(ext, "yml") {
        Ok(ConfigFormat::Yaml)
    } else if crate::text::str_eq(ext, "json") {
        Ok(ConfigFormat::Json)
    } else if crate::text::str_eq(ext, "toml") {
        Ok(ConfigFormat::Toml)
    } else {
        Err(SwitchboardError::UnsupportedFormat(String::from_str(ext)))
    }
}

/// A configuration file: its path and its format.
#[derive(Debug, Clone)]
pub struct FileSource {
    pub path: String,
    pub name: String,
    pub format: ConfigFormat,
}

impl FileSource {
    /// A file source named after its format.
    pub fn new(path: String, format: ConfigFormat) -> (r: FileSource)
        ensures
            r.path@ == path@,
            r.format == format,
            r.name@ == format_name(format),
    {
        FileSource { path, name: String::from_str(format.extension()), format }
    }
}

/// The name of a file source of a format.
pub open spec fn format_name(f: ConfigFormat) -> Seq<char> {
    match f {
        ConfigFormat::Yaml => "yaml"@,
        ConfigFormat::Json => "json"@,
        ConfigFormat::Toml => "toml"@,
    }
}

} // verus!
