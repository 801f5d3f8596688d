//! Canonical persisted schema: what loading one file can come to, and
//! why a file could not be recognized. Parsing the JSON is the caller's
//! part; routing what was found is this module's.

use vstd::prelude::*;

use crate::text::push_str;

pub mod session;
pub mod settings;

verus! {

/// The outcome of loading one persisted file; every case needs different
/// handling by the caller.
#[derive(Debug, Clone, PartialEq)]
pub enum PersistenceLoad<T> {
    /// No file existed yet; the caller supplies defaults.
    Missing { defaults: T },
    /// A current envelope, loaded and validated.
    Current { value: T },
    /// The legacy plain-JSON file was migrated; a backup of the source must
    /// still be written.
    MigratedLegacy { value: T, source_backup_required: bool },
    /// The schema matched but its version is newer than this build knows;
    /// the original bytes must be preserved.
    FutureVersion { schema: String, version: u32 },
    /// Not any known shape; the original bytes must be preserved.
    Corrupt { detail: PersistenceError },
}

/// Why a persisted file could not be loaded as any recognized shape.
#[derive(Debug, Clone, PartialEq, Eq)]
pub enum PersistenceError {
    /// Not valid JSON, or not a JSON object at the top level.
    MalformedJson,
    /// A `schema_name` is present but names another schema.
    SchemaNameMismatch { found: String },
    /// No `schema_name`, and not exactly the legacy shape.
    UnrecognizedLegacyShape,
    /// `schema_version` missing, not a number, or not a version this build
    /// reads.
    MalformedVersion,
    /// `payload` missing or not the shape its version implies.
    MalformedPayload,
    /// The file exists but could not be read.
    Io(String),
}

/// The message of each error.
pub open spec fn persistence_message(e: PersistenceError) -> Seq<char> {
    match e {
        PersistenceError::MalformedJson => "not valid JSON"@,
        PersistenceError::SchemaNameMismatch { found } => "unexpected schema name: "@ + found@,
        PersistenceError::UnrecognizedLegacyShape => "no schema_name, and does not match the legacy JSON shape"@,
        PersistenceError::MalformedVersion => "missing or invalid schema_version"@,
        PersistenceError::MalformedPayload => "payload does not match its declared schema"@,
        PersistenceError::Io(m) => "could not read file: "@ + m@,
    }
}

impl PersistenceError {
    /// The human-readable message.
    pub fn message(&self) -> (s: String)
        ensures
            s@ == persistence_message(*self),
    {
        match self {
            PersistenceError::MalformedJson => String::from_str("not valid JSON"),
            PersistenceError::SchemaNameMismatch { found } => {
                let mut s = String::from_str("unexpected schema name: ");
                push_str(&mut s, found.as_str());
                s
            },
            PersistenceError::UnrecognizedLegacyShape => String::from_str("no schema_name, and does not match the legacy JSON shape"),
            PersistenceError::MalformedVersion => String::from_str("missing or invalid schema_version"),
            PersistenceError::MalformedPayload => String::from_str("payload does not match its declared schema"),
            PersistenceError::Io(m) => {
                let mut s = String::from_str("could not read file: ");
                push_str(&mut s, m.as_str());
                s
            },
        }
    }
}

/// What the `schema_name` field of a top-level object held.
#[derive(Debug, Clone, PartialEq, Eq)]
pub enum NameField {
    /// No `schema_name` field.
    Absent,
    /// Present but not a string.
    NotString,
    /// A string.
    Text(String),
}

/// What was found in a raw persisted file before any typed decoding: the
/// facts the routing decision reads.
#[derive(Debug, Clone, PartialEq, Eq)]
pub struct EnvelopeProbe {
    /// The text parsed as JSON and its top level is an object.
    pub is_object: bool,
    /// The `schema_name` field.
    pub schema_name: NameField,
    /// The `schema_version` field, when it is an unsigned integer.
    pub schema_version: Option<u64>,
    /// Whether a `payload` field is present.
    pub has_payload: bool,
}

/// Which typed decoding the routing needs next.
#[derive(Debug, Clone, Copy, PartialEq, Eq, Structural)]
pub enum RouteStep {
    /// Decode the whole object as the legacy shape.
    DecodeLegacy,
    /// Decode the payload as the current version.
    DecodeCurrent,
}

/// The routing of an envelope probe for a schema with name `name` and
/// current version `current`: either a final (payload-free) outcome or the
/// decoding step to take.
pub open spec fn route_spec(p: EnvelopeProbe, name: Seq<char>, current: u32) -> Result<RouteStep, (Option<(Seq<char>, u32)>, Option<PersistenceError>)> {
    if !p.is_object {
        Err((None, Some(PersistenceError::MalformedJson)))
    } else {
        match p.schema_name {
            NameField::Absent => Ok(RouteStep::DecodeLegacy),
            NameField::NotString => Err((None, Some(PersistenceError::MalformedJson))),
            NameField::Text(n) => if n@ != name {
                Err((None, Some(PersistenceError::SchemaNameMismatch { found: n })))
            } else {
                match p.schema_version {
                    None => Err((None, Some(PersistenceError::MalformedVersion))),
                    Some(v) => if (v as u32) > current {
                        Err((Some((n@, v as u32)), None))
                    } else if !p.has_payload {
                        Err((None, Some(PersistenceError::MalformedPayload)))
                    } else if (v as u32) == current {
                        Ok(RouteStep::DecodeCurrent)
                    } else {
                        Err((None, Some(PersistenceError::MalformedVersion)))
                    },
                }
            },
        }
    }
}

/// Route an envelope: `Ok` with the decoding step to take, or `Err` with
/// the final outcome (the payload-free cases of `PersistenceLoad`). The
/// version is read as the low 32 bits of the stored number.
pub fn route_envelope<T>(p: &EnvelopeProbe, name: &str, current: u32) -> (r: Result<RouteStep, PersistenceLoad<T>>)
    ensures
        match route_spec(*p, name@, current) {
            Ok(step) => r == Ok::<RouteStep, PersistenceLoad<T>>(step),
            Err((Some((n, v)), _)) => r matches Err(PersistenceLoad::FutureVersion { schema, version }) && schema@ == n && version == v,
            Err((None, Some(e))) => r matches Err(PersistenceLoad::Corrupt { detail }) && detail == e,
            Err((None, None)) => false,
        },
{
    if !p.is_object {
        return Err(PersistenceLoad::Corrupt { detail: PersistenceError::MalformedJson });
    }
    let n = match &p.schema_name {
        NameField::Absent => return Ok(RouteStep::DecodeLegacy),
        NameField::NotString => return Err(PersistenceLoad::Corrupt { detail: PersistenceError::MalformedJson }),
        NameField::Text(n) => n,
    };
    if !crate::text::str_equal(n.as_str(), name) {
        return Err(PersistenceLoad::Corrupt { detail: PersistenceError::SchemaNameMismatch { found: n.clone() } });
    }
    let v = match p.schema_version {
        Some(v) => v,
        None => return Err(PersistenceLoad::Corrupt { detail: PersistenceError::MalformedVersion }),
    };
    let version = v as u32;
    if version > current {
        return Err(PersistenceLoad::FutureVersion { schema: n.clone(), version });
    }
    if !p.has_payload {
        return Err(PersistenceLoad::Corrupt { detail: PersistenceError::MalformedPayload });
    }
    if version == current {
        Ok(RouteStep::DecodeCurrent)
    } else {
        Err(PersistenceLoad::Corrupt { detail: PersistenceError::MalformedVersion })
    }
}

/// What a raw persisted text shows of its envelope, as `serde_json` parses
/// it: whether it is a JSON object, its `schema_name`, its
/// `schema_version` as an unsigned integer and whether it has a `payload`.
pub uninterp spec fn json_envelope(raw: Seq<char>) -> EnvelopeProbe;

/// Probe a raw persisted text for its envelope.
///
/// Trusted: wraps `serde_json::from_str` into a `serde_json::Value` (text
/// that does not parse is taken as `null`, which is not an object) and
/// reads the three envelope fields of the top-level object with
/// `Map::get`, `Value::as_str` and `Value::as_u64`. The contract only names
/// the result, a function of the text alone.
#[verifier::external_body]
pub fn probe_envelope(raw: &str) -> (p: EnvelopeProbe)
    ensures
        p == json_envelope(raw@),
{
    let v: serde_json::Value = serde_json::from_str(raw).unwrap_or_default();
    let o = v.as_object();
    EnvelopeProbe {
        is_object: o.is_some(),
        schema_name: match o.and_then(|o| o.get("schema_name")) {
            None => NameField::Absent,
            Some(n) => n.as_str().map_or(NameField::NotString, |t| NameField::Text(t.to_string())),
        },
        schema_version: o.and_then(|o| o.get("schema_version")).and_then(|n| n.as_u64()),
        has_payload: o.and_then(|o| o.get("payload")).is_some(),
    }
}

/// The payload-free outcome of a route: a future version is preserved
/// with its schema name and version, anything else unknown is corrupt with
/// the route's detail. A route to a decoding step leaves the outcome to
/// that step.
pub open spec fn route_outcome_ok<T>(
    route: Result<RouteStep, (Option<(Seq<char>, u32)>, Option<PersistenceError>)>,
    r: PersistenceLoad<T>,
) -> bool {
    match route {
        Ok(_) => true,
        Err((Some((n, v)), _)) => r matches PersistenceLoad::FutureVersion { schema, version } && schema@ == n && version == v,
        Err((None, Some(e))) => r == (PersistenceLoad::<T>::Corrupt { detail: e }),
        Err((None, None)) => false,
    }
}

} // verus!
