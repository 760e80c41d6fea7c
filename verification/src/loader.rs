//! Loading clips from their JSON text: version detection, extraction into
//! the typed models, validation, and the upgrade to the latest model.
//!
//! The JSON tree itself comes from `serde_json`; everything read out of it
//! is checked and converted by verified code.

use vstd::prelude::*;
use vstd::string::StringExecFns;
use crate::fixed::{round_div, spec_round_div};
use crate::model;
use crate::model::{clip_eq, clip_playable, clip_valid, Validation};
use crate::v0;
use crate::version::Version;

verus! {

/// Whether the loaded clip's revision is fully understood: `Partial` means
/// the file is newer than this implementation in minor or patch and some of
/// its features may be ignored.
#[derive(Clone, Copy, Debug, PartialEq, Eq, Structural)]
pub enum VersionSupport {
    Full,
    Partial,
}

/// A clip in whichever schema its file used.
pub enum DataModel {
    V0(v0::DataModel),
    V1(model::DataModel),
}

//
// Trusted boundary around serde_json
//

#[verifier::external_type_specification]
#[verifier::external_body]
pub struct ExValue(serde_json::Value);

/// Relies on `serde_json::from_str::<Value>`: parses JSON text into a value
/// tree, or fails on malformed JSON.
#[verifier::external_body]
fn parse_json(data: &str) -> Option<serde_json::Value> {
    serde_json::from_str::<serde_json::Value>(data).ok()
}

/// Relies on `serde_json::Value::get`: the value of a key of a JSON object.
#[verifier::external_body]
fn value_get<'a>(v: &'a serde_json::Value, key: &str) -> Option<&'a serde_json::Value> {
    v.get(key)
}

/// Relies on `serde_json::Value::as_str`: the text of a JSON string.
#[verifier::external_body]
fn value_as_str<'a>(v: &'a serde_json::Value) -> Option<&'a str> {
    v.as_str()
}

/// Relies on `serde_json::Value::as_u64`: a JSON number as an unsigned
/// integer, when it is one.
#[verifier::external_body]
fn value_as_u64(v: &serde_json::Value) -> Option<u64> {
    v.as_u64()
}

/// Relies on `serde_json::Value::as_array`: the elements of a JSON array.
#[verifier::external_body]
fn value_as_array<'a>(v: &'a serde_json::Value) -> Option<&'a Vec<serde_json::Value>> {
    v.as_array()
}

/// Relies on `serde_json::Number`'s display form: the decimal text of a JSON
/// number (digits with an optional sign, fraction and exponent).
#[verifier::external_body]
fn number_text(v: &serde_json::Value) -> Option<String> {
    match v {
        serde_json::Value::Number(n) => Some(format!("{}", n)),
        _ => None,
    }
}

//
// Decimal text to fixed-point units
//

/// Ten to the power `k`.
pub open spec fn spec_pow10(k: nat) -> int
    decreases k,
{
    if k == 0 {
        1
    } else {
        10 * spec_pow10((k - 1) as nat)
    }
}

fn pow10(k: u32) -> (r: i64)
    requires
        k <= 18,
    ensures
        r == spec_pow10(k as nat),
        1 <= r <= 1_000_000_000_000_000_000,
{
    let mut r: i64 = 1;
    let mut i: u32 = 0;
    while i < k
        invariant
            i <= k <= 18,
            r == spec_pow10(i as nat),
            1 <= r <= 1_000_000_000_000_000_000,
        decreases k - i,
    {
        proof {
            lemma_pow10_le(i as nat + 1, 18);
            assert(spec_pow10(18) == 1_000_000_000_000_000_000) by {
                reveal_with_fuel(spec_pow10, 19);
            }
        }
        r = r * 10;
        i += 1;
    }
    r
}

proof fn lemma_pow10_le(a: nat, b: nat)
    requires
        a <= b,
    ensures
        spec_pow10(a) <= spec_pow10(b),
        spec_pow10(a) >= 1,
    decreases b,
{
    if a < b && b > 0 {
        lemma_pow10_le(a, (b - 1) as nat);
    } else if a == b && b > 0 {
        lemma_pow10_le((a - 1) as nat, (b - 1) as nat);
    }
}

/// Largest magnitude, in units, that `parse_units` returns.
pub const UNITS_CAP: i64 = 100_000_000_000_000;

/// Parses a decimal number (optional sign, fraction and exponent) into
/// fixed-point units: the number multiplied by `SCALE`, rounded to the
/// nearest unit. Fails on malformed text and on magnitudes beyond what a
/// clip could ever hold.
fn parse_units(text: &str) -> (r: Option<i64>)
    ensures
        match r {
            Some(u) => -UNITS_CAP <= u <= UNITS_CAP,
            None => true,
        },
{
    let b = text.as_bytes();
    let n = b.len();
    let mut i: usize = 0;
    if n == 0 {
        return None;
    }
    let neg = b[0] == 45;
    if neg || b[0] == 43 {
        i = 1;
    }
    let mut mant: i64 = 0;
    let mut any_digit = false;
    while i < n && 48 <= b[i] && b[i] <= 57
        invariant
            i <= n,
            n == b@.len(),
            0 <= mant <= 400_000_000_000_000_000,
        decreases n - i,
    {
        if mant >= 40_000_000_000_000_000 {
            return None;
        }
        mant = mant * 10 + ((b[i] - 48) as i64);
        any_digit = true;
        i += 1;
    }
    if !any_digit {
        return None;
    }
    let mut frac_len: u32 = 0;
    if i < n && b[i] == 46 {
        i += 1;
        let mut any_frac = false;
        while i < n && 48 <= b[i] && b[i] <= 57
            invariant
                i <= n,
                n == b@.len(),
                0 <= mant <= 400_000_000_000_000_000,
                frac_len <= 15,
            decreases n - i,
        {
            if frac_len < 15 {
                if mant >= 40_000_000_000_000_000 {
                    return None;
                }
                mant = mant * 10 + ((b[i] - 48) as i64);
                frac_len = frac_len + 1;
            }
            any_frac = true;
            i += 1;
        }
        if !any_frac {
            return None;
        }
    }
    let mut exp: i64 = 0;
    let mut exp_neg = false;
    if i < n && (b[i] == 101 || b[i] == 69) {
        i += 1;
        if i < n && (b[i] == 45 || b[i] == 43) {
            exp_neg = b[i] == 45;
            i += 1;
        }
        let mut any_exp = false;
        while i < n && 48 <= b[i] && b[i] <= 57
            invariant
                i <= n,
                n == b@.len(),
                0 <= exp <= 1000,
            decreases n - i,
        {
            if exp < 100 {
                exp = exp * 10 + ((b[i] - 48) as i64);
            } else {
                return None;
            }
            any_exp = true;
            i += 1;
        }
        if !any_exp {
            return None;
        }
    }
    if i != n {
        return None;
    }
    // decimal exponent of the mantissa once scaled to units
    let d: i64 = (if exp_neg {
        -exp
    } else {
        exp
    }) - (frac_len as i64) + 5;
    let abs: i64;
    if d >= 0 {
        if d > 18 {
            if mant == 0 {
                abs = 0;
            } else {
                return None;
            }
        } else {
            let p = pow10(d as u32);
            if mant > UNITS_CAP / p {
                return None;
            }
            proof {
                assert(mant * p <= (UNITS_CAP as int / p as int) * p) by (nonlinear_arith)
                    requires p >= 1 && mant <= UNITS_CAP as int / p as int && mant >= 0;
                assert((UNITS_CAP as int / p as int) * p <= UNITS_CAP) by (nonlinear_arith)
                    requires p >= 1 && UNITS_CAP == 100_000_000_000_000;
                assert(mant * p >= 0) by (nonlinear_arith)
                    requires mant >= 0 && p >= 1;
            }
            abs = mant * p;
        }
    } else {
        if d < -18 {
            abs = 0;
        } else {
            let p = pow10((-d) as u32);
            let q = round_div(mant, p);
            proof {
                assert(mant as int <= mant as int * p as int) by (nonlinear_arith)
                    requires p >= 1 && mant >= 0;
                crate::fixed::lemma_round_div_range(mant as int, p as int, mant as int);
            }
            if q > UNITS_CAP {
                return None;
            }
            abs = q;
        }
    }
    if neg {
        Some(-abs)
    } else {
        Some(abs)
    }
}


/// Relies on `serde_json::Value::is_null`: whether a value is JSON null.
#[verifier::external_body]
fn value_is_null(v: &serde_json::Value) -> bool {
    v.is_null()
}

/// Joins two pieces of text.
fn join_text(a: &str, b: &str) -> (r: String)
    ensures
        r@ == a@ + b@,
{
    let mut r = String::from_str(a);
    r.append(b);
    r
}

//
// Extraction from the JSON tree
//

/// A numeric field of an object, in fixed-point units.
fn units_field(v: &serde_json::Value, key: &str) -> (r: Option<i64>)
    ensures
        match r {
            Some(u) => -UNITS_CAP <= u <= UNITS_CAP,
            None => true,
        },
{
    match value_get(v, key) {
        Some(f) => match number_text(f) {
            Some(t) => parse_units(t.as_str()),
            None => None,
        },
        None => None,
    }
}

/// A string field of an object, or empty text when it is absent.
fn str_field_or_empty(v: &serde_json::Value, key: &str) -> String {
    match value_get(v, key) {
        Some(f) => match value_as_str(f) {
            Some(s) => s.to_owned(),
            None => String::new(),
        },
        None => String::new(),
    }
}

/// The version object's fields; minor and patch default to zero when only
/// the major part is given.
fn extract_version(v: &serde_json::Value) -> (r: Option<Version>) {
    let major: u32 = match value_get(v, "major") {
        Some(f) => match value_as_u64(f) {
            Some(u) => if u <= 0xffff_ffff {
                u as u32
            } else {
                return None;
            },
            None => {
                return None;
            },
        },
        None => {
            return None;
        },
    };
    let minor: u32 = match value_get(v, "minor") {
        Some(f) => match value_as_u64(f) {
            Some(u) => if u <= 0xffff_ffff {
                u as u32
            } else {
                return None;
            },
            None => {
                return None;
            },
        },
        None => Version::default_minor_patch(),
    };
    let patch: u32 = match value_get(v, "patch") {
        Some(f) => match value_as_u64(f) {
            Some(u) => if u <= 0xffff_ffff {
                u as u32
            } else {
                return None;
            },
            None => {
                return None;
            },
        },
        None => Version::default_minor_patch(),
    };
    Some(Version { major, minor, patch })
}

impl Version {
    /// The version named in a clip's JSON text, or the legacy default when
    /// none can be read.
    pub fn from_json(data: &str) -> Version {
        match parse_json(data) {
            Some(root) => match value_get(&root, "version") {
                Some(vv) => match extract_version(vv) {
                    Some(v) => v,
                    None => Version::default(),
                },
                None => Version::default(),
            },
            None => Version::default(),
        }
    }
}

/// The amplitude breakpoints of the current schema.
fn extract_amp_array(v: &serde_json::Value) -> Result<Vec<model::AmplitudeBreakpoint>, String> {
    let arr = match value_as_array(v) {
        Some(a) => a,
        None => {
            return Err("Error deserializing V1: invalid field `amplitude`".to_string());
        },
    };
    let mut out: Vec<model::AmplitudeBreakpoint> = Vec::new();
    let mut i: usize = 0;
    while i < arr.len()
        decreases arr@.len() - i,
    {
        let e = &arr[i];
        let time = match units_field(e, "time") {
            Some(t) => t,
            None => {
                return Err("Error deserializing V1: missing field `time`".to_string());
            },
        };
        let amplitude = match units_field(e, "amplitude") {
            Some(a) => a,
            None => {
                return Err("Error deserializing V1: missing field `amplitude`".to_string());
            },
        };
        let emphasis: Option<model::Emphasis> = match value_get(e, "emphasis") {
            None => None,
            Some(ev) => {
                if value_is_null(ev) {
                    None
                } else {
                    let ea = match units_field(ev, "amplitude") {
                        Some(a) => a,
                        None => {
                            return Err(
                                "Error deserializing V1: missing field `amplitude` of `emphasis`".to_string(),
                            );
                        },
                    };
                    let ef = match units_field(ev, "frequency") {
                        Some(f) => f,
                        None => {
                            return Err(
                                "Error deserializing V1: missing field `frequency` of `emphasis`".to_string(),
                            );
                        },
                    };
                    Some(model::Emphasis { amplitude: ea, frequency: ef })
                }
            },
        };
        out.push(model::AmplitudeBreakpoint { time, amplitude, emphasis });
        i += 1;
    }
    Ok(out)
}

/// The frequency breakpoints of the current schema.
fn extract_freq_array(v: &serde_json::Value) -> Result<Vec<model::FrequencyBreakpoint>, String> {
    let arr = match value_as_array(v) {
        Some(a) => a,
        None => {
            return Err("Error deserializing V1: invalid field `frequency`".to_string());
        },
    };
    let mut out: Vec<model::FrequencyBreakpoint> = Vec::new();
    let mut i: usize = 0;
    while i < arr.len()
        decreases arr@.len() - i,
    {
        let e = &arr[i];
        let time = match units_field(e, "time") {
            Some(t) => t,
            None => {
                return Err("Error deserializing V1: missing field `time`".to_string());
            },
        };
        let frequency = match units_field(e, "frequency") {
            Some(f) => f,
            None => {
                return Err("Error deserializing V1: missing field `frequency`".to_string());
            },
        };
        out.push(model::FrequencyBreakpoint { time, frequency });
        i += 1;
    }
    Ok(out)
}

/// The descriptive fields of the current schema; each is optional.
fn extract_metadata_v1(v: &serde_json::Value) -> Result<model::MetaData, String> {
    let mut tags: Vec<String> = Vec::new();
    match value_get(v, "tags") {
        None => {},
        Some(tv) => {
            match value_as_array(tv) {
                None => {
                    return Err("Error deserializing V1: invalid field `tags`".to_string());
                },
                Some(arr) => {
                    let mut i: usize = 0;
                    while i < arr.len()
                        decreases arr@.len() - i,
                    {
                        match value_as_str(&arr[i]) {
                            Some(s) => tags.push(s.to_owned()),
                            None => {
                                return Err(
                                    "Error deserializing V1: invalid field `tags`".to_string(),
                                );
                            },
                        }
                        i += 1;
                    }
                },
            }
        },
    }
    Ok(model::MetaData {
        editor: str_field_or_empty(v, "editor"),
        author: str_field_or_empty(v, "author"),
        source: str_field_or_empty(v, "source"),
        project: str_field_or_empty(v, "project"),
        tags,
        description: str_field_or_empty(v, "description"),
    })
}

/// A whole clip in the current schema, before validation.
fn extract_v1(root: &serde_json::Value) -> Result<model::DataModel, String> {
    let version = match value_get(root, "version") {
        Some(vv) => match extract_version(vv) {
            Some(v) => v,
            None => {
                return Err("Error deserializing V1: invalid field `version`".to_string());
            },
        },
        None => {
            return Err("Error deserializing V1: missing field `version`".to_string());
        },
    };
    let metadata = match value_get(root, "metadata") {
        Some(m) => match extract_metadata_v1(m) {
            Ok(md) => md,
            Err(e) => {
                return Err(e);
            },
        },
        None => model::MetaData::empty(),
    };
    let signals_v = match value_get(root, "signals") {
        Some(s) => s,
        None => {
            return Err("Error deserializing V1: missing field `signals`".to_string());
        },
    };
    let continuous_v = match value_get(signals_v, "continuous") {
        Some(s) => s,
        None => {
            return Err("Error deserializing V1: missing field `continuous`".to_string());
        },
    };
    let envelopes_v = match value_get(continuous_v, "envelopes") {
        Some(s) => s,
        None => {
            return Err("Error deserializing V1: missing field `envelopes`".to_string());
        },
    };
    let amplitude_v = match value_get(envelopes_v, "amplitude") {
        Some(s) => s,
        None => {
            return Err("Error deserializing V1: missing field `amplitude`".to_string());
        },
    };
    let amplitude = match extract_amp_array(amplitude_v) {
        Ok(a) => a,
        Err(e) => {
            return Err(e);
        },
    };
    let frequency: Option<Vec<model::FrequencyBreakpoint>> = match value_get(
        envelopes_v,
        "frequency",
    ) {
        None => None,
        Some(fv) => {
            if value_is_null(fv) {
                None
            } else {
                match extract_freq_array(fv) {
                    Ok(f) => Some(f),
                    Err(e) => {
                        return Err(e);
                    },
                }
            }
        },
    };
    Ok(model::DataModel {
        version,
        metadata,
        signals: model::Signals {
            continuous: model::SignalContinuous {
                envelopes: model::Envelopes { amplitude, frequency },
            },
        },
    })
}

/// One legacy envelope: an array of `{ time, amplitude }` objects.
fn extract_v0_envelope(v: &serde_json::Value) -> Result<v0::Envelope, String> {
    let arr = match value_as_array(v) {
        Some(a) => a,
        None => {
            return Err("Error deserializing V0: invalid envelope".to_string());
        },
    };
    let mut out: v0::Envelope = Vec::new();
    let mut i: usize = 0;
    while i < arr.len()
        decreases arr@.len() - i,
    {
        let e = &arr[i];
        let time = match units_field(e, "time") {
            Some(t) => t,
            None => {
                return Err("Error deserializing V0: missing field `time`".to_string());
            },
        };
        let amplitude = match units_field(e, "amplitude") {
            Some(a) => a,
            None => {
                return Err("Error deserializing V0: missing field `amplitude`".to_string());
            },
        };
        out.push(v0::Breakpoint { time, amplitude });
        i += 1;
    }
    Ok(out)
}

/// A list of legacy envelopes.
fn extract_v0_envelopes(v: &serde_json::Value) -> Result<Vec<v0::Envelope>, String> {
    let arr = match value_as_array(v) {
        Some(a) => a,
        None => {
            return Err("Error deserializing V0: invalid envelope list".to_string());
        },
    };
    let mut out: Vec<v0::Envelope> = Vec::new();
    let mut i: usize = 0;
    while i < arr.len()
        decreases arr@.len() - i,
    {
        match extract_v0_envelope(&arr[i]) {
            Ok(env) => out.push(env),
            Err(e) => {
                return Err(e);
            },
        }
        i += 1;
    }
    Ok(out)
}

/// A whole clip in the legacy schema, before validation.
fn extract_v0(root: &serde_json::Value) -> Result<v0::DataModel, String> {
    let version = match value_get(root, "version") {
        Some(vv) => match extract_version(vv) {
            Some(v) => v,
            None => {
                return Err("Error deserializing V0: invalid field `version`".to_string());
            },
        },
        None => Version::default(),
    };
    let metadata = match value_get(root, "metadata") {
        None => v0::MetaData { editor: String::new(), duration: 0 },
        Some(m) => {
            let editor = match value_get(m, "editor") {
                Some(f) => match value_as_str(f) {
                    Some(s) => s.to_owned(),
                    None => {
                        return Err("Error deserializing V0: invalid field `editor`".to_string());
                    },
                },
                None => {
                    return Err("Error deserializing V0: missing field `editor`".to_string());
                },
            };
            let duration = match units_field(m, "duration") {
                Some(d) => d,
                None => {
                    return Err("Error deserializing V0: missing field `duration`".to_string());
                },
            };
            v0::MetaData { editor, duration }
        },
    };
    let voices_v = match value_get(root, "voices") {
        Some(s) => s,
        None => {
            return Err("Error deserializing V0: missing field `voices`".to_string());
        },
    };
    let envelopes_v = match value_get(voices_v, "envelopes") {
        Some(s) => s,
        None => {
            return Err("Error deserializing V0: missing field `envelopes`".to_string());
        },
    };
    let envelopes = match extract_v0_envelopes(envelopes_v) {
        Ok(a) => a,
        Err(e) => {
            return Err(e);
        },
    };
    let transients_v = match value_get(voices_v, "transients") {
        Some(s) => s,
        None => {
            return Err("Error deserializing V0: missing field `transients`".to_string());
        },
    };
    let transients = match extract_v0_envelopes(transients_v) {
        Ok(a) => a,
        Err(e) => {
            return Err(e);
        },
    };
    Ok(v0::DataModel { version, metadata, voices: v0::Voices { envelopes, transients } })
}

//
// The public loading operations
//

/// Reads clip JSON text and returns the deserialized, validated model in
/// whichever schema the file used. Rejects unsupported major versions.
pub fn from_json(data: &str) -> (r: Result<DataModel, String>)
    ensures
        match r {
            Ok(DataModel::V1(c)) => clip_valid(c),
            Ok(DataModel::V0(d)) => v0::v0_valid(d),
            Err(_) => true,
        },
{
    let version = Version::from_json(data);
    if version.major == 1 {
        let root = match parse_json(data) {
            Some(root) => root,
            None => {
                return Err("Error deserializing V1: malformed JSON".to_string());
            },
        };
        match extract_v1(&root) {
            Ok(dm) => match dm.validated() {
                Ok(validated) => Ok(DataModel::V1(validated)),
                Err(e) => Err(join_text("Error validating V1: ", e.as_str())),
            },
            Err(e) => Err(e),
        }
    } else if version.major == 0 {
        let root = match parse_json(data) {
            Some(root) => root,
            None => {
                return Err("Error deserializing V0: malformed JSON".to_string());
            },
        };
        match extract_v0(&root) {
            Ok(dm) => match dm.validated() {
                Ok(validated) => Ok(DataModel::V0(validated)),
                Err(e) => Err(join_text("Error validating V0: ", e.as_str())),
            },
            Err(e) => Err(e),
        }
    } else {
        Err("Unsupported version".to_string())
    }
}

/// Upgrades clip data to the latest model. Legacy clips are converted; a
/// current clip whose minor or patch revision is newer than this
/// implementation is passed through with `Partial` support.
pub fn upgrade_to_latest(data: &DataModel) -> (r: Result<(VersionSupport, model::DataModel),
    String>)
    requires
        match data {
            DataModel::V0(d) => v0::v0_upgradable(*d),
            DataModel::V1(c) => true,
        },
    ensures
        r is Ok,
        match r {
            Ok((vs, c)) => match data {
                DataModel::V0(d) => {
                    &&& vs == VersionSupport::Full
                    &&& v0::upgrade_shape(*d, c)
                },
                DataModel::V1(v1c) => {
                    &&& clip_eq(c, model::DataModel {
                        version: c.version,
                        metadata: v1c.metadata,
                        signals: v1c.signals,
                    })
                    &&& vs == (if crate::version::spec_version_cmp(
                        v1c.version,
                        model::spec_current_version(),
                    ) is Greater {
                        VersionSupport::Partial
                    } else {
                        VersionSupport::Full
                    })
                    &&& c.version == (if crate::version::spec_version_cmp(
                        v1c.version,
                        model::spec_current_version(),
                    ) is Less {
                        model::spec_current_version()
                    } else {
                        v1c.version
                    })
                },
            },
            Err(_) => true,
        },
{
    match data {
        DataModel::V0(v0_data) => {
            let dup = v0_data.duplicate();
            let ghost gdup = dup;
            let upgraded = dup.upgrade();
            proof {
                assert(gdup.voices.envelopes@[0]@ == v0_data.voices.envelopes@[0]@);
                if v0_data.voices.envelopes@.len() == 2 {
                    assert(gdup.voices.envelopes@[1]@ == v0_data.voices.envelopes@[1]@);
                }
                if v0_data.voices.transients@.len() == 2 {
                    assert(gdup.voices.transients@[0]@ == v0_data.voices.transients@[0]@);
                    assert(gdup.voices.transients@[1]@ == v0_data.voices.transients@[1]@);
                }
                assert(v0::upgrade_shape(*v0_data, upgraded));
            }
            Ok((VersionSupport::Full, upgraded))
        },
        DataModel::V1(v1) => {
            let current = model::current_version();
            match v1.version.partial_cmp(&current) {
                Some(core::cmp::Ordering::Less) => {
                    let mut latest = v1.duplicate();
                    latest.version = current;
                    Ok((VersionSupport::Full, latest))
                },
                Some(core::cmp::Ordering::Equal) => Ok((VersionSupport::Full, v1.duplicate())),
                _ => Ok((VersionSupport::Partial, v1.duplicate())),
            }
        },
    }
}

/// Loads clip JSON text and upgrades it to the latest model: the operation
/// behind the controller's `load`. On success the clip is playable by every
/// backend.
pub fn latest_from_json(data: &str) -> (r: Result<(VersionSupport, model::DataModel), String>)
    ensures
        match r {
            Ok((vs, c)) => clip_playable(c),
            Err(_) => true,
        },
{
    let dm = match from_json(data) {
        Ok(dm) => dm,
        Err(e) => {
            return Err(e);
        },
    };
    proof {
        match &dm {
            DataModel::V0(d) => {
                v0::lemma_valid_upgradable(*d);
            },
            DataModel::V1(_) => {},
        }
    }
    upgrade_to_latest(&dm)
}

} // verus!
