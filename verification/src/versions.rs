//! Format eras and their decoding rules.
//!
//! A header's declared version is classified into a closed, ordered set of
//! eras.  Each era's rule set is built by applying that era's named
//! overrides onto its predecessor's resolved rules, mirroring how the
//! format evolved by small additive changes.

use vstd::prelude::*;

use crate::error::DecodeError;

verus! {

/// The closed, ordered enumeration of format eras, earliest first.  Each
/// era has exactly one designated predecessor; the earliest is its own
/// base case.
#[derive(Clone, Copy, Debug, PartialEq, Eq, Structural)]
pub enum RuntimeVersion {
    V013,
    V014,
    V01414,
    V015,
    V016,
    V017,
}

/// The position of an era in release order: later eras are higher.
pub open spec fn era_index(e: RuntimeVersion) -> int {
    match e {
        RuntimeVersion::V013 => 0,
        RuntimeVersion::V014 => 1,
        RuntimeVersion::V01414 => 2,
        RuntimeVersion::V015 => 3,
        RuntimeVersion::V016 => 4,
        RuntimeVersion::V017 => 5,
    }
}

/// The era that a declared version's first three components fall in,
/// evaluated as an ordered table, first match first: every major version
/// from 1 on is the latest era, and an unmatched triple is an unsupported
/// version, never a crash.
pub open spec fn spec_classify(major: u16, minor: u16, patch: u16) -> Result<
    RuntimeVersion,
    DecodeError,
> {
    if major >= 1 {
        Ok(RuntimeVersion::V017)
    } else if minor == 18 {
        Ok(RuntimeVersion::V017)
    } else if minor == 17 {
        Ok(RuntimeVersion::V017)
    } else if minor == 16 {
        Ok(RuntimeVersion::V016)
    } else if minor == 15 {
        Ok(RuntimeVersion::V015)
    } else if minor == 14 && patch >= 14 {
        Ok(RuntimeVersion::V01414)
    } else if minor == 14 {
        Ok(RuntimeVersion::V014)
    } else if minor == 13 {
        Ok(RuntimeVersion::V013)
    } else {
        Err(DecodeError::UnsupportedVersion)
    }
}

impl RuntimeVersion {
    /// Classify a (major, minor, patch) triple into its era.
    pub fn parse_version(version: &[u16; 3]) -> (r: Result<RuntimeVersion, DecodeError>)
        ensures
            r == spec_classify(version[0], version[1], version[2]),
    {
        let major = version[0];
        let minor = version[1];
        let patch = version[2];
        if major >= 1 {
            Ok(RuntimeVersion::V017)
        } else if minor == 18 || minor == 17 {
            Ok(RuntimeVersion::V017)
        } else if minor == 16 {
            Ok(RuntimeVersion::V016)
        } else if minor == 15 {
            Ok(RuntimeVersion::V015)
        } else if minor == 14 {
            if patch >= 14 {
                Ok(RuntimeVersion::V01414)
            } else {
                Ok(RuntimeVersion::V014)
            }
        } else if minor == 13 {
            Ok(RuntimeVersion::V013)
        } else {
            Err(DecodeError::UnsupportedVersion)
        }
    }
}

/// The decoding rules bound for one era.  Each flag selects between the
/// base behaviour of the earliest era and the overriding behaviour that a
/// later era introduced.
#[derive(Clone, Copy, Debug, PartialEq, Eq, Structural)]
pub struct EraRules {
    /// General string and array length prefixes use the optimized encoding.
    pub string_optimized: bool,
    /// The quality-version byte is present.
    pub quality_version: bool,
    /// The allow-non-admin-debug-options byte is present.
    pub debug_options: bool,
    /// Each mod record carries a 32-bit checksum.
    pub mod_crc: bool,
    /// Mod-name length prefixes use the optimized encoding.  This is a
    /// distinct override point from the general string rule: mod names
    /// adopted the optimized encoding in an earlier era than general
    /// strings did.
    pub mod_name_optimized: bool,
    /// Version triples are optimized 16-bit components instead of fixed.
    pub triple_optimized: bool,
    /// The loaded-from build number is an optimized 32-bit integer instead
    /// of a fixed 16-bit one.
    pub build_optimized: bool,
    /// The large-blueprint-size field is present.
    pub large_blueprint: bool,
}

/// The designated predecessor of each era; the earliest is its own.
pub open spec fn spec_predecessor(e: RuntimeVersion) -> RuntimeVersion {
    match e {
        RuntimeVersion::V013 => RuntimeVersion::V013,
        RuntimeVersion::V014 => RuntimeVersion::V013,
        RuntimeVersion::V01414 => RuntimeVersion::V014,
        RuntimeVersion::V015 => RuntimeVersion::V01414,
        RuntimeVersion::V016 => RuntimeVersion::V015,
        RuntimeVersion::V017 => RuntimeVersion::V016,
    }
}

/// The resolved rules of an era: the earliest era's concrete rules with
/// each later era's overrides applied in order up to `e`.
pub open spec fn spec_rules(e: RuntimeVersion) -> EraRules
    decreases era_index(e),
{
    match e {
        RuntimeVersion::V013 => EraRules {
            string_optimized: false,
            quality_version: false,
            debug_options: false,
            mod_crc: false,
            mod_name_optimized: false,
            triple_optimized: false,
            build_optimized: false,
            large_blueprint: false,
        },
        RuntimeVersion::V014 => spec_rules(spec_predecessor(e)),
        RuntimeVersion::V01414 => EraRules {
            mod_name_optimized: true,
            triple_optimized: true,
            ..spec_rules(spec_predecessor(e))
        },
        RuntimeVersion::V015 => EraRules { mod_crc: true, ..spec_rules(spec_predecessor(e)) },
        RuntimeVersion::V016 => EraRules {
            string_optimized: true,
            debug_options: true,
            ..spec_rules(spec_predecessor(e))
        },
        RuntimeVersion::V017 => EraRules {
            quality_version: true,
            build_optimized: true,
            ..spec_rules(spec_predecessor(e))
        },
    }
}

/// Resolve an era's rules by applying its overrides onto its
/// predecessor's resolved rules.
pub fn rules_for(era: RuntimeVersion) -> (r: EraRules)
    ensures
        r == spec_rules(era),
    decreases era_index(era),
{
    match era {
        RuntimeVersion::V013 => EraRules {
            string_optimized: false,
            quality_version: false,
            debug_options: false,
            mod_crc: false,
            mod_name_optimized: false,
            triple_optimized: false,
            build_optimized: false,
            large_blueprint: false,
        },
        RuntimeVersion::V014 => rules_for(RuntimeVersion::V013),
        RuntimeVersion::V01414 => {
            let prev = rules_for(RuntimeVersion::V014);
            EraRules { mod_name_optimized: true, triple_optimized: true, ..prev }
        },
        RuntimeVersion::V015 => {
            let prev = rules_for(RuntimeVersion::V01414);
            EraRules { mod_crc: true, ..prev }
        },
        RuntimeVersion::V016 => {
            let prev = rules_for(RuntimeVersion::V015);
            EraRules { string_optimized: true, debug_options: true, ..prev }
        },
        RuntimeVersion::V017 => {
            let prev = rules_for(RuntimeVersion::V016);
            EraRules { quality_version: true, build_optimized: true, ..prev }
        },
    }
}

/// The rules bound for one whole decode: the era's resolved rules, with
/// the large-blueprint-size field enabled on the major 2 extension of the
/// latest era.
pub open spec fn spec_bound_rules(e: RuntimeVersion, major: u16) -> EraRules {
    if major >= 2 {
        EraRules { large_blueprint: true, ..spec_rules(e) }
    } else {
        spec_rules(e)
    }
}

/// Bind the rules for one whole decode of a header declaring `major`.
pub fn bound_rules(era: RuntimeVersion, major: u16) -> (r: EraRules)
    ensures
        r == spec_bound_rules(era, major),
{
    let base = rules_for(era);
    if major >= 2 {
        EraRules { large_blueprint: true, ..base }
    } else {
        base
    }
}

/// Law: every version with major at least 1, and the 0.17 and 0.18 lines,
/// classifies to the latest era; and classification fails, with the
/// unsupported-version error, exactly on major 0 with a minor outside 13
/// through 18.
pub proof fn lemma_latest_era_versions(major: u16, minor: u16, patch: u16)
    ensures
        (major >= 1 || (major == 0 && (minor == 17 || minor == 18))) ==> spec_classify(
            major,
            minor,
            patch,
        ) == Ok::<RuntimeVersion, DecodeError>(RuntimeVersion::V017),
        spec_classify(major, minor, patch) is Err <==> (major == 0 && !(13 <= minor <= 18)),
        spec_classify(major, minor, patch) is Err ==> spec_classify(major, minor, patch) == Err::<
            RuntimeVersion,
            DecodeError,
        >(DecodeError::UnsupportedVersion),
{
}

/// Law: era classification is a pure function of the three leading
/// version components: equal triples always classify to the same era.
pub proof fn lemma_classify_pure(a: (u16, u16, u16), b: (u16, u16, u16))
    requires
        a == b,
    ensures
        spec_classify(a.0, a.1, a.2) == spec_classify(b.0, b.1, b.2),
{
}

} // verus!
