//! How strictly tools are isolated when they run.
use vstd::prelude::*;
use crate::text::{all_ascii, ascii_lower, chars_of, spec_to_lowercase, str_eq, string_of, to_lowercase};

verus! {

/// Isolation level for tool runs.
#[derive(Debug, Clone, Copy, PartialEq, Eq, Structural)]
pub enum SandboxProfile {
    Strong,
    Moderate,
    Off,
}

/// The profile that a lowercase name selects: `moderate`, `off`, and
/// `strong` for anything else.
pub open spec fn profile_of_lower(lower: Seq<char>) -> SandboxProfile {
    if lower == "moderate"@ {
        SandboxProfile::Moderate
    } else if lower == "off"@ {
        SandboxProfile::Off
    } else {
        SandboxProfile::Strong
    }
}

/// The name of a profile.
pub open spec fn profile_name(p: SandboxProfile) -> Seq<char> {
    match p {
        SandboxProfile::Strong => "strong"@,
        SandboxProfile::Moderate => "moderate"@,
        SandboxProfile::Off => "off"@,
    }
}

impl SandboxProfile {
    /// The profile named by `s`, compared case-insensitively; unknown names
    /// select `Strong`.
    pub fn from_str(s: &str) -> (p: SandboxProfile)
        ensures
            p == profile_of_lower(spec_to_lowercase(s@)),
            all_ascii(s@) ==> p == profile_of_lower(ascii_lower(s@)),
    {
        let chars = chars_of(s);
        let lower = to_lowercase(&chars);
        let l = string_of(&lower);
        if str_eq(l.as_str(), "moderate") {
            SandboxProfile::Moderate
        } else if str_eq(l.as_str(), "off") {
            SandboxProfile::Off
        } else {
            SandboxProfile::Strong
        }
    }

    /// The name of this profile.
    pub fn as_str(&self) -> (r: &'static str)
        ensures
            r@ == profile_name(*self),
    {
        match self {
            SandboxProfile::Strong => "strong",
            SandboxProfile::Moderate => "moderate",
            SandboxProfile::Off => "off",
        }
    }

    /// Whether tools run with a cleared environment (every profile but `Off`).
    pub fn env_clear(&self) -> (b: bool)
        ensures
            b == (*self != SandboxProfile::Off),
    {
        match self {
            SandboxProfile::Strong | SandboxProfile::Moderate => true,
            SandboxProfile::Off => false,
        }
    }

    /// Whether network access is restricted (`Strong` only).
    pub fn restrict_network(&self) -> (b: bool)
        ensures
            b == (*self == SandboxProfile::Strong),
    {
        match self {
            SandboxProfile::Strong => true,
            _ => false,
        }
    }
}

/// A profile's name reads back as the same profile: the name is ASCII, so
/// `from_str` lowercases it as `ascii_lower` does, and selects the profile.
pub proof fn law_profile_name_round_trip(p: SandboxProfile)
    ensures
        profile_of_lower(ascii_lower(profile_name(p))) == p,
        all_ascii(profile_name(p)),
{
    reveal_strlit("strong");
    reveal_strlit("moderate");
    reveal_strlit("off");
    let n = profile_name(p);
    assert(ascii_lower(n) =~= n);
    assert("strong"@[0] == 's' && "moderate"@[0] == 'm' && "off"@[0] == 'o');
    assert("strong"@ != "moderate"@);
    assert("strong"@ != "off"@);
    assert("moderate"@ != "off"@);
}

} // verus!
