use vstd::prelude::*;

verus! {

/// Identifies which registry a search result came from.
#[derive(Debug, Clone, Copy, PartialEq, Eq, Structural)]
pub enum RegistryId {
    AgentskillSh,
    SkillsSh,
    SkillhubClub,
}

/// The domain name of each registry.
pub open spec fn registry_name(id: RegistryId) -> Seq<char> {
    match id {
        RegistryId::AgentskillSh => "agentskill.sh"@,
        RegistryId::SkillsSh => "skills.sh"@,
        RegistryId::SkillhubClub => "skillhub.club"@,
    }
}

impl RegistryId {
    /// String representation matching the registry's domain name.
    pub fn as_str(&self) -> (s: &'static str)
        ensures
            s@ == registry_name(*self),
    {
        match self {
            RegistryId::AgentskillSh => "agentskill.sh",
            RegistryId::SkillsSh => "skills.sh",
            RegistryId::SkillhubClub => "skillhub.club",
        }
    }

    /// Whether this registry provides per-skill security audit results.
    pub fn has_security_audits(&self) -> (b: bool)
        ensures
            b <==> *self == RegistryId::SkillsSh,
    {
        match self {
            RegistryId::SkillsSh => true,
            _ => false,
        }
    }
}

/// Valid registry names for `--registry` flag validation.
pub const REGISTRY_NAMES: [&'static str; 3] = ["agentskill.sh", "skills.sh", "skillhub.club"];

/// The registry a name designates: one of the three domain names exactly.
pub open spec fn registry_named(s: Seq<char>) -> Option<RegistryId> {
    if s == "agentskill.sh"@ {
        Some(RegistryId::AgentskillSh)
    } else if s == "skills.sh"@ {
        Some(RegistryId::SkillsSh)
    } else if s == "skillhub.club"@ {
        Some(RegistryId::SkillhubClub)
    } else {
        None
    }
}

/// The registry a name designates.
pub fn registry_named_exec(s: &str) -> (r: Option<RegistryId>)
    ensures
        r == registry_named(s@),
{
    if crate::text::str_eq(s, "agentskill.sh") {
        Some(RegistryId::AgentskillSh)
    } else if crate::text::str_eq(s, "skills.sh") {
        Some(RegistryId::SkillsSh)
    } else if crate::text::str_eq(s, "skillhub.club") {
        Some(RegistryId::SkillhubClub)
    } else {
        None
    }
}

impl std::str::FromStr for RegistryId {
    type Err = String;

    /// Parses a registry's domain name; any other text gives the error
    /// `unknown registry: <text>`.
    fn from_str(s: &str) -> (r: Result<Self, Self::Err>)
        ensures
            match registry_named(s@) {
                Some(id) => r == Ok::<RegistryId, String>(id),
                None => r matches Err(m) && m@ == "unknown registry: "@ + s@,
            },
    {
        match registry_named_exec(s) {
            Some(id) => Ok(id),
            None => Err(crate::text::concat("unknown registry: ", s)),
        }
    }
}

/// Law: a registry's name designates that registry, so parsing what
/// [`RegistryId::as_str`] writes gives the registry back.
pub proof fn lemma_registry_name_round_trip(id: RegistryId)
    ensures
        registry_named(registry_name(id)) == Some(id),
{
    reveal_strlit("agentskill.sh");
    reveal_strlit("skills.sh");
    reveal_strlit("skillhub.club");
    assert("agentskill.sh"@ != "skills.sh"@ && "agentskill.sh"@ != "skillhub.club"@) by {
        assert("agentskill.sh"@[0] != "skills.sh"@[0]);
        assert("agentskill.sh"@[0] != "skillhub.club"@[0]);
    }
    assert("skills.sh"@ != "skillhub.club"@) by {
        assert("skills.sh"@.len() != "skillhub.club"@.len());
    }
}

/// Law: the valid registry names are exactly the names of the known
/// registries, in their order.
pub proof fn lemma_registry_names_cover_all()
    ensures
        REGISTRY_NAMES@.len() == 3,
        REGISTRY_NAMES@[0]@ == registry_name(RegistryId::AgentskillSh),
        REGISTRY_NAMES@[1]@ == registry_name(RegistryId::SkillsSh),
        REGISTRY_NAMES@[2]@ == registry_name(RegistryId::SkillhubClub),
        forall|s: Seq<char>| #[trigger] registry_named(s) is Some <==> (s == REGISTRY_NAMES@[0]@ || s == REGISTRY_NAMES@[1]@ || s == REGISTRY_NAMES@[2]@),
{
}

} // verus!
