//! A name registry over snapshots of the vocabulary tables: the agent,
//! texture and level names registered in a project, and the fixed list of
//! entity kinds.
use vstd::prelude::*;

use crate::lens::ast::Identifier;
use crate::lens::registry::NameKind;
use crate::lens::validator::NameRegistry;
use crate::text::{name_views, push_str, same_text};

verus! {

/// Whether `name` is one of the entity kinds.
pub open spec fn is_entity_kind(name: Seq<char>) -> bool {
    ||| name == "cognition"@
    ||| name == "memory"@
    ||| name == "experience"@
    ||| name == "agent"@
    ||| name == "connection"@
    ||| name == "bookmark"@
    ||| name == "tenant"@
    ||| name == "actor"@
    ||| name == "ticket"@
    ||| name == "follow"@
    ||| name == "peer"@
    ||| name == "project"@
    ||| name == "storage"@
    ||| name == "texture"@
    ||| name == "level"@
    ||| name == "sensation"@
    ||| name == "nature"@
    ||| name == "persona"@
    ||| name == "urge"@
}

/// The names registered in each vocabulary table, fetched once and
/// answered from memory.
#[derive(Debug)]
pub struct NameResolver {
    agents: Vec<String>,
    textures: Vec<String>,
    levels: Vec<String>,
}

/// Whether `name` occurs in `names`.
fn contains_name(names: &Vec<String>, name: &str) -> (r: bool)
    ensures
        r == name_views(names@).contains(name@),
{
    let ghost v = name_views(names@);
    let mut i: usize = 0;
    while i < names.len()
        invariant
            i <= names@.len(),
            v == name_views(names@),
            forall|k: int| 0 <= k < i ==> #[trigger] v[k] != name@,
        decreases names@.len() - i,
    {
        if same_text(names[i].as_str(), name) {
            proof {
                assert(v[i as int] == name@);
            }
            return true;
        }
        i += 1;
    }
    false
}

/// The query that lists the names of a vocabulary table.
pub fn names_query(table: &str) -> (r: String)
    ensures
        r@ == "select name from "@ + table@,
{
    let mut s = String::new();
    push_str(&mut s, "select name from ");
    push_str(&mut s, table);
    s
}

impl NameResolver {
    /// A resolver over the names registered as agents, textures and
    /// levels.
    pub fn from_names(agents: Vec<String>, textures: Vec<String>, levels: Vec<String>) -> (r: Self)
        ensures
            r.agent_names() == name_views(agents@),
            r.texture_names() == name_views(textures@),
            r.level_names() == name_views(levels@),
    {
        NameResolver { agents, textures, levels }
    }

    /// The registered agent names.
    pub closed spec fn agent_names(&self) -> Seq<Seq<char>> {
        name_views(self.agents@)
    }

    /// The registered texture names.
    pub closed spec fn texture_names(&self) -> Seq<Seq<char>> {
        name_views(self.textures@)
    }

    /// The registered level names.
    pub closed spec fn level_names(&self) -> Seq<Seq<char>> {
        name_views(self.levels@)
    }
}

impl NameRegistry for NameResolver {
    /// A name of an agent, texture or level is known when it is
    /// registered; a kind name when it is one of the entity kinds.
    open spec fn knows_name(&self, kind: NameKind, name: Seq<char>) -> bool {
        match kind {
            NameKind::Agent => self.agent_names().contains(name),
            NameKind::Texture => self.texture_names().contains(name),
            NameKind::Level => self.level_names().contains(name),
            NameKind::Kind => is_entity_kind(name),
        }
    }

    fn knows(&self, kind: NameKind, name: &Identifier) -> (r: bool) {
        let n = name.as_str();
        match kind {
            NameKind::Agent => contains_name(&self.agents, n),
            NameKind::Texture => contains_name(&self.textures, n),
            NameKind::Level => contains_name(&self.levels, n),
            NameKind::Kind => {
                same_text(n, "cognition") || same_text(n, "memory") || same_text(n, "experience")
                    || same_text(n, "agent") || same_text(n, "connection") || same_text(
                    n,
                    "bookmark",
                ) || same_text(n, "tenant") || same_text(n, "actor") || same_text(n, "ticket")
                    || same_text(n, "follow") || same_text(n, "peer") || same_text(n, "project")
                    || same_text(n, "storage") || same_text(n, "texture") || same_text(n, "level")
                    || same_text(n, "sensation") || same_text(n, "nature") || same_text(
                    n,
                    "persona",
                ) || same_text(n, "urge")
            },
        }
    }
}

} // verus!
