//! Per-forge configuration: sync policy, the forge set of an org in its
//! legacy list form or its per-forge object form.

use vstd::prelude::*;

pub use super::Forge;
use crate::text::{concat, eq_str, lowercase, to_lowercase};

verus! {

/// Sync policy determines how repositories are synchronized across forges.
#[derive(Debug, Clone, Copy, PartialEq, Eq, Structural)]
pub enum SyncPolicy {
    /// All forges with sync: true receive the same repos (default)
    Mirror,
    /// Only origin forge is authoritative, other forges are read-only
    Primary,
    /// No automatic sync - sync command becomes a no-op
    Manual,
}

impl Default for SyncPolicy {
    fn default() -> (p: Self)
        ensures
            p == SyncPolicy::Mirror,
    {
        SyncPolicy::Mirror
    }
}

/// Per-forge configuration options.
#[derive(Debug, Clone, Copy, PartialEq, Eq, Structural)]
pub struct ForgeConfig {
    /// Whether to sync repositories to this forge (default: true)
    pub sync: bool,
}

impl Default for ForgeConfig {
    fn default() -> (c: Self)
        ensures
            c.sync,
    {
        ForgeConfig { sync: true }
    }
}

/// A map from forge to its configuration. With three forges it holds
/// one slot per forge; keys come out in the order GitHub, Codeberg, GitLab.
#[derive(Debug, Clone, Copy, PartialEq, Eq, Structural)]
pub struct ForgeMap {
    pub github: Option<ForgeConfig>,
    pub codeberg: Option<ForgeConfig>,
    pub gitlab: Option<ForgeConfig>,
}

/// All forges, in key order.
pub open spec fn forge_order() -> Seq<Forge> {
    seq![Forge::GitHub, Forge::Codeberg, Forge::GitLab]
}

impl ForgeMap {
    /// The entry for `f`.
    pub open spec fn entry(self, f: Forge) -> Option<ForgeConfig> {
        match f {
            Forge::GitHub => self.github,
            Forge::Codeberg => self.codeberg,
            Forge::GitLab => self.gitlab,
        }
    }

    /// The keys, in key order.
    pub open spec fn key_seq(self) -> Seq<Forge> {
        forge_order().filter(|f: Forge| self.entry(f) is Some)
    }

    /// The keys whose entry has `sync: true`, in key order.
    pub open spec fn synced_key_seq(self) -> Seq<Forge> {
        forge_order().filter(|f: Forge| self.entry(f) matches Some(c) && c.sync)
    }

    /// The empty map.
    pub fn new() -> (m: Self)
        ensures
            forall|f: Forge| m.entry(f) is None,
    {
        ForgeMap { github: None, codeberg: None, gitlab: None }
    }

    /// The entry for `f`.
    pub fn get(&self, f: Forge) -> (r: Option<ForgeConfig>)
        ensures
            r == self.entry(f),
    {
        match f {
            Forge::GitHub => self.github,
            Forge::Codeberg => self.codeberg,
            Forge::GitLab => self.gitlab,
        }
    }

    /// Sets the entry for `f`, returning the previous one.
    pub fn insert(&mut self, f: Forge, c: ForgeConfig) -> (prev: Option<ForgeConfig>)
        ensures
            prev == old(self).entry(f),
            final(self).entry(f) == Some(c),
            forall|g: Forge| g != f ==> final(self).entry(g) == old(self).entry(g),
    {
        match f {
            Forge::GitHub => {
                let p = self.github;
                self.github = Some(c);
                p
            },
            Forge::Codeberg => {
                let p = self.codeberg;
                self.codeberg = Some(c);
                p
            },
            Forge::GitLab => {
                let p = self.gitlab;
                self.gitlab = Some(c);
                p
            },
        }
    }

    /// The forges with an entry, in key order.
    pub fn keys(&self) -> (v: Vec<Forge>)
        ensures
            v@ == self.key_seq(),
    {
        let mut v: Vec<Forge> = Vec::new();
        if self.github.is_some() {
            v.push(Forge::GitHub);
        }
        if self.codeberg.is_some() {
            v.push(Forge::Codeberg);
        }
        if self.gitlab.is_some() {
            v.push(Forge::GitLab);
        }
        proof {
            reveal_with_fuel(Seq::<_>::filter, 4);
            assert(forge_order().drop_last().drop_last().drop_last() =~= Seq::<Forge>::empty());
            assert(forge_order().drop_last().drop_last() =~= seq![Forge::GitHub]);
            assert(forge_order().drop_last() =~= seq![Forge::GitHub, Forge::Codeberg]);
            assert(v@ =~= self.key_seq());
        }
        v
    }

    /// The forges whose entry has `sync: true`, in key order.
    pub fn synced_keys(&self) -> (v: Vec<Forge>)
        ensures
            v@ == self.synced_key_seq(),
    {
        let mut v: Vec<Forge> = Vec::new();
        if let Some(c) = self.github {
            if c.sync {
                v.push(Forge::GitHub);
            }
        }
        if let Some(c) = self.codeberg {
            if c.sync {
                v.push(Forge::Codeberg);
            }
        }
        if let Some(c) = self.gitlab {
            if c.sync {
                v.push(Forge::GitLab);
            }
        }
        proof {
            reveal_with_fuel(Seq::<_>::filter, 4);
            assert(forge_order().drop_last().drop_last().drop_last() =~= Seq::<Forge>::empty());
            assert(forge_order().drop_last().drop_last() =~= seq![Forge::GitHub]);
            assert(forge_order().drop_last() =~= seq![Forge::GitHub, Forge::Codeberg]);
            assert(v@ =~= self.synced_key_seq());
        }
        v
    }
}

/// Forges configuration in either the legacy array format (a list of
/// forge names, all synced) or the object format (per-forge config).
#[derive(Debug, Clone)]
pub enum ForgesConfig {
    /// New object format: map of forge -> config
    Object(ForgeMap),
    /// Legacy array format: list of forge names (all treated as sync: true)
    Legacy(Vec<Forge>),
}

/// The abstract content of a `ForgesConfig`.
pub enum ForgesModel {
    Object(ForgeMap),
    Legacy(Seq<Forge>),
}

impl View for ForgesConfig {
    type V = ForgesModel;

    open spec fn view(&self) -> ForgesModel {
        match self {
            ForgesConfig::Object(m) => ForgesModel::Object(*m),
            ForgesConfig::Legacy(l) => ForgesModel::Legacy(l@),
        }
    }
}

impl ForgesModel {
    /// Every listed forge, in configuration order.
    pub open spec fn listed(self) -> Seq<Forge> {
        match self {
            ForgesModel::Object(m) => m.key_seq(),
            ForgesModel::Legacy(l) => l,
        }
    }

    /// The forges that are synced, in configuration order.
    pub open spec fn synced(self) -> Seq<Forge> {
        match self {
            ForgesModel::Object(m) => m.synced_key_seq(),
            ForgesModel::Legacy(l) => l,
        }
    }

    /// The configuration of `f`, if the forge is listed.
    pub open spec fn entry(self, f: Forge) -> Option<ForgeConfig> {
        match self {
            ForgesModel::Object(m) => m.entry(f),
            ForgesModel::Legacy(l) => if l.contains(f) {
                Some(ForgeConfig { sync: true })
            } else {
                None
            },
        }
    }
}

impl ForgesConfig {
    /// A copy with the same content.
    pub fn duplicate(&self) -> (r: Self)
        ensures
            r@ == self@,
    {
        match self {
            ForgesConfig::Object(m) => ForgesConfig::Object(*m),
            ForgesConfig::Legacy(l) => {
                let c = l.clone();
                assert(c@ =~= l@);
                ForgesConfig::Legacy(c)
            },
        }
    }

    /// Get all forge names, regardless of sync status.
    pub fn all_forges(&self) -> (v: Vec<Forge>)
        ensures
            v@ == self@.listed(),
    {
        match self {
            ForgesConfig::Object(m) => m.keys(),
            ForgesConfig::Legacy(l) => {
                let c = l.clone();
                assert(c@ =~= l@);
                c
            },
        }
    }

    /// Get only forges that should be synced (sync: true); the legacy
    /// format treats every listed forge as synced.
    pub fn synced_forges(&self) -> (v: Vec<Forge>)
        ensures
            v@ == self@.synced(),
    {
        match self {
            ForgesConfig::Object(m) => m.synced_keys(),
            ForgesConfig::Legacy(l) => {
                let c = l.clone();
                assert(c@ =~= l@);
                c
            },
        }
    }

    /// Check if a specific forge should be synced.
    pub fn is_synced(&self, forge: &Forge) -> (b: bool)
        ensures
            b == (self@.entry(*forge) matches Some(c) && c.sync),
    {
        match self {
            ForgesConfig::Object(m) => match m.get(*forge) {
                Some(c) => c.sync,
                None => false,
            },
            ForgesConfig::Legacy(l) => super::repo::forge_in(l, *forge),
        }
    }

    /// Get the config for a specific forge.
    pub fn get(&self, forge: &Forge) -> (r: Option<ForgeConfig>)
        ensures
            r == self@.entry(*forge),
    {
        match self {
            ForgesConfig::Object(m) => m.get(*forge),
            ForgesConfig::Legacy(l) => {
                if super::repo::forge_in(l, *forge) {
                    Some(ForgeConfig::default())
                } else {
                    None
                }
            },
        }
    }

    /// Check if this config contains a forge.
    pub fn contains(&self, forge: &Forge) -> (b: bool)
        ensures
            b == (self@.entry(*forge) is Some),
    {
        match self {
            ForgesConfig::Object(m) => m.get(*forge).is_some(),
            ForgesConfig::Legacy(l) => super::repo::forge_in(l, *forge),
        }
    }

    /// Convert to the object format (for migration). Every forge keeps
    /// its entry: listed forges of the legacy form become `sync: true`.
    pub fn to_object_format(&self) -> (m: ForgeMap)
        ensures
            forall|f: Forge| m.entry(f) == self@.entry(f),
    {
        match self {
            ForgesConfig::Object(m) => *m,
            ForgesConfig::Legacy(l) => {
                let mut m = ForgeMap::new();
                let mut k: usize = 0;
                while k < l.len()
                    invariant
                        k <= l@.len(),
                        forall|f: Forge|
                            m.entry(f) == (if l@.take(k as int).contains(f) {
                                Some(ForgeConfig { sync: true })
                            } else {
                                None
                            }),
                    decreases l@.len() - k,
                {
                    let f = l[k];
                    m.insert(f, ForgeConfig::default());
                    proof {
                        let t1 = l@.take(k + 1);
                        let t0 = l@.take(k as int);
                        assert forall|g: Forge| t1.contains(g) == (t0.contains(g) || g == f) by {
                            if t1.contains(g) {
                                let i = choose|i: int| 0 <= i < t1.len() && t1[i] == g;
                                if i < k {
                                    assert(t0[i] == g);
                                }
                            }
                            if t0.contains(g) {
                                let i = choose|i: int| 0 <= i < t0.len() && t0[i] == g;
                                assert(t1[i] == g);
                            }
                            if g == f {
                                assert(t1[k as int] == g);
                            }
                        }
                    }
                    k = k + 1;
                }
                assert(l@.take(l@.len() as int) =~= l@);
                m
            },
        }
    }

    /// Create from a list of forges (legacy compatibility).
    pub fn from_forges(forges: Vec<Forge>) -> (c: Self)
        ensures
            c@ == ForgesModel::Legacy(forges@),
    {
        ForgesConfig::Legacy(forges)
    }

    /// Create with explicit sync settings.
    pub fn from_map(map: ForgeMap) -> (c: Self)
        ensures
            c@ == ForgesModel::Object(map),
    {
        ForgesConfig::Object(map)
    }

    /// The forges (all forges, not just synced), in configuration order.
    pub fn iter(&self) -> (v: Vec<Forge>)
        ensures
            v@ == self@.listed(),
    {
        self.all_forges()
    }
}

impl Default for ForgesConfig {
    fn default() -> (c: Self)
        ensures
            c@ == ForgesModel::Legacy(Seq::<Forge>::empty()),
    {
        ForgesConfig::Legacy(Vec::new())
    }
}

proof fn lemma_forge_order_has(f: Forge)
    ensures
        forge_order().contains(f),
{
    match f {
        Forge::GitHub => assert(forge_order()[0] == f),
        Forge::Codeberg => assert(forge_order()[1] == f),
        Forge::GitLab => assert(forge_order()[2] == f),
    }
}

/// The forge queries agree: a forge is among the synced forges exactly
/// when it is synced, among the listed forges exactly when it is
/// contained, a synced forge is contained, and the configuration of a
/// contained forge has `sync` exactly when the forge is synced.
pub proof fn lemma_forge_queries_agree(c: ForgesModel, f: Forge)
    ensures
        c.synced().contains(f) == (c.entry(f) matches Some(x) && x.sync),
        c.listed().contains(f) == (c.entry(f) is Some),
        (c.entry(f) matches Some(x) && x.sync) ==> c.entry(f) is Some,
        c.entry(f) is Some ==> c.entry(f)->0.sync == (c.entry(f) matches Some(x) && x.sync),
{
    match c {
        ForgesModel::Object(m) => {
            let in_sync = |g: Forge| m.entry(g) matches Some(x) && x.sync;
            let present = |g: Forge| m.entry(g) is Some;
            lemma_forge_order_has(f);
            forge_order().filter_lemma(in_sync);
            forge_order().filter_lemma(present);
            let i = choose|i: int| 0 <= i < forge_order().len() && forge_order()[i] == f;
            assert(in_sync(forge_order()[i]) ==> m.synced_key_seq().contains(forge_order()[i]));
            assert(present(forge_order()[i]) ==> m.key_seq().contains(forge_order()[i]));
            if m.synced_key_seq().contains(f) {
                let j = choose|j: int| 0 <= j < m.synced_key_seq().len() && m.synced_key_seq()[j] == f;
                assert(in_sync(m.synced_key_seq()[j]));
            }
            if m.key_seq().contains(f) {
                let j = choose|j: int| 0 <= j < m.key_seq().len() && m.key_seq()[j] == f;
                assert(present(m.key_seq()[j]));
            }
        },
        ForgesModel::Legacy(l) => {},
    }
}

/// Migrating to the object format keeps the configuration: the map has
/// an entry for exactly the listed forges, with the configuration each
/// had; from the legacy list every entry is synced; and the object form
/// built from the map lists, contains and syncs the same forges.
pub proof fn lemma_object_format_round_trip(c: ForgesModel, m: ForgeMap, f: Forge)
    requires
        forall|g: Forge| m.entry(g) == c.entry(g),
    ensures
        m.key_seq().contains(f) == c.listed().contains(f),
        c is Legacy && m.entry(f) is Some ==> m.entry(f)->0.sync,
        ForgesModel::Object(m).entry(f) == c.entry(f),
        ForgesModel::Object(m).synced().contains(f) == c.synced().contains(f),
{
    lemma_forge_queries_agree(c, f);
    lemma_forge_queries_agree(ForgesModel::Object(m), f);
    assert(m.entry(f) == c.entry(f));
}

/// The forge named by an already-lowercased name.
pub open spec fn forge_named(lower: Seq<char>) -> Option<Forge> {
    if lower == "github"@ {
        Some(Forge::GitHub)
    } else if lower == "codeberg"@ {
        Some(Forge::Codeberg)
    } else if lower == "gitlab"@ {
        Some(Forge::GitLab)
    } else {
        None
    }
}

impl Forge {
    pub open spec fn api_base_spec(self) -> Seq<char> {
        match self {
            Forge::GitHub => "https://api.github.com"@,
            Forge::Codeberg => "https://codeberg.org/api/v1"@,
            Forge::GitLab => "https://gitlab.com/api/v4"@,
        }
    }

    pub open spec fn ssh_host_spec(self) -> Seq<char> {
        match self {
            Forge::GitHub => "github.com"@,
            Forge::Codeberg => "codeberg.org"@,
            Forge::GitLab => "gitlab.com"@,
        }
    }

    pub fn api_base(&self) -> (s: &'static str)
        ensures
            s@ == self.api_base_spec(),
    {
        match self {
            Forge::GitHub => "https://api.github.com",
            Forge::Codeberg => "https://codeberg.org/api/v1",
            Forge::GitLab => "https://gitlab.com/api/v4",
        }
    }

    pub fn ssh_host(&self) -> (s: &'static str)
        ensures
            s@ == self.ssh_host_spec(),
    {
        match self {
            Forge::GitHub => "github.com",
            Forge::Codeberg => "codeberg.org",
            Forge::GitLab => "gitlab.com",
        }
    }

    /// The forge named by an already-lowercased name.
    pub fn from_lowercase(lower: &str) -> (r: Option<Forge>)
        ensures
            r == forge_named(lower@),
    {
        if eq_str(lower, "github") {
            Some(Forge::GitHub)
        } else if eq_str(lower, "codeberg") {
            Some(Forge::Codeberg)
        } else if eq_str(lower, "gitlab") {
            Some(Forge::GitLab)
        } else {
            None
        }
    }

    /// Parse a forge name, case-insensitively.
    pub fn parse_str(s: &str) -> (r: Result<Forge, String>)
        ensures
            match r {
                Ok(f) => forge_named(lowercase(s@)) == Some(f),
                Err(e) => forge_named(lowercase(s@)) == None::<Forge> && e@ == "Unknown forge: "@
                    + s@,
            },
    {
        let lower = to_lowercase(s);
        match Forge::from_lowercase(lower.as_str()) {
            Some(f) => Ok(f),
            None => Err(concat("Unknown forge: ", s)),
        }
    }
}

impl std::str::FromStr for Forge {
    type Err = String;

    fn from_str(s: &str) -> Result<Self, Self::Err> {
        Forge::parse_str(s)
    }
}

/// A forge's name reads back as the same forge.
pub proof fn lemma_forge_name_round_trip(f: Forge)
    ensures
        forge_named(f.name()) == Some(f),
{
    reveal_strlit("github");
    reveal_strlit("codeberg");
    reveal_strlit("gitlab");
    match f {
        Forge::GitHub => {},
        Forge::Codeberg => {
            assert("codeberg"@.len() != "github"@.len());
        },
        Forge::GitLab => {
            assert("gitlab"@[3] != "github"@[3]);
            assert("gitlab"@.len() != "codeberg"@.len());
        },
    }
}

} // verus!
