//! The rules of the orgs surface: which org names and credential keys
//! are accepted, which forge a credential operation targets, and how
//! an org's forges and credentials change under `update`,
//! `set_credential` and `remove_credential`.
//!
//! Reading and writing the org files is done by the program around this
//! library, which hands the loaded org config in and writes it back.

use vstd::prelude::*;

use super::config::{
    forge_block, first_provider, CredentialEntry, CredentialType, ForgeProviderBlock, OrgConfig, OrgForges, OrgName,
    OrgRepo, ProviderKind, Remote, RemoteUrl, RepoName,
};
use super::forge_wire::{provider_label, RemoteRepo};
use super::hub::BootstrapStage;
use crate::text::{
    byte_len, concat, contains, contains_str, debug_quote, debug_str, ends_with, is_suffix,
    starts_with, u64_to_string, decimal,
};

verus! {

/// What the orgs surface reports.
#[derive(Debug)]
pub enum OrgsEvent {
    OrgSummary { name: OrgName, provider: ProviderKind, providers: Vec<ProviderKind>, repo_count: u32 },
    OrgDetail {
        name: OrgName,
        provider: ProviderKind,
        providers: Vec<ProviderKind>,
        credentials: Vec<CredentialEntry>,
        repos: Vec<RepoName>,
    },
    OrgDeleted { name: OrgName, dry_run: bool },
    CredentialAdded { org: OrgName, forge: ProviderKind, entry: CredentialEntry, dry_run: bool },
    CredentialReplaced { org: OrgName, forge: ProviderKind, entry: CredentialEntry, dry_run: bool },
    CredentialRemoved { org: OrgName, forge: ProviderKind, key: String, dry_run: bool },
    Error { code: String, message: String },
    SecretSet { key: String, value_length: u32 },
    ImportSummary { org: OrgName, added: u32, skipped: u32, total: u32 },
    BootstrapDone { org: OrgName, provider: ProviderKind, repos_added: u32 },
    BootstrapFailed { stage: BootstrapStage, message: String },
}

/// How a provider prints with `{:?}`.
pub open spec fn provider_debug(p: ProviderKind) -> Seq<char> {
    match p {
        ProviderKind::Github => "Github"@,
        ProviderKind::Codeberg => "Codeberg"@,
        ProviderKind::Gitlab => "Gitlab"@,
    }
}

fn provider_debug_str(p: ProviderKind) -> (s: &'static str)
    ensures
        s@ == provider_debug(p),
{
    match p {
        ProviderKind::Github => "Github",
        ProviderKind::Codeberg => "Codeberg",
        ProviderKind::Gitlab => "Gitlab",
    }
}

/// An error code and message.
pub open spec fn pair_view(e: (String, String)) -> (Seq<char>, Seq<char>) {
    (e.0@, e.1@)
}

// ---------------------------------------------------------------------
// Names and keys.
// ---------------------------------------------------------------------

/// Whether every character of `s` is ASCII.
pub open spec fn all_ascii(s: Seq<char>) -> bool {
    forall|i: int| 0 <= i < s.len() ==> (#[trigger] s[i] as u32) < 0x80
}

/// The verdict on an org name: non-empty, at most 64 bytes, ASCII, not
/// starting with `.`, with no `/`, `\` or NUL.
pub open spec fn org_name_verdict(name: Seq<char>) -> Result<(), Seq<char>> {
    let q = debug_str(name);
    if name.len() == 0 {
        Err("name must not be empty"@)
    } else if byte_len(name) > 64 {
        Err("name "@ + q + " exceeds 64 chars"@)
    } else if !all_ascii(name) {
        Err("name "@ + q + " is not ASCII"@)
    } else if "."@.is_prefix_of(name) {
        Err("name "@ + q + " must not start with '.'"@)
    } else if contains(name, "/"@) || contains(name, "\\"@) || contains(name, "\0"@) {
        Err("name "@ + q + " contains a path separator"@)
    } else {
        Ok(())
    }
}

/// The view of a unit result with a message.
pub open spec fn unit_view(r: Result<(), String>) -> Result<(), Seq<char>> {
    match r {
        Ok(()) => Ok(()),
        Err(m) => Err(m@),
    }
}

fn is_ascii_str(s: &str) -> (b: bool)
    ensures
        b == all_ascii(s@),
{
    let v = crate::text::to_chars(s);
    let mut i: usize = 0;
    while i < v.len()
        invariant
            i <= v@.len(),
            v@ == s@,
            forall|j: int| 0 <= j < i ==> (#[trigger] v@[j] as u32) < 0x80,
        decreases v@.len() - i,
    {
        if (v[i] as u32) >= 0x80 {
            return false;
        }
        i = i + 1;
    }
    true
}

/// Checks an org name (see `org_name_verdict`).
pub fn validate_org_name(name: &str) -> (r: Result<(), String>)
    ensures
        unit_view(r) == org_name_verdict(name@),
{
    let v = crate::text::to_chars(name);
    assert(v@.subrange(0, v@.len() as int) =~= v@);
    if v.len() == 0 {
        return Err("name must not be empty".to_string());
    }
    let too_long = match crate::text::byte_len_range(&v, 0, v.len()) {
        Some(n) => n > 64,
        None => true,
    };
    let q = debug_quote(name);
    if too_long {
        let a = concat("name ", q.as_str());
        return Err(concat(a.as_str(), " exceeds 64 chars"));
    }
    if !is_ascii_str(name) {
        let a = concat("name ", q.as_str());
        return Err(concat(a.as_str(), " is not ASCII"));
    }
    if starts_with(name, ".") {
        let a = concat("name ", q.as_str());
        return Err(concat(a.as_str(), " must not start with '.'"));
    }
    if contains_str(name, "/") || contains_str(name, "\\") || contains_str(name, "\0") {
        let a = concat("name ", q.as_str());
        return Err(concat(a.as_str(), " contains a path separator"));
    }
    Ok(())
}

/// The verdict on a credential key: a `secrets://` reference with a
/// non-empty path, or an absolute path without `..` that does not end
/// in `/`; never plaintext.
pub open spec fn credential_key_verdict(key: Seq<char>) -> Result<(), Seq<char>> {
    let q = debug_str(key);
    if "secrets://"@.is_prefix_of(key) {
        if key.len() == 10 {
            Err("secret reference "@ + q + " has empty path"@)
        } else {
            Ok(())
        }
    } else if "/"@.is_prefix_of(key) && !contains(key, ".."@) && !is_suffix("/"@, key) {
        Ok(())
    } else {
        Err("credential key "@ + q + " is not a 'secrets://\u{2026}' reference or an absolute filesystem path"@)
    }
}

/// Checks a credential key (see `credential_key_verdict`).
pub fn validate_credential_key(key: &str) -> (r: Result<(), String>)
    ensures
        unit_view(r) == credential_key_verdict(key@),
{
    proof {
        reveal_strlit("secrets://");
    }
    if starts_with(key, "secrets://") {
        if key.unicode_len() == 10 {
            let a = concat("secret reference ", debug_quote(key).as_str());
            return Err(concat(a.as_str(), " has empty path"));
        }
        return Ok(());
    }
    if starts_with(key, "/") && !contains_str(key, "..") && !ends_with(key, "/") {
        return Ok(());
    }
    let a = concat("credential key ", debug_quote(key).as_str());
    Err(concat(a.as_str(), " is not a 'secrets://\u{2026}' reference or an absolute filesystem path"))
}

// ---------------------------------------------------------------------
// Forges of an org.
// ---------------------------------------------------------------------

/// How many forges an org is on.
pub open spec fn forge_count(f: OrgForges) -> nat {
    (if f.github is Some {
        1nat
    } else {
        0nat
    }) + (if f.codeberg is Some {
        1nat
    } else {
        0nat
    }) + (if f.gitlab is Some {
        1nat
    } else {
        0nat
    })
}

/// The providers an org is on, in provider order.
pub open spec fn providers_of(f: OrgForges) -> Seq<ProviderKind> {
    (if f.github is Some {
        seq![ProviderKind::Github]
    } else {
        Seq::empty()
    }) + (if f.codeberg is Some {
        seq![ProviderKind::Codeberg]
    } else {
        Seq::empty()
    }) + (if f.gitlab is Some {
        seq![ProviderKind::Gitlab]
    } else {
        Seq::empty()
    })
}

/// The providers an org is on, in provider order.
pub fn providers(f: &OrgForges) -> (r: Vec<ProviderKind>)
    ensures
        r@ == providers_of(*f),
{
    let mut r: Vec<ProviderKind> = Vec::new();
    if f.github.is_some() {
        r.push(ProviderKind::Github);
    }
    if f.codeberg.is_some() {
        r.push(ProviderKind::Codeberg);
    }
    if f.gitlab.is_some() {
        r.push(ProviderKind::Gitlab);
    }
    assert(r@ =~= providers_of(*f));
    r
}

/// The forges with the block of `p` set to `b`.
pub open spec fn with_block(f: OrgForges, p: ProviderKind, b: Option<ForgeProviderBlock>) -> OrgForges {
    match p {
        ProviderKind::Github => OrgForges { github: b, ..f },
        ProviderKind::Codeberg => OrgForges { codeberg: b, ..f },
        ProviderKind::Gitlab => OrgForges { gitlab: b, ..f },
    }
}

/// An org's forges as plain values: each provider's credentials, when
/// the org is on it.
pub struct ForgesView {
    pub github: Option<Seq<CredentialEntry>>,
    pub codeberg: Option<Seq<CredentialEntry>>,
    pub gitlab: Option<Seq<CredentialEntry>>,
}

/// The credentials of one block, as plain values.
pub open spec fn creds_view(b: Option<ForgeProviderBlock>) -> Option<Seq<CredentialEntry>> {
    match b {
        Some(x) => Some(x.credentials@),
        None => None,
    }
}

/// An org's forges as plain values.
pub open spec fn forges_view(f: OrgForges) -> ForgesView {
    ForgesView { github: creds_view(f.github), codeberg: creds_view(f.codeberg), gitlab: creds_view(f.gitlab) }
}

/// The credentials of provider `p`, when the org is on it.
pub open spec fn slot(v: ForgesView, p: ProviderKind) -> Option<Seq<CredentialEntry>> {
    match p {
        ProviderKind::Github => v.github,
        ProviderKind::Codeberg => v.codeberg,
        ProviderKind::Gitlab => v.gitlab,
    }
}

/// The forges with provider `p` set to `s`.
pub open spec fn with_slot(v: ForgesView, p: ProviderKind, s: Option<Seq<CredentialEntry>>) -> ForgesView {
    match p {
        ProviderKind::Github => ForgesView { github: s, ..v },
        ProviderKind::Codeberg => ForgesView { codeberg: s, ..v },
        ProviderKind::Gitlab => ForgesView { gitlab: s, ..v },
    }
}

/// The first provider, in provider order, the org is on.
pub open spec fn first_slot(v: ForgesView) -> Option<ProviderKind> {
    if v.github is Some {
        Some(ProviderKind::Github)
    } else if v.codeberg is Some {
        Some(ProviderKind::Codeberg)
    } else if v.gitlab is Some {
        Some(ProviderKind::Gitlab)
    } else {
        None
    }
}

/// How many providers the org is on.
pub open spec fn slot_count(v: ForgesView) -> nat {
    (if v.github is Some {
        1nat
    } else {
        0nat
    }) + (if v.codeberg is Some {
        1nat
    } else {
        0nat
    }) + (if v.gitlab is Some {
        1nat
    } else {
        0nat
    })
}

fn take_block(f: &mut OrgForges, p: ProviderKind) -> (b: Option<ForgeProviderBlock>)
    ensures
        b == forge_block(*old(f), p),
        *final(f) == with_block(*old(f), p, None),
{
    match p {
        ProviderKind::Github => f.github.take(),
        ProviderKind::Codeberg => f.codeberg.take(),
        ProviderKind::Gitlab => f.gitlab.take(),
    }
}

fn put_block(f: &mut OrgForges, p: ProviderKind, b: ForgeProviderBlock)
    ensures
        *final(f) == with_block(*old(f), p, Some(b)),
{
    match p {
        ProviderKind::Github => f.github = Some(b),
        ProviderKind::Codeberg => f.codeberg = Some(b),
        ProviderKind::Gitlab => f.gitlab = Some(b),
    }
}

/// Which forge a credential operation targets: the named one, which
/// the org must be on; else the org's only forge; else an error.
pub open spec fn forge_target(name: Seq<char>, f: OrgForges, forge: Option<ProviderKind>) -> Result<ProviderKind, (Seq<char>, Seq<char>)> {
    match forge {
        Some(p) => if forge_block(f, p) is Some {
            Ok(p)
        } else {
            Err(("forge_not_found"@, "org "@ + debug_str(name) + " has no forge "@ + provider_debug(p)))
        },
        None => if forge_count(f) == 1 {
            Ok(first_provider(f)->0)
        } else {
            Err(("ambiguous_forge"@, "org "@ + debug_str(name) + " has "@ + decimal(forge_count(f)) + " forges; pass --forge to disambiguate"@))
        },
    }
}

/// The view of a target.
pub open spec fn target_view(r: Result<ProviderKind, (String, String)>) -> Result<ProviderKind, (Seq<char>, Seq<char>)> {
    match r {
        Ok(p) => Ok(p),
        Err(e) => Err(pair_view(e)),
    }
}

/// Resolves the forge a credential operation targets (see
/// `forge_target`).
pub fn resolve_forge_target(cfg: &OrgConfig, forge: Option<ProviderKind>) -> (r: Result<ProviderKind, (String, String)>)
    ensures
        target_view(r) == forge_target(cfg.name.0@, cfg.forges, forge),
{
    let q = debug_quote(cfg.name.0.as_str());
    match forge {
        Some(p) => {
            if cfg.forges.get(p).is_some() {
                Ok(p)
            } else {
                let a = concat("org ", q.as_str());
                let b = concat(a.as_str(), " has no forge ");
                Err(("forge_not_found".to_string(), concat(b.as_str(), provider_debug_str(p))))
            }
        },
        None => {
            let n = cfg.forges.len();
            if n == 1 {
                match cfg.primary_provider() {
                    Some(p) => Ok(p),
                    None => Ok(ProviderKind::Github),
                }
            } else {
                let a = concat("org ", q.as_str());
                let b = concat(a.as_str(), " has ");
                let c = concat(b.as_str(), u64_to_string(n as u64).as_str());
                Err(("ambiguous_forge".to_string(), concat(c.as_str(), " forges; pass --forge to disambiguate")))
            }
        },
    }
}

/// The summary of an org: its name, its primary provider (GitHub when
/// it is on none), its providers in order and its number of repos
/// (capped at `u32::MAX`).
pub fn org_summary(cfg: &OrgConfig) -> (e: OrgsEvent)
    ensures
        e matches OrgsEvent::OrgSummary { name, provider, providers: ps, repo_count } && name.0@ == cfg.name.0@
            && provider == match first_provider(cfg.forges) {
            Some(p) => p,
            None => ProviderKind::Github,
        } && ps@ == providers_of(cfg.forges) && repo_count as int == if cfg.repos@.len() > u32::MAX {
            u32::MAX as int
        } else {
            cfg.repos@.len() as int
        },
{
    let provider = match cfg.primary_provider() {
        Some(p) => p,
        None => ProviderKind::Github,
    };
    let n = cfg.repos.len();
    let repo_count: u32 = if n > 4294967295usize {
        4294967295u32
    } else {
        n as u32
    };
    OrgsEvent::OrgSummary {
        name: OrgName(cfg.name.0.clone()),
        provider,
        providers: providers(&cfg.forges),
        repo_count,
    }
}

// ---------------------------------------------------------------------
// Credentials.
// ---------------------------------------------------------------------

/// The first credential with key `key`.
pub open spec fn key_index(cs: Seq<CredentialEntry>, key: Seq<char>) -> Option<int>
    decreases cs.len(),
{
    if cs.len() == 0 {
        None
    } else if cs[0].key@ == key {
        Some(0)
    } else {
        match key_index(cs.drop_first(), key) {
            Some(i) => Some(i + 1),
            None => None,
        }
    }
}

proof fn lemma_key_index(cs: Seq<CredentialEntry>, key: Seq<char>)
    ensures
        match key_index(cs, key) {
            Some(i) => 0 <= i < cs.len() && cs[i].key@ == key && forall|j: int| 0 <= j < i ==> cs[j].key@ != key,
            None => forall|j: int| 0 <= j < cs.len() ==> cs[j].key@ != key,
        },
    decreases cs.len(),
{
    if cs.len() > 0 && cs[0].key@ != key {
        lemma_key_index(cs.drop_first(), key);
        match key_index(cs.drop_first(), key) {
            Some(i) => {
                assert forall|j: int| 0 <= j < i + 1 implies cs[j].key@ != key by {
                    if j > 0 {
                        assert(cs.drop_first()[j - 1] == cs[j]);
                    }
                }
            },
            None => {
                assert forall|j: int| 0 <= j < cs.len() implies cs[j].key@ != key by {
                    if j > 0 {
                        assert(cs.drop_first()[j - 1] == cs[j]);
                    }
                }
            },
        }
    }
}

fn copy_entry(c: &CredentialEntry) -> (r: CredentialEntry)
    ensures
        r == *c,
{
    CredentialEntry { key: c.key.clone(), cred_type: c.cred_type }
}

/// The position of the first credential with key `key`.
fn find_key(cs: &Vec<CredentialEntry>, key: &str) -> (r: Option<usize>)
    ensures
        match key_index(cs@, key@) {
            Some(i) => 0 <= i < cs@.len() && r is Some && r->0 as int == i,
            None => r is None,
        },
{
    proof {
        lemma_key_index(cs@, key@);
    }
    let mut i: usize = 0;
    assert(cs@.skip(0) =~= cs@);
    while i < cs.len()
        invariant
            i <= cs@.len(),
            key_index(cs@, key@) == match key_index(cs@.skip(i as int), key@) {
                Some(j) => Some(j + i),
                None => None::<int>,
            },
        decreases cs@.len() - i,
    {
        assert(cs@.skip(i as int).drop_first() =~= cs@.skip(i + 1));
        assert(cs@.skip(i as int)[0] == cs@[i as int]);
        if crate::text::eq_str(cs[i].key.as_str(), key) {
            return Some(i);
        }
        i = i + 1;
    }
    None
}

/// The credentials after setting `entry`: it replaces the first entry
/// with its key, or comes last when there is none.
pub open spec fn set_in(cs: Seq<CredentialEntry>, entry: CredentialEntry) -> Seq<CredentialEntry> {
    match key_index(cs, entry.key@) {
        Some(i) => cs.update(i, entry),
        None => cs.push(entry),
    }
}

/// Adds `entry` to the credentials of forge `target`, or replaces the
/// first one with its key; says whether it replaced one. The org's name,
/// repos and other forges stay as they are.
pub fn set_credential(cfg: &mut OrgConfig, target: ProviderKind, entry: CredentialEntry) -> (replaced: bool)
    requires
        forge_block(old(cfg).forges, target) is Some,
    ensures
        replaced == key_index(forge_block(old(cfg).forges, target)->0.credentials@, entry.key@) is Some,
        forges_view(final(cfg).forges) == with_slot(
            forges_view(old(cfg).forges),
            target,
            Some(set_in(forge_block(old(cfg).forges, target)->0.credentials@, entry)),
        ),
        final(cfg).name == old(cfg).name,
        final(cfg).repos == old(cfg).repos,
{
    let ghost f0 = cfg.forges;
    let block = take_block(&mut cfg.forges, target);
    let mut creds: Vec<CredentialEntry> = match block {
        Some(b) => b.credentials,
        None => Vec::new(),
    };
    let ghost old_creds = creds@;
    assert(old_creds == forge_block(f0, target)->0.credentials@);
    let ghost e = entry;
    let replaced = match find_key(&creds, entry.key.as_str()) {
        Some(k) => {
            assert(key_index(old_creds, e.key@) == Some(k as int));
            creds.set(k, entry);
            assert(creds@ == old_creds.update(k as int, e));
            true
        },
        None => {
            assert(key_index(old_creds, e.key@) is None);
            creds.push(entry);
            assert(creds@ == old_creds.push(e));
            false
        },
    };
    assert(creds@ == set_in(old_creds, e));
    put_block(&mut cfg.forges, target, ForgeProviderBlock { credentials: creds });
    replaced
}

/// The credentials without those of key `key`.
pub open spec fn without_key(cs: Seq<CredentialEntry>, key: Seq<char>) -> Seq<CredentialEntry>
    decreases cs.len(),
{
    if cs.len() == 0 {
        Seq::empty()
    } else {
        let rest = without_key(cs.drop_last(), key);
        if cs.last().key@ == key {
            rest
        } else {
            rest.push(cs.last())
        }
    }
}

proof fn lemma_without_key_agree(a: Seq<CredentialEntry>, b: Seq<CredentialEntry>, key: Seq<char>)
    requires
        a.len() == b.len(),
        forall|j: int| 0 <= j < a.len() ==> (a[j].key@ == key) == (b[j].key@ == key),
        forall|j: int| 0 <= j < a.len() && a[j].key@ != key ==> a[j] == b[j],
    ensures
        without_key(a, key) == without_key(b, key),
    decreases a.len(),
{
    if a.len() > 0 {
        lemma_without_key_agree(a.drop_last(), b.drop_last(), key);
    }
}

/// Setting a credential and then removing its key leaves the forge's
/// credentials as removing that key alone would: a removal undoes a set.
pub proof fn lemma_set_then_remove(cs: Seq<CredentialEntry>, entry: CredentialEntry)
    ensures
        without_key(set_in(cs, entry), entry.key@) == without_key(cs, entry.key@),
{
    lemma_key_index(cs, entry.key@);
    match key_index(cs, entry.key@) {
        Some(i) => {
            lemma_without_key_agree(cs.update(i, entry), cs, entry.key@);
        },
        None => {
            assert(cs.push(entry).drop_last() =~= cs);
        },
    }
}

/// Removes every credential with key `key` from forge `target`; says
/// whether any was there. The org's name, repos and other forges stay
/// as they are.
pub fn remove_credential(cfg: &mut OrgConfig, target: ProviderKind, key: &str) -> (removed: bool)
    requires
        forge_block(old(cfg).forges, target) is Some,
    ensures
        removed == (without_key(forge_block(old(cfg).forges, target)->0.credentials@, key@).len()
            != forge_block(old(cfg).forges, target)->0.credentials@.len()),
        forges_view(final(cfg).forges) == with_slot(
            forges_view(old(cfg).forges),
            target,
            Some(without_key(forge_block(old(cfg).forges, target)->0.credentials@, key@)),
        ),
        final(cfg).name == old(cfg).name,
        final(cfg).repos == old(cfg).repos,
{
    let block = take_block(&mut cfg.forges, target);
    let creds: Vec<CredentialEntry> = match block {
        Some(b) => b.credentials,
        None => Vec::new(),
    };
    let mut kept: Vec<CredentialEntry> = Vec::new();
    let mut i: usize = 0;
    while i < creds.len()
        invariant
            i <= creds@.len(),
            kept@ == without_key(creds@.take(i as int), key@),
        decreases creds@.len() - i,
    {
        assert(creds@.take(i + 1).drop_last() =~= creds@.take(i as int));
        assert(creds@.take(i + 1).last() == creds@[i as int]);
        if !crate::text::eq_str(creds[i].key.as_str(), key) {
            kept.push(copy_entry(&creds[i]));
        }
        i = i + 1;
    }
    assert(creds@.take(i as int) =~= creds@);
    let removed = kept.len() != creds.len();
    put_block(&mut cfg.forges, target, ForgeProviderBlock { credentials: kept });
    removed
}

// ---------------------------------------------------------------------
// Updating an org's forges.
// ---------------------------------------------------------------------

/// An update must change something.
pub fn update_request_check(
    provider: Option<ProviderKind>,
    add_forge: Option<ProviderKind>,
    remove_forge: Option<ProviderKind>,
) -> (r: Result<(), (String, String)>)
    ensures
        r is Err <==> (provider is None && add_forge is None && remove_forge is None),
        r is Err ==> pair_view(r->Err_0) == ("no_op"@, "orgs.update requires at least one optional field to change"@),
{
    if provider.is_none() && add_forge.is_none() && remove_forge.is_none() {
        Err(("no_op".to_string(), "orgs.update requires at least one optional field to change".to_string()))
    } else {
        Ok(())
    }
}

/// The forges after moving the primary forge's credentials to
/// `provider` (the old primary forge is dropped).
pub open spec fn moved_to(v: ForgesView, provider: ProviderKind) -> ForgesView {
    let creds = match first_slot(v) {
        Some(k) => match slot(v, k) {
            Some(c) => c,
            None => Seq::empty(),
        },
        None => Seq::empty(),
    };
    let dropped = match first_slot(v) {
        Some(k) => with_slot(v, k, None),
        None => v,
    };
    with_slot(dropped, provider, Some(creds))
}

/// The forges after adding `p` with no credentials, if it is missing.
pub open spec fn added(v: ForgesView, p: ProviderKind) -> ForgesView {
    if slot(v, p) is Some {
        v
    } else {
        with_slot(v, p, Some(Seq::empty()))
    }
}

/// What `update` does to an org's forges: move to `provider`, add
/// `add_forge`, then remove `remove_forge` (which the org must be on,
/// and which must not be its last forge).
pub open spec fn update_forges(
    name: Seq<char>,
    v: ForgesView,
    provider: Option<ProviderKind>,
    add_forge: Option<ProviderKind>,
    remove_forge: Option<ProviderKind>,
) -> Result<ForgesView, (Seq<char>, Seq<char>)> {
    let v1 = match provider {
        Some(p) => moved_to(v, p),
        None => v,
    };
    let v2 = match add_forge {
        Some(a) => added(v1, a),
        None => v1,
    };
    match remove_forge {
        None => Ok(v2),
        Some(r) => if slot(v2, r) is None {
            Err(("forge_not_found"@, "org "@ + debug_str(name) + " has no forge "@ + provider_debug(r)))
        } else if slot_count(v2) <= 1 {
            Err(("last_forge"@, "cannot remove the last forge from an org"@))
        } else {
            Ok(with_slot(v2, r, None))
        },
    }
}

/// Applies an update to an org's forges (see `update_forges`). On an
/// error the org is to be discarded; on success only its forges changed.
pub fn update_org(
    cfg: &mut OrgConfig,
    provider: Option<ProviderKind>,
    add_forge: Option<ProviderKind>,
    remove_forge: Option<ProviderKind>,
) -> (r: Result<(), (String, String)>)
    ensures
        match update_forges(old(cfg).name.0@, forges_view(old(cfg).forges), provider, add_forge, remove_forge) {
            Ok(f) => r is Ok && forges_view(final(cfg).forges) == f,
            Err(e) => r is Err && pair_view(r->Err_0) == e,
        },
        final(cfg).name == old(cfg).name,
        final(cfg).repos == old(cfg).repos,
{
    match provider {
        Some(p) => {
            let old_pk = cfg.primary_provider();
            let creds = match old_pk {
                Some(k) => match take_block(&mut cfg.forges, k) {
                    Some(b) => b.credentials,
                    None => Vec::new(),
                },
                None => Vec::new(),
            };
            put_block(&mut cfg.forges, p, ForgeProviderBlock { credentials: creds });
        },
        None => {},
    }
    match add_forge {
        Some(a) => {
            if cfg.forges.get(a).is_none() {
                put_block(&mut cfg.forges, a, ForgeProviderBlock { credentials: Vec::new() });
            }
        },
        None => {},
    }
    match remove_forge {
        None => Ok(()),
        Some(rf) => {
            if cfg.forges.get(rf).is_none() {
                let a = concat("org ", debug_quote(cfg.name.0.as_str()).as_str());
                let b = concat(a.as_str(), " has no forge ");
                Err(("forge_not_found".to_string(), concat(b.as_str(), provider_debug_str(rf))))
            } else if cfg.forges.len() <= 1 {
                Err(("last_forge".to_string(), "cannot remove the last forge from an org".to_string()))
            } else {
                let _ = take_block(&mut cfg.forges, rf);
                Ok(())
            }
        },
    }
}

// ---------------------------------------------------------------------
// Bootstrap.
// ---------------------------------------------------------------------

/// A bootstrap failure at `stage`.
pub open spec fn failed_at(e: OrgsEvent, stage: BootstrapStage, message: Seq<char>) -> bool {
    e matches OrgsEvent::BootstrapFailed { stage: s, message: m } && s == stage && m@ == message
}

/// The parameters of a bootstrap, checked in order: a non-empty org
/// name, a provider, a non-empty token.
pub fn bootstrap_params(name: Option<String>, provider: Option<ProviderKind>, token: Option<String>) -> (r: Result<
    (String, ProviderKind, String),
    OrgsEvent,
>)
    ensures
        match (name, provider, token) {
            (Some(n), Some(p), Some(t)) => if n@.len() > 0 && t@.len() > 0 {
                r matches Ok(x) && x.0@ == n@ && x.1 == p && x.2@ == t@
            } else if n@.len() == 0 {
                r matches Err(e) && failed_at(e, BootstrapStage::OrgCreate, "missing required parameter 'name'"@)
            } else {
                r matches Err(e) && failed_at(e, BootstrapStage::TokenResolve, "missing required parameter 'token'"@)
            },
            _ => r is Err,
        },
        (name is None || name->0@.len() == 0) ==> (r matches Err(e) && failed_at(
            e,
            BootstrapStage::OrgCreate,
            "missing required parameter 'name'"@,
        )),
        (name matches Some(n) && n@.len() > 0 && provider is None) ==> (r matches Err(e) && failed_at(
            e,
            BootstrapStage::OrgCreate,
            "missing required parameter 'provider'"@,
        )),
        (name matches Some(n) && n@.len() > 0 && provider is Some && (token is None || token->0@.len() == 0)) ==> (
        r matches Err(e) && failed_at(e, BootstrapStage::TokenResolve, "missing required parameter 'token'"@)),
{
    let n = match name {
        Some(n) => if n.as_str().is_empty() {
            None
        } else {
            Some(n)
        },
        None => None,
    };
    let n = match n {
        Some(n) => n,
        None => {
            return Err(
                OrgsEvent::BootstrapFailed {
                    stage: BootstrapStage::OrgCreate,
                    message: "missing required parameter 'name'".to_string(),
                },
            );
        },
    };
    let p = match provider {
        Some(p) => p,
        None => {
            return Err(
                OrgsEvent::BootstrapFailed {
                    stage: BootstrapStage::OrgCreate,
                    message: "missing required parameter 'provider'".to_string(),
                },
            );
        },
    };
    match token {
        Some(t) => if t.as_str().is_empty() {
            Err(
                OrgsEvent::BootstrapFailed {
                    stage: BootstrapStage::TokenResolve,
                    message: "missing required parameter 'token'".to_string(),
                },
            )
        } else {
            Ok((n, p, t))
        },
        None => Err(
            OrgsEvent::BootstrapFailed {
                stage: BootstrapStage::TokenResolve,
                message: "missing required parameter 'token'".to_string(),
            },
        ),
    }
}

/// How a bootstrap token argument is resolved: read from the forge's
/// CLI (`gh-token://…`), read from an environment variable
/// (`env://VAR`), or taken as the token itself.
#[derive(Debug)]
pub enum TokenForm {
    FromCli,
    FromEnv(String),
    Raw(String),
}

/// The form of a token argument.
pub fn token_form(token: &str) -> (f: TokenForm)
    ensures
        "gh-token://"@.is_prefix_of(token@) ==> f is FromCli,
        (!"gh-token://"@.is_prefix_of(token@) && "env://"@.is_prefix_of(token@)) ==> (f matches TokenForm::FromEnv(v)
            && v@ == token@.skip(6)),
        (!"gh-token://"@.is_prefix_of(token@) && !"env://"@.is_prefix_of(token@)) ==> (f matches TokenForm::Raw(t)
            && t@ == token@),
{
    if starts_with(token, "gh-token://") {
        TokenForm::FromCli
    } else if starts_with(token, "env://") {
        proof {
            reveal_strlit("env://");
        }
        let v = crate::text::to_chars(token);
        let rest = crate::text::string_of_range(&v, 6, v.len());
        assert(v@.subrange(6, v@.len() as int) =~= token@.skip(6));
        TokenForm::FromEnv(rest)
    } else {
        TokenForm::Raw(token.to_string())
    }
}

/// Where a bootstrap stores the token: the given secret key, else the
/// provider's shared default token, else the org's own token.
pub open spec fn bootstrap_secret_spec(secret_key: Option<Seq<char>>, use_default: bool, provider: ProviderKind, name: Seq<
    char,
>) -> Seq<char> {
    match secret_key {
        Some(k) => k,
        None => if use_default {
            "secrets://"@ + provider_label(provider) + "/_default/token"@
        } else {
            "secrets://"@ + provider_label(provider) + "/"@ + name + "/token"@
        },
    }
}

/// Where a bootstrap stores the token.
pub fn bootstrap_secret_path(secret_key: Option<String>, use_default: bool, provider: ProviderKind, name: &str) -> (s:
    String)
    ensures
        s@ == bootstrap_secret_spec(
            match secret_key {
                Some(k) => Some(k@),
                None => None,
            },
            use_default,
            provider,
            name@,
        ),
{
    match secret_key {
        Some(k) => k,
        None => {
            let a = concat("secrets://", crate::v5::hub::provider_name(provider));
            if use_default {
                concat(a.as_str(), "/_default/token")
            } else {
                let b = concat(a.as_str(), "/");
                let c = concat(b.as_str(), name);
                concat(c.as_str(), "/token")
            }
        },
    }
}

/// The event for a stored token: its key and length (capped at
/// `u32::MAX`), never its value.
pub fn secret_set(key: String, token_len: usize) -> (e: OrgsEvent)
    ensures
        e matches OrgsEvent::SecretSet { key: k, value_length: n } && k@ == key@ && n == (if token_len > u32::MAX {
            u32::MAX
        } else {
            token_len as u32
        }),
{
    let n: u32 = if token_len > 4294967295usize {
        4294967295u32
    } else {
        token_len as u32
    };
    OrgsEvent::SecretSet { key, value_length: n }
}

/// The credentials that are not tokens, in order.
pub open spec fn non_token(cs: Seq<CredentialEntry>) -> Seq<CredentialEntry> {
    cs.filter(|c: CredentialEntry| c.cred_type != CredentialType::Token)
}

/// The org a bootstrap writes: the existing org (else a new one on
/// `provider` with no repos), on `provider`, with that provider's token
/// credentials replaced by the one at `secret_path`; its other forges
/// and its repos stay as they are.
pub fn bootstrap_org(existing: Option<OrgConfig>, name: &str, provider: ProviderKind, secret_path: String) -> (cfg:
    OrgConfig)
    ensures
        existing matches Some(o) ==> cfg.name == o.name,
        existing matches Some(o) ==> cfg.repos == o.repos,
        existing matches Some(o) ==> forges_view(cfg.forges) == with_slot(
            forges_view(o.forges),
            provider,
            Some(
                non_token(
                    match forge_block(o.forges, provider) {
                        Some(b) => b.credentials@,
                        None => Seq::empty(),
                    },
                ).push(CredentialEntry { key: secret_path, cred_type: CredentialType::Token }),
            ),
        ),
        existing is None ==> cfg.name.0@ == name@ && cfg.repos@.len() == 0 && forges_view(cfg.forges) == with_slot(
            forges_view(OrgForges { github: None, codeberg: None, gitlab: None }),
            provider,
            Some(seq![CredentialEntry { key: secret_path, cred_type: CredentialType::Token }]),
        ),
{
    let ghost ex = existing;
    let mut cfg = match existing {
        Some(c) => c,
        None => OrgConfig { name: OrgName(name.to_string()), forges: OrgForges::new(), repos: Vec::new() },
    };
    let ghost f0 = cfg.forges;
    let block = take_block(&mut cfg.forges, provider);
    let creds: Vec<CredentialEntry> = match block {
        Some(b) => b.credentials,
        None => Vec::new(),
    };
    let ghost old_creds = creds@;
    assert(old_creds == match forge_block(f0, provider) {
        Some(b) => b.credentials@,
        None => Seq::<CredentialEntry>::empty(),
    });
    let ghost pred = |c: CredentialEntry| c.cred_type != CredentialType::Token;
    let mut kept: Vec<CredentialEntry> = Vec::new();
    let mut i: usize = 0;
    while i < creds.len()
        invariant
            i <= creds@.len(),
            creds@ == old_creds,
            pred == (|c: CredentialEntry| c.cred_type != CredentialType::Token),
            kept@ == creds@.take(i as int).filter(pred),
        decreases creds@.len() - i,
    {
        proof {
            reveal(Seq::filter);
            assert(creds@.take(i + 1).drop_last() =~= creds@.take(i as int));
        }
        if creds[i].cred_type != CredentialType::Token {
            kept.push(copy_entry(&creds[i]));
            assert(kept@ =~= creds@.take(i + 1).filter(pred));
        } else {
            assert(creds@.take(i + 1).filter(pred) == creds@.take(i as int).filter(pred));
        }
        i = i + 1;
    }
    assert(creds@.take(creds@.len() as int) =~= creds@);
    let ghost e = CredentialEntry { key: secret_path, cred_type: CredentialType::Token };
    kept.push(CredentialEntry { key: secret_path, cred_type: CredentialType::Token });
    put_block(&mut cfg.forges, provider, ForgeProviderBlock { credentials: kept });
    proof {
        assert(forges_view(cfg.forges) =~~= with_slot(forges_view(f0), provider, Some(non_token(old_creds).push(e))));
        match ex {
            Some(o) => {
                assert(cfg.name == o.name);
                assert(cfg.repos == o.repos);
                assert(f0 == o.forges);
                assert(non_token(old_creds).push(e) == non_token(
                    match forge_block(o.forges, provider) {
                        Some(b) => b.credentials@,
                        None => Seq::<CredentialEntry>::empty(),
                    },
                ).push(e));
                assert(forges_view(cfg.forges) == with_slot(forges_view(o.forges), provider, Some(non_token(old_creds).push(e))));
            },
            None => {
                assert(forge_block(f0, ProviderKind::Github) is None);
                assert(forge_block(f0, ProviderKind::Codeberg) is None);
                assert(forge_block(f0, ProviderKind::Gitlab) is None);
                assert(old_creds.len() == 0);
                assert(non_token(old_creds) =~= Seq::<CredentialEntry>::empty()) by {
                    reveal(Seq::filter);
                }
                assert(non_token(old_creds).push(e) =~= seq![e]);
            },
        }
    }
    cfg
}

/// The repo an import adds for a listed remote repo: its name, its URL
/// as the only remote (provider from the URL), no forge scope and no
/// metadata.
pub open spec fn imported_repo(r: RemoteRepo) -> (Seq<char>, Seq<char>) {
    (r.name@, r.url@)
}

/// The listed repos an import adds: those whose name the org does not
/// have yet (names the org had before the import).
pub open spec fn repos_to_add(existing: Seq<OrgRepo>, listed: Seq<RemoteRepo>) -> Seq<RemoteRepo> {
    listed.filter(|r: RemoteRepo| !existing.map_values(|o: OrgRepo| o.name.0@).contains(r.name@))
}

/// Imports the listed repos into the org (see `repos_to_add`); returns
/// how many were added, how many skipped, and how many were listed (0
/// when that count exceeds `u32::MAX`).
pub fn import_listed(cfg: &mut OrgConfig, listed: &Vec<RemoteRepo>) -> (r: (u32, u32, u32))
    requires
        listed@.len() <= u32::MAX,
    ensures
        final(cfg).name == old(cfg).name,
        final(cfg).forges == old(cfg).forges,
        final(cfg).repos@.len() == old(cfg).repos@.len() + repos_to_add(old(cfg).repos@, listed@).len(),
        forall|i: int| 0 <= i < old(cfg).repos@.len() ==> #[trigger] final(cfg).repos@[i] == old(cfg).repos@[i],
        forall|i: int|
            0 <= i < repos_to_add(old(cfg).repos@, listed@).len() ==> {
                let o = #[trigger] final(cfg).repos@[old(cfg).repos@.len() + i];
                let x = repos_to_add(old(cfg).repos@, listed@)[i];
                &&& o.name.0@ == x.name@
                &&& o.remotes@.len() == 1
                &&& o.remotes@[0].url.0@ == x.url@
                &&& o.remotes@[0].provider is None
                &&& o.forges is None
                &&& o.metadata is None
            },
        r.0 == repos_to_add(old(cfg).repos@, listed@).len(),
        r.0 + r.1 == listed@.len(),
        r.2 == listed@.len(),
{
    let ghost names = cfg.repos@.map_values(|o: OrgRepo| o.name.0@);
    let ghost pred = |x: RemoteRepo| !names.contains(x.name@);
    let n0 = cfg.repos.len();
    let mut existing: Vec<String> = Vec::new();
    let mut k: usize = 0;
    while k < cfg.repos.len()
        invariant
            k <= cfg.repos@.len(),
            names == cfg.repos@.map_values(|o: OrgRepo| o.name.0@),
            existing@.len() == k,
            forall|j: int| 0 <= j < k ==> (#[trigger] existing@[j])@ == names[j],
        decreases cfg.repos@.len() - k,
    {
        existing.push(cfg.repos[k].name.0.clone());
        k = k + 1;
    }
    let ghost old_repos = cfg.repos@;
    let mut added: u32 = 0;
    let mut skipped: u32 = 0;
    let mut i: usize = 0;
    while i < listed.len()
        invariant
            i <= listed@.len() <= u32::MAX,
            n0 == old_repos.len(),
            names == old_repos.map_values(|o: OrgRepo| o.name.0@),
            existing@.len() == names.len(),
            forall|j: int| 0 <= j < names.len() ==> (#[trigger] existing@[j])@ == names[j],
            pred == (|x: RemoteRepo| !names.contains(x.name@)),
            cfg.name == old(cfg).name,
            cfg.forges == old(cfg).forges,
            old_repos == old(cfg).repos@,
            cfg.repos@.len() == n0 + listed@.take(i as int).filter(pred).len(),
            forall|j: int| 0 <= j < n0 ==> #[trigger] cfg.repos@[j] == old_repos[j],
            forall|j: int|
                0 <= j < listed@.take(i as int).filter(pred).len() ==> {
                    let o = #[trigger] cfg.repos@[n0 + j];
                    let x = listed@.take(i as int).filter(pred)[j];
                    &&& o.name.0@ == x.name@
                    &&& o.remotes@.len() == 1
                    &&& o.remotes@[0].url.0@ == x.url@
                    &&& o.remotes@[0].provider is None
                    &&& o.forges is None
                    &&& o.metadata is None
                },
            added == listed@.take(i as int).filter(pred).len(),
            added + skipped == i,
        decreases listed@.len() - i,
    {
        proof {
            reveal(Seq::filter);
            assert(listed@.take(i + 1).drop_last() =~= listed@.take(i as int));
        }
        let ghost before = listed@.take(i as int).filter(pred);
        let r = &listed[i];
        let mut found = false;
        let mut m: usize = 0;
        while m < existing.len()
            invariant
                m <= existing@.len(),
                existing@.len() == names.len(),
                forall|j: int| 0 <= j < names.len() ==> (#[trigger] existing@[j])@ == names[j],
                found == exists|j: int| 0 <= j < m && names[j] == r.name@,
            decreases existing@.len() - m,
        {
            if crate::text::eq_str(existing[m].as_str(), r.name.as_str()) {
                found = true;
            }
            m = m + 1;
        }
        assert(found == names.contains(r.name@));
        if found {
            skipped = skipped + 1;
            assert(listed@.take(i + 1).filter(pred) == before);
        } else {
            let mut remotes: Vec<Remote> = Vec::new();
            remotes.push(Remote { url: RemoteUrl(r.url.clone()), provider: None });
            cfg.repos.push(OrgRepo { name: RepoName(r.name.clone()), remotes, metadata: None, forges: None });
            added = added + 1;
            assert(listed@.take(i + 1).filter(pred) == before.push(listed@[i as int]));
        }
        i = i + 1;
    }
    assert(listed@.take(listed@.len() as int) =~= listed@);
    let total: u32 = listed.len() as u32;
    (added, skipped, total)
}

/// After an import, importing the same listing again adds nothing:
/// every listed name is then one of the org's repos.
pub proof fn lemma_import_twice_adds_nothing(before: Seq<OrgRepo>, after: Seq<OrgRepo>, listed: Seq<RemoteRepo>)
    requires
        after.len() == before.len() + repos_to_add(before, listed).len(),
        forall|i: int| 0 <= i < before.len() ==> #[trigger] after[i] == before[i],
        forall|i: int|
            0 <= i < repos_to_add(before, listed).len() ==> (#[trigger] after[before.len() + i]).name.0@
                == repos_to_add(before, listed)[i].name@,
    ensures
        repos_to_add(after, listed).len() == 0,
{
    let add = repos_to_add(before, listed);
    let nb = before.map_values(|o: OrgRepo| o.name.0@);
    let na = after.map_values(|o: OrgRepo| o.name.0@);
    let pred = |r: RemoteRepo| !nb.contains(r.name@);
    assert forall|k: int| 0 <= k < listed.len() implies na.contains(#[trigger] listed[k].name@) by {
        let x = listed[k];
        if nb.contains(x.name@) {
            let j = choose|j: int| 0 <= j < nb.len() && nb[j] == x.name@;
            assert(na[j] == nb[j]);
        } else {
            listed.lemma_filter_contains(pred, k);
            assert(add.contains(x));
            let i = choose|i: int| 0 <= i < add.len() && add[i] == x;
            assert(na[before.len() + i] == x.name@);
        }
    }
    let pred2 = |r: RemoteRepo| !na.contains(r.name@);
    assert(listed.all(|x: RemoteRepo| !pred2(x))) by {
        assert forall|k: int| 0 <= k < listed.len() implies !pred2(#[trigger] listed[k]) by {
            assert(na.contains(listed[k].name@));
        }
    }
    listed.lemma_all_neg_filter_empty(pred2);
}

} // verus!
