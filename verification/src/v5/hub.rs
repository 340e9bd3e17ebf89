//! The hubs' shared state and the root hub's decisions: which events
//! its methods emit for the config, credentials and probe results they
//! are handed. Streaming the events, reading the files and calling the
//! forges belong to the program around this library.

use vstd::prelude::*;

use crate::storage::paths::{join_path, path_join};
use crate::text::{concat, starts_with, string_of_range, to_chars};
use crate::v5::adapters::{ForgeErrorClass, ForgePortError};
use crate::v5::config::{CredentialEntry, CredentialType, GlobalConfig, ProviderKind};
use crate::v5::forge_wire::provider_label;

verus! {

/// Shared read-only state of the root hub.
#[derive(Debug, Clone)]
pub struct HubState {
    /// Absolute, expanded config directory.
    pub config_dir: String,
}

/// The root hub.
#[derive(Debug, Clone)]
pub struct HyperforgeHub {
    pub state: HubState,
}

impl HyperforgeHub {
    /// A hub rooted at `config_dir`.
    pub fn new(config_dir: String) -> (h: HyperforgeHub)
        ensures
            h.state.config_dir@ == config_dir@,
    {
        HyperforgeHub { state: HubState { config_dir } }
    }
}

/// The orgs namespace.
#[derive(Debug, Clone)]
pub struct OrgsHub {
    pub config_dir: String,
}

impl OrgsHub {
    pub fn new(config_dir: String) -> (h: OrgsHub)
        ensures
            h.config_dir@ == config_dir@,
    {
        OrgsHub { config_dir }
    }
}

/// The build namespace.
#[derive(Debug, Clone)]
pub struct BuildHub {
    pub config_dir: String,
}

impl BuildHub {
    pub fn new(config_dir: String) -> (h: BuildHub)
        ensures
            h.config_dir@ == config_dir@,
    {
        BuildHub { config_dir }
    }
}

/// The stages of bootstrapping an org, named in failure events.
#[derive(Debug, Clone, Copy, PartialEq, Eq, Structural)]
pub enum BootstrapStage {
    TokenResolve,
    Secret,
    OrgCreate,
    Credential,
    Import,
}

impl BootstrapStage {
    /// The wire name of the stage.
    pub fn as_str(self) -> (s: &'static str)
        ensures
            s@ == match self {
                BootstrapStage::TokenResolve => "token_resolve"@,
                BootstrapStage::Secret => "secret"@,
                BootstrapStage::OrgCreate => "org_create"@,
                BootstrapStage::Credential => "credential"@,
                BootstrapStage::Import => "import"@,
            },
    {
        match self {
            BootstrapStage::TokenResolve => "token_resolve",
            BootstrapStage::Secret => "secret",
            BootstrapStage::OrgCreate => "org_create",
            BootstrapStage::Credential => "credential",
            BootstrapStage::Import => "import",
        }
    }
}

/// Events emitted by the root hub.
#[derive(Debug, Clone)]
pub enum HyperforgeV5Event {
    /// Daemon self-report.
    Status { version: String, config_dir: String },
    /// A resolved secret's value.
    SecretResolved { value: String },
    /// Generic error event.
    Error { code: Option<String>, message: String },
    /// A credential probe's result.
    AuthCheckResult { org: String, key: String, provider: String, valid: bool, message: Option<String> },
    /// A credential an org expects.
    AuthRequirement { org: String, provider: String, key: String, cred_type: String, present: Option<bool> },
    /// Counts after re-reading the config.
    ReloadDone { orgs: u32, workspaces: u32, secrets_refs: u32 },
    /// The global config: each domain with its provider's name.
    ConfigShow { provider_map: Vec<(String, String)>, default_workspace: Option<String> },
    /// An SSH key was set.
    SshKeySet { org: String, forge: String, path: String },
    /// The SSH key path configured on an org, if any.
    SshKeyShow { org: String, forge: String, path: Option<String> },
    /// A suggested next step of onboarding.
    BeginNextStep { action: String, message: String },
}

/// An error event with a code.
fn error_event(code: &str, message: String) -> (e: HyperforgeV5Event)
    ensures
        e matches HyperforgeV5Event::Error { code: Some(c), message: m } && c@ == code@ && m@ == message@,
{
    HyperforgeV5Event::Error { code: Some(code.to_owned()), message }
}

/// The daemon's status event.
pub fn status_event(version: &str, config_dir: &str) -> (e: HyperforgeV5Event)
    ensures
        e matches HyperforgeV5Event::Status { version: v, config_dir: d } && v@ == version@ && d@ == config_dir@,
{
    HyperforgeV5Event::Status { version: version.to_owned(), config_dir: config_dir.to_owned() }
}

/// Whether an org passes the optional org filter.
pub fn org_selected(filter: Option<&str>, name: &str) -> (b: bool)
    ensures
        b == match filter {
            None => true,
            Some(f) => f@ == name@,
        },
{
    match filter {
        None => true,
        Some(f) => crate::text::eq_str(f, name),
    }
}

/// The provider's lowercase name.
pub fn provider_name(p: ProviderKind) -> (s: &'static str)
    ensures
        s@ == provider_label(p),
{
    match p {
        ProviderKind::Github => "github",
        ProviderKind::Codeberg => "codeberg",
        ProviderKind::Gitlab => "gitlab",
    }
}

/// The remote that a credential probe asks about on `p`.
pub open spec fn probe_url_spec(p: ProviderKind) -> Seq<char> {
    match p {
        ProviderKind::Github => "https://github.com/__probe__/__probe__.git"@,
        ProviderKind::Codeberg => "https://codeberg.org/__probe__/__probe__.git"@,
        ProviderKind::Gitlab => "https://gitlab.com/__probe__/__probe__.git"@,
    }
}

/// The remote that a credential probe asks about on `p`.
pub fn probe_url(p: ProviderKind) -> (s: &'static str)
    ensures
        s@ == probe_url_spec(p),
{
    match p {
        ProviderKind::Github => "https://github.com/__probe__/__probe__.git",
        ProviderKind::Codeberg => "https://codeberg.org/__probe__/__probe__.git",
        ProviderKind::Gitlab => "https://gitlab.com/__probe__/__probe__.git",
    }
}

/// The result of probing a credential: only tokens are probed (`None`
/// for any other kind). A probe that reached the forge, even with an
/// error other than an authentication one, shows the token valid; an
/// authentication error shows it invalid, with the error's message.
pub fn auth_check_result(
    org: &str,
    cred: &CredentialEntry,
    provider: ProviderKind,
    probe: Result<bool, ForgePortError>,
) -> (e: Option<HyperforgeV5Event>)
    ensures
        cred.cred_type != CredentialType::Token ==> e is None,
        cred.cred_type == CredentialType::Token ==> (e matches Some(
            HyperforgeV5Event::AuthCheckResult { org: o, key: k, provider: p, valid: v, message: m },
        ) && o@ == org@ && k@ == cred.key@ && p@ == provider_label(provider) && match probe {
            Err(err) => if err.class == ForgeErrorClass::Auth {
                !v && (m matches Some(t) && t@ == err.message@)
            } else {
                v && m is None
            },
            Ok(_) => v && m is None,
        }),
{
    if cred.cred_type != CredentialType::Token {
        return None;
    }
    let (valid, message) = match probe {
        Ok(_) => (true, None),
        Err(e) => if e.class == ForgeErrorClass::Auth {
            (false, Some(e.message))
        } else {
            (true, None)
        },
    };
    Some(
        HyperforgeV5Event::AuthCheckResult {
            org: org.to_owned(),
            key: cred.key.clone(),
            provider: provider_name(provider).to_owned(),
            valid,
            message,
        },
    )
}

/// The wire name of a credential kind.
pub open spec fn cred_type_name(t: CredentialType) -> Seq<char> {
    match t {
        CredentialType::Token => "token"@,
        CredentialType::SshKey => "ssh_key"@,
    }
}

/// Whether a credential is present: unknown (`None`) when its reference
/// does not parse; otherwise whether it resolved to a non-empty value.
pub fn credential_presence(parsed: bool, resolved: Option<&str>) -> (r: Option<bool>)
    ensures
        r == (if !parsed {
            None
        } else {
            Some(resolved matches Some(v) && v@.len() > 0)
        }),
{
    if !parsed {
        return None;
    }
    match resolved {
        Some(v) => Some(!v.is_empty()),
        None => Some(false),
    }
}

/// The requirement event for one credential of an org.
pub fn auth_requirement(org: &str, provider: ProviderKind, cred: &CredentialEntry, present: Option<bool>) -> (e:
    HyperforgeV5Event)
    ensures
        e matches HyperforgeV5Event::AuthRequirement { org: o, provider: p, key: k, cred_type: t, present: q } && o@
            == org@ && p@ == provider_label(provider) && k@ == cred.key@ && t@ == cred_type_name(cred.cred_type)
            && q == present,
{
    let t = match cred.cred_type {
        CredentialType::Token => "token",
        CredentialType::SshKey => "ssh_key",
    };
    HyperforgeV5Event::AuthRequirement {
        org: org.to_owned(),
        provider: provider_name(provider).to_owned(),
        key: cred.key.clone(),
        cred_type: t.to_owned(),
        present,
    }
}

/// The counts reported after a reload (each wrapped to 32 bits, as the
/// wire carries them).
pub fn reload_done(orgs: usize, workspaces: usize, secrets_refs: Option<usize>) -> (e: HyperforgeV5Event)
    ensures
        e matches HyperforgeV5Event::ReloadDone { orgs: a, workspaces: b, secrets_refs: c } && a == orgs as u32 && b
            == workspaces as u32 && c == match secrets_refs {
            Some(n) => n as u32,
            None => 0u32,
        },
{
    let refs: u32 = match secrets_refs {
        Some(n) => n as u32,
        None => 0,
    };
    HyperforgeV5Event::ReloadDone { orgs: orgs as u32, workspaces: workspaces as u32, secrets_refs: refs }
}

/// The global config as shown: each mapped domain with its provider's
/// name, in the map's order, and the default workspace.
pub fn config_show(global: &GlobalConfig) -> (e: HyperforgeV5Event)
    ensures
        e matches HyperforgeV5Event::ConfigShow { provider_map: pm, default_workspace: dw } && pm@.len()
            == global.provider_map.entries@.len() && (forall|i: int|
            0 <= i < pm@.len() ==> (#[trigger] pm@[i]).0@ == global.provider_map.entries@[i].0.0@ && pm@[i].1@
                == provider_label(global.provider_map.entries@[i].1)) && match global.default_workspace {
            Some(w) => (dw matches Some(d) && d@ == w.0@),
            None => dw is None,
        },
{
    let entries = &global.provider_map.entries;
    let mut pm: Vec<(String, String)> = Vec::new();
    let mut i: usize = 0;
    while i < entries.len()
        invariant
            i <= entries@.len(),
            pm@.len() == i,
            forall|j: int|
                0 <= j < i ==> (#[trigger] pm@[j]).0@ == entries@[j].0.0@ && pm@[j].1@ == provider_label(
                    entries@[j].1,
                ),
        decreases entries@.len() - i,
    {
        let d = entries[i].0.0.clone();
        pm.push((d, provider_name(entries[i].1).to_owned()));
        i = i + 1;
    }
    let dw = match &global.default_workspace {
        Some(w) => Some(w.0.clone()),
        None => None,
    };
    HyperforgeV5Event::ConfigShow { provider_map: pm, default_workspace: dw }
}

/// The message for an org that is not configured.
pub open spec fn org_not_found_message(org: Seq<char>) -> Seq<char> {
    "org '"@ + org + "' not found"@
}

/// The error event for an org that is not configured.
pub fn org_not_found(org: &str) -> (e: HyperforgeV5Event)
    ensures
        e matches HyperforgeV5Event::Error { code: Some(c), message: m } && c@ == "not_found"@ && m@
            == org_not_found_message(org@),
{
    let a = concat("org '", org);
    error_event("not_found", concat(a.as_str(), "' not found"))
}

/// Setting an SSH key needs an org, a forge and a key path: the
/// validation error when one is empty.
pub fn ssh_key_params_check(org: &str, forge: &str, key: &str) -> (r: Option<HyperforgeV5Event>)
    ensures
        (org@.len() == 0 || forge@.len() == 0 || key@.len() == 0) <==> r is Some,
        r matches Some(HyperforgeV5Event::Error { code: Some(c), message: m }) ==> c@ == "validation"@ && m@
            == "missing required parameter"@,
        r matches Some(e) ==> e is Error,
{
    if org.is_empty() || forge.is_empty() || key.is_empty() {
        Some(error_event("validation", "missing required parameter".to_owned()))
    } else {
        None
    }
}

/// An SSH key path with a leading `~/` expanded against the home
/// directory, when there is one.
pub open spec fn expand_key_path_spec(key: Seq<char>, home: Option<Seq<char>>) -> Seq<char> {
    match home {
        Some(h) => if "~/"@.is_prefix_of(key) {
            path_join(h, key.skip(2))
        } else {
            key
        },
        None => key,
    }
}

/// An SSH key path with a leading `~/` expanded against the home
/// directory, when there is one.
pub fn expand_key_path(key: &str, home: Option<&str>) -> (s: String)
    ensures
        s@ == expand_key_path_spec(key@, match home {
            Some(h) => Some(h@),
            None => None,
        }),
{
    match home {
        Some(h) => {
            if starts_with(key, "~/") {
                proof {
                    reveal_strlit("~/");
                }
                let v = to_chars(key);
                let rest = string_of_range(&v, 2, v.len());
                assert(v@.subrange(2, v@.len() as int) =~= key@.skip(2));
                join_path(h, rest.as_str())
            } else {
                key.to_owned()
            }
        },
        None => key.to_owned(),
    }
}

/// The credentials that are not SSH keys, in order.
pub open spec fn non_ssh(creds: Seq<CredentialEntry>) -> Seq<CredentialEntry> {
    creds.filter(|c: CredentialEntry| c.cred_type != CredentialType::SshKey)
}

/// An org's credentials with its SSH key set to `path`: every earlier
/// SSH key dropped (one per forge), the others kept in order, and the
/// new key last.
pub fn with_ssh_key(creds: &Vec<CredentialEntry>, path: &str) -> (r: Vec<CredentialEntry>)
    ensures
        r@.len() == non_ssh(creds@).len() + 1,
        forall|i: int| 0 <= i < non_ssh(creds@).len() ==> (#[trigger] r@[i]) == non_ssh(creds@)[i],
        r@.last().key@ == path@,
        r@.last().cred_type == CredentialType::SshKey,
        forall|i: int| 0 <= i < r@.len() - 1 ==> (#[trigger] r@[i]).cred_type != CredentialType::SshKey,
{
    let ghost pred = |c: CredentialEntry| c.cred_type != CredentialType::SshKey;
    let mut out: Vec<CredentialEntry> = Vec::new();
    let mut i: usize = 0;
    while i < creds.len()
        invariant
            i <= creds@.len(),
            pred == (|c: CredentialEntry| c.cred_type != CredentialType::SshKey),
            out@ == creds@.take(i as int).filter(pred),
        decreases creds@.len() - i,
    {
        proof {
            reveal(Seq::filter);
            assert(creds@.take(i + 1).drop_last() =~= creds@.take(i as int));
        }
        if creds[i].cred_type != CredentialType::SshKey {
            out.push(CredentialEntry { key: creds[i].key.clone(), cred_type: creds[i].cred_type });
            assert(out@.last() == creds@[i as int]);
            assert(out@ =~= creds@.take(i + 1).filter(pred));
        } else {
            assert(creds@.take(i + 1).filter(pred) == creds@.take(i as int).filter(pred));
        }
        i = i + 1;
    }
    assert(creds@.take(creds@.len() as int) =~= creds@);
    proof {
        assert forall|i: int| 0 <= i < out@.len() implies (#[trigger] out@[i]).cred_type != CredentialType::SshKey by {
            creds@.lemma_filter_pred(pred, i);
        }
    }
    out.push(CredentialEntry { key: path.to_owned(), cred_type: CredentialType::SshKey });
    out
}

/// After an SSH key is set (every credential but the last is no SSH
/// key, the last is one), it is the key that `ssh_key_show` reports.
pub proof fn lemma_ssh_key_set_is_shown(r: Seq<CredentialEntry>)
    requires
        r.len() > 0,
        r.last().cred_type == CredentialType::SshKey,
        forall|i: int| 0 <= i < r.len() - 1 ==> (#[trigger] r[i]).cred_type != CredentialType::SshKey,
    ensures
        first_ssh_key(r) == Some(r.len() - 1),
    decreases r.len(),
{
    if r.len() > 1 {
        let t = r.drop_first();
        assert forall|i: int| 0 <= i < t.len() - 1 implies (#[trigger] t[i]).cred_type != CredentialType::SshKey by {
            assert(t[i] == r[i + 1]);
        }
        lemma_ssh_key_set_is_shown(t);
        assert(r[0].cred_type != CredentialType::SshKey);
    }
}

/// The event after an SSH key was set.
pub fn ssh_key_set(org: String, forge: String, path: String) -> (e: HyperforgeV5Event)
    ensures
        e matches HyperforgeV5Event::SshKeySet { org: o, forge: f, path: p } && o@ == org@ && f@ == forge@ && p@
            == path@,
{
    HyperforgeV5Event::SshKeySet { org, forge, path }
}

/// The index of the first SSH key among `creds`.
pub open spec fn first_ssh_key(creds: Seq<CredentialEntry>) -> Option<int>
    decreases creds.len(),
{
    if creds.len() == 0 {
        None
    } else if creds[0].cred_type == CredentialType::SshKey {
        Some(0)
    } else {
        match first_ssh_key(creds.drop_first()) {
            Some(i) => Some(i + 1),
            None => None,
        }
    }
}

/// The index of the first SSH key among `creds`.
fn first_ssh_index(creds: &Vec<CredentialEntry>) -> (r: Option<usize>)
    ensures
        match r {
            Some(i) => first_ssh_key(creds@) == Some(i as int) && i < creds@.len(),
            None => first_ssh_key(creds@) is None,
        },
{
    let mut i: usize = 0;
    assert(creds@.skip(0) =~= creds@);
    while i < creds.len()
        invariant
            i <= creds@.len(),
            first_ssh_key(creds@) == (match first_ssh_key(creds@.skip(i as int)) {
                Some(j) => Some(j + i),
                None => None,
            }),
        decreases creds@.len() - i,
    {
        assert(creds@.skip(i as int).drop_first() =~= creds@.skip(i + 1));
        if creds[i].cred_type == CredentialType::SshKey {
            return Some(i);
        }
        i = i + 1;
    }
    assert(creds@.skip(i as int).len() == 0);
    None
}

/// What `config_show_ssh_key` reports for an org on `provider`: under
/// a forge filter that names another provider, the filter's name and no
/// path; otherwise the provider's name and the path of the org's first
/// SSH key, if it has one.
pub fn ssh_key_show(org: String, forge: Option<&str>, provider: ProviderKind, creds: &Vec<CredentialEntry>) -> (e:
    HyperforgeV5Event)
    ensures
        e matches HyperforgeV5Event::SshKeyShow { org: o, forge: f, path: p } && o@ == org@ && match forge {
            Some(name) => if name@ != provider_label(provider) {
                f@ == name@ && p is None
            } else {
                f@ == provider_label(provider) && match first_ssh_key(creds@) {
                    Some(i) => (p matches Some(x) && x@ == creds@[i].key@),
                    None => p is None,
                }
            },
            None => f@ == provider_label(provider) && match first_ssh_key(creds@) {
                Some(i) => (p matches Some(x) && x@ == creds@[i].key@),
                None => p is None,
            },
        },
{
    let pname = provider_name(provider);
    if let Some(f) = forge {
        if !crate::text::eq_str(f, pname) {
            return HyperforgeV5Event::SshKeyShow { org, forge: f.to_owned(), path: None };
        }
    }
    let path = match first_ssh_index(creds) {
        Some(i) => Some(creds[i].key.clone()),
        None => None,
    };
    HyperforgeV5Event::SshKeyShow { org, forge: pname.to_owned(), path }
}

/// The config written on first onboarding: the default provider map.
pub fn default_global_yaml() -> (s: &'static str)
    ensures
        s@ == "provider_map:\n  github.com: github\n  codeberg.org: codeberg\n  gitlab.com: gitlab\n"@,
{
    "provider_map:\n  github.com: github\n  codeberg.org: codeberg\n  gitlab.com: gitlab\n"
}

/// The onboarding steps, in order.
pub fn begin_steps() -> (v: Vec<HyperforgeV5Event>)
    ensures
        v@.len() == 4,
        v@[0] matches HyperforgeV5Event::BeginNextStep { action: a, .. } && a@ == "orgs.create"@,
        v@[1] matches HyperforgeV5Event::BeginNextStep { action: a, .. } && a@ == "secrets.set"@,
        v@[2] matches HyperforgeV5Event::BeginNextStep { action: a, .. } && a@ == "orgs.set_credential"@,
        v@[3] matches HyperforgeV5Event::BeginNextStep { action: a, .. } && a@ == "repos.import"@,
{
    let mut v: Vec<HyperforgeV5Event> = Vec::new();
    v.push(
        HyperforgeV5Event::BeginNextStep {
            action: "orgs.create".to_owned(),
            message: "Register an org: `orgs create --name <org> --provider github`".to_owned(),
        },
    );
    v.push(
        HyperforgeV5Event::BeginNextStep {
            action: "secrets.set".to_owned(),
            message: "Add a token: `secrets set --key secrets://github/<org>/token --value <gh-token>`".to_owned(),
        },
    );
    v.push(
        HyperforgeV5Event::BeginNextStep {
            action: "orgs.set_credential".to_owned(),
            message: "Wire it: `orgs set_credential --name <org> --key secrets://github/<org>/token --type token`".to_owned(),
        },
    );
    v.push(
        HyperforgeV5Event::BeginNextStep {
            action: "repos.import".to_owned(),
            message: "Pull in your repos: `repos import --org <org> --forge github`".to_owned(),
        },
    );
    v
}

} // verus!
