//! What the forge adapters decide from their HTTP exchanges: which error
//! a status code means, what a create request carries and what its
//! answer means, and what a repo listing or metadata document holds.
//!
//! The driver sends the requests and parses the JSON bodies into
//! documents; the functions here take the status codes, status texts
//! (such as `404 Not Found`), body texts and documents.

use vstd::prelude::*;

use super::adapters::{
    ForgeErrorClass, ForgeMetadata, ForgePortError, ProviderVisibility, visibility_name,
};
use super::config::ProviderKind;
use vstd::utf8::encode_utf8;
use crate::doc::{get_spec, json_doc, parse_json, DocValue};
use crate::text::{
    concat, contains, contains_str, first_index, split, string_of_range, to_chars, trim, trim_str,
    views,
};

verus! {

/// The provider's name in error messages.
pub open spec fn provider_label(p: ProviderKind) -> Seq<char> {
    match p {
        ProviderKind::Github => "github"@,
        ProviderKind::Codeberg => "codeberg"@,
        ProviderKind::Gitlab => "gitlab"@,
    }
}

fn label(p: ProviderKind) -> (s: &'static str)
    ensures
        s@ == provider_label(p),
{
    match p {
        ProviderKind::Github => "github",
        ProviderKind::Codeberg => "codeberg",
        ProviderKind::Gitlab => "gitlab",
    }
}

/// A 2xx status.
pub open spec fn success(code: u16) -> bool {
    200 <= code <= 299
}

/// Whether `code` is a 2xx status.
pub fn is_success(code: u16) -> (b: bool)
    ensures
        b == success(code),
{
    200 <= code && code <= 299
}

/// An error as plain values.
pub open spec fn err_view(e: ForgePortError) -> (ForgeErrorClass, Seq<char>) {
    (e.class, e.message@)
}

/// The error a failed request of provider `p` maps to: 401 and 403 are
/// auth errors (rate limiting on GitHub when the body says so), 404 not
/// found, 429 rate limited, anything else a network error. The message
/// names the provider, the status text and the body.
pub open spec fn status_error(p: ProviderKind, code: u16, status: Seq<char>, body: Seq<char>) -> (ForgeErrorClass, Seq<char>) {
    let full = provider_label(p) + " "@ + status + ": "@ + body;
    if code == 401 || code == 403 {
        if p == ProviderKind::Github && (contains(body, "rate limit"@) || contains(body, "API rate limit exceeded"@)) {
            (ForgeErrorClass::RateLimited, full)
        } else {
            (ForgeErrorClass::Auth, full)
        }
    } else if code == 404 {
        (ForgeErrorClass::NotFound, provider_label(p) + " 404: "@ + body)
    } else if code == 429 {
        (ForgeErrorClass::RateLimited, full)
    } else {
        (ForgeErrorClass::Network, full)
    }
}

/// The error a failed request maps to; `status` is the status as text
/// (such as `500 Internal Server Error`).
pub fn map_status_error(p: ProviderKind, code: u16, status: &str, body: &str) -> (e: ForgePortError)
    ensures
        err_view(e) == status_error(p, code, status@, body@),
{
    let a = concat(label(p), " ");
    let b = concat(a.as_str(), status);
    let c = concat(b.as_str(), ": ");
    let full = concat(c.as_str(), body);
    if code == 401 || code == 403 {
        if p == ProviderKind::Github && (contains_str(body, "rate limit") || contains_str(body, "API rate limit exceeded")) {
            ForgePortError::rate_limited(full.as_str())
        } else {
            ForgePortError::auth(full.as_str())
        }
    } else if code == 404 {
        let m = concat(label(p), " 404: ");
        ForgePortError::not_found(concat(m.as_str(), body).as_str())
    } else if code == 429 {
        ForgePortError::rate_limited(full.as_str())
    } else {
        ForgePortError::network(full.as_str())
    }
}

/// A resolved token is usable unless it is blank.
pub fn check_token(value: String) -> (r: Result<String, ForgePortError>)
    ensures
        match r {
            Ok(t) => t@ == value@ && trim(value@).len() > 0,
            Err(e) => trim(value@).len() == 0 && err_view(e) == (ForgeErrorClass::Auth, "token is empty"@),
        },
{
    let t = trim_str(value.as_str());
    if t.as_str().unicode_len() == 0 {
        Err(ForgePortError::auth("token is empty"))
    } else {
        Ok(value)
    }
}

// ---------------------------------------------------------------------
// Creating a repo.
// ---------------------------------------------------------------------

/// The error for a visibility the provider lacks, if it does.
pub open spec fn visibility_refusal(p: ProviderKind, v: ProviderVisibility) -> Option<Seq<char>> {
    if v == ProviderVisibility::Internal {
        match p {
            ProviderKind::Github => Some("github.com does not support visibility 'internal'"@),
            ProviderKind::Codeberg => Some("codeberg.org (Gitea) does not support visibility 'internal'"@),
            ProviderKind::Gitlab => None,
        }
    } else {
        None
    }
}

/// Refuses, before any request, a visibility the provider lacks:
/// `internal` on GitHub and Codeberg.
pub fn check_create_visibility(p: ProviderKind, v: ProviderVisibility) -> (r: Result<(), ForgePortError>)
    ensures
        match visibility_refusal(p, v) {
            None => r is Ok,
            Some(m) => r is Err && err_view(r->Err_0) == (ForgeErrorClass::UnsupportedVisibility, m),
        },
{
    if v == ProviderVisibility::Internal {
        match p {
            ProviderKind::Github => Err(ForgePortError::unsupported_visibility("github.com does not support visibility 'internal'")),
            ProviderKind::Codeberg => Err(ForgePortError::unsupported_visibility(
                "codeberg.org (Gitea) does not support visibility 'internal'",
            )),
            ProviderKind::Gitlab => Ok(()),
        }
    } else {
        Ok(())
    }
}

/// The fields of a create request.
#[derive(Debug, Clone)]
pub struct CreateRepoBody {
    pub name: String,
    /// GitLab's project path.
    pub path: Option<String>,
    /// GitHub's and Codeberg's private flag.
    pub private: Option<bool>,
    /// GitHub's and GitLab's visibility name.
    pub visibility: Option<String>,
    /// Only when the description is not empty.
    pub description: Option<String>,
    /// GitLab's group id, when the org is a group.
    pub namespace_id: Option<i64>,
}

/// The view of an optional string.
pub open spec fn ostr(o: Option<String>) -> Option<Seq<char>> {
    match o {
        Some(s) => Some(s@),
        None => None,
    }
}

/// What a create request of provider `p` carries.
pub open spec fn create_body_ok(
    p: ProviderKind,
    name: Seq<char>,
    v: ProviderVisibility,
    description: Seq<char>,
    namespace_id: Option<i64>,
    b: CreateRepoBody,
) -> bool {
    &&& b.name@ == name
    &&& ostr(b.description) == if description.len() == 0 {
        None
    } else {
        Some(description)
    }
    &&& match p {
        ProviderKind::Github => {
            &&& b.path is None
            &&& b.private == Some(v == ProviderVisibility::Private)
            &&& ostr(b.visibility) == Some(visibility_name(v))
            &&& b.namespace_id is None
        },
        ProviderKind::Codeberg => {
            &&& b.path is None
            &&& b.private == Some(v == ProviderVisibility::Private)
            &&& b.visibility is None
            &&& b.namespace_id is None
        },
        ProviderKind::Gitlab => {
            &&& ostr(b.path) == Some(name)
            &&& b.private is None
            &&& ostr(b.visibility) == Some(visibility_name(v))
            &&& b.namespace_id == namespace_id
        },
    }
}

/// The body of a create request; `namespace_id` is only sent to GitLab.
pub fn create_body(
    p: ProviderKind,
    name: &str,
    v: ProviderVisibility,
    description: &str,
    namespace_id: Option<i64>,
) -> (b: CreateRepoBody)
    ensures
        create_body_ok(p, name@, v, description@, namespace_id, b),
{
    let desc = if description.unicode_len() == 0 {
        None
    } else {
        Some(description.to_string())
    };
    let private = v == ProviderVisibility::Private;
    match p {
        ProviderKind::Github => CreateRepoBody {
            name: name.to_string(),
            path: None,
            private: Some(private),
            visibility: Some(v.as_str().to_string()),
            description: desc,
            namespace_id: None,
        },
        ProviderKind::Codeberg => CreateRepoBody {
            name: name.to_string(),
            path: None,
            private: Some(private),
            visibility: None,
            description: desc,
            namespace_id: None,
        },
        ProviderKind::Gitlab => CreateRepoBody {
            name: name.to_string(),
            path: Some(name.to_string()),
            private: None,
            visibility: Some(v.as_str().to_string()),
            description: desc,
            namespace_id,
        },
    }
}

/// What the answer to a create request means.
#[derive(Debug)]
pub enum CreateStep {
    /// The repo was created.
    Done,
    /// The org endpoint did not know the owner: retry as the user.
    RetryAsUser,
    /// The request failed.
    Failed(ForgePortError),
}

/// A create answer as plain values.
pub enum CreateView {
    Done,
    RetryAsUser,
    Failed(ForgeErrorClass, Seq<char>),
}

/// The view of a create answer.
pub open spec fn create_view(s: CreateStep) -> CreateView {
    match s {
        CreateStep::Done => CreateView::Done,
        CreateStep::RetryAsUser => CreateView::RetryAsUser,
        CreateStep::Failed(e) => CreateView::Failed(e.class, e.message@),
    }
}

/// The conflict message of provider `p`.
pub open spec fn conflict_message(p: ProviderKind, org: Seq<char>, name: Seq<char>) -> Seq<char> {
    match p {
        ProviderKind::Gitlab => "gitlab project '"@ + org + "/"@ + name + "' already exists"@,
        _ => provider_label(p) + " repo '"@ + org + "/"@ + name + "' already exists"@,
    }
}

/// What the answer (`code`, `status` text, `body`) to a create request
/// means. GitHub and Codeberg first post to the org endpoint (`as_user`
/// false) and retry as the user on 404; GitLab posts once.
pub open spec fn create_answer(
    p: ProviderKind,
    as_user: bool,
    code: u16,
    status: Seq<char>,
    body: Seq<char>,
    org: Seq<char>,
    name: Seq<char>,
) -> CreateView {
    let fail = status_error(p, code, status, body);
    if success(code) {
        CreateView::Done
    } else {
        match p {
            ProviderKind::Github => if code == 422 {
                if contains(body, "already exists"@) || contains(body, "name already exists"@) {
                    CreateView::Failed(ForgeErrorClass::Conflict, conflict_message(p, org, name))
                } else {
                    CreateView::Failed(ForgeErrorClass::Network, "github 422: "@ + body)
                }
            } else if code == 404 && !as_user {
                CreateView::RetryAsUser
            } else {
                CreateView::Failed(fail.0, fail.1)
            },
            ProviderKind::Codeberg => if code == 409 {
                CreateView::Failed(ForgeErrorClass::Conflict, conflict_message(p, org, name))
            } else if code == 422 && !as_user {
                if contains(body, "already exists"@) || contains(body, "taken"@) {
                    CreateView::Failed(ForgeErrorClass::Conflict, conflict_message(p, org, name))
                } else {
                    CreateView::Failed(ForgeErrorClass::Network, "codeberg 422: "@ + body)
                }
            } else if code == 404 && !as_user {
                CreateView::RetryAsUser
            } else {
                CreateView::Failed(fail.0, fail.1)
            },
            ProviderKind::Gitlab => if code == 400 || code == 409 {
                if contains(body, "has already been taken"@) || contains(body, "already exists"@) {
                    CreateView::Failed(ForgeErrorClass::Conflict, conflict_message(p, org, name))
                } else {
                    CreateView::Failed(ForgeErrorClass::Network, "gitlab "@ + status + ": "@ + body)
                }
            } else {
                CreateView::Failed(fail.0, fail.1)
            },
        }
    }
}

fn conflict_error(p: ProviderKind, org: &str, name: &str) -> (e: ForgePortError)
    ensures
        err_view(e) == (ForgeErrorClass::Conflict, conflict_message(p, org@, name@)),
{
    let head = match p {
        ProviderKind::Gitlab => "gitlab project '".to_string(),
        _ => concat(label(p), " repo '"),
    };
    let a = concat(head.as_str(), org);
    let b = concat(a.as_str(), "/");
    let c = concat(b.as_str(), name);
    let m = concat(c.as_str(), "' already exists");
    ForgePortError::conflict(m.as_str())
}

/// What the answer to a create request means (see `create_answer`).
pub fn create_response(
    p: ProviderKind,
    as_user: bool,
    code: u16,
    status: &str,
    body: &str,
    org: &str,
    name: &str,
) -> (s: CreateStep)
    ensures
        create_view(s) == create_answer(p, as_user, code, status@, body@, org@, name@),
{
    if is_success(code) {
        return CreateStep::Done;
    }
    match p {
        ProviderKind::Github => {
            if code == 422 {
                if contains_str(body, "already exists") || contains_str(body, "name already exists") {
                    CreateStep::Failed(conflict_error(p, org, name))
                } else {
                    CreateStep::Failed(ForgePortError::network(concat("github 422: ", body).as_str()))
                }
            } else if code == 404 && !as_user {
                CreateStep::RetryAsUser
            } else {
                CreateStep::Failed(map_status_error(p, code, status, body))
            }
        },
        ProviderKind::Codeberg => {
            if code == 409 {
                CreateStep::Failed(conflict_error(p, org, name))
            } else if code == 422 && !as_user {
                if contains_str(body, "already exists") || contains_str(body, "taken") {
                    CreateStep::Failed(conflict_error(p, org, name))
                } else {
                    CreateStep::Failed(ForgePortError::network(concat("codeberg 422: ", body).as_str()))
                }
            } else if code == 404 && !as_user {
                CreateStep::RetryAsUser
            } else {
                CreateStep::Failed(map_status_error(p, code, status, body))
            }
        },
        ProviderKind::Gitlab => {
            if code == 400 || code == 409 {
                if contains_str(body, "has already been taken") || contains_str(body, "already exists") {
                    CreateStep::Failed(conflict_error(p, org, name))
                } else {
                    let a = concat("gitlab ", status);
                    let b = concat(a.as_str(), ": ");
                    CreateStep::Failed(ForgePortError::network(concat(b.as_str(), body).as_str()))
                }
            } else {
                CreateStep::Failed(map_status_error(p, code, status, body))
            }
        },
    }
}

/// The group id GitLab answered a group lookup with (`id`, when it is
/// an integer).
pub open spec fn group_id(doc: DocValue) -> Option<i64> {
    match get_spec(doc, "id"@) {
        Some(DocValue::Int(n)) => Some(n),
        _ => None,
    }
}

/// What a GitLab group lookup gives: the group's id (`body` is the
/// parsed answer of a 2xx), no group on 404, or the mapped error.
pub fn group_lookup(code: u16, status: &str, text: &str, body: Option<&DocValue>) -> (r: Result<Option<i64>, ForgePortError>)
    requires
        success(code) ==> body is Some,
    ensures
        success(code) ==> r == Ok::<Option<i64>, ForgePortError>(group_id(*body->0)),
        !success(code) && code == 404 ==> r == Ok::<Option<i64>, ForgePortError>(None),
        !success(code) && code != 404 ==> r is Err && err_view(r->Err_0) == status_error(
            ProviderKind::Gitlab,
            code,
            status@,
            text@,
        ),
{
    if is_success(code) {
        match body {
            Some(d) => match d.get("id") {
                Some(DocValue::Int(n)) => Ok(Some(*n)),
                _ => Ok(None),
            },
            None => Ok(None),
        }
    } else if code == 404 {
        Ok(None)
    } else {
        Err(map_status_error(ProviderKind::Gitlab, code, status, text))
    }
}

// ---------------------------------------------------------------------
// Other answers.
// ---------------------------------------------------------------------

/// The answer to a delete (any 2xx, 204 among them, deletes), rename or
/// metadata write (a 2xx succeeds).
pub fn plain_response(p: ProviderKind, code: u16, status: &str, body: &str) -> (r: Result<(), ForgePortError>)
    ensures
        success(code) ==> r is Ok,
        !success(code) ==> r is Err && err_view(r->Err_0) == status_error(p, code, status@, body@),
{
    if is_success(code) {
        Ok(())
    } else {
        Err(map_status_error(p, code, status, body))
    }
}

/// The answer to an existence check: a 2xx means yes, 404 no.
pub fn exists_response(p: ProviderKind, code: u16, status: &str, body: &str) -> (r: Result<bool, ForgePortError>)
    ensures
        success(code) ==> r == Ok::<bool, ForgePortError>(true),
        !success(code) && code == 404 ==> r == Ok::<bool, ForgePortError>(false),
        !success(code) && code != 404 ==> r is Err && err_view(r->Err_0) == status_error(p, code, status@, body@),
{
    if is_success(code) {
        Ok(true)
    } else if code == 404 {
        Ok(false)
    } else {
        Err(map_status_error(p, code, status, body))
    }
}

// ---------------------------------------------------------------------
// Documents.
// ---------------------------------------------------------------------

/// The string under `key`, if there is one.
pub open spec fn opt_str(doc: DocValue, key: Seq<char>) -> Option<Seq<char>> {
    match get_spec(doc, key) {
        Some(DocValue::Str(s)) => Some(s@),
        _ => None,
    }
}

/// The flag under `key`, if there is one.
pub open spec fn opt_bool(doc: DocValue, key: Seq<char>) -> Option<bool> {
    match get_spec(doc, key) {
        Some(DocValue::Bool(b)) => Some(b),
        _ => None,
    }
}

/// The string under `key`, or `d`.
pub open spec fn str_or(doc: DocValue, key: Seq<char>, d: Seq<char>) -> Seq<char> {
    match opt_str(doc, key) {
        Some(s) => s,
        None => d,
    }
}

fn get_str(doc: &DocValue, key: &str) -> (r: Option<String>)
    ensures
        ostr(r) == opt_str(*doc, key@),
{
    match doc.get(key) {
        Some(DocValue::Str(s)) => Some(s.clone()),
        _ => None,
    }
}

fn get_bool(doc: &DocValue, key: &str) -> (r: Option<bool>)
    ensures
        r == opt_bool(*doc, key@),
{
    match doc.get(key) {
        Some(DocValue::Bool(b)) => Some(*b),
        _ => None,
    }
}

fn str_or_exec(doc: &DocValue, key: &str, d: &str) -> (r: String)
    ensures
        r@ == str_or(*doc, key@, d@),
{
    match get_str(doc, key) {
        Some(s) => s,
        None => d.to_string(),
    }
}

/// The visibility a metadata document of `p` reports: GitHub's
/// `visibility`, else its `private` flag; Codeberg's `private` flag;
/// GitLab's `visibility` (private when absent).
pub open spec fn metadata_visibility(p: ProviderKind, v: DocValue) -> Seq<char> {
    let private_flag = opt_bool(v, "private"@) == Some(true);
    match p {
        ProviderKind::Github => match opt_str(v, "visibility"@) {
            Some(s) => s,
            None => if private_flag {
                "private"@
            } else {
                "public"@
            },
        },
        ProviderKind::Codeberg => if private_flag {
            "private"@
        } else {
            "public"@
        },
        ProviderKind::Gitlab => str_or(v, "visibility"@, "private"@),
    }
}

/// The metadata a provider's repo document holds: default branch and
/// description (empty when absent), archived flag (false when absent)
/// and visibility.
pub fn metadata_from_doc(p: ProviderKind, v: &DocValue) -> (m: ForgeMetadata)
    ensures
        m.default_branch@ == str_or(*v, "default_branch"@, ""@),
        m.description@ == str_or(*v, "description"@, ""@),
        m.archived == (opt_bool(*v, "archived"@) == Some(true)),
        m.visibility@ == metadata_visibility(p, *v),
{
    let default_branch = str_or_exec(v, "default_branch", "");
    let description = str_or_exec(v, "description", "");
    let archived = match get_bool(v, "archived") {
        Some(b) => b,
        None => false,
    };
    let private_flag = match get_bool(v, "private") {
        Some(b) => b,
        None => false,
    };
    let visibility = match p {
        ProviderKind::Github => match get_str(v, "visibility") {
            Some(s) => s,
            None => if private_flag {
                "private".to_string()
            } else {
                "public".to_string()
            },
        },
        ProviderKind::Codeberg => if private_flag {
            "private".to_string()
        } else {
            "public".to_string()
        },
        ProviderKind::Gitlab => str_or_exec(v, "visibility", "private"),
    };
    ForgeMetadata { default_branch, description, archived, visibility }
}

/// A repo as a provider lists it.
#[derive(Debug, Clone)]
pub struct RemoteRepo {
    pub name: String,
    pub url: String,
    pub default_branch: Option<String>,
    pub description: Option<String>,
    pub archived: Option<bool>,
    pub visibility: Option<String>,
}

/// A listed repo as plain values.
pub struct RemoteRepoView {
    pub name: Seq<char>,
    pub url: Seq<char>,
    pub default_branch: Option<Seq<char>>,
    pub description: Option<Seq<char>>,
    pub archived: Option<bool>,
    pub visibility: Option<Seq<char>>,
}

impl View for RemoteRepo {
    type V = RemoteRepoView;

    open spec fn view(&self) -> RemoteRepoView {
        RemoteRepoView {
            name: self.name@,
            url: self.url@,
            default_branch: ostr(self.default_branch),
            description: ostr(self.description),
            archived: self.archived,
            visibility: ostr(self.visibility),
        }
    }
}

/// The first of two optional strings that is there, or nothing.
pub open spec fn first_of(a: Option<Seq<char>>, b: Option<Seq<char>>) -> Seq<char> {
    match a {
        Some(x) => x,
        None => match b {
            Some(y) => y,
            None => Seq::empty(),
        },
    }
}

/// The repo an item of a provider's listing describes; nothing when it
/// has no name. GitHub and Codeberg name it by `name` and locate it by
/// `clone_url` (else `html_url`); GitLab by `path` (else `name`) and
/// `http_url_to_repo` (else `web_url`). Codeberg's visibility comes from
/// its `private` flag.
pub open spec fn listed_repo(p: ProviderKind, item: DocValue) -> Option<RemoteRepoView> {
    let name = match p {
        ProviderKind::Gitlab => first_of(opt_str(item, "path"@), opt_str(item, "name"@)),
        _ => str_or(item, "name"@, ""@),
    };
    let url = match p {
        ProviderKind::Gitlab => first_of(opt_str(item, "http_url_to_repo"@), opt_str(item, "web_url"@)),
        _ => first_of(opt_str(item, "clone_url"@), opt_str(item, "html_url"@)),
    };
    if name.len() == 0 {
        None
    } else {
        Some(RemoteRepoView {
            name,
            url,
            default_branch: opt_str(item, "default_branch"@),
            description: opt_str(item, "description"@),
            archived: opt_bool(item, "archived"@),
            visibility: match p {
                ProviderKind::Codeberg => Some(
                    if opt_bool(item, "private"@) == Some(true) {
                        "private"@
                    } else {
                        "public"@
                    },
                ),
                _ => opt_str(item, "visibility"@),
            },
        })
    }
}

/// The repos of a listing page, in order.
pub open spec fn listed_repos(p: ProviderKind, items: Seq<DocValue>) -> Seq<RemoteRepoView>
    decreases items.len(),
{
    if items.len() == 0 {
        Seq::empty()
    } else {
        let rest = listed_repos(p, items.drop_last());
        match listed_repo(p, items.last()) {
            Some(r) => rest.push(r),
            None => rest,
        }
    }
}

/// The items of a listing page (none unless it is an array).
pub open spec fn page_items(body: DocValue) -> Seq<DocValue> {
    match body {
        DocValue::Array(a) => a@,
        _ => Seq::empty(),
    }
}

/// The repos as plain values.
pub open spec fn repo_views(s: Seq<RemoteRepo>) -> Seq<RemoteRepoView> {
    s.map_values(|r: RemoteRepo| r@)
}

fn first_of_exec(a: Option<String>, b: Option<String>) -> (r: String)
    ensures
        r@ == first_of(ostr(a), ostr(b)),
{
    match a {
        Some(x) => x,
        None => match b {
            Some(y) => y,
            None => String::new(),
        },
    }
}

/// The repo a Codeberg migration created, from the answer `v`: the
/// clone URL (empty when absent), the answer's name (else the requested
/// `dest_name`), and the optional fields as given.
pub open spec fn migrated_repo(v: DocValue, dest_name: Seq<char>) -> RemoteRepoView {
    RemoteRepoView {
        name: str_or(v, "name"@, dest_name),
        url: str_or(v, "clone_url"@, ""@),
        default_branch: opt_str(v, "default_branch"@),
        description: opt_str(v, "description"@),
        archived: opt_bool(v, "archived"@),
        visibility: opt_str(v, "visibility"@),
    }
}

/// The repo a Codeberg migration created (see `migrated_repo`).
pub fn migrate_response(v: &DocValue, dest_name: &str) -> (r: RemoteRepo)
    ensures
        r@ == migrated_repo(*v, dest_name@),
{
    proof {
        reveal_strlit("");
    }
    RemoteRepo {
        name: str_or_exec(v, "name", dest_name),
        url: str_or_exec(v, "clone_url", ""),
        default_branch: get_str(v, "default_branch"),
        description: get_str(v, "description"),
        archived: get_bool(v, "archived"),
        visibility: get_str(v, "visibility"),
    }
}

/// The repo an item of a listing describes (see `listed_repo`).
pub fn repo_from_item(p: ProviderKind, item: &DocValue) -> (r: Option<RemoteRepo>)
    ensures
        match listed_repo(p, *item) {
            Some(x) => r is Some && r->0@ == x,
            None => r is None,
        },
{
    let name = match p {
        ProviderKind::Gitlab => first_of_exec(get_str(item, "path"), get_str(item, "name")),
        _ => str_or_exec(item, "name", ""),
    };
    proof {
        reveal_strlit("");
    }
    if name.as_str().unicode_len() == 0 {
        return None;
    }
    let url = match p {
        ProviderKind::Gitlab => first_of_exec(get_str(item, "http_url_to_repo"), get_str(item, "web_url")),
        _ => first_of_exec(get_str(item, "clone_url"), get_str(item, "html_url")),
    };
    let visibility = match p {
        ProviderKind::Codeberg => {
            if get_bool(item, "private") == Some(true) {
                Some("private".to_string())
            } else {
                Some("public".to_string())
            }
        },
        _ => get_str(item, "visibility"),
    };
    Some(
        RemoteRepo {
            name,
            url,
            default_branch: get_str(item, "default_branch"),
            description: get_str(item, "description"),
            archived: get_bool(item, "archived"),
            visibility,
        },
    )
}

/// Appends the repos of a listing page to `items`; returns how many.
pub fn push_listed(p: ProviderKind, body: &DocValue, items: &mut Vec<RemoteRepo>) -> (added: usize)
    ensures
        repo_views(final(items)@) == repo_views(old(items)@) + listed_repos(p, page_items(*body)),
        added == listed_repos(p, page_items(*body)).len(),
{
    let ghost start = repo_views(items@);
    let mut added: usize = 0;
    match body {
        DocValue::Array(a) => {
            let mut i: usize = 0;
            while i < a.len()
                invariant
                    i <= a@.len(),
                    *body == DocValue::Array(*a),
                    repo_views(items@) == start + listed_repos(p, a@.take(i as int)),
                    added == listed_repos(p, a@.take(i as int)).len(),
                    added <= i,
                decreases a@.len() - i,
            {
                assert(a@.take(i + 1).drop_last() =~= a@.take(i as int));
                assert(a@.take(i + 1).last() == a@[i as int]);
                let ghost before = items@;
                match repo_from_item(p, &a[i]) {
                    Some(r) => {
                        items.push(r);
                        added = added + 1;
                        proof {
                            assert(repo_views(items@) =~= repo_views(before).push(listed_repo(p, a@[i as int])->0));
                        }
                    },
                    None => {},
                }
                i = i + 1;
            }
            assert(a@.take(i as int) =~= a@);
        },
        _ => {
            assert(repo_views(items@) =~= start + Seq::<RemoteRepoView>::empty());
        },
    }
    added
}

/// Whether a listing that got a 404 on its first page of the org
/// endpoint, with nothing listed yet, retries as a user.
pub fn list_retry_as_user(code: u16, first_page: bool, tried_user: bool, listed: usize) -> (b: bool)
    ensures
        b == (code == 404 && first_page && !tried_user && listed == 0),
{
    code == 404 && first_page && !tried_user && listed == 0
}

/// Whether a paged listing (Codeberg, GitLab: 50 per page, at most 100
/// pages) goes on after page `page` gave `added` repos.
pub fn list_more_pages(added: usize, page: u32) -> (b: bool)
    ensures
        b == (added >= 50 && page + 1 <= 100),
{
    added >= 50 && page < 100
}

// ---------------------------------------------------------------------
// GitHub's Link header.
// ---------------------------------------------------------------------

/// The first part of a Link header marked `rel="next"`, trimmed.
pub open spec fn next_part(parts: Seq<Seq<char>>) -> Option<Seq<char>>
    decreases parts.len(),
{
    if parts.len() == 0 {
        None
    } else if contains(trim(parts[0]), "rel=\"next\""@) {
        Some(trim(parts[0]))
    } else {
        next_part(parts.drop_first())
    }
}

/// Whether reading the `rel="next"` part of `header` would cut it with
/// its `>` before its `<` (the cut panics there).
pub open spec fn next_link_malformed(header: Seq<char>) -> bool {
    match next_part(split(header, ',')) {
        Some(part) => match (first_index(part, '<'), first_index(part, '>')) {
            (Some(a), Some(b)) => b < a + 1,
            _ => false,
        },
        None => false,
    }
}

/// The URL of the `rel="next"` part of a Link header: what lies between
/// its first `<` and its first `>`.
pub open spec fn next_link(header: Seq<char>) -> Option<Seq<char>> {
    match next_part(split(header, ',')) {
        Some(part) => match (first_index(part, '<'), first_index(part, '>')) {
            (Some(a), Some(b)) => Some(part.subrange(a + 1, b)),
            _ => None,
        },
        None => None,
    }
}

fn index_of_char(s: &str, c: char) -> (r: Option<usize>)
    ensures
        match r {
            Some(i) => first_index(s@, c) == Some(i as int) && i < s@.len(),
            None => first_index(s@, c) is None,
        },
        s@.len() <= usize::MAX,
{
    let v = to_chars(s);
    assert(v@.subrange(0, v@.len() as int) =~= v@);
    crate::text::find_char(&v, 0, v.len(), c)
}

/// Whether `header`'s `rel="next"` part has its `>` before its `<`.
pub fn link_header_malformed(header: &str) -> (b: bool)
    ensures
        b == next_link_malformed(header@),
{
    match next_link_part(header) {
        Some(part) => match (index_of_char(part.as_str(), '<'), index_of_char(part.as_str(), '>')) {
            (Some(a), Some(b)) => b < a + 1,
            _ => false,
        },
        None => false,
    }
}

fn next_link_part(header: &str) -> (r: Option<String>)
    ensures
        ostr(r) == next_part(split(header@, ',')),
{
    let parts = crate::text::split_str(header, ',');
    let mut i: usize = 0;
    proof {
        reveal_strlit("rel=\"next\"");
    }
    assert(views(parts@).skip(0) =~= views(parts@));
    while i < parts.len()
        invariant
            i <= parts@.len(),
            views(parts@) == split(header@, ','),
            next_part(split(header@, ',')) == next_part(views(parts@).skip(i as int)),
        decreases parts@.len() - i,
    {
        assert(views(parts@).skip(i as int)[0] == parts@[i as int]@);
        assert(views(parts@).skip(i as int).drop_first() =~= views(parts@).skip(i + 1));
        let part = trim_str(parts[i].as_str());
        if contains_str(part.as_str(), "rel=\"next\"") {
            return Some(part);
        }
        i = i + 1;
    }
    None
}

/// The URL of the next page named by a GitHub Link header.
pub fn parse_next_link(header: &str) -> (r: Option<String>)
    requires
        !next_link_malformed(header@),
    ensures
        ostr(r) == next_link(header@),
{
    match next_link_part(header) {
        Some(part) => match (index_of_char(part.as_str(), '<'), index_of_char(part.as_str(), '>')) {
            (Some(a), Some(b)) => {
                let v = to_chars(part.as_str());
                Some(string_of_range(&v, a + 1, b))
            },
            _ => None,
        },
        None => None,
    }
}

// ---------------------------------------------------------------------
// GitLab project paths.
// ---------------------------------------------------------------------

/// A byte that URL encoding keeps: an ASCII letter or digit, `-`, `.`,
/// `_` or `~`.
pub open spec fn url_safe(b: u8) -> bool {
    (48 <= b <= 57) || (65 <= b <= 90) || (97 <= b <= 122) || b == 45 || b == 46 || b == 95 || b == 126
}

/// An upper-case hexadecimal digit.
pub open spec fn hex_digit(d: int) -> char {
    if d < 10 {
        (48 + d) as char
    } else {
        (55 + d) as char
    }
}

/// The URL encoding of one byte.
pub open spec fn encode_byte(b: u8) -> Seq<char> {
    if url_safe(b) {
        seq![b as char]
    } else {
        seq!['%', hex_digit((b / 16) as int), hex_digit((b % 16) as int)]
    }
}

/// The URL encoding of bytes: each kept byte as itself, each other one
/// as `%` and two upper-case hex digits.
pub open spec fn percent_encode(bs: Seq<u8>) -> Seq<char>
    decreases bs.len(),
{
    if bs.len() == 0 {
        Seq::empty()
    } else {
        percent_encode(bs.drop_last()) + encode_byte(bs.last())
    }
}

proof fn lemma_percent_encode_append(a: Seq<u8>, b: Seq<u8>)
    ensures
        percent_encode(a + b) == percent_encode(a) + percent_encode(b),
    decreases b.len(),
{
    if b.len() == 0 {
        assert(a + b =~= a);
        assert(percent_encode(a) + percent_encode(b) =~= percent_encode(a));
    } else {
        lemma_percent_encode_append(a, b.drop_last());
        assert((a + b).drop_last() =~= a + b.drop_last());
        assert((a + b).last() == b.last());
        assert(percent_encode(a) + percent_encode(b.drop_last()) + encode_byte(b.last()) =~= percent_encode(a) + (
        percent_encode(b.drop_last()) + encode_byte(b.last())));
    }
}

/// URL encoding leaves bytes that are ASCII letters, digits, `-`, `.`,
/// `_` and `~` as they are, one character each.
pub proof fn lemma_url_safe_unchanged(bs: Seq<u8>)
    requires
        forall|i: int| 0 <= i < bs.len() ==> url_safe(#[trigger] bs[i]),
    ensures
        percent_encode(bs) == bs.map_values(|b: u8| b as char),
    decreases bs.len(),
{
    if bs.len() > 0 {
        let init = bs.drop_last();
        assert forall|i: int| 0 <= i < init.len() implies url_safe(#[trigger] init[i]) by {
            assert(init[i] == bs[i]);
        }
        lemma_url_safe_unchanged(init);
        assert(url_safe(bs.last()));
        assert(bs.map_values(|b: u8| b as char) =~= init.map_values(|b: u8| b as char) + seq![bs.last() as char]);
    }
}

/// Calls `urlencoding::encode`, which (as its documentation and source
/// show) percent-encodes every byte of the text's UTF-8 encoding except
/// ASCII letters, digits, `-`, `.`, `_` and `~`, with upper-case hex
/// digits; the contract states exactly that.
#[verifier::external_body]
fn url_encode(s: &str) -> (r: String)
    ensures
        r@ == percent_encode(encode_utf8(s@)),
{
    urlencoding::encode(s).into_owned()
}

/// GitLab's API address of the project `org/name` on `host`: the path
/// URL-encoded as one segment.
pub fn gitlab_project_url(host: &str, org: &str, name: &str) -> (u: String)
    ensures
        u@ == "https://"@ + host@ + "/api/v4/projects/"@ + percent_encode(encode_utf8(org@ + "/"@ + name@)),
{
    let a = concat(org, "/");
    let path = concat(a.as_str(), name);
    let b = concat("https://", host);
    let c = concat(b.as_str(), "/api/v4/projects/");
    concat(c.as_str(), url_encode(path.as_str()).as_str())
}

/// The address of a repo listing page: GitHub's next-page link when it
/// gave one, else its org (or, after falling back, user) listing;
/// Codeberg's org listing page `page` (its user listing, tried once, is
/// always page 1); GitLab's group listing page `page`, the group path
/// URL-encoded (or its user listing page).
pub open spec fn list_url_spec(p: ProviderKind, host: Seq<char>, org: Seq<char>, page: nat, as_user: bool, next: Option<
    Seq<char>,
>) -> Seq<char> {
    match p {
        ProviderKind::Github => match next {
            Some(n) => n,
            None => if as_user {
                "https://"@ + host + "/users/"@ + org + "/repos?per_page=100"@
            } else {
                "https://"@ + host + "/orgs/"@ + org + "/repos?per_page=100"@
            },
        },
        ProviderKind::Codeberg => if as_user {
            "https://"@ + host + "/api/v1/users/"@ + org + "/repos?page=1&limit=50"@
        } else {
            "https://"@ + host + "/api/v1/orgs/"@ + org + "/repos?page="@ + crate::text::decimal(page) + "&limit=50"@
        },
        ProviderKind::Gitlab => if as_user {
            "https://"@ + host + "/api/v4/users/"@ + org + "/projects?page="@ + crate::text::decimal(page)
                + "&per_page=50"@
        } else {
            "https://"@ + host + "/api/v4/groups/"@ + percent_encode(encode_utf8(org)) + "/projects?page="@
                + crate::text::decimal(page) + "&per_page=50"@
        },
    }
}

/// The address of a repo listing page (see `list_url_spec`).
pub fn list_page_url(p: ProviderKind, host: &str, org: &str, page: u32, as_user: bool, next: Option<&str>) -> (u:
    String)
    ensures
        u@ == list_url_spec(
            p,
            host@,
            org@,
            page as nat,
            as_user,
            match next {
                Some(n) => Some(n@),
                None => None,
            },
        ),
{
    let h = concat("https://", host);
    let n = crate::text::u64_to_string(page as u64);
    match p {
        ProviderKind::Github => match next {
            Some(x) => x.to_string(),
            None => {
                let a = concat(h.as_str(), if as_user {
                    "/users/"
                } else {
                    "/orgs/"
                });
                let b = concat(a.as_str(), org);
                concat(b.as_str(), "/repos?per_page=100")
            },
        },
        ProviderKind::Codeberg => if as_user {
            let a = concat(h.as_str(), "/api/v1/users/");
            let b = concat(a.as_str(), org);
            concat(b.as_str(), "/repos?page=1&limit=50")
        } else {
            let a = concat(h.as_str(), "/api/v1/orgs/");
            let b = concat(a.as_str(), org);
            let c = concat(b.as_str(), "/repos?page=");
            let d = concat(c.as_str(), n.as_str());
            concat(d.as_str(), "&limit=50")
        },
        ProviderKind::Gitlab => if as_user {
            let a = concat(h.as_str(), "/api/v4/users/");
            let b = concat(a.as_str(), org);
            let c = concat(b.as_str(), "/projects?page=");
            let d = concat(c.as_str(), n.as_str());
            concat(d.as_str(), "&per_page=50")
        } else {
            let a = concat(h.as_str(), "/api/v4/groups/");
            let e = url_encode(org);
            let b = concat(a.as_str(), e.as_str());
            let c = concat(b.as_str(), "/projects?page=");
            let d = concat(c.as_str(), n.as_str());
            concat(d.as_str(), "&per_page=50")
        },
    }
}

/// The address a repo is created at: GitHub's and Codeberg's org
/// endpoint (or, after falling back, the user endpoint); GitLab's
/// projects endpoint, which takes the namespace in the body. The org
/// name goes into the address as it is.
pub open spec fn create_url_spec(p: ProviderKind, host: Seq<char>, org: Seq<char>, as_user: bool) -> Seq<char> {
    match p {
        ProviderKind::Github => if as_user {
            "https://"@ + host + "/user/repos"@
        } else {
            "https://"@ + host + "/orgs/"@ + org + "/repos"@
        },
        ProviderKind::Codeberg => if as_user {
            "https://"@ + host + "/api/v1/user/repos"@
        } else {
            "https://"@ + host + "/api/v1/orgs/"@ + org + "/repos"@
        },
        ProviderKind::Gitlab => "https://"@ + host + "/api/v4/projects"@,
    }
}

/// The address a repo is created at (see `create_url_spec`).
pub fn create_url(p: ProviderKind, host: &str, org: &str, as_user: bool) -> (u: String)
    ensures
        u@ == create_url_spec(p, host@, org@, as_user),
{
    let h = concat("https://", host);
    match p {
        ProviderKind::Github => if as_user {
            concat(h.as_str(), "/user/repos")
        } else {
            let a = concat(h.as_str(), "/orgs/");
            let b = concat(a.as_str(), org);
            concat(b.as_str(), "/repos")
        },
        ProviderKind::Codeberg => if as_user {
            concat(h.as_str(), "/api/v1/user/repos")
        } else {
            let a = concat(h.as_str(), "/api/v1/orgs/");
            let b = concat(a.as_str(), org);
            concat(b.as_str(), "/repos")
        },
        ProviderKind::Gitlab => concat(h.as_str(), "/api/v4/projects"),
    }
}

/// The address of a GitLab group, which a create looks up for its
/// namespace id; the group name goes into it as it is.
pub fn gitlab_group_url(host: &str, org: &str) -> (u: String)
    ensures
        u@ == "https://"@ + host@ + "/api/v4/groups/"@ + org@,
{
    let h = concat("https://", host);
    let a = concat(h.as_str(), "/api/v4/groups/");
    concat(a.as_str(), org)
}

// ---------------------------------------------------------------------
// Answers as JSON text.
// ---------------------------------------------------------------------

/// The error of an answer body that is no JSON document.
pub open spec fn parse_failure(context: Seq<char>, m: Seq<char>) -> (ForgeErrorClass, Seq<char>) {
    (ForgeErrorClass::Network, context + ": "@ + m)
}

fn parse_error(context: &str, m: String) -> (e: ForgePortError)
    ensures
        err_view(e) == parse_failure(context@, m@),
{
    let a = concat(context, ": ");
    ForgePortError::network(concat(a.as_str(), m.as_str()).as_str())
}

/// A repo's metadata from the JSON text of its answer; a body that does
/// not parse is a network error (`parse body: ` and the parse error).
pub fn metadata_from_body(p: ProviderKind, text: &str) -> (r: Result<ForgeMetadata, ForgePortError>)
    ensures
        match json_doc(text@) {
            Err(m) => r is Err && err_view(r->Err_0) == parse_failure("parse body"@, m),
            Ok(v) => r matches Ok(md) && md.default_branch@ == str_or(v, "default_branch"@, ""@)
                && md.description@ == str_or(v, "description"@, ""@) && md.archived == (opt_bool(v, "archived"@)
                == Some(true)) && md.visibility@ == metadata_visibility(p, v),
        },
{
    match parse_json(text) {
        Ok(v) => Ok(metadata_from_doc(p, &v)),
        Err(m) => Err(parse_error("parse body", m)),
    }
}

/// Appends the repos of a listing page given as JSON text (see
/// `push_listed`); a body that does not parse is a network error
/// (`parse: ` and the parse error) and adds nothing.
pub fn push_listed_body(p: ProviderKind, text: &str, items: &mut Vec<RemoteRepo>) -> (r: Result<usize, ForgePortError>)
    ensures
        match json_doc(text@) {
            Err(m) => r is Err && err_view(r->Err_0) == parse_failure("parse"@, m) && final(items)@ == old(
                items,
            )@,
            Ok(v) => r matches Ok(added) && repo_views(final(items)@) == repo_views(old(items)@) + listed_repos(
                p,
                page_items(v),
            ) && added == listed_repos(p, page_items(v)).len(),
        },
{
    match parse_json(text) {
        Ok(v) => Ok(push_listed(p, &v, items)),
        Err(m) => Err(parse_error("parse", m)),
    }
}

/// The namespace of a GitLab group from its lookup answer (see
/// `group_lookup`); a successful answer that is no JSON document is a
/// network error.
pub fn group_lookup_body(code: u16, status: &str, text: &str) -> (r: Result<Option<i64>, ForgePortError>)
    ensures
        success(code) ==> match json_doc(text@) {
            Ok(v) => r == Ok::<Option<i64>, ForgePortError>(group_id(v)),
            Err(_) => r is Err && err_view(r->Err_0) == parse_failure("parse gitlab group"@, "invalid JSON"@),
        },
        !success(code) && code == 404 ==> r == Ok::<Option<i64>, ForgePortError>(None),
        !success(code) && code != 404 ==> r is Err && err_view(r->Err_0) == status_error(
            ProviderKind::Gitlab,
            code,
            status@,
            text@,
        ),
{
    let doc = match parse_json(text) {
        Ok(v) => Some(v),
        Err(_) => None,
    };
    if is_success(code) && doc.is_none() {
        return Err(parse_error("parse gitlab group", "invalid JSON".to_string()));
    }
    group_lookup(code, status, text, doc.as_ref())
}

} // verus!
