//! Token states per org and forge.

use vstd::prelude::*;

use super::paths::{join_path, path_join, HyperforgePaths};
use crate::assoc::{keys_unique, lemma_pairs_map, lemma_pairs_map_remove, lemma_pairs_map_update, lemma_pairs_push, pairs_map};
use crate::types::Forge;

verus! {

/// Status of a token for an org/forge combination.
#[derive(Debug, Clone)]
pub enum TokenStatus {
    Valid,
    Expired { error: String },
    Missing,
}

impl Default for TokenStatus {
    fn default() -> (s: TokenStatus)
        ensures
            s is Missing,
    {
        TokenStatus::Missing
    }
}

impl TokenStatus {
    /// The error message of an expired token.
    pub fn error(&self) -> (r: Option<&str>)
        ensures
            match self {
                TokenStatus::Expired { error } => r is Some && r->0@ == error@,
                _ => r is None,
            },
    {
        match self {
            TokenStatus::Expired { error } => Some(error.as_str()),
            _ => None,
        }
    }
}

/// The content of a token status.
pub enum StatusView {
    Valid,
    Expired(Seq<char>),
    Missing,
}

impl View for TokenStatus {
    type V = StatusView;

    open spec fn view(&self) -> StatusView {
        match self {
            TokenStatus::Valid => StatusView::Valid,
            TokenStatus::Expired { error } => StatusView::Expired(error@),
            TokenStatus::Missing => StatusView::Missing,
        }
    }
}

impl TokenStatus {
    /// A copy of this status.
    pub fn duplicate(&self) -> (r: TokenStatus)
        ensures
            r@ == self@,
    {
        match self {
            TokenStatus::Valid => TokenStatus::Valid,
            TokenStatus::Expired { error } => TokenStatus::Expired { error: error.clone() },
            TokenStatus::Missing => TokenStatus::Missing,
        }
    }
}

/// The state of one token: its status and when it was last checked
/// (seconds since the Unix epoch, UTC; the caller reads the clock).
#[derive(Debug, Clone)]
pub struct TokenState {
    pub status: TokenStatus,
    pub last_checked: i64,
}

impl View for TokenState {
    type V = (StatusView, i64);

    open spec fn view(&self) -> (StatusView, i64) {
        (self.status@, self.last_checked)
    }
}

impl TokenState {
    /// A valid token, checked at `now`.
    pub fn valid(now: i64) -> (s: TokenState)
        ensures
            s@ == (StatusView::Valid, now),
    {
        TokenState { status: TokenStatus::Valid, last_checked: now }
    }

    /// An expired token with its error, checked at `now`.
    pub fn expired(error: String, now: i64) -> (s: TokenState)
        ensures
            s@ == (StatusView::Expired(error@), now),
    {
        TokenState { status: TokenStatus::Expired { error }, last_checked: now }
    }

    /// A missing token, checked at `now`.
    pub fn missing(now: i64) -> (s: TokenState)
        ensures
            s@ == (StatusView::Missing, now),
    {
        TokenState { status: TokenStatus::Missing, last_checked: now }
    }

    pub fn is_valid(&self) -> (b: bool)
        ensures
            b == (self.status@ is Valid),
    {
        match self.status {
            TokenStatus::Valid => true,
            _ => false,
        }
    }

    pub fn is_expired(&self) -> (b: bool)
        ensures
            b == (self.status@ is Expired),
    {
        match self.status {
            TokenStatus::Expired { .. } => true,
            _ => false,
        }
    }

    pub fn is_missing(&self) -> (b: bool)
        ensures
            b == (self.status@ is Missing),
    {
        match self.status {
            TokenStatus::Missing => true,
            _ => false,
        }
    }

    /// The error message of an expired token.
    pub fn error(&self) -> (r: Option<&str>)
        ensures
            match self.status@ {
                StatusView::Expired(e) => r matches Some(m) && m@ == e,
                _ => r is None,
            },
    {
        self.status.error()
    }

    /// A copy of this state.
    pub fn duplicate(&self) -> (r: TokenState)
        ensures
            r@ == self@,
    {
        TokenState { status: self.status.duplicate(), last_checked: self.last_checked }
    }
}

/// The token states of one org, at most one per forge.
#[derive(Debug, Clone)]
pub struct OrgTokenStates {
    pub entries: Vec<(Forge, TokenState)>,
}

impl OrgTokenStates {
    /// The entries as forge/state pairs.
    pub open spec fn pairs(&self) -> Seq<(Forge, (StatusView, i64))> {
        self.entries@.map_values(|p: (Forge, TokenState)| (p.0, p.1@))
    }

    /// No forge occurs twice.
    pub open spec fn wf(&self) -> bool {
        keys_unique(self.pairs())
    }

    /// No tokens.
    pub fn new() -> (s: OrgTokenStates)
        ensures
            s.wf(),
            s@ == Map::<Forge, (StatusView, i64)>::empty(),
    {
        let s = OrgTokenStates { entries: Vec::new() };
        assert(s.pairs() =~= Seq::<(Forge, (StatusView, i64))>::empty());
        s
    }

    fn find(&self, forge: Forge) -> (r: Option<usize>)
        ensures
            match r {
                Some(i) => i < self.entries@.len() && self.entries@[i as int].0 == forge,
                None => forall|i: int| 0 <= i < self.entries@.len() ==> self.entries@[i].0 != forge,
            },
    {
        let mut i: usize = 0;
        while i < self.entries.len()
            invariant
                i <= self.entries@.len(),
                forall|j: int| 0 <= j < i ==> self.entries@[j].0 != forge,
            decreases self.entries@.len() - i,
        {
            if self.entries[i].0 == forge {
                return Some(i);
            }
            i = i + 1;
        }
        None
    }

    /// The state of `forge`'s token, if one is recorded.
    pub fn get(&self, forge: Forge) -> (r: Option<&TokenState>)
        requires
            self.wf(),
        ensures
            match r {
                Some(st) => self@.contains_key(forge) && self@[forge] == st@,
                None => !self@.contains_key(forge),
            },
    {
        proof {
            lemma_pairs_map(self.pairs());
        }
        match self.find(forge) {
            Some(i) => {
                assert(self.pairs()[i as int].0 == forge);
                Some(&self.entries[i].1)
            },
            None => {
                assert forall|j: int| 0 <= j < self.pairs().len() implies self.pairs()[j].0 != forge by {
                    assert(self.pairs()[j].0 == self.entries@[j].0);
                }
                None
            },
        }
    }

    /// Record `state` for `forge`, replacing any earlier one.
    pub fn insert(&mut self, forge: Forge, state: TokenState)
        requires
            old(self).wf(),
        ensures
            final(self).wf(),
            final(self)@ == old(self)@.insert(forge, state@),
    {
        let ghost sv = state@;
        match self.find(forge) {
            Some(i) => {
                proof {
                    lemma_pairs_map_update(self.pairs(), i as int, sv);
                }
                let ghost before = self.pairs();
                self.entries.set(i, (forge, state));
                assert(self.pairs() =~= before.update(i as int, (before[i as int].0, sv)));
            },
            None => {
                proof {
                    assert forall|j: int| 0 <= j < self.pairs().len() implies self.pairs()[j].0 != forge by {
                        assert(self.pairs()[j].0 == self.entries@[j].0);
                    }
                    lemma_pairs_push(self.pairs(), forge, sv);
                }
                let ghost before = self.pairs();
                self.entries.push((forge, state));
                assert(self.pairs() =~= before.push((forge, sv)));
            },
        }
    }

    /// Forget `forge`'s token.
    pub fn remove(&mut self, forge: Forge)
        requires
            old(self).wf(),
        ensures
            final(self).wf(),
            final(self)@ == old(self)@.remove(forge),
    {
        match self.find(forge) {
            Some(i) => {
                proof {
                    lemma_pairs_map_remove(self.pairs(), i as int);
                }
                let ghost before = self.pairs();
                self.entries.remove(i);
                assert(self.pairs() =~= before.remove(i as int));
            },
            None => {
                proof {
                    lemma_pairs_map(self.pairs());
                    assert forall|j: int| 0 <= j < self.pairs().len() implies self.pairs()[j].0 != forge by {
                        assert(self.pairs()[j].0 == self.entries@[j].0);
                    }
                    assert(self@.remove(forge) =~= self@);
                }
            },
        }
    }

    /// Whether no token is recorded.
    pub fn is_empty(&self) -> (b: bool)
        requires
            self.wf(),
        ensures
            b == (self@ == Map::<Forge, (StatusView, i64)>::empty()),
    {
        proof {
            lemma_pairs_map(self.pairs());
            if self.entries@.len() > 0 {
                assert(self@.contains_key(self.pairs()[0].0));
            } else {
                assert(self.pairs() =~= Seq::<(Forge, (StatusView, i64))>::empty());
                assert(self@ =~= Map::<Forge, (StatusView, i64)>::empty());
            }
        }
        self.entries.len() == 0
    }

    /// A copy of these states.
    pub fn duplicate(&self) -> (r: OrgTokenStates)
        ensures
            r.pairs() == self.pairs(),
    {
        let mut entries: Vec<(Forge, TokenState)> = Vec::new();
        let mut i: usize = 0;
        while i < self.entries.len()
            invariant
                i <= self.entries@.len(),
                entries@.len() == i,
                forall|j: int| 0 <= j < i ==> (#[trigger] entries@[j]).0 == self.entries@[j].0 && entries@[j].1@
                    == self.entries@[j].1@,
            decreases self.entries@.len() - i,
        {
            entries.push((self.entries[i].0, self.entries[i].1.duplicate()));
            i = i + 1;
        }
        let r = OrgTokenStates { entries };
        assert(r.pairs() =~= self.pairs());
        r
    }
}

impl View for OrgTokenStates {
    type V = Map<Forge, (StatusView, i64)>;

    open spec fn view(&self) -> Map<Forge, (StatusView, i64)> {
        pairs_map(self.pairs())
    }
}

/// Token states per org name, per forge.
pub type TokenMap = Map<Seq<char>, Map<Forge, (StatusView, i64)>>;

/// The status recorded for `org` on `forge`; missing when there is none.
pub open spec fn status_in(m: TokenMap, org: Seq<char>, forge: Forge) -> StatusView {
    if m.contains_key(org) && m[org].contains_key(forge) {
        m[org][forge].0
    } else {
        StatusView::Missing
    }
}

/// `m` with `state` recorded for `org` on `forge` (the org's entry made
/// when it has none).
pub open spec fn with_state(m: TokenMap, org: Seq<char>, forge: Forge, state: (StatusView, i64)) -> TokenMap {
    m.insert(
        org,
        (if m.contains_key(org) {
            m[org]
        } else {
            Map::empty()
        }).insert(forge, state),
    )
}

/// `m` without `org`'s token on `forge`; an org left with no states
/// loses its entry.
pub open spec fn without_token(m: TokenMap, org: Seq<char>, forge: Forge) -> TokenMap {
    if !m.contains_key(org) {
        m
    } else if m[org].remove(forge) == Map::<Forge, (StatusView, i64)>::empty() {
        m.remove(org)
    } else {
        m.insert(org, m[org].remove(forge))
    }
}

/// A recorded state is what a later read of that org and forge gives
/// back, and every other org and forge reads as before.
pub proof fn lemma_set_then_read(m: TokenMap, org: Seq<char>, forge: Forge, state: (StatusView, i64))
    ensures
        with_state(m, org, forge, state).contains_key(org),
        with_state(m, org, forge, state)[org][forge] == state,
        status_in(with_state(m, org, forge, state), org, forge) == state.0,
        forall|o: Seq<char>, f: Forge|
            (o != org || f != forge) ==> #[trigger] status_in(with_state(m, org, forge, state), o, f) == status_in(
                m,
                o,
                f,
            ),
{
}

/// After a token is cleared it reads as missing, and every other org and
/// forge reads as before.
pub proof fn lemma_clear_then_missing(m: TokenMap, org: Seq<char>, forge: Forge)
    ensures
        status_in(without_token(m, org, forge), org, forge) == StatusView::Missing,
        forall|o: Seq<char>, f: Forge|
            (o != org || f != forge) ==> #[trigger] status_in(without_token(m, org, forge), o, f) == status_in(m, o, f),
{
    if m.contains_key(org) && m[org].remove(forge) == Map::<Forge, (StatusView, i64)>::empty() {
        assert forall|f: Forge| f != forge implies !m[org].contains_key(f) by {
            assert(!m[org].remove(forge).contains_key(f));
        }
    }
}

/// After an org's states are cleared, each of its tokens reads as
/// missing.
pub proof fn lemma_clear_org_then_missing(m: TokenMap, org: Seq<char>, forge: Forge)
    ensures
        status_in(m.remove(org), org, forge) == StatusView::Missing,
{
}

/// All token states: per org, per forge.
#[derive(Debug, Clone)]
pub struct TokensFile {
    pub tokens: Vec<(String, OrgTokenStates)>,
}

impl TokensFile {
    /// The orgs with their states.
    pub open spec fn pairs(&self) -> Seq<(Seq<char>, Map<Forge, (StatusView, i64)>)> {
        self.tokens@.map_values(|p: (String, OrgTokenStates)| (p.0@, p.1@))
    }

    /// No org occurs twice, and no forge twice within an org.
    pub open spec fn wf(&self) -> bool {
        &&& keys_unique(self.pairs())
        &&& forall|i: int| 0 <= i < self.tokens@.len() ==> (#[trigger] self.tokens@[i]).1.wf()
    }

    /// No org has any token state.
    pub fn new() -> (f: TokensFile)
        ensures
            f.wf(),
            f@ == Map::<Seq<char>, Map<Forge, (StatusView, i64)>>::empty(),
    {
        let f = TokensFile { tokens: Vec::new() };
        assert(f.pairs() =~= Seq::<(Seq<char>, Map<Forge, (StatusView, i64)>)>::empty());
        f
    }

    fn find(&self, org: &str) -> (r: Option<usize>)
        ensures
            match r {
                Some(i) => i < self.tokens@.len() && self.tokens@[i as int].0@ == org@,
                None => forall|i: int| 0 <= i < self.tokens@.len() ==> self.tokens@[i].0@ != org@,
            },
    {
        let mut i: usize = 0;
        while i < self.tokens.len()
            invariant
                i <= self.tokens@.len(),
                forall|j: int| 0 <= j < i ==> self.tokens@[j].0@ != org@,
            decreases self.tokens@.len() - i,
        {
            if crate::text::eq_str(self.tokens[i].0.as_str(), org) {
                return Some(i);
            }
            i = i + 1;
        }
        None
    }

    proof fn lemma_find(&self, org: Seq<char>, r: Option<usize>)
        requires
            self.wf(),
            match r {
                Some(i) => i < self.tokens@.len() && self.tokens@[i as int].0@ == org,
                None => forall|i: int| 0 <= i < self.tokens@.len() ==> self.tokens@[i].0@ != org,
            },
        ensures
            match r {
                Some(i) => self@.contains_key(org) && self@[org] == self.tokens@[i as int].1@,
                None => !self@.contains_key(org),
            },
    {
        lemma_pairs_map(self.pairs());
        match r {
            Some(i) => {
                assert(self.pairs()[i as int].0 == org);
            },
            None => {
                assert forall|j: int| 0 <= j < self.pairs().len() implies self.pairs()[j].0 != org by {
                    assert(self.pairs()[j].0 == self.tokens@[j].0@);
                }
            },
        }
    }

    /// The status of `org`'s token on `forge`; missing when none is
    /// recorded.
    pub fn status_of(&self, org: &str, forge: Forge) -> (s: TokenStatus)
        requires
            self.wf(),
        ensures
            s@ == status_in(self@, org@, forge),
    {
        let r = self.find(org);
        proof {
            self.lemma_find(org@, r);
        }
        match r {
            Some(i) => match self.tokens[i].1.get(forge) {
                Some(st) => st.status.duplicate(),
                None => TokenStatus::Missing,
            },
            None => TokenStatus::Missing,
        }
    }

    /// The state of `org`'s token on `forge`, if one is recorded.
    pub fn state_of(&self, org: &str, forge: Forge) -> (r: Option<TokenState>)
        requires
            self.wf(),
        ensures
            match r {
                Some(st) => self@.contains_key(org@) && self@[org@].contains_key(forge) && st@ == self@[org@][forge],
                None => !(self@.contains_key(org@) && self@[org@].contains_key(forge)),
            },
    {
        let r = self.find(org);
        proof {
            self.lemma_find(org@, r);
        }
        match r {
            Some(i) => match self.tokens[i].1.get(forge) {
                Some(st) => Some(st.duplicate()),
                None => None,
            },
            None => None,
        }
    }

    /// All token states of `org`; none when the org has no entry.
    pub fn org_tokens(&self, org: &str) -> (r: OrgTokenStates)
        requires
            self.wf(),
        ensures
            r.wf(),
            r@ == (if self@.contains_key(org@) {
                self@[org@]
            } else {
                Map::empty()
            }),
    {
        let r = self.find(org);
        proof {
            self.lemma_find(org@, r);
        }
        match r {
            Some(i) => self.tokens[i].1.duplicate(),
            None => OrgTokenStates::new(),
        }
    }

    /// Whether `org` has an entry (possibly with no states).
    pub fn contains_org(&self, org: &str) -> (b: bool)
        requires
            self.wf(),
        ensures
            b == self@.contains_key(org@),
    {
        let r = self.find(org);
        proof {
            self.lemma_find(org@, r);
        }
        r.is_some()
    }

    /// Record `state` for `org`'s token on `forge`, creating the org's
    /// entry when it has none.
    pub fn set_state(&mut self, org: &str, forge: Forge, state: TokenState)
        requires
            old(self).wf(),
        ensures
            final(self).wf(),
            final(self)@ == with_state(old(self)@, org@, forge, state@),
    {
        let ghost sv = state@;
        let r = self.find(org);
        proof {
            self.lemma_find(org@, r);
        }
        match r {
            Some(i) => {
                let ghost before = self.pairs();
                let mut pair = self.tokens.remove(i);
                assert(pair.1.wf());
                pair.1.insert(forge, state);
                let ghost nv = pair.1@;
                self.tokens.insert(i, pair);
                proof {
                    assert(self.pairs() =~= before.update(i as int, (before[i as int].0, nv)));
                    lemma_pairs_map_update(before, i as int, nv);
                    assert forall|j: int| 0 <= j < self.tokens@.len() implies (#[trigger] self.tokens@[j]).1.wf() by {
                        if j != i {
                            assert(self.tokens@[j] == old(self).tokens@[j]);
                        }
                    }
                }
            },
            None => {
                let mut states = OrgTokenStates::new();
                states.insert(forge, state);
                let ghost nv = states@;
                let ghost before = self.pairs();
                proof {
                    assert forall|j: int| 0 <= j < before.len() implies before[j].0 != org@ by {
                        assert(before[j].0 == self.tokens@[j].0@);
                    }
                    lemma_pairs_push(before, org@, nv);
                }
                self.tokens.push((org.to_owned(), states));
                assert(self.pairs() =~= before.push((org@, nv)));
                assert(nv =~= Map::<Forge, (StatusView, i64)>::empty().insert(forge, sv));
            },
        }
    }

    /// Forget `org`'s token on `forge`; an org left with no states loses
    /// its entry.
    pub fn clear_token(&mut self, org: &str, forge: Forge)
        requires
            old(self).wf(),
        ensures
            final(self).wf(),
            final(self)@ == without_token(old(self)@, org@, forge),
    {
        let r = self.find(org);
        proof {
            self.lemma_find(org@, r);
        }
        match r {
            Some(i) => {
                let ghost before = self.pairs();
                let mut pair = self.tokens.remove(i);
                assert(pair.1.wf());
                pair.1.remove(forge);
                let ghost nv = pair.1@;
                if pair.1.is_empty() {
                    proof {
                        lemma_pairs_map_remove(before, i as int);
                        assert(self.pairs() =~= before.remove(i as int));
                        assert forall|j: int| 0 <= j < self.tokens@.len() implies (#[trigger] self.tokens@[j]).1.wf() by {
                            let j2 = if j < i { j } else { j + 1 };
                            assert(self.tokens@[j] == old(self).tokens@[j2]);
                        }
                    }
                } else {
                    self.tokens.insert(i, pair);
                    proof {
                        assert(self.pairs() =~= before.update(i as int, (before[i as int].0, nv)));
                        lemma_pairs_map_update(before, i as int, nv);
                        assert forall|j: int| 0 <= j < self.tokens@.len() implies (#[trigger] self.tokens@[j]).1.wf() by {
                            if j != i {
                                assert(self.tokens@[j] == old(self).tokens@[j]);
                            }
                        }
                    }
                }
            },
            None => {},
        }
    }

    /// Forget all of `org`'s token states.
    pub fn clear_org(&mut self, org: &str)
        requires
            old(self).wf(),
        ensures
            final(self).wf(),
            final(self)@ == old(self)@.remove(org@),
    {
        let r = self.find(org);
        proof {
            self.lemma_find(org@, r);
        }
        match r {
            Some(i) => {
                let ghost before = self.pairs();
                self.tokens.remove(i);
                proof {
                    lemma_pairs_map_remove(before, i as int);
                    assert(self.pairs() =~= before.remove(i as int));
                    assert forall|j: int| 0 <= j < self.tokens@.len() implies (#[trigger] self.tokens@[j]).1.wf() by {
                        let j2 = if j < i { j } else { j + 1 };
                        assert(self.tokens@[j] == old(self).tokens@[j2]);
                    }
                }
            },
            None => {
                assert(self@.remove(org@) =~= self@);
            },
        }
    }
}

impl View for TokensFile {
    type V = Map<Seq<char>, Map<Forge, (StatusView, i64)>>;

    open spec fn view(&self) -> Map<Seq<char>, Map<Forge, (StatusView, i64)>> {
        pairs_map(self.pairs())
    }
}

/// Storage of the token state file.
#[derive(Debug, Clone)]
pub struct TokenStorage {
    paths: HyperforgePaths,
}

impl TokenStorage {
    /// The configuration directory the file lives in.
    pub closed spec fn dir_view(&self) -> Seq<char> {
        self.paths.config_dir@
    }

    pub fn new(paths: HyperforgePaths) -> (s: TokenStorage)
        ensures
            s.dir_view() == paths.config_dir@,
    {
        TokenStorage { paths }
    }

    /// The `tokens.yaml` file.
    pub fn tokens_file(&self) -> (s: String)
        ensures
            s@ == path_join(self.dir_view(), "tokens.yaml"@),
    {
        join_path(self.paths.config_dir.as_str(), "tokens.yaml")
    }
}

/// Token state management over the token storage.
#[derive(Debug, Clone)]
pub struct TokenManager {
    storage: TokenStorage,
}

impl TokenManager {
    /// The configuration directory of the token file.
    pub closed spec fn dir_view(&self) -> Seq<char> {
        self.storage.dir_view()
    }

    pub fn new(paths: HyperforgePaths) -> (m: TokenManager)
        ensures
            m.dir_view() == paths.config_dir@,
    {
        TokenManager { storage: TokenStorage::new(paths) }
    }

    /// The `tokens.yaml` file.
    pub fn tokens_file(&self) -> (s: String)
        ensures
            s@ == path_join(self.dir_view(), "tokens.yaml"@),
    {
        self.storage.tokens_file()
    }
}

} // verus!
