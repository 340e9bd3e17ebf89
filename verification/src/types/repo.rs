//! Repository configuration: origin forge plus mirrors.

use vstd::prelude::*;

use super::{Forge, Visibility};

verus! {

/// Whether `f` occurs in `v`.
pub fn forge_in(v: &Vec<Forge>, f: Forge) -> (b: bool)
    ensures
        b == v@.contains(f),
{
    let mut k: usize = 0;
    while k < v.len()
        invariant
            k <= v@.len(),
            forall|j: int| 0 <= j < k ==> v@[j] != f,
        decreases v@.len() - k,
    {
        if v[k] == f {
            assert(v@[k as int] == f);
            return true;
        }
        k = k + 1;
    }
    false
}

/// `s` with every occurrence of `f` removed, order kept.
pub open spec fn without(s: Seq<Forge>, f: Forge) -> Seq<Forge>
    decreases s.len(),
{
    if s.len() == 0 {
        Seq::<Forge>::empty()
    } else if s.last() == f {
        without(s.drop_last(), f)
    } else {
        without(s.drop_last(), f).push(s.last())
    }
}

pub proof fn lemma_without(s: Seq<Forge>, f: Forge)
    ensures
        !without(s, f).contains(f),
        forall|g: Forge| g != f ==> (without(s, f).contains(g) <==> s.contains(g)),
    decreases s.len(),
{
    if s.len() > 0 {
        lemma_without(s.drop_last(), f);
        assert forall|g: Forge| g != f implies (without(s, f).contains(g) <==> s.contains(g)) by {
            if s.contains(g) {
                let i = choose|i: int| 0 <= i < s.len() && s[i] == g;
                if i < s.len() - 1 {
                    assert(s.drop_last()[i] == g);
                    assert(s.drop_last().contains(g));
                    let w = without(s.drop_last(), f);
                    assert(w.contains(g));
                    let k = choose|k: int| 0 <= k < w.len() && w[k] == g;
                    assert(without(s, f)[k] == g);
                } else {
                    assert(without(s, f).last() == g);
                }
            }
            if without(s, f).contains(g) {
                if s.last() != f {
                    let w = without(s.drop_last(), f);
                    let i = choose|i: int| 0 <= i < without(s, f).len() && without(s, f)[i] == g;
                    if i < w.len() {
                        assert(w[i] == g);
                        assert(w.contains(g));
                        assert(s.drop_last().contains(g));
                        let j = choose|j: int| 0 <= j < s.drop_last().len() && s.drop_last()[j] == g;
                        assert(s[j] == g);
                    } else {
                        assert(s.last() == g);
                    }
                } else {
                    assert(without(s.drop_last(), f).contains(g));
                    assert(s.drop_last().contains(g));
                    let j = choose|j: int| 0 <= j < s.drop_last().len() && s.drop_last()[j] == g;
                    assert(s[j] == g);
                }
            }
        }
        if without(s, f).contains(f) {
            let i = choose|i: int| 0 <= i < without(s, f).len() && without(s, f)[i] == f;
            if s.last() != f && i == without(s, f).len() - 1 {
                assert(false);
            } else {
                assert(without(s.drop_last(), f)[i] == f);
            }
        }
    }
}

/// Repository configuration with origin and mirrors.
#[derive(Debug, Clone, PartialEq, Eq)]
pub struct Repo {
    /// Repository name (without owner prefix)
    pub name: String,
    /// Repository description
    pub description: Option<String>,
    /// Repository visibility (public/private)
    pub visibility: Visibility,
    /// Primary forge (source of truth)
    pub origin: Forge,
    /// Mirror forges (read-only copies)
    pub mirrors: Vec<Forge>,
    /// Whether this repo is protected from deletion
    pub protected: bool,
    /// Whether this repo is staged for deletion by `workspace reflect`
    pub staged_for_deletion: bool,
}

impl Repo {
    /// The mirrors neither name the origin nor repeat a forge.
    pub open spec fn mirrors_well_formed(&self) -> bool {
        &&& !self.mirrors@.contains(self.origin)
        &&& self.mirrors@.no_duplicates()
    }

    /// Create a new repository configuration.
    pub fn new(name: &str, origin: Forge) -> (r: Self)
        ensures
            r.name@ == name@,
            r.description is None,
            r.visibility == Visibility::Public,
            r.origin == origin,
            r.mirrors@ == Seq::<Forge>::empty(),
            !r.protected,
            !r.staged_for_deletion,
            r.mirrors_well_formed(),
    {
        Repo {
            name: name.to_owned(),
            description: None,
            visibility: Visibility::Public,
            origin,
            mirrors: Vec::new(),
            protected: false,
            staged_for_deletion: false,
        }
    }

    /// Set repository description.
    pub fn with_description(self, description: &str) -> (r: Self)
        ensures
            r.description matches Some(d) && d@ == description@,
            r.name == self.name,
            r.visibility == self.visibility,
            r.origin == self.origin,
            r.mirrors@ == self.mirrors@,
            r.protected == self.protected,
            r.staged_for_deletion == self.staged_for_deletion,
    {
        Repo { description: Some(description.to_owned()), ..self }
    }

    /// Set repository visibility.
    pub fn with_visibility(self, visibility: Visibility) -> (r: Self)
        ensures
            r.visibility == visibility,
            r.name == self.name,
            r.description == self.description,
            r.origin == self.origin,
            r.mirrors@ == self.mirrors@,
            r.protected == self.protected,
            r.staged_for_deletion == self.staged_for_deletion,
    {
        Repo { visibility, ..self }
    }

    /// Add a mirror forge: it is appended unless it is the origin or
    /// already a mirror.
    pub fn with_mirror(self, forge: Forge) -> (r: Self)
        ensures
            r.mirrors@ == (if self.mirrors@.contains(forge) || forge == self.origin {
                self.mirrors@
            } else {
                self.mirrors@.push(forge)
            }),
            self.mirrors_well_formed() ==> r.mirrors_well_formed(),
            r.name == self.name,
            r.description == self.description,
            r.visibility == self.visibility,
            r.origin == self.origin,
            r.protected == self.protected,
            r.staged_for_deletion == self.staged_for_deletion,
    {
        let mut r = self;
        if !forge_in(&r.mirrors, forge) && forge != r.origin {
            r.mirrors.push(forge);
            proof {
                let old_m = self.mirrors@;
                assert(r.mirrors@.drop_last() == old_m);
                if self.mirrors_well_formed() {
                    assert forall|i: int, j: int|
                        0 <= i < j < r.mirrors@.len() implies r.mirrors@[i] != r.mirrors@[j] by {
                        if j == r.mirrors@.len() - 1 {
                            assert(old_m[i] == r.mirrors@[i]);
                        } else {
                            assert(old_m[i] == r.mirrors@[i] && old_m[j] == r.mirrors@[j]);
                        }
                    }
                    if r.mirrors@.contains(r.origin) {
                        let i = choose|i: int| 0 <= i < r.mirrors@.len() && r.mirrors@[i] == r.origin;
                        assert(old_m[i] == r.origin);
                    }
                }
            }
        }
        r
    }

    /// Set multiple mirrors; the origin is filtered out.
    pub fn with_mirrors(self, mirrors: Vec<Forge>) -> (r: Self)
        ensures
            r.mirrors@ == without(mirrors@, self.origin),
            !r.mirrors@.contains(r.origin),
            r.name == self.name,
            r.description == self.description,
            r.visibility == self.visibility,
            r.origin == self.origin,
            r.protected == self.protected,
            r.staged_for_deletion == self.staged_for_deletion,
    {
        let mut out: Vec<Forge> = Vec::new();
        let mut k: usize = 0;
        while k < mirrors.len()
            invariant
                k <= mirrors@.len(),
                out@ == without(mirrors@.take(k as int), self.origin),
            decreases mirrors@.len() - k,
        {
            assert(mirrors@.take(k + 1).drop_last() =~= mirrors@.take(k as int));
            if mirrors[k] != self.origin {
                out.push(mirrors[k]);
            }
            k = k + 1;
        }
        assert(mirrors@.take(mirrors@.len() as int) =~= mirrors@);
        proof {
            lemma_without(mirrors@, self.origin);
        }
        Repo { mirrors: out, ..self }
    }

    /// Mark as protected.
    pub fn with_protected(self, protected: bool) -> (r: Self)
        ensures
            r.protected == protected,
            r.name == self.name,
            r.description == self.description,
            r.visibility == self.visibility,
            r.origin == self.origin,
            r.mirrors@ == self.mirrors@,
            r.staged_for_deletion == self.staged_for_deletion,
    {
        Repo { protected, ..self }
    }

    /// Mark as staged for deletion.
    pub fn with_staged_for_deletion(self, staged: bool) -> (r: Self)
        ensures
            r.staged_for_deletion == staged,
            r.name == self.name,
            r.description == self.description,
            r.visibility == self.visibility,
            r.origin == self.origin,
            r.mirrors@ == self.mirrors@,
            r.protected == self.protected,
    {
        Repo { staged_for_deletion: staged, ..self }
    }

    /// The same repo, field for field (the mirrors by content).
    pub open spec fn same_as(self, other: Repo) -> bool {
        &&& self.name == other.name
        &&& self.description == other.description
        &&& self.visibility == other.visibility
        &&& self.origin == other.origin
        &&& self.mirrors@ == other.mirrors@
        &&& self.protected == other.protected
        &&& self.staged_for_deletion == other.staged_for_deletion
    }

    /// A copy of this repo.
    pub fn duplicate(&self) -> (r: Repo)
        ensures
            r.same_as(*self),
    {
        let description = match &self.description {
            Some(d) => Some(d.clone()),
            None => None,
        };
        let mut mirrors: Vec<Forge> = Vec::new();
        let mut k: usize = 0;
        while k < self.mirrors.len()
            invariant
                k <= self.mirrors@.len(),
                mirrors@ == self.mirrors@.take(k as int),
            decreases self.mirrors@.len() - k,
        {
            mirrors.push(self.mirrors[k]);
            k = k + 1;
            assert(mirrors@ =~= self.mirrors@.take(k as int));
        }
        assert(self.mirrors@.take(self.mirrors@.len() as int) =~= self.mirrors@);
        Repo {
            name: self.name.clone(),
            description,
            visibility: self.visibility,
            origin: self.origin,
            mirrors,
            protected: self.protected,
            staged_for_deletion: self.staged_for_deletion,
        }
    }

    /// Get all forges: the origin first, then the mirrors.
    pub fn all_forges(&self) -> (v: Vec<Forge>)
        ensures
            v@ == seq![self.origin] + self.mirrors@,
    {
        let mut v: Vec<Forge> = Vec::new();
        v.push(self.origin);
        let mut k: usize = 0;
        while k < self.mirrors.len()
            invariant
                k <= self.mirrors@.len(),
                v@ == seq![self.origin] + self.mirrors@.take(k as int),
            decreases self.mirrors@.len() - k,
        {
            v.push(self.mirrors[k]);
            k = k + 1;
            assert(v@ =~= seq![self.origin] + self.mirrors@.take(k as int));
        }
        assert(self.mirrors@.take(self.mirrors@.len() as int) =~= self.mirrors@);
        v
    }
}

} // verus!
