//! Lookups in the loaded state.

use vstd::prelude::*;

use crate::text::eq_str;
use crate::v5::config::{OrgConfig, OrgRepo};
use crate::v5::ops::repo::repo_index;

verus! {

/// Find a repo by name within an org: the first one of that name.
pub fn find_repo<'a>(org: &'a OrgConfig, name: &str) -> (r: Option<&'a OrgRepo>)
    ensures
        match repo_index(org.repos@, name@) {
            Some(i) => r is Some && *r->0 == org.repos@[i],
            None => r is None,
        },
{
    let mut i: usize = 0;
    assert(org.repos@.skip(0) =~= org.repos@);
    while i < org.repos.len()
        invariant
            i <= org.repos@.len(),
            repo_index(org.repos@, name@) == match repo_index(org.repos@.skip(i as int), name@) {
                Some(j) => Some(j + i),
                None => None::<int>,
            },
        decreases org.repos@.len() - i,
    {
        assert(org.repos@.skip(i as int).drop_first() =~= org.repos@.skip(i + 1));
        assert(org.repos@.skip(i as int)[0] == org.repos@[i as int]);
        if eq_str(org.repos[i].name.as_str(), name) {
            return Some(&org.repos[i]);
        }
        i = i + 1;
    }
    None
}

/// The position of the first repo named `name` within an org.
pub fn find_repo_index(org: &OrgConfig, name: &str) -> (r: Option<usize>)
    ensures
        match repo_index(org.repos@, name@) {
            Some(i) => r == Some(i as usize),
            None => r is None,
        },
        r is Some ==> r->0 < org.repos@.len(),
{
    let mut i: usize = 0;
    assert(org.repos@.skip(0) =~= org.repos@);
    while i < org.repos.len()
        invariant
            i <= org.repos@.len(),
            repo_index(org.repos@, name@) == match repo_index(org.repos@.skip(i as int), name@) {
                Some(j) => Some(j + i),
                None => None::<int>,
            },
        decreases org.repos@.len() - i,
    {
        assert(org.repos@.skip(i as int).drop_first() =~= org.repos@.skip(i + 1));
        assert(org.repos@.skip(i as int)[0] == org.repos@[i as int]);
        if eq_str(org.repos[i].name.as_str(), name) {
            return Some(i);
        }
        i = i + 1;
    }
    None
}

} // verus!
