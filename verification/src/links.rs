//! Creating short links and resolving them back to their target URL.
//!
//! Creation validates and normalizes the target URL, then tries a bounded
//! number of freshly generated candidate ids against the store's uniqueness
//! constraint; if every attempt collides it fails with `GenerateUniqueId`
//! rather than looping forever.

use vstd::prelude::*;

use crate::find::{first_match, lemma_first_match, lemma_first_match_at, lemma_first_match_none,
    lemma_first_match_push};
use crate::idgen::generate_short_id;
use crate::store::{link_matches, Link, Store};
use crate::urls::{normalize_url, url_normal_of, url_ok};

verus! {

/// A short link id, as carried at the boundary.
pub struct LinkId {
    pub id: String,
}

/// A requested target URL, as carried at the boundary.
pub struct LinkTarget {
    pub target_url: String,
}

/// The view model of the page that asks a visitor of a short link for their
/// credentials.
pub struct LinkTargetTemplate {
    pub id: String,
}

/// The view model of the page that shows a freshly created short link.
pub struct LinkRedirectionTemplate {
    pub id: String,
}

/// Failures of link creation and resolution.
#[derive(Debug)]
pub enum LinkError {
    /// Every attempt at generating a unique short id collided.
    GenerateUniqueId,
    /// The requested target is not a valid absolute URL; carries the input.
    InvalidUrl(String),
    /// No link with the requested id exists.
    LinkNotFound,
}

/// Matches a candidate id that no existing link uses.
pub open spec fn candidate_fresh(s: Store) -> spec_fn(String) -> bool {
    |c: String| !s.has_link(c@)
}

/// The index of the first candidate id that is fresh in `s`, if any.
pub open spec fn spec_pick_candidate(s: Store, cands: Seq<String>) -> Option<int> {
    first_match(cands, candidate_fresh(s))
}

/// `post`'s links are `pre`'s links plus one new row with the given fields.
pub open spec fn links_extended(
    pre: Seq<Link>,
    post: Seq<Link>,
    id: Seq<char>,
    target: Seq<char>,
    created: int,
) -> bool {
    &&& post.len() == pre.len() + 1
    &&& forall|i: int| 0 <= i < pre.len() ==> post[i] == pre[i]
    &&& post.last().id@ == id
    &&& post.last().target_url@ == target
    &&& post.last().created_at == created
}

impl Store {
    /// Creates a short link for `target_url`, trying the given candidate ids
    /// in order: the bounded-retry helper behind `create`. The target is
    /// rejected (and nothing stored) unless it parses as an absolute URL;
    /// otherwise the first candidate that does not collide with an existing
    /// link id becomes the new link's id and the normalized URL is persisted;
    /// if every candidate collides, the attempt budget is exhausted and
    /// nothing is stored.
    pub fn create_with_candidates(
        &mut self,
        target_url: &str,
        candidates: Vec<String>,
        now: i64,
    ) -> (r: Result<String, LinkError>)
        requires
            old(self).wf(),
        ensures
            final(self).wf(),
            final(self).recipients@ == old(self).recipients@,
            final(self).tokens@ == old(self).tokens@,
            !url_ok(target_url@) ==> final(self).links@ == old(self).links@ && (r matches Err(e)
                && e matches LinkError::InvalidUrl(u) && u@ == target_url@),
            url_ok(target_url@) ==> match spec_pick_candidate(*old(self), candidates@) {
                Some(k) => r matches Ok(id) && id@ == candidates@[k]@ && links_extended(
                    old(self).links@,
                    final(self).links@,
                    candidates@[k]@,
                    url_normal_of(target_url@)->Some_0,
                    now as int,
                ),
                None => final(self).links@ == old(self).links@ && (r matches Err(e)
                    && e is GenerateUniqueId),
            },
            Store::confirmed_preserved(*old(self), *final(self)),
    {
        let normalized = match normalize_url(target_url) {
            Some(t) => t,
            None => {
                return Err(LinkError::InvalidUrl(target_url.to_owned()));
            },
        };
        let n = candidates.len();
        let mut k: usize = 0;
        while k < n
            invariant
                k <= n,
                n == candidates@.len(),
                self == old(self),
                old(self).wf(),
                url_ok(target_url@),
                normalized@ == url_normal_of(target_url@)->Some_0,
                forall|j: int| 0 <= j < k ==> old(self).has_link((#[trigger] candidates@[j])@),
            decreases n - k,
        {
            let cand = &candidates[k];
            match self.find_link_index(cand.as_str()) {
                Some(_) => {
                    k += 1;
                },
                None => {
                    proof {
                        lemma_first_match_at(candidates@, candidate_fresh(*old(self)), k as int);
                        lemma_first_match(old(self).links@, link_matches(cand@));
                    }
                    let id = cand.clone();
                    let link = Link { id: id.clone(), target_url: normalized, created_at: now };
                    self.links.push(link);
                    proof {
                        self.lemma_wf_after_link_push(*old(self));
                    }
                    return Ok(id);
                },
            }
        }
        proof {
            lemma_first_match_none(candidates@, candidate_fresh(*old(self)));
        }
        Err(LinkError::GenerateUniqueId)
    }

    /// Creates a short link for `target_url`, generating up to three fresh
    /// candidate ids. An invalid target is rejected with `InvalidUrl` (and
    /// nothing is stored); otherwise either a new link row holding the
    /// normalized URL under a previously unused id is persisted, or — only if
    /// all three generated ids collided with existing links — the attempt
    /// fails with `GenerateUniqueId` and nothing is stored. A collision needs
    /// an existing link row, so against an empty link table a valid target
    /// always succeeds.
    pub fn create(&mut self, target_url: &str, now: i64) -> (r: Result<String, LinkError>)
        requires
            old(self).wf(),
        ensures
            final(self).wf(),
            final(self).recipients@ == old(self).recipients@,
            final(self).tokens@ == old(self).tokens@,
            !url_ok(target_url@) ==> final(self).links@ == old(self).links@ && (r matches Err(e)
                && e matches LinkError::InvalidUrl(u) && u@ == target_url@),
            url_ok(target_url@) ==> match r {
                Ok(id) => !old(self).has_link(id@) && links_extended(
                    old(self).links@,
                    final(self).links@,
                    id@,
                    url_normal_of(target_url@)->Some_0,
                    now as int,
                ),
                Err(e) => e is GenerateUniqueId && final(self).links@ == old(self).links@ && old(
                    self,
                ).links@.len() > 0,
            },
            Store::confirmed_preserved(*old(self), *final(self)),
    {
        let mut candidates: Vec<String> = Vec::new();
        candidates.push(generate_short_id());
        candidates.push(generate_short_id());
        candidates.push(generate_short_id());
        let r = self.create_with_candidates(target_url, candidates, now);
        proof {
            if url_ok(target_url@) {
                lemma_first_match(candidates@, candidate_fresh(*old(self)));
                // Exhaustion means the first candidate already collided, and
                // a collision needs an existing link row.
                match spec_pick_candidate(*old(self), candidates@) {
                    Some(_) => {},
                    None => {
                        assert(old(self).has_link(candidates@[0]@));
                        lemma_first_match(old(self).links@, link_matches(candidates@[0]@));
                    },
                }
            }
        }
        r
    }

    /// Resolves a short link id to its stored (normalized) target URL;
    /// `LinkNotFound` when no such link exists.
    pub fn resolve(&self, link_id: &str) -> (r: Result<String, LinkError>)
        ensures
            self.has_link(link_id@) ==> (r matches Ok(t) && t@ == self.link_target(link_id@)),
            !self.has_link(link_id@) ==> (r matches Err(e) && e is LinkNotFound),
    {
        match self.find_link_index(link_id) {
            Some(i) => Ok(self.links[i].target_url.clone()),
            None => Err(LinkError::LinkNotFound),
        }
    }

    /// Pushing a link whose id no existing link uses preserves
    /// well-formedness and leaves every other lookup untouched.
    proof fn lemma_wf_after_link_push(self, pre: Store)
        requires
            pre.wf(),
            self.links@.len() == pre.links@.len() + 1,
            forall|i: int| 0 <= i < pre.links@.len() ==> self.links@[i] == pre.links@[i],
            forall|i: int|
                0 <= i < pre.links@.len() ==> pre.links@[i].id@ != self.links@.last().id@,
            self.recipients@ == pre.recipients@,
            self.tokens@ == pre.tokens@,
        ensures
            self.wf(),
            Store::confirmed_preserved(pre, self),
    {
        assert(self.links_unique());
        assert forall|i: int|
            0 <= i < self.tokens@.len() implies self.has_link(
            (#[trigger] self.tokens@[i]).link_id@,
        ) && self.recipient_id_taken(self.tokens@[i].recipient_id@) by {
            assert(pre.has_link(pre.tokens@[i].link_id@));
            let lid = pre.tokens@[i].link_id@;
            lemma_first_match_push(pre.links@, link_matches(lid), self.links@.last());
            assert(self.links@ =~= pre.links@.push(self.links@.last()));
        }
        assert forall|rid: Seq<char>, lid: Seq<char>|
            #[trigger] pre.status_of_spec(rid, lid) == Some(
            crate::store::TokenStatus::Confirmed,
        ) implies self.status_of_spec(rid, lid) == Some(
            crate::store::TokenStatus::Confirmed,
        ) by {
            assert(self.token_idx(rid, lid) == pre.token_idx(rid, lid));
        }
    }
}

} // verus!
