//! The persistent state of the service, modelled in memory: shortened links,
//! registered recipients, and the confirmation tokens that tie a recipient to
//! a link.
//!
//! Every operation resolves its keys by exact lookup against this state; the
//! store's well-formedness invariant carries the uniqueness constraints that
//! the workflow relies on (unique link ids, unique `(name, email)` identity,
//! unique token strings, and one current token row per recipient/link pair).

use vstd::prelude::*;

use crate::find::{first_match, lemma_first_match_at, lemma_first_match_none};
use crate::strutil::str_eq;

verus! {

/// The lifecycle state of a confirmation token: it starts `Pending` and can
/// only ever move to `Confirmed`.
#[derive(Clone, Copy, PartialEq, Eq, Structural, Debug)]
pub enum TokenStatus {
    Pending,
    Confirmed,
}

/// A shortened link: an opaque generated id and the normalized target URL.
pub struct Link {
    pub id: String,
    pub target_url: String,
    pub created_at: i64,
}

/// A registered recipient, identified by the `(name, email)` pair.
pub struct Recipient {
    pub id: String,
    pub name: String,
    pub email: String,
    pub received_link_at: i64,
}

/// One confirmation record for a recipient/link registration.
pub struct LinkToken {
    pub token: String,
    pub recipient_id: String,
    pub link_id: String,
    pub status: TokenStatus,
    pub expiration: i64,
}

/// The whole persistent state.
pub struct Store {
    pub links: Vec<Link>,
    pub recipients: Vec<Recipient>,
    pub tokens: Vec<LinkToken>,
}

/// Matches the link with the given id.
pub open spec fn link_matches(id: Seq<char>) -> spec_fn(Link) -> bool {
    |l: Link| l.id@ == id
}

/// Matches the recipient with the given identity.
pub open spec fn recipient_matches(name: Seq<char>, email: Seq<char>) -> spec_fn(Recipient) -> bool {
    |r: Recipient| r.name@ == name && r.email@ == email
}

/// Matches the token row for the given recipient/link pair.
pub open spec fn token_pair_matches(rid: Seq<char>, lid: Seq<char>) -> spec_fn(LinkToken) -> bool {
    |t: LinkToken| t.recipient_id@ == rid && t.link_id@ == lid
}

/// Matches the token row holding the given token string.
pub open spec fn token_str_matches(tok: Seq<char>) -> spec_fn(LinkToken) -> bool {
    |t: LinkToken| t.token@ == tok
}

impl Store {
    /// The index of the link with id `id`, if one exists.
    pub open spec fn link_idx(self, id: Seq<char>) -> Option<int> {
        first_match(self.links@, link_matches(id))
    }

    /// Whether a link with id `id` exists.
    pub open spec fn has_link(self, id: Seq<char>) -> bool {
        self.link_idx(id) is Some
    }

    /// The target URL of the link with id `id` (meaningful under `has_link`).
    pub open spec fn link_target(self, id: Seq<char>) -> Seq<char> {
        self.links@[self.link_idx(id)->Some_0].target_url@
    }

    /// The index of the recipient with the given identity, if one exists.
    pub open spec fn recipient_idx(self, name: Seq<char>, email: Seq<char>) -> Option<int> {
        first_match(self.recipients@, recipient_matches(name, email))
    }

    /// Whether a recipient with the given identity exists.
    pub open spec fn has_recipient(self, name: Seq<char>, email: Seq<char>) -> bool {
        self.recipient_idx(name, email) is Some
    }

    /// The id of the recipient with the given identity (meaningful under
    /// `has_recipient`).
    pub open spec fn recipient_id_of(self, name: Seq<char>, email: Seq<char>) -> Seq<char> {
        self.recipients@[self.recipient_idx(name, email)->Some_0].id@
    }

    /// Whether some recipient row already uses the id `rid`.
    pub open spec fn recipient_id_taken(self, rid: Seq<char>) -> bool {
        exists|i: int| 0 <= i < self.recipients@.len() && (#[trigger] self.recipients@[i]).id@
            == rid
    }

    /// The index of the current token row for the pair, if one exists.
    pub open spec fn token_idx(self, rid: Seq<char>, lid: Seq<char>) -> Option<int> {
        first_match(self.tokens@, token_pair_matches(rid, lid))
    }

    /// The three-way confirmation state of a recipient/link pair: `None`
    /// means the pair was never registered; otherwise the recorded status.
    pub open spec fn status_of_spec(self, rid: Seq<char>, lid: Seq<char>) -> Option<TokenStatus> {
        match self.token_idx(rid, lid) {
            Some(i) => Some(self.tokens@[i].status),
            None => None,
        }
    }

    /// The index of the token row holding the token string `tok`, if any.
    pub open spec fn token_str_idx(self, tok: Seq<char>) -> Option<int> {
        first_match(self.tokens@, token_str_matches(tok))
    }

    /// Whether some token row holds the token string `tok`.
    pub open spec fn has_token(self, tok: Seq<char>) -> bool {
        self.token_str_idx(tok) is Some
    }

    /// Link ids are unique.
    pub open spec fn links_unique(self) -> bool {
        forall|i: int, j: int|
            #![trigger self.links@[i], self.links@[j]]
            0 <= i < j < self.links@.len() ==> self.links@[i].id@ != self.links@[j].id@
    }

    /// The `(name, email)` identity pair and the generated recipient id are
    /// both unique over the recipient rows.
    pub open spec fn recipients_unique(self) -> bool {
        forall|i: int, j: int|
            #![trigger self.recipients@[i], self.recipients@[j]]
            0 <= i < j < self.recipients@.len() ==> {
                &&& !(self.recipients@[i].name@ == self.recipients@[j].name@
                    && self.recipients@[i].email@ == self.recipients@[j].email@)
                &&& self.recipients@[i].id@ != self.recipients@[j].id@
            }
    }

    /// Token strings are unique, and at most one token row is current for any
    /// recipient/link pair.
    pub open spec fn tokens_unique(self) -> bool {
        forall|i: int, j: int|
            #![trigger self.tokens@[i], self.tokens@[j]]
            0 <= i < j < self.tokens@.len() ==> {
                &&& self.tokens@[i].token@ != self.tokens@[j].token@
                &&& !(self.tokens@[i].recipient_id@ == self.tokens@[j].recipient_id@
                    && self.tokens@[i].link_id@ == self.tokens@[j].link_id@)
            }
    }

    /// Every token row references an existing link and an existing recipient.
    pub open spec fn tokens_reference(self) -> bool {
        forall|i: int|
            #![trigger self.tokens@[i]]
            0 <= i < self.tokens@.len() ==> {
                &&& self.has_link(self.tokens@[i].link_id@)
                &&& self.recipient_id_taken(self.tokens@[i].recipient_id@)
            }
    }

    /// The store's well-formedness invariant: the uniqueness constraints the
    /// persistent schema enforces, plus referential integrity of token rows.
    pub open spec fn wf(self) -> bool {
        &&& self.links_unique()
        &&& self.recipients_unique()
        &&& self.tokens_unique()
        &&& self.tokens_reference()
    }

    /// Every pair that is `Confirmed` in `pre` is still `Confirmed` in
    /// `post`: the status of a token only ever moves forward.
    pub open spec fn confirmed_preserved(pre: Store, post: Store) -> bool {
        forall|rid: Seq<char>, lid: Seq<char>|
            #[trigger] pre.status_of_spec(rid, lid) == Some(TokenStatus::Confirmed)
                ==> post.status_of_spec(rid, lid) == Some(TokenStatus::Confirmed)
    }

    /// An empty store.
    pub fn new() -> (r: Store)
        ensures
            r.wf(),
            r.links@.len() == 0,
            r.recipients@.len() == 0,
            r.tokens@.len() == 0,
    {
        Store { links: Vec::new(), recipients: Vec::new(), tokens: Vec::new() }
    }

    /// The index of the link with id `id`, by linear scan.
    pub(crate) fn find_link_index(&self, id: &str) -> (r: Option<usize>)
        ensures
            match r {
                Some(i) => i < self.links@.len() && self.link_idx(id@) == Some(i as int),
                None => self.link_idx(id@) is None,
            },
    {
        let n = self.links.len();
        let mut i: usize = 0;
        while i < n
            invariant
                i <= n,
                n == self.links@.len(),
                forall|j: int| 0 <= j < i ==> (#[trigger] self.links@[j]).id@ != id@,
            decreases n - i,
        {
            if str_eq(self.links[i].id.as_str(), id) {
                proof {
                    lemma_first_match_at(self.links@, link_matches(id@), i as int);
                }
                return Some(i);
            }
            i += 1;
        }
        proof {
            lemma_first_match_none(self.links@, link_matches(id@));
        }
        None
    }

    /// The index of the recipient with the given identity, by linear scan.
    pub(crate) fn find_recipient_index(&self, name: &str, email: &str) -> (r: Option<usize>)
        ensures
            match r {
                Some(i) => i < self.recipients@.len() && self.recipient_idx(name@, email@)
                    == Some(i as int),
                None => self.recipient_idx(name@, email@) is None,
            },
    {
        let n = self.recipients.len();
        let mut i: usize = 0;
        while i < n
            invariant
                i <= n,
                n == self.recipients@.len(),
                forall|j: int|
                    0 <= j < i ==> !((#[trigger] self.recipients@[j]).name@ == name@
                        && self.recipients@[j].email@ == email@),
            decreases n - i,
        {
            if str_eq(self.recipients[i].name.as_str(), name) && str_eq(
                self.recipients[i].email.as_str(),
                email,
            ) {
                proof {
                    lemma_first_match_at(self.recipients@, recipient_matches(name@, email@),
                        i as int);
                }
                return Some(i);
            }
            i += 1;
        }
        proof {
            lemma_first_match_none(self.recipients@, recipient_matches(name@, email@));
        }
        None
    }

    /// The index of the current token row for the pair, by linear scan.
    pub(crate) fn find_token_pair_index(&self, rid: &str, lid: &str) -> (r: Option<usize>)
        ensures
            match r {
                Some(i) => i < self.tokens@.len() && self.token_idx(rid@, lid@) == Some(
                    i as int,
                ),
                None => self.token_idx(rid@, lid@) is None,
            },
    {
        let n = self.tokens.len();
        let mut i: usize = 0;
        while i < n
            invariant
                i <= n,
                n == self.tokens@.len(),
                forall|j: int|
                    0 <= j < i ==> !((#[trigger] self.tokens@[j]).recipient_id@ == rid@
                        && self.tokens@[j].link_id@ == lid@),
            decreases n - i,
        {
            if str_eq(self.tokens[i].recipient_id.as_str(), rid) && str_eq(
                self.tokens[i].link_id.as_str(),
                lid,
            ) {
                proof {
                    lemma_first_match_at(self.tokens@, token_pair_matches(rid@, lid@), i as int);
                }
                return Some(i);
            }
            i += 1;
        }
        proof {
            lemma_first_match_none(self.tokens@, token_pair_matches(rid@, lid@));
        }
        None
    }

    /// The index of the token row holding the token string, by linear scan.
    pub(crate) fn find_token_str_index(&self, tok: &str) -> (r: Option<usize>)
        ensures
            match r {
                Some(i) => i < self.tokens@.len() && self.token_str_idx(tok@) == Some(i as int),
                None => self.token_str_idx(tok@) is None,
            },
    {
        let n = self.tokens.len();
        let mut i: usize = 0;
        while i < n
            invariant
                i <= n,
                n == self.tokens@.len(),
                forall|j: int| 0 <= j < i ==> (#[trigger] self.tokens@[j]).token@ != tok@,
            decreases n - i,
        {
            if str_eq(self.tokens[i].token.as_str(), tok) {
                proof {
                    lemma_first_match_at(self.tokens@, token_str_matches(tok@), i as int);
                }
                return Some(i);
            }
            i += 1;
        }
        proof {
            lemma_first_match_none(self.tokens@, token_str_matches(tok@));
        }
        None
    }

    /// Whether some recipient row already uses the id `rid`, by linear scan.
    pub(crate) fn is_recipient_id_taken(&self, rid: &str) -> (r: bool)
        ensures
            r == self.recipient_id_taken(rid@),
    {
        let n = self.recipients.len();
        let mut i: usize = 0;
        while i < n
            invariant
                i <= n,
                n == self.recipients@.len(),
                forall|j: int| 0 <= j < i ==> (#[trigger] self.recipients@[j]).id@ != rid@,
            decreases n - i,
        {
            if str_eq(self.recipients[i].id.as_str(), rid) {
                return true;
            }
            i += 1;
        }
        false
    }

    /// Exact-match lookup of a recipient id from the `(name, email)`
    /// identity; `None` when no such recipient is registered.
    pub fn find_recipient(&self, name: &str, email: &str) -> (r: Option<String>)
        ensures
            r is Some <==> self.has_recipient(name@, email@),
            r matches Some(rid) ==> rid@ == self.recipient_id_of(name@, email@),
    {
        match self.find_recipient_index(name, email) {
            Some(i) => Some(self.recipients[i].id.clone()),
            None => None,
        }
    }

    /// The three-way confirmation state of a recipient/link pair: `None`
    /// distinguishes "never registered" from "registered but not confirmed".
    pub fn status_of(&self, recipient_id: &str, link_id: &str) -> (r: Option<TokenStatus>)
        ensures
            r == self.status_of_spec(recipient_id@, link_id@),
    {
        match self.find_token_pair_index(recipient_id, link_id) {
            Some(i) => Some(self.tokens[i].status),
            None => None,
        }
    }
}

} // verus!
