//! The confirmation workflow and the access decision.
//!
//! `register_with` is the central state machine: validate the claimed
//! identity, insert or reuse the recipient row, short-circuit when the pair
//! is already confirmed, and otherwise issue a fresh `Pending` token for the
//! recipient/link pair — all or nothing. `access` makes the terminal
//! decision: redirect to the target only for a `Confirmed` pair.

use vstd::prelude::*;

use crate::domain::{email_ok, RecipientEmail, RecipientName};
use crate::find::{lemma_first_match, lemma_first_match_at, lemma_first_match_exists,
    lemma_first_match_push, lemma_first_match_update};
use crate::idgen::{generate_link_token, generate_recipient_id};
use crate::store::{recipient_matches, token_pair_matches, token_str_matches, LinkToken, Recipient,
    Store, TokenStatus};
use vstd::std_specs::vec::vec_index_mut;

verus! {

/// A token lives for seven days from issuance.
pub const TOKEN_TTL_SECONDS: i64 = 604800;

/// The expiration recorded for a token issued at `now`: seven days later,
/// saturating at the largest representable timestamp.
pub open spec fn expiration_of(now: i64) -> int {
    if now <= i64::MAX - TOKEN_TTL_SECONDS {
        now + TOKEN_TTL_SECONDS
    } else {
        i64::MAX as int
    }
}

/// Failures of the confirmation workflow and the access decision.
#[derive(Debug)]
pub enum RecipientError {
    /// The claimed name or email failed validation; carries the reason.
    InvalidRecipient(String),
    /// A store constraint failed: the link does not exist, or a generated
    /// identifier collided with an existing row.
    StoreError,
    /// State was persisted but the confirmation email could not be sent; the
    /// pending token remains valid and the registration can be retried.
    DeliveryFailed,
}

/// Failures of the confirm operation.
#[derive(Debug)]
pub enum ConfirmError {
    /// No token row holds the presented token string.
    TokenNotFound,
}

/// The successful outcomes of a registration.
#[derive(Debug)]
pub enum RegisterOutcome {
    /// The pair was already confirmed: no token issued, no email owed.
    AlreadyConfirmed,
    /// A fresh `Pending` token was persisted for the recipient/link pair.
    Issued { recipient_id: String, token: String },
}

/// The three outcomes of an access check that are observable at the
/// boundary.
#[derive(Debug)]
pub enum AccessResult {
    /// The pair is confirmed: redirect to the stored target URL.
    Redirect(String),
    /// The identity has never registered: invite it to register.
    NotRegistered,
    /// Registered but not confirmed: deny access.
    Denied,
}

/// The query parameters of the confirmation endpoint.
pub struct Parameters {
    pub link_token: String,
}

/// Whether a claimed identity passes validation: a non-empty name and an
/// email the external validator accepts.
pub open spec fn identity_valid(name: Seq<char>, email: Seq<char>) -> bool {
    name.len() > 0 && email_ok(email)
}

/// The recipient id a registration proceeds with: the existing row's id when
/// the identity is already registered, otherwise the freshly generated one.
pub open spec fn effective_rid(
    s: Store,
    name: Seq<char>,
    email: Seq<char>,
    new_rid: Seq<char>,
) -> Seq<char> {
    if s.has_recipient(name, email) {
        s.recipient_id_of(name, email)
    } else {
        new_rid
    }
}

/// Whether the identity's token for `lid` is already `Confirmed`, which
/// short-circuits a registration.
pub open spec fn already_confirmed(
    s: Store,
    name: Seq<char>,
    email: Seq<char>,
    lid: Seq<char>,
) -> bool {
    s.has_recipient(name, email) && s.status_of_spec(s.recipient_id_of(name, email), lid) == Some(
        TokenStatus::Confirmed,
    )
}

/// The store-constraint failures of a registration: an unknown link, a
/// generated recipient id that collides with an existing row, or a generated
/// token string that collides with an existing row.
pub open spec fn register_conflict(
    s: Store,
    name: Seq<char>,
    email: Seq<char>,
    lid: Seq<char>,
    new_rid: Seq<char>,
    tok: Seq<char>,
) -> bool {
    ||| !s.has_link(lid)
    ||| (!s.has_recipient(name, email) && s.recipient_id_taken(new_rid))
    ||| s.has_token(tok)
}

/// `t` is a token row with exactly the given fields.
pub open spec fn token_row_is(
    t: LinkToken,
    tok: Seq<char>,
    rid: Seq<char>,
    lid: Seq<char>,
    status: TokenStatus,
    exp: int,
) -> bool {
    &&& t.token@ == tok
    &&& t.recipient_id@ == rid
    &&& t.link_id@ == lid
    &&& t.status == status
    &&& t.expiration == exp
}

/// `post` is `pre` plus one recipient row with the given fields.
pub open spec fn recipients_extended(
    pre: Seq<Recipient>,
    post: Seq<Recipient>,
    rid: Seq<char>,
    name: Seq<char>,
    email: Seq<char>,
    at: int,
) -> bool {
    &&& post.len() == pre.len() + 1
    &&& forall|i: int| 0 <= i < pre.len() ==> post[i] == pre[i]
    &&& post.last().id@ == rid
    &&& post.last().name@ == name
    &&& post.last().email@ == email
    &&& post.last().received_link_at == at
}

/// `post` is `pre` with a fresh `Pending` row for the pair: replacing the
/// pair's current row where one exists (resetting the registration),
/// appended otherwise.
pub open spec fn tokens_upserted(
    pre: Seq<LinkToken>,
    post: Seq<LinkToken>,
    at: Option<int>,
    tok: Seq<char>,
    rid: Seq<char>,
    lid: Seq<char>,
    exp: int,
) -> bool {
    match at {
        Some(i) => {
            &&& 0 <= i < pre.len()
            &&& post.len() == pre.len()
            &&& forall|j: int| 0 <= j < pre.len() && j != i ==> post[j] == pre[j]
            &&& token_row_is(post[i], tok, rid, lid, TokenStatus::Pending, exp)
        },
        None => {
            &&& post.len() == pre.len() + 1
            &&& forall|j: int| 0 <= j < pre.len() ==> post[j] == pre[j]
            &&& token_row_is(post.last(), tok, rid, lid, TokenStatus::Pending, exp)
        },
    }
}

/// The successful registration transition: links untouched, the recipient
/// row reused or created, and the pair's token row upserted to a fresh
/// `Pending` token expiring seven days after `now`.
pub open spec fn register_issued(
    pre: Store,
    post: Store,
    name: Seq<char>,
    email: Seq<char>,
    lid: Seq<char>,
    rid: Seq<char>,
    tok: Seq<char>,
    now: i64,
) -> bool {
    &&& post.links@ == pre.links@
    &&& (if pre.has_recipient(name, email) {
        post.recipients@ == pre.recipients@ && rid == pre.recipient_id_of(name, email)
    } else {
        recipients_extended(pre.recipients@, post.recipients@, rid, name, email, now as int)
    })
    &&& tokens_upserted(
        pre.tokens@,
        post.tokens@,
        pre.token_idx(rid, lid),
        tok,
        rid,
        lid,
        expiration_of(now),
    )
}

/// The store is unchanged in every part.
pub open spec fn store_unchanged(pre: Store, post: Store) -> bool {
    &&& post.links@ == pre.links@
    &&& post.recipients@ == pre.recipients@
    &&& post.tokens@ == pre.tokens@
}

impl Store {
    /// The deterministic core of the confirmation workflow, taking the
    /// generated recipient id and token as arguments. Steps: validate the
    /// identity (fail fast, no store access); insert a new recipient row or
    /// reuse the existing one; short-circuit with `AlreadyConfirmed` when
    /// the pair's token is already `Confirmed`; otherwise persist a fresh
    /// `Pending` token for the pair, replacing any unconfirmed one — all
    /// atomically: every failure leaves the store unchanged.
    pub fn register_with(
        &mut self,
        name: &str,
        email: &str,
        link_id: &str,
        new_recipient_id: &str,
        token: &str,
        now: i64,
    ) -> (r: Result<RegisterOutcome, RecipientError>)
        requires
            old(self).wf(),
        ensures
            final(self).wf(),
            final(self).links@ == old(self).links@,
            Store::confirmed_preserved(*old(self), *final(self)),
            !identity_valid(name@, email@) ==> store_unchanged(*old(self), *final(self)) && (
            r matches Err(e) && e is InvalidRecipient),
            identity_valid(name@, email@) && already_confirmed(
                *old(self),
                name@,
                email@,
                link_id@,
            ) ==> store_unchanged(*old(self), *final(self)) && r
                == Ok::<RegisterOutcome, RecipientError>(RegisterOutcome::AlreadyConfirmed),
            identity_valid(name@, email@) && !already_confirmed(
                *old(self),
                name@,
                email@,
                link_id@,
            ) && register_conflict(
                *old(self),
                name@,
                email@,
                link_id@,
                new_recipient_id@,
                token@,
            ) ==> store_unchanged(*old(self), *final(self)) && r
                == Err::<RegisterOutcome, RecipientError>(RecipientError::StoreError),
            identity_valid(name@, email@) && !already_confirmed(
                *old(self),
                name@,
                email@,
                link_id@,
            ) && !register_conflict(
                *old(self),
                name@,
                email@,
                link_id@,
                new_recipient_id@,
                token@,
            ) ==> {
                let rid = effective_rid(*old(self), name@, email@, new_recipient_id@);
                &&& r matches Ok(o)
                &&& o matches RegisterOutcome::Issued { recipient_id, token: t }
                &&& recipient_id@ == rid
                &&& t@ == token@
                &&& register_issued(
                    *old(self),
                    *final(self),
                    name@,
                    email@,
                    link_id@,
                    rid,
                    token@,
                    now,
                )
                &&& final(self).has_recipient(name@, email@)
                &&& final(self).status_of_spec(rid, link_id@) == Some(TokenStatus::Pending)
            },
    {
        match RecipientName::parse(name.to_owned()) {
            Ok(_) => {},
            Err(m) => {
                return Err(RecipientError::InvalidRecipient(m));
            },
        }
        match RecipientEmail::parse(email.to_owned()) {
            Ok(_) => {},
            Err(m) => {
                return Err(RecipientError::InvalidRecipient(m));
            },
        }
        let mut is_new = false;
        let rid: String;
        match self.find_recipient_index(name, email) {
            Some(i) => {
                let existing = self.recipients[i].id.clone();
                match self.status_of(existing.as_str(), link_id) {
                    Some(TokenStatus::Confirmed) => {
                        return Ok(RegisterOutcome::AlreadyConfirmed);
                    },
                    _ => {},
                }
                rid = existing;
            },
            None => {
                if self.is_recipient_id_taken(new_recipient_id) {
                    return Err(RecipientError::StoreError);
                }
                is_new = true;
                rid = new_recipient_id.to_owned();
            },
        }
        if self.find_link_index(link_id).is_none() {
            return Err(RecipientError::StoreError);
        }
        if self.find_token_str_index(token).is_some() {
            return Err(RecipientError::StoreError);
        }
        let pair_idx = self.find_token_pair_index(rid.as_str(), link_id);
        proof {
            if is_new {
                match pair_idx {
                    Some(i) => {
                        lemma_first_match(self.tokens@, token_pair_matches(rid@, link_id@));
                        assert(token_pair_matches(rid@, link_id@)(self.tokens@[i as int]));
                        assert(self.recipient_id_taken(rid@));
                    },
                    None => {},
                }
            }
        }
        if is_new {
            self.recipients.push(
                Recipient {
                    id: rid.clone(),
                    name: name.to_owned(),
                    email: email.to_owned(),
                    received_link_at: now,
                },
            );
        }
        let exp: i64 = if now <= i64::MAX - TOKEN_TTL_SECONDS {
            now + TOKEN_TTL_SECONDS
        } else {
            i64::MAX
        };
        let row = LinkToken {
            token: token.to_owned(),
            recipient_id: rid.clone(),
            link_id: link_id.to_owned(),
            status: TokenStatus::Pending,
            expiration: exp,
        };
        match pair_idx {
            Some(i) => {
                *vec_index_mut(&mut self.tokens, i) = row;
            },
            None => {
                self.tokens.push(row);
            },
        }
        proof {
            self.lemma_register_mutation(
                *old(self),
                name@,
                email@,
                link_id@,
                rid@,
                token@,
                now,
                is_new,
                match pair_idx {
                    Some(i) => Some(i as int),
                    None => None,
                },
            );
        }
        Ok(RegisterOutcome::Issued { recipient_id: rid, token: token.to_owned() })
    }

    /// Registers the claimed identity for the link, generating the
    /// recipient id and the 25-character confirmation token. The outcomes:
    /// an invalid identity is rejected with `InvalidRecipient` (no store
    /// access); an already-confirmed pair short-circuits with
    /// `AlreadyConfirmed` (no token issued); an unknown link fails with
    /// `StoreError`; otherwise a fresh `Pending` token is persisted for the
    /// pair and returned — unless a generated identifier collided with an
    /// existing row, which also fails with `StoreError` and changes nothing.
    /// A collision needs an existing recipient or token row, so with none
    /// stored a valid registration for a known link always succeeds.
    pub fn register(&mut self, name: &str, email: &str, link_id: &str, now: i64) -> (r: Result<
        RegisterOutcome,
        RecipientError,
    >)
        requires
            old(self).wf(),
        ensures
            final(self).wf(),
            final(self).links@ == old(self).links@,
            Store::confirmed_preserved(*old(self), *final(self)),
            !identity_valid(name@, email@) ==> store_unchanged(*old(self), *final(self)) && (
            r matches Err(e) && e is InvalidRecipient),
            identity_valid(name@, email@) && already_confirmed(
                *old(self),
                name@,
                email@,
                link_id@,
            ) ==> store_unchanged(*old(self), *final(self)) && r
                == Ok::<RegisterOutcome, RecipientError>(RegisterOutcome::AlreadyConfirmed),
            identity_valid(name@, email@) && !already_confirmed(
                *old(self),
                name@,
                email@,
                link_id@,
            ) && !old(self).has_link(link_id@) ==> store_unchanged(*old(self), *final(self)) && r
                == Err::<RegisterOutcome, RecipientError>(RecipientError::StoreError),
            identity_valid(name@, email@) && !already_confirmed(
                *old(self),
                name@,
                email@,
                link_id@,
            ) && old(self).has_link(link_id@) ==> match r {
                Ok(o) => {
                    &&& o matches RegisterOutcome::Issued { recipient_id, token: t }
                    &&& t@.len() == 25
                    &&& recipient_id@ == effective_rid(*old(self), name@, email@, recipient_id@)
                    &&& register_issued(
                        *old(self),
                        *final(self),
                        name@,
                        email@,
                        link_id@,
                        recipient_id@,
                        t@,
                        now,
                    )
                    &&& final(self).has_recipient(name@, email@)
                    &&& final(self).status_of_spec(recipient_id@, link_id@) == Some(
                        TokenStatus::Pending,
                    )
                },
                Err(e) => e is StoreError && store_unchanged(*old(self), *final(self)) && (old(
                    self,
                ).recipients@.len() > 0 || old(self).tokens@.len() > 0),
            },
    {
        let rid = generate_recipient_id();
        let tok = generate_link_token();
        let r = self.register_with(name, email, link_id, rid.as_str(), tok.as_str(), now);
        proof {
            // A failure past the validation and link checks is a collision
            // of a generated identifier, which needs an existing row.
            if identity_valid(name@, email@) && !already_confirmed(
                *old(self),
                name@,
                email@,
                link_id@,
            ) && old(self).has_link(link_id@) && r is Err {
                if old(self).recipient_id_taken(rid@) {
                    let w = choose|i: int|
                        0 <= i < old(self).recipients@.len() && (
                        #[trigger] old(self).recipients@[i]).id@ == rid@;
                    assert(old(self).recipients@.len() > 0);
                }
                if old(self).has_token(tok@) {
                    lemma_first_match(old(self).tokens@, token_str_matches(tok@));
                }
            }
        }
        r
    }

    /// The terminal access decision for a claimed identity and a requested
    /// link: an invalid identity is rejected; an identity that never
    /// registered gets `NotRegistered`; a `Confirmed` pair gets a redirect
    /// to the stored target URL; anything else is `Denied`.
    pub fn access(&self, name: &str, email: &str, link_id: &str) -> (r: Result<
        AccessResult,
        RecipientError,
    >)
        requires
            self.wf(),
        ensures
            !identity_valid(name@, email@) ==> (r matches Err(e) && e is InvalidRecipient),
            identity_valid(name@, email@) ==> match r {
                Ok(a) => if !self.has_recipient(name@, email@) {
                    a is NotRegistered
                } else if self.status_of_spec(self.recipient_id_of(name@, email@), link_id@)
                    == Some(TokenStatus::Confirmed) {
                    a matches AccessResult::Redirect(t) && t@ == self.link_target(link_id@)
                } else {
                    a is Denied
                },
                Err(_) => false,
            },
    {
        match RecipientName::parse(name.to_owned()) {
            Ok(_) => {},
            Err(m) => {
                return Err(RecipientError::InvalidRecipient(m));
            },
        }
        match RecipientEmail::parse(email.to_owned()) {
            Ok(_) => {},
            Err(m) => {
                return Err(RecipientError::InvalidRecipient(m));
            },
        }
        let rid = match self.find_recipient_index(name, email) {
            None => {
                return Ok(AccessResult::NotRegistered);
            },
            Some(i) => self.recipients[i].id.clone(),
        };
        match self.status_of(rid.as_str(), link_id) {
            Some(TokenStatus::Confirmed) => {
                proof {
                    let k = self.token_idx(rid@, link_id@)->Some_0;
                    lemma_first_match(self.tokens@, token_pair_matches(rid@, link_id@));
                    assert(token_pair_matches(rid@, link_id@)(self.tokens@[k]));
                    assert(self.has_link(self.tokens@[k].link_id@));
                }
                match self.resolve(link_id) {
                    Ok(t) => Ok(AccessResult::Redirect(t)),
                    Err(_) => {
                        proof {
                            assert(false);
                        }
                        Err(RecipientError::StoreError)
                    },
                }
            },
            _ => Ok(AccessResult::Denied),
        }
    }

    /// Marks the token row holding `link_token` as `Confirmed` (a no-op in
    /// effect when it already is) and returns the link id it references;
    /// `TokenNotFound` when no row holds the token. Expiration is recorded
    /// at issuance but deliberately not checked here.
    pub fn confirm_recipient(&mut self, link_token: &str) -> (r: Result<String, ConfirmError>)
        requires
            old(self).wf(),
        ensures
            final(self).wf(),
            final(self).links@ == old(self).links@,
            final(self).recipients@ == old(self).recipients@,
            Store::confirmed_preserved(*old(self), *final(self)),
            !old(self).has_token(link_token@) ==> final(self).tokens@ == old(self).tokens@ && (
            r matches Err(e) && e is TokenNotFound),
            old(self).has_token(link_token@) ==> {
                let i = old(self).token_str_idx(link_token@)->Some_0;
                let pre = old(self).tokens@[i];
                &&& r matches Ok(lid)
                &&& lid@ == pre.link_id@
                &&& final(self).tokens@.len() == old(self).tokens@.len()
                &&& forall|j: int|
                    0 <= j < old(self).tokens@.len() && j != i ==> final(self).tokens@[j] == old(
                        self,
                    ).tokens@[j]
                &&& token_row_is(
                    final(self).tokens@[i],
                    pre.token@,
                    pre.recipient_id@,
                    pre.link_id@,
                    TokenStatus::Confirmed,
                    pre.expiration as int,
                )
                &&& final(self).status_of_spec(pre.recipient_id@, pre.link_id@) == Some(
                    TokenStatus::Confirmed,
                )
            },
    {
        let i = match self.find_token_str_index(link_token) {
            None => {
                return Err(ConfirmError::TokenNotFound);
            },
            Some(i) => i,
        };
        let row = LinkToken {
            token: self.tokens[i].token.clone(),
            recipient_id: self.tokens[i].recipient_id.clone(),
            link_id: self.tokens[i].link_id.clone(),
            status: TokenStatus::Confirmed,
            expiration: self.tokens[i].expiration,
        };
        let lid = row.link_id.clone();
        *vec_index_mut(&mut self.tokens, i) = row;
        proof {
            self.lemma_confirm_mutation(*old(self), link_token@, i as int);
        }
        Ok(lid)
    }

    /// Flipping one token row's status to `Confirmed` in place preserves
    /// well-formedness, leaves every lookup where it was, and moves no pair
    /// away from `Confirmed`.
    proof fn lemma_confirm_mutation(self, pre: Store, tok: Seq<char>, i: int)
        requires
            pre.wf(),
            pre.token_str_idx(tok) == Some(i),
            self.links@ == pre.links@,
            self.recipients@ == pre.recipients@,
            self.tokens@.len() == pre.tokens@.len(),
            forall|j: int| 0 <= j < pre.tokens@.len() && j != i ==> self.tokens@[j]
                == pre.tokens@[j],
            0 <= i < self.tokens@.len(),
            self.tokens@[i].token@ == pre.tokens@[i].token@,
            self.tokens@[i].recipient_id@ == pre.tokens@[i].recipient_id@,
            self.tokens@[i].link_id@ == pre.tokens@[i].link_id@,
            self.tokens@[i].status == TokenStatus::Confirmed,
            self.tokens@[i].expiration == pre.tokens@[i].expiration,
        ensures
            self.wf(),
            Store::confirmed_preserved(pre, self),
            self.status_of_spec(pre.tokens@[i].recipient_id@, pre.tokens@[i].link_id@) == Some(
                TokenStatus::Confirmed,
            ),
    {
        let old_row = pre.tokens@[i];
        let new_row = self.tokens@[i];
        assert(self.tokens@ =~= pre.tokens@.update(i, new_row));

        // Uniqueness is untouched: the row kept its token string and pair.
        assert forall|a: int, b: int|
            0 <= a < b < self.tokens@.len() implies ((#[trigger] self.tokens@[a]).token@
            != (#[trigger] self.tokens@[b]).token@ && !(self.tokens@[a].recipient_id@
            == self.tokens@[b].recipient_id@ && self.tokens@[a].link_id@
            == self.tokens@[b].link_id@)) by {
            assert(self.tokens@[a].token@ == pre.tokens@[a].token@);
            assert(self.tokens@[b].token@ == pre.tokens@[b].token@);
            assert(self.tokens@[a].recipient_id@ == pre.tokens@[a].recipient_id@);
            assert(self.tokens@[b].recipient_id@ == pre.tokens@[b].recipient_id@);
            assert(self.tokens@[a].link_id@ == pre.tokens@[a].link_id@);
            assert(self.tokens@[b].link_id@ == pre.tokens@[b].link_id@);
        }

        // References are untouched likewise.
        assert forall|k: int|
            0 <= k < self.tokens@.len() implies self.has_link(
            (#[trigger] self.tokens@[k]).link_id@,
        ) && self.recipient_id_taken(self.tokens@[k].recipient_id@) by {
            assert(self.tokens@[k].link_id@ == pre.tokens@[k].link_id@);
            assert(self.tokens@[k].recipient_id@ == pre.tokens@[k].recipient_id@);
            assert(pre.has_link(pre.tokens@[k].link_id@));
            assert(pre.recipient_id_taken(pre.tokens@[k].recipient_id@));
            assert(self.link_idx(pre.tokens@[k].link_id@) == pre.link_idx(
                pre.tokens@[k].link_id@,
            ));
            let w = choose|w: int|
                0 <= w < pre.recipients@.len() && (#[trigger] pre.recipients@[w]).id@
                    == pre.tokens@[k].recipient_id@;
            assert(self.recipients@[w].id@ == pre.tokens@[k].recipient_id@);
        }

        // Every pair's lookup lands where it did before.
        assert forall|rid2: Seq<char>, lid2: Seq<char>| #[trigger]
            self.token_idx(rid2, lid2) == pre.token_idx(rid2, lid2) by {
            lemma_first_match_update(pre.tokens@, token_pair_matches(rid2, lid2), i, new_row);
        }

        // No pair moves away from `Confirmed`: the lookup is unchanged and
        // the one touched row only gained `Confirmed`.
        assert forall|rid2: Seq<char>, lid2: Seq<char>|
            #[trigger] pre.status_of_spec(rid2, lid2) == Some(
            TokenStatus::Confirmed,
        ) implies self.status_of_spec(rid2, lid2) == Some(TokenStatus::Confirmed) by {
            assert(self.token_idx(rid2, lid2) == pre.token_idx(rid2, lid2));
            lemma_first_match(pre.tokens@, token_pair_matches(rid2, lid2));
            let m = pre.token_idx(rid2, lid2)->Some_0;
            if m != i {
                assert(self.tokens@[m] == pre.tokens@[m]);
            }
        }

        lemma_first_match(pre.tokens@, token_pair_matches(old_row.recipient_id@, old_row.link_id@));
        lemma_first_match_exists(
            pre.tokens@,
            token_pair_matches(old_row.recipient_id@, old_row.link_id@),
        );
        assert(token_pair_matches(old_row.recipient_id@, old_row.link_id@)(old_row));
        let k = pre.token_idx(old_row.recipient_id@, old_row.link_id@)->Some_0;
        assert(token_pair_matches(old_row.recipient_id@, old_row.link_id@)(pre.tokens@[k]));
        if k != i {
            // Two distinct rows for one pair would break uniqueness.
            assert(false);
        }
        assert(self.status_of_spec(old_row.recipient_id@, old_row.link_id@) == Some(
            TokenStatus::Confirmed,
        ));
    }

    /// The mutation step of `register_with` re-establishes well-formedness,
    /// records the fresh `Pending` status, and moves no pair away from
    /// `Confirmed`.
    proof fn lemma_register_mutation(
        self,
        pre: Store,
        name: Seq<char>,
        email: Seq<char>,
        lid: Seq<char>,
        rid: Seq<char>,
        tok: Seq<char>,
        now: i64,
        is_new: bool,
        at: Option<int>,
    )
        requires
            pre.wf(),
            pre.has_link(lid),
            !pre.has_token(tok),
            is_new ==> !pre.has_recipient(name, email) && !pre.recipient_id_taken(rid) && name.len()
                > 0,
            !is_new ==> pre.has_recipient(name, email) && rid == pre.recipient_id_of(name, email)
                && pre.status_of_spec(rid, lid) != Some(TokenStatus::Confirmed),
            at == pre.token_idx(rid, lid),
            self.links@ == pre.links@,
            is_new ==> recipients_extended(
                pre.recipients@,
                self.recipients@,
                rid,
                name,
                email,
                now as int,
            ),
            !is_new ==> self.recipients@ == pre.recipients@,
            tokens_upserted(pre.tokens@, self.tokens@, at, tok, rid, lid, expiration_of(now)),
        ensures
            self.wf(),
            Store::confirmed_preserved(pre, self),
            self.has_recipient(name, email),
            self.recipient_id_of(name, email) == rid,
            self.status_of_spec(rid, lid) == Some(TokenStatus::Pending),
            register_issued(pre, self, name, email, lid, rid, tok, now),
    {
        let n = pre.tokens@.len() as int;
        // The pair's old row (if any) matches the pair predicate; nothing else does.
        lemma_first_match(pre.tokens@, token_pair_matches(rid, lid));
        lemma_first_match(pre.tokens@, token_str_matches(tok));
        lemma_first_match(pre.recipients@, recipient_matches(name, email));

        // Recipients: identity lookup lands on the reused or appended row.
        if is_new {
            lemma_first_match_push(
                pre.recipients@,
                recipient_matches(name, email),
                self.recipients@.last(),
            );
            assert(self.recipients@ =~= pre.recipients@.push(self.recipients@.last()));
            assert(recipient_matches(name, email)(self.recipients@.last()));
            assert(self.recipient_idx(name, email) == Some(pre.recipients@.len() as int));
        } else {
            assert(self.recipient_idx(name, email) == pre.recipient_idx(name, email));
        }

        // Recipients stay unique.
        assert forall|i: int, j: int|
            0 <= i < j < self.recipients@.len() implies !((#[trigger] self.recipients@[i]).name@
            == (#[trigger] self.recipients@[j]).name@ && self.recipients@[i].email@
            == self.recipients@[j].email@) && self.recipients@[i].id@
            != self.recipients@[j].id@ by {
            if is_new && j == pre.recipients@.len() {
                assert(!recipient_matches(name, email)(pre.recipients@[i]));
                assert(!pre.recipient_id_taken(rid) ==> pre.recipients@[i].id@ != rid);
            }
        }

        // The new token row's status for the pair.
        match at {
            Some(i) => {
                assert(self.tokens@ =~= pre.tokens@.update(i, self.tokens@[i]));
                assert forall|k: int|
                    0 <= k < self.tokens@.len() && k != i implies !token_pair_matches(rid, lid)(
                    #[trigger] self.tokens@[k],
                ) by {
                    assert(self.tokens@[k] == pre.tokens@[k]);
                }
                lemma_first_match_at(self.tokens@, token_pair_matches(rid, lid), i);
            },
            None => {
                lemma_first_match_push(
                    pre.tokens@,
                    token_pair_matches(rid, lid),
                    self.tokens@.last(),
                );
                assert(self.tokens@ =~= pre.tokens@.push(self.tokens@.last()));
            },
        }
        assert(self.status_of_spec(rid, lid) == Some(TokenStatus::Pending));

        // Tokens stay unique: the fresh token string collides with nothing,
        // and the upserted row is the only one for the pair.
        assert forall|i: int, j: int|
            0 <= i < j < self.tokens@.len() implies ((#[trigger] self.tokens@[i]).token@
            != (#[trigger] self.tokens@[j]).token@ && !(self.tokens@[i].recipient_id@
            == self.tokens@[j].recipient_id@ && self.tokens@[i].link_id@
            == self.tokens@[j].link_id@)) by {
            let iv = self.tokens@[i];
            let jv = self.tokens@[j];
            match at {
                Some(u) => {
                    if i != u && j != u {
                        assert(iv == pre.tokens@[i] && jv == pre.tokens@[j]);
                    } else if i == u {
                        assert(jv == pre.tokens@[j]);
                        assert(!token_str_matches(tok)(pre.tokens@[j]));
                        assert(!token_pair_matches(rid, lid)(pre.tokens@[j]));
                    } else {
                        assert(iv == pre.tokens@[i]);
                        assert(!token_str_matches(tok)(pre.tokens@[i]));
                        assert(!token_pair_matches(rid, lid)(pre.tokens@[i]));
                    }
                },
                None => {
                    if j == n {
                        assert(iv == pre.tokens@[i]);
                        assert(!token_str_matches(tok)(pre.tokens@[i]));
                        assert(!token_pair_matches(rid, lid)(pre.tokens@[i]));
                    } else {
                        assert(iv == pre.tokens@[i] && jv == pre.tokens@[j]);
                    }
                },
            }
        }

        // Every token row still references an existing link and recipient.
        assert forall|i: int|
            0 <= i < self.tokens@.len() implies self.has_link(
            (#[trigger] self.tokens@[i]).link_id@,
        ) && self.recipient_id_taken(self.tokens@[i].recipient_id@) by {
            let t = self.tokens@[i];
            assert(self.link_idx(t.link_id@) == pre.link_idx(t.link_id@));
            let fresh = match at {
                Some(u) => i == u,
                None => i == n,
            };
            if fresh {
                assert(t.link_id@ == lid && t.recipient_id@ == rid);
                if is_new {
                    assert(self.recipients@[pre.recipients@.len() as int].id@ == rid);
                } else {
                    let k = pre.recipient_idx(name, email)->Some_0;
                    assert(pre.recipients@[k].id@ == rid);
                    assert(self.recipients@[k].id@ == rid);
                }
            } else {
                assert(t == pre.tokens@[i]);
                assert(pre.has_link(t.link_id@));
                assert(pre.recipient_id_taken(t.recipient_id@));
                let k = choose|k: int|
                    0 <= k < pre.recipients@.len() && (#[trigger] pre.recipients@[k]).id@
                        == t.recipient_id@;
                assert(self.recipients@[k].id@ == t.recipient_id@);
            }
        }

        // No pair moves away from `Confirmed`.
        assert forall|rid2: Seq<char>, lid2: Seq<char>|
            #[trigger] pre.status_of_spec(rid2, lid2) == Some(
            TokenStatus::Confirmed,
        ) implies self.status_of_spec(rid2, lid2) == Some(TokenStatus::Confirmed) by {
            let k = pre.token_idx(rid2, lid2)->Some_0;
            lemma_first_match(pre.tokens@, token_pair_matches(rid2, lid2));
            assert(token_pair_matches(rid2, lid2)(pre.tokens@[k]));
            // The touched pair was not confirmed, so this is another row.
            match at {
                Some(u) => {
                    assert(!(rid2 == rid && lid2 == lid));
                    assert(!token_pair_matches(rid2, lid2)(self.tokens@[u]));
                    assert(token_pair_matches(rid2, lid2)(self.tokens@[u]) == token_pair_matches(
                        rid2,
                        lid2,
                    )(pre.tokens@[u]) || k == u);
                    if k == u {
                        assert(false);
                    }
                    lemma_first_match_update(
                        pre.tokens@,
                        token_pair_matches(rid2, lid2),
                        u,
                        self.tokens@[u],
                    );
                    assert(self.tokens@ =~= pre.tokens@.update(u, self.tokens@[u]));
                    assert(self.token_idx(rid2, lid2) == pre.token_idx(rid2, lid2));
                    assert(self.tokens@[k] == pre.tokens@[k]);
                },
                None => {
                    lemma_first_match_push(
                        pre.tokens@,
                        token_pair_matches(rid2, lid2),
                        self.tokens@.last(),
                    );
                    assert(self.tokens@ =~= pre.tokens@.push(self.tokens@.last()));
                    assert(self.token_idx(rid2, lid2) == pre.token_idx(rid2, lid2));
                    assert(self.tokens@[k] == pre.tokens@[k]);
                },
            }
        }
    }
}

} // verus!
