//! The cross-operation guarantees of the service, stated and proved once
//! over the spec-level transitions that the operations' contracts expose.

use vstd::prelude::*;

use crate::find::{first_match, lemma_first_match, lemma_first_match_push};
use crate::links::links_extended;
use crate::register::register_issued;
use crate::store::{link_matches, recipient_matches, token_pair_matches, Recipient, Store,
    TokenStatus};
use crate::urls::{url_normal_of, url_ok};

verus! {

/// How many recipient rows carry the given identity.
pub open spec fn count_identity(rs: Seq<Recipient>, name: Seq<char>, email: Seq<char>) -> nat
    decreases rs.len(),
{
    if rs.len() == 0 {
        0
    } else {
        (if recipient_matches(name, email)(rs[0]) {
            1nat
        } else {
            0nat
        }) + count_identity(rs.drop_first(), name, email)
    }
}

/// When at most one row can carry the identity, the count is `1` exactly
/// when some row carries it, and `0` otherwise.
pub proof fn lemma_count_identity(rs: Seq<Recipient>, name: Seq<char>, email: Seq<char>)
    requires
        forall|i: int, j: int|
            0 <= i < j < rs.len() && recipient_matches(name, email)(#[trigger] rs[i])
                ==> !recipient_matches(name, email)(#[trigger] rs[j]),
    ensures
        count_identity(rs, name, email) == if exists|i: int|
            0 <= i < rs.len() && recipient_matches(name, email)(#[trigger] rs[i]) {
            1nat
        } else {
            0nat
        },
    decreases rs.len(),
{
    if rs.len() > 0 {
        let rest = rs.drop_first();
        assert(forall|j: int| 0 <= j < rest.len() ==> #[trigger] rest[j] == rs[j + 1]);
        assert forall|i: int, j: int|
            0 <= i < j < rest.len() && recipient_matches(name, email)(
                #[trigger] rest[i],
            ) implies !recipient_matches(name, email)(#[trigger] rest[j]) by {
            assert(rest[i] == rs[i + 1] && rest[j] == rs[j + 1]);
        }
        lemma_count_identity(rest, name, email);
        if recipient_matches(name, email)(rs[0]) {
            assert forall|j: int|
                0 <= j < rest.len() implies !recipient_matches(name, email)(
                #[trigger] rest[j],
            ) by {
                assert(rest[j] == rs[j + 1]);
            }
            assert(count_identity(rest, name, email) == 0);
        } else {
            if exists|i: int| 0 <= i < rs.len() && recipient_matches(name, email)(
                #[trigger] rs[i],
            ) {
                let w = choose|i: int|
                    0 <= i < rs.len() && recipient_matches(name, email)(#[trigger] rs[i]);
                assert(w > 0 && rest[w - 1] == rs[w]);
            }
            if exists|i: int| 0 <= i < rest.len() && recipient_matches(name, email)(
                #[trigger] rest[i],
            ) {
                let w = choose|i: int|
                    0 <= i < rest.len() && recipient_matches(name, email)(#[trigger] rest[i]);
                assert(rs[w + 1] == rest[w]);
            }
        }
    }
}

/// Creating links never produces two identical short ids: in a well-formed
/// store, distinct link rows carry distinct ids, and every operation keeps
/// the store well-formed.
pub proof fn lemma_link_ids_unique(s: Store, i: int, j: int)
    requires
        s.wf(),
        0 <= i < s.links@.len(),
        0 <= j < s.links@.len(),
        i != j,
    ensures
        s.links@[i].id@ != s.links@[j].id@,
{
}

/// Round trip: after a successful creation of a link for `url` under a
/// fresh id, the id resolves to the normalized form of `url`.
pub proof fn lemma_create_resolve_round_trip(
    pre: Store,
    post: Store,
    url: Seq<char>,
    id: Seq<char>,
    now: i64,
)
    requires
        url_ok(url),
        !pre.has_link(id),
        links_extended(pre.links@, post.links@, id, url_normal_of(url)->Some_0, now as int),
    ensures
        post.has_link(id),
        post.link_target(id) == url_normal_of(url)->Some_0,
{
    lemma_first_match(pre.links@, link_matches(id));
    lemma_first_match_push(pre.links@, link_matches(id), post.links@.last());
    assert(post.links@ =~= pre.links@.push(post.links@.last()));
    assert(link_matches(id)(post.links@.last()));
}

/// Registering the same identity for the same link twice in a row, with no
/// confirmation in between, succeeds both times, leaves exactly one
/// recipient row for the identity, and leaves a `Pending` token for the
/// pair; the duplicate-identity conflict never reaches the caller.
pub proof fn lemma_register_idempotent(
    s0: Store,
    s1: Store,
    s2: Store,
    name: Seq<char>,
    email: Seq<char>,
    lid: Seq<char>,
    rid1: Seq<char>,
    rid2: Seq<char>,
    tok1: Seq<char>,
    tok2: Seq<char>,
    now1: i64,
    now2: i64,
)
    requires
        s2.wf(),
        register_issued(s0, s1, name, email, lid, rid1, tok1, now1),
        register_issued(s1, s2, name, email, lid, rid2, tok2, now2),
    ensures
        count_identity(s2.recipients@, name, email) == 1,
        s2.has_recipient(name, email),
        s2.status_of_spec(rid2, lid) == Some(TokenStatus::Pending),
{
    // The second registration's pair row is `Pending` and, by uniqueness,
    // the row every lookup of the pair lands on.
    let at = s1.token_idx(rid2, lid);
    let i: int = match at {
        Some(i) => i,
        None => s1.tokens@.len() as int,
    };
    assert(token_pair_matches(rid2, lid)(s2.tokens@[i]));
    lemma_first_match(s2.tokens@, token_pair_matches(rid2, lid));
    match first_match(s2.tokens@, token_pair_matches(rid2, lid)) {
        Some(f) => {
            if f != i {
                assert(false);
            }
        },
        None => {
            assert(!token_pair_matches(rid2, lid)(s2.tokens@[i]));
        },
    }
    assert(s2.status_of_spec(rid2, lid) == Some(TokenStatus::Pending));

    // Exactly one recipient row carries the identity.
    if s1.has_recipient(name, email) {
        lemma_first_match(s1.recipients@, recipient_matches(name, email));
        let w = s1.recipient_idx(name, email)->Some_0;
        assert(recipient_matches(name, email)(s2.recipients@[w]));
    } else {
        assert(recipient_matches(name, email)(s2.recipients@[s1.recipients@.len() as int]));
    }
    assert forall|a: int, b: int|
        0 <= a < b < s2.recipients@.len() && recipient_matches(name, email)(
            #[trigger] s2.recipients@[a],
        ) implies !recipient_matches(name, email)(#[trigger] s2.recipients@[b]) by {}
    lemma_count_identity(s2.recipients@, name, email);
}

/// Once a pair's token is `Confirmed`, no sequence of operations moves it
/// back: preservation composes across consecutive transitions.
pub proof fn lemma_confirmed_preserved_trans(s0: Store, s1: Store, s2: Store)
    requires
        Store::confirmed_preserved(s0, s1),
        Store::confirmed_preserved(s1, s2),
    ensures
        Store::confirmed_preserved(s0, s2),
{
}

} // verus!

