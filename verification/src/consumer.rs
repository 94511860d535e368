//! The registration consumer: turns inbound "user registered" notifications
//! into default profiles, exactly once per user.
//!
//! Delivery is at least once and may duplicate or arrive malformed, so each
//! message moves through a small state machine: a missing or unparseable
//! body is skipped, a duplicate (the profile already exists) is treated as
//! success, and only a genuine backend or serialization failure aborts the
//! rest of the batch — the transport then redelivers. The transport and the
//! parsing of raw bodies stay outside; the consumer receives each message as
//! an already-parsed event, or as nothing when parsing failed.

use vstd::prelude::*;

use crate::codec::profile_of_item;
use crate::codec::profile_sk;
use crate::codec::user_pk;
use crate::error::UserError;
use crate::models::UserRegisteredEvent;
use crate::models::default_profile_view;
use crate::repository::UserRepository;
use crate::repository::has_profile;
use crate::store::key_is;
use crate::store::lemma_has_key_push;

verus! {

/// What became of one registration message.
#[derive(PartialEq, Eq, Structural, Clone, Copy, Debug)]
pub enum MessageOutcome {
    /// A default profile was created.
    Applied,
    /// The body was missing or did not parse; the message was skipped.
    SkippedMalformed,
    /// The user already had a profile; the duplicate was treated as
    /// success.
    SkippedDuplicate,
}

/// Classify the result of a profile creation as the consumer must: success
/// applied, a conditional-check failure is a benign duplicate, and any
/// other failure is propagated.
pub fn creation_outcome(r: Result<(), UserError>) -> (o: Result<MessageOutcome, UserError>)
    ensures
        r is Ok ==> o == Ok::<MessageOutcome, UserError>(MessageOutcome::Applied),
        r matches Err(e) ==> o == (if e is ConditionalCheckFailed {
            Ok::<MessageOutcome, UserError>(MessageOutcome::SkippedDuplicate)
        } else {
            Err::<MessageOutcome, UserError>(e)
        }),
{
    match r {
        Ok(_) => Ok(MessageOutcome::Applied),
        Err(UserError::ConditionalCheckFailed) => Ok(MessageOutcome::SkippedDuplicate),
        Err(e) => Err(e),
    }
}

/// Handle one registration message: skip it when it did not parse, create
/// the default profile when the user has none, and treat an existing
/// profile as a benign duplicate. Against this store no other failure
/// exists, so the result is always a successful outcome.
pub fn handle_registration_message(
    repo: &mut UserRepository,
    msg: &Option<UserRegisteredEvent>,
) -> (r: Result<MessageOutcome, UserError>)
    requires
        old(repo).wf(),
    ensures
        final(repo).wf(),
        msg is None ==> r == Ok::<MessageOutcome, UserError>(MessageOutcome::SkippedMalformed)
            && final(repo)@ == old(repo)@,
        msg matches Some(e) ==> {
            &&& has_profile(old(repo)@, e.user_id@) ==> r == Ok::<MessageOutcome, UserError>(
                MessageOutcome::SkippedDuplicate,
            ) && final(repo)@ == old(repo)@
            &&& !has_profile(old(repo)@, e.user_id@) ==> {
                &&& r == Ok::<MessageOutcome, UserError>(MessageOutcome::Applied)
                &&& final(repo)@.len() == old(repo)@.len() + 1
                &&& final(repo)@.drop_last() == old(repo)@
                &&& final(repo)@.last().pk == user_pk(e.user_id@)
                &&& final(repo)@.last().sk == profile_sk()
                &&& (profile_of_item(final(repo)@.last().item) matches Some(p) && p
                    == default_profile_view(e.user_id@, e.email@, p.created_at))
            }
        },
{
    match msg {
        None => Ok(MessageOutcome::SkippedMalformed),
        Some(event) => creation_outcome(repo.create_default_profile(event)),
    }
}

/// Whether an entry is the default profile that some parsed message of the
/// batch asked to create.
pub open spec fn created_by_batch(
    msgs: Seq<Option<UserRegisteredEvent>>,
    entry: crate::store::EntryV,
) -> bool {
    exists|i: int|
        0 <= i < msgs.len() && (#[trigger] msgs[i] matches Some(ev) && entry.pk == user_pk(
            ev.user_id@,
        ) && entry.sk == profile_sk() && (profile_of_item(entry.item) matches Some(p) && p
            == default_profile_view(ev.user_id@, ev.email@, p.created_at)))
}

/// Process a batch of registration messages in arrival order. Malformed
/// messages are skipped, duplicates are treated as success, and every
/// parsed event's user ends up with a profile. The batch touches nothing
/// else: every entry that existed before stands unchanged, and every entry
/// it adds is the default profile some parsed message asked for — with the
/// store's unique keys, at most one per user. Against this store the whole
/// batch always succeeds.
pub fn process_registration_batch(
    repo: &mut UserRepository,
    msgs: &Vec<Option<UserRegisteredEvent>>,
) -> (r: Result<Vec<MessageOutcome>, UserError>)
    requires
        old(repo).wf(),
    ensures
        final(repo).wf(),
        r is Ok,
        r matches Ok(outs) ==> {
            &&& outs@.len() == msgs@.len()
            &&& forall|i: int|
                0 <= i < msgs@.len() ==> ((#[trigger] outs@[i] == MessageOutcome::SkippedMalformed)
                    <==> msgs@[i] is None)
            &&& forall|i: int|
                0 <= i < msgs@.len() ==> (#[trigger] msgs@[i] matches Some(e) ==> has_profile(
                    final(repo)@,
                    e.user_id@,
                ))
        },
        forall|uid: Seq<char>|
            #[trigger] has_profile(old(repo)@, uid) ==> has_profile(final(repo)@, uid),
        old(repo)@.len() <= final(repo)@.len(),
        forall|j: int| 0 <= j < old(repo)@.len() ==> #[trigger] final(repo)@[j] == old(repo)@[j],
        forall|j: int|
            old(repo)@.len() <= j < final(repo)@.len() ==> created_by_batch(
                msgs@,
                #[trigger] final(repo)@[j],
            ),
{
    let mut outs: Vec<MessageOutcome> = Vec::new();
    let mut i: usize = 0;
    while i < msgs.len()
        invariant
            i <= msgs.len(),
            repo.wf(),
            outs@.len() == i,
            forall|j: int|
                0 <= j < i ==> ((#[trigger] outs@[j] == MessageOutcome::SkippedMalformed)
                    <==> msgs@[j] is None),
            forall|j: int|
                0 <= j < i ==> (#[trigger] msgs@[j] matches Some(e) ==> has_profile(
                    repo@,
                    e.user_id@,
                )),
            forall|uid: Seq<char>|
                #[trigger] has_profile(old(repo)@, uid) ==> has_profile(repo@, uid),
            old(repo)@.len() <= repo@.len(),
            forall|j: int| 0 <= j < old(repo)@.len() ==> #[trigger] repo@[j] == old(repo)@[j],
            forall|j: int|
                old(repo)@.len() <= j < repo@.len() ==> created_by_batch(
                    msgs@,
                    #[trigger] repo@[j],
                ),
        decreases msgs.len() - i,
    {
        let ghost pre = repo@;
        let outcome = match handle_registration_message(repo, &msgs[i]) {
            Ok(o) => o,
            Err(e) => {
                return Err(e);
            },
        };
        proof {
            match msgs@[i as int] {
                Some(ev) => {
                    if !has_profile(pre, ev.user_id@) {
                        let entry = repo@.last();
                        assert(repo@ =~= pre.push(entry));
                        assert(key_is(entry, user_pk(ev.user_id@), profile_sk()));
                        assert forall|uid: Seq<char>| #[trigger] has_profile(
                            pre,
                            uid,
                        ) implies has_profile(repo@, uid) by {
                            lemma_has_key_push(pre, entry, user_pk(uid), profile_sk());
                        }
                        lemma_has_key_push(pre, entry, user_pk(ev.user_id@), profile_sk());
                        assert(created_by_batch(msgs@, entry)) by {
                            assert(msgs@[i as int] matches Some(e2) && entry.pk == user_pk(
                                e2.user_id@,
                            ) && entry.sk == profile_sk() && (profile_of_item(entry.item) matches Some(
                                p,
                            ) && p == default_profile_view(e2.user_id@, e2.email@, p.created_at)));
                        }
                        assert forall|j: int|
                            old(repo)@.len() <= j < repo@.len() implies created_by_batch(
                            msgs@,
                            #[trigger] repo@[j],
                        ) by {
                            if j < pre.len() {
                                assert(repo@[j] == pre[j]);
                                assert(created_by_batch(msgs@, pre[j]));
                            } else {
                                assert(repo@[j] == entry);
                            }
                        }
                        assert forall|j: int| 0 <= j < old(repo)@.len() implies #[trigger] repo@[j]
                            == old(repo)@[j] by {
                            assert(repo@[j] == pre[j]);
                        }
                    }
                },
                None => {},
            }
        }
        outs.push(outcome);
        i = i + 1;
    }
    Ok(outs)
}

} // verus!
