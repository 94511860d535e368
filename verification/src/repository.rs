//! The storage repository: the sole reader and writer of persisted state.
//!
//! Every operation goes through the conditional store, and every
//! conditional-write policy is stated here: profile creation requires the
//! profile key to be absent (a present one reports a benign duplicate),
//! profile updates require it to be present, enrollment is rejected when the
//! normalized course key already exists, and removal is rejected when it
//! does not. An update built from an all-absent request issues no write at
//! all.

use vstd::prelude::*;

use crate::attr::ValueView;
use crate::attr::lookup;
use crate::codec::course_of_item;
use crate::codec::course_sk;
use crate::codec::decode_course;
use crate::codec::decode_profile;
use crate::codec::encode_course;
use crate::codec::encode_profile;
use crate::codec::make_course_sk;
use crate::codec::make_profile_sk;
use crate::codec::make_user_pk;
use crate::codec::prefs_doc_of;
use crate::codec::profile_of_item;
use crate::codec::profile_sk;
use crate::codec::user_pk;
use crate::error::UserError;
use crate::models::CourseItem;
use crate::models::PrivacySettings;
use crate::models::UpdateProfileRequest;
use crate::models::UserProfile;
use crate::models::UserRegisteredEvent;
use crate::models::default_profile_view;
use crate::normalize::norm_id;
use crate::normalize::normalize_course_id;
use crate::store::Condition;
use crate::store::EntryV;
use crate::store::KvStore;
use crate::store::get_item;
use crate::store::has_key;
use crate::store::idx_of;
use crate::store::key_is;
use crate::store::query_items;
use crate::store::unique_keys;
use crate::update::build_update;
use crate::update::lemma_update_effect;
use crate::update::touches;

verus! {

/// Whether a user already has a profile record.
pub open spec fn has_profile(s: Seq<EntryV>, user_id: Seq<char>) -> bool {
    has_key(s, user_pk(user_id), profile_sk())
}

/// The course ids a list of enrollment items decodes to, in order, or
/// `None` when any item is malformed.
pub open spec fn course_ids_of(items: Seq<Seq<(Seq<char>, ValueView)>>) -> Option<Seq<Seq<char>>>
    decreases items.len(),
{
    if items.len() == 0 {
        Some(Seq::empty())
    } else {
        match (course_ids_of(items.drop_last()), course_of_item(items.last())) {
            (Some(ids), Some(c)) => Some(ids.push(c.course_id)),
            _ => None,
        }
    }
}

/// One malformed item anywhere makes the whole decode fail.
proof fn lemma_course_ids_none(items: Seq<Seq<(Seq<char>, ValueView)>>, i: int)
    requires
        0 <= i < items.len(),
        course_of_item(items[i]) is None,
    ensures
        course_ids_of(items) is None,
    decreases items.len(),
{
    if i < items.len() - 1 {
        lemma_course_ids_none(items.drop_last(), i);
    }
}

/// Because keys are unique, at most one profile record ever exists for one
/// user id: no two entries both sit under that user's profile key.
pub proof fn lemma_at_most_one_profile(s: Seq<EntryV>, user_id: Seq<char>)
    requires
        unique_keys(s),
    ensures
        forall|i: int, j: int|
            0 <= i < j < s.len() && key_is(#[trigger] s[i], user_pk(user_id), profile_sk())
                ==> !key_is(#[trigger] s[j], user_pk(user_id), profile_sk()),
{
}

/// A fresh enrollment entry lands in the user's course query: its sort key
/// carries the course prefix, so appending it extends the query result by
/// exactly its item. Together with the contracts of `add_course` and
/// `get_courses`, a read after an add sees exactly the ids added so far.
pub proof fn lemma_course_entry_in_query(
    s: Seq<EntryV>,
    user_id: Seq<char>,
    course_id: Seq<char>,
    e: EntryV,
)
    requires
        e.pk == user_pk(user_id),
        e.sk == course_sk(course_id),
    ensures
        query_items(s.push(e), user_pk(user_id), "COURSE#"@) == query_items(
            s,
            user_pk(user_id),
            "COURSE#"@,
        ).push(e.item),
{
    reveal_strlit("COURSE#");
    assert(("COURSE#"@ + course_id).take("COURSE#"@.len() as int) =~= "COURSE#"@);
    assert(crate::store::entry_matches(e, user_pk(user_id), "COURSE#"@));
    assert(s.push(e).drop_last() =~= s);
    assert(s.push(e).last() == e);
}

/// Relies on `std::time::SystemTime::now` for the current wall-clock time,
/// read as whole milliseconds since the Unix epoch; nothing is assumed of
/// the value. A clock that reads before the epoch is taken as zero rather
/// than a panic: the error arm of `duration_since` is handled here.
#[verifier::external_body]
fn now_millis() -> i64 {
    match std::time::SystemTime::now().duration_since(std::time::UNIX_EPOCH) {
        Ok(d) => d.as_millis() as i64,
        Err(_) => 0,
    }
}

/// The repository over the conditional store.
pub struct UserRepository {
    pub store: KvStore,
}

impl View for UserRepository {
    type V = Seq<EntryV>;

    open spec fn view(&self) -> Seq<EntryV> {
        self.store@
    }
}

impl UserRepository {
    /// Keys in the underlying store are unique.
    pub open spec fn wf(self) -> bool {
        self.store.wf()
    }

    /// A repository over an empty store.
    pub fn new() -> (r: Self)
        ensures
            r@ == Seq::<EntryV>::empty(),
            r.wf(),
    {
        UserRepository { store: KvStore::new() }
    }

    /// Create the default profile for a freshly registered user at the
    /// given creation time: no name, no interests, no study preferences,
    /// courses visible. The write is conditional on no profile existing;
    /// a present profile reports a conditional-check failure and leaves
    /// the store unchanged.
    pub fn create_default_profile_at(
        &mut self,
        event: &UserRegisteredEvent,
        now: i64,
    ) -> (r: Result<(), UserError>)
        requires
            old(self).wf(),
        ensures
            final(self).wf(),
            has_profile(old(self)@, event.user_id@) ==> r == Err::<(), UserError>(
                UserError::ConditionalCheckFailed,
            ) && final(self)@ == old(self)@,
            !has_profile(old(self)@, event.user_id@) ==> {
                &&& r == Ok::<(), UserError>(())
                &&& final(self)@.len() == old(self)@.len() + 1
                &&& final(self)@.drop_last() == old(self)@
                &&& final(self)@.last().pk == user_pk(event.user_id@)
                &&& final(self)@.last().sk == profile_sk()
                &&& profile_of_item(final(self)@.last().item) == Some(
                    default_profile_view(event.user_id@, event.email@, now),
                )
            },
    {
        let profile = UserProfile {
            user_id: event.user_id.clone(),
            email: event.email.clone(),
            name: None,
            interests: Vec::new(),
            study_preferences: None,
            privacy: PrivacySettings { show_courses: true },
            created_at: now,
        };
        proof {
            assert(profile.interests.deep_view() =~= Seq::<Seq<char>>::empty());
            assert(profile@ == default_profile_view(event.user_id@, event.email@, now));
        }
        let item = encode_profile(&profile);
        let pk = make_user_pk(event.user_id.as_str());
        let sk = make_profile_sk();
        let r = self.store.put(pk, sk, item, Condition::NotExists);
        proof {
            if !has_profile(old(self)@, event.user_id@) {
                assert(self@.drop_last() =~= old(self)@);
            }
        }
        r
    }

    /// Create the default profile with the current wall-clock time as the
    /// creation timestamp.
    pub fn create_default_profile(&mut self, event: &UserRegisteredEvent) -> (r: Result<
        (),
        UserError,
    >)
        requires
            old(self).wf(),
        ensures
            final(self).wf(),
            has_profile(old(self)@, event.user_id@) ==> r == Err::<(), UserError>(
                UserError::ConditionalCheckFailed,
            ) && final(self)@ == old(self)@,
            !has_profile(old(self)@, event.user_id@) ==> {
                &&& r == Ok::<(), UserError>(())
                &&& final(self)@.len() == old(self)@.len() + 1
                &&& final(self)@.drop_last() == old(self)@
                &&& final(self)@.last().pk == user_pk(event.user_id@)
                &&& final(self)@.last().sk == profile_sk()
                &&& (profile_of_item(final(self)@.last().item) matches Some(p)
                    && p == default_profile_view(event.user_id@, event.email@, p.created_at))
            },
    {
        let now = now_millis();
        self.create_default_profile_at(event, now)
    }

    /// Point read of a user's profile. An absent profile is not an error:
    /// it reads as an explicit `None`. A stored profile that does not
    /// decode reports a serialization failure.
    pub fn get_profile(&self, user_id: &str) -> (r: Result<Option<UserProfile>, UserError>)
        ensures
            match r {
                Ok(Some(p)) => has_profile(self@, user_id@) && (get_item(
                    self@,
                    user_pk(user_id@),
                    profile_sk(),
                ) matches Some(it) && profile_of_item(it) == Some(p@)),
                Ok(None) => !has_profile(self@, user_id@),
                Err(e) => has_profile(self@, user_id@) && (get_item(
                    self@,
                    user_pk(user_id@),
                    profile_sk(),
                ) matches Some(it) && profile_of_item(it) is None) && e is Serialization,
            },
    {
        let pk = make_user_pk(user_id);
        let sk = make_profile_sk();
        match self.store.get(pk.as_str(), sk.as_str()) {
            None => Ok(None),
            Some(m) => match decode_profile(m) {
                Ok(p) => Ok(Some(p)),
                Err(e) => Err(e),
            },
        }
    }

    /// All of a user's enrollments: the normalized course ids, in store
    /// order. A stored enrollment that does not decode reports a
    /// serialization failure.
    pub fn get_courses(&self, user_id: &str) -> (r: Result<Vec<String>, UserError>)
        ensures
            match r {
                Ok(v) => course_ids_of(query_items(self@, user_pk(user_id@), "COURSE#"@)) == Some(
                    v.deep_view(),
                ),
                Err(e) => course_ids_of(query_items(self@, user_pk(user_id@), "COURSE#"@)) is None
                    && e is Serialization,
            },
    {
        let pk = make_user_pk(user_id);
        let items = self.store.query_prefix(pk.as_str(), "COURSE#");
        let ghost iv = crate::store::items_view(items@);
        let mut out: Vec<String> = Vec::new();
        let mut i: usize = 0;
        while i < items.len()
            invariant
                i <= items.len(),
                iv == crate::store::items_view(items@),
                iv.len() == items.len(),
                iv == query_items(self@, user_pk(user_id@), "COURSE#"@),
                course_ids_of(iv.take(i as int)) == Some(out.deep_view()),
            decreases items.len() - i,
        {
            proof {
                assert(iv.take(i + 1).drop_last() =~= iv.take(i as int));
                assert(iv.take(i + 1).last() == iv[i as int]);
            }
            match decode_course(&items[i]) {
                Ok(c) => {
                    let ghost before = out.deep_view();
                    out.push(c.course_id);
                    proof {
                        assert(out.deep_view() =~= before.push(c.course_id@));
                    }
                },
                Err(e) => {
                    proof {
                        lemma_course_ids_none(iv, i as int);
                    }
                    return Err(e);
                },
            }
            i = i + 1;
        }
        proof {
            assert(iv.take(items.len() as int) =~= iv);
        }
        Ok(out)
    }

    /// Apply a partial update to a user's profile. An all-absent request is
    /// a no-op that issues no write and succeeds. Otherwise the write is
    /// conditional on the profile existing; on success exactly the present
    /// fields are replaced wholesale and every other attribute — and every
    /// other stored item — is untouched.
    pub fn update_profile(&mut self, user_id: &str, req: &UpdateProfileRequest) -> (r: Result<
        (),
        UserError,
    >)
        requires
            old(self).wf(),
        ensures
            final(self).wf(),
            (req.name is None && req.interests is None && req.study_preferences is None) ==> r
                == Ok::<(), UserError>(()) && final(self)@ == old(self)@,
            !(req.name is None && req.interests is None && req.study_preferences is None)
                && !has_profile(old(self)@, user_id@) ==> r == Err::<(), UserError>(
                UserError::ConditionalCheckFailed,
            ) && final(self)@ == old(self)@,
            !(req.name is None && req.interests is None && req.study_preferences is None)
                && has_profile(old(self)@, user_id@) ==> {
                let idx = idx_of(old(self)@, user_pk(user_id@), profile_sk());
                &&& r == Ok::<(), UserError>(())
                &&& final(self)@.len() == old(self)@.len()
                &&& forall|j: int|
                    0 <= j < old(self)@.len() && j != idx ==> final(self)@[j] == old(self)@[j]
                &&& final(self)@[idx].pk == old(self)@[idx].pk
                &&& final(self)@[idx].sk == old(self)@[idx].sk
                &&& forall|k: Seq<char>|
                    !touches(req@, k) ==> #[trigger] lookup(final(self)@[idx].item, k) == lookup(
                        old(self)@[idx].item,
                        k,
                    )
                &&& req@.name matches Some(n) ==> lookup(final(self)@[idx].item, "name"@) == Some(
                    ValueView::S(n),
                )
                &&& req@.interests matches Some(v) ==> lookup(final(self)@[idx].item, "interests"@)
                    == Some(ValueView::L(v))
                &&& req@.study_preferences matches Some(p) ==> lookup(
                    final(self)@[idx].item,
                    "study_preferences"@,
                ) == Some(ValueView::M(prefs_doc_of(p)))
            },
    {
        match build_update(req) {
            None => Ok(()),
            Some(m) => {
                let pk = make_user_pk(user_id);
                let sk = make_profile_sk();
                let r = self.store.update(pk.as_str(), sk.as_str(), &m);
                proof {
                    if has_profile(old(self)@, user_id@) {
                        let idx = idx_of(old(self)@, user_pk(user_id@), profile_sk());
                        lemma_update_effect(old(self)@[idx].item, req@);
                    }
                }
                r
            },
        }
    }

    /// Enroll a user in a course at the given time. The course id is
    /// normalized first; the write is conditional on that enrollment not
    /// existing yet, so re-adding the same normalized id reports a
    /// conditional-check failure and changes nothing.
    pub fn add_course_at(&mut self, user_id: &str, course_id: &str, now: i64) -> (r: Result<
        (),
        UserError,
    >)
        requires
            old(self).wf(),
        ensures
            final(self).wf(),
            has_key(old(self)@, user_pk(user_id@), course_sk(norm_id(course_id@))) ==> r == Err::<
                (),
                UserError,
            >(UserError::ConditionalCheckFailed) && final(self)@ == old(self)@,
            !has_key(old(self)@, user_pk(user_id@), course_sk(norm_id(course_id@))) ==> {
                &&& r == Ok::<(), UserError>(())
                &&& final(self)@.len() == old(self)@.len() + 1
                &&& final(self)@.drop_last() == old(self)@
                &&& final(self)@.last().pk == user_pk(user_id@)
                &&& final(self)@.last().sk == course_sk(norm_id(course_id@))
                &&& course_of_item(final(self)@.last().item) == Some(
                    crate::codec::CourseItemV { course_id: norm_id(course_id@), added_at: now },
                )
            },
    {
        let normalized = normalize_course_id(course_id);
        let course = CourseItem { course_id: normalized, added_at: now };
        let item = encode_course(user_id, &course);
        let pk = make_user_pk(user_id);
        let sk = make_course_sk(course.course_id.as_str());
        let r = self.store.put(pk, sk, item, Condition::NotExists);
        proof {
            if !has_key(old(self)@, user_pk(user_id@), course_sk(norm_id(course_id@))) {
                assert(self@.drop_last() =~= old(self)@);
            }
        }
        r
    }

    /// Enroll a user in a course, stamping the enrollment with the current
    /// wall-clock time.
    pub fn add_course(&mut self, user_id: &str, course_id: &str) -> (r: Result<(), UserError>)
        requires
            old(self).wf(),
        ensures
            final(self).wf(),
            has_key(old(self)@, user_pk(user_id@), course_sk(norm_id(course_id@))) ==> r == Err::<
                (),
                UserError,
            >(UserError::ConditionalCheckFailed) && final(self)@ == old(self)@,
            !has_key(old(self)@, user_pk(user_id@), course_sk(norm_id(course_id@))) ==> {
                &&& r == Ok::<(), UserError>(())
                &&& final(self)@.len() == old(self)@.len() + 1
                &&& final(self)@.drop_last() == old(self)@
                &&& final(self)@.last().pk == user_pk(user_id@)
                &&& final(self)@.last().sk == course_sk(norm_id(course_id@))
                &&& (course_of_item(final(self)@.last().item) matches Some(c) && c.course_id
                    == norm_id(course_id@))
            },
    {
        let now = now_millis();
        self.add_course_at(user_id, course_id, now)
    }

    /// Remove a user's enrollment. The course id is normalized first; the
    /// delete is conditional on the enrollment existing, so removing a
    /// course the user is not enrolled in reports a conditional-check
    /// failure and changes nothing.
    pub fn remove_course(&mut self, user_id: &str, course_id: &str) -> (r: Result<(), UserError>)
        requires
            old(self).wf(),
        ensures
            final(self).wf(),
            !has_key(old(self)@, user_pk(user_id@), course_sk(norm_id(course_id@))) ==> r == Err::<
                (),
                UserError,
            >(UserError::ConditionalCheckFailed) && final(self)@ == old(self)@,
            has_key(old(self)@, user_pk(user_id@), course_sk(norm_id(course_id@))) ==> r == Ok::<
                (),
                UserError,
            >(()) && final(self)@ == old(self)@.remove(
                idx_of(old(self)@, user_pk(user_id@), course_sk(norm_id(course_id@))),
            ),
    {
        let normalized = normalize_course_id(course_id);
        let pk = make_user_pk(user_id);
        let sk = make_course_sk(normalized.as_str());
        self.store.delete(pk.as_str(), sk.as_str())
    }
}

} // verus!
