//! The item codec: composite-key derivation and the bidirectional mapping
//! between typed records and the attribute-map form the store holds.
//!
//! A user's records share one partition key, `USER#<user_id>`; the sort key
//! discriminates the record: `PROFILE` for the single profile record,
//! `COURSE#<course_id>` for each enrollment. Encoding merges the derived key
//! fields with the record's own fields; decoding reads the record fields
//! back and fails with a serialization error when a required field is absent
//! or mistyped. Absent optional fields are omitted from the item.

use vstd::prelude::*;

use crate::attr::AttrMap;
use crate::attr::AttrScalar;
use crate::attr::AttrValue;
use crate::attr::ScalarView;
use crate::attr::ValueView;
use crate::attr::clone_string_vec;
use crate::attr::doc_lookup;
use crate::attr::doc_view;
use crate::attr::lookup;
use crate::error::UserError;
use crate::models::CourseItem;
use crate::models::PrivacySettings;
use crate::models::ProfileV;
use crate::models::StudyPreferences;
use crate::models::StudyPreferencesV;
use crate::models::UserProfile;
use crate::text::concat_str;

verus! {

/// The partition key shared by all of one user's records.
pub open spec fn user_pk(user_id: Seq<char>) -> Seq<char> {
    "USER#"@ + user_id
}

/// The sort key of the one profile record.
pub open spec fn profile_sk() -> Seq<char> {
    "PROFILE"@
}

/// The sort key of one enrollment record.
pub open spec fn course_sk(course_id: Seq<char>) -> Seq<char> {
    "COURSE#"@ + course_id
}

/// Derive the partition key for a user.
pub fn make_user_pk(user_id: &str) -> (r: String)
    ensures
        r@ == user_pk(user_id@),
{
    concat_str("USER#", user_id)
}

/// Derive the profile sort key.
pub fn make_profile_sk() -> (r: String)
    ensures
        r@ == profile_sk(),
{
    String::from_str("PROFILE")
}

/// Derive the sort key for a (normalized) course id.
pub fn make_course_sk(course_id: &str) -> (r: String)
    ensures
        r@ == course_sk(course_id@),
{
    concat_str("COURSE#", course_id)
}

/// Lengths and first characters of the attribute names this codec writes;
/// enough to tell any two distinct names apart.
pub proof fn lemma_attr_names()
    ensures
        "PK"@.len() == 2,
        "SK"@.len() == 2,
        "PK"@[0] == 'P',
        "SK"@[0] == 'S',
        "user_id"@.len() == 7,
        "email"@.len() == 5,
        "name"@.len() == 4,
        "interests"@.len() == 9,
        "interests"@[0] == 'i',
        "study_preferences"@.len() == 17,
        "privacy"@.len() == 7,
        "privacy"@[0] == 'p',
        "user_id"@[0] == 'u',
        "created_at"@.len() == 10,
        "course_id"@.len() == 9,
        "course_id"@[0] == 'c',
        "added_at"@.len() == 8,
        "preferred_time"@.len() == 14,
        "preferred_style"@.len() == 15,
        "show_courses"@.len() == 12,
{
    reveal_strlit("PK");
    reveal_strlit("SK");
    reveal_strlit("user_id");
    reveal_strlit("email");
    reveal_strlit("name");
    reveal_strlit("interests");
    reveal_strlit("study_preferences");
    reveal_strlit("privacy");
    reveal_strlit("created_at");
    reveal_strlit("course_id");
    reveal_strlit("added_at");
    reveal_strlit("preferred_time");
    reveal_strlit("preferred_style");
    reveal_strlit("show_courses");
}

/// Ghost form of [`CourseItem`].
pub struct CourseItemV {
    pub course_id: Seq<char>,
    pub added_at: i64,
}

impl View for CourseItem {
    type V = CourseItemV;

    open spec fn view(&self) -> CourseItemV {
        CourseItemV { course_id: self.course_id@, added_at: self.added_at }
    }
}

/// The canonical nested document for study preferences: present fields in
/// order, absent fields omitted.
pub open spec fn prefs_doc_of(p: StudyPreferencesV) -> Seq<(Seq<char>, ScalarView)> {
    (match p.preferred_time {
        Some(t) => seq![("preferred_time"@, ScalarView::S(t))],
        None => Seq::empty(),
    }) + (match p.preferred_style {
        Some(y) => seq![("preferred_style"@, ScalarView::S(y))],
        None => Seq::empty(),
    })
}

/// What a nested study-preferences document decodes to; `None` when a field
/// is mistyped.
pub open spec fn prefs_of_doc(d: Seq<(Seq<char>, ScalarView)>) -> Option<StudyPreferencesV> {
    match (doc_lookup(d, "preferred_time"@), doc_lookup(d, "preferred_style"@)) {
        (None, None) => Some(
            StudyPreferencesV { preferred_time: None, preferred_style: None },
        ),
        (Some(ScalarView::S(t)), None) => Some(
            StudyPreferencesV { preferred_time: Some(t), preferred_style: None },
        ),
        (None, Some(ScalarView::S(y))) => Some(
            StudyPreferencesV { preferred_time: None, preferred_style: Some(y) },
        ),
        (Some(ScalarView::S(t)), Some(ScalarView::S(y))) => Some(
            StudyPreferencesV { preferred_time: Some(t), preferred_style: Some(y) },
        ),
        _ => None,
    }
}

/// The optional `name` field of an item: absent is a legitimate `None`,
/// a non-string value is a failure.
pub open spec fn name_of_item(item: Seq<(Seq<char>, ValueView)>) -> Option<Option<Seq<char>>> {
    match lookup(item, "name"@) {
        None => Some(None),
        Some(ValueView::S(n)) => Some(Some(n)),
        Some(_) => None,
    }
}

/// The optional study-preferences field of an item.
pub open spec fn prefs_of_item(item: Seq<(Seq<char>, ValueView)>) -> Option<
    Option<StudyPreferencesV>,
> {
    match lookup(item, "study_preferences"@) {
        None => Some(None),
        Some(ValueView::M(d)) => match prefs_of_doc(d) {
            Some(p) => Some(Some(p)),
            None => None,
        },
        Some(_) => None,
    }
}

/// The `show_courses` switch of a privacy document.
pub open spec fn show_of_doc(d: Seq<(Seq<char>, ScalarView)>) -> Option<bool> {
    match doc_lookup(d, "show_courses"@) {
        Some(ScalarView::B(b)) => Some(b),
        _ => None,
    }
}

/// What a stored item decodes to as a profile record, or `None` when a
/// required field is absent or mistyped.
pub open spec fn profile_of_item(item: Seq<(Seq<char>, ValueView)>) -> Option<ProfileV> {
    match (
        lookup(item, "user_id"@),
        lookup(item, "email"@),
        lookup(item, "interests"@),
        lookup(item, "privacy"@),
        lookup(item, "created_at"@),
    ) {
        (
            Some(ValueView::S(user_id)),
            Some(ValueView::S(email)),
            Some(ValueView::L(interests)),
            Some(ValueView::M(privacy_doc)),
            Some(ValueView::N(created_at)),
        ) => match (name_of_item(item), prefs_of_item(item), show_of_doc(privacy_doc)) {
            (Some(name), Some(prefs), Some(show)) => Some(
                ProfileV {
                    user_id: user_id,
                    email: email,
                    name: name,
                    interests: interests,
                    study_preferences: prefs,
                    privacy: PrivacySettings { show_courses: show },
                    created_at: created_at,
                },
            ),
            _ => None,
        },
        _ => None,
    }
}

/// What a stored item decodes to as an enrollment record.
pub open spec fn course_of_item(item: Seq<(Seq<char>, ValueView)>) -> Option<CourseItemV> {
    match (lookup(item, "course_id"@), lookup(item, "added_at"@)) {
        (Some(ValueView::S(course_id)), Some(ValueView::N(added_at))) => Some(
            CourseItemV { course_id: course_id, added_at: added_at },
        ),
        _ => None,
    }
}

/// The canonical study-preferences document decodes back to what it was
/// built from.
pub proof fn lemma_prefs_roundtrip(p: StudyPreferencesV)
    ensures
        prefs_of_doc(prefs_doc_of(p)) == Some(p),
{
    lemma_attr_names();
    let dv = prefs_doc_of(p);
    match (p.preferred_time, p.preferred_style) {
        (Some(t), Some(y)) => {
            assert(dv =~= seq![
                ("preferred_time"@, ScalarView::S(t)),
                ("preferred_style"@, ScalarView::S(y)),
            ]);
            assert(dv.drop_first() =~= seq![("preferred_style"@, ScalarView::S(y))]);
            assert(doc_lookup(dv, "preferred_time"@) == Some(ScalarView::S(t)));
            assert(doc_lookup(dv, "preferred_style"@) == doc_lookup(
                dv.drop_first(),
                "preferred_style"@,
            ));
            assert(doc_lookup(dv.drop_first(), "preferred_style"@) == Some(ScalarView::S(y)));
        },
        (Some(t), None) => {
            assert(dv =~= seq![("preferred_time"@, ScalarView::S(t))]);
            assert(dv.drop_first() =~= Seq::<(Seq<char>, ScalarView)>::empty());
            assert(doc_lookup(dv, "preferred_time"@) == Some(ScalarView::S(t)));
            assert(doc_lookup(dv, "preferred_style"@) == doc_lookup(
                dv.drop_first(),
                "preferred_style"@,
            ));
            assert(doc_lookup(dv.drop_first(), "preferred_style"@) is None);
        },
        (None, Some(y)) => {
            assert(dv =~= seq![("preferred_style"@, ScalarView::S(y))]);
            assert(dv.drop_first() =~= Seq::<(Seq<char>, ScalarView)>::empty());
            assert(doc_lookup(dv, "preferred_style"@) == Some(ScalarView::S(y)));
            assert(doc_lookup(dv, "preferred_time"@) == doc_lookup(
                dv.drop_first(),
                "preferred_time"@,
            ));
            assert(doc_lookup(dv.drop_first(), "preferred_time"@) is None);
        },
        (None, None) => {
            assert(dv =~= Seq::<(Seq<char>, ScalarView)>::empty());
            assert(doc_lookup(dv, "preferred_time"@) is None);
            assert(doc_lookup(dv, "preferred_style"@) is None);
        },
    }
}

/// Encode study preferences as their canonical nested document.
pub fn encode_prefs_doc(sp: &StudyPreferences) -> (r: Vec<(String, AttrScalar)>)
    ensures
        doc_view(r@) == prefs_doc_of(sp@),
        prefs_of_doc(doc_view(r@)) == Some(sp@),
{
    let mut d: Vec<(String, AttrScalar)> = Vec::new();
    if let Some(t) = &sp.preferred_time {
        d.push((String::from_str("preferred_time"), AttrScalar::S(t.clone())));
    }
    if let Some(y) = &sp.preferred_style {
        d.push((String::from_str("preferred_style"), AttrScalar::S(y.clone())));
    }
    proof {
        let dv = doc_view(d@);
        match (&sp.preferred_time, &sp.preferred_style) {
            (Some(t), Some(y)) => {
                assert(dv =~= prefs_doc_of(sp@));
            },
            (Some(t), None) => {
                assert(dv =~= prefs_doc_of(sp@));
            },
            (None, Some(y)) => {
                assert(dv =~= prefs_doc_of(sp@));
            },
            (None, None) => {
                assert(dv =~= prefs_doc_of(sp@));
            },
        }
        lemma_prefs_roundtrip(sp@);
    }
    d
}

/// Encode the privacy settings as a nested document.
fn encode_privacy_doc(p: &PrivacySettings) -> (r: Vec<(String, AttrScalar)>)
    ensures
        show_of_doc(doc_view(r@)) == Some(p.show_courses),
{
    let mut d: Vec<(String, AttrScalar)> = Vec::new();
    d.push((String::from_str("show_courses"), AttrScalar::B(p.show_courses)));
    proof {
        lemma_attr_names();
        let dv = doc_view(d@);
        assert(dv =~= seq![("show_courses"@, ScalarView::B(p.show_courses))]);
        assert(doc_lookup(dv, "show_courses"@) == Some(ScalarView::B(p.show_courses)));
    }
    d
}

/// Encode a profile record, merging the derived key fields with the
/// record's own fields. The result decodes back to exactly this profile.
pub fn encode_profile(profile: &UserProfile) -> (r: AttrMap)
    ensures
        profile_of_item(r@) == Some(profile@),
        lookup(r@, "PK"@) == Some(ValueView::S(user_pk(profile.user_id@))),
        lookup(r@, "SK"@) == Some(ValueView::S(profile_sk())),
{
    let pk = make_user_pk(profile.user_id.as_str());
    let sk = make_profile_sk();
    let mut m = AttrMap::new();
    m.set("PK", AttrValue::S(pk));
    m.set("SK", AttrValue::S(sk));
    m.set("user_id", AttrValue::S(profile.user_id.clone()));
    m.set("email", AttrValue::S(profile.email.clone()));
    if let Some(n) = &profile.name {
        m.set("name", AttrValue::S(n.clone()));
    }
    m.set("interests", AttrValue::L(clone_string_vec(&profile.interests)));
    if let Some(sp) = &profile.study_preferences {
        m.set("study_preferences", AttrValue::M(encode_prefs_doc(sp)));
    }
    m.set("privacy", AttrValue::M(encode_privacy_doc(&profile.privacy)));
    m.set("created_at", AttrValue::N(profile.created_at));
    proof {
        lemma_attr_names();
    }
    m
}

/// Encode an enrollment record for a user, merging the derived key fields.
pub fn encode_course(user_id: &str, course: &CourseItem) -> (r: AttrMap)
    ensures
        course_of_item(r@) == Some(course@),
        lookup(r@, "PK"@) == Some(ValueView::S(user_pk(user_id@))),
        lookup(r@, "SK"@) == Some(ValueView::S(course_sk(course.course_id@))),
{
    let pk = make_user_pk(user_id);
    let sk = make_course_sk(course.course_id.as_str());
    let mut m = AttrMap::new();
    m.set("PK", AttrValue::S(pk));
    m.set("SK", AttrValue::S(sk));
    m.set("course_id", AttrValue::S(course.course_id.clone()));
    m.set("added_at", AttrValue::N(course.added_at));
    proof {
        lemma_attr_names();
        assert(lookup(m@, "added_at"@) == Some(ValueView::N(course.added_at)));
        assert(lookup(m@, "course_id"@) == Some(ValueView::S(course.course_id@)));
        assert(lookup(m@, "PK"@) == Some(ValueView::S(user_pk(user_id@))));
        assert(lookup(m@, "SK"@) == Some(ValueView::S(course_sk(course.course_id@))));
    }
    m
}

/// Look a scalar field up inside a nested document.
fn doc_get<'a>(d: &'a Vec<(String, AttrScalar)>, key: &str) -> (r: Option<&'a AttrScalar>)
    ensures
        match r {
            Some(v) => doc_lookup(doc_view(d@), key@) == Some(v@),
            None => doc_lookup(doc_view(d@), key@) is None,
        },
{
    let ghost dv = doc_view(d@);
    let n = d.len();
    let mut i: usize = 0;
    while i < n
        invariant
            i <= n,
            n == d.len(),
            dv == doc_view(d@),
            forall|j: int| 0 <= j < i ==> (#[trigger] dv[j]).0 != key@,
        decreases n - i,
    {
        let (k, v) = &d[i];
        if crate::text::str_eq(k.as_str(), key) {
            proof {
                assert(dv[i as int].0 == key@);
                lemma_doc_lookup_at(dv, key@, i as int);
            }
            return Some(v);
        }
        proof {
            assert(dv[i as int].0 != key@);
        }
        i = i + 1;
    }
    proof {
        lemma_doc_lookup_none(dv, key@);
    }
    None
}

/// If no field before position `i` carries the key and the field at `i`
/// does, then document lookup finds exactly that field.
proof fn lemma_doc_lookup_at(fields: Seq<(Seq<char>, ScalarView)>, key: Seq<char>, i: int)
    requires
        0 <= i < fields.len(),
        fields[i].0 == key,
        forall|j: int| 0 <= j < i ==> (#[trigger] fields[j]).0 != key,
    ensures
        doc_lookup(fields, key) == Some(fields[i].1),
    decreases i,
{
    if i > 0 {
        assert(fields.drop_first()[i - 1] == fields[i]);
        assert(forall|j: int|
            0 <= j < i - 1 ==> (#[trigger] fields.drop_first()[j]) == fields[j + 1]);
        lemma_doc_lookup_at(fields.drop_first(), key, i - 1);
    }
}

/// If no field carries the key, document lookup finds nothing.
proof fn lemma_doc_lookup_none(fields: Seq<(Seq<char>, ScalarView)>, key: Seq<char>)
    requires
        forall|j: int| 0 <= j < fields.len() ==> (#[trigger] fields[j]).0 != key,
    ensures
        doc_lookup(fields, key) is None,
    decreases fields.len(),
{
    if fields.len() > 0 {
        assert(forall|j: int|
            0 <= j < fields.len() - 1 ==> (#[trigger] fields.drop_first()[j]) == fields[j + 1]);
        lemma_doc_lookup_none(fields.drop_first(), key);
    }
}

/// Decode a nested study-preferences document.
fn decode_prefs_doc(d: &Vec<(String, AttrScalar)>) -> (r: Result<StudyPreferences, UserError>)
    ensures
        match r {
            Ok(sp) => prefs_of_doc(doc_view(d@)) == Some(sp@),
            Err(e) => prefs_of_doc(doc_view(d@)) is None && e is Serialization,
        },
{
    let preferred_time = match doc_get(d, "preferred_time") {
        None => None,
        Some(AttrScalar::S(t)) => Some(t.clone()),
        Some(_) => {
            return Err(UserError::Serialization(String::from_str("preferred_time")));
        },
    };
    let preferred_style = match doc_get(d, "preferred_style") {
        None => None,
        Some(AttrScalar::S(y)) => Some(y.clone()),
        Some(_) => {
            return Err(UserError::Serialization(String::from_str("preferred_style")));
        },
    };
    Ok(StudyPreferences { preferred_time, preferred_style })
}

/// Decode a stored item as a profile record; fails with a serialization
/// error naming the offending field when the item does not have the
/// expected shape.
pub fn decode_profile(item: &AttrMap) -> (r: Result<UserProfile, UserError>)
    ensures
        match r {
            Ok(p) => profile_of_item(item@) == Some(p@),
            Err(e) => profile_of_item(item@) is None && e is Serialization,
        },
{
    let user_id = match item.get("user_id") {
        Some(AttrValue::S(s)) => s.clone(),
        _ => {
            return Err(UserError::Serialization(String::from_str("user_id")));
        },
    };
    let email = match item.get("email") {
        Some(AttrValue::S(s)) => s.clone(),
        _ => {
            return Err(UserError::Serialization(String::from_str("email")));
        },
    };
    let interests = match item.get("interests") {
        Some(AttrValue::L(v)) => clone_string_vec(v),
        _ => {
            return Err(UserError::Serialization(String::from_str("interests")));
        },
    };
    let show_courses = match item.get("privacy") {
        Some(AttrValue::M(d)) => match doc_get(d, "show_courses") {
            Some(AttrScalar::B(b)) => *b,
            _ => {
                return Err(UserError::Serialization(String::from_str("show_courses")));
            },
        },
        _ => {
            return Err(UserError::Serialization(String::from_str("privacy")));
        },
    };
    let created_at = match item.get("created_at") {
        Some(AttrValue::N(n)) => *n,
        _ => {
            return Err(UserError::Serialization(String::from_str("created_at")));
        },
    };
    let name = match item.get("name") {
        None => None,
        Some(AttrValue::S(s)) => Some(s.clone()),
        Some(_) => {
            return Err(UserError::Serialization(String::from_str("name")));
        },
    };
    let study_preferences = match item.get("study_preferences") {
        None => None,
        Some(AttrValue::M(d)) => match decode_prefs_doc(d) {
            Ok(sp) => Some(sp),
            Err(e) => {
                return Err(e);
            },
        },
        Some(_) => {
            return Err(UserError::Serialization(String::from_str("study_preferences")));
        },
    };
    Ok(
        UserProfile {
            user_id,
            email,
            name,
            interests,
            study_preferences,
            privacy: PrivacySettings { show_courses },
            created_at,
        },
    )
}

/// Decode a stored item as an enrollment record.
pub fn decode_course(item: &AttrMap) -> (r: Result<CourseItem, UserError>)
    ensures
        match r {
            Ok(c) => course_of_item(item@) == Some(c@),
            Err(e) => course_of_item(item@) is None && e is Serialization,
        },
{
    let course_id = match item.get("course_id") {
        Some(AttrValue::S(s)) => s.clone(),
        _ => {
            return Err(UserError::Serialization(String::from_str("course_id")));
        },
    };
    let added_at = match item.get("added_at") {
        Some(AttrValue::N(n)) => *n,
        _ => {
            return Err(UserError::Serialization(String::from_str("added_at")));
        },
    };
    Ok(CourseItem { course_id, added_at })
}

} // verus!
