//! Domain records: user profiles, course enrollments, and the requests and
//! events that mutate them.
//!
//! Timestamps are plain integers, milliseconds since the Unix epoch; the
//! clock itself lives behind a single wrapper in the repository.

use vstd::prelude::*;

use crate::normalize::norm_id;
use crate::normalize::normalize_course_id;

verus! {

/// An inbound "user registered" notification, consumed but never stored.
pub struct UserRegisteredEvent {
    pub user_id: String,
    pub email: String,
}

/// Ghost form of [`UserRegisteredEvent`].
pub struct EventV {
    pub user_id: Seq<char>,
    pub email: Seq<char>,
}

impl View for UserRegisteredEvent {
    type V = EventV;

    open spec fn view(&self) -> EventV {
        EventV { user_id: self.user_id@, email: self.email@ }
    }
}

/// Optional study preferences; both fields may be absent.
#[derive(Debug)]
pub struct StudyPreferences {
    pub preferred_time: Option<String>,
    pub preferred_style: Option<String>,
}

/// Ghost form of [`StudyPreferences`].
pub struct StudyPreferencesV {
    pub preferred_time: Option<Seq<char>>,
    pub preferred_style: Option<Seq<char>>,
}

impl View for StudyPreferences {
    type V = StudyPreferencesV;

    open spec fn view(&self) -> StudyPreferencesV {
        StudyPreferencesV {
            preferred_time: self.preferred_time.deep_view(),
            preferred_style: self.preferred_style.deep_view(),
        }
    }
}

/// Per-user privacy switches.
#[derive(PartialEq, Eq, Structural, Clone, Copy, Debug)]
pub struct PrivacySettings {
    pub show_courses: bool,
}

impl Default for PrivacySettings {
    /// Courses are visible by default.
    fn default() -> (r: Self)
        ensures
            r.show_courses,
    {
        PrivacySettings { show_courses: true }
    }
}

/// The one profile record each user owns, stored under the `PROFILE` sort
/// key. `created_at` is set once at creation and never mutated.
#[derive(Debug)]
pub struct UserProfile {
    pub user_id: String,
    pub email: String,
    pub name: Option<String>,
    pub interests: Vec<String>,
    pub study_preferences: Option<StudyPreferences>,
    pub privacy: PrivacySettings,
    pub created_at: i64,
}

/// Ghost form of [`UserProfile`].
pub struct ProfileV {
    pub user_id: Seq<char>,
    pub email: Seq<char>,
    pub name: Option<Seq<char>>,
    pub interests: Seq<Seq<char>>,
    pub study_preferences: Option<StudyPreferencesV>,
    pub privacy: PrivacySettings,
    pub created_at: i64,
}

impl View for UserProfile {
    type V = ProfileV;

    open spec fn view(&self) -> ProfileV {
        ProfileV {
            user_id: self.user_id@,
            email: self.email@,
            name: self.name.deep_view(),
            interests: self.interests.deep_view(),
            study_preferences: match self.study_preferences {
                Some(p) => Some(p@),
                None => None,
            },
            privacy: self.privacy,
            created_at: self.created_at,
        }
    }
}

/// The profile a freshly registered user gets: empty interests, no study
/// preferences, default privacy, and the given creation time.
pub open spec fn default_profile_view(user_id: Seq<char>, email: Seq<char>, now: i64) -> ProfileV {
    ProfileV {
        user_id: user_id,
        email: email,
        name: None,
        interests: Seq::empty(),
        study_preferences: None,
        privacy: PrivacySettings { show_courses: true },
        created_at: now,
    }
}

/// A partial profile update; absent fields are left untouched, present
/// fields are replaced wholesale.
pub struct UpdateProfileRequest {
    pub name: Option<String>,
    pub interests: Option<Vec<String>>,
    pub study_preferences: Option<StudyPreferences>,
}

/// Ghost form of [`UpdateProfileRequest`].
pub struct UpdateRequestV {
    pub name: Option<Seq<char>>,
    pub interests: Option<Seq<Seq<char>>>,
    pub study_preferences: Option<StudyPreferencesV>,
}

impl View for UpdateProfileRequest {
    type V = UpdateRequestV;

    open spec fn view(&self) -> UpdateRequestV {
        UpdateRequestV {
            name: self.name.deep_view(),
            interests: match self.interests {
                Some(v) => Some(v.deep_view()),
                None => None,
            },
            study_preferences: match self.study_preferences {
                Some(p) => Some(p@),
                None => None,
            },
        }
    }
}

/// A request to enroll in a course; the id is normalized before use.
pub struct AddCourseRequest {
    pub course_id: String,
}

impl AddCourseRequest {
    /// The canonical form of the requested course id.
    pub fn normalized_course_id(&self) -> (r: String)
        ensures
            r@ == norm_id(self.course_id@),
    {
        normalize_course_id(self.course_id.as_str())
    }
}

/// An outbound notification that a course was added for a user.
pub struct CourseAddedEvent {
    pub course_id: String,
    pub user_id: String,
}

/// The stored form of one enrollment: the normalized course id and the time
/// it was (last) added.
pub struct CourseItem {
    pub course_id: String,
    pub added_at: i64,
}

/// A profile read assembled for another user: course data is present only
/// when the owner's privacy settings allow it.
pub struct PublicProfile {
    pub user_id: String,
    pub name: Option<String>,
    pub interests: Vec<String>,
    pub study_preferences: Option<StudyPreferences>,
    pub courses: Option<Vec<String>>,
}

/// Assemble the publicly visible form of a profile. Every profile field of
/// the output — id, name, interests, study preferences — comes from the
/// profile alone (the type carries no email at all), and the courses handed
/// in appear exactly when the owner shows them; when `show_courses` is off
/// the output carries no course data at all.
pub fn assemble_public_profile(profile: UserProfile, courses: Vec<String>) -> (r: PublicProfile)
    ensures
        r.user_id@ == profile.user_id@,
        r.name.deep_view() == profile.name.deep_view(),
        r.interests.deep_view() == profile.interests.deep_view(),
        r.study_preferences is Some <==> profile.study_preferences is Some,
        profile.study_preferences matches Some(sp) ==> (r.study_preferences matches Some(rp)
            && rp@ == sp@),
        r.courses is Some <==> profile.privacy.show_courses,
        profile.privacy.show_courses ==> (r.courses matches Some(c) && c.deep_view()
            == courses.deep_view()),
{
    let courses_field = if profile.privacy.show_courses {
        Some(courses)
    } else {
        None
    };
    PublicProfile {
        user_id: profile.user_id,
        name: profile.name,
        interests: profile.interests,
        study_preferences: profile.study_preferences,
        courses: courses_field,
    }
}

} // verus!
