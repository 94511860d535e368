use user_core::attr::{AttrMap, AttrValue};
use user_core::codec::{decode_course, decode_profile, encode_course, encode_profile, make_course_sk, make_profile_sk, make_user_pk};
use user_core::consumer::{creation_outcome, handle_registration_message, process_registration_batch, MessageOutcome};
use user_core::models::{assemble_public_profile, AddCourseRequest, CourseItem, PrivacySettings, StudyPreferences, UpdateProfileRequest, UserProfile, UserRegisteredEvent};
use user_core::normalize_course_id;
use user_core::repository::UserRepository;
use user_core::UserError;

fn event(user_id: &str, email: &str) -> UserRegisteredEvent {
    UserRegisteredEvent { user_id: user_id.to_string(), email: email.to_string() }
}

fn empty_update() -> UpdateProfileRequest {
    UpdateProfileRequest { name: None, interests: None, study_preferences: None }
}

#[test]
fn normalization_examples() {
    assert_eq!(normalize_course_id(" cs 101 "), "CS101");
    assert_eq!(normalize_course_id("cs101"), "CS101");
    assert_eq!(normalize_course_id("CS 101"), "CS101");
    assert_eq!(normalize_course_id(""), "");
    assert_eq!(normalize_course_id("  \t\n "), "");
    assert_eq!(normalize_course_id("math-2: intro"), "MATH-2:INTRO");
}

#[test]
fn normalization_is_a_fixed_point() {
    for raw in [" cs 101 ", "cs101", "CS 101", "a\tb", "  ", "Éé 1"] {
        let once = normalize_course_id(raw);
        let twice = normalize_course_id(&once);
        assert_eq!(once, twice);
    }
}

#[test]
fn normalized_course_id_on_request() {
    let req = AddCourseRequest { course_id: " cs 101 ".to_string() };
    assert_eq!(req.normalized_course_id(), "CS101");
}

#[test]
fn privacy_defaults_to_visible_courses() {
    let p = PrivacySettings::default();
    assert!(p.show_courses);
}

#[test]
fn key_derivation() {
    assert_eq!(make_user_pk("u1"), "USER#u1");
    assert_eq!(make_profile_sk(), "PROFILE");
    assert_eq!(make_course_sk("CS101"), "COURSE#CS101");
}

#[test]
fn profile_codec_round_trip_full() {
    let profile = UserProfile {
        user_id: "u1".to_string(),
        email: "u1@example.com".to_string(),
        name: Some("Alice".to_string()),
        interests: vec!["math".to_string(), "physics".to_string()],
        study_preferences: Some(StudyPreferences {
            preferred_time: Some("evening".to_string()),
            preferred_style: None,
        }),
        privacy: PrivacySettings { show_courses: false },
        created_at: 1_700_000_000_000,
    };
    let item = encode_profile(&profile);
    let back = decode_profile(&item).expect("round trip");
    assert_eq!(back.user_id, "u1");
    assert_eq!(back.email, "u1@example.com");
    assert_eq!(back.name, Some("Alice".to_string()));
    assert_eq!(back.interests, vec!["math".to_string(), "physics".to_string()]);
    let prefs = back.study_preferences.expect("prefs kept");
    assert_eq!(prefs.preferred_time, Some("evening".to_string()));
    assert_eq!(prefs.preferred_style, None);
    assert!(!back.privacy.show_courses);
    assert_eq!(back.created_at, 1_700_000_000_000);
}

#[test]
fn profile_codec_round_trip_minimal() {
    let profile = UserProfile {
        user_id: "u2".to_string(),
        email: "u2@example.com".to_string(),
        name: None,
        interests: vec![],
        study_preferences: None,
        privacy: PrivacySettings { show_courses: true },
        created_at: 0,
    };
    let item = encode_profile(&profile);
    let back = decode_profile(&item).expect("round trip");
    assert_eq!(back.name, None);
    assert!(back.interests.is_empty());
    assert!(back.study_preferences.is_none());
    assert!(back.privacy.show_courses);
}

#[test]
fn decode_profile_missing_field_fails() {
    let mut item = AttrMap::new();
    item.set("email", AttrValue::S("x@example.com".to_string()));
    let err = decode_profile(&item).expect_err("user_id is required");
    assert!(matches!(err, UserError::Serialization(_)));
}

#[test]
fn decode_profile_mistyped_field_fails() {
    let profile = UserProfile {
        user_id: "u3".to_string(),
        email: "u3@example.com".to_string(),
        name: None,
        interests: vec![],
        study_preferences: None,
        privacy: PrivacySettings { show_courses: true },
        created_at: 7,
    };
    let mut item = encode_profile(&profile);
    item.set("user_id", AttrValue::N(5));
    let err = decode_profile(&item).expect_err("user_id must be a string");
    assert!(matches!(err, UserError::Serialization(_)));
}

#[test]
fn course_codec_round_trip() {
    let course = CourseItem { course_id: "CS101".to_string(), added_at: 42 };
    let item = encode_course("u1", &course);
    let back = decode_course(&item).expect("round trip");
    assert_eq!(back.course_id, "CS101");
    assert_eq!(back.added_at, 42);
}

#[test]
fn empty_update_builds_nothing() {
    assert!(user_core::update::build_update(&empty_update()).is_none());
}

#[test]
fn update_builder_emits_one_clause_per_present_field() {
    let req = UpdateProfileRequest {
        name: Some("Alice".to_string()),
        interests: Some(vec!["math".to_string()]),
        study_preferences: Some(StudyPreferences {
            preferred_time: Some("evening".to_string()),
            preferred_style: Some("visual".to_string()),
        }),
    };
    let m = user_core::update::build_update(&req).expect("three fields present");
    assert_eq!(m.clauses.len(), 3);
    assert_eq!(m.expression, "SET #n = :name, #i = :interests, #sp = :study_preferences");
    assert_eq!(m.clauses[0].attr_name, "name");
    assert_eq!(m.clauses[1].attr_name, "interests");
    assert_eq!(m.clauses[2].attr_name, "study_preferences");
}

#[test]
fn update_builder_single_field_expression() {
    let req = UpdateProfileRequest {
        name: Some("Bob".to_string()),
        interests: None,
        study_preferences: None,
    };
    let m = user_core::update::build_update(&req).expect("name present");
    assert_eq!(m.clauses.len(), 1);
    assert_eq!(m.expression, "SET #n = :name");
}

#[test]
fn idempotent_creation() {
    let mut repo = UserRepository::new();
    repo.create_default_profile_at(&event("alice", "alice@example.com"), 1)
        .expect("first create succeeds");
    let second = repo.create_default_profile_at(&event("alice", "other@example.com"), 2);
    assert!(matches!(second, Err(UserError::ConditionalCheckFailed)));
    assert_eq!(repo.store.entries.len(), 1);
    let profile = repo.get_profile("alice").expect("read").expect("present");
    assert_eq!(profile.email, "alice@example.com");
    assert_eq!(profile.created_at, 1);
    assert_eq!(profile.name, None);
    assert!(profile.interests.is_empty());
    assert!(profile.study_preferences.is_none());
    assert!(profile.privacy.show_courses);
}

#[test]
fn absent_profile_reads_as_none() {
    let repo = UserRepository::new();
    assert!(repo.get_profile("nobody").expect("read").is_none());
}

#[test]
fn add_course_duplicate_guard() {
    let mut repo = UserRepository::new();
    repo.add_course_at("alice", "cs 101", 1).expect("first add succeeds");
    let dup = repo.add_course_at("alice", " CS101 ", 2);
    assert!(matches!(dup, Err(UserError::ConditionalCheckFailed)));
    assert_eq!(repo.get_courses("alice").expect("read"), vec!["CS101".to_string()]);
}

#[test]
fn remove_course_requires_enrollment() {
    let mut repo = UserRepository::new();
    let missing = repo.remove_course("alice", "cs101");
    assert!(matches!(missing, Err(UserError::ConditionalCheckFailed)));
}

#[test]
fn add_remove_remove_fails_on_third_call() {
    let mut repo = UserRepository::new();
    repo.add_course_at("alice", "cs101", 1).expect("add succeeds");
    repo.remove_course("alice", "CS 101").expect("remove succeeds");
    let third = repo.remove_course("alice", "cs101");
    assert!(matches!(third, Err(UserError::ConditionalCheckFailed)));
    assert!(repo.get_courses("alice").expect("read").is_empty());
}

#[test]
fn partial_update_never_clobbers_unspecified_fields() {
    let mut repo = UserRepository::new();
    repo.create_default_profile_at(&event("alice", "alice@example.com"), 1)
        .expect("create succeeds");
    repo.update_profile(
        "alice",
        &UpdateProfileRequest {
            name: Some("Alice".to_string()),
            interests: None,
            study_preferences: None,
        },
    )
    .expect("name update succeeds");
    repo.update_profile(
        "alice",
        &UpdateProfileRequest {
            name: None,
            interests: Some(vec!["math".to_string()]),
            study_preferences: None,
        },
    )
    .expect("interests update succeeds");
    let profile = repo.get_profile("alice").expect("read").expect("present");
    assert_eq!(profile.name, Some("Alice".to_string()));
    assert_eq!(profile.interests, vec!["math".to_string()]);
    assert_eq!(profile.email, "alice@example.com");
    assert_eq!(profile.created_at, 1);
}

#[test]
fn interests_are_replaced_wholesale() {
    let mut repo = UserRepository::new();
    repo.create_default_profile_at(&event("alice", "alice@example.com"), 1)
        .expect("create succeeds");
    for set in [vec!["a".to_string(), "b".to_string()], vec!["c".to_string()]] {
        repo.update_profile(
            "alice",
            &UpdateProfileRequest { name: None, interests: Some(set), study_preferences: None },
        )
        .expect("update succeeds");
    }
    let profile = repo.get_profile("alice").expect("read").expect("present");
    assert_eq!(profile.interests, vec!["c".to_string()]);
}

#[test]
fn empty_update_is_a_true_no_op() {
    let mut repo = UserRepository::new();
    repo.create_default_profile_at(&event("alice", "alice@example.com"), 1)
        .expect("create succeeds");
    repo.update_profile("alice", &empty_update()).expect("no-op succeeds");
    let profile = repo.get_profile("alice").expect("read").expect("present");
    assert_eq!(profile.name, None);
    assert_eq!(profile.email, "alice@example.com");
    // An empty update succeeds even for a user with no profile: no write is
    // issued, so no existence condition can fail.
    let mut fresh = UserRepository::new();
    fresh.update_profile("ghost", &empty_update()).expect("no-op needs no profile");
    assert_eq!(fresh.store.entries.len(), 0);
}

#[test]
fn nonempty_update_requires_profile() {
    let mut repo = UserRepository::new();
    let r = repo.update_profile(
        "ghost",
        &UpdateProfileRequest {
            name: Some("G".to_string()),
            interests: None,
            study_preferences: None,
        },
    );
    assert!(matches!(r, Err(UserError::ConditionalCheckFailed)));
}

#[test]
fn study_preferences_are_replaced_as_a_whole() {
    let mut repo = UserRepository::new();
    repo.create_default_profile_at(&event("alice", "alice@example.com"), 1)
        .expect("create succeeds");
    repo.update_profile(
        "alice",
        &UpdateProfileRequest {
            name: None,
            interests: None,
            study_preferences: Some(StudyPreferences {
                preferred_time: Some("evening".to_string()),
                preferred_style: Some("visual".to_string()),
            }),
        },
    )
    .expect("first prefs update succeeds");
    repo.update_profile(
        "alice",
        &UpdateProfileRequest {
            name: None,
            interests: None,
            study_preferences: Some(StudyPreferences {
                preferred_time: Some("morning".to_string()),
                preferred_style: None,
            }),
        },
    )
    .expect("second prefs update succeeds");
    let profile = repo.get_profile("alice").expect("read").expect("present");
    let prefs = profile.study_preferences.expect("prefs present");
    assert_eq!(prefs.preferred_time, Some("morning".to_string()));
    assert_eq!(prefs.preferred_style, None);
}

#[test]
fn privacy_gating_hides_courses() {
    let profile = UserProfile {
        user_id: "alice".to_string(),
        email: "alice@example.com".to_string(),
        name: Some("Alice".to_string()),
        interests: vec![],
        study_preferences: None,
        privacy: PrivacySettings { show_courses: false },
        created_at: 1,
    };
    let public = assemble_public_profile(profile, vec!["CS101".to_string()]);
    assert!(public.courses.is_none());
    assert_eq!(public.name, Some("Alice".to_string()));
}

#[test]
fn public_profile_keeps_study_preferences() {
    for show_courses in [false, true] {
        let profile = UserProfile {
            user_id: "alice".to_string(),
            email: "alice@example.com".to_string(),
            name: None,
            interests: vec![],
            study_preferences: Some(StudyPreferences {
                preferred_time: Some("evening".to_string()),
                preferred_style: None,
            }),
            privacy: PrivacySettings { show_courses },
            created_at: 1,
        };
        let public = assemble_public_profile(profile, vec!["CS101".to_string()]);
        let prefs = public.study_preferences.expect("preferences kept");
        assert_eq!(prefs.preferred_time, Some("evening".to_string()));
        assert_eq!(prefs.preferred_style, None);
    }
}

#[test]
fn hidden_profile_is_identical_whatever_the_courses_read() {
    let profile = |created_at: i64| UserProfile {
        user_id: "alice".to_string(),
        email: "alice@example.com".to_string(),
        name: Some("Alice".to_string()),
        interests: vec!["math".to_string()],
        study_preferences: Some(StudyPreferences {
            preferred_time: None,
            preferred_style: Some("visual".to_string()),
        }),
        privacy: PrivacySettings { show_courses: false },
        created_at,
    };
    let with_none = assemble_public_profile(profile(1), vec![]);
    let with_many = assemble_public_profile(
        profile(1),
        vec!["CS101".to_string(), "MATH2".to_string()],
    );
    assert_eq!(with_none.user_id, with_many.user_id);
    assert_eq!(with_none.name, with_many.name);
    assert_eq!(with_none.interests, with_many.interests);
    assert_eq!(
        with_none.study_preferences.as_ref().map(|p| p.preferred_style.clone()),
        with_many.study_preferences.as_ref().map(|p| p.preferred_style.clone())
    );
    assert!(with_none.courses.is_none());
    assert!(with_many.courses.is_none());
}

#[test]
fn privacy_gating_shows_exactly_the_added_courses() {
    let mut repo = UserRepository::new();
    repo.create_default_profile_at(&event("alice", "alice@example.com"), 1)
        .expect("create succeeds");
    repo.add_course_at("alice", "cs 101", 2).expect("add succeeds");
    repo.add_course_at("alice", "math2", 3).expect("add succeeds");
    let profile = repo.get_profile("alice").expect("read").expect("present");
    let courses = repo.get_courses("alice").expect("read");
    let public = assemble_public_profile(profile, courses);
    assert_eq!(public.courses, Some(vec!["CS101".to_string(), "MATH2".to_string()]));
}

#[test]
fn creation_outcome_classification() {
    assert_eq!(creation_outcome(Ok(())), Ok(MessageOutcome::Applied));
    assert_eq!(
        creation_outcome(Err(UserError::ConditionalCheckFailed)),
        Ok(MessageOutcome::SkippedDuplicate)
    );
    let hard = creation_outcome(Err(UserError::Backend("throttled".to_string())));
    assert!(matches!(hard, Err(UserError::Backend(_))));
}

#[test]
fn handle_message_skips_malformed() {
    let mut repo = UserRepository::new();
    let r = handle_registration_message(&mut repo, &None).expect("skip succeeds");
    assert_eq!(r, MessageOutcome::SkippedMalformed);
    assert_eq!(repo.store.entries.len(), 0);
}

#[test]
fn malformed_and_duplicate_tolerance() {
    let mut repo = UserRepository::new();
    repo.create_default_profile_at(&event("bob", "bob@example.com"), 1)
        .expect("existing profile");
    let msgs = vec![
        Some(event("alice", "alice@example.com")),
        None,
        Some(event("bob", "bob-again@example.com")),
    ];
    let outcomes = process_registration_batch(&mut repo, &msgs).expect("batch never aborts");
    assert_eq!(
        outcomes,
        vec![
            MessageOutcome::Applied,
            MessageOutcome::SkippedMalformed,
            MessageOutcome::SkippedDuplicate,
        ]
    );
    // Exactly one new profile: alice's. Bob's profile is untouched.
    assert_eq!(repo.store.entries.len(), 2);
    let alice = repo.get_profile("alice").expect("read").expect("present");
    assert_eq!(alice.email, "alice@example.com");
    let bob = repo.get_profile("bob").expect("read").expect("present");
    assert_eq!(bob.email, "bob@example.com");
}

#[test]
fn error_classification_helper() {
    assert!(UserError::ConditionalCheckFailed.is_conditional_check());
    assert!(!UserError::Backend("x".to_string()).is_conditional_check());
    assert!(!UserError::Serialization("f".to_string()).is_conditional_check());
    assert!(!UserError::ProfileNotFound("u".to_string()).is_conditional_check());
}

#[test]
fn empty_batch_is_fine() {
    let mut repo = UserRepository::new();
    let outcomes = process_registration_batch(&mut repo, &vec![]).expect("empty batch succeeds");
    assert!(outcomes.is_empty());
    assert_eq!(repo.store.entries.len(), 0);
}

#[test]
fn update_all_fields_at_once() {
    let mut repo = UserRepository::new();
    repo.create_default_profile_at(&event("alice", "alice@example.com"), 1)
        .expect("create succeeds");
    repo.update_profile(
        "alice",
        &UpdateProfileRequest {
            name: Some("Alice".to_string()),
            interests: Some(vec!["math".to_string()]),
            study_preferences: Some(StudyPreferences {
                preferred_time: None,
                preferred_style: Some("visual".to_string()),
            }),
        },
    )
    .expect("update succeeds");
    let profile = repo.get_profile("alice").expect("read").expect("present");
    assert_eq!(profile.name, Some("Alice".to_string()));
    assert_eq!(profile.interests, vec!["math".to_string()]);
    let prefs = profile.study_preferences.expect("prefs present");
    assert_eq!(prefs.preferred_time, None);
    assert_eq!(prefs.preferred_style, Some("visual".to_string()));
    assert_eq!(profile.created_at, 1);
}

#[test]
fn courses_are_scoped_to_their_user() {
    let mut repo = UserRepository::new();
    repo.add_course_at("alice", "cs101", 1).expect("add succeeds");
    repo.add_course_at("bob", "math2", 2).expect("add succeeds");
    assert_eq!(repo.get_courses("alice").expect("read"), vec!["CS101".to_string()]);
    assert_eq!(repo.get_courses("bob").expect("read"), vec!["MATH2".to_string()]);
    assert!(repo.get_courses("carol").expect("read").is_empty());
}

#[test]
fn wall_clock_creation_succeeds() {
    let mut repo = UserRepository::new();
    repo.create_default_profile(&event("alice", "alice@example.com"))
        .expect("create succeeds");
    let dup = repo.create_default_profile(&event("alice", "alice@example.com"));
    assert!(matches!(dup, Err(UserError::ConditionalCheckFailed)));
    assert_eq!(repo.store.entries.len(), 1);
}

#[test]
fn wall_clock_add_course_succeeds() {
    let mut repo = UserRepository::new();
    repo.add_course("alice", " cs 101 ").expect("add succeeds");
    assert_eq!(repo.get_courses("alice").expect("read"), vec!["CS101".to_string()]);
}
