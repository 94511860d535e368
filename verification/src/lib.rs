//! A verified core for a user-profile and course-enrollment service backed by
//! a single-table, composite-key conditional store.
//!
//! The library models the store as an explicit key-value state and proves the
//! conditional-write policies (idempotent creation, duplicate-enrollment
//! guards, clobber-free partial updates) against that model. The surrounding
//! process (HTTP routing, queue transport, the real backend client) stays
//! outside and hands the core parsed requests and events.

pub mod attr;
pub mod codec;
pub mod consumer;
pub mod error;
pub mod models;
pub mod normalize;
pub mod repository;
pub mod store;
pub mod text;
pub mod update;

pub use error::UserError;
pub use repository::UserRepository;
pub use models::AddCourseRequest;
pub use models::CourseAddedEvent;
pub use models::CourseItem;
pub use models::PrivacySettings;
pub use models::PublicProfile;
pub use models::StudyPreferences;
pub use models::UpdateProfileRequest;
pub use models::UserProfile;
pub use models::UserRegisteredEvent;
pub use normalize::normalize_course_id;
