//! Directory image index and watch: enumerates image files under a root
//! directory, models the single-slot filesystem-watch subscription, and
//! resolves an application-private image storage directory.

pub mod ext;
pub mod index;
pub mod paths;
pub mod storage;
pub mod watch;
