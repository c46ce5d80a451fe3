//! Open named groups ("parcels") of launchable targets: applications, file
//! paths, URLs, or shell commands. The crate holds the verified core: entry
//! classification, the parcel store, the interactive-chooser state machine,
//! and launch planning. Process spawning and terminal I/O live outside it.

pub mod chooser;
pub mod entry;
pub mod launch;
pub mod store;
pub mod text;
