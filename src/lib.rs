//! Operating system metadata documents and their projection onto the flat
//! os-release format.
pub mod document;
pub mod label_map;
pub mod os_release;
pub mod technology;

pub use document::{
    AtomicUpdates, Boot, Cadence, CadenceType, Composition, Features, Filesystem, Firmware,
    FormerIdentity, FundingLink, Identity, Kernel, Maintainer, MaintainerRole, Metadata, OSInfo,
    Platform, Resources, SecurityContact, SocialLink, System, Technology, Timestamp, Update,
    VersionInfo, Website, WebsiteScope,
};
pub use label_map::LabelMap;
pub use technology::{TechnologyCapabilities, TechnologyLink};
pub use os_release::{shell_escape, OsRelease, OsReleaseView};
