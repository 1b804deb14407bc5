//! The metadata document: what an operating system says about itself.
//!
//! Every labelled collection is a [`LabelMap`], so scans over it visit labels
//! in ascending order and any "first match" is the match with the smallest
//! label.
use vstd::prelude::*;

use crate::label_map::LabelMap;

verus! {

/// A point in time, in UTC, as seconds and nanoseconds since the Unix epoch.
///
/// Nothing in the library computes with it; documents carry it through.
#[derive(Clone, Copy, Debug, PartialEq, Eq, Structural)]
pub struct Timestamp {
    /// Whole seconds since 1970-01-01T00:00:00Z (negative before it)
    pub seconds: i64,
    /// Nanoseconds past `seconds` (above 999,999,999 only within a leap second)
    pub nanoseconds: u32,
}

/// Top-level structure containing all OS information
#[derive(Debug)]
pub struct OSInfo {
    /// Version of the OS info schema
    pub version: String,
    /// Date the OS project was started
    pub start_date: Timestamp,
    /// Metadata about the OS
    pub metadata: Metadata,
    /// System configuration and details
    pub system: System,
    /// Links to project resources
    pub resources: Resources,
    /// Security contact information
    pub security_contact: Option<SecurityContact>,
}

/// Metadata about the OS including identity, maintainers and version information
#[derive(Debug)]
pub struct Metadata {
    /// Core identity information
    pub identity: Identity,
    /// Maintainer groups, each a list of maintainers
    pub maintainers: LabelMap<Vec<Maintainer>>,
    /// Version information
    pub version: VersionInfo,
}

/// Identity information for the OS
#[derive(Debug, Default)]
pub struct Identity {
    /// Unique identifier for the OS
    pub id: String,
    /// Parent OS this is based on/similar to
    pub id_like: Option<String>,
    /// Full name of the OS
    pub name: String,
    /// Display name/branding
    pub display: String,
    /// ANSI terminal color code for branding
    pub ansi_color: Option<String>,
    /// Previous identities/names
    pub former_identities: Vec<FormerIdentity>,
}

/// Historical identity information
#[derive(Debug)]
pub struct FormerIdentity {
    /// Previous OS identifier
    pub id: String,
    /// Previous OS name
    pub name: String,
    /// When this identity started
    pub start_date: Timestamp,
    /// When this identity ended
    pub end_date: Timestamp,
    /// Version when identity was changed
    pub end_version: Option<String>,
    /// Link to announcement of change
    pub announcement: Option<String>,
}

/// Information about a project maintainer
#[derive(Debug)]
pub struct Maintainer {
    /// Full name of maintainer
    pub name: String,
    /// Role/position in project
    pub role: MaintainerRole,
    /// Contact email
    pub email: String,
    /// When the maintainer joined the project
    pub start_date: Option<Timestamp>,
    /// When the maintainer left the project (if applicable)
    pub end_date: Option<Timestamp>,
}

/// Role types for maintainers
#[derive(Clone, Copy, Debug, PartialEq, Eq, Structural)]
pub enum MaintainerRole {
    /// Project founder
    Founder,
    /// Core maintainer
    Maintainer,
    /// Regular contributor
    Contributor,
}

/// Detailed version information
#[derive(Debug)]
pub struct VersionInfo {
    /// Complete version string
    pub full: String,
    /// Short version number
    pub short: String,
    /// Unique build identifier
    pub build_id: String,
    /// Release date
    pub released: Timestamp,
    /// Link to release announcement
    pub announcement: Option<String>,
    /// Version codename
    pub codename: Option<String>,
}

/// Core system information and configuration
#[derive(Debug)]
pub struct System {
    /// System composition details
    pub composition: Composition,
    /// Enabled features
    pub features: Features,
    /// Kernel information
    pub kernel: Kernel,
    /// Platform details
    pub platform: Platform,
    /// Update configuration
    pub update: Update,
}

/// System composition including base systems and technologies
#[derive(Debug, Default)]
pub struct Composition {
    /// Base systems used
    pub bases: Vec<String>,
    /// Technology components
    pub technology: Technology,
}

/// Core and optional technology components
#[derive(Debug, Default)]
pub struct Technology {
    /// Required core technologies
    pub core: Vec<String>,
    /// Optional add-on technologies
    pub optional: Vec<String>,
}

/// System feature configuration
#[derive(Debug)]
pub struct Features {
    /// Atomic update settings
    pub atomic_updates: AtomicUpdates,
    /// Boot configuration
    pub boot: Boot,
    /// Filesystem settings
    pub filesystem: Filesystem,
}

/// Atomic update system configuration
#[derive(Debug)]
pub struct AtomicUpdates {
    /// Update strategy used
    pub strategy: String,
    /// Whether rollbacks are supported
    pub rollback_support: bool,
}

/// Boot configuration
#[derive(Debug)]
pub struct Boot {
    /// Bootloader used
    pub bootloader: String,
    /// Firmware support details
    pub firmware: Firmware,
}

/// Firmware support configuration
#[derive(Clone, Copy, Debug, PartialEq, Eq, Structural)]
pub struct Firmware {
    /// UEFI support
    pub uefi: bool,
    /// Secure Boot support
    pub secure_boot: bool,
    /// Legacy BIOS support
    pub bios: bool,
}

/// Filesystem configuration
#[derive(Debug)]
pub struct Filesystem {
    /// Default filesystem
    pub default: String,
    /// Supported filesystems
    pub supported: Vec<String>,
}

/// Kernel information
#[derive(Debug)]
pub struct Kernel {
    /// Type of kernel
    pub kernel_type: String,
    /// Kernel name
    pub name: String,
}

/// Platform architecture information
#[derive(Debug)]
pub struct Platform {
    /// CPU architecture
    pub architecture: String,
    /// Architecture variant
    pub variant: String,
}

/// Update strategy configuration
#[derive(Debug)]
pub struct Update {
    /// Update strategy used
    pub strategy: String,
    /// Update cadence settings
    pub cadence: Cadence,
    /// Update approach used
    pub approach: String,
}

/// Update cadence configuration
#[derive(Debug)]
pub struct Cadence {
    /// Type of update cadence
    pub cadence_type: CadenceType,
    /// Update sync interval
    pub sync_interval: Option<String>,
    /// Day updates sync
    pub sync_day: Option<String>,
    /// Release schedule
    pub release_schedule: Option<String>,
    /// Support timeline
    pub support_timeline: Option<String>,
}

/// Types of update cadence
#[derive(Clone, Copy, Debug, PartialEq, Eq, Structural)]
pub enum CadenceType {
    /// Rolling release
    Rolling,
    /// Fixed point release
    Fixed,
    /// Long-term support release
    Lts,
    /// Point release
    Point,
}

/// Project resources like websites and social media
#[derive(Debug)]
pub struct Resources {
    /// Project websites
    pub websites: LabelMap<Website>,
    /// Social media links
    pub social: LabelMap<SocialLink>,
    /// Funding platform links
    pub funding: LabelMap<FundingLink>,
}

/// Website information
#[derive(Debug)]
pub struct Website {
    /// Website URL
    pub url: String,
    /// Display name
    pub display_name: String,
    /// Website scope/purpose
    pub scope: WebsiteScope,
}

/// Website scope/purpose
#[derive(Clone, Copy, Debug, PartialEq, Eq, Structural)]
pub enum WebsiteScope {
    /// Main project homepage
    Home,
    /// General documentation
    Documentation,
    /// User support resources
    Support,
    /// Bug reporting/issue tracking
    BugTracker,
    /// Developer portal
    Developer,
    /// Public-facing website
    Public,
    /// End user documentation
    EndUserDocs,
    /// Developer documentation
    DeveloperDocs,
    /// Privacy policy document
    PrivacyPolicy,
    /// Terms of service/use document
    TermsOfService,
    /// Legal information
    Legal,
    /// Security policy and vulnerability reporting
    SecurityPolicy,
}

/// Social media link
#[derive(Debug)]
pub struct SocialLink {
    /// Social media URL
    pub url: String,
    /// Display name
    pub display_name: String,
    /// Platform name
    pub platform: String,
}

/// Funding platform link
#[derive(Debug)]
pub struct FundingLink {
    /// Funding page URL
    pub url: String,
    /// Display name
    pub display_name: String,
    /// Platform name
    pub platform: String,
}

/// Security contact information for vulnerability reporting
#[derive(Debug, Default)]
pub struct SecurityContact {
    /// Email address for security-related communications
    pub email: Option<String>,
    /// PGP key for encrypted vulnerability reports
    pub pgp_key: Option<String>,
    /// Vulnerability disclosure policy
    pub disclosure_policy: Option<String>,
}

} // verus!
