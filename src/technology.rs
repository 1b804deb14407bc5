//! Descriptions of the technologies an operating system is built from.
use vstd::prelude::*;

use crate::label_map::LabelMap;

verus! {

/// Represents the capabilities of a technology, including version info and related links
#[derive(Debug)]
pub struct TechnologyCapabilities {
    /// Version string for the technology capabilities specification
    pub version: String,
    /// Name of the technology
    pub name: String,
    /// Description of the technology's capabilities
    pub description: String,
    /// Related links, by link ID
    pub links: LabelMap<TechnologyLink>,
}

/// Represents a link related to a technology capability
#[derive(Debug)]
pub struct TechnologyLink {
    /// The type of link (e.g. "documentation", "source", etc)
    pub link_type: String,
    /// Category the link belongs to
    pub category: String,
    /// URL of the link
    pub url: String,
}

} // verus!
