//! A chosen architecture and profile.
use vstd::prelude::*;

use crate::text::{concat2, concat3};

verus! {

/// A selected architecture and profile combination.
#[derive(Debug)]
pub struct SelectedProfile {
    pub architecture: String,
    pub profile: String,
}

impl SelectedProfile {
    /// A selection of `architecture` with `profile`.
    pub fn new(architecture: String, profile: String) -> (r: Self)
        ensures
            r.architecture == architecture,
            r.profile == profile,
    {
        SelectedProfile { architecture, profile }
    }

    /// The architecture name.
    pub fn arch(&self) -> (r: &str)
        ensures
            r@ == self.architecture@,
    {
        self.architecture.as_str()
    }

    /// The profile name.
    pub fn profile(&self) -> (r: &str)
        ensures
            r@ == self.profile@,
    {
        self.profile.as_str()
    }

    /// The stage3 file-name pattern, `stage3-<arch>-<profile>`.
    pub fn get_stage3_pattern(&self) -> (r: String)
        ensures
            r@ == "stage3-"@ + self.architecture@ + "-"@ + self.profile@,
    {
        let head = concat2("stage3-", self.architecture.as_str());
        concat3(head.as_str(), "-", self.profile.as_str())
    }

    /// The display form, `<arch>-<profile>`.
    pub fn to_display(&self) -> (r: String)
        ensures
            r@ == self.architecture@ + "-"@ + self.profile@,
    {
        concat3(self.architecture.as_str(), "-", self.profile.as_str())
    }

    /// An equal copy.
    pub fn copied(&self) -> (r: Self)
        ensures
            r.architecture == self.architecture,
            r.profile == self.profile,
    {
        SelectedProfile { architecture: self.architecture.clone(), profile: self.profile.clone() }
    }
}

impl Default for SelectedProfile {
    fn default() -> (r: Self)
        ensures
            r.architecture@ == "amd64"@,
            r.profile@ == "openrc"@,
    {
        SelectedProfile { architecture: String::from_str("amd64"), profile: String::from_str("openrc") }
    }
}

} // verus!
