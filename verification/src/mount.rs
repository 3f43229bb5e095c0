//! Lens mount.

use std::collections::BTreeMap;
use vstd::prelude::*;
use vstd::std_specs::convert::IntoSpec;

verus! {

/// A lens mount: the physical interface between a lens and a camera body.
///
/// Mounts can be compatible with one another (for example, Canon EF lenses
/// mount on Canon EF-S bodies via no adapter, and on Canon RF bodies via an
/// adapter). The compatibility list captures these relationships.
#[derive(Debug, Clone, Default, PartialEq, Eq)]
pub struct Mount {
    /// Mount name (e.g. `"Canon EF"`).
    pub name: String,
    /// Localized mount names keyed by `lang` attribute (e.g. `"en"`, `"de"`).
    pub names_localized: BTreeMap<String, String>,
    /// Names of compatible mounts.
    pub compat: Vec<String>,
}

impl Mount {
    /// Build a mount with just a name: no localized names, no compatible
    /// mounts.
    pub fn new<S: Into<String>>(name: S) -> (m: Mount)
        ensures
            S::obeys_into_spec() ==> m.name == name.into_spec(),
            m.names_localized@ == Map::<String, String>::empty(),
            m.compat@ == Seq::<String>::empty(),
    {
        Mount { name: name.into(), names_localized: BTreeMap::new(), compat: Vec::new() }
    }
}

} // verus!
