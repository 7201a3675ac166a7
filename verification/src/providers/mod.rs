//! Providers as the long form of a configuration section describes them.

use vstd::prelude::*;

use crate::error::Error;
use crate::yamlrepr::{Node, NodeView};

pub mod flatpak;

verus! {

/// A provider that fills itself from its section of a configuration document.
pub trait Provider {
    /// One item of this provider.
    type Item;

    /// Whether `y` is a section of this provider.
    spec fn accepts(y: NodeView) -> bool;

    /// Reads the section `y` into this provider. It succeeds exactly where `y` is
    /// a section of this provider.
    fn parse_yaml(&mut self, y: &Node) -> (parsed: Result<(), Error>)
        ensures
            parsed is Ok <==> Self::accepts(y@),
    ;
}

} // verus!
