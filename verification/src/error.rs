//! The faults of configuration loading, whatever layer found them.

use vstd::prelude::*;

use crate::providers::flatpak;
use crate::yamlrepr;

verus! {

/// Why a configuration was refused.
#[derive(Debug, PartialEq, Eq)]
pub enum Error {
    /// The document does not have the shape that the schema asks for.
    Yaml(yamlrepr::Error),
    /// A value of the app-store section is not one that the app store knows.
    Flatpak(flatpak::Error),
}

/// An [`Error`] as a value of specifications.
pub enum ErrorView {
    Yaml(yamlrepr::ErrorView),
    Flatpak(flatpak::ErrorView),
}

impl View for Error {
    type V = ErrorView;

    open spec fn view(&self) -> ErrorView {
        match self {
            Error::Yaml(e) => ErrorView::Yaml(e@),
            Error::Flatpak(e) => ErrorView::Flatpak(e@),
        }
    }
}

} // verus!
