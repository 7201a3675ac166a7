//! The configuration document as a whole: how the tool is to run, and the
//! packages that it is to look after.

use vstd::prelude::*;
use vstd::string::*;

use crate::error::{Error, ErrorView};
use crate::package_types::binary::text_view;
use crate::package_types::{packages_of, PackagesConfig, PackagesView};
use crate::text::same_text;
use crate::yamlrepr;
use crate::yamlrepr::{lemma_node_view, lookup, only_value, single, value_of, Node, NodeView};

verus! {

/// How a provider is brought to what configuration asks for.
#[derive(Clone, Copy, Debug, PartialEq, Eq, Structural)]
pub enum RunMode {
    /// Compare with what is installed; install what is missing and remove what is
    /// not asked for, each after confirmation.
    Idempotent,
    /// Install everything that is asked for, whatever is installed.
    Imperative,
}

/// The mode that `text` names, if it names one.
pub open spec fn mode_of(text: Seq<char>) -> Option<RunMode> {
    if text == "idempotent"@ {
        Some(RunMode::Idempotent)
    } else if text == "imperative"@ {
        Some(RunMode::Imperative)
    } else {
        None
    }
}

/// A configuration, as a value of specifications.
pub struct ConfigView {
    pub mode: RunMode,
    pub packages: Option<PackagesView>,
}

/// The configuration that a document stands for: a mapping with one `mode`, a
/// scalar that names a mode, and, as it likes, a `packages` section. A `packages`
/// section without content counts as none.
pub open spec fn config_of(document: NodeView, home: Option<Seq<char>>) -> Result<
    ConfigView,
    ErrorView,
> {
    match document {
        NodeView::Mapping(fields) => match only_value(fields, "mode"@) {
            Err(e) => Err(ErrorView::Yaml(e)),
            Ok(NodeView::Scalar(text)) => match mode_of(text) {
                None => Err(ErrorView::Yaml(yamlrepr::ErrorView::UnknownValue(text))),
                Some(mode) => match value_of(fields, "packages"@) {
                    None => Ok(ConfigView { mode, packages: None }),
                    Some(NodeView::Null) => Ok(ConfigView { mode, packages: None }),
                    Some(section) => match packages_of(section, home) {
                        Err(e) => Err(e),
                        Ok(packages) => Ok(ConfigView { mode, packages: Some(packages) }),
                    },
                },
            },
            Ok(_) => Err(ErrorView::Yaml(yamlrepr::ErrorView::WrongType)),
        },
        _ => Err(ErrorView::Yaml(yamlrepr::ErrorView::WrongType)),
    }
}

impl RunMode {
    /// The mode that `text` names: `idempotent` or `imperative`.
    pub fn parse(text: &str) -> (mode: Option<RunMode>)
        ensures
            mode == mode_of(text@),
    {
        if same_text(text, "idempotent") {
            Some(RunMode::Idempotent)
        } else if same_text(text, "imperative") {
            Some(RunMode::Imperative)
        } else {
            None
        }
    }
}

/// A configuration: how the tool is to run and what it is to look after.
#[derive(Debug)]
pub struct Config {
    pub mode: RunMode,
    pub packages: Option<PackagesConfig>,
}

impl View for Config {
    type V = ConfigView;

    open spec fn view(&self) -> ConfigView {
        ConfigView {
            mode: self.mode,
            packages: match self.packages {
                Some(packages) => Some(packages@),
                None => None,
            },
        }
    }
}

impl Config {
    /// Reads a configuration document. `home` is the home directory, where it
    /// could be resolved.
    pub fn deserialize(document: &Node, home: Option<&str>) -> (parsed: Result<Config, Error>)
        ensures
            match parsed {
                Ok(config) => config_of(document@, text_view(home)) == Ok::<ConfigView, ErrorView>(
                    config@,
                ),
                Err(e) => config_of(document@, text_view(home)) == Err::<ConfigView, ErrorView>(e@),
            },
    {
        proof {
            lemma_node_view(document);
        }
        let fields = match document {
            Node::Mapping(fields) => fields,
            _ => {
                return Err(Error::Yaml(yamlrepr::Error::WrongType));
            },
        };
        let mode = single(fields, "mode");
        proof {
            if mode is Ok {
                lemma_node_view(mode.unwrap());
            }
        }
        let mode = match mode {
            Err(e) => {
                return Err(Error::Yaml(e));
            },
            Ok(Node::Scalar(text)) => match RunMode::parse(text.as_str()) {
                Some(mode) => mode,
                None => {
                    return Err(Error::Yaml(yamlrepr::Error::UnknownValue(text.clone())));
                },
            },
            Ok(_) => {
                return Err(Error::Yaml(yamlrepr::Error::WrongType));
            },
        };
        let section = lookup(fields, "packages");
        proof {
            if section is Some {
                lemma_node_view(section.unwrap());
            }
        }
        match section {
            None => Ok(Config { mode, packages: None }),
            Some(Node::Null) => Ok(Config { mode, packages: None }),
            Some(section) => match PackagesConfig::deserialize(section, home) {
                Ok(packages) => Ok(Config { mode, packages: Some(packages) }),
                Err(e) => Err(e),
            },
        }
    }
}

} // verus!
