//! The persisted state: the document that lists the active mounts, and how a
//! registry is rebuilt from it.

use vstd::prelude::*;
use super::record::AntaresConfig;
use super::record::AntaresConfigView;
use super::registry::loaded_map;
use super::registry::views_of;

verus! {

/// The state document: one list of mount records.
#[derive(Debug)]
pub struct AntaresState {
    pub mounts: Vec<AntaresConfig>,
}

/// What was found at the location of the state document.
#[derive(Debug)]
pub enum StateSource {
    /// There is no document there.
    Missing,
    /// The document could not be read; the text says why.
    Unreadable(String),
    /// The document was read and is not a list of mount records; the text
    /// says what is wrong with it.
    Malformed(String),
    /// The document, as it was read.
    Document(AntaresState),
}

/// Why an operation of the manager failed.
#[derive(Debug)]
pub enum AntaresError {
    /// The storage refused an operation.
    Io(String),
    /// The state document is there and cannot be understood.
    InvalidData(String),
    /// The unmount tool could not be launched.
    Spawn(String),
}

/// An error with its text as characters.
pub enum AntaresErrorView {
    Io(Seq<char>),
    InvalidData(Seq<char>),
    Spawn(Seq<char>),
}

impl View for AntaresError {
    type V = AntaresErrorView;

    open spec fn view(&self) -> AntaresErrorView {
        match self {
            AntaresError::Io(text) => AntaresErrorView::Io(text@),
            AntaresError::InvalidData(text) => AntaresErrorView::InvalidData(text@),
            AntaresError::Spawn(text) => AntaresErrorView::Spawn(text@),
        }
    }
}

impl AntaresError {
    /// The text of the error.
    pub fn message(&self) -> (text: String)
        ensures
            text@ == match self@ {
                AntaresErrorView::Io(t) => t,
                AntaresErrorView::InvalidData(t) => t,
                AntaresErrorView::Spawn(t) => t,
            },
    {
        match self {
            AntaresError::Io(text) => text.clone(),
            AntaresError::InvalidData(text) => text.clone(),
            AntaresError::Spawn(text) => text.clone(),
        }
    }
}

/// What loading from `source` gives: no document is an empty registry, a
/// document gives its records (the later of two records of one job), and a
/// document that cannot be read or understood is an error.
pub open spec fn load_spec(source: StateSource) -> Result<Map<Seq<char>, AntaresConfigView>, AntaresErrorView> {
    match source {
        StateSource::Missing => Ok(Map::empty()),
        StateSource::Unreadable(why) => Err(AntaresErrorView::Io(why@)),
        StateSource::Malformed(why) => Err(AntaresErrorView::InvalidData("parse state: "@ + why@)),
        StateSource::Document(state) => Ok(loaded_map(views_of(state.mounts@))),
    }
}

} // verus!
