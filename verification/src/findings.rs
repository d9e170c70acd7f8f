//! What a run has learnt from the renderer and from the filesystem.
//!
//! Conditions never render a template and never touch the filesystem. They
//! read what is known, and where something is not known yet they say which
//! query would settle it. The driver answers the query and records the answer
//! here.

use crate::errors::Failure;
use crate::table::Table;
use vstd::prelude::*;

verus! {

/// What stands at a path.
#[derive(Clone, Copy, Debug, PartialEq, Eq)]
pub enum PathState {
    /// Nothing.
    Missing,
    /// A regular file.
    File,
    /// A directory.
    Directory,
    /// Something that is neither a regular file nor a directory.
    Other,
}

impl PathState {
    /// Something stands at the path.
    pub open spec fn is_present(self) -> bool {
        !(self is Missing)
    }
}

/// Something that only the driver can find out.
#[derive(Clone, Debug, PartialEq, Eq)]
pub enum Query {
    /// The rendering of a template against the variables of the run.
    Render(String),
    /// What stands at `path`, taken relative to `destination`.
    Probe { destination: String, path: String },
}

/// The answers known so far, as maps.
pub struct Known {
    /// The root below which paths are probed.
    pub destination: String,
    /// From a template to its rendering, or to the failure to render it.
    pub renders: Map<Seq<char>, Result<String, Failure>>,
    /// From a path, relative to the destination, to what stands there, or to
    /// the failure to find that out.
    pub probes: Map<Seq<char>, Result<PathState, Failure>>,
}

/// The answers known so far, for one destination and one state of the
/// variables.
pub struct Findings {
    destination: String,
    renders: Table<Result<String, Failure>>,
    probes: Table<Result<PathState, Failure>>,
}

impl Findings {
    /// The findings as maps.
    pub closed spec fn view(&self) -> Known {
        Known { destination: self.destination, renders: self.renders@, probes: self.probes@ }
    }

    /// Nothing is known yet below `destination`.
    pub fn new(destination: String) -> (findings: Self)
        ensures
            findings@.destination == destination,
            findings@.renders == Map::<Seq<char>, Result<String, Failure>>::empty(),
            findings@.probes == Map::<Seq<char>, Result<PathState, Failure>>::empty(),
    {
        Findings { destination, renders: Table::new(), probes: Table::new() }
    }

    /// The root below which paths are probed.
    pub fn destination(&self) -> (root: &String)
        ensures
            *root == self@.destination,
    {
        &self.destination
    }

    /// Records how `template` rendered.
    pub fn record_render(&mut self, template: String, outcome: Result<String, Failure>)
        ensures
            final(self)@.destination == old(self)@.destination,
            final(self)@.renders == old(self)@.renders.insert(template@, outcome),
            final(self)@.probes == old(self)@.probes,
    {
        self.renders.insert(template, outcome);
    }

    /// Records what stands at `path`.
    pub fn record_probe(&mut self, path: String, outcome: Result<PathState, Failure>)
        ensures
            final(self)@.destination == old(self)@.destination,
            final(self)@.renders == old(self)@.renders,
            final(self)@.probes == old(self)@.probes.insert(path@, outcome),
    {
        self.probes.insert(path, outcome);
    }

    /// How `template` rendered, if that is known.
    pub fn rendering(&self, template: &str) -> (found: Option<&Result<String, Failure>>)
        ensures
            match found {
                Some(outcome) => self@.renders.contains_key(template@) && *outcome
                    == self@.renders[template@],
                None => !self@.renders.contains_key(template@),
            },
    {
        self.renders.get(template)
    }

    /// What stands at `path`, if that is known.
    pub fn probe(&self, path: &str) -> (found: Option<&Result<PathState, Failure>>)
        ensures
            match found {
                Some(outcome) => self@.probes.contains_key(path@) && *outcome
                    == self@.probes[path@],
                None => !self@.probes.contains_key(path@),
            },
    {
        self.probes.get(path)
    }

    /// Forgets every answer. The destination stays.
    pub fn clear(&mut self)
        ensures
            final(self)@.destination == old(self)@.destination,
            final(self)@.renders == Map::<Seq<char>, Result<String, Failure>>::empty(),
            final(self)@.probes == Map::<Seq<char>, Result<PathState, Failure>>::empty(),
    {
        self.renders.clear();
        self.probes.clear();
    }
}

} // verus!
