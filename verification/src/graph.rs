//! The graph identity and conflict model, and the lock snapshot: nodes of
//! a resolved dependency forest carry a process-local integer id and their
//! parent's id (never live child pointers, so diamond dependencies need no
//! cyclic ownership), and a completed resolution flattens into serializable
//! lock records.

use crate::req::Req;
use crate::version::Version;
use std::collections::HashMap;
use vstd::prelude::*;

verus! {

/// A requirement as it entered resolution: which package asked for it
/// (`parent`), and what it resolved to.
#[derive(Clone, Debug)]
pub struct Dependency {
    pub id: u32,
    pub name: String,
    pub version: Version,
    pub reqs: Vec<Req>,
    pub parent: u32,
}

/// Whether a node installs under its bare name, or under an alias because
/// its resolved version collides by name with another resolution in the
/// same tree. The alias names the parent and the node itself so repeated
/// resolutions of the same inputs produce the same alias.
#[derive(Clone, Debug)]
pub enum Rename {
    No,
    Yes(u32, u32, String),
}

/// A resolved package node: its own dependencies are recorded as
/// `(id, name, version)` triples, reachable only by id lookup.
#[derive(Clone, Debug)]
pub struct Package {
    pub id: u32,
    pub parent: u32,
    pub name: String,
    pub version: Version,
    pub deps: Vec<(u32, String, Version)>,
    pub rename: Rename,
}

/// One package of a lock snapshot, flattened to plain text fields so the
/// record serializes directly.
#[derive(Clone, Debug)]
pub struct LockPackage {
    pub id: u32,
    pub name: String,
    pub version: String,
    pub source: Option<String>,
    pub dependencies: Option<Vec<String>>,
    pub rename: Option<String>,
}

/// The persisted result of a resolution: the flat package list, plus a
/// lock-wide text mapping (eg checksums keyed by identifier). Built once
/// per successful resolution and replaced atomically, never edited.
#[derive(Clone, Debug, Default)]
pub struct Lock {
    pub package: Option<Vec<LockPackage>>,
    pub metadata: HashMap<String, String>,
}

} // verus!
