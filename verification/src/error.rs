//! Errors of the collectors' parsers.
use vstd::prelude::*;

verus! {

/// Why a collector could not produce a snapshot.
#[derive(Debug, Clone, PartialEq, Eq)]
pub enum CollectError {
    /// The requested network interface has no usable line in /proc/net/dev.
    InterfaceNotFound(String),
    /// `dmidecode` listed no memory modules; it needs root rights to.
    NoDimmData,
}

} // verus!
