//! What can be wrong with a report of the host.

use crate::text::{join2, join3};
use vstd::prelude::*;

verus! {

/// A section of the report that holds JSON.
#[derive(Clone, Copy, Debug, PartialEq, Eq, Structural)]
pub enum Section {
    Status,
    Guests,
    Storage,
    Network,
}

/// Why a report gives no sensor values.
#[derive(Debug, PartialEq, Eq)]
pub enum SnapshotError {
    /// No line of the report starts with this marker.
    MissingMarker(String),
    /// A section holds no JSON, with what is wrong with it.
    InvalidJson { section: Section, cause: String },
    /// The field with this name is no number.
    NotANumber(String),
    /// The field with this name is no unsigned integer.
    NotUnsigned(String),
    /// A section that has to be a list is none.
    NotAList(Section),
    /// The storage to be shown is not among the active ones.
    InactiveStorage(String),
    NoActiveStorage,
    NoPrimaryInterface,
}

/// A [`SnapshotError`] by the characters of its texts.
pub enum SnapshotFault {
    MissingMarker(Seq<char>),
    InvalidJson { section: Section, cause: Seq<char> },
    NotANumber(Seq<char>),
    NotUnsigned(Seq<char>),
    NotAList(Section),
    InactiveStorage(Seq<char>),
    NoActiveStorage,
    NoPrimaryInterface,
}

impl View for SnapshotError {
    type V = SnapshotFault;

    open spec fn view(&self) -> SnapshotFault {
        match *self {
            SnapshotError::MissingMarker(marker) => SnapshotFault::MissingMarker(marker@),
            SnapshotError::InvalidJson { section, cause } => SnapshotFault::InvalidJson {
                section,
                cause: cause@,
            },
            SnapshotError::NotANumber(name) => SnapshotFault::NotANumber(name@),
            SnapshotError::NotUnsigned(name) => SnapshotFault::NotUnsigned(name@),
            SnapshotError::NotAList(section) => SnapshotFault::NotAList(section),
            SnapshotError::InactiveStorage(name) => SnapshotFault::InactiveStorage(name@),
            SnapshotError::NoActiveStorage => SnapshotFault::NoActiveStorage,
            SnapshotError::NoPrimaryInterface => SnapshotFault::NoPrimaryInterface,
        }
    }
}

/// The message for a fault.
pub open spec fn fault_text(fault: SnapshotFault) -> Seq<char> {
    match fault {
        SnapshotFault::MissingMarker(marker) => "missing "@ + marker + " in SSH output"@,
        SnapshotFault::InvalidJson { section, .. } => match section {
            Section::Status => "invalid node status JSON"@,
            Section::Guests => "invalid guest resource JSON"@,
            Section::Storage => "invalid storage JSON"@,
            Section::Network => "invalid network JSON"@,
        },
        SnapshotFault::NotANumber(name) => name + " is not a number"@,
        SnapshotFault::NotUnsigned(name) => name + " is not an unsigned integer"@,
        SnapshotFault::NotAList(section) => match section {
            Section::Status => "status is not an array"@,
            Section::Guests => "guests is not an array"@,
            Section::Storage => "storages is not an array"@,
            Section::Network => "network is not an array"@,
        },
        SnapshotFault::InactiveStorage(name) => "preferred storage '"@ + name + "' is not active"@,
        SnapshotFault::NoActiveStorage => "no active PVE storage found"@,
        SnapshotFault::NoPrimaryInterface => "no primary PVE network interface found"@,
    }
}

impl SnapshotError {
    /// The message for the error, without the cause that invalid JSON carries.
    pub fn message(&self) -> (text: String)
        ensures
            text@ == fault_text(self@),
    {
        match self {
            SnapshotError::MissingMarker(marker) => join3(
                "missing ",
                marker.as_str(),
                " in SSH output",
            ),
            SnapshotError::InvalidJson { section, .. } => match section {
                Section::Status => "invalid node status JSON".to_owned(),
                Section::Guests => "invalid guest resource JSON".to_owned(),
                Section::Storage => "invalid storage JSON".to_owned(),
                Section::Network => "invalid network JSON".to_owned(),
            },
            SnapshotError::NotANumber(name) => join2(name.as_str(), " is not a number"),
            SnapshotError::NotUnsigned(name) => join2(
                name.as_str(),
                " is not an unsigned integer",
            ),
            SnapshotError::NotAList(section) => match section {
                Section::Status => "status is not an array".to_owned(),
                Section::Guests => "guests is not an array".to_owned(),
                Section::Storage => "storages is not an array".to_owned(),
                Section::Network => "network is not an array".to_owned(),
            },
            SnapshotError::InactiveStorage(name) => join3(
                "preferred storage '",
                name.as_str(),
                "' is not active",
            ),
            SnapshotError::NoActiveStorage => "no active PVE storage found".to_owned(),
            SnapshotError::NoPrimaryInterface => "no primary PVE network interface found".to_owned(),
        }
    }
}

/// Each fault is told by a message of its own, which names the marker, the field or the storage
/// that it is about, or else the section.
pub proof fn law_faults_are_told(name: Seq<char>, cause: Seq<char>)
    ensures
        fault_text(SnapshotFault::MissingMarker(name)) == "missing "@ + name + " in SSH output"@,
        fault_text(SnapshotFault::InvalidJson { section: Section::Status, cause })
            == "invalid node status JSON"@,
        fault_text(SnapshotFault::InvalidJson { section: Section::Guests, cause })
            == "invalid guest resource JSON"@,
        fault_text(SnapshotFault::InvalidJson { section: Section::Storage, cause })
            == "invalid storage JSON"@,
        fault_text(SnapshotFault::InvalidJson { section: Section::Network, cause })
            == "invalid network JSON"@,
        fault_text(SnapshotFault::NotANumber(name)) == name + " is not a number"@,
        fault_text(SnapshotFault::NotUnsigned(name)) == name + " is not an unsigned integer"@,
        fault_text(SnapshotFault::NotAList(Section::Status)) == "status is not an array"@,
        fault_text(SnapshotFault::NotAList(Section::Guests)) == "guests is not an array"@,
        fault_text(SnapshotFault::NotAList(Section::Storage)) == "storages is not an array"@,
        fault_text(SnapshotFault::NotAList(Section::Network)) == "network is not an array"@,
        fault_text(SnapshotFault::InactiveStorage(name)) == "preferred storage '"@ + name
            + "' is not active"@,
        fault_text(SnapshotFault::NoActiveStorage) == "no active PVE storage found"@,
        fault_text(SnapshotFault::NoPrimaryInterface) == "no primary PVE network interface found"@,
{
}

/// An error is known by its texts.
pub proof fn law_errors_are_known_by_their_texts(error: SnapshotError)
    ensures
        match error {
            SnapshotError::MissingMarker(marker) => error@ == SnapshotFault::MissingMarker(marker@),
            SnapshotError::InvalidJson { section, cause } => error@ == (SnapshotFault::InvalidJson {
                section,
                cause: cause@,
            }),
            SnapshotError::NotANumber(name) => error@ == SnapshotFault::NotANumber(name@),
            SnapshotError::NotUnsigned(name) => error@ == SnapshotFault::NotUnsigned(name@),
            SnapshotError::NotAList(section) => error@ == SnapshotFault::NotAList(section),
            SnapshotError::InactiveStorage(name) => error@ == SnapshotFault::InactiveStorage(name@),
            SnapshotError::NoActiveStorage => error@ is NoActiveStorage,
            SnapshotError::NoPrimaryInterface => error@ is NoPrimaryInterface,
        },
{
}

} // verus!
