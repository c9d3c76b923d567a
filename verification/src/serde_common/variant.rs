//! The two kinds of a value that is of one of the two families, as they
//! are written where the kind is a variant of an enum: by index or by
//! name.

use vstd::prelude::*;
use vstd::string::StringSliceAdditionalSpecFns;
use crate::text::bytes_equal;

verus! {

/// The kind of a value: IPv4 or IPv6.
#[derive(Clone, Copy, PartialEq, Eq, Structural, Debug)]
pub enum NFKind {
    /// IPv4, with index 1 and name `V4`
    V4,
    /// IPv6, with index 2 and name `V6`
    V6,
}

impl NFKind {
    /// The index of the kind.
    pub open spec fn spec_index(self) -> u32 {
        match self {
            NFKind::V4 => 1,
            NFKind::V6 => 2,
        }
    }

    /// The name of the kind.
    pub open spec fn spec_name(self) -> &'static str {
        match self {
            NFKind::V4 => "V4",
            NFKind::V6 => "V6",
        }
    }

    /// The index of the kind.
    pub fn index(self) -> (index: u32)
        ensures
            index == self.spec_index(),
    {
        match self {
            NFKind::V4 => 1,
            NFKind::V6 => 2,
        }
    }

    /// The name of the kind.
    pub fn name(self) -> (name: &'static str)
        ensures
            name == self.spec_name(),
    {
        match self {
            NFKind::V4 => "V4",
            NFKind::V6 => "V6",
        }
    }

    /// What a value of this kind is written under, as a variant that
    /// holds one value: the index and the name of the variant.
    pub fn serialize_newtype_variant(self) -> (variant: (u32, &'static str))
        ensures
            variant == (self.spec_index(), self.spec_name()),
    {
        (self.index(), self.name())
    }

    /// The kind with the given index, if there is one.
    pub fn from_index(value: u32) -> (kind: Option<Self>)
        ensures
            kind is Some <==> value == 1 || value == 2,
            kind is Some ==> kind->Some_0.spec_index() == value,
    {
        match value {
            1 => Some(NFKind::V4),
            2 => Some(NFKind::V6),
            _ => None,
        }
    }

    /// The kind with the given name, if there is one.
    pub fn from_name(value: &str) -> (kind: Option<Self>)
        ensures
            kind == Self::named(value.spec_bytes()),
    {
        Self::from_bytes(value.as_bytes())
    }

    /// The kind whose name the bytes spell, if there is one.
    pub open spec fn named(value: Seq<u8>) -> Option<Self> {
        if value == "V4".spec_bytes() {
            Some(NFKind::V4)
        } else if value == "V6".spec_bytes() {
            Some(NFKind::V6)
        } else {
            None
        }
    }

    /// The kind whose name the bytes spell, if there is one.
    pub fn from_bytes(value: &[u8]) -> (kind: Option<Self>)
        ensures
            kind == Self::named(value@),
    {
        if bytes_equal(value, "V4".as_bytes()) {
            Some(NFKind::V4)
        } else if bytes_equal(value, "V6".as_bytes()) {
            Some(NFKind::V6)
        } else {
            None
        }
    }
}

} // verus!
