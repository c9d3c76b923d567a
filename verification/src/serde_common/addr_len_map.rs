//! A network or host written as a structure of two fields, `address` and
//! `network_length`: the names of the fields, and the bookkeeping of one
//! who reads such a structure field by field.

use vstd::prelude::*;
use vstd::string::StringSliceAdditionalSpecFns;
use crate::text::bytes_equal;

verus! {

/// One of the two fields.
#[derive(Clone, Copy, PartialEq, Eq, Structural, Debug)]
pub enum FieldIdentifier {
    /// the field `address`
    Address,
    /// the field `network_length`
    NetworkLength,
}

/// Why a structure that was read is not an address with a network length.
#[derive(Clone, Copy, PartialEq, Eq, Structural, Debug)]
pub enum FieldError {
    /// a field came twice
    DuplicateField(FieldIdentifier),
    /// a field did not come at all
    MissingField(FieldIdentifier),
}

impl FieldIdentifier {
    /// The name of the field.
    pub open spec fn spec_name(self) -> &'static str {
        match self {
            FieldIdentifier::Address => "address",
            FieldIdentifier::NetworkLength => "network_length",
        }
    }

    /// The name of the field.
    pub fn name(self) -> (name: &'static str)
        ensures
            name == self.spec_name(),
    {
        match self {
            FieldIdentifier::Address => "address",
            FieldIdentifier::NetworkLength => "network_length",
        }
    }

    /// The field whose name the bytes spell, if there is one.
    pub open spec fn named(value: Seq<u8>) -> Option<Self> {
        if value == "address".spec_bytes() {
            Some(FieldIdentifier::Address)
        } else if value == "network_length".spec_bytes() {
            Some(FieldIdentifier::NetworkLength)
        } else {
            None
        }
    }

    /// The field with the given name, if there is one.
    pub fn from_name(value: &str) -> (field: Option<Self>)
        ensures
            field == Self::named(value.spec_bytes()),
    {
        Self::from_bytes(value.as_bytes())
    }

    /// The field whose name the bytes spell, if there is one.
    pub fn from_bytes(value: &[u8]) -> (field: Option<Self>)
        ensures
            field == Self::named(value@),
    {
        if bytes_equal(value, "address".as_bytes()) {
            Some(FieldIdentifier::Address)
        } else if bytes_equal(value, "network_length".as_bytes()) {
            Some(FieldIdentifier::NetworkLength)
        } else {
            None
        }
    }
}

/// The fields in the order in which they are written.
pub fn serialize() -> (fields: [FieldIdentifier; 2])
    ensures
        fields@ == seq![FieldIdentifier::Address, FieldIdentifier::NetworkLength],
{
    [FieldIdentifier::Address, FieldIdentifier::NetworkLength]
}

/// What has been read of a structure so far.
pub struct StructVisitor<Addr> {
    /// the address, once it was read
    pub addr: Option<Addr>,
    /// the network length, once it was read
    pub network_length: Option<u8>,
}

impl<Addr> StructVisitor<Addr> {
    /// Nothing has been read yet.
    pub fn new() -> (visitor: Self)
        ensures
            visitor.addr is None,
            visitor.network_length is None,
    {
        StructVisitor { addr: None, network_length: None }
    }

    /// Whether the value of the field `key` may be read now: it may not
    /// where that field was read before.
    pub fn visit_key(&self, key: FieldIdentifier) -> (r: Result<(), FieldError>)
        ensures
            r is Err <==> match key {
                FieldIdentifier::Address => self.addr is Some,
                FieldIdentifier::NetworkLength => self.network_length is Some,
            },
            r is Err ==> r == Err::<(), _>(FieldError::DuplicateField(key)),
    {
        match key {
            FieldIdentifier::Address => {
                if self.addr.is_some() {
                    return Err(FieldError::DuplicateField(FieldIdentifier::Address));
                }
            },
            FieldIdentifier::NetworkLength => {
                if self.network_length.is_some() {
                    return Err(FieldError::DuplicateField(FieldIdentifier::NetworkLength));
                }
            },
        }
        Ok(())
    }

    /// Takes the address that was read.
    pub fn visit_address(&mut self, addr: Addr)
        ensures
            final(self).addr == Some(addr),
            final(self).network_length == old(self).network_length,
    {
        self.addr = Some(addr);
    }

    /// Takes the network length that was read.
    pub fn visit_network_length(&mut self, network_length: u8)
        ensures
            final(self).network_length == Some(network_length),
            final(self).addr == old(self).addr,
    {
        self.network_length = Some(network_length);
    }

    /// The address and the network length, once the structure has been
    /// read to its end: both fields must have come.  Where one has not,
    /// the error names it, and the address where neither has.
    pub fn deserialize(self) -> (r: Result<(Addr, u8), FieldError>)
        ensures
            self.addr is None ==> r == Err::<(Addr, u8), _>(
                FieldError::MissingField(FieldIdentifier::Address),
            ),
            self.addr is Some && self.network_length is None ==> r == Err::<(Addr, u8), _>(
                FieldError::MissingField(FieldIdentifier::NetworkLength),
            ),
            self.addr is Some && self.network_length is Some ==> r == Ok::<_, FieldError>(
                (self.addr->Some_0, self.network_length->Some_0),
            ),
    {
        let addr = match self.addr {
            Some(addr) => addr,
            None => return Err(FieldError::MissingField(FieldIdentifier::Address)),
        };
        let network_length = match self.network_length {
            Some(network_length) => network_length,
            None => return Err(FieldError::MissingField(FieldIdentifier::NetworkLength)),
        };
        Ok((addr, network_length))
    }
}

} // verus!
