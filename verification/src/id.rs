//! Stream identifiers.

use vstd::prelude::*;
use vstd::std_specs::convert::TryFromSpecImpl;

verus! {

/// Largest value an identifier can take: `2^62 - 1`.
pub const MAX_ID: u64 = 0x3FFF_FFFF_FFFF_FFFF;

/// The endpoint that opened a stream.
#[derive(Clone, Copy, Debug, PartialEq, Eq, Structural)]
pub enum Initiator {
    Client,
    Server,
}

/// Whether a stream carries data in one direction or in both.
#[derive(Clone, Copy, Debug, PartialEq, Eq, Structural)]
pub enum Kind {
    Unidirectional,
    Bidirectional,
}

/// The identifier handed in does not fit in 62 bits.
#[derive(Clone, Copy, Debug, PartialEq, Eq, Structural)]
pub struct IdOutOfBoundsErr;

impl IdOutOfBoundsErr {
    /// A short description of the error.
    pub fn message(&self) -> (text: &'static str)
        ensures
            text@ == "Id is out of bounds"@,
    {
        "Id is out of bounds"
    }
}

/// Identifier of a stream: an integer in `[0, 2^62)`.
#[derive(Clone, Copy, Debug, PartialEq, Eq, Structural)]
pub struct Id(u64);

/// The initiator encoded in bit 0 of `raw`: a set bit means the server.
pub open spec fn initiator_of(raw: u64) -> Initiator {
    if raw % 2 == 1 {
        Initiator::Server
    } else {
        Initiator::Client
    }
}

/// The kind encoded in bit 1 of `raw`: a set bit means unidirectional.
pub open spec fn kind_of(raw: u64) -> Kind {
    if (raw / 2) % 2 == 1 {
        Kind::Unidirectional
    } else {
        Kind::Bidirectional
    }
}

impl Id {
    #[verifier::type_invariant]
    spec fn in_domain(self) -> bool {
        self.0 <= MAX_ID
    }

    /// The integer this identifier stands for.
    pub closed spec fn value(self) -> u64 {
        self.0
    }

    /// The identifier that stands for `raw`.
    pub closed spec fn of(raw: u64) -> Id {
        Id(raw)
    }

    /// The identifier that stands for `raw` has the value `raw`.
    pub proof fn lemma_of_value(raw: u64)
        ensures
            Id::of(raw).value() == raw,
    {
    }

    /// Returns the identifier as an integer, which is below `2^62`.
    pub fn as_u64(&self) -> (raw: u64)
        ensures
            raw == self.value(),
            raw <= MAX_ID,
    {
        proof {
            use_type_invariant(self);
        }
        self.0
    }

    /// Which endpoint opened the stream.
    pub fn initiator(&self) -> (who: Initiator)
        ensures
            who == initiator_of(self.value()),
    {
        let raw = self.0;
        assert(raw & 0x1 == raw % 2) by (bit_vector);
        if raw & 0x1 == 0x1 {
            Initiator::Server
        } else {
            Initiator::Client
        }
    }

    /// Whether the stream is unidirectional or bidirectional.
    pub fn kind(&self) -> (kind: Kind)
        ensures
            kind == kind_of(self.value()),
    {
        let raw = self.0;
        assert((raw & 0x2 == 0x2) == ((raw / 2) % 2 == 1)) by (bit_vector);
        if raw & 0x2 == 0x2 {
            Kind::Unidirectional
        } else {
            Kind::Bidirectional
        }
    }
}

impl TryFrom<u64> for Id {
    type Error = IdOutOfBoundsErr;

    /// Accepts `raw` exactly when it is below `2^62`.
    fn try_from(raw: u64) -> (res: Result<Id, IdOutOfBoundsErr>)
        ensures
            res is Ok <==> raw <= MAX_ID,
            res is Ok ==> res->Ok_0.value() == raw,
    {
        if raw > MAX_ID {
            return Err(IdOutOfBoundsErr);
        }
        Ok(Id(raw))
    }
}

impl TryFromSpecImpl<u64> for Id {
    open spec fn obeys_try_from_spec() -> bool {
        true
    }

    open spec fn try_from_spec(raw: u64) -> Result<Id, IdOutOfBoundsErr> {
        if raw <= MAX_ID {
            Ok(Id::of(raw))
        } else {
            Err(IdOutOfBoundsErr)
        }
    }
}

} // verus!
