//! SASL vocabulary: mechanisms and the step-wise session seam. Mechanism
//! *implementations* are injected by the host; this crate only consumes the
//! seam.

use vstd::prelude::*;

verus! {

/// Supported mechanisms.
#[derive(Clone, Copy, Debug, PartialEq, Eq, Structural)]
pub enum SaslMechanism {
    /// RFC 4616.
    Plain,
    /// Legacy LOGIN.
    Login,
    /// RFC 7677.
    ScramSha256,
    /// RFC 7628 (`OAuth2`).
    Xoauth2,
}

impl SaslMechanism {
    /// Wire name.
    pub open spec fn spec_name(self) -> Seq<char> {
        match self {
            Self::Plain => "PLAIN"@,
            Self::Login => "LOGIN"@,
            Self::ScramSha256 => "SCRAM-SHA-256"@,
            Self::Xoauth2 => "XOAUTH2"@,
        }
    }

    /// Wire name.
    #[must_use]
    pub fn name(self) -> (r: &'static str)
        ensures
            r@ == self.spec_name(),
    {
        match self {
            Self::Plain => "PLAIN",
            Self::Login => "LOGIN",
            Self::ScramSha256 => "SCRAM-SHA-256",
            Self::Xoauth2 => "XOAUTH2",
        }
    }

    /// Distinct mechanisms have distinct wire names.
    pub proof fn law_names_are_distinct(a: Self, b: Self)
        requires
            a.spec_name() == b.spec_name(),
        ensures
            a == b,
    {
        reveal_strlit("PLAIN");
        reveal_strlit("LOGIN");
        reveal_strlit("SCRAM-SHA-256");
        reveal_strlit("XOAUTH2");
        assert("PLAIN"@[0] == 'P' && "LOGIN"@[0] == 'L');
        assert("SCRAM-SHA-256"@[0] == 'S' && "XOAUTH2"@[0] == 'X');
    }
}

/// A step-wise SASL exchange (implementation injected by the host).
pub trait SaslSession {
    /// Initial response bytes (SASL IR), when the mechanism supports one.
    fn initial_response(&mut self) -> Option<Vec<u8>>;

    /// Feeds a server challenge, producing the next response.
    ///
    /// # Errors
    /// Mechanism-specific failure (malformed challenge).
    fn respond(&mut self, challenge: &[u8]) -> Result<Vec<u8>, String>;
}

/// The wire names are those that the mechanisms are registered under.
pub proof fn law_wire_names_are_the_registered_ones(mechanism: SaslMechanism)
    ensures
        mechanism.spec_name() == "PLAIN"@ <==> mechanism == SaslMechanism::Plain,
        mechanism.spec_name() == "LOGIN"@ <==> mechanism == SaslMechanism::Login,
        mechanism.spec_name() == "SCRAM-SHA-256"@ <==> mechanism == SaslMechanism::ScramSha256,
        mechanism.spec_name() == "XOAUTH2"@ <==> mechanism == SaslMechanism::Xoauth2,
{
    reveal_strlit("PLAIN");
    reveal_strlit("LOGIN");
    reveal_strlit("SCRAM-SHA-256");
    reveal_strlit("XOAUTH2");
    assert("PLAIN"@[0] == 'P' && "LOGIN"@[0] == 'L');
    assert("SCRAM-SHA-256"@[0] == 'S' && "XOAUTH2"@[0] == 'X');
}

}
