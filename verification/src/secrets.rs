//! Zeroized secret carrier: secrets never appear in `Debug` output or logs.

use vstd::prelude::*;
use zeroize::Zeroize;

verus! {

/// A zeroized-on-drop secret string.
pub struct SecretString(String);

/// `zeroize::Zeroize::zeroize` on a `String`: overwrites the buffer and
/// leaves the text empty. That the freed memory held zeros is not stated:
/// contents of memory that no value owns have no model here.
#[verifier::external_body]
fn wipe(text: &mut String)
    ensures
        final(text)@ == Seq::<char>::empty(),
    opens_invariants none
    no_unwind
{
    text.zeroize();
}

impl View for SecretString {
    type V = Seq<char>;

    closed spec fn view(&self) -> Seq<char> {
        self.0@
    }
}

impl SecretString {
    /// Wraps an owned secret.
    #[must_use]
    pub fn new(value: String) -> (r: Self)
        ensures
            r@ == value@,
    {
        Self(value)
    }

    /// Reveals the secret.
    #[must_use]
    pub fn expose(&self) -> (r: &str)
        ensures
            r@ == self@,
    {
        self.0.as_str()
    }

    /// Overwrites the secret, leaving an empty one.
    pub fn zeroize(&mut self)
        ensures
            final(self)@ == Seq::<char>::empty(),
    {
        wipe(&mut self.0);
    }

    /// What debug output shows: the same for every secret.
    #[must_use]
    pub fn debug_text(&self) -> (r: String)
        ensures
            r@ == "SecretString(***)"@,
    {
        "SecretString(***)".to_string()
    }
}

impl std::fmt::Debug for SecretString {
    fn fmt(&self, f: &mut std::fmt::Formatter<'_>) -> std::fmt::Result {
        f.write_str(self.debug_text().as_str())
    }
}

impl Clone for SecretString {
    fn clone(&self) -> (r: Self)
        ensures
            r@ == self@,
    {
        Self(self.0.clone())
    }
}

impl Drop for SecretString {
    fn drop(&mut self)
        ensures
            final(self)@ == Seq::<char>::empty(),
        opens_invariants none
        no_unwind
    {
        wipe(&mut self.0);
    }
}

impl PartialEq for SecretString {
    fn eq(&self, other: &Self) -> (r: bool) {
        self.0 == other.0
    }
}

impl vstd::std_specs::cmp::PartialEqSpecImpl for SecretString {
    open spec fn obeys_eq_spec() -> bool {
        true
    }

    open spec fn eq_spec(&self, other: &Self) -> bool {
        self@ == other@
    }
}

}
