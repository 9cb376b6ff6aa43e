use vstd::prelude::*;
use embedded_hal::i2c::ErrorKind;

verus! {

/// The fault classes that embedded-hal reports for a failed bus transfer.
#[verifier::external_type_specification]
#[verifier::external_body]
pub struct ExErrorKind(ErrorKind);

} // verus!
