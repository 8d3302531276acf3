//! Erasing secret text from memory.
use vstd::prelude::*;
use vstd::string::*;
use zeroize::Zeroize;

verus! {

/// Overwrites the bytes of a string with zeros and empties it, through
/// `zeroize::Zeroize::zeroize` on `String`, which zeroes the backing vector,
/// its spare capacity included, and then clears it.
#[verifier::external_body]
pub(crate) fn erase_text(s: &mut String)
    ensures
        final(s)@ == Seq::<char>::empty(),
{
    s.zeroize();
}

} // verus!
