//! Listing the sequences.

use vstd::prelude::*;
use crate::server::errors::ServerError;

verus! {

/// Whether the bytes are the empty text or a single slash: the two ways to
/// name the root.
pub open spec fn names_root(expression: Seq<u8>) -> bool {
    expression.len() == 0 || expression == seq![0x2Fu8]
}

/// Whether a listing asks for the root. Only the root can be listed.
pub fn is_root_query(expression: &[u8]) -> (r: bool)
    ensures
        r == names_root(expression@),
{
    if expression.len() == 0 {
        true
    } else if expression.len() == 1 {
        let b: u8 = expression[0];
        proof {
            if b == 0x2Fu8 {
                assert(expression@ =~= seq![0x2Fu8]);
            } else {
                assert(seq![0x2Fu8][0] == 0x2Fu8);
            }
        }
        b == 0x2F
    } else {
        proof {
            assert(seq![0x2Fu8].len() == 1);
        }
        false
    }
}

/// Admits a listing of the root and refuses any other.
pub fn list_flights(expression: &[u8]) -> (r: Result<(), ServerError>)
    ensures
        r is Ok <==> names_root(expression@),
        r matches Err(e) ==> e is UnsupportedDescriptor,
{
    if is_root_query(expression) {
        Ok(())
    } else {
        Err(ServerError::UnsupportedDescriptor)
    }
}

} // verus!
