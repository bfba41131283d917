//! Fresh identifiers for layer directories.

use vstd::prelude::*;

verus! {

/// A lower-case hexadecimal digit.
pub open spec fn is_lower_hex(c: char) -> bool {
    ('0' <= c && c <= '9') || ('a' <= c && c <= 'f')
}

/// The positions of the four hyphens in an identifier.
pub open spec fn is_hyphen_position(i: int) -> bool {
    i == 8 || i == 13 || i == 18 || i == 23
}

/// The shape of a layer identifier: 36 characters, lower-case hexadecimal
/// digits in groups of 8, 4, 4, 4 and 12 with a hyphen between the groups.
/// The third group starts with the version digit `4`, and the fourth with one
/// of the four digits that mark the variant.
pub open spec fn is_layer_id(id: Seq<char>) -> bool {
    &&& id.len() == 36
    &&& forall|i: int|
        0 <= i < 36 ==> if is_hyphen_position(i) {
            #[trigger] id[i] == '-'
        } else {
            is_lower_hex(id[i])
        }
    &&& id[14] == '4'
    &&& (id[19] == '8' || id[19] == '9' || id[19] == 'a' || id[19] == 'b')
}

/// Draws a fresh identifier for a layer.
///
/// Calls `uuid::Uuid::new_v4` and renders the value with its `Display` impl,
/// which writes the hyphenated lower-case form. `new_v4` fills 122 bits from
/// the operating system's random source and sets the version to 4 and the
/// variant to the two bits `10`. The identifier is random, so the contract
/// states only its shape: nothing is claimed about two draws being
/// different. The call stops the process when the operating system hands out
/// no random bytes.
#[verifier::external_body]
pub(crate) fn fresh_layer_id() -> (id: String)
    ensures
        is_layer_id(id@),
{
    uuid::Uuid::new_v4().to_string()
}

/// An identifier names a single directory: it is not empty and holds no
/// separator, so joined to a root it lies directly under that root.
pub proof fn lemma_layer_id_is_plain_name(id: Seq<char>)
    requires
        is_layer_id(id),
    ensures
        id.len() > 0,
        forall|i: int| 0 <= i < id.len() ==> id[i] != '/',
{
    assert forall|i: int| 0 <= i < id.len() implies id[i] != '/' by {
        if is_hyphen_position(i) {
            assert(id[i] == '-');
        } else {
            assert(is_lower_hex(id[i]));
        }
    }
}

} // verus!
