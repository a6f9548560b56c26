//! Identifiers.

use crate::text::{chars_of, push_chars};
use vstd::prelude::*;

verus! {

/// A digit of a hexadecimal number, in small letters.
pub open spec fn is_hex(c: char) -> bool {
    48 <= c as int <= 57 || 97 <= c as int <= 102
}

/// The shape of a random identifier: 36 characters, a hyphen at four places and
/// hexadecimal digits at the others, the first of the third group a four.
pub open spec fn is_random_id(s: Seq<char>) -> bool {
    &&& s.len() == 36
    &&& s[14] == '4'
    &&& forall|i: int|
        0 <= i < 36 ==> if i == 8 || i == 13 || i == 18 || i == 23 {
            #[trigger] s[i] == '-'
        } else {
            is_hex(s[i])
        }
}

/// `uuid::Uuid::new_v4` in its usual notation. The digits are random; only the
/// shape is promised.
#[verifier::external_body]
pub(crate) fn random_id() -> (r: String)
    ensures
        is_random_id(r@),
{
    uuid::Uuid::new_v4().to_string()
}

/// An identifier of a compaction, made of the beginning of a random one.
pub fn compaction_id() -> (r: String)
    ensures
        r@.len() == 16,
        r@.subrange(0, 8) == "compact_"@,
        forall|i: int| 8 <= i < 16 ==> is_hex(#[trigger] r@[i]),
{
    let id = random_id();
    compaction_id_from(id.as_str())
}

/// The identifier of a compaction made of a random one.
pub fn compaction_id_from(random: &str) -> (r: String)
    requires
        is_random_id(random@),
    ensures
        r@ == "compact_"@ + random@.take(8),
        r@.len() == 16,
        r@.subrange(0, 8) == "compact_"@,
        forall|i: int| 8 <= i < 16 ==> is_hex(#[trigger] r@[i]),
{
    let c = chars_of(random);
    let mut out = "compact_".to_owned();
    push_chars(&mut out, &c, 0, 8);
    proof {
        reveal_strlit("compact_");
        assert(random@.subrange(0, 8) =~= random@.take(8));
        assert(out@.subrange(0, 8) =~= "compact_"@);
        assert forall|i: int| 8 <= i < 16 implies is_hex(#[trigger] out@[i]) by {
            assert(out@[i] == random@[i - 8]);
        }
    }
    out
}

} // verus!
