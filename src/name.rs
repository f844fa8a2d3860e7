use vstd::prelude::*;

verus! {

/// Longest name, in bytes, that a request may carry.
pub const NAME_LEN: usize = 128;

/// Whether a byte may appear in a resource name: an ASCII letter, a digit,
/// or one of `. / _ + -`.
pub open spec fn name_byte_ok(b: u8) -> bool {
    (97 <= b && b <= 122) || (65 <= b && b <= 90) || (48 <= b && b <= 57)
        || b == 46 || b == 47 || b == 95 || b == 43 || b == 45
}

/// A name is valid when it fits in `NAME_LEN` bytes and every byte before the
/// first zero byte is allowed.
pub open spec fn valid_name(name: Seq<u8>) -> bool {
    name.len() <= NAME_LEN && forall|i: int|
        0 <= i < name.len() && (forall|j: int| 0 <= j < i ==> name[j] != 0) ==> (name[i] == 0
            || name_byte_ok(name[i]))
}

/// Whether `b` may appear in a resource name.
pub fn is_name_byte(b: u8) -> (r: bool)
    ensures
        r == name_byte_ok(b),
{
    (97 <= b && b <= 122) || (65 <= b && b <= 90) || (48 <= b && b <= 57) || b == 46
        || b == 47 || b == 95 || b == 43 || b == 45
}

/// Checks a resource name: at most 128 bytes, read up to the first zero byte,
/// each byte before it allowed by `name_byte_ok`.
pub fn validate_name(name: &[u8]) -> (r: bool)
    ensures
        r == valid_name(name@),
{
    if name.len() > NAME_LEN {
        return false;
    }
    let mut i: usize = 0;
    while i < name.len()
        invariant
            i <= name.len() <= NAME_LEN,
            forall|k: int| 0 <= k < i ==> name@[k] != 0 && name_byte_ok(name@[k]),
        decreases name.len() - i,
    {
        let b = name[i];
        if b == 0 {
            return true;
        }
        if !is_name_byte(b) {
            return false;
        }
        i += 1;
    }
    true
}

} // verus!
