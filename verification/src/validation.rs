//! Username syntax.
//!
//! A username is 6 to 17 bytes long: three lowercase ASCII letters, then up to
//! eleven lowercase letters, digits or underscores, then three ASCII digits.
//! Nothing is normalized: an uppercase letter makes a username invalid.

use crate::bytes::copy_bytes;
use vstd::prelude::*;

verus! {

/// Shortest username: three letters and three digits.
pub const MIN_USERNAME_LENGTH: u32 = 6;

/// Longest username.
pub const MAX_USERNAME_LENGTH: u32 = 17;

/// Number of leading bytes that must be lowercase letters.
pub const MIN_LEADING_LETTERS: u32 = 3;

/// Number of trailing bytes that must be digits.
pub const TRAILING_DIGITS: u32 = 3;

/// ASCII `a`.
pub const LOWER_A: u8 = 0x61;

/// ASCII `z`.
pub const LOWER_Z: u8 = 0x7a;

/// ASCII `A`.
pub const UPPER_A: u8 = 0x41;

/// ASCII `Z`.
pub const UPPER_Z: u8 = 0x5a;

/// ASCII `0`.
pub const DIGIT_0: u8 = 0x30;

/// ASCII `9`.
pub const DIGIT_9: u8 = 0x39;

/// ASCII `_`.
pub const UNDERSCORE: u8 = 0x5f;

/// `b` is one of `a` to `z`.
pub open spec fn lowercase_letter(b: u8) -> bool {
    LOWER_A <= b <= LOWER_Z
}

/// `b` is one of `A` to `Z`.
pub open spec fn uppercase_letter(b: u8) -> bool {
    UPPER_A <= b <= UPPER_Z
}

/// `b` is one of `0` to `9`.
pub open spec fn digit(b: u8) -> bool {
    DIGIT_0 <= b <= DIGIT_9
}

/// `b` may stand between the leading letters and the trailing digits.
pub open spec fn middle_char(b: u8) -> bool {
    lowercase_letter(b) || digit(b) || b == UNDERSCORE
}

/// The byte class that position `i` of a username of length `len` demands of
/// the byte `b` that stands there.
pub open spec fn fits_position(len: int, i: int, b: u8) -> bool {
    if i < 3 {
        lowercase_letter(b)
    } else if i >= len - 3 {
        digit(b)
    } else {
        middle_char(b)
    }
}

/// The username policy.
pub open spec fn valid_username(s: Seq<u8>) -> bool {
    &&& 6 <= s.len() <= 17
    &&& forall|i: int| 0 <= i < 3 ==> lowercase_letter(#[trigger] s[i])
    &&& forall|i: int| s.len() - 3 <= i < s.len() ==> digit(#[trigger] s[i])
    &&& forall|i: int| 3 <= i < s.len() - 3 ==> middle_char(#[trigger] s[i])
}

/// Every byte of `s` is in the class `class`.
pub open spec fn all_bytes(s: Seq<u8>, class: spec_fn(u8) -> bool) -> bool {
    forall|i: int| 0 <= i < s.len() ==> class(#[trigger] s[i])
}

/// `s` is three lowercase letters, then at most eleven middle characters, then
/// three digits: the language of `^[a-z]{3}[a-z0-9_]{0,11}[0-9]{3}$`.
pub open spec fn matches_pattern(s: Seq<u8>) -> bool {
    exists|head: Seq<u8>, mid: Seq<u8>, tail: Seq<u8>|
        {
            &&& s == head + mid + tail
            &&& head.len() == 3
            &&& mid.len() <= 11
            &&& tail.len() == 3
            &&& all_bytes(head, |b: u8| lowercase_letter(b))
            &&& all_bytes(mid, |b: u8| middle_char(b))
            &&& all_bytes(tail, |b: u8| digit(b))
        }
}

/// The distance from an uppercase ASCII letter to its lowercase letter.
pub const CASE_OFFSET: u8 = 0x20;

/// `b` with an uppercase ASCII letter lowered, and any other byte as it is.
pub open spec fn lowered(b: u8) -> u8 {
    if uppercase_letter(b) {
        (b + CASE_OFFSET) as u8
    } else {
        b
    }
}

/// `s` with its uppercase ASCII letters lowered.
pub open spec fn lowered_bytes(s: Seq<u8>) -> Seq<u8> {
    s.map_values(|b: u8| lowered(b))
}

/// `s` would meet the username policy if its uppercase letters were
/// lowered. This is weaker than validity: a username with an uppercase
/// letter is never valid.
pub open spec fn valid_once_lowered(s: Seq<u8>) -> bool {
    valid_username(lowered_bytes(s))
}

/// Whether `b` is a lowercase ASCII letter.
pub fn is_lowercase_letter(b: u8) -> (r: bool)
    ensures
        r == lowercase_letter(b),
{
    b >= LOWER_A && b <= LOWER_Z
}

/// Whether `b` is an ASCII digit.
pub fn is_digit(b: u8) -> (r: bool)
    ensures
        r == digit(b),
{
    b >= DIGIT_0 && b <= DIGIT_9
}

/// Whether `b` may stand in the middle part of a username.
pub fn is_valid_middle_char(b: u8) -> (r: bool)
    ensures
        r == middle_char(b),
{
    is_lowercase_letter(b) || is_digit(b) || b == UNDERSCORE
}

/// Decides the username policy. The length is tested first, then the three
/// leading letters, then the three trailing digits, then the middle part.
pub fn validate_username(username: &[u8]) -> (ok: bool)
    ensures
        ok == valid_username(username@),
        username@.len() < 6 || username@.len() > 17 ==> !ok,
        ok == matches_pattern(username@),
{
    proof {
        law_pattern_is_policy(username@);
    }
    let len = username.len();
    if len < MIN_USERNAME_LENGTH as usize || len > MAX_USERNAME_LENGTH as usize {
        return false;
    }
    let leading = MIN_LEADING_LETTERS as usize;
    let trailing = TRAILING_DIGITS as usize;
    let mut i: usize = 0;
    while i < leading
        invariant
            6 <= len <= 17,
            len == username@.len(),
            leading == 3,
            i <= leading,
            forall|j: int| 0 <= j < i ==> lowercase_letter(#[trigger] username@[j]),
        decreases leading - i,
    {
        if !is_lowercase_letter(username[i]) {
            return false;
        }
        i += 1;
    }
    let mut i: usize = len - trailing;
    while i < len
        invariant
            6 <= len <= 17,
            len == username@.len(),
            trailing == 3,
            len - trailing <= i <= len,
            forall|j: int| len - 3 <= j < i ==> digit(#[trigger] username@[j]),
        decreases len - i,
    {
        if !is_digit(username[i]) {
            return false;
        }
        i += 1;
    }
    let mut i: usize = leading;
    while i < len - trailing
        invariant
            6 <= len <= 17,
            len == username@.len(),
            leading == 3,
            trailing == 3,
            leading <= i <= len - trailing,
            forall|j: int| 3 <= j < i ==> middle_char(#[trigger] username@[j]),
        decreases len - trailing - i,
    {
        if !is_valid_middle_char(username[i]) {
            return false;
        }
        i += 1;
    }
    true
}

/// `b` with an uppercase ASCII letter lowered.
fn lower_byte(b: u8) -> (r: u8)
    ensures
        r == lowered(b),
{
    if b >= UPPER_A && b <= UPPER_Z {
        b + CASE_OFFSET
    } else {
        b
    }
}

/// Whether `username` would be valid if its uppercase letters were lowered:
/// the username as it was given where it would, and nothing where it would
/// not. The input is never rewritten, and the answer is no validation: for a
/// username with an uppercase letter the answer may be a username, and
/// `validate_username` still refuses it.
pub fn normalize_username(username: &[u8]) -> (normalized: Option<Vec<u8>>)
    ensures
        match normalized {
            Some(v) => valid_once_lowered(username@) && v@ == username@,
            None => !valid_once_lowered(username@),
        },
{
    let len = username.len();
    if len < MIN_USERNAME_LENGTH as usize || len > MAX_USERNAME_LENGTH as usize {
        return None;
    }
    let mut lower: Vec<u8> = Vec::new();
    let mut i: usize = 0;
    while i < len
        invariant
            len == username@.len(),
            i <= len,
            lower@.len() == i,
            forall|j: int| 0 <= j < i ==> #[trigger] lower@[j] == lowered(username@[j]),
        decreases len - i,
    {
        lower.push(lower_byte(username[i]));
        i += 1;
    }
    assert(lower@ =~= lowered_bytes(username@));
    if validate_username(lower.as_slice()) {
        Some(copy_bytes(username))
    } else {
        None
    }
}

/// A byte string follows the pattern exactly when it meets the policy.
pub proof fn law_pattern_is_policy(s: Seq<u8>)
    ensures
        matches_pattern(s) == valid_username(s),
{
    if valid_username(s) {
        let head = s.subrange(0, 3);
        let mid = s.subrange(3, s.len() - 3);
        let tail = s.subrange(s.len() - 3, s.len() as int);
        assert(s =~= head + mid + tail);
        assert(all_bytes(head, |b: u8| lowercase_letter(b)));
        assert(all_bytes(mid, |b: u8| middle_char(b))) by {
            assert forall|i: int| 0 <= i < mid.len() implies middle_char(#[trigger] mid[i]) by {
                assert(mid[i] == s[i + 3]);
            }
        }
        assert(all_bytes(tail, |b: u8| digit(b))) by {
            assert forall|i: int| 0 <= i < tail.len() implies digit(#[trigger] tail[i]) by {
                assert(tail[i] == s[s.len() - 3 + i]);
            }
        }
    }
    if matches_pattern(s) {
        let (head, mid, tail) = choose|head: Seq<u8>, mid: Seq<u8>, tail: Seq<u8>|
            {
                &&& s == head + mid + tail
                &&& head.len() == 3
                &&& mid.len() <= 11
                &&& tail.len() == 3
                &&& all_bytes(head, |b: u8| lowercase_letter(b))
                &&& all_bytes(mid, |b: u8| middle_char(b))
                &&& all_bytes(tail, |b: u8| digit(b))
            };
        assert forall|i: int| 0 <= i < 3 implies lowercase_letter(#[trigger] s[i]) by {
            assert(s[i] == head[i]);
        }
        assert forall|i: int| s.len() - 3 <= i < s.len() implies digit(#[trigger] s[i]) by {
            assert(s[i] == tail[i - 3 - mid.len()]);
        }
        assert forall|i: int| 3 <= i < s.len() - 3 implies middle_char(#[trigger] s[i]) by {
            assert(s[i] == mid[i - 3]);
        }
    }
}

/// A byte string shorter than six bytes or longer than seventeen is invalid.
pub proof fn law_length_bounds(s: Seq<u8>)
    requires
        s.len() < 6 || s.len() > 17,
    ensures
        !valid_username(s),
        !matches_pattern(s),
{
    law_pattern_is_policy(s);
}

/// Replacing one byte of a valid username leaves it valid exactly when the
/// new byte is in the class of its position: any replacement that breaks the
/// pattern makes the username invalid.
pub proof fn law_single_byte_mutation(s: Seq<u8>, i: int, b: u8)
    requires
        valid_username(s),
        0 <= i < s.len(),
    ensures
        valid_username(s.update(i, b)) == fits_position(s.len() as int, i, b),
        matches_pattern(s.update(i, b)) == fits_position(s.len() as int, i, b),
{
    let t = s.update(i, b);
    law_pattern_is_policy(t);
    if fits_position(s.len() as int, i, b) {
        assert forall|j: int| 0 <= j < 3 implies lowercase_letter(#[trigger] t[j]) by {
            if j != i {
                assert(t[j] == s[j]);
            }
        }
        assert forall|j: int| t.len() - 3 <= j < t.len() implies digit(#[trigger] t[j]) by {
            if j != i {
                assert(t[j] == s[j]);
            }
        }
        assert forall|j: int| 3 <= j < t.len() - 3 implies middle_char(#[trigger] t[j]) by {
            if j != i {
                assert(t[j] == s[j]);
            }
        }
    } else {
        assert(t[i] == b);
    }
}

/// Lowering changes nothing in a valid username, so a valid username is
/// valid once lowered. The converse fails: lowering can make an invalid
/// username valid.
pub proof fn law_valid_is_valid_once_lowered(s: Seq<u8>)
    requires
        valid_username(s),
    ensures
        lowered_bytes(s) == s,
        valid_once_lowered(s),
{
    assert forall|i: int| 0 <= i < s.len() implies lowered(#[trigger] s[i]) == s[i] by {
        assert(fits_position(s.len() as int, i, s[i]));
    }
    assert(lowered_bytes(s) =~= s);
}

/// `s` is 6 to 17 bytes long, begins with three letters of either case, ends
/// with three digits, and holds between them only letters of either case,
/// digits and underscores.
pub open spec fn valid_in_either_case(s: Seq<u8>) -> bool {
    &&& 6 <= s.len() <= 17
    &&& forall|i: int| 0 <= i < 3 ==> lowercase_letter(#[trigger] s[i]) || uppercase_letter(s[i])
    &&& forall|i: int| s.len() - 3 <= i < s.len() ==> digit(#[trigger] s[i])
    &&& forall|i: int|
        3 <= i < s.len() - 3 ==> middle_char(#[trigger] s[i]) || uppercase_letter(s[i])
}

/// A username is valid once lowered exactly when it meets the policy with
/// letters of either case where the policy asks for lowercase letters.
pub proof fn law_valid_once_lowered(s: Seq<u8>)
    ensures
        valid_once_lowered(s) == valid_in_either_case(s),
{
    let t = lowered_bytes(s);
    assert(t.len() == s.len());
    if valid_username(t) {
        assert forall|i: int| 0 <= i < 3 implies lowercase_letter(#[trigger] s[i])
            || uppercase_letter(s[i]) by {
            assert(lowercase_letter(t[i]));
        }
        assert forall|i: int| s.len() - 3 <= i < s.len() implies digit(#[trigger] s[i]) by {
            assert(digit(t[i]));
        }
        assert forall|i: int| 3 <= i < s.len() - 3 implies middle_char(#[trigger] s[i])
            || uppercase_letter(s[i]) by {
            assert(middle_char(t[i]));
        }
    }
    if valid_in_either_case(s) {
        assert forall|i: int| 0 <= i < 3 implies lowercase_letter(#[trigger] t[i]) by {
            assert(lowercase_letter(s[i]) || uppercase_letter(s[i]));
        }
        assert forall|i: int| t.len() - 3 <= i < t.len() implies digit(#[trigger] t[i]) by {
            assert(digit(s[i]));
        }
        assert forall|i: int| 3 <= i < t.len() - 3 implies middle_char(#[trigger] t[i]) by {
            assert(middle_char(s[i]) || uppercase_letter(s[i]));
        }
    }
}

} // verus!
