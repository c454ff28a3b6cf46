//! Format rules for emails, usernames and passwords.
//!
//! Registration and login reject malformed input before any other work, each
//! with its own error. The rules are character-level shapes: an email is a
//! local part, one `@`, and a dotted domain; a username is a short word of
//! word characters; a password is a printable phrase of bounded length that
//! holds at least one letter and one digit.

use vstd::prelude::*;

verus! {

pub open spec fn is_lower(c: char) -> bool {
    97 <= c as u32 && c as u32 <= 122
}

pub open spec fn is_upper(c: char) -> bool {
    65 <= c as u32 && c as u32 <= 90
}

pub open spec fn is_digit(c: char) -> bool {
    48 <= c as u32 && c as u32 <= 57
}

pub open spec fn is_letter(c: char) -> bool {
    is_lower(c) || is_upper(c)
}

pub open spec fn is_word_char(c: char) -> bool {
    is_letter(c) || is_digit(c)
}

/// Characters allowed before the `@` of an email.
pub open spec fn email_local_char(c: char) -> bool {
    is_word_char(c) || c == '.' || c == '_' || c == '-' || c == '+'
}

/// Characters allowed after the `@` of an email.
pub open spec fn email_domain_char(c: char) -> bool {
    is_word_char(c) || c == '.' || c == '-'
}

/// The email splits at position `i`: a nonempty local part of local
/// characters, the one `@`, and a domain of domain characters that holds a
/// dot strictly inside it.
pub open spec fn email_split_at(s: Seq<char>, i: int) -> bool {
    &&& 1 <= i && i + 1 < s.len()
    &&& s[i] == '@'
    &&& (forall|j: int| 0 <= j < i ==> email_local_char(#[trigger] s[j]))
    &&& (forall|j: int| i < j < s.len() ==> email_domain_char(#[trigger] s[j]))
    &&& (exists|k: int| i + 1 < k && k + 1 < s.len() && s[k] == '.')
}

pub open spec fn valid_email(s: Seq<char>) -> bool {
    &&& 3 <= s.len() <= 254
    &&& exists|i: int| email_split_at(s, i)
}

pub open spec fn username_char(c: char) -> bool {
    is_word_char(c) || c == '_' || c == '-'
}

pub open spec fn valid_username(s: Seq<char>) -> bool {
    &&& 3 <= s.len() <= 20
    &&& forall|i: int| 0 <= i < s.len() ==> username_char(#[trigger] s[i])
}

/// Printable ASCII, space excluded.
pub open spec fn password_char(c: char) -> bool {
    33 <= c as u32 && c as u32 <= 126
}

pub open spec fn valid_password(s: Seq<char>) -> bool {
    &&& 8 <= s.len() <= 64
    &&& (forall|i: int| 0 <= i < s.len() ==> password_char(#[trigger] s[i]))
    &&& (exists|i: int| 0 <= i < s.len() && is_digit(s[i]))
    &&& (exists|i: int| 0 <= i < s.len() && is_letter(s[i]))
}

fn is_email_local_char(c: char) -> (r: bool)
    ensures
        r == email_local_char(c),
{
    let u = c as u32;
    (97 <= u && u <= 122) || (65 <= u && u <= 90) || (48 <= u && u <= 57) || c == '.' || c == '_'
        || c == '-' || c == '+'
}

fn is_email_domain_char(c: char) -> (r: bool)
    ensures
        r == email_domain_char(c),
{
    let u = c as u32;
    (97 <= u && u <= 122) || (65 <= u && u <= 90) || (48 <= u && u <= 57) || c == '.' || c == '-'
}

fn is_username_char(c: char) -> (r: bool)
    ensures
        r == username_char(c),
{
    let u = c as u32;
    (97 <= u && u <= 122) || (65 <= u && u <= 90) || (48 <= u && u <= 57) || c == '_' || c == '-'
}

/// Decides `valid_email` for the characters of `s`.
#[verifier::loop_isolation(false)]
pub fn check_email(s: &str) -> (r: bool)
    ensures
        r == valid_email(s@),
{
    let n = s.unicode_len();
    if n < 3 || n > 254 {
        return false;
    }
    // Find the first '@'.
    let mut at_pos: usize = 0;
    let mut found_at = false;
    let mut i: usize = 0;
    while i < n
        invariant
            n == s@.len(),
            i <= n,
            !found_at ==> forall|j: int| 0 <= j < i ==> s@[j] != '@',
            found_at ==> at_pos < i && s@[at_pos as int] == '@' && forall|j: int|
                0 <= j < at_pos ==> s@[j] != '@',
        decreases n - i,
    {
        if !found_at && s.get_char(i) == '@' {
            at_pos = i;
            found_at = true;
        }
        i += 1;
    }
    if !found_at {
        assert(forall|k: int| !email_split_at(s@, k));
        return false;
    }
    if at_pos == 0 || at_pos + 1 >= n {
        assert(forall|k: int| !email_split_at(s@, k)) by {
            assert forall|k: int| !email_split_at(s@, k) by {
                if 1 <= k && k + 1 < s@.len() && s@[k] == '@' && k < at_pos {
                    assert(s@[k] != '@');
                }
            }
        }
        return false;
    }
    // Any split position must be the first '@'.
    assert(forall|k: int| email_split_at(s@, k) ==> k == at_pos) by {
        assert forall|k: int| email_split_at(s@, k) implies k == at_pos by {
            if k < at_pos {
                assert(s@[k] != '@');
            } else if k > at_pos {
                assert(email_local_char(s@[at_pos as int]));
            }
        }
    }
    let mut j: usize = 0;
    while j < at_pos
        invariant
            n == s@.len(),
            n <= 254,
            at_pos < n,
            j <= at_pos,
            forall|m: int| 0 <= m < j ==> email_local_char(#[trigger] s@[m]),
        decreases at_pos - j,
    {
        if !is_email_local_char(s.get_char(j)) {
            proof {
                assert(!email_split_at(s@, at_pos as int)) by {
                    assert(!email_local_char(s@[j as int]));
                }
                assert forall|kk: int| !email_split_at(s@, kk) by {
                    if email_split_at(s@, kk) {
                        assert(kk == at_pos);
                    }
                }
            }
            return false;
        }
        j += 1;
    }
    let mut k: usize = at_pos + 1;
    while k < n
        invariant
            n == s@.len(),
            n <= 254,
            at_pos + 1 <= k <= n,
            at_pos < n,
            forall|m: int| at_pos < m < k ==> email_domain_char(#[trigger] s@[m]),
        decreases n - k,
    {
        if !is_email_domain_char(s.get_char(k)) {
            proof {
                assert(!email_split_at(s@, at_pos as int)) by {
                    assert(!email_domain_char(s@[k as int]));
                }
                assert forall|kk: int| !email_split_at(s@, kk) by {
                    if email_split_at(s@, kk) {
                        assert(kk == at_pos);
                    }
                }
            }
            return false;
        }
        k += 1;
    }
    // A dot strictly inside the domain.
    let mut d: usize = at_pos + 2;
    while d + 1 < n
        invariant
            n == s@.len(),
            n <= 254,
            at_pos + 2 <= d,
            d <= n,
            at_pos + 1 < n,
            forall|m: int| at_pos + 1 < m < d ==> s@[m] != '.',
        decreases n - d,
    {
        if s.get_char(d) == '.' {
            proof {
                assert(email_split_at(s@, at_pos as int)) by {
                    assert(s@[d as int] == '.');
                    assert(at_pos + 1 < d as int && d as int + 1 < s@.len());
                }
            }
            return true;
        }
        d += 1;
    }
    assert(!valid_email(s@)) by {
        assert forall|kk: int| !email_split_at(s@, kk) by {
            if email_split_at(s@, kk) {
                assert(kk == at_pos);
                let k0 = choose|k0: int| kk + 1 < k0 && k0 + 1 < s@.len() && s@[k0] == '.';
                assert(s@[k0] != '.');
            }
        }
    }
    false
}

/// Decides `valid_username` for the characters of `s`.
pub fn check_username(s: &str) -> (r: bool)
    ensures
        r == valid_username(s@),
{
    let n = s.unicode_len();
    if n < 3 || n > 20 {
        return false;
    }
    let mut i: usize = 0;
    while i < n
        invariant
            n == s@.len(),
            i <= n,
            forall|j: int| 0 <= j < i ==> username_char(#[trigger] s@[j]),
        decreases n - i,
    {
        if !is_username_char(s.get_char(i)) {
            return false;
        }
        i += 1;
    }
    true
}

/// Decides `valid_password` for the characters of `s`.
pub fn check_password(s: &str) -> (r: bool)
    ensures
        r == valid_password(s@),
{
    let n = s.unicode_len();
    if n < 8 || n > 64 {
        return false;
    }
    let mut has_digit = false;
    let mut has_letter = false;
    let mut i: usize = 0;
    while i < n
        invariant
            n == s@.len(),
            i <= n,
            forall|j: int| 0 <= j < i ==> password_char(#[trigger] s@[j]),
            has_digit == exists|j: int| 0 <= j < i && is_digit(s@[j]),
            has_letter == exists|j: int| 0 <= j < i && is_letter(s@[j]),
        decreases n - i,
    {
        let c = s.get_char(i);
        let u = c as u32;
        if !(33 <= u && u <= 126) {
            return false;
        }
        if 48 <= u && u <= 57 {
            has_digit = true;
        }
        if (97 <= u && u <= 122) || (65 <= u && u <= 90) {
            has_letter = true;
        }
        i += 1;
    }
    has_digit && has_letter
}

} // verus!
