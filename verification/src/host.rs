//! Target validation and naming: the syntax the engine accepts for a
//! probe target before any probing starts, and the joining of candidate
//! subdomain names.  An invalid or empty target is a configuration error,
//! rejected up front.

use vstd::prelude::*;

verus! {

/// A character allowed inside a host name: a letter, a digit, a hyphen, or
/// a label-separating dot.
pub open spec fn host_char(c: char) -> bool {
    (97 <= c as u32 <= 122)  // 'a' to 'z'
     || (65 <= c as u32 <= 90)  // 'A' to 'Z'
     || (48 <= c as u32 <= 57)  // '0' to '9'
     || c == '-' || c == '.'
}

/// Host-name syntax: 1 to 253 allowed characters, where no label is empty,
/// no label starts or ends with a hyphen, and the name neither starts nor
/// ends with a dot.  A dotted-quad IPv4 address satisfies the same syntax.
pub open spec fn valid_hostname(s: Seq<char>) -> bool {
    &&& 1 <= s.len() <= 253
    &&& forall|i: int| 0 <= i < s.len() ==> host_char(#[trigger] s[i])
    &&& s[0] != '.' && s[0] != '-'
    &&& s[s.len() - 1] != '.' && s[s.len() - 1] != '-'
    &&& forall|i: int|
        0 < i < s.len() ==> !(s[i - 1] == '.' && (#[trigger] s[i] == '.' || s[i] == '-'))
    &&& forall|i: int| 0 < i < s.len() ==> !(s[i - 1] == '-' && #[trigger] s[i] == '.')
}

/// Coarse shape of an IPv6 address literal: colon-grouped hexadecimal
/// text.  This gate checks the alphabet and length only, not the grouping.
pub open spec fn colon_hex_shape(s: Seq<char>) -> bool {
    &&& 2 <= s.len() <= 45
    &&& forall|i: int|
        0 <= i < s.len() ==> ((48 <= #[trigger] s[i] as u32 <= 57) || (97 <= s[i] as u32 <= 102)
            || s[i] == ':')
    &&& exists|i: int| 0 <= i < s.len() && s[i] == ':'
}

/// A target the engine accepts: a host name, a dotted-quad IPv4 address
/// (same syntax), or an IPv6 address literal.
pub open spec fn valid_target(s: Seq<char>) -> bool {
    valid_hostname(s) || colon_hex_shape(s)
}

fn host_char_exec(c: char) -> (r: bool)
    ensures
        r == host_char(c),
{
    let x: u32 = c as u32;
    (97 <= x && x <= 122) || (65 <= x && x <= 90) || (48 <= x && x <= 57) || c == '-' || c == '.'
}

/// Decides host-name syntax for a candidate target.
pub fn is_valid_hostname(s: &str) -> (r: bool)
    ensures
        r == valid_hostname(s@),
{
    let n: usize = s.unicode_len();
    if n < 1 || n > 253 {
        return false;
    }
    let mut prev: char = 'a';
    let mut i: usize = 0;
    while i < n
        invariant
            i <= n,
            n == s@.len(),
            1 <= n <= 253,
            forall|k: int| 0 <= k < i ==> host_char(#[trigger] s@[k]),
            i > 0 ==> prev == s@[i - 1],
            i > 0 ==> s@[0] != '.' && s@[0] != '-',
            forall|k: int|
                0 < k < i ==> !(s@[k - 1] == '.' && (#[trigger] s@[k] == '.' || s@[k] == '-')),
            forall|k: int| 0 < k < i ==> !(s@[k - 1] == '-' && #[trigger] s@[k] == '.'),
        decreases n - i,
    {
        let c: char = s.get_char(i);
        if !host_char_exec(c) {
            return false;
        }
        if i == 0 {
            if c == '.' || c == '-' {
                return false;
            }
        } else {
            if prev == '.' && (c == '.' || c == '-') {
                return false;
            }
            if prev == '-' && c == '.' {
                return false;
            }
        }
        prev = c;
        i = i + 1;
    }
    if prev == '.' || prev == '-' {
        return false;
    }
    true
}

/// Decides the coarse IPv6 literal shape for a candidate target.
pub fn is_colon_hex(s: &str) -> (r: bool)
    ensures
        r == colon_hex_shape(s@),
{
    let n: usize = s.unicode_len();
    if n < 2 || n > 45 {
        return false;
    }
    let mut seen_colon: bool = false;
    let mut i: usize = 0;
    while i < n
        invariant
            i <= n,
            n == s@.len(),
            forall|k: int|
                0 <= k < i ==> ((48 <= #[trigger] s@[k] as u32 <= 57) || (97 <= s@[k] as u32
                    <= 102) || s@[k] == ':'),
            seen_colon == exists|k: int| 0 <= k < i && s@[k] == ':',
        decreases n - i,
    {
        let c: char = s.get_char(i);
        let x: u32 = c as u32;
        if !((48 <= x && x <= 57) || (97 <= x && x <= 102) || c == ':') {
            return false;
        }
        if c == ':' {
            seen_colon = true;
            proof {
                assert(s@[i as int] == ':');
            }
        }
        i = i + 1;
    }
    seen_colon
}

/// Joins a candidate word onto an apex domain, e.g. "www" onto
/// "example.com".
pub fn subdomain_name(word: &str, apex: &str) -> (r: String)
    ensures
        r@ == word@ + seq!['.'] + apex@,
{
    proof {
        reveal_strlit(".");
    }
    let mut r: String = String::from_str(word);
    r.append(".");
    r.append(apex);
    proof {
        assert(r@ =~= word@ + seq!['.'] + apex@);
    }
    r
}

/// Decides whether a candidate target is acceptable at all.
pub fn is_valid_target(s: &str) -> (r: bool)
    ensures
        r == valid_target(s@),
{
    is_valid_hostname(s) || is_colon_hex(s)
}

} // verus!
