//! Textual forms of the plain values the engine works with: decimal and
//! hexadecimal renderings of integers, dotted-quad and grouped-hex address
//! text, and character-wise string order used to rank fingerprints.

use vstd::prelude::*;

verus! {

/// The decimal digit character for one digit value.
pub open spec fn dec_digit(d: int) -> char {
    if d == 0 {
        '0'
    } else if d == 1 {
        '1'
    } else if d == 2 {
        '2'
    } else if d == 3 {
        '3'
    } else if d == 4 {
        '4'
    } else if d == 5 {
        '5'
    } else if d == 6 {
        '6'
    } else if d == 7 {
        '7'
    } else if d == 8 {
        '8'
    } else {
        '9'
    }
}

/// The lowercase hexadecimal digit character for one digit value.
pub open spec fn hex_digit(d: int) -> char {
    if d < 10 {
        dec_digit(d)
    } else if d == 10 {
        'a'
    } else if d == 11 {
        'b'
    } else if d == 12 {
        'c'
    } else if d == 13 {
        'd'
    } else if d == 14 {
        'e'
    } else {
        'f'
    }
}

/// Decimal rendering of a natural number, without leading zeros.
pub open spec fn dec_rep(n: nat) -> Seq<char>
    decreases n,
{
    if n < 10 {
        seq![dec_digit(n as int)]
    } else {
        dec_rep(n / 10).push(dec_digit((n % 10) as int))
    }
}

/// Lowercase hexadecimal rendering of a natural number, without leading
/// zeros.
pub open spec fn hex_rep(n: nat) -> Seq<char>
    decreases n,
{
    if n < 16 {
        seq![hex_digit(n as int)]
    } else {
        hex_rep(n / 16).push(hex_digit((n % 16) as int))
    }
}

/// One decimal digit as a string slice.
fn dec_digit_str(d: u64) -> (r: &'static str)
    requires
        d < 10,
    ensures
        r@ == seq![dec_digit(d as int)],
{
    let r: &'static str = match d {
        0 => "0",
        1 => "1",
        2 => "2",
        3 => "3",
        4 => "4",
        5 => "5",
        6 => "6",
        7 => "7",
        8 => "8",
        _ => "9",
    };
    proof {
        reveal_strlit("0");
        reveal_strlit("1");
        reveal_strlit("2");
        reveal_strlit("3");
        reveal_strlit("4");
        reveal_strlit("5");
        reveal_strlit("6");
        reveal_strlit("7");
        reveal_strlit("8");
        reveal_strlit("9");
        assert(r@ =~= seq![dec_digit(d as int)]);
    }
    r
}

/// One lowercase hexadecimal digit as a string slice.
fn hex_digit_str(d: u64) -> (r: &'static str)
    requires
        d < 16,
    ensures
        r@ == seq![hex_digit(d as int)],
{
    if d < 10 {
        dec_digit_str(d)
    } else {
        let r: &'static str = match d {
            10 => "a",
            11 => "b",
            12 => "c",
            13 => "d",
            14 => "e",
            _ => "f",
        };
        proof {
            reveal_strlit("a");
            reveal_strlit("b");
            reveal_strlit("c");
            reveal_strlit("d");
            reveal_strlit("e");
            reveal_strlit("f");
            assert(r@ =~= seq![hex_digit(d as int)]);
        }
        r
    }
}

/// Digit characters of a digit stack, most recently pushed first.
spec fn rev_digit_chars(ds: Seq<u64>, base: nat) -> Seq<char>
    decreases ds.len(),
{
    if ds.len() == 0 {
        Seq::<char>::empty()
    } else if base == 16 {
        seq![hex_digit(ds.last() as int)] + rev_digit_chars(ds.drop_last(), base)
    } else {
        seq![dec_digit(ds.last() as int)] + rev_digit_chars(ds.drop_last(), base)
    }
}

/// Decimal text of an integer, e.g. `10443` to `"10443"`.
pub fn u64_to_string(n: u64) -> (r: String)
    ensures
        r@ == dec_rep(n as nat),
{
    let mut digits: Vec<u64> = Vec::new();
    let mut m: u64 = n;
    while m >= 10
        invariant
            dec_rep(n as nat) == dec_rep(m as nat) + rev_digit_chars(digits@, 10),
            forall|k: int| 0 <= k < digits@.len() ==> digits@[k] < 10,
        decreases m,
    {
        let d: u64 = m % 10;
        proof {
            assert(digits@.push(d).drop_last() =~= digits@);
            assert(rev_digit_chars(digits@.push(d), 10) == seq![dec_digit(d as int)]
                + rev_digit_chars(digits@, 10));
            assert(dec_rep(m as nat) == dec_rep((m as nat) / 10) + seq![dec_digit(d as int)]) by {
                assert(dec_rep(m as nat) == dec_rep((m as nat) / 10).push(
                    dec_digit(((m as nat) % 10) as int),
                ));
                assert(dec_rep((m as nat) / 10).push(dec_digit(d as int)) =~= dec_rep(
                    (m as nat) / 10,
                ) + seq![dec_digit(d as int)]);
            }
            assert(dec_rep(n as nat) == dec_rep((m / 10) as nat) + rev_digit_chars(
                digits@.push(d),
                10,
            )) by {
                assert(dec_rep((m as nat) / 10) + (seq![dec_digit(d as int)] + rev_digit_chars(
                    digits@,
                    10,
                )) =~= (dec_rep((m as nat) / 10) + seq![dec_digit(d as int)]) + rev_digit_chars(
                    digits@,
                    10,
                ));
            }
        }
        digits.push(d);
        m = m / 10;
    }
    let mut r: String = String::from_str(dec_digit_str(m));
    proof {
        assert(r@ =~= dec_rep(m as nat));
        assert(digits@.take(digits@.len() as int) =~= digits@);
    }
    let mut i: usize = digits.len();
    while i > 0
        invariant
            i <= digits.len(),
            r@ + rev_digit_chars(digits@.take(i as int), 10) == dec_rep(n as nat),
            forall|k: int| 0 <= k < digits@.len() ==> digits@[k] < 10,
        decreases i,
    {
        i = i - 1;
        let d: u64 = digits[i];
        proof {
            let pre = digits@.take(i + 1);
            assert(pre.last() == d);
            assert(pre.drop_last() =~= digits@.take(i as int));
            assert(rev_digit_chars(pre, 10) == seq![dec_digit(d as int)] + rev_digit_chars(
                digits@.take(i as int),
                10,
            ));
            assert((r@ + seq![dec_digit(d as int)]) + rev_digit_chars(digits@.take(i as int), 10)
                =~= r@ + rev_digit_chars(pre, 10));
        }
        r.append(dec_digit_str(d));
    }
    proof {
        assert(digits@.take(0) =~= Seq::<u64>::empty());
        assert(r@ + rev_digit_chars(digits@.take(0), 10) =~= r@);
    }
    r
}

/// Lowercase hexadecimal text of an integer, e.g. `64030` to `"fa1e"`.
pub fn u64_to_hex_string(n: u64) -> (r: String)
    ensures
        r@ == hex_rep(n as nat),
{
    let mut digits: Vec<u64> = Vec::new();
    let mut m: u64 = n;
    while m >= 16
        invariant
            hex_rep(n as nat) == hex_rep(m as nat) + rev_digit_chars(digits@, 16),
            forall|k: int| 0 <= k < digits@.len() ==> digits@[k] < 16,
        decreases m,
    {
        let d: u64 = m % 16;
        proof {
            assert(digits@.push(d).drop_last() =~= digits@);
            assert(rev_digit_chars(digits@.push(d), 16) == seq![hex_digit(d as int)]
                + rev_digit_chars(digits@, 16));
            assert(hex_rep(m as nat) == hex_rep((m as nat) / 16) + seq![hex_digit(d as int)]) by {
                assert(hex_rep(m as nat) == hex_rep((m as nat) / 16).push(
                    hex_digit(((m as nat) % 16) as int),
                ));
                assert(hex_rep((m as nat) / 16).push(hex_digit(d as int)) =~= hex_rep(
                    (m as nat) / 16,
                ) + seq![hex_digit(d as int)]);
            }
            assert(hex_rep(n as nat) == hex_rep((m / 16) as nat) + rev_digit_chars(
                digits@.push(d),
                16,
            )) by {
                assert(hex_rep((m as nat) / 16) + (seq![hex_digit(d as int)] + rev_digit_chars(
                    digits@,
                    16,
                )) =~= (hex_rep((m as nat) / 16) + seq![hex_digit(d as int)]) + rev_digit_chars(
                    digits@,
                    16,
                ));
            }
        }
        digits.push(d);
        m = m / 16;
    }
    let mut r: String = String::from_str(hex_digit_str(m));
    proof {
        assert(r@ =~= hex_rep(m as nat));
        assert(digits@.take(digits@.len() as int) =~= digits@);
    }
    let mut i: usize = digits.len();
    while i > 0
        invariant
            i <= digits.len(),
            r@ + rev_digit_chars(digits@.take(i as int), 16) == hex_rep(n as nat),
            forall|k: int| 0 <= k < digits@.len() ==> digits@[k] < 16,
        decreases i,
    {
        i = i - 1;
        let d: u64 = digits[i];
        proof {
            let pre = digits@.take(i + 1);
            assert(pre.last() == d);
            assert(pre.drop_last() =~= digits@.take(i as int));
            assert(rev_digit_chars(pre, 16) == seq![hex_digit(d as int)] + rev_digit_chars(
                digits@.take(i as int),
                16,
            ));
            assert((r@ + seq![hex_digit(d as int)]) + rev_digit_chars(digits@.take(i as int), 16)
                =~= r@ + rev_digit_chars(pre, 16));
        }
        r.append(hex_digit_str(d));
    }
    proof {
        assert(digits@.take(0) =~= Seq::<u64>::empty());
        assert(r@ + rev_digit_chars(digits@.take(0), 16) =~= r@);
    }
    r
}

/// A lowercase hexadecimal digit character.
pub open spec fn is_lower_hex_char(c: char) -> bool {
    ('0' <= c <= '9') || ('a' <= c <= 'f')
}

/// Character-wise (lexicographic by code point) order on character
/// sequences: true when `a` sorts at or before `b`.
pub open spec fn lex_leq(a: Seq<char>, b: Seq<char>) -> bool
    decreases a.len(),
{
    if a.len() == 0 {
        true
    } else if b.len() == 0 {
        false
    } else if (a[0] as u32) == (b[0] as u32) {
        lex_leq(a.drop_first(), b.drop_first())
    } else {
        (a[0] as u32) < (b[0] as u32)
    }
}

/// The character-wise order relates every pair of strings one way or the
/// other.
pub proof fn lemma_lex_leq_total(a: Seq<char>, b: Seq<char>)
    ensures
        lex_leq(a, b) || lex_leq(b, a),
    decreases a.len(),
{
    if a.len() == 0 || b.len() == 0 {
    } else if (a[0] as u32) == (b[0] as u32) {
        lemma_lex_leq_total(a.drop_first(), b.drop_first());
    }
}

/// The character-wise order is transitive.
pub proof fn lemma_lex_leq_transitive(a: Seq<char>, b: Seq<char>, c: Seq<char>)
    requires
        lex_leq(a, b),
        lex_leq(b, c),
    ensures
        lex_leq(a, c),
    decreases a.len(),
{
    if a.len() == 0 || b.len() == 0 || c.len() == 0 {
    } else if (a[0] as u32) == (b[0] as u32) && (b[0] as u32) == (c[0] as u32) {
        lemma_lex_leq_transitive(a.drop_first(), b.drop_first(), c.drop_first());
    }
}

/// Decides the character-wise order between two strings.
pub fn str_lex_leq(a: &str, b: &str) -> (r: bool)
    ensures
        r == lex_leq(a@, b@),
{
    let a_len: usize = a.unicode_len();
    let b_len: usize = b.unicode_len();
    proof {
        assert(a@.skip(0) =~= a@);
        assert(b@.skip(0) =~= b@);
    }
    let mut i: usize = 0;
    while i < a_len && i < b_len
        invariant
            i <= a_len,
            i <= b_len,
            a_len == a@.len(),
            b_len == b@.len(),
            lex_leq(a@, b@) == lex_leq(a@.skip(i as int), b@.skip(i as int)),
        decreases a_len - i,
    {
        let ca: u32 = a.get_char(i) as u32;
        let cb: u32 = b.get_char(i) as u32;
        proof {
            assert(a@.skip(i as int)[0] == a@[i as int]);
            assert(b@.skip(i as int)[0] == b@[i as int]);
            assert(a@.skip(i as int).drop_first() =~= a@.skip(i + 1));
            assert(b@.skip(i as int).drop_first() =~= b@.skip(i + 1));
        }
        if ca != cb {
            return ca < cb;
        }
        i = i + 1;
    }
    proof {
        if i == a_len {
            assert(a@.skip(i as int).len() == 0);
        } else {
            assert(b@.skip(i as int).len() == 0);
            assert(a@.skip(i as int).len() > 0);
        }
    }
    i == a_len
}

/// True when `p` is an initial segment of `q`.
pub open spec fn is_prefix_of(p: Seq<char>, q: Seq<char>) -> bool {
    p.len() <= q.len() && p == q.subrange(0, p.len() as int)
}

/// Decides whether `p` is an initial segment of `q`.
pub fn str_is_prefix_of(p: &str, q: &str) -> (r: bool)
    ensures
        r == is_prefix_of(p@, q@),
{
    let p_len: usize = p.unicode_len();
    let q_len: usize = q.unicode_len();
    if p_len > q_len {
        return false;
    }
    let mut i: usize = 0;
    while i < p_len
        invariant
            i <= p_len,
            p_len == p@.len(),
            q_len == q@.len(),
            p_len <= q_len,
            forall|k: int| 0 <= k < i ==> p@[k] == q@[k],
        decreases p_len - i,
    {
        if p.get_char(i) != q.get_char(i) {
            return false;
        }
        i = i + 1;
    }
    proof {
        assert(p@ =~= q@.subrange(0, p@.len() as int));
    }
    true
}

/// Dotted-quad text of an IPv4 address value, e.g. `0x7f000001` to
/// `"127.0.0.1"`.
pub open spec fn ipv4_chars(n: u32) -> Seq<char> {
    dec_rep((n as nat) / 0x1000000 % 256) + seq!['.'] + dec_rep((n as nat) / 0x10000 % 256)
        + seq!['.'] + dec_rep((n as nat) / 0x100 % 256) + seq!['.'] + dec_rep((n as nat) % 256)
}

/// Renders an IPv4 address value as dotted-quad text.
pub fn ipv4_to_string(n: u32) -> (r: String)
    ensures
        r@ == ipv4_chars(n),
{
    proof {
        reveal_strlit(".");
    }
    let mut r: String = u64_to_string((n / 0x1000000 % 256) as u64);
    r.append(".");
    r.append(u64_to_string((n / 0x10000 % 256) as u64).as_str());
    r.append(".");
    r.append(u64_to_string((n / 0x100 % 256) as u64).as_str());
    r.append(".");
    r.append(u64_to_string((n % 256) as u64).as_str());
    proof {
        assert(r@ =~= ipv4_chars(n));
    }
    r
}

/// The `k`-th 16-bit group of an IPv6 address value, counted from the top.
pub open spec fn ipv6_group(n: u128, k: int) -> nat {
    if k == 0 {
        (n as nat) / 0x10000000000000000000000000000 % 65536
    } else if k == 1 {
        (n as nat) / 0x1000000000000000000000000 % 65536
    } else if k == 2 {
        (n as nat) / 0x100000000000000000000 % 65536
    } else if k == 3 {
        (n as nat) / 0x10000000000000000 % 65536
    } else if k == 4 {
        (n as nat) / 0x1000000000000 % 65536
    } else if k == 5 {
        (n as nat) / 0x100000000 % 65536
    } else if k == 6 {
        (n as nat) / 0x10000 % 65536
    } else {
        (n as nat) % 65536
    }
}

/// Uncompressed colon-grouped text of an IPv6 address value: eight hex
/// groups, lowercase, leading zeros of each group dropped.
pub open spec fn ipv6_chars(n: u128) -> Seq<char> {
    hex_rep(ipv6_group(n, 0)) + seq![':'] + hex_rep(ipv6_group(n, 1)) + seq![':'] + hex_rep(
        ipv6_group(n, 2),
    ) + seq![':'] + hex_rep(ipv6_group(n, 3)) + seq![':'] + hex_rep(ipv6_group(n, 4)) + seq![':']
        + hex_rep(ipv6_group(n, 5)) + seq![':'] + hex_rep(ipv6_group(n, 6)) + seq![':'] + hex_rep(
        ipv6_group(n, 7),
    )
}

/// Renders an IPv6 address value as uncompressed colon-grouped text.
pub fn ipv6_to_string(n: u128) -> (r: String)
    ensures
        r@ == ipv6_chars(n),
{
    proof {
        reveal_strlit(":");
    }
    let mut r: String = u64_to_hex_string((n / 0x10000000000000000000000000000 % 65536) as u64);
    r.append(":");
    r.append(u64_to_hex_string((n / 0x1000000000000000000000000 % 65536) as u64).as_str());
    r.append(":");
    r.append(u64_to_hex_string((n / 0x100000000000000000000 % 65536) as u64).as_str());
    r.append(":");
    r.append(u64_to_hex_string((n / 0x10000000000000000 % 65536) as u64).as_str());
    r.append(":");
    r.append(u64_to_hex_string((n / 0x1000000000000 % 65536) as u64).as_str());
    r.append(":");
    r.append(u64_to_hex_string((n / 0x100000000 % 65536) as u64).as_str());
    r.append(":");
    r.append(u64_to_hex_string((n / 0x10000 % 65536) as u64).as_str());
    r.append(":");
    r.append(u64_to_hex_string((n % 65536) as u64).as_str());
    proof {
        assert(r@ =~= ipv6_chars(n));
    }
    r
}

} // verus!
