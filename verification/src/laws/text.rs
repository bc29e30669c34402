//! Texts, by their characters and bytes.
use crate::ipv4::{dotted, Ipv4Addr};
use crate::text::{
    before_first, bytes_le, decimal, has_substring, hex_byte, is_white_space, text_le, trim_end,
    trim_start, trimmed,
};
use vstd::prelude::*;
use vstd::utf8::encode_utf8;

verus! {

/// The number that a row of decimal digits denotes.
pub open spec fn denoted(s: Seq<char>) -> int
    decreases s.len(),
{
    if s.len() == 0 {
        0
    } else {
        denoted(s.drop_last()) * 10 + (s.last() as int - 48)
    }
}

/// A decimal numeral has digits alone, no needless zero at its head, and denotes its number.
pub proof fn decimal_numerals_denote(n: nat)
    ensures
        decimal(n).len() >= 1,
        denoted(decimal(n)) == n,
        forall|i: int| 0 <= i < decimal(n).len() ==> '0' <= #[trigger] decimal(n)[i] <= '9',
        decimal(n).len() > 1 ==> decimal(n)[0] != '0',
    decreases n,
{
    reveal_with_fuel(denoted, 2);
    if n >= 10 {
        let m = n / 10;
        decimal_numerals_denote(m);
        assert(decimal(n).drop_last() =~= decimal(m));
        if decimal(m).len() == 1 {
            assert(decimal(m).drop_last() =~= Seq::<char>::empty());
            assert(decimal(m)[0] as int - 48 == m);
        }
        assert(decimal(n)[0] == decimal(m)[0]);
    } else {
        assert(decimal(n).drop_last() =~= Seq::<char>::empty());
    }
}

/// The value of a hexadecimal digit in lower case, if it is one.
pub open spec fn hex_value(c: char) -> int {
    if '0' <= c <= '9' {
        c as int - 48
    } else if 'a' <= c <= 'f' {
        c as int - 87
    } else {
        -1000
    }
}

/// The two digits of a byte denote it.
pub proof fn hex_digits_denote(b: u8)
    ensures
        hex_byte(b).len() == 2,
        0 <= hex_value(hex_byte(b)[0]) < 16,
        0 <= hex_value(hex_byte(b)[1]) < 16,
        hex_value(hex_byte(b)[0]) * 16 + hex_value(hex_byte(b)[1]) == b,
{
}

/// The text of an address is its four numbers with dots between them.
pub proof fn addresses_have_four_numbers(ip: Ipv4Addr)
    ensures
        dotted(ip) == decimal(ip.a as nat) + seq!['.'] + decimal(ip.b as nat) + seq!['.'] + decimal(
            ip.c as nat,
        ) + seq!['.'] + decimal(ip.d as nat),
        ip.loopback() <==> ip.a == 127,
        ip.unspecified() <==> ip.a == 0 && ip.b == 0 && ip.c == 0 && ip.d == 0,
        ip.octets() == seq![ip.a, ip.b, ip.c, ip.d],
{
    assert(dotted(ip) =~= decimal(ip.a as nat) + seq!['.'] + decimal(ip.b as nat) + seq!['.']
        + decimal(ip.c as nat) + seq!['.'] + decimal(ip.d as nat));
}

/// White space, character by character.
pub proof fn white_space_is_these_characters(c: char)
    ensures
        is_white_space(c) <==> seq![
            0x09int, 0x0a, 0x0b, 0x0c, 0x0d, 0x20, 0x85, 0xa0, 0x1680, 0x2000, 0x2001, 0x2002,
            0x2003, 0x2004, 0x2005, 0x2006, 0x2007, 0x2008, 0x2009, 0x200a, 0x2028, 0x2029, 0x202f,
            0x205f, 0x3000,
        ].contains(c as int),
{
    let all = seq![
        0x09int, 0x0a, 0x0b, 0x0c, 0x0d, 0x20, 0x85, 0xa0, 0x1680, 0x2000, 0x2001, 0x2002,
        0x2003, 0x2004, 0x2005, 0x2006, 0x2007, 0x2008, 0x2009, 0x200a, 0x2028, 0x2029, 0x202f,
        0x205f, 0x3000,
    ];
    let n = c as int;
    if is_white_space(c) {
        let i = if n <= 0x0d {
            n - 9
        } else if n == 0x20 {
            5
        } else if n == 0x85 {
            6
        } else if n == 0xa0 {
            7
        } else if n == 0x1680 {
            8
        } else if n <= 0x200a {
            n - 0x2000 + 9
        } else if n == 0x2028 {
            20
        } else if n == 0x2029 {
            21
        } else if n == 0x202f {
            22
        } else if n == 0x205f {
            23
        } else {
            24
        };
        assert(all[i] == n);
    }
}

/// Whether `s` from `i` up to `j` is what is left of it without the white space at its ends.
pub open spec fn is_core(s: Seq<char>, i: int, j: int) -> bool {
    &&& 0 <= i <= j <= s.len()
    &&& forall|k: int| 0 <= k < i ==> is_white_space(#[trigger] s[k])
    &&& forall|k: int| j <= k < s.len() ==> is_white_space(#[trigger] s[k])
    &&& i < j ==> !is_white_space(s[i]) && !is_white_space(s[j - 1])
}

/// A trimmed text has lost the white space at its ends, all of it, and nothing else.
pub proof fn trimming_takes_white_space_off_the_ends(s: Seq<char>)
    ensures
        exists|i: int, j: int| #[trigger] is_core(s, i, j) && trimmed(s) == s.subrange(i, j),
{
    let i = lemma_trim_start(s);
    let t = s.skip(i);
    let n = lemma_trim_end(t);
    let j = i + n;
    assert(s.subrange(i, j) =~= t.take(n));
    assert forall|k: int| j <= k < s.len() implies is_white_space(#[trigger] s[k]) by {
        assert(t[k - i] == s[k]);
    }
    if i < j {
        assert(t[0] == s[i]);
        assert(t[n - 1] == s[j - 1]);
    }
    assert(is_core(s, i, j));
}

proof fn lemma_trim_start(s: Seq<char>) -> (i: int)
    ensures
        0 <= i <= s.len(),
        trim_start(s) == s.skip(i),
        forall|k: int| 0 <= k < i ==> is_white_space(#[trigger] s[k]),
        i < s.len() ==> !is_white_space(s[i]),
    decreases s.len(),
{
    if s.len() > 0 && is_white_space(s[0]) {
        let rest = s.drop_first();
        let j = lemma_trim_start(rest);
        assert(rest.skip(j) =~= s.skip(j + 1));
        assert forall|k: int| 0 <= k < j + 1 implies is_white_space(#[trigger] s[k]) by {
            if k > 0 {
                assert(rest[k - 1] == s[k]);
            }
        }
        if j < rest.len() {
            assert(rest[j] == s[j + 1]);
        }
        j + 1
    } else {
        assert(s.skip(0) =~= s);
        0
    }
}

proof fn lemma_trim_end(s: Seq<char>) -> (n: int)
    ensures
        0 <= n <= s.len(),
        trim_end(s) == s.take(n),
        forall|k: int| n <= k < s.len() ==> is_white_space(#[trigger] s[k]),
        n > 0 ==> !is_white_space(s[n - 1]),
    decreases s.len(),
{
    if s.len() > 0 && is_white_space(s.last()) {
        let rest = s.drop_last();
        let n = lemma_trim_end(rest);
        assert(rest.take(n) =~= s.take(n));
        assert forall|k: int| n <= k < s.len() implies is_white_space(#[trigger] s[k]) by {
            if k < rest.len() {
                assert(rest[k] == s[k]);
            }
        }
        n
    } else {
        assert(s.take(s.len() as int) =~= s);
        s.len() as int
    }
}

/// The part before a mark has no mark in it, and the text goes on with the mark or ends there.
pub proof fn the_part_before_a_mark(s: Seq<char>, c: char)
    ensures
        ({
            let r = before_first(s, c);
            &&& !r.contains(c)
            &&& r.len() <= s.len()
            &&& r == s.take(r.len() as int)
            &&& r.len() < s.len() ==> s[r.len() as int] == c
        }),
    decreases s.len(),
{
    if s.len() > 0 && s[0] != c {
        let rest = s.drop_first();
        the_part_before_a_mark(rest, c);
        let q = before_first(rest, c);
        let r = before_first(s, c);
        assert(r == seq![s[0]] + q);
        assert(r =~= s.take(r.len() as int)) by {
            assert forall|k: int| 0 <= k < r.len() implies r[k] == s[k] by {
                if k > 0 {
                    assert(r[k] == q[k - 1]);
                    assert(q[k - 1] == rest.take(q.len() as int)[k - 1]);
                }
            }
        }
        if r.contains(c) {
            let k = choose|k: int| 0 <= k < r.len() && r[k] == c;
            assert(k > 0);
            assert(q[k - 1] == c);
        }
    } else {
        assert(s.take(0) =~= Seq::<char>::empty());
    }
}

/// A text has another in it if and only if it is something, the other, and something.
pub proof fn a_substring_stands_between_two_parts(hay: Seq<char>, needle: Seq<char>)
    ensures
        has_substring(hay, needle) <==> exists|a: Seq<char>, b: Seq<char>|
            hay == #[trigger] (a + needle + b),
{
    if has_substring(hay, needle) {
        let i = choose|i: int|
            0 <= i <= hay.len() - needle.len() && #[trigger] hay.subrange(i, i + needle.len())
                == needle;
        let a = hay.take(i);
        let b = hay.skip(i + needle.len());
        assert(hay =~= a + needle + b) by {
            assert forall|k: int| 0 <= k < hay.len() implies hay[k] == (a + needle + b)[k] by {
                if i <= k < i + needle.len() {
                    assert(hay.subrange(i, i + needle.len())[k - i] == needle[k - i]);
                }
            }
        }
    }
    if exists|a: Seq<char>, b: Seq<char>| hay == #[trigger] (a + needle + b) {
        let (a, b) = choose|a: Seq<char>, b: Seq<char>| hay == #[trigger] (a + needle + b);
        let i = a.len() as int;
        assert(hay.subrange(i, i + needle.len()) =~= needle);
    }
}

/// Whether two rows of bytes agree in their first `k`, and the first row then ends or goes on with
/// the lower byte.
pub open spec fn decided_at(a: Seq<u8>, b: Seq<u8>, k: int) -> bool {
    &&& 0 <= k <= a.len()
    &&& k <= b.len()
    &&& forall|i: int| 0 <= i < k ==> #[trigger] a[i] == b[i]
    &&& k == a.len() || (k < b.len() && a[k] < b[k])
}

/// Texts are ordered by the first byte of their UTF-8 in which they differ; a text that another
/// begins with comes before it.
pub proof fn texts_are_ordered_by_their_first_difference(x: Seq<char>, y: Seq<char>)
    ensures
        text_le(x, y) <==> exists|k: int| decided_at(encode_utf8(x), encode_utf8(y), k),
{
    lemma_bytes_le(encode_utf8(x), encode_utf8(y));
}

proof fn lemma_bytes_le(a: Seq<u8>, b: Seq<u8>)
    ensures
        bytes_le(a, b) <==> exists|k: int| decided_at(a, b, k),
    decreases a.len(),
{
    if a.len() == 0 {
        assert(decided_at(a, b, 0));
    } else if b.len() > 0 && a[0] < b[0] {
        assert(decided_at(a, b, 0));
    } else if b.len() > 0 && a[0] == b[0] {
        let x = a.drop_first();
        let y = b.drop_first();
        lemma_bytes_le(x, y);
        if exists|k: int| decided_at(x, y, k) {
            let k = choose|k: int| decided_at(x, y, k);
            assert forall|i: int| 0 <= i < k + 1 implies #[trigger] a[i] == b[i] by {
                if i > 0 {
                    assert(x[i - 1] == y[i - 1]);
                }
            }
            if k < x.len() {
                assert(x[k] == a[k + 1] && y[k] == b[k + 1]);
            }
            assert(decided_at(a, b, k + 1));
        }
        if exists|k: int| decided_at(a, b, k) {
            let k = choose|k: int| decided_at(a, b, k);
            assert(k > 0);
            assert forall|i: int| 0 <= i < k - 1 implies #[trigger] x[i] == y[i] by {
                assert(a[i + 1] == b[i + 1]);
            }
            assert(decided_at(x, y, k - 1));
        }
    } else {
        assert forall|k: int| !decided_at(a, b, k) by {
            if decided_at(a, b, k) && k > 0 {
                assert(a[0] == b[0]);
            }
        }
    }
}

} // verus!
