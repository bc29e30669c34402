//! IPv4 addresses.
use crate::text::{chars_of, decimal, digit_char, push_decimal};
use vstd::prelude::*;
use vstd::string::StringExecFns;

verus! {

/// An IPv4 address, by its four octets.
#[derive(Debug, Clone, Copy, PartialEq, Eq, Hash, Structural)]
pub struct Ipv4Addr {
    pub a: u8,
    pub b: u8,
    pub c: u8,
    pub d: u8,
}

/// The dotted-decimal text of an address.
pub open spec fn dotted(ip: Ipv4Addr) -> Seq<char> {
    decimal(ip.a as nat) + seq!['.'] + decimal(ip.b as nat) + seq!['.'] + decimal(ip.c as nat)
        + seq!['.'] + decimal(ip.d as nat)
}

impl Ipv4Addr {
    /// The four octets, most significant first.
    pub open spec fn octets(self) -> Seq<u8> {
        seq![self.a, self.b, self.c, self.d]
    }

    /// Whether the address lies in `127.0.0.0/8`.
    pub open spec fn loopback(self) -> bool {
        self.a == 127
    }

    /// Whether the address is `0.0.0.0`.
    pub open spec fn unspecified(self) -> bool {
        self.a == 0 && self.b == 0 && self.c == 0 && self.d == 0
    }

    /// `a.b.c.d`.
    pub fn new(a: u8, b: u8, c: u8, d: u8) -> (r: Ipv4Addr)
        ensures
            r == (Ipv4Addr { a, b, c, d }),
    {
        Ipv4Addr { a, b, c, d }
    }

    /// Whether the address lies in `127.0.0.0/8`.
    pub fn is_loopback(self) -> (r: bool)
        ensures
            r == self.loopback(),
    {
        self.a == 127
    }

    /// Whether the address is `0.0.0.0`.
    pub fn is_unspecified(self) -> (r: bool)
        ensures
            r == self.unspecified(),
    {
        self.a == 0 && self.b == 0 && self.c == 0 && self.d == 0
    }

    /// The dotted-decimal text.
    pub fn text(self) -> (r: String)
        ensures
            r@ == dotted(self),
    {
        let mut out = String::new();
        proof {
            reveal_strlit(".");
        }
        push_decimal(&mut out, self.a as u64);
        out.append(".");
        push_decimal(&mut out, self.b as u64);
        out.append(".");
        push_decimal(&mut out, self.c as u64);
        out.append(".");
        push_decimal(&mut out, self.d as u64);
        assert("."@ =~= seq!['.']);
        assert(out@ =~= dotted(self));
        out
    }

    /// The address that `s` is the dotted-decimal text of, if there is one.
    pub fn parse(s: &str) -> (r: Option<Ipv4Addr>)
        ensures
            forall|ip: Ipv4Addr| r == Some(ip) <==> s@ == dotted(ip),
    {
        let cs = chars_of(s);
        let r = parse_chars(&cs);
        proof {
            match r {
                Some(ip) => {
                    assert forall|other: Ipv4Addr| s@ == #[trigger] dotted(other) implies other
                        == ip by {
                        text_tells_address(ip, other);
                    }
                },
                None => {},
            }
        }
        r
    }
}

/// Whether `c` is a decimal digit.
spec fn is_digit(c: char) -> bool {
    '0' <= c <= '9'
}

/// Whether the digits of `s` from `at` up to `end` are the numeral of `v` and no digit follows.
spec fn octet_at(s: Seq<char>, at: int, v: u8, end: int) -> bool {
    &&& 0 <= at <= end <= s.len()
    &&& s.subrange(at, end) == decimal(v as nat)
    &&& end < s.len() ==> !is_digit(s[end])
}

/// Where the numerals of the address stand in its text.
spec fn parts_at(s: Seq<char>, ip: Ipv4Addr, e1: int, e2: int, e3: int) -> bool {
    &&& octet_at(s, 0, ip.a, e1)
    &&& e1 < s.len() && s[e1] == '.'
    &&& octet_at(s, e1 + 1, ip.b, e2)
    &&& e2 < s.len() && s[e2] == '.'
    &&& octet_at(s, e2 + 1, ip.c, e3)
    &&& e3 < s.len() && s[e3] == '.'
    &&& octet_at(s, e3 + 1, ip.d, s.len() as int)
}

/// A numeral of a byte has one to three digits, which give its value.
proof fn lemma_byte_numeral(v: u8)
    ensures
        v < 10 ==> decimal(v as nat) == seq![digit_char(v as int)],
        10 <= v < 100 ==> decimal(v as nat) == seq![
            digit_char(v as int / 10),
            digit_char(v as int % 10),
        ],
        100 <= v ==> decimal(v as nat) == seq![
            digit_char(v as int / 100),
            digit_char(v as int / 10 % 10),
            digit_char(v as int % 10),
        ],
        forall|i: int| 0 <= i < decimal(v as nat).len() ==> is_digit(#[trigger] decimal(v as nat)[i]),
{
    reveal_with_fuel(decimal, 3);
    assert(v >= 10 ==> decimal((v / 10) as nat).len() <= 2);
    if v < 10 {
    } else if v < 100 {
        assert(decimal(v as nat) =~= seq![digit_char(v as int / 10), digit_char(v as int % 10)]);
    } else {
        assert(decimal(v as nat) =~= seq![
            digit_char(v as int / 100),
            digit_char(v as int / 10 % 10),
            digit_char(v as int % 10),
        ]);
    }
}

/// At most one numeral stands at a place.
proof fn lemma_octet_unique(s: Seq<char>, at: int, v: u8, end: int, w: u8, stop: int)
    requires
        octet_at(s, at, v, end),
        octet_at(s, at, w, stop),
    ensures
        v == w,
        end == stop,
{
    lemma_byte_numeral(v);
    lemma_byte_numeral(w);
    let x = s.subrange(at, end);
    let y = s.subrange(at, stop);
    if end < stop {
        assert(y[end - at] == s[end]);
    }
    if stop < end {
        assert(x[stop - at] == s[stop]);
    }
    assert(x == y);
    assert(forall|i: int| 0 <= i < x.len() ==> x[i] == y[i]);
    assert(x[0] == y[0]);
    if x.len() > 1 {
        assert(x[1] == y[1]);
    }
    if x.len() > 2 {
        assert(x[2] == y[2]);
    }
}

/// The text of an address consists of its four numerals, parted by dots.
proof fn lemma_dotted_parts(s: Seq<char>, ip: Ipv4Addr)
    requires
        s == dotted(ip),
    ensures
        exists|e1: int, e2: int, e3: int| parts_at(s, ip, e1, e2, e3),
{
    let a = decimal(ip.a as nat);
    let b = decimal(ip.b as nat);
    let c = decimal(ip.c as nat);
    let d = decimal(ip.d as nat);
    let e1 = a.len() as int;
    let e2 = e1 + 1 + b.len();
    let e3 = e2 + 1 + c.len();
    assert(s.subrange(0, e1) =~= a);
    assert(s.subrange(e1 + 1, e2) =~= b);
    assert(s.subrange(e2 + 1, e3) =~= c);
    assert(s.subrange(e3 + 1, s.len() as int) =~= d);
    assert(parts_at(s, ip, e1, e2, e3));
}

/// Numerals parted by dots make up the text of an address.
proof fn lemma_parts_dotted(s: Seq<char>, ip: Ipv4Addr, e1: int, e2: int, e3: int)
    requires
        parts_at(s, ip, e1, e2, e3),
    ensures
        s == dotted(ip),
{
    assert(s =~= s.subrange(0, e1) + seq!['.'] + s.subrange(e1 + 1, e2) + seq!['.'] + s.subrange(
        e2 + 1,
        e3,
    ) + seq!['.'] + s.subrange(e3 + 1, s.len() as int));
}

/// Two addresses with one text are the same.
proof fn lemma_same_octets(s: Seq<char>, x: Ipv4Addr, y: Ipv4Addr)
    requires
        exists|e1: int, e2: int, e3: int| parts_at(s, x, e1, e2, e3),
        exists|e1: int, e2: int, e3: int| parts_at(s, y, e1, e2, e3),
    ensures
        x == y,
{
    let (e1, e2, e3) = choose|e1: int, e2: int, e3: int| parts_at(s, x, e1, e2, e3);
    let (f1, f2, f3) = choose|e1: int, e2: int, e3: int| parts_at(s, y, e1, e2, e3);
    lemma_octet_unique(s, 0, x.a, e1, y.a, f1);
    lemma_octet_unique(s, e1 + 1, x.b, e2, y.b, f2);
    lemma_octet_unique(s, e2 + 1, x.c, e3, y.c, f3);
    lemma_octet_unique(s, e3 + 1, x.d, s.len() as int, y.d, s.len() as int);
}

/// An address is told by its text.
pub proof fn text_tells_address(x: Ipv4Addr, y: Ipv4Addr)
    requires
        dotted(x) == dotted(y),
    ensures
        x == y,
{
    lemma_dotted_parts(dotted(x), x);
    lemma_dotted_parts(dotted(x), y);
    lemma_same_octets(dotted(x), x, y);
}

/// The value of a decimal digit.
fn digit_value(c: char) -> (r: Option<u32>)
    ensures
        r matches Some(v) ==> v < 10 && c == digit_char(v as int) && is_digit(c),
        r is None ==> !is_digit(c),
{
    if '0' <= c && c <= '9' {
        Some(c as u32 - 48)
    } else {
        None
    }
}

/// Reads the numeral of a byte at `at`.
fn parse_octet(cs: &Vec<char>, at: usize) -> (r: Option<(u8, usize)>)
    requires
        at <= cs.len(),
    ensures
        r matches Some((v, end)) ==> octet_at(cs@, at as int, v, end as int),
        r is None ==> forall|v: u8, end: int| !octet_at(cs@, at as int, v, end),
{
    let mut value: u32 = 0;
    let mut i: usize = at;
    while i < cs.len()
        invariant
            at <= i <= cs.len(),
            i <= at + 3,
            forall|k: int| at <= k < i ==> is_digit(#[trigger] cs@[k]),
            i == at ==> value == 0,
            i == at + 1 ==> value < 10 && cs@[at as int] == digit_char(value as int),
            i == at + 2 ==> 10 <= value < 100 && cs@[at as int] == digit_char(value as int / 10)
                && cs@[at + 1] == digit_char(value as int % 10),
            i == at + 3 ==> 100 <= value < 1000 && cs@[at as int] == digit_char(value as int / 100)
                && cs@[at + 1] == digit_char(value as int / 10 % 10) && cs@[at + 2] == digit_char(
                value as int % 10,
            ),
        ensures
            at <= i <= cs.len(),
            i <= at + 3,
            i < cs.len() ==> !is_digit(cs@[i as int]),
            forall|k: int| at <= k < i ==> is_digit(#[trigger] cs@[k]),
            i == at ==> value == 0,
            i == at + 1 ==> value < 10 && cs@[at as int] == digit_char(value as int),
            i == at + 2 ==> 10 <= value < 100 && cs@[at as int] == digit_char(value as int / 10)
                && cs@[at + 1] == digit_char(value as int % 10),
            i == at + 3 ==> 100 <= value < 1000 && cs@[at as int] == digit_char(value as int / 100)
                && cs@[at + 1] == digit_char(value as int / 10 % 10) && cs@[at + 2] == digit_char(
                value as int % 10,
            ),
        decreases cs.len() - i,
    {
        match digit_value(cs[i]) {
            None => {
                break;
            },
            Some(v) => {
                if i - at == 3 || (i > at && value == 0) {
                    proof {
                        assert forall|w: u8, end: int| !octet_at(cs@, at as int, w, end) by {
                            if octet_at(cs@, at as int, w, end) {
                                lemma_byte_numeral(w);
                                let x = cs@.subrange(at as int, end);
                                assert(end > i) by {
                                    if end <= i {
                                        assert(is_digit(cs@[end]));
                                    }
                                }
                                assert(x.len() == end - at);
                                assert(x[0] == cs@[at as int]);
                                if i - at == 3 {
                                    assert(x.len() > 3);
                                } else {
                                    assert(i == at + 1 && x.len() >= 2);
                                    assert(x[0] == digit_char(0));
                                    assert(x[0] == digit_char(if w < 100 { w as int / 10 } else { w as int / 100 }));
                                }
                            }
                        }
                    }
                    return None;
                }
                value = value * 10 + v;
                i = i + 1;
            },
        }
    }
    if i == at || value > 255 {
        proof {
            assert forall|w: u8, end: int| !octet_at(cs@, at as int, w, end) by {
                if octet_at(cs@, at as int, w, end) {
                    lemma_byte_numeral(w);
                    let x = cs@.subrange(at as int, end);
                    assert(x.len() > 0);
                    assert(x[0] == cs@[at as int]);
                    assert(end == i) by {
                        if end < i {
                            assert(is_digit(cs@[end]));
                        }
                        if end > i {
                            assert(x[i - at] == cs@[i as int]);
                        }
                    }
                    assert(x[1] == cs@[at + 1]);
                    assert(x[2] == cs@[at + 2]);
                }
            }
        }
        return None;
    }
    proof {
        lemma_byte_numeral(value as u8);
        assert(cs@.subrange(at as int, i as int) =~= decimal(value as nat));
    }
    Some((value as u8, i))
}

/// Reads the numeral of a byte at `at` and the dot behind it; gives the place of the dot.
fn parse_octet_dot(cs: &Vec<char>, at: usize) -> (r: Option<(u8, usize)>)
    requires
        at <= cs.len(),
    ensures
        r matches Some((v, end)) ==> octet_at(cs@, at as int, v, end as int) && end < cs.len()
            && cs@[end as int] == '.',
        r is None ==> forall|v: u8, end: int|
            !(octet_at(cs@, at as int, v, end) && end < cs.len() && cs@[end] == '.'),
{
    match parse_octet(cs, at) {
        None => None,
        Some((v, end)) => {
            if end < cs.len() && cs[end] == '.' {
                Some((v, end))
            } else {
                proof {
                    assert forall|w: u8, stop: int|
                        !(octet_at(cs@, at as int, w, stop) && stop < cs.len() && cs@[stop]
                            == '.') by {
                        if octet_at(cs@, at as int, w, stop) {
                            lemma_octet_unique(cs@, at as int, v, end as int, w, stop);
                        }
                    }
                }
                None
            }
        },
    }
}

/// Reads a dotted-decimal address.
fn parse_chars(cs: &Vec<char>) -> (r: Option<Ipv4Addr>)
    ensures
        r matches Some(ip) ==> cs@ == dotted(ip),
        r is None ==> forall|ip: Ipv4Addr| cs@ != #[trigger] dotted(ip),
{
    let ghost s = cs@;
    proof {
        assert forall|ip: Ipv4Addr| s == #[trigger] dotted(ip) implies exists|
            e1: int,
            e2: int,
            e3: int,
        | parts_at(s, ip, e1, e2, e3) by {
            lemma_dotted_parts(s, ip);
        }
    }
    let (a, e1) = match parse_octet_dot(cs, 0) {
        None => {
            return None;
        },
        Some(x) => x,
    };
    proof {
        assert forall|ip: Ipv4Addr, f1: int, f2: int, f3: int|
            #[trigger] parts_at(s, ip, f1, f2, f3) implies f1 == e1 && ip.a == a by {
            lemma_octet_unique(s, 0, a, e1 as int, ip.a, f1);
        }
    }
    let (b, e2) = match parse_octet_dot(cs, e1 + 1) {
        None => {
            return None;
        },
        Some(x) => x,
    };
    proof {
        assert forall|ip: Ipv4Addr, f1: int, f2: int, f3: int|
            #[trigger] parts_at(s, ip, f1, f2, f3) implies f2 == e2 && ip.b == b by {
            lemma_octet_unique(s, e1 + 1, b, e2 as int, ip.b, f2);
        }
    }
    let (c, e3) = match parse_octet_dot(cs, e2 + 1) {
        None => {
            return None;
        },
        Some(x) => x,
    };
    proof {
        assert forall|ip: Ipv4Addr, f1: int, f2: int, f3: int|
            #[trigger] parts_at(s, ip, f1, f2, f3) implies f3 == e3 && ip.c == c by {
            lemma_octet_unique(s, e2 + 1, c, e3 as int, ip.c, f3);
        }
    }
    match parse_octet(cs, e3 + 1) {
        None => None,
        Some((d, end)) => {
            if end == cs.len() {
                proof {
                    lemma_parts_dotted(s, Ipv4Addr { a, b, c, d }, e1 as int, e2 as int, e3 as int);
                }
                Some(Ipv4Addr { a, b, c, d })
            } else {
                proof {
                    assert forall|ip: Ipv4Addr, f1: int, f2: int, f3: int|
                        !(#[trigger] parts_at(s, ip, f1, f2, f3)) by {
                        if parts_at(s, ip, f1, f2, f3) {
                            lemma_octet_unique(s, e3 + 1, d, end as int, ip.d, s.len() as int);
                        }
                    }
                }
                None
            }
        },
    }
}

} // verus!
