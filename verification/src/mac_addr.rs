//! MAC addresses: a 48-bit value with parsing and formatting.
//!
//! The textual form is six colon-separated parts, each a hexadecimal byte.
//! Parsing follows the native integer parser for each part: upper and lower
//! case digits, an optional leading sign (a minus only for a zero value),
//! and rejection of empty parts and of values over one byte.

use vstd::prelude::*;
use vstd::string::StrSliceExecFns;
use vstd::string::StringExecFns;

verus! {

/// Error returned for a string that is not a well-formed MAC address.
#[derive(Clone, Copy, Debug, PartialEq, Eq, Structural)]
pub struct AddrParseError;

/// Number of octets in a MAC address.
pub const ETHER_ADDR_LEN: usize = 6;

/// A 48-bit (6 byte) MAC address.
#[derive(Clone, Copy, Debug, PartialEq, Eq, Hash)]
pub struct MacAddr([u8; 6]);

impl View for MacAddr {
    type V = Seq<u8>;

    closed spec fn view(&self) -> Seq<u8> {
        self.0@
    }
}

impl MacAddr {
    /// The address a:b:c:d:e:f.
    pub fn new(a: u8, b: u8, c: u8, d: u8, e: u8, f: u8) -> (r: MacAddr)
        ensures
            r@ == seq![a, b, c, d, e, f],
    {
        let r = MacAddr([a, b, c, d, e, f]);
        proof {
            assert(r@ =~= seq![a, b, c, d, e, f]);
        }
        r
    }

    /// The six octets of this address.
    pub fn octets(&self) -> (r: [u8; 6])
        ensures
            r@ == self@,
    {
        self.0
    }

    /// An address from a byte string, which must hold exactly six bytes.
    pub fn from_bytes(b: &[u8]) -> (r: Result<MacAddr, AddrParseError>)
        ensures
            r is Ok <==> b@.len() == 6,
            r is Ok ==> r->Ok_0@ == b@,
    {
        if b.len() == 6 {
            let r = MacAddr([b[0], b[1], b[2], b[3], b[4], b[5]]);
            proof {
                assert(r@ =~= b@);
            }
            Ok(r)
        } else {
            Err(AddrParseError)
        }
    }

    /// The all-zero address.
    pub fn zeroed() -> (r: MacAddr)
        ensures
            r@ == seq![0u8, 0u8, 0u8, 0u8, 0u8, 0u8],
    {
        MacAddr::new(0, 0, 0, 0, 0, 0)
    }

    /// Whether every octet is zero.
    pub fn is_zero(&self) -> (r: bool)
        ensures
            r <==> (forall|i: int| 0 <= i < 6 ==> self@[i] == 0),
    {
        let z = self.0[0] == 0 && self.0[1] == 0 && self.0[2] == 0 && self.0[3] == 0
            && self.0[4] == 0 && self.0[5] == 0;
        proof {
            if z {
                assert forall|i: int| 0 <= i < 6 implies self@[i] == 0 by {}
            } else {
                if self.0@[0] != 0 {
                    assert(self@[0] != 0);
                } else if self.0@[1] != 0 {
                    assert(self@[1] != 0);
                } else if self.0@[2] != 0 {
                    assert(self@[2] != 0);
                } else if self.0@[3] != 0 {
                    assert(self@[3] != 0);
                } else if self.0@[4] != 0 {
                    assert(self@[4] != 0);
                } else {
                    assert(self@[5] != 0);
                }
            }
        }
        z
    }
}

/// Whether a character is a hexadecimal digit, either case.
pub open spec fn is_hex_digit(c: char) -> bool {
    (48 <= c as u32 && c as u32 <= 57) || (97 <= c as u32 && c as u32 <= 102) || (65 <= c as u32
        && c as u32 <= 70)
}

/// The value of a hexadecimal digit character.
pub open spec fn hex_val(c: char) -> u32 {
    if 48 <= c as u32 && c as u32 <= 57 {
        (c as u32 - 48) as u32
    } else if 97 <= c as u32 && c as u32 <= 102 {
        (c as u32 - 87) as u32
    } else {
        (c as u32 - 55) as u32
    }
}

/// Whether every character is a hexadecimal digit.
pub open spec fn all_hex_digits(s: Seq<char>) -> bool {
    forall|i: int| 0 <= i < s.len() ==> is_hex_digit(#[trigger] s[i])
}

/// The value of a string of hexadecimal digits, most significant first.
pub open spec fn hex_digits_value(s: Seq<char>) -> nat
    decreases s.len(),
{
    if s.len() == 0 {
        0
    } else {
        (hex_digits_value(s.drop_last()) * 16 + hex_val(s.last())) as nat
    }
}

/// The value of one colon-separated part, parsed as the native integer
/// parser does for a byte in base sixteen: an optional sign (a minus only
/// for value zero), then at least one hexadecimal digit, with the value at
/// most one byte.  `None` if the part has any other shape.
pub open spec fn spec_parse_octet(p: Seq<char>) -> Option<u8> {
    let signed = p.len() > 0 && (p[0] == '+' || p[0] == '-');
    let body = if signed {
        p.skip(1)
    } else {
        p
    };
    if body.len() > 0 && all_hex_digits(body) && hex_digits_value(body) <= 255 && (!(signed && p[0]
        == '-') || hex_digits_value(body) == 0) {
        Some(hex_digits_value(body) as u8)
    } else {
        None
    }
}

/// The colon-separated parts of a string: one more part than there are
/// colons, in order, each without colons.
pub open spec fn colon_split(s: Seq<char>) -> Seq<Seq<char>>
    decreases s.len(),
{
    if s.len() == 0 {
        seq![s]
    } else if s[0] == ':' {
        seq![s.take(0)] + colon_split(s.skip(1))
    } else {
        let rest = colon_split(s.skip(1));
        rest.update(0, seq![s[0]] + rest[0])
    }
}

/// A split always has at least one part.
pub proof fn lemma_colon_split_len(s: Seq<char>)
    ensures
        colon_split(s).len() >= 1,
    decreases s.len(),
{
    if s.len() > 0 {
        lemma_colon_split_len(s.skip(1));
    }
}

/// Splitting at the first boundary: when no colon appears before `i`, the
/// split is the prefix up to `i` followed by the split of what comes after
/// the colon at `i`; with no colon at all the string is its own single
/// part.
pub proof fn lemma_colon_split_boundary(s: Seq<char>, i: int)
    requires
        0 <= i <= s.len(),
        forall|k: int| 0 <= k < i ==> s[k] != ':',
        i < s.len() ==> s[i] == ':',
    ensures
        i < s.len() ==> colon_split(s) == seq![s.take(i)] + colon_split(s.skip(i + 1)),
        i == s.len() ==> colon_split(s) == seq![s],
    decreases s.len(),
{
    lemma_colon_split_len(s);
    if i == 0 {
        if 0 < s.len() {
            assert(s.take(0) =~= s.skip(1).take(0));
        } else {
        }
    } else {
        let t = s.skip(1);
        lemma_colon_split_len(t);
        assert(forall|k: int| 0 <= k < t.len() ==> t[k] == s[k + 1]);
        lemma_colon_split_boundary(t, i - 1);
        let rest = colon_split(t);
        if i < s.len() {
            assert(rest == seq![t.take(i - 1)] + colon_split(t.skip(i)));
            assert(seq![s[0]] + t.take(i - 1) =~= s.take(i));
            assert(t.skip(i) =~= s.skip(i + 1));
            assert(colon_split(s) == rest.update(0, seq![s[0]] + rest[0]));
            assert(rest[0] == t.take(i - 1));
            assert(rest.update(0, s.take(i)) =~= seq![s.take(i)] + colon_split(t.skip(i)));
            assert(colon_split(s) == seq![s.take(i)] + colon_split(s.skip(i + 1)));
        } else {
            assert(rest == seq![t]);
            assert(seq![s[0]] + t =~= s);
            assert(colon_split(s) == rest.update(0, seq![s[0]] + rest[0]));
            assert(rest.update(0, s) =~= seq![s]);
        }
    }
}

/// The six octets of a well-formed MAC address string: exactly six
/// colon-separated parts, each a well-formed octet.  `None` otherwise.
pub open spec fn spec_parse_mac(s: Seq<char>) -> Option<Seq<u8>> {
    let parts = colon_split(s);
    if parts.len() == 6 && (forall|k: int|
        0 <= k < 6 ==> (#[trigger] spec_parse_octet(parts[k])) is Some) {
        Some(Seq::new(6, |k: int| spec_parse_octet(parts[k])->0))
    } else {
        None
    }
}

/// Parses the characters `[start, end)` of `s` as one octet part.
#[verifier::loop_isolation(false)]
fn parse_octet(s: &str, start: usize, end: usize) -> (r: Option<u8>)
    requires
        start <= end <= s@.len(),
    ensures
        r == spec_parse_octet(s@.subrange(start as int, end as int)),
{
    let ghost p = s@.subrange(start as int, end as int);
    if start == end {
        return None;
    }
    let c0 = s.get_char(start);
    proof {
        assert(p[0] == s@[start as int]);
        assert(p.len() == end - start);
    }
    let neg = c0 == '-';
    let signed = c0 == '+' || c0 == '-';
    let body_start = if signed {
        start + 1
    } else {
        start
    };
    let ghost body = s@.subrange(body_start as int, end as int);
    proof {
        if signed {
            assert(body =~= p.skip(1));
        } else {
            assert(body =~= p);
        }
    }
    if body_start == end {
        return None;
    }
    let mut acc: u32 = 0;
    let mut over = false;
    let mut j = body_start;
    while j < end
        invariant
            start <= body_start <= j <= end <= s@.len(),
            body == s@.subrange(body_start as int, end as int),
            all_hex_digits(s@.subrange(body_start as int, j as int)),
            !over ==> acc == hex_digits_value(s@.subrange(body_start as int, j as int)) && acc
                <= 255,
            over ==> hex_digits_value(s@.subrange(body_start as int, j as int)) > 255,
        decreases end - j,
    {
        let c = s.get_char(j);
        let n = c as u32;
        let ghost bpre = s@.subrange(body_start as int, j as int);
        let ghost bnext = s@.subrange(body_start as int, j + 1);
        proof {
            assert(bnext.drop_last() =~= bpre);
            assert(bnext.last() == s@[j as int]);
        }
        if !((48 <= n && n <= 57) || (97 <= n && n <= 102) || (65 <= n && n <= 70)) {
            proof {
                assert(body[j - body_start] == s@[j as int]);
                assert(!all_hex_digits(body));
            }
            return None;
        }
        let d = if n <= 57 {
            n - 48
        } else if n >= 97 {
            n - 87
        } else {
            n - 55
        };
        proof {
            assert(d == hex_val(s@[j as int]));
        }
        if !over {
            let acc2 = acc * 16 + d;
            proof {
                assert(hex_digits_value(bnext) == hex_digits_value(bpre) * 16 + hex_val(
                    s@[j as int],
                ));
            }
            if acc2 > 255 {
                over = true;
            } else {
                acc = acc2;
            }
        } else {
            proof {
                assert(hex_digits_value(bnext) == hex_digits_value(bpre) * 16 + hex_val(
                    s@[j as int],
                ));
            }
        }
        j = j + 1;
    }
    proof {
        assert(s@.subrange(body_start as int, j as int) == body);
    }
    if over {
        return None;
    }
    if neg && acc != 0 {
        return None;
    }
    Some(acc as u8)
}

impl MacAddr {
    /// Parses the textual form: six colon-separated parts, each one
    /// hexadecimal byte.  Returns the parse error for any other shape.
    #[verifier::loop_isolation(false)]
    pub fn from_str(s: &str) -> (r: Result<MacAddr, AddrParseError>)
        ensures
            r is Ok <==> spec_parse_mac(s@) is Some,
            r is Ok ==> Some(r->Ok_0@) == spec_parse_mac(s@),
            r is Err ==> r == Err::<MacAddr, AddrParseError>(AddrParseError),
    {
        let n = s.unicode_len();
        let mut bytes: Vec<u8> = Vec::new();
        let ghost mut done: Seq<Seq<char>> = Seq::empty();
        let mut start: usize = 0;
        let mut i: usize = 0;
        proof {
            assert(s@.skip(0) =~= s@);
            assert(colon_split(s@) =~~= done + colon_split(s@.skip(0)));
        }
        while i < n
            invariant
                start <= i <= n,
                colon_split(s@) == done + colon_split(s@.skip(start as int)),
                bytes@.len() == done.len(),
                forall|k: int|
                    0 <= k < done.len() ==> (#[trigger] spec_parse_octet(done[k])) == Some(
                        bytes@[k],
                    ),
                forall|k: int| start <= k < i ==> s@[k] != ':',
            decreases n - i,
        {
            let c = s.get_char(i);
            if c == ':' {
                proof {
                    assert(forall|k: int|
                        0 <= k < s@.skip(start as int).len() ==> s@.skip(start as int)[k] == s@[k
                            + start]);
                    lemma_colon_split_boundary(s@.skip(start as int), i - start);
                    assert(s@.skip(start as int).take(i - start) =~= s@.subrange(
                        start as int,
                        i as int,
                    ));
                    assert(s@.skip(start as int).skip(i - start + 1) =~= s@.skip(i + 1));
                }
                match parse_octet(s, start, i) {
                    None => {
                        proof {
                            let parts = colon_split(s@);
                            lemma_colon_split_len(s@.skip(i + 1));
                            assert(parts[done.len() as int] == s@.subrange(
                                start as int,
                                i as int,
                            ));
                            assert(spec_parse_octet(parts[done.len() as int]) is None);
                        }
                        return Err(AddrParseError);
                    },
                    Some(v) => {
                        bytes.push(v);
                        proof {
                            done = done.push(s@.subrange(start as int, i as int));
                            assert(colon_split(s@) =~~= done + colon_split(s@.skip(i + 1)));
                        }
                        start = i + 1;
                    },
                }
            }
            i = i + 1;
        }
        proof {
            assert(forall|k: int|
                0 <= k < s@.skip(start as int).len() ==> s@.skip(start as int)[k] == s@[k
                    + start]);
            lemma_colon_split_boundary(s@.skip(start as int), n - start);
            assert(s@.skip(start as int) =~= s@.subrange(start as int, n as int));
            assert(colon_split(s@) =~~= done.push(s@.subrange(start as int, n as int)));
        }
        match parse_octet(s, start, n) {
            None => {
                proof {
                    let parts = colon_split(s@);
                    assert(parts[done.len() as int] == s@.subrange(start as int, n as int));
                    assert(spec_parse_octet(parts[done.len() as int]) is None);
                }
                return Err(AddrParseError);
            },
            Some(v) => {
                bytes.push(v);
                proof {
                    done = done.push(s@.subrange(start as int, n as int));
                }
            },
        }
        proof {
            assert(colon_split(s@) == done);
        }
        if bytes.len() == 6 {
            let m = MacAddr([bytes[0], bytes[1], bytes[2], bytes[3], bytes[4], bytes[5]]);
            proof {
                assert(m@ =~= bytes@);
                let parts = colon_split(s@);
                assert(forall|k: int|
                    0 <= k < 6 ==> (#[trigger] spec_parse_octet(parts[k])) == Some(bytes@[k]));
                assert(spec_parse_mac(s@) == Some(Seq::new(6, |k: int|
                    spec_parse_octet(parts[k])->0)));
                assert(Seq::new(6, |k: int| spec_parse_octet(parts[k])->0) =~= m@);
            }
            Ok(m)
        } else {
            proof {
                assert(colon_split(s@).len() != 6);
            }
            Err(AddrParseError)
        }
    }
}

/// The hexadecimal digit character for a value below sixteen, in lower
/// case.
pub open spec fn hex_char_of(n: u8) -> char {
    if n == 0 {
        '0'
    } else if n == 1 {
        '1'
    } else if n == 2 {
        '2'
    } else if n == 3 {
        '3'
    } else if n == 4 {
        '4'
    } else if n == 5 {
        '5'
    } else if n == 6 {
        '6'
    } else if n == 7 {
        '7'
    } else if n == 8 {
        '8'
    } else if n == 9 {
        '9'
    } else if n == 10 {
        'a'
    } else if n == 11 {
        'b'
    } else if n == 12 {
        'c'
    } else if n == 13 {
        'd'
    } else if n == 14 {
        'e'
    } else {
        'f'
    }
}

/// The two lower-case hexadecimal digits of one byte.
pub open spec fn byte_hex(b: u8) -> Seq<char> {
    seq![hex_char_of(b / 16), hex_char_of(b % 16)]
}

/// The textual form of a six-byte address: colon-separated two-digit
/// lower-case hexadecimal octets.
pub open spec fn mac_chars(bytes: Seq<u8>) -> Seq<char> {
    byte_hex(bytes[0]) + seq![':'] + byte_hex(bytes[1]) + seq![':'] + byte_hex(bytes[2])
        + seq![':'] + byte_hex(bytes[3]) + seq![':'] + byte_hex(bytes[4]) + seq![':'] + byte_hex(
        bytes[5],
    )
}

/// The two digits of one formatted octet are one well-formed part: they
/// are hexadecimal digits (never a colon or a sign) and parse back to the
/// octet.
proof fn lemma_parse_byte_hex(b: u8)
    ensures
        byte_hex(b).len() == 2,
        byte_hex(b)[0] != ':',
        byte_hex(b)[1] != ':',
        spec_parse_octet(byte_hex(b)) == Some(b),
{
    let hi = b / 16;
    let lo = b % 16;
    assert(hi < 16 && lo < 16);
    assert(is_hex_digit(hex_char_of(hi)) && hex_val(hex_char_of(hi)) == hi);
    assert(is_hex_digit(hex_char_of(lo)) && hex_val(hex_char_of(lo)) == lo);
    let p = byte_hex(b);
    assert(p.drop_last() =~= seq![hex_char_of(hi)]);
    assert(seq![hex_char_of(hi)].drop_last() =~= Seq::<char>::empty());
    assert(p.last() == hex_char_of(lo));
    assert(hex_digits_value(p) == hi * 16 + lo) by {
        reveal_with_fuel(hex_digits_value, 3);
    }
    assert(hi * 16 + lo == b) by {
        vstd::arithmetic::div_mod::lemma_fundamental_div_mod(b as int, 16);
    }
    assert(all_hex_digits(p));
}

/// Splitting off one two-digit part followed by a colon.
proof fn lemma_split_part(p: Seq<char>, rest: Seq<char>)
    requires
        p.len() == 2,
        p[0] != ':',
        p[1] != ':',
    ensures
        colon_split(p + seq![':'] + rest) == seq![p] + colon_split(rest),
        colon_split(p) == seq![p],
{
    let s = p + seq![':'] + rest;
    assert(s[0] == p[0]);
    assert(s[1] == p[1]);
    assert(s[2] == ':');
    lemma_colon_split_boundary(s, 2);
    assert(s.take(2) =~= p);
    assert(s.skip(3) =~= rest);
    lemma_colon_split_boundary(p, 2);
}

/// Formatting and parsing cohere: the textual form of any six octets
/// parses back to exactly those octets.
pub proof fn lemma_mac_round_trip(bytes: Seq<u8>)
    requires
        bytes.len() == 6,
    ensures
        spec_parse_mac(mac_chars(bytes)) == Some(bytes),
{
    let b0 = byte_hex(bytes[0]);
    let b1 = byte_hex(bytes[1]);
    let b2 = byte_hex(bytes[2]);
    let b3 = byte_hex(bytes[3]);
    let b4 = byte_hex(bytes[4]);
    let b5 = byte_hex(bytes[5]);
    lemma_parse_byte_hex(bytes[0]);
    lemma_parse_byte_hex(bytes[1]);
    lemma_parse_byte_hex(bytes[2]);
    lemma_parse_byte_hex(bytes[3]);
    lemma_parse_byte_hex(bytes[4]);
    lemma_parse_byte_hex(bytes[5]);
    let t4 = b4 + seq![':'] + b5;
    let t3 = b3 + seq![':'] + t4;
    let t2 = b2 + seq![':'] + t3;
    let t1 = b1 + seq![':'] + t2;
    let t0 = b0 + seq![':'] + t1;
    assert(mac_chars(bytes) =~= t0);
    lemma_split_part(b0, t1);
    lemma_split_part(b1, t2);
    lemma_split_part(b2, t3);
    lemma_split_part(b3, t4);
    lemma_split_part(b4, b5);
    lemma_split_part(b5, b5);
    let parts = colon_split(mac_chars(bytes));
    assert(parts =~~= seq![b0, b1, b2, b3, b4, b5]);
    assert(forall|k: int|
        0 <= k < 6 ==> (#[trigger] spec_parse_octet(parts[k])) == Some(bytes[k]));
    assert(Seq::new(6, |k: int| spec_parse_octet(parts[k])->0) =~= bytes);
}

/// The one-character string for a hexadecimal digit value.
pub(crate) fn hex_str(n: u8) -> (r: &'static str)
    requires
        n < 16,
    ensures
        r@ == seq![hex_char_of(n)],
{
    proof {
        reveal_strlit("0");
        reveal_strlit("1");
        reveal_strlit("2");
        reveal_strlit("3");
        reveal_strlit("4");
        reveal_strlit("5");
        reveal_strlit("6");
        reveal_strlit("7");
        reveal_strlit("8");
        reveal_strlit("9");
        reveal_strlit("a");
        reveal_strlit("b");
        reveal_strlit("c");
        reveal_strlit("d");
        reveal_strlit("e");
        reveal_strlit("f");
    }
    match n {
        0 => "0",
        1 => "1",
        2 => "2",
        3 => "3",
        4 => "4",
        5 => "5",
        6 => "6",
        7 => "7",
        8 => "8",
        9 => "9",
        10 => "a",
        11 => "b",
        12 => "c",
        13 => "d",
        14 => "e",
        _ => "f",
    }
}

impl MacAddr {
    /// Appends one octet as two lower-case hexadecimal digits.
    fn push_octet(out: &mut String, b: u8)
        ensures
            final(out)@ == old(out)@ + byte_hex(b),
    {
        out.append(hex_str(b / 16));
        out.append(hex_str(b % 16));
        proof {
            assert(out@ =~= old(out)@ + byte_hex(b));
        }
    }

    /// The textual form of this address: six colon-separated two-digit
    /// lower-case hexadecimal octets.
    pub fn to_string(&self) -> (s: String)
        ensures
            s@ == mac_chars(self@),
    {
        proof {
            reveal_strlit("");
            reveal_strlit(":");
        }
        let mut out = String::from_str("");
        Self::push_octet(&mut out, self.0[0]);
        out.append(":");
        Self::push_octet(&mut out, self.0[1]);
        out.append(":");
        Self::push_octet(&mut out, self.0[2]);
        out.append(":");
        Self::push_octet(&mut out, self.0[3]);
        out.append(":");
        Self::push_octet(&mut out, self.0[4]);
        out.append(":");
        Self::push_octet(&mut out, self.0[5]);
        proof {
            assert(out@ =~= mac_chars(self@));
        }
        out
    }
}

/// The address holding the given octets: what `MacAddr::from` returns.
pub closed spec fn from_octets(octets: [u8; 6]) -> MacAddr {
    MacAddr(octets)
}

/// `MacAddr::from` keeps the octets as they are.
pub proof fn lemma_from_octets(octets: [u8; 6])
    ensures
        from_octets(octets)@ == octets@,
{
}

impl From<[u8; 6]> for MacAddr {
    /// An address from its six octets.
    fn from(octets: [u8; 6]) -> (r: MacAddr) {
        MacAddr(octets)
    }
}

impl vstd::std_specs::convert::FromSpecImpl<[u8; 6]> for MacAddr {
    open spec fn obeys_from_spec() -> bool {
        true
    }

    open spec fn from_spec(octets: [u8; 6]) -> MacAddr {
        from_octets(octets)
    }
}

} // verus!
