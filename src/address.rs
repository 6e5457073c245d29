//! Resolution of `host[\instance][,port]` server addresses.

use vstd::prelude::*;
use vstd::std_specs::iter::IteratorSpec;
use vstd::string::StringSliceAdditionalSpecFns;
use vstd::utf8::*;

verus! {


/// Whether `c` carries the Unicode `White_Space` property, the set that
/// `str::trim` strips.
pub open spec fn is_space(c: char) -> bool {
    let u = c as u32;
    (0x9 <= u && u <= 0xd) || u == 0x20 || u == 0x85 || u == 0xa0 || u == 0x1680 || (0x2000 <= u
        && u <= 0x200a) || u == 0x2028 || u == 0x2029 || u == 0x202f || u == 0x205f || u == 0x3000
}

fn char_is_space(c: char) -> (r: bool)
    ensures
        r == is_space(c),
{
    let u = c as u32;
    (0x9 <= u && u <= 0xd) || u == 0x20 || u == 0x85 || u == 0xa0 || u == 0x1680 || (0x2000 <= u
        && u <= 0x200a) || u == 0x2028 || u == 0x2029 || u == 0x202f || u == 0x205f || u == 0x3000
}

/// The characters of `s`, in order.
fn chars_of(s: &str) -> (r: Vec<char>)
    ensures
        r@ == s@,
{
    broadcast use {vstd::string::axiom_spec_iter, vstd::string::next_postcondition};

    let mut it = s.chars();
    let mut v: Vec<char> = Vec::new();
    loop
        invariant
            it.remaining() == s@.skip(v@.len() as int),
            v@ == s@.take(v@.len() as int),
            v@.len() <= s@.len(),
        decreases s@.len() - v@.len(),
    {
        match it.next() {
            Some(c) => {
                assert(s@.skip(v@.len() as int).drop_first() =~= s@.skip(v@.len() + 1 as int));
                v.push(c);
                assert(v@ =~= s@.take(v@.len() as int));
            },
            None => {
                assert(v@ =~= s@);
                return v;
            },
        }
    }
}


/// `t` with leading and trailing white space removed.
pub open spec fn trim_space(t: Seq<char>) -> Seq<char> {
    drop_trailing_space(skip_space(t))
}

pub open spec fn skip_space(t: Seq<char>) -> Seq<char>
    decreases t.len(),
{
    if t.len() > 0 && is_space(t[0]) {
        skip_space(t.drop_first())
    } else {
        t
    }
}

pub open spec fn drop_trailing_space(t: Seq<char>) -> Seq<char>
    decreases t.len(),
{
    if t.len() > 0 && is_space(t.last()) {
        drop_trailing_space(t.drop_last())
    } else {
        t
    }
}

pub open spec fn is_digit(c: char) -> bool {
    '0' <= c && c <= '9'
}

/// The number written by the decimal digits `d`.
pub open spec fn digits_value(d: Seq<char>) -> nat
    decreases d.len(),
{
    if d.len() == 0 {
        0
    } else {
        digits_value(d.drop_last()) * 10 + (d.last() as nat - '0' as nat) as nat
    }
}

/// `u` without one leading `+`, if it has one.
pub open spec fn strip_plus(u: Seq<char>) -> Seq<char> {
    if u.len() > 0 && u[0] == '+' {
        u.drop_first()
    } else {
        u
    }
}

/// The number written by `d` when it is one or more decimal digits with a
/// value that fits in 16 bits.
pub open spec fn digits_u16(d: Seq<char>) -> Option<u16> {
    if d.len() > 0 && (forall|i: int| 0 <= i < d.len() ==> is_digit(#[trigger] d[i]))
        && digits_value(d) <= 0xffff {
        Some(digits_value(d) as u16)
    } else {
        None
    }
}

/// The port written by `t`: after trimming white space, an optional `+`
/// and at least one decimal digit, with a value that fits in 16 bits.
pub open spec fn port_number(t: Seq<char>) -> Option<u16> {
    digits_u16(strip_plus(trim_space(t)))
}

/// The bounds of `t` with white space trimmed from both ends.
fn trim_bounds(t: &Vec<char>) -> (r: (usize, usize))
    ensures
        r.0 <= r.1 <= t@.len(),
        trim_space(t@) == t@.subrange(r.0 as int, r.1 as int),
{
    let n = t.len();
    let mut lo: usize = 0;
    assert(t@.subrange(0, n as int) =~= t@);
    while lo < n && char_is_space(t[lo])
        invariant
            lo <= n == t@.len(),
            skip_space(t@) == skip_space(t@.subrange(lo as int, n as int)),
        decreases n - lo,
    {
        assert(t@.subrange(lo as int, n as int).drop_first() =~= t@.subrange(lo + 1, n as int));
        lo = lo + 1;
    }
    let mut hi: usize = n;
    while hi > lo && char_is_space(t[hi - 1])
        invariant
            lo <= hi <= n == t@.len(),
            skip_space(t@) == t@.subrange(lo as int, n as int),
            trim_space(t@) == drop_trailing_space(t@.subrange(lo as int, hi as int)),
        decreases hi,
    {
        assert(t@.subrange(lo as int, hi as int).drop_last() =~= t@.subrange(lo as int, hi - 1));
        hi = hi - 1;
    }
    (lo, hi)
}

/// The value of the decimal digits `t[lo..hi]`, as `digits_u16` describes.
fn digits_in(t: &Vec<char>, lo: usize, hi: usize) -> (r: Option<u16>)
    requires
        lo <= hi <= t@.len(),
    ensures
        r == digits_u16(t@.subrange(lo as int, hi as int)),
{
    let ghost d = t@.subrange(lo as int, hi as int);
    if lo == hi {
        return None;
    }
    let mut i: usize = lo;
    let mut value: u32 = 0;
    let mut too_big = false;
    while i < hi
        invariant
            lo <= i <= hi <= t@.len(),
            d == t@.subrange(lo as int, hi as int),
            forall|k: int| lo <= k < i ==> is_digit(#[trigger] t@[k]),
            !too_big ==> value == digits_value(t@.subrange(lo as int, i as int)),
            too_big ==> digits_value(t@.subrange(lo as int, i as int)) > 0xffff,
            value <= 0xffff,
        decreases hi - i,
    {
        let c = t[i];
        if !('0' <= c && c <= '9') {
            assert(!is_digit(d[i - lo]));
            return None;
        }
        assert(t@.subrange(lo as int, i + 1).drop_last() =~= t@.subrange(lo as int, i as int));
        let dig = (c as u32) - ('0' as u32);
        if !too_big {
            if value * 10 + dig > 0xffff {
                too_big = true;
            } else {
                value = value * 10 + dig;
            }
        }
        i = i + 1;
    }
    assert(t@.subrange(lo as int, i as int) =~= d);
    assert(forall|k: int| 0 <= k < d.len() ==> is_digit(#[trigger] d[k])) by {
        assert(forall|k: int| 0 <= k < d.len() ==> d[k] == t@[lo + k]);
    }
    if too_big {
        None
    } else {
        Some(value as u16)
    }
}

/// Reads a port number from `text` as `port_number` describes.
pub fn parse_port(text: &str) -> (r: Option<u16>)
    ensures
        r == port_number(text@),
{
    let t = chars_of(text);
    let (lo, hi) = trim_bounds(&t);
    let ghost u = t@.subrange(lo as int, hi as int);
    if lo < hi && t[lo] == '+' {
        assert(strip_plus(u) =~= t@.subrange(lo + 1, hi as int));
        digits_in(&t, lo + 1, hi)
    } else {
        digits_in(&t, lo, hi)
    }
}

/// The byte that separates an explicit port from the rest of an address.
pub const COMMA: u8 = 0x2c;

/// The byte that separates a host from a named instance.
pub const BACKSLASH: u8 = 0x5c;

/// Index of the last `x` in `b`, or -1 if there is none.
pub open spec fn last_index_of(b: Seq<u8>, x: u8) -> int
    decreases b.len(),
{
    if b.len() == 0 {
        -1
    } else if b.last() == x {
        b.len() - 1
    } else {
        last_index_of(b.drop_last(), x)
    }
}

/// Index of the first `x` in `b`, or -1 if there is none.
pub open spec fn first_index_of(b: Seq<u8>, x: u8) -> int
    decreases b.len(),
{
    if b.len() == 0 {
        -1
    } else if b[0] == x {
        0
    } else if first_index_of(b.drop_first(), x) < 0 {
        -1
    } else {
        first_index_of(b.drop_first(), x) + 1
    }
}

proof fn lemma_last_index_bounds(b: Seq<u8>, x: u8)
    ensures
        -1 <= last_index_of(b, x) < b.len(),
        last_index_of(b, x) >= 0 ==> b[last_index_of(b, x)] == x,
        forall|k: int| last_index_of(b, x) < k < b.len() ==> b[k] != x,
    decreases b.len(),
{
    if b.len() > 0 && b.last() != x {
        lemma_last_index_bounds(b.drop_last(), x);
        assert forall|k: int| last_index_of(b, x) < k < b.len() implies b[k] != x by {
            if k < b.len() - 1 {
                assert(b[k] == b.drop_last()[k]);
            }
        }
    }
}

proof fn lemma_first_index_bounds(b: Seq<u8>, x: u8)
    ensures
        -1 <= first_index_of(b, x) < b.len(),
        first_index_of(b, x) >= 0 ==> b[first_index_of(b, x)] == x,
        first_index_of(b, x) < 0 ==> forall|k: int| 0 <= k < b.len() ==> b[k] != x,
    decreases b.len(),
{
    if b.len() > 0 && b[0] != x {
        lemma_first_index_bounds(b.drop_first(), x);
        assert forall|k: int| 0 < k < b.len() implies b[k] == b.drop_first()[k - 1] by {}
    }
}

/// Index of the last `x` in `b`.
fn find_last(b: &[u8], x: u8) -> (r: Option<usize>)
    ensures
        r matches Some(i) ==> i as int == last_index_of(b@, x),
        r is None ==> last_index_of(b@, x) < 0,
{
    let mut i: usize = b.len();
    assert(b@.subrange(0, i as int) =~= b@);
    while i > 0
        invariant
            i <= b@.len(),
            last_index_of(b@, x) == last_index_of(b@.subrange(0, i as int), x),
        decreases i,
    {
        if b[i - 1] == x {
            return Some(i - 1);
        }
        assert(b@.subrange(0, i as int).drop_last() =~= b@.subrange(0, i - 1));
        i = i - 1;
    }
    None
}

/// Index of the first `x` in `b`.
fn find_first(b: &[u8], x: u8) -> (r: Option<usize>)
    ensures
        r matches Some(i) ==> i as int == first_index_of(b@, x),
        r is None ==> first_index_of(b@, x) < 0,
{
    let n = b.len();
    let mut i: usize = 0;
    assert(b@.subrange(0, n as int) =~= b@);
    while i < n
        invariant
            i <= n == b@.len(),
            first_index_of(b@, x) == (if first_index_of(b@.subrange(i as int, n as int), x) < 0 {
                -1
            } else {
                first_index_of(b@.subrange(i as int, n as int), x) + i
            }),
        decreases n - i,
    {
        if b[i] == x {
            return Some(i);
        }
        assert(b@.subrange(i as int, n as int).drop_first() =~= b@.subrange(i + 1, n as int));
        i = i + 1;
    }
    None
}

/// Splits `s` around the ASCII byte at `i`, which is left out of both parts.
fn split_around(s: &str, i: usize) -> (r: (&str, &str))
    requires
        i < s.spec_bytes().len(),
        s.spec_bytes()[i as int] < 0x80,
    ensures
        r.0.spec_bytes() == s.spec_bytes().subrange(0, i as int),
        r.1.spec_bytes() == s.spec_bytes().subrange(i + 1, s.spec_bytes().len() as int),
        r.0@ == decode_utf8(s.spec_bytes().subrange(0, i as int)),
        r.1@ == decode_utf8(s.spec_bytes().subrange(i + 1, s.spec_bytes().len() as int)),
{
    broadcast use {encode_utf8_decode_utf8, encode_utf8_valid_utf8};

    let ghost b = s.spec_bytes();
    proof {
        is_char_boundary_iff_not_is_continuation_byte(b, i as int);
    }
    let (front, rest) = s.split_at(i);
    let ghost rb = rest.spec_bytes();
    assert(rb[0] == b[i as int]);
    proof {
        if rb.len() == 1 {
            is_char_boundary_start_end_of_seq(rb);
        } else {
            reveal_with_fuel(is_char_boundary, 2);
        }
    }
    let (_, back) = rest.split_at(1);
    assert(back.spec_bytes() =~= b.subrange(i + 1, b.len() as int));
    (front, back)
}

/// Where to reach a server: host, TCP port and, for a named instance, the
/// instance's name. With an instance and no explicit port, `port` is that of
/// the instance-discovery service, not the data port.
#[derive(Clone, Debug)]
pub struct ResolvedAddress {
    pub host: String,
    pub port: u16,
    pub instance: Option<String>,
}

/// How the socket to a server is opened.
#[derive(Clone, Copy, Debug, PartialEq, Eq, Structural)]
pub enum Transport {
    /// Ask the instance-discovery service for the named instance's port.
    Discovery,
    /// Dial host and port directly.
    Direct,
}

impl ResolvedAddress {
    /// A named instance's data port is not known in advance, so it is always
    /// reached through discovery.
    pub fn transport(&self) -> (r: Transport)
        ensures
            r == (if self.instance is Some {
                Transport::Discovery
            } else {
                Transport::Direct
            }),
    {
        if self.instance.is_some() {
            Transport::Discovery
        } else {
            Transport::Direct
        }
    }
}

/// The value of a `ResolvedAddress`.
pub ghost struct AddressView {
    pub host: Seq<char>,
    pub port: u16,
    pub instance: Option<Seq<char>>,
}

impl View for ResolvedAddress {
    type V = AddressView;

    open spec fn view(&self) -> AddressView {
        AddressView {
            host: self.host@,
            port: self.port,
            instance: match self.instance {
                Some(i) => Some(i@),
                None => None,
            },
        }
    }
}

/// Why an address could not be resolved.
#[derive(Clone, Debug)]
pub enum ConfigError {
    /// The text after the last comma is not a 16-bit port number.
    InvalidPort(String),
}

impl ConfigError {
    /// A message for the user.
    pub fn message(&self) -> (r: String)
        ensures
            self matches ConfigError::InvalidPort(t) && r@ == "Invalid port: "@ + t@,
    {
        match self {
            ConfigError::InvalidPort(t) => {
                let mut m = String::from_str("Invalid port: ");
                m.append(t.as_str());
                m
            },
        }
    }
}

/// The port used when none is given: that of the instance-discovery service
/// when an instance is named, else the server's default port.
pub open spec fn default_port(named_instance: bool) -> u16 {
    if named_instance {
        1434
    } else {
        1433
    }
}

/// The bytes before the last comma, or all of them.
pub open spec fn address_part(b: Seq<u8>) -> Seq<u8> {
    let c = last_index_of(b, COMMA);
    if c < 0 {
        b
    } else {
        b.subrange(0, c)
    }
}

/// The text after the last comma, if there is a comma.
pub open spec fn port_text(b: Seq<u8>) -> Option<Seq<char>> {
    let c = last_index_of(b, COMMA);
    if c < 0 {
        None
    } else {
        Some(decode_utf8(b.subrange(c + 1, b.len() as int)))
    }
}

/// The host named by the address part `a`: the text before its first backslash.
pub open spec fn host_part(a: Seq<u8>) -> Seq<char> {
    let k = first_index_of(a, BACKSLASH);
    if k < 0 {
        decode_utf8(a)
    } else {
        decode_utf8(a.subrange(0, k))
    }
}

/// The instance named by the address part `a`: the text after its first backslash.
pub open spec fn instance_part(a: Seq<u8>) -> Option<Seq<char>> {
    let k = first_index_of(a, BACKSLASH);
    if k < 0 {
        None
    } else {
        Some(decode_utf8(a.subrange(k + 1, a.len() as int)))
    }
}

/// The address that the UTF-8 text `b` of the form `host[\instance][,port]`
/// names, or `None` when the text after its last comma is no port number.
pub open spec fn resolve(b: Seq<u8>) -> Option<AddressView> {
    let a = address_part(b);
    let instance = instance_part(a);
    let port = match port_text(b) {
        Some(t) => port_number(t),
        None => Some(default_port(instance is Some)),
    };
    match port {
        Some(p) => Some(AddressView { host: host_part(a), port: p, instance }),
        None => None,
    }
}

/// Resolves `server_name`, written `host[\instance][,port]`, into host, port
/// and instance.
pub fn parse_server_name(server_name: &str) -> (r: Result<ResolvedAddress, ConfigError>)
    ensures
        match resolve(server_name.spec_bytes()) {
            Some(v) => r matches Ok(a) && a@ == v,
            None => r matches Err(ConfigError::InvalidPort(t)) && port_text(
                server_name.spec_bytes(),
            ) == Some(t@),
        },
{
    broadcast use encode_utf8_decode_utf8;

    let ghost b = server_name.spec_bytes();
    let bytes = server_name.as_bytes();
    proof {
        lemma_last_index_bounds(b, COMMA);
    }
    let (addr, explicit_port) = match find_last(bytes, COMMA) {
        Some(c) => {
            let (addr, port_str) = split_around(server_name, c);
            match parse_port(port_str) {
                Some(p) => (addr, Some(p)),
                None => {
                    return Err(ConfigError::InvalidPort(port_str.to_string()));
                },
            }
        },
        None => {
            (server_name, None)
        },
    };
    let ghost a = address_part(b);
    assert(addr.spec_bytes() == a);
    assert(addr@ == decode_utf8(a));
    assert(port_text(b) is Some ==> explicit_port == port_number(port_text(b)->0));
    assert(port_text(b) is None ==> explicit_port is None);
    let ab = addr.as_bytes();
    proof {
        lemma_first_index_bounds(a, BACKSLASH);
    }
    let (host, instance) = match find_first(ab, BACKSLASH) {
        Some(k) => {
            let (h, i) = split_around(addr, k);
            (h.to_string(), Some(i.to_string()))
        },
        None => (addr.to_string(), None),
    };
    let port = match explicit_port {
        Some(p) => p,
        None => if instance.is_some() {
            1434
        } else {
            1433
        },
    };
    Ok(ResolvedAddress { host, port, instance })
}

proof fn lemma_ascii_byte_of_scalar(c: char, x: u8)
    requires
        x < 0x80,
    ensures
        encode_scalar(c as u32).contains(x) <==> c as u32 == x as u32,
{
    let v = c as u32;
    let e = encode_scalar(v);
    if has_width_1_encoding(v) {
        let e0 = (v & 0x7F) as u8;
        assert(e0 == x <==> v == x as u32) by (bit_vector)
            requires
                e0 == (v & 0x7F) as u8,
                v <= 0x7f,
                x < 0x80,
        ;
        assert(e[0] == e0);
        if c as u32 == x as u32 {
            assert(e[0] == x);
        }
    } else {
        assert forall|i: int| 0 <= i < e.len() implies e[i] >= 0x80 by {
            let b2 = ((v >> 6) & 0x1F) as u8;
            let b3 = ((v >> 12) & 0x0F) as u8;
            let b4 = ((v >> 18) & 0x7) as u8;
            let k0 = (v & 0x3F) as u8;
            let k1 = ((v >> 6) & 0x3F) as u8;
            let k2 = ((v >> 12) & 0x3F) as u8;
            assert((0xC0u8 | b2) >= 0x80 && (0xE0u8 | b3) >= 0x80 && (0xF0u8 | b4) >= 0x80)
                by (bit_vector);
            assert((0x80u8 | k0) >= 0x80 && (0x80u8 | k1) >= 0x80 && (0x80u8 | k2) >= 0x80)
                by (bit_vector);
        }
        assert(v > 0x7f);
    }
}

/// The UTF-8 text of `s` holds the ASCII byte `x` exactly when `s` holds
/// the character `x` stands for.
pub proof fn lemma_ascii_byte_in_text(s: Seq<char>, c: char, x: u8)
    requires
        x < 0x80,
        c as u32 == x as u32,
    ensures
        encode_utf8(s).contains(x) <==> s.contains(c),
    decreases s.len(),
{
    if s.len() > 0 {
        let head = encode_scalar(s[0] as u32);
        let tail = encode_utf8(s.drop_first());
        lemma_ascii_byte_in_text(s.drop_first(), c, x);
        lemma_ascii_byte_of_scalar(s[0], x);
        assert(encode_utf8(s) == head + tail);
        if encode_utf8(s).contains(x) {
            let i = choose|i: int| 0 <= i < encode_utf8(s).len() && encode_utf8(s)[i] == x;
            if i < head.len() {
                assert(head.contains(x));
                assert(s[0] as u32 == c as u32);
                char_u32_cast(s[0], s[0] as u32);
                char_u32_cast(c, c as u32);
                assert(s[0] == c);
            } else {
                assert(tail[i - head.len()] == x);
                let j = choose|j: int| 0 <= j < s.drop_first().len() && s.drop_first()[j] == c;
                assert(s[j + 1] == c);
            }
        }
        if s.contains(c) {
            let j = choose|j: int| 0 <= j < s.len() && s[j] == c;
            if j == 0 {
                let i = choose|i: int| 0 <= i < head.len() && head[i] == x;
                assert(encode_utf8(s)[i] == x);
            } else {
                assert(s.drop_first()[j - 1] == c);
                let i = choose|i: int| 0 <= i < tail.len() && tail[i] == x;
                assert(encode_utf8(s)[head.len() + i] == x);
            }
        }
    }
}

proof fn lemma_index_of_present(b: Seq<u8>, x: u8)
    ensures
        last_index_of(b, x) >= 0 <==> b.contains(x),
        first_index_of(b, x) >= 0 <==> b.contains(x),
{
    lemma_last_index_bounds(b, x);
    lemma_first_index_bounds(b, x);
}

/// With a comma in the address, the port is the number written after the
/// last comma, and the address is refused when that text is no port number.
pub proof fn lemma_explicit_port(raw: &str)
    requires
        raw@.contains(','),
    ensures
        port_text(raw.spec_bytes()) == Some(
            decode_utf8(
                raw.spec_bytes().subrange(
                    last_index_of(raw.spec_bytes(), COMMA) + 1,
                    raw.spec_bytes().len() as int,
                ),
            ),
        ),
        match port_number(port_text(raw.spec_bytes())->0) {
            Some(p) => resolve(raw.spec_bytes()) matches Some(v) && v.port == p,
            None => resolve(raw.spec_bytes()) is None,
        },
{
    lemma_ascii_byte_in_text(raw@, ',', COMMA);
    lemma_index_of_present(raw.spec_bytes(), COMMA);
}

/// With a named instance and no comma, the port is that of the
/// instance-discovery service.
pub proof fn lemma_instance_default_port(raw: &str)
    requires
        !raw@.contains(','),
        raw@.contains('\\'),
    ensures
        resolve(raw.spec_bytes()) matches Some(v) && v.port == 1434 && v.instance is Some,
{
    lemma_ascii_byte_in_text(raw@, ',', COMMA);
    lemma_ascii_byte_in_text(raw@, '\\', BACKSLASH);
    lemma_index_of_present(raw.spec_bytes(), COMMA);
    lemma_index_of_present(raw.spec_bytes(), BACKSLASH);
}

/// With neither comma nor backslash, the whole text is the host, the port is
/// the server's default and no instance is named.
pub proof fn lemma_plain_host(raw: &str)
    requires
        !raw@.contains(','),
        !raw@.contains('\\'),
    ensures
        resolve(raw.spec_bytes()) == Some(AddressView { host: raw@, port: 1433, instance: None }),
{
    broadcast use encode_utf8_decode_utf8;

    lemma_ascii_byte_in_text(raw@, ',', COMMA);
    lemma_ascii_byte_in_text(raw@, '\\', BACKSLASH);
    lemma_index_of_present(raw.spec_bytes(), COMMA);
    lemma_index_of_present(raw.spec_bytes(), BACKSLASH);
}

/// An explicit port wins over the default of a named instance, and the
/// instance is still named.
pub proof fn lemma_explicit_port_with_instance(raw: &str, port: u16)
    requires
        raw@.contains(','),
        address_part(raw.spec_bytes()).contains(BACKSLASH),
        port_number(port_text(raw.spec_bytes())->0) == Some(port),
    ensures
        resolve(raw.spec_bytes()) matches Some(v) && v.port == port && v.instance
            == instance_part(address_part(raw.spec_bytes())) && v.instance is Some,
{
    lemma_ascii_byte_in_text(raw@, ',', COMMA);
    lemma_index_of_present(raw.spec_bytes(), COMMA);
    lemma_index_of_present(address_part(raw.spec_bytes()), BACKSLASH);
}

} // verus!
