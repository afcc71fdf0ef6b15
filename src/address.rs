use vstd::prelude::*;

verus! {

/// An IPv4 address as its four octets, in conventional dotted-quad order.
#[derive(Clone, Copy, Debug, PartialEq, Eq, Structural)]
pub struct Ipv4Addr {
    pub a: u8,
    pub b: u8,
    pub c: u8,
    pub d: u8,
}

/// White space as `char::is_whitespace` defines it (Unicode `White_Space`).
pub open spec fn is_white_space(c: char) -> bool {
    let n = c as u32;
    (0x9 <= n <= 0xd) || n == 0x20 || n == 0x85 || n == 0xa0 || n == 0x1680 || (0x2000 <= n
        <= 0x200a) || n == 0x2028 || n == 0x2029 || n == 0x202f || n == 0x205f || n == 0x3000
}

pub open spec fn trim_start(s: Seq<char>) -> Seq<char>
    decreases s.len(),
{
    if s.len() > 0 && is_white_space(s[0]) {
        trim_start(s.drop_first())
    } else {
        s
    }
}

pub open spec fn trim_end(s: Seq<char>) -> Seq<char>
    decreases s.len(),
{
    if s.len() > 0 && is_white_space(s.last()) {
        trim_end(s.drop_last())
    } else {
        s
    }
}

/// The text with leading and trailing white space removed.
pub open spec fn trimmed(s: Seq<char>) -> Seq<char> {
    trim_end(trim_start(s))
}

/// The pieces of `s` between dots; there is always at least one.
pub open spec fn split_dots(s: Seq<char>) -> Seq<Seq<char>>
    decreases s.len(),
{
    if s.len() == 0 {
        seq![Seq::<char>::empty()]
    } else {
        let r = split_dots(s.drop_last());
        if s.last() == '.' {
            r.push(Seq::<char>::empty())
        } else {
            r.update(r.len() - 1, r.last().push(s.last()))
        }
    }
}

pub open spec fn is_digit(c: char) -> bool {
    '0' <= c <= '9'
}

pub open spec fn digit_value(c: char) -> nat {
    (c as u32 - '0' as u32) as nat
}

pub open spec fn all_digits(s: Seq<char>) -> bool {
    forall|i: int| 0 <= i < s.len() ==> is_digit(#[trigger] s[i])
}

/// The number that a string of decimal digits denotes.
pub open spec fn digits_value(s: Seq<char>) -> nat
    decreases s.len(),
{
    if s.len() == 0 {
        0
    } else {
        digits_value(s.drop_last()) * 10 + digit_value(s.last())
    }
}

/// The digits of a signed decimal numeral, without its sign.
pub open spec fn unsigned_part(s: Seq<char>) -> Seq<char> {
    if s.len() > 0 && (s[0] == '+' || s[0] == '-') {
        s.drop_first()
    } else {
        s
    }
}

pub open spec fn is_negative_numeral(s: Seq<char>) -> bool {
    s.len() > 0 && s[0] == '-'
}

/// Whether `s` reads as a decimal integer (with an optional sign) in 0 ..= 255.
pub open spec fn is_octet_text(s: Seq<char>) -> bool {
    let d = unsigned_part(s);
    &&& digits_within(d, 255)
    &&& (is_negative_numeral(s) ==> digits_value(d) == 0)
}

pub open spec fn octet_of_text(s: Seq<char>) -> u8 {
    digits_value(unsigned_part(s)) as u8
}

/// The four octets written in `s` (white space around it allowed), or nothing
/// where `s` is not four dot-separated numbers each in 0 ..= 255.
pub open spec fn ip_octets(s: Seq<char>) -> Seq<u8> {
    let p = split_dots(trimmed(s));
    if p.len() == 4 && (forall|i: int| 0 <= i < 4 ==> is_octet_text(#[trigger] p[i])) {
        seq![octet_of_text(p[0]), octet_of_text(p[1]), octet_of_text(p[2]), octet_of_text(p[3])]
    } else {
        Seq::empty()
    }
}

/// Whether `s` is an octet as a strict dotted quad writes it: decimal digits
/// only, no sign, no leading zero, at most 255.
pub open spec fn is_strict_octet_text(s: Seq<char>) -> bool {
    digits_within(s, 255) && (s.len() == 1 || s[0] != '0')
}

/// The address written in `s` as a strict dotted quad (white space around it
/// allowed): four strict octets between dots; `None` for any other text.
pub open spec fn strict_ip_of_text(s: Seq<char>) -> Option<Ipv4Addr> {
    let p = split_dots(trimmed(s));
    if p.len() == 4 && (forall|i: int| 0 <= i < 4 ==> is_strict_octet_text(#[trigger] p[i])) {
        Some(
            Ipv4Addr {
                a: digits_value(p[0]) as u8,
                b: digits_value(p[1]) as u8,
                c: digits_value(p[2]) as u8,
                d: digits_value(p[3]) as u8,
            },
        )
    } else {
        None
    }
}

pub open spec fn localhost_ip() -> Ipv4Addr {
    Ipv4Addr { a: 127, b: 0, c: 0, d: 1 }
}

pub open spec fn unspecified_ip() -> Ipv4Addr {
    Ipv4Addr { a: 0, b: 0, c: 0, d: 0 }
}

/// The address written in `s`, or the unspecified address where `s` is no address.
pub open spec fn ip_of_text(s: Seq<char>) -> Ipv4Addr {
    let o = ip_octets(s);
    if o.len() == 4 {
        Ipv4Addr { a: o[0], b: o[1], c: o[2], d: o[3] }
    } else {
        unspecified_ip()
    }
}

/// The address written in `s` with its octets in reverse order, or the
/// unspecified address where `s` is no address.
pub open spec fn reverse_ip_of_text(s: Seq<char>) -> Ipv4Addr {
    let o = ip_octets(s);
    if o.len() == 4 {
        Ipv4Addr { a: o[3], b: o[2], c: o[1], d: o[0] }
    } else {
        unspecified_ip()
    }
}

impl Ipv4Addr {
    pub fn new(a: u8, b: u8, c: u8, d: u8) -> (r: Ipv4Addr)
        ensures
            r == (Ipv4Addr { a, b, c, d }),
    {
        Ipv4Addr { a, b, c, d }
    }

    /// The address 0.0.0.0.
    pub fn unspecified() -> (r: Ipv4Addr)
        ensures
            r == unspecified_ip(),
    {
        Ipv4Addr { a: 0, b: 0, c: 0, d: 0 }
    }

    /// The loopback address 127.0.0.1.
    pub fn localhost() -> (r: Ipv4Addr)
        ensures
            r == localhost_ip(),
    {
        Ipv4Addr { a: 127, b: 0, c: 0, d: 1 }
    }

    pub fn is_unspecified(&self) -> (r: bool)
        ensures
            r == (*self == unspecified_ip()),
    {
        self.a == 0 && self.b == 0 && self.c == 0 && self.d == 0
    }

    /// The same octets in reverse order.
    pub fn reversed(&self) -> (r: Ipv4Addr)
        ensures
            r == (Ipv4Addr { a: self.d, b: self.c, c: self.b, d: self.a }),
    {
        Ipv4Addr { a: self.d, b: self.c, c: self.b, d: self.a }
    }
}

/// The characters of `s`, one by one.
pub fn chars_of(s: &str) -> (r: Vec<char>)
    ensures
        r@ == s@,
{
    let n = s.unicode_len();
    let mut r: Vec<char> = Vec::new();
    let mut i: usize = 0;
    while i < n
        invariant
            n == s@.len(),
            i <= n,
            r@ == s@.subrange(0, i as int),
        decreases n - i,
    {
        r.push(s.get_char(i));
        i = i + 1;
    }
    assert(r@ =~= s@);
    r
}

proof fn lemma_trim_start_skip(s: Seq<char>, i: int)
    requires
        0 <= i <= s.len(),
        forall|j: int| 0 <= j < i ==> is_white_space(#[trigger] s[j]),
    ensures
        trim_start(s) == trim_start(s.subrange(i, s.len() as int)),
    decreases i,
{
    if i > 0 {
        assert(s.drop_first() =~= s.subrange(1, s.len() as int));
        lemma_trim_start_skip(s.drop_first(), i - 1);
        assert(s.drop_first().subrange(i - 1, s.drop_first().len() as int) =~= s.subrange(
            i,
            s.len() as int,
        ));
    } else {
        assert(s.subrange(0, s.len() as int) =~= s);
    }
}

proof fn lemma_trim_end_skip(s: Seq<char>, j: int)
    requires
        0 <= j <= s.len(),
        forall|k: int| j <= k < s.len() ==> is_white_space(#[trigger] s[k]),
    ensures
        trim_end(s) == trim_end(s.subrange(0, j)),
    decreases s.len() - j,
{
    if j < s.len() {
        lemma_trim_end_skip(s.drop_last(), j);
        assert(s.drop_last().subrange(0, j) =~= s.subrange(0, j));
    } else {
        assert(s.subrange(0, s.len() as int) =~= s);
    }
}

/// Where the text of `s` starts and ends once white space around it is removed.
pub fn trim_bounds(s: &Vec<char>) -> (r: (usize, usize))
    ensures
        r.0 <= r.1 <= s@.len(),
        s@.subrange(r.0 as int, r.1 as int) == trimmed(s@),
{
    let n = s.len();
    let mut i: usize = 0;
    while i < n && is_white_space_char(s[i])
        invariant
            n == s@.len(),
            i <= n,
            forall|j: int| 0 <= j < i ==> is_white_space(#[trigger] s@[j]),
        decreases n - i,
    {
        i = i + 1;
    }
    proof {
        lemma_trim_start_skip(s@, i as int);
    }
    let ghost t = s@.subrange(i as int, n as int);
    assert(trim_start(t) == t);
    let mut j: usize = n;
    while j > i && is_white_space_char(s[j - 1])
        invariant
            n == s@.len(),
            i <= j <= n,
            t == s@.subrange(i as int, n as int),
            forall|k: int| j <= k < n ==> is_white_space(#[trigger] s@[k]),
        decreases j,
    {
        j = j - 1;
    }
    proof {
        lemma_trim_end_skip(t, j - i);
        let u = s@.subrange(i as int, j as int);
        assert(t.subrange(0, j - i) =~= u);
        if u.len() > 0 {
            assert(u.last() == s@[j - 1]);
        }
    }
    (i, j)
}

/// The characters of `s` without leading and trailing white space.
pub fn trim_chars(s: &Vec<char>) -> (r: Vec<char>)
    ensures
        r@ == trimmed(s@),
{
    let (i, j) = trim_bounds(s);
    let mut r: Vec<char> = Vec::new();
    let mut k: usize = i;
    while k < j
        invariant
            i <= k <= j <= s@.len(),
            r@ == s@.subrange(i as int, k as int),
        decreases j - k,
    {
        r.push(s[k]);
        k = k + 1;
    }
    r
}

/// `s` without leading and trailing white space.
pub fn trim_str(s: &str) -> (r: &str)
    ensures
        r@ == trimmed(s@),
{
    let chars = chars_of(s);
    let (i, j) = trim_bounds(&chars);
    s.substring_char(i, j)
}

pub fn is_white_space_char(c: char) -> (r: bool)
    ensures
        r == is_white_space(c),
{
    let n = c as u32;
    (0x9 <= n && n <= 0xd) || n == 0x20 || n == 0x85 || n == 0xa0 || n == 0x1680 || (0x2000 <= n
        && n <= 0x200a) || n == 0x2028 || n == 0x2029 || n == 0x202f || n == 0x205f || n == 0x3000
}

proof fn lemma_split_nonempty(s: Seq<char>)
    ensures
        split_dots(s).len() >= 1,
    decreases s.len(),
{
    if s.len() > 0 {
        lemma_split_nonempty(s.drop_last());
    }
}

/// The pieces of `s` between dots.
pub fn split_on_dots(s: &Vec<char>) -> (r: Vec<Vec<char>>)
    ensures
        r@.len() == split_dots(s@).len(),
        forall|i: int| 0 <= i < r@.len() ==> (#[trigger] r@[i])@ == split_dots(s@)[i],
{
    let n = s.len();
    let mut parts: Vec<Vec<char>> = Vec::new();
    let mut cur: Vec<char> = Vec::new();
    let mut i: usize = 0;
    while i < n
        invariant
            n == s@.len(),
            i <= n,
            parts@.len() + 1 == split_dots(s@.subrange(0, i as int)).len(),
            forall|k: int|
                0 <= k < parts@.len() ==> (#[trigger] parts@[k])@ == split_dots(
                    s@.subrange(0, i as int),
                )[k],
            cur@ == split_dots(s@.subrange(0, i as int)).last(),
        decreases n - i,
    {
        let ghost prev = s@.subrange(0, i as int);
        let ghost next = s@.subrange(0, i + 1);
        assert(next.drop_last() =~= prev);
        proof {
            lemma_split_nonempty(prev);
        }
        let c = s[i];
        if c == '.' {
            parts.push(cur);
            cur = Vec::new();
        } else {
            cur.push(c);
        }
        i = i + 1;
        assert(cur@ == split_dots(next).last());
    }
    assert(s@.subrange(0, n as int) =~= s@);
    parts.push(cur);
    parts
}

proof fn lemma_digits_value_grows(s: Seq<char>)
    requires
        s.len() > 0,
    ensures
        digits_value(s) >= digits_value(s.drop_last()),
{
}

/// Whether `d` is a non-empty string of decimal digits whose value is at most `max`.
pub open spec fn digits_within(d: Seq<char>, max: nat) -> bool {
    d.len() > 0 && all_digits(d) && digits_value(d) <= max
}

/// The value of the digits `s[start..]`, or `None` where they are not a
/// non-empty string of decimal digits with a value of at most `max`.
pub fn parse_digits(s: &Vec<char>, start: usize, max: u32) -> (r: Option<u32>)
    requires
        start <= s@.len(),
        max <= 65535,
    ensures
        r == (if digits_within(s@.subrange(start as int, s@.len() as int), max as nat) {
            Some(digits_value(s@.subrange(start as int, s@.len() as int)) as u32)
        } else {
            None::<u32>
        }),
{
    let n = s.len();
    let ghost d = s@.subrange(start as int, n as int);
    if start >= n {
        return None;
    }
    let mut value: u32 = 0;
    let mut too_big = false;
    let mut i: usize = start;
    while i < n
        invariant
            n == s@.len(),
            start <= i <= n,
            max <= 65535,
            d == s@.subrange(start as int, n as int),
            all_digits(s@.subrange(start as int, i as int)),
            !too_big ==> value as nat == digits_value(s@.subrange(start as int, i as int)),
            !too_big ==> value <= max,
            too_big ==> digits_value(s@.subrange(start as int, i as int)) > max,
        decreases n - i,
    {
        let c = s[i];
        let ghost pre = s@.subrange(start as int, i as int);
        let ghost post = s@.subrange(start as int, i + 1);
        assert(post.drop_last() =~= pre);
        if !('0' <= c && c <= '9') {
            assert(d[i - start] == c);
            assert(!is_digit(d[i - start]));
            return None;
        }
        assert(all_digits(post)) by {
            assert forall|k: int| 0 <= k < post.len() implies is_digit(#[trigger] post[k]) by {
                if k < pre.len() {
                    assert(post[k] == pre[k]);
                }
            }
        }
        let dv = (c as u32) - ('0' as u32);
        if !too_big {
            value = value * 10 + dv;
            if value > max {
                too_big = true;
            }
        } else {
            proof {
                lemma_digits_value_grows(post);
            }
        }
        i = i + 1;
    }
    assert(s@.subrange(start as int, i as int) == d);
    if too_big {
        return None;
    }
    Some(value)
}

/// The octet that `s` denotes, or `None` where `s` is no number in 0 ..= 255.
pub fn parse_octet(s: &Vec<char>) -> (r: Option<u8>)
    ensures
        r == (if is_octet_text(s@) {
            Some(octet_of_text(s@))
        } else {
            None::<u8>
        }),
{
    let n = s.len();
    let mut start: usize = 0;
    let mut negative = false;
    if n > 0 && (s[0] == '+' || s[0] == '-') {
        start = 1;
        negative = s[0] == '-';
    }
    assert(unsigned_part(s@) =~= s@.subrange(start as int, n as int));
    match parse_digits(s, start, 255) {
        Some(v) => {
            if negative && v != 0 {
                None
            } else {
                Some(v as u8)
            }
        },
        None => None,
    }
}

/// The four octets written in `ip_str`, or an empty vector where `ip_str` is
/// not four dot-separated numbers each in 0 ..= 255 (white space around the
/// whole is allowed).
pub fn parse_string_to_vec(ip_str: &String) -> (r: Vec<u8>)
    ensures
        r@ == ip_octets(ip_str@),
{
    let chars = chars_of(ip_str.as_str());
    let t = trim_chars(&chars);
    let parts = split_on_dots(&t);
    let ghost p = split_dots(trimmed(ip_str@));
    assert(t@ == trimmed(ip_str@));
    if parts.len() != 4 {
        assert(ip_octets(ip_str@) =~= Seq::<u8>::empty());
        return Vec::new();
    }
    let mut ip_vec: Vec<u8> = Vec::new();
    let mut i: usize = 0;
    while i < 4
        invariant
            parts@.len() == 4,
            p.len() == 4,
            p == split_dots(trimmed(ip_str@)),
            forall|k: int| 0 <= k < 4 ==> (#[trigger] parts@[k])@ == p[k],
            i <= 4,
            ip_vec@.len() == i,
            forall|k: int| 0 <= k < i ==> is_octet_text(#[trigger] p[k]),
            forall|k: int| 0 <= k < i ==> ip_vec@[k] == octet_of_text(#[trigger] p[k]),
        decreases 4 - i,
    {
        match parse_octet(&parts[i]) {
            Some(v) => {
                ip_vec.push(v);
            },
            None => {
                assert(!is_octet_text(p[i as int]));
                return Vec::new();
            },
        }
        i = i + 1;
    }
    assert(ip_vec@ =~= ip_octets(ip_str@));
    ip_vec
}

/// The address written in `ip_str`, or 0.0.0.0 where it is no address.
pub fn parse_string_to_ip(ip_str: &String) -> (r: Ipv4Addr)
    ensures
        r == ip_of_text(ip_str@),
{
    let v = parse_string_to_vec(ip_str);
    if v.len() != 4 {
        return Ipv4Addr::unspecified();
    }
    Ipv4Addr::new(v[0], v[1], v[2], v[3])
}

/// The address written in `ip_str` with its octets reversed (the order in
/// which the transport reports addresses), or 0.0.0.0 where it is no address.
pub fn parse_string_to_reverse_ip(ip_str: &String) -> (r: Ipv4Addr)
    ensures
        r == reverse_ip_of_text(ip_str@),
{
    let v = parse_string_to_vec(ip_str);
    if v.len() != 4 {
        return Ipv4Addr::unspecified();
    }
    Ipv4Addr::new(v[3], v[2], v[1], v[0])
}

/// The octet that `s` denotes as a strict dotted quad writes it, or `None`.
pub fn parse_strict_octet(s: &Vec<char>) -> (r: Option<u8>)
    ensures
        r == (if is_strict_octet_text(s@) {
            Some(digits_value(s@) as u8)
        } else {
            None::<u8>
        }),
{
    assert(s@.subrange(0, s@.len() as int) =~= s@);
    if s.len() > 1 && s[0] == '0' {
        return None;
    }
    match parse_digits(s, 0, 255) {
        Some(v) => Some(v as u8),
        None => None,
    }
}

/// The address written in `ip_str` as a strict dotted quad (white space
/// around it allowed), or `None` where it is none: no sign and no leading zero
/// in any of the four parts.
pub fn parse_strict_ip(ip_str: &String) -> (r: Option<Ipv4Addr>)
    ensures
        r == strict_ip_of_text(ip_str@),
{
    let chars = chars_of(ip_str.as_str());
    let t = trim_chars(&chars);
    let parts = split_on_dots(&t);
    let ghost p = split_dots(trimmed(ip_str@));
    assert(t@ == trimmed(ip_str@));
    if parts.len() != 4 {
        return None;
    }
    let mut o: Vec<u8> = Vec::new();
    let mut i: usize = 0;
    while i < 4
        invariant
            parts@.len() == 4,
            p.len() == 4,
            p == split_dots(trimmed(ip_str@)),
            forall|k: int| 0 <= k < 4 ==> (#[trigger] parts@[k])@ == p[k],
            i <= 4,
            o@.len() == i,
            forall|k: int| 0 <= k < i ==> is_strict_octet_text(#[trigger] p[k]),
            forall|k: int| 0 <= k < i ==> o@[k] == digits_value(#[trigger] p[k]) as u8,
        decreases 4 - i,
    {
        match parse_strict_octet(&parts[i]) {
            Some(v) => {
                o.push(v);
            },
            None => {
                assert(!is_strict_octet_text(p[i as int]));
                return None;
            },
        }
        i = i + 1;
    }
    Some(Ipv4Addr::new(o[0], o[1], o[2], o[3]))
}

} // verus!
