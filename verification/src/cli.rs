//! Command lines: options with a value each, numbers, and IPv4 endpoints.

use vstd::prelude::*;
use vstd::string::StringSliceAdditionalSpecFns;

verus! {

// ── Text ──────────────────────────────────────────────────────────────────────

/// Whether two texts are the same.
pub fn same_text(a: &str, b: &str) -> (eq: bool)
    ensures
        eq == (a@ == b@),
{
    a.to_owned() == b.to_owned()
}

/// The texts of a command line.
pub open spec fn texts(args: Seq<String>) -> Seq<Seq<char>> {
    args.map_values(|s: String| s@)
}

// ── Options ───────────────────────────────────────────────────────────────────

/// Why the options of a command line were refused.
#[derive(Debug, Clone)]
pub enum OptionError {
    /// Not one of the options.
    Unrecognized(String),
    /// An option at the end, without its value.
    NeedsValue(String),
}

#[verifier::ext_equal]
pub enum OptionErrorView {
    Unrecognized(Seq<char>),
    NeedsValue(Seq<char>),
}

impl View for OptionError {
    type V = OptionErrorView;

    open spec fn view(&self) -> OptionErrorView {
        match *self {
            OptionError::Unrecognized(s) => OptionErrorView::Unrecognized(s@),
            OptionError::NeedsValue(s) => OptionErrorView::NeedsValue(s@),
        }
    }
}

/// What is wrong with the option at position `i`.
pub open spec fn option_error(args: Seq<Seq<char>>, known: Seq<Seq<char>>, i: int) -> Option<OptionErrorView> {
    if !known.contains(args[i]) {
        Some(OptionErrorView::Unrecognized(args[i]))
    } else if i + 1 >= args.len() {
        Some(OptionErrorView::NeedsValue(args[i]))
    } else {
        None
    }
}

/// What is wrong with a command line, from position `i` on: the first option
/// that is refused. Options stand at every second position.
pub open spec fn first_error(args: Seq<Seq<char>>, known: Seq<Seq<char>>, i: int) -> Option<OptionErrorView>
    decreases args.len() - i,
{
    if i >= args.len() {
        None
    } else if option_error(args, known, i) is Some {
        option_error(args, known, i)
    } else {
        first_error(args, known, i + 2)
    }
}

/// The value of an option among the first `n` texts. Where an option is given
/// more than once, the last one counts.
pub open spec fn value_in(args: Seq<Seq<char>>, flag: Seq<char>, n: int) -> Option<Seq<char>>
    decreases n,
{
    if n < 2 {
        None
    } else if args[n - 2] == flag {
        Some(args[n - 1])
    } else {
        value_in(args, flag, n - 2)
    }
}

/// The value of an option.
pub open spec fn value_of(args: Seq<Seq<char>>, flag: Seq<char>) -> Option<Seq<char>> {
    value_in(args, flag, args.len() as int)
}

/// The text of an optional value.
pub open spec fn opt_text(s: Option<&str>) -> Option<Seq<char>> {
    match s {
        Some(s) => Some(s@),
        None => None,
    }
}

fn is_known(known: &[&str], flag: &str) -> (b: bool)
    ensures
        b == flags_view(known@).contains(flag@),
{
    let mut i: usize = 0;
    while i < known.len()
        invariant
            i <= known@.len(),
            forall|j: int| 0 <= j < i ==> known@[j]@ != flag@,
        decreases known@.len() - i,
    {
        if same_text(known[i], flag) {
            assert(flags_view(known@)[i as int] == flag@);
            return true;
        }
        i += 1;
    }
    assert forall|j: int| 0 <= j < flags_view(known@).len() implies flags_view(known@)[j] != flag@ by {
        assert(flags_view(known@)[j] == known@[j]@);
    }
    false
}

/// The texts of a list of options.
pub open spec fn flags_view(known: Seq<&str>) -> Seq<Seq<char>> {
    known.map_values(|s: &str| s@)
}

/// Checks that a command line is options of the given list, with a value
/// each.
pub fn check_options(args: &[String], known: &[&str]) -> (r: Result<(), OptionError>)
    ensures
        match first_error(texts(args@), flags_view(known@), 0) {
            Some(e) => r is Err && r->Err_0@ == e,
            None => r is Ok,
        },
        r is Ok ==> args@.len() % 2 == 0,
{
    let len: usize = args.len();
    let mut i: usize = 0;
    while i < len
        invariant
            i <= len == args@.len(),
            i % 2 == 0,
            first_error(texts(args@), flags_view(known@), 0) == first_error(texts(args@), flags_view(known@), i as int),
        decreases len - i,
    {
        assert(texts(args@)[i as int] == args@[i as int]@);
        if !is_known(known, args[i].as_str()) {
            return Err(OptionError::Unrecognized(args[i].clone()));
        }
        if len - i < 2 {
            return Err(OptionError::NeedsValue(args[i].clone()));
        }
        i += 2;
    }
    Ok(())
}

/// The value of an option in a checked command line.
pub fn option_value<'a>(args: &'a [String], flag: &str) -> (v: Option<&'a str>)
    requires
        args@.len() % 2 == 0,
    ensures
        opt_text(v) == value_of(texts(args@), flag@),
{
    let mut n: usize = args.len();
    while n >= 2
        invariant
            n <= args@.len(),
            n % 2 == 0,
            value_of(texts(args@), flag@) == value_in(texts(args@), flag@, n as int),
        decreases n,
    {
        assert(texts(args@)[n - 2] == args@[n - 2]@ && texts(args@)[n - 1] == args@[n - 1]@);
        if same_text(args[n - 2].as_str(), flag) {
            return Some(args[n - 1].as_str());
        }
        n -= 2;
    }
    None
}

// ── Numbers ───────────────────────────────────────────────────────────────────

pub open spec fn is_digit(c: u8) -> bool {
    0x30 <= c <= 0x39
}

pub open spec fn all_ascii_digits(s: Seq<u8>) -> bool {
    forall|i: int| 0 <= i < s.len() ==> is_digit(#[trigger] s[i])
}

/// The number that decimal digits denote.
pub open spec fn decimal_value(s: Seq<u8>) -> nat
    decreases s.len(),
{
    if s.len() == 0 {
        0
    } else {
        10 * decimal_value(s.drop_last()) + (s.last() - 0x30) as nat
    }
}

/// One or more digits that denote a number up to `max`.
pub open spec fn number_up_to(s: Seq<u8>, max: nat) -> Option<nat> {
    if s.len() > 0 && all_ascii_digits(s) && decimal_value(s) <= max {
        Some(decimal_value(s))
    } else {
        None
    }
}

proof fn lemma_prefix_value(s: Seq<u8>, i: int)
    requires
        0 <= i <= s.len(),
        all_ascii_digits(s),
    ensures
        decimal_value(s.take(i)) <= decimal_value(s),
    decreases s.len() - i,
{
    if i < s.len() {
        lemma_prefix_value(s, i + 1);
        assert(s.take(i + 1).drop_last() =~= s.take(i));
        assert(is_digit(s[i]));
    } else {
        assert(s.take(i) =~= s);
    }
}

/// Reads a decimal number up to `max`.
pub fn read_number(s: &[u8], max: u32) -> (v: Option<u32>)
    ensures
        v == match number_up_to(s@, max as nat) {
            Some(n) => Some(n as u32),
            None => None,
        },
{
    if s.len() == 0 {
        return None;
    }
    let mut i: usize = 0;
    while i < s.len()
        invariant
            i <= s@.len(),
            forall|j: int| 0 <= j < i ==> is_digit(#[trigger] s@[j]),
        decreases s@.len() - i,
    {
        if s[i] < 0x30 || s[i] > 0x39 {
            assert(!is_digit(s@[i as int]));
            return None;
        }
        i += 1;
    }
    let mut acc: u64 = 0;
    let mut k: usize = 0;
    assert(s@.take(0) =~= Seq::<u8>::empty());
    while k < s.len()
        invariant
            k <= s@.len(),
            all_ascii_digits(s@),
            acc == decimal_value(s@.take(k as int)),
            acc <= max,
        decreases s@.len() - k,
    {
        proof {
            assert(s@.take(k + 1).drop_last() =~= s@.take(k as int));
            assert(is_digit(s@[k as int]));
            lemma_prefix_value(s@, k + 1);
        }
        acc = acc * 10 + (s[k] - 0x30) as u64;
        k += 1;
        if acc > max as u64 {
            return None;
        }
    }
    assert(s@.take(k as int) =~= s@);
    Some(acc as u32)
}

/// An unsigned 32-bit number, with an optional plus sign.
pub open spec fn u32_text(s: Seq<u8>) -> Option<nat> {
    if s.len() > 0 && s[0] == 0x2B {
        number_up_to(s.subrange(1, s.len() as int), u32::MAX as nat)
    } else {
        number_up_to(s, u32::MAX as nat)
    }
}

/// Reads an unsigned 32-bit number.
pub fn parse_u32(text: &str) -> (v: Option<u32>)
    ensures
        v == match u32_text(text.spec_bytes()) {
            Some(n) => Some(n as u32),
            None => None,
        },
{
    let s: &[u8] = text.as_bytes();
    let len: usize = s.len();
    if len > 0 && s[0] == 0x2B {
        read_number(&s[1..len], u32::MAX)
    } else {
        read_number(s, u32::MAX)
    }
}

// ── Endpoints ─────────────────────────────────────────────────────────────────

/// An IPv4 address and a port.
#[derive(Debug, Clone, Copy, PartialEq, Eq)]
pub struct Endpoint {
    pub ip: [u8; 4],
    pub port: u16,
}

#[verifier::ext_equal]
pub struct EndpointView {
    pub ip: Seq<u8>,
    pub port: u16,
}

impl View for Endpoint {
    type V = EndpointView;

    open spec fn view(&self) -> EndpointView {
        EndpointView { ip: self.ip@, port: self.port }
    }
}

/// The first position of an octet from `i` on, or the end.
pub open spec fn position_of(s: Seq<u8>, c: u8, i: int) -> int
    decreases s.len() - i,
{
    if i >= s.len() {
        s.len() as int
    } else if s[i] == c {
        i
    } else {
        position_of(s, c, i + 1)
    }
}

/// An octet of an address: one to three digits, without a leading zero unless
/// it is zero.
pub open spec fn octet_text(s: Seq<u8>) -> Option<u8> {
    if s.len() > 3 || (s.len() > 1 && s[0] == 0x30) {
        None
    } else {
        match number_up_to(s, 255) {
            Some(n) => Some(n as u8),
            None => None,
        }
    }
}

/// `a.b.c.d:port`: four octets and a port of at least one digit.
pub open spec fn endpoint_text(s: Seq<u8>) -> Option<EndpointView> {
    let d1 = position_of(s, 0x2E, 0);
    let d2 = position_of(s, 0x2E, d1 + 1);
    let d3 = position_of(s, 0x2E, d2 + 1);
    let colon = position_of(s, 0x3A, d3 + 1);
    if colon >= s.len() {
        None
    } else {
        match (
            octet_text(s.subrange(0, d1)),
            octet_text(s.subrange(d1 + 1, d2)),
            octet_text(s.subrange(d2 + 1, d3)),
            octet_text(s.subrange(d3 + 1, colon)),
            number_up_to(s.subrange(colon + 1, s.len() as int), 0xFFFF),
        ) {
            (Some(a), Some(b), Some(c), Some(d), Some(port)) => Some(
                EndpointView { ip: seq![a, b, c, d], port: port as u16 },
            ),
            _ => None,
        }
    }
}

proof fn lemma_position(s: Seq<u8>, c: u8, i: int)
    requires
        0 <= i,
    ensures
        i <= s.len() ==> i <= position_of(s, c, i) <= s.len(),
        i > s.len() ==> position_of(s, c, i) == s.len(),
    decreases s.len() - i,
{
    if i < s.len() {
        lemma_position(s, c, i + 1);
    }
}

fn find(s: &[u8], c: u8, from: usize) -> (p: usize)
    requires
        from <= s@.len(),
    ensures
        p == position_of(s@, c, from as int),
        from <= p <= s@.len(),
{
    let mut i: usize = from;
    while i < s.len()
        invariant
            from <= i <= s@.len(),
            position_of(s@, c, from as int) == position_of(s@, c, i as int),
        decreases s@.len() - i,
    {
        if s[i] == c {
            return i;
        }
        i += 1;
    }
    i
}

fn read_octet(s: &[u8]) -> (v: Option<u8>)
    ensures
        v == octet_text(s@),
{
    if s.len() > 3 || (s.len() > 1 && s[0] == 0x30) {
        return None;
    }
    match read_number(s, 255) {
        Some(n) => Some(n as u8),
        None => None,
    }
}

/// Reads an IPv4 endpoint.
pub fn parse_endpoint(text: &str) -> (e: Option<Endpoint>)
    ensures
        match e {
            Some(e) => endpoint_text(text.spec_bytes()) == Some(e@),
            None => endpoint_text(text.spec_bytes()) is None,
        },
{
    let s: &[u8] = text.as_bytes();
    let len: usize = s.len();
    proof {
        let d1 = position_of(s@, 0x2E, 0);
        let d2 = position_of(s@, 0x2E, d1 + 1);
        let d3 = position_of(s@, 0x2E, d2 + 1);
        lemma_position(s@, 0x2E, 0);
        lemma_position(s@, 0x2E, d1 + 1);
        lemma_position(s@, 0x2E, d2 + 1);
        lemma_position(s@, 0x3A, d3 + 1);
    }
    let d1: usize = find(s, 0x2E, 0);
    if d1 == len {
        return None;
    }
    let d2: usize = find(s, 0x2E, d1 + 1);
    if d2 == len {
        return None;
    }
    let d3: usize = find(s, 0x2E, d2 + 1);
    if d3 == len {
        return None;
    }
    let colon: usize = find(s, 0x3A, d3 + 1);
    if colon == len {
        return None;
    }
    let a = read_octet(&s[0..d1]);
    let b = read_octet(&s[d1 + 1..d2]);
    let c = read_octet(&s[d2 + 1..d3]);
    let d = read_octet(&s[d3 + 1..colon]);
    let port = read_number(&s[colon + 1..len], 0xFFFF);
    match (a, b, c, d, port) {
        (Some(a), Some(b), Some(c), Some(d), Some(port)) => {
            let e = Endpoint { ip: [a, b, c, d], port: port as u16 };
            assert(e.ip@ =~= seq![a, b, c, d]);
            Some(e)
        },
        _ => None,
    }
}

} // verus!
