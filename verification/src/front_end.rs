//! Laws of command lines, texts and links: what is read from which characters,
//! what is shown, and what the user of a link is told.

use rtc_sctp::Association;
use vstd::arithmetic::power::pow;
use vstd::prelude::*;

use crate::cli::{
    all_ascii_digits, decimal_value, endpoint_text, first_error, number_up_to, octet_text, position_of, u32_text,
    value_in, value_of, EndpointView, OptionErrorView,
};
use crate::kdf::ascii;
use crate::nas::describe::context_text;
use crate::nas::formats::{decimal_digit_at, digits_value_at};
use crate::nas::ie::{decimal_digits, digits_round_trip, digits_value};
use crate::nas::security::NasSecurityContextView;
use crate::round_trip::{next_action, RoundTripAction, MAX_ATTEMPTS, PAYLOAD};
use crate::sctp::{messages_are_handed_on, noticed, pending, reports, state_after, unread, NoticeView};
use crate::text::decimal_text;
use crate::transport::{
    after, driver_action, reported, AssociationEventView, DriverActionView, DriverEventView, LinkEventView, LinkState,
    DEFAULT_STREAM_ID, RECV_BUF_LEN,
};

verus! {

// ── Numbers ───────────────────────────────────────────────────────────────────

/// The ASCII digits of a number.
pub open spec fn ascii_digits(n: nat) -> Seq<u8> {
    decimal_digits(n).map_values(|d: u8| (48 + d) as u8)
}

/// A number is shown by its decimal digits, the ones last, without a leading
/// zero.
pub proof fn numbers_are_shown_in_decimal(n: nat, j: nat)
    requires
        j < decimal_text(n).len(),
    ensures
        decimal_text(n)[decimal_text(n).len() - 1 - j] as int == 48 + (n as int) / pow(10, j) % 10,
        (n as int) < pow(10, decimal_text(n).len()),
        decimal_text(n).len() > 1 ==> decimal_text(n)[0] != '0',
        ascii_digits(n) == ascii(decimal_text(n)),
{
    decimal_digit_at(n, j);
    digits_round_trip(n);
    let d = decimal_digits(n);
    assert(d[d.len() - 1 - j] <= 9);
    assert(d[0] <= 9);
    assert forall|i: int| 0 <= i < d.len() implies ascii_digits(n)[i] == ascii(decimal_text(n))[i] by {
        assert(d[i] <= 9);
    }
    assert(ascii_digits(n) =~= ascii(decimal_text(n)));
}

proof fn lemma_values_agree(s: Seq<u8>)
    requires
        all_ascii_digits(s),
    ensures
        decimal_value(s) == digits_value(s.map_values(|c: u8| (c - 48) as u8)),
    decreases s.len(),
{
    let t = s.map_values(|c: u8| (c - 48) as u8);
    if s.len() > 0 {
        assert(all_ascii_digits(s.drop_last())) by {
            assert forall|i: int| 0 <= i < s.len() - 1 implies crate::cli::is_digit(#[trigger] s.drop_last()[i]) by {
                assert(crate::cli::is_digit(s[i]));
            }
        }
        lemma_values_agree(s.drop_last());
        assert(t.drop_last() =~= s.drop_last().map_values(|c: u8| (c - 48) as u8));
        assert(crate::cli::is_digit(s[s.len() - 1]));
    }
}

/// A number is read from one or more digits and nothing else, has the digits
/// that were read, and is not above the limit.
pub proof fn numbers_are_read_in_decimal(s: Seq<u8>, max: nat, j: nat)
    ensures
        number_up_to(s, max) is Some ==> {
            let n = number_up_to(s, max)->0;
            &&& s.len() >= 1 && n <= max
            &&& j < s.len() ==> 0x30 <= s[s.len() - 1 - j] <= 0x39 && (n as int) / pow(10, j) % 10 == s[s.len() - 1 - j]
                - 48 && (n as int) < pow(10, s.len())
        },
{
    if number_up_to(s, max) is Some && j < s.len() {
        let t = s.map_values(|c: u8| (c - 48) as u8);
        lemma_values_agree(s);
        assert forall|i: int| 0 <= i < t.len() implies #[trigger] t[i] <= 9 by {
            assert(crate::cli::is_digit(s[i]));
        }
        assert(crate::cli::is_digit(s[s.len() - 1 - j]));
        digits_value_at(t, j);
    }
}

/// The digits of a number are read as the number, where it is not above the
/// limit; as an unsigned 32-bit number also behind a plus sign.
pub proof fn shown_numbers_are_read(n: nat, max: nat)
    ensures
        number_up_to(ascii_digits(n), max) == if n <= max {
            Some(n)
        } else {
            None
        },
        u32_text(ascii_digits(n)) == if n <= 4_294_967_295 {
            Some(n)
        } else {
            None
        },
        u32_text(seq![0x2Bu8] + ascii_digits(n)) == u32_text(ascii_digits(n)),
        u32_text(Seq::empty()) is None,
        u32_text(seq![0x2Bu8]) is None,
{
    let s = ascii_digits(n);
    let d = decimal_digits(n);
    digits_round_trip(n);
    assert forall|i: int| 0 <= i < s.len() implies crate::cli::is_digit(#[trigger] s[i]) by {
        assert(d[i] <= 9);
    }
    lemma_values_agree(s);
    let t = s.map_values(|c: u8| (c - 48) as u8);
    assert forall|i: int| 0 <= i < d.len() implies t[i] == d[i] by {
        assert(d[i] <= 9);
    }
    assert(t =~= d);
    let plus = seq![0x2Bu8] + s;
    assert(plus.subrange(1, plus.len() as int) =~= s);
    assert(s[0] != 0x2B) by {
        assert(crate::cli::is_digit(s[0]));
    }
    let alone = seq![0x2Bu8];
    assert(alone.subrange(1, 1).len() == 0);
}

/// A text with anything but digits is no number.
pub proof fn other_texts_are_no_numbers(s: Seq<u8>, max: nat, i: int)
    requires
        0 <= i < s.len(),
        s[i] < 0x30 || s[i] > 0x39,
    ensures
        number_up_to(s, max) is None,
{
    assert(!crate::cli::is_digit(s[i]));
}

// ── Endpoints ─────────────────────────────────────────────────────────────────

proof fn lemma_found_at(s: Seq<u8>, c: u8, i: int, p: int)
    requires
        0 <= i <= p < s.len(),
        s[p] == c,
        forall|j: int| i <= j < p ==> #[trigger] s[j] != c,
    ensures
        position_of(s, c, i) == p,
    decreases p - i,
{
    if i < p {
        assert(s[i] != c);
        lemma_found_at(s, c, i + 1, p);
    }
}

proof fn lemma_digits_of(n: nat)
    ensures
        ascii_digits(n).len() >= 1,
        forall|i: int| 0 <= i < ascii_digits(n).len() ==> 0x30 <= #[trigger] ascii_digits(n)[i] <= 0x39,
        ascii_digits(n).len() > 1 ==> ascii_digits(n)[0] != 0x30,
        n < 256 ==> ascii_digits(n).len() <= 3,
{
    let d = decimal_digits(n);
    digits_round_trip(n);
    assert forall|i: int| 0 <= i < ascii_digits(n).len() implies 0x30 <= #[trigger] ascii_digits(n)[i] <= 0x39 by {
        assert(d[i] <= 9);
    }
    decimal_digit_at(n, 0);
    assert(d[0] <= 9);
    if n < 256 {
        reveal_with_fuel(decimal_digits, 4);
    }
}

/// The text of an endpoint.
pub open spec fn shown_endpoint(ip: Seq<u8>, port: u16) -> Seq<u8> {
    ascii_digits(ip[0] as nat) + seq![0x2Eu8] + ascii_digits(ip[1] as nat) + seq![0x2Eu8] + ascii_digits(ip[2] as nat)
        + seq![0x2Eu8] + ascii_digits(ip[3] as nat) + seq![0x3Au8] + ascii_digits(port as nat)
}

/// Four octets with dots between them, a colon and a port are an endpoint.
#[verifier::spinoff_prover]
pub proof fn endpoints_are_read(ip: Seq<u8>, port: u16)
    requires
        ip.len() == 4,
    ensures
        endpoint_text(shown_endpoint(ip, port)) == Some(EndpointView { ip, port }),
{
    let a = ascii_digits(ip[0] as nat);
    let b = ascii_digits(ip[1] as nat);
    let c = ascii_digits(ip[2] as nat);
    let d = ascii_digits(ip[3] as nat);
    let e = ascii_digits(port as nat);
    lemma_digits_of(ip[0] as nat);
    lemma_digits_of(ip[1] as nat);
    lemma_digits_of(ip[2] as nat);
    lemma_digits_of(ip[3] as nat);
    lemma_digits_of(port as nat);
    let s = shown_endpoint(ip, port);
    let d1 = a.len() as int;
    let d2 = d1 + 1 + b.len();
    let d3 = d2 + 1 + c.len();
    let colon = d3 + 1 + d.len();
    assert(s.len() == colon + 1 + e.len());
    assert(s.subrange(0, d1) =~= a);
    assert(s.subrange(d1 + 1, d2) =~= b);
    assert(s.subrange(d2 + 1, d3) =~= c);
    assert(s.subrange(d3 + 1, colon) =~= d);
    assert(s.subrange(colon + 1, s.len() as int) =~= e);
    assert(s[d1] == 0x2E && s[d2] == 0x2E && s[d3] == 0x2E && s[colon] == 0x3A);
    assert forall|j: int| 0 <= j < d1 implies #[trigger] s[j] != 0x2E by {
        assert(s[j] == a[j]);
    }
    assert forall|j: int| d1 + 1 <= j < d2 implies #[trigger] s[j] != 0x2E by {
        assert(s[j] == b[j - d1 - 1]);
    }
    assert forall|j: int| d2 + 1 <= j < d3 implies #[trigger] s[j] != 0x2E by {
        assert(s[j] == c[j - d2 - 1]);
    }
    assert forall|j: int| d3 + 1 <= j < colon implies #[trigger] s[j] != 0x3A by {
        assert(s[j] == d[j - d3 - 1]);
    }
    lemma_found_at(s, 0x2E, 0, d1);
    lemma_found_at(s, 0x2E, d1 + 1, d2);
    lemma_found_at(s, 0x2E, d2 + 1, d3);
    lemma_found_at(s, 0x3A, d3 + 1, colon);
    shown_numbers_are_read(ip[0] as nat, 255);
    shown_numbers_are_read(ip[1] as nat, 255);
    shown_numbers_are_read(ip[2] as nat, 255);
    shown_numbers_are_read(ip[3] as nat, 255);
    shown_numbers_are_read(port as nat, 0xFFFF);
    assert(seq![ip[0], ip[1], ip[2], ip[3]] =~= ip);
}

proof fn lemma_position_holds(s: Seq<u8>, c: u8, i: int)
    requires
        0 <= i,
    ensures
        position_of(s, c, i) < s.len() ==> i <= position_of(s, c, i) && s[position_of(s, c, i)] == c,
    decreases s.len() - i,
{
    if i < s.len() {
        lemma_position_holds(s, c, i + 1);
    }
}

/// Nothing else is one: what is read as an endpoint is four texts of one to
/// three digits without a leading zero, with dots between them, then a colon
/// and the digits of the port.
pub proof fn only_endpoints_are_read(s: Seq<u8>) -> (parts: (Seq<u8>, Seq<u8>, Seq<u8>, Seq<u8>, Seq<u8>))
    requires
        endpoint_text(s) is Some,
    ensures
        s == parts.0 + seq![0x2Eu8] + parts.1 + seq![0x2Eu8] + parts.2 + seq![0x2Eu8] + parts.3 + seq![0x3Au8]
            + parts.4,
        endpoint_text(s)->0.ip.len() == 4,
        octet_text(parts.0) == Some(endpoint_text(s)->0.ip[0]),
        octet_text(parts.1) == Some(endpoint_text(s)->0.ip[1]),
        octet_text(parts.2) == Some(endpoint_text(s)->0.ip[2]),
        octet_text(parts.3) == Some(endpoint_text(s)->0.ip[3]),
        number_up_to(parts.4, 0xFFFF) == Some(endpoint_text(s)->0.port as nat),
{
    let d1 = position_of(s, 0x2E, 0);
    let d2 = position_of(s, 0x2E, d1 + 1);
    let d3 = position_of(s, 0x2E, d2 + 1);
    let colon = position_of(s, 0x3A, d3 + 1);
    lemma_position_holds(s, 0x2E, 0);
    lemma_bounded(s, 0x2E, 0);
    lemma_position_holds(s, 0x2E, d1 + 1);
    lemma_bounded(s, 0x2E, d1 + 1);
    lemma_position_holds(s, 0x2E, d2 + 1);
    lemma_bounded(s, 0x2E, d2 + 1);
    lemma_position_holds(s, 0x3A, d3 + 1);
    lemma_bounded(s, 0x3A, d3 + 1);
    let parts = (
        s.subrange(0, d1),
        s.subrange(d1 + 1, d2),
        s.subrange(d2 + 1, d3),
        s.subrange(d3 + 1, colon),
        s.subrange(colon + 1, s.len() as int),
    );
    assert(s =~= parts.0 + seq![0x2Eu8] + parts.1 + seq![0x2Eu8] + parts.2 + seq![0x2Eu8] + parts.3 + seq![0x3Au8]
        + parts.4);
    parts
}

proof fn lemma_bounded(s: Seq<u8>, c: u8, i: int)
    requires
        0 <= i,
    ensures
        position_of(s, c, i) <= s.len(),
        i >= s.len() ==> position_of(s, c, i) == s.len(),
        i <= s.len() ==> i <= position_of(s, c, i),
    decreases s.len() - i,
{
    if i < s.len() {
        lemma_bounded(s, c, i + 1);
    }
}

/// An octet of an address has one to three digits and no leading zero.
pub proof fn octets_have_no_leading_zero(s: Seq<u8>)
    ensures
        octet_text(s) is Some ==> 1 <= s.len() <= 3 && (s.len() == 1 || s[0] != 0x30) && number_up_to(s, 255) == Some(
            octet_text(s)->0 as nat,
        ),
        1 <= s.len() <= 3 && (s.len() == 1 || s[0] != 0x30) && number_up_to(s, 255) is Some ==> octet_text(s) is Some,
{
}

// ── Options ───────────────────────────────────────────────────────────────────

/// A command line is accepted if and only if it is made of pairs whose first
/// texts are all known options. Otherwise the error is that of the first text
/// at fault.
pub proof fn options_come_in_pairs(args: Seq<Seq<char>>, known: Seq<Seq<char>>, start: int, i: int)
    requires
        0 <= start <= args.len() + 1,
    ensures
        first_error(args, known, start) is None <==> (args.len() - start <= 0 || (args.len() - start) % 2 == 0) && forall|
            k: int,
        |
            start <= k < args.len() && (k - start) % 2 == 0 ==> known.contains(#[trigger] args[k]),
        start <= i < args.len() && (i - start) % 2 == 0 && !known.contains(args[i]) && (forall|k: int|
            start <= k < i && (k - start) % 2 == 0 ==> known.contains(#[trigger] args[k])) ==> first_error(
            args,
            known,
            start,
        ) == Some(OptionErrorView::Unrecognized(args[i])),
        start < args.len() && (args.len() - start) % 2 == 1 && (forall|k: int|
            start <= k < args.len() && (k - start) % 2 == 0 ==> known.contains(#[trigger] args[k])) ==> first_error(
            args,
            known,
            start,
        ) == Some(OptionErrorView::NeedsValue(args.last())),
    decreases args.len() - start,
{
    if start < args.len() && known.contains(args[start]) && start + 1 < args.len() {
        options_come_in_pairs(args, known, start + 2, i);
        assert(forall|k: int|
            #![trigger args[k]]
            start <= k < args.len() && (k - start) % 2 == 0 ==> k == start || (start + 2 <= k && (k - (start + 2)) % 2
                == 0));
        assert(forall|k: int|
            #![trigger args[k]]
            start + 2 <= k < args.len() && (k - (start + 2)) % 2 == 0 ==> start <= k && (k - start) % 2 == 0);
    }
}

/// The value of an option is the text behind its last occurrence as an option.
pub proof fn last_value_counts(args: Seq<Seq<char>>, flag: Seq<char>, i: int)
    requires
        args.len() % 2 == 0,
    ensures
        value_of(args, flag) is None <==> forall|k: int|
            0 <= k < args.len() && k % 2 == 0 ==> #[trigger] args[k] != flag,
        0 <= i < args.len() && i % 2 == 0 && args[i] == flag && (forall|k: int|
            i < k < args.len() && k % 2 == 0 ==> #[trigger] args[k] != flag) ==> value_of(args, flag) == Some(
            args[i + 1],
        ),
{
    lemma_last_value(args, flag, args.len() as int, i);
}

proof fn lemma_last_value(args: Seq<Seq<char>>, flag: Seq<char>, n: int, i: int)
    requires
        0 <= n <= args.len(),
        n % 2 == 0,
    ensures
        value_in(args, flag, n) is None <==> forall|k: int| 0 <= k < n && k % 2 == 0 ==> #[trigger] args[k] != flag,
        0 <= i < n && i % 2 == 0 && args[i] == flag && (forall|k: int|
            i < k < n && k % 2 == 0 ==> #[trigger] args[k] != flag) ==> value_in(args, flag, n) == Some(args[i + 1]),
    decreases n,
{
    if n >= 2 {
        lemma_last_value(args, flag, n - 2, i);
        assert(forall|k: int| #![trigger args[k]] 0 <= k < n && k % 2 == 0 ==> k == n - 2 || k < n - 2);
    }
}

// ── Security contexts as text ─────────────────────────────────────────────────

/// A context shows its algorithms and COUNTs, and that it keeps its keys back.
pub proof fn contexts_are_shown(c: NasSecurityContextView)
    ensures
        context_text(c) == "NasSecurityContext { eea: "@ + (match c.eea {
            crate::nas::ie::NasEeaAlgorithm::Eea0 => "Eea0"@,
            crate::nas::ie::NasEeaAlgorithm::Eea1 => "Eea1"@,
            crate::nas::ie::NasEeaAlgorithm::Eea2 => "Eea2"@,
            crate::nas::ie::NasEeaAlgorithm::Eea3 => "Eea3"@,
        }) + ", eia: "@ + (match c.eia {
            crate::nas::ie::NasEiaAlgorithm::Eia0 => "Eia0"@,
            crate::nas::ie::NasEiaAlgorithm::Eia1 => "Eia1"@,
            crate::nas::ie::NasEiaAlgorithm::Eia2 => "Eia2"@,
            crate::nas::ie::NasEiaAlgorithm::Eia3 => "Eia3"@,
        }) + ", dl_count: "@ + decimal_text(c.dl_count as nat) + ", ul_count: "@ + decimal_text(c.ul_count as nat)
            + ", k_nas_enc: \"[REDACTED]\", k_nas_int: \"[REDACTED]\" }"@,
{
}

// ── Links ─────────────────────────────────────────────────────────────────────

/// What the user of a link that is not lost is told of each event, and how the
/// event changes the link.
pub proof fn events_are_told(s: LinkState, reason: Seq<char>, messages: Seq<Seq<u8>>)
    requires
        !s.lost,
    ensures
        ({
            let up = AssociationEventView::Connected;
            &&& reported(s, up) == seq![LinkEventView::Connected]
            &&& after(s, up) == LinkState { stream_ready: true, lost: false }
        }),
        ({
            let gone = AssociationEventView::Lost { reason };
            &&& reported(s, gone) == seq![LinkEventView::Lost { reason }]
            &&& after(s, gone) == LinkState { stream_ready: s.stream_ready, lost: true }
        }),
        ({
            let failed = AssociationEventView::HandshakeFailed { reason };
            &&& reported(s, failed) == seq![LinkEventView::Lost { reason: "handshake failed: "@ + reason }]
            &&& after(s, failed) == LinkState { stream_ready: s.stream_ready, lost: true }
        }),
        ({
            let read = AssociationEventView::Read(messages);
            &&& reported(s, read).len() == messages.len()
            &&& forall|i: int| 0 <= i < messages.len() ==> reported(s, read)[i] == LinkEventView::Message(
                #[trigger] messages[i],
            )
            &&& after(s, read) == s
        }),
        reported(s, AssociationEventView::Other).len() == 0,
        after(s, AssociationEventView::Other) == s,
{
}

/// The messages that wait on stream 0 reach the user where the stream is first
/// said to have some: each that has at most 65536 octets, in order, once.
pub proof fn waiting_messages_are_delivered(s: LinkState, a: Association, i: nat)
    requires
        i < pending(a).len(),
        pending(a)[i as int] == (NoticeView::Readable { id: 0 }),
        forall|j: int| 0 <= j < i ==> #[trigger] pending(a)[j] != (NoticeView::Readable { id: 0 }),
        !state_after(s, a, i).lost,
    ensures
        reports(s, a, i + 1) == reports(s, a, i) + unread(a, 0).filter(|m: Seq<u8>| m.len() <= 65536).map_values(
            |m: Seq<u8>| LinkEventView::Message(m),
        ),
        state_after(s, a, i + 1) == state_after(s, a, i),
{
    messages_are_handed_on(unread(a, 0));
    let before = pending(a).take(i as int);
    assert(!before.contains(NoticeView::Readable { id: 0 })) by {
        if before.contains(NoticeView::Readable { id: 0 }) {
            let j = choose|j: int| 0 <= j < before.len() && before[j] == (NoticeView::Readable { id: 0 });
            assert(pending(a)[j] == before[j]);
        }
    }
}

/// A stream that was read before, a stream other than 0, and an event without
/// meaning for the link bring nothing.
pub proof fn other_notices_bring_nothing(s: LinkState, a: Association, i: nat, j: int)
    requires
        i < pending(a).len(),
        pending(a)[i as int] == NoticeView::Other || (pending(a)[i as int] matches NoticeView::Readable { id } && (id
            != 0 || (0 <= j < i && pending(a)[j] == pending(a)[i as int]))),
    ensures
        reports(s, a, i + 1) == reports(s, a, i),
        state_after(s, a, i + 1) == state_after(s, a, i),
{
    if pending(a)[i as int] == (NoticeView::Readable { id: 0 }) {
        let before = pending(a).take(i as int);
        assert(before[j] == pending(a)[j]);
        assert(before.contains(NoticeView::Readable { id: 0 }));
    }
    let more = reported(state_after(s, a, i), noticed(a, i as int));
    assert(more =~= Seq::empty());
    assert(reports(s, a, i + 1) =~= reports(s, a, i));
}

/// What the association says of itself goes on to the user.
pub proof fn association_notices_are_told(s: LinkState, a: Association, i: nat, reason: Seq<char>)
    requires
        i < pending(a).len(),
    ensures
        pending(a)[i as int] == NoticeView::Connected ==> noticed(a, i as int) == AssociationEventView::Connected,
        pending(a)[i as int] == (NoticeView::Lost { reason }) ==> noticed(a, i as int) == (
        AssociationEventView::Lost { reason }),
        pending(a)[i as int] == (NoticeView::HandshakeFailed { reason }) ==> noticed(a, i as int) == (
        AssociationEventView::HandshakeFailed { reason }),
        DEFAULT_STREAM_ID == 0,
        RECV_BUF_LEN == 65536,
        state_after(s, a, 0) == s,
        reports(s, a, 0).len() == 0,
{
}

/// What the driver of a link does about an event: nothing more once the link
/// is lost; before that a datagram is fed in, the time is told, a message is
/// written if and only if the stream is open, and an error of the socket ends
/// the link.
pub proof fn driver_acts(s: LinkState, text: Seq<char>)
    ensures
        s.lost ==> forall|e: DriverEventView| #[trigger] driver_action(s, e) == DriverActionView::Stop,
        !s.lost ==> {
            &&& driver_action(s, DriverEventView::Datagram) == DriverActionView::Feed
            &&& driver_action(s, DriverEventView::Timeout) == DriverActionView::Tick
            &&& driver_action(s, DriverEventView::UserGone) == DriverActionView::Stop
            &&& driver_action(s, DriverEventView::SocketError { text }) == (DriverActionView::Lose {
                reason: "socket recv error: "@ + text,
            })
            &&& s.stream_ready <==> driver_action(s, DriverEventView::Outbound) == DriverActionView::Write
            &&& !s.stream_ready <==> driver_action(s, DriverEventView::Outbound) == DriverActionView::Refuse
        },
{
}

// ── The user plane check ──────────────────────────────────────────────────────

/// The packet says what it is. It is sent up to five times; the first packet
/// that comes back decides, by whether it is the same.
pub proof fn round_trip_is_checked(attempt: u32, packet: Seq<u8>)
    ensures
        PAYLOAD@ == ascii("real user data over a real GTP-U tunnel"@),
        MAX_ATTEMPTS == 5,
        next_action(attempt, Some(packet)) == if packet == ascii("real user data over a real GTP-U tunnel"@) {
            RoundTripAction::Confirmed
        } else {
            RoundTripAction::Mismatch
        },
        next_action(attempt, None) == if attempt < 5 {
            RoundTripAction::Send { attempt: (attempt + 1) as u32 }
        } else {
            RoundTripAction::NoEcho
        },
{
    reveal_strlit("real user data over a real GTP-U tunnel");
    assert(PAYLOAD@ =~= ascii("real user data over a real GTP-U tunnel"@));
}

} // verus!
