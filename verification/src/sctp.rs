//! An SCTP association of `rtc_sctp`, as far as a link asks it for news and
//! gives it messages to send.
//!
//! `rtc_sctp` holds the protocol. It does no input or output of its own: what
//! happened waits in the association until it is polled, what was received
//! waits in a stream until it is read, and what was written waits until it is
//! put into datagrams.

use bytes::Bytes;
use rtc_sctp::{Association, Chunks, Event, PayloadProtocolIdentifier, StreamEvent};
use vstd::prelude::*;

use crate::octets::{bytes_as_slice, octets_of};
use crate::transport::{
    after, link_events_view, reported, AssociationEvent, AssociationEventView, LinkEvent, LinkEventView,
    LinkState, TransportError, DEFAULT_STREAM_ID, MAX_MESSAGE_LEN,
};

verus! {

#[verifier::external_type_specification]
#[verifier::external_body]
pub struct ExAssociation(Association);

#[verifier::external_type_specification]
#[verifier::external_body]
pub struct ExChunks(Chunks);

/// What an association has to tell, as far as a link takes notice of it.
#[derive(Debug, Clone)]
pub enum Notice {
    Connected,
    Lost { reason: String },
    HandshakeFailed { reason: String },
    /// There are messages on a stream.
    Readable { id: u16 },
    Other,
}

#[verifier::ext_equal]
pub enum NoticeView {
    Connected,
    Lost { reason: Seq<char> },
    HandshakeFailed { reason: Seq<char> },
    Readable { id: u16 },
    Other,
}

impl View for Notice {
    type V = NoticeView;

    open spec fn view(&self) -> NoticeView {
        match *self {
            Notice::Connected => NoticeView::Connected,
            Notice::Lost { reason } => NoticeView::Lost { reason: reason@ },
            Notice::HandshakeFailed { reason } => NoticeView::HandshakeFailed { reason: reason@ },
            Notice::Readable { id } => NoticeView::Readable { id },
            Notice::Other => NoticeView::Other,
        }
    }
}

/// The events that wait in an association, in the order in which they are
/// polled.
pub uninterp spec fn pending(a: Association) -> Seq<NoticeView>;

/// The messages that wait on a stream, in the order in which they are read;
/// none where there is no such stream, or where it is closed.
pub uninterp spec fn unread(a: Association, id: u16) -> Seq<Seq<u8>>;

/// Whether an association has a stream.
pub uninterp spec fn has_stream(a: Association, id: u16) -> bool;

/// The octets that wait to be sent on a stream, in order: those in the queue
/// that the stream's messages go to. Without a stream, that is the queue of
/// ordered messages.
pub uninterp spec fn outgoing(a: Association, id: u16) -> Seq<u8>;

/// Why a message cannot be written to a stream, in words; nothing where it
/// can.
pub uninterp spec fn refusal(a: Association, id: u16, message: Seq<u8>) -> Option<Seq<char>>;

/// The octets of a received message.
pub uninterp spec fn chunk_octets(c: Chunks) -> Seq<u8>;

/// `rtc_sctp::Association::poll`: takes the first event that waits, if any.
/// Streams, and what waits to be sent, stay as they are.
#[verifier::external_body]
fn poll(a: &mut Association) -> (e: Option<Notice>)
    ensures
        pending(*old(a)).len() == 0 <==> e is None,
        e is None ==> pending(*final(a)) == pending(*old(a)),
        e is Some ==> e->0@ == pending(*old(a))[0] && pending(*final(a)) == pending(*old(a)).drop_first(),
        forall|id: u16| #[trigger] unread(*final(a), id) == unread(*old(a), id),
        forall|id: u16| #[trigger] has_stream(*final(a), id) == has_stream(*old(a), id),
        forall|id: u16| #[trigger] outgoing(*final(a), id) == outgoing(*old(a), id),
{
    Some(
        match a.poll()? {
            Event::Connected => Notice::Connected,
            Event::AssociationLost { reason, .. } => Notice::Lost { reason: reason.to_string() },
            Event::HandshakeFailed { reason } => Notice::HandshakeFailed { reason: reason.to_string() },
            Event::Stream(StreamEvent::Readable { id }) => Notice::Readable { id },
            _ => Notice::Other,
        },
    )
}

/// `rtc_sctp::Association::open_stream`: makes a stream unless it is there
/// already. No event and no message comes or goes.
#[verifier::external_body]
fn open_stream(a: &mut Association, id: u16)
    ensures
        has_stream(*final(a), id),
        pending(*final(a)) == pending(*old(a)),
        forall|other: u16| #[trigger] unread(*final(a), other) == unread(*old(a), other),
        forall|other: u16| other != id ==> #[trigger] has_stream(*final(a), other) == has_stream(*old(a), other),
        forall|other: u16| #[trigger] outgoing(*final(a), other) == outgoing(*old(a), other),
{
    let _ = a.open_stream(id, PayloadProtocolIdentifier::Unknown);
}

/// `rtc_sctp::Stream::read_sctp` on the stream that `rtc_sctp::Association::stream`
/// gives: takes the first message that waits on a stream, if any. Events,
/// other streams, and what waits to be sent stay as they are.
#[verifier::external_body]
fn read_sctp(a: &mut Association, id: u16) -> (c: Option<Chunks>)
    ensures
        unread(*old(a), id).len() == 0 <==> c is None,
        c is None ==> unread(*final(a), id) == unread(*old(a), id),
        c is Some ==> chunk_octets(c->0) == unread(*old(a), id)[0] && unread(*final(a), id) == unread(
            *old(a),
            id,
        ).drop_first(),
        pending(*final(a)) == pending(*old(a)),
        forall|other: u16| other != id ==> #[trigger] unread(*final(a), other) == unread(*old(a), other),
        forall|other: u16| #[trigger] has_stream(*final(a), other) == has_stream(*old(a), other),
        forall|other: u16| #[trigger] outgoing(*final(a), other) == outgoing(*old(a), other),
{
    a.stream(id).ok()?.read_sctp().ok()?
}

/// Whether `after` is `before`, with at most one more event that needs no
/// action.
pub open spec fn same_news(before: Seq<NoticeView>, after: Seq<NoticeView>) -> bool {
    after == before || exists|i: int|
        0 <= i <= before.len() && after == #[trigger] before.insert(i, NoticeView::Other)
}

/// `rtc_sctp::Stream::write_with_ppi` on the stream that
/// `rtc_sctp::Association::stream` gives, without a protocol identifier: the
/// whole message is put behind what waits to be sent on the stream, or it is
/// refused and nothing is. It is refused where there is no such stream.
/// Otherwise only the event that much is waiting can be new.
#[verifier::external_body]
fn write_with_ppi(a: &mut Association, id: u16, message: &[u8]) -> (r: Result<(), String>)
    ensures
        refusal(*old(a), id, message@) is None <==> r is Ok,
        r is Ok ==> outgoing(*final(a), id) == outgoing(*old(a), id) + message@,
        r is Err ==> Some(r->Err_0@) == refusal(*old(a), id, message@) && outgoing(*final(a), id) == outgoing(
            *old(a),
            id,
        ),
        !has_stream(*old(a), id) ==> r is Err,
        same_news(pending(*old(a)), pending(*final(a))),
        forall|other: u16| other != id ==> #[trigger] outgoing(*final(a), other) == outgoing(*old(a), other),
        forall|other: u16| #[trigger] unread(*final(a), other) == unread(*old(a), other),
        forall|other: u16| #[trigger] has_stream(*final(a), other) == has_stream(*old(a), other),
{
    let mut s = a.stream(id).map_err(|e| e.to_string())?;
    s.write_with_ppi(message, PayloadProtocolIdentifier::Unknown).map(|_| ()).map_err(|e| e.to_string())
}

/// `rtc_sctp::Chunks::to_payload`: the octets of a message, unless there are
/// more than `max_len`.
#[verifier::external_body]
fn to_payload(c: &Chunks, max_len: usize) -> (b: Option<Bytes>)
    ensures
        chunk_octets(*c).len() <= max_len <==> b is Some,
        b is Some ==> octets_of(b->0) == chunk_octets(*c),
{
    c.to_payload(max_len).ok().map(|b| b.freeze())
}

/// The messages that are handed on: those that are not too long.
pub open spec fn handed_on(messages: Seq<Seq<u8>>) -> Seq<Seq<u8>>
    decreases messages.len(),
{
    if messages.len() == 0 {
        Seq::empty()
    } else if messages[0].len() <= MAX_MESSAGE_LEN {
        seq![messages[0]] + handed_on(messages.drop_first())
    } else {
        handed_on(messages.drop_first())
    }
}

/// Of the messages that wait, exactly those of up to 65536 octets are handed
/// on, each as it is and in their order: none is lost, doubled or moved.
pub proof fn messages_are_handed_on(messages: Seq<Seq<u8>>)
    ensures
        handed_on(messages) == messages.filter(|m: Seq<u8>| m.len() <= 65536),
        (forall|i: int| 0 <= i < messages.len() ==> (#[trigger] messages[i]).len() <= 65536) ==> handed_on(messages)
            == messages,
    decreases messages.len(),
{
    let fits = |m: Seq<u8>| m.len() <= 65536;
    if messages.len() > 0 {
        let rest = messages.drop_first();
        messages_are_handed_on(rest);
        assert(messages =~= seq![messages[0]] + rest);
        Seq::filter_distributes_over_add(seq![messages[0]], rest, fits);
        reveal_with_fuel(Seq::filter, 2);
        assert(seq![messages[0]].drop_last() =~= Seq::<Seq<u8>>::empty());
        let first = seq![messages[0]].filter(fits);
        if messages[0].len() <= 65536 {
            assert(first =~= seq![messages[0]]);
        } else {
            assert(first =~= Seq::<Seq<u8>>::empty());
        }
        assert(handed_on(messages) =~= first + rest.filter(fits));
        if forall|i: int| 0 <= i < messages.len() ==> (#[trigger] messages[i]).len() <= 65536 {
            assert forall|i: int| 0 <= i < rest.len() implies (#[trigger] rest[i]).len() <= 65536 by {
                assert(messages[i + 1].len() <= 65536);
            }
            assert(messages[0].len() <= 65536);
        }
    } else {
        reveal(Seq::filter);
        assert(messages.filter(fits) =~= Seq::empty());
        assert(handed_on(messages) =~= messages);
    }
}

/// Messages that come later change nothing of those before them: what is
/// handed on of both is what is handed on of the first, then of the second.
pub proof fn handing_on_goes_message_by_message(first: Seq<Seq<u8>>, second: Seq<Seq<u8>>)
    ensures
        handed_on(first + second) == handed_on(first) + handed_on(second),
{
    messages_are_handed_on(first);
    messages_are_handed_on(second);
    messages_are_handed_on(first + second);
    Seq::filter_distributes_over_add(first, second, |m: Seq<u8>| m.len() <= 65536);
}

spec fn payloads(messages: Seq<Bytes>) -> Seq<Seq<u8>> {
    messages.map_values(|b: Bytes| octets_of(b))
}

/// Reads all messages that wait on a stream.
fn read_all(a: &mut Association, id: u16) -> (messages: Vec<Bytes>)
    ensures
        payloads(messages@) == handed_on(unread(*old(a), id)),
        unread(*final(a), id).len() == 0,
        pending(*final(a)) == pending(*old(a)),
        forall|other: u16| other != id ==> #[trigger] unread(*final(a), other) == unread(*old(a), other),
        forall|other: u16| #[trigger] has_stream(*final(a), other) == has_stream(*old(a), other),
        forall|other: u16| #[trigger] outgoing(*final(a), other) == outgoing(*old(a), other),
{
    let mut messages: Vec<Bytes> = Vec::new();
    let ghost start = *a;
    assert(payloads(messages@) + handed_on(unread(*a, id)) =~= handed_on(unread(start, id)));
    loop
        invariant
            start == *old(a),
            payloads(messages@) + handed_on(unread(*a, id)) == handed_on(unread(start, id)),
            pending(*a) == pending(start),
            forall|other: u16| other != id ==> #[trigger] unread(*a, other) == unread(start, other),
            forall|other: u16| #[trigger] has_stream(*a, other) == has_stream(start, other),
            forall|other: u16| #[trigger] outgoing(*a, other) == outgoing(start, other),
        decreases unread(*a, id).len(),
    {
        let ghost rest = unread(*a, id);
        let ghost before = payloads(messages@);
        match read_sctp(a, id) {
            None => {
                assert(payloads(messages@) =~= before + handed_on(rest));
                return messages;
            },
            Some(c) => {
                if let Some(b) = to_payload(&c, MAX_MESSAGE_LEN) {
                    messages.push(b);
                    assert(payloads(messages@) =~= before + seq![rest[0]]);
                }
                assert(payloads(messages@) + handed_on(rest.drop_first()) =~= before + handed_on(rest));
            },
        }
    }
}

/// What the event at position `i` is to a link. A stream that was read before
/// has no more messages, and messages on other streams are not the link's.
pub open spec fn noticed(a: Association, i: int) -> AssociationEventView {
    match pending(a)[i] {
        NoticeView::Connected => AssociationEventView::Connected,
        NoticeView::Lost { reason } => AssociationEventView::Lost { reason },
        NoticeView::HandshakeFailed { reason } => AssociationEventView::HandshakeFailed { reason },
        NoticeView::Readable { id } => if id == DEFAULT_STREAM_ID {
            AssociationEventView::Read(
                if pending(a).take(i).contains(NoticeView::Readable { id }) {
                    Seq::empty()
                } else {
                    handed_on(unread(a, id))
                },
            )
        } else {
            AssociationEventView::Other
        },
        NoticeView::Other => AssociationEventView::Other,
    }
}

/// The state of a link after the first `n` events.
pub open spec fn state_after(s: LinkState, a: Association, n: nat) -> LinkState
    decreases n,
{
    if n == 0 {
        s
    } else {
        after(state_after(s, a, (n - 1) as nat), noticed(a, n - 1))
    }
}

/// What the first `n` events report.
pub open spec fn reports(s: LinkState, a: Association, n: nat) -> Seq<LinkEventView>
    decreases n,
{
    if n == 0 {
        Seq::empty()
    } else {
        reports(s, a, (n - 1) as nat) + reported(state_after(s, a, (n - 1) as nat), noticed(a, n - 1))
    }
}

/// A link is ready if and only if it was before, or the user was told that it
/// is up.
pub proof fn connected_means_ready(s: LinkState, a: Association, n: nat)
    ensures
        state_after(s, a, n).stream_ready <==> s.stream_ready || reports(s, a, n).contains(LinkEventView::Connected),
    decreases n,
{
    if n > 0 {
        let m = (n - 1) as nat;
        connected_means_ready(s, a, m);
        let before = reports(s, a, m);
        let all = reports(s, a, n);
        let more = reported(state_after(s, a, m), noticed(a, n - 1));
        if before.contains(LinkEventView::Connected) {
            let i = choose|i: int| 0 <= i < before.len() && before[i] == LinkEventView::Connected;
            assert(all[i] == LinkEventView::Connected);
        }
        if noticed(a, n - 1) == AssociationEventView::Connected && !state_after(s, a, m).lost {
            assert(more[0] == LinkEventView::Connected);
            assert(all[before.len() as int] == LinkEventView::Connected);
        }
        if all.contains(LinkEventView::Connected) {
            let i = choose|i: int| 0 <= i < all.len() && all[i] == LinkEventView::Connected;
            if i < before.len() {
                assert(before[i] == LinkEventView::Connected);
            } else {
                assert(more[i - before.len()] == LinkEventView::Connected);
            }
        }
    }
}

/// The loss of a link is the last thing that is reported of it, and it is
/// reported if and only if the link is lost then and was not before. Of a link
/// that is lost nothing is reported, and it stays as it is.
pub proof fn nothing_follows_lost(s: LinkState, a: Association, n: nat)
    ensures
        s.lost ==> reports(s, a, n).len() == 0 && state_after(s, a, n) == s,
        forall|i: int|
            0 <= i < reports(s, a, n).len() && (#[trigger] reports(s, a, n)[i]) is Lost ==> i == reports(s, a, n).len()
                - 1,
        state_after(s, a, n).lost && !s.lost <==> reports(s, a, n).len() > 0 && reports(s, a, n).last() is Lost,
        state_after(s, a, n).lost ==> reports(s, a, n + 1) == reports(s, a, n),
    decreases n,
{
    assert(state_after(s, a, n).lost ==> reports(s, a, n + 1) =~= reports(s, a, n));
    if n > 0 {
        let m = (n - 1) as nat;
        nothing_follows_lost(s, a, m);
        let before = reports(s, a, m);
        let more = reported(state_after(s, a, m), noticed(a, n - 1));
        let all = reports(s, a, n);
        assert(all == before + more);
        if state_after(s, a, m).lost {
            assert(all =~= before);
        } else {
            assert(forall|i: int| 0 <= i < before.len() ==> all[i] == before[i]);
            assert(forall|i: int| before.len() <= i < all.len() ==> all[i] == more[i - before.len()]);
            assert(before.len() > 0 ==> !(before.last() is Lost));
        }
    }
}

/// What an association holds after its first `n` events have been dealt with.
spec fn dealt_with(a: Association, b: Association, n: nat) -> bool {
    let done = pending(a).take(n as int);
    &&& n <= pending(a).len()
    &&& pending(b) == pending(a).subrange(n as int, pending(a).len() as int)
    &&& has_stream(b, DEFAULT_STREAM_ID) == (has_stream(a, DEFAULT_STREAM_ID) || done.contains(NoticeView::Connected))
    &&& forall|id: u16|
        #[trigger] unread(b, id) == if done.contains(NoticeView::Readable { id }) {
            Seq::empty()
        } else {
            unread(a, id)
        }
}

/// That the link is up is reported of an event that says so.
proof fn lemma_connected_was_pending(s: LinkState, a: Association, n: nat)
    requires
        n <= pending(a).len(),
    ensures
        reports(s, a, n).contains(LinkEventView::Connected) ==> pending(a).take(n as int).contains(
            NoticeView::Connected,
        ),
    decreases n,
{
    if n > 0 && reports(s, a, n).contains(LinkEventView::Connected) {
        let m = (n - 1) as nat;
        lemma_connected_was_pending(s, a, m);
        let before = reports(s, a, m);
        let all = reports(s, a, n);
        let taken = pending(a).take(n as int);
        let i = choose|i: int| 0 <= i < all.len() && all[i] == LinkEventView::Connected;
        if i < before.len() {
            assert(before[i] == LinkEventView::Connected);
            let earlier = pending(a).take(n - 1);
            let j = choose|j: int| 0 <= j < earlier.len() && earlier[j] == NoticeView::Connected;
            assert(taken[j] == NoticeView::Connected);
        } else {
            let more = reported(state_after(s, a, m), noticed(a, n - 1));
            assert(more[i - before.len()] == LinkEventView::Connected);
            assert(taken[n - 1] == NoticeView::Connected);
        }
    }
}

/// One more event dealt with.
proof fn lemma_dealt_with(a: Association, b: Association, c: Association, n: nat)
    requires
        dealt_with(a, b, n),
        n < pending(a).len(),
        pending(c) == pending(b).drop_first(),
        match pending(a)[n as int] {
            NoticeView::Connected => has_stream(c, DEFAULT_STREAM_ID) && forall|id: u16|
                #[trigger] unread(c, id) == unread(b, id),
            NoticeView::Readable { id } => {
                &&& unread(c, id).len() == 0
                &&& forall|other: u16| other != id ==> #[trigger] unread(c, other) == unread(b, other)
                &&& has_stream(c, DEFAULT_STREAM_ID) == has_stream(b, DEFAULT_STREAM_ID)
            },
            _ => {
                &&& forall|id: u16| #[trigger] unread(c, id) == unread(b, id)
                &&& has_stream(c, DEFAULT_STREAM_ID) == has_stream(b, DEFAULT_STREAM_ID)
            },
        },
    ensures
        dealt_with(a, c, n + 1),
{
    let p = pending(a);
    let e = p[n as int];
    let done = p.take(n as int);
    let after = p.take(n as int + 1);
    assert(after =~= done.push(e));
    assert(forall|x: NoticeView| #[trigger] after.contains(x) <==> done.contains(x) || x == e) by {
        assert forall|x: NoticeView| #[trigger] after.contains(x) implies done.contains(x) || x == e by {
            let i = choose|i: int| 0 <= i < after.len() && after[i] == x;
            if i < n {
                assert(done[i] == x);
            }
        }
        assert forall|x: NoticeView| done.contains(x) || x == e implies #[trigger] after.contains(x) by {
            if done.contains(x) {
                let i = choose|i: int| 0 <= i < done.len() && done[i] == x;
                assert(after[i] == x);
            } else {
                assert(after[n as int] == x);
            }
        }
    }
    assert(pending(c) =~= p.subrange(n as int + 1, p.len() as int));
    assert forall|id: u16| #[trigger] unread(c, id) == if after.contains(NoticeView::Readable { id }) {
        Seq::empty()
    } else {
        unread(a, id)
    } by {
        assert(unread(b, id) == if done.contains(NoticeView::Readable { id }) {
            Seq::empty()
        } else {
            unread(a, id)
        });
        if e == (NoticeView::Readable { id }) {
            assert(unread(c, id) =~= Seq::empty());
        }
    }
}

/// Deals with one event.
fn notice(a: &mut Association, e: Notice) -> (r: AssociationEvent)
    ensures
        pending(*final(a)) == pending(*old(a)),
        forall|id: u16| #[trigger] outgoing(*final(a), id) == outgoing(*old(a), id),
        match e@ {
            NoticeView::Connected => {
                &&& r@ == AssociationEventView::Connected
                &&& has_stream(*final(a), DEFAULT_STREAM_ID)
                &&& forall|id: u16| #[trigger] unread(*final(a), id) == unread(*old(a), id)
            },
            NoticeView::Readable { id } => {
                &&& r@ == if id == DEFAULT_STREAM_ID {
                    AssociationEventView::Read(handed_on(unread(*old(a), id)))
                } else {
                    AssociationEventView::Other
                }
                &&& unread(*final(a), id).len() == 0
                &&& forall|other: u16| other != id ==> #[trigger] unread(*final(a), other) == unread(*old(a), other)
                &&& has_stream(*final(a), DEFAULT_STREAM_ID) == has_stream(*old(a), DEFAULT_STREAM_ID)
            },
            NoticeView::Lost { reason } => r@ == AssociationEventView::Lost { reason } && *final(a) == *old(a),
            NoticeView::HandshakeFailed { reason } => r@ == AssociationEventView::HandshakeFailed { reason }
                && *final(a) == *old(a),
            NoticeView::Other => r@ == AssociationEventView::Other && *final(a) == *old(a),
        },
{
    match e {
        Notice::Connected => {
            open_stream(a, DEFAULT_STREAM_ID);
            AssociationEvent::Connected
        },
        Notice::Lost { reason } => AssociationEvent::Lost { reason },
        Notice::HandshakeFailed { reason } => AssociationEvent::HandshakeFailed { reason },
        Notice::Readable { id } => {
            let messages = read_all(a, id);
            if id == DEFAULT_STREAM_ID {
                AssociationEvent::Read(messages)
            } else {
                AssociationEvent::Other
            }
        },
        Notice::Other => AssociationEvent::Other,
    }
}

impl LinkState {
    /// Takes all that an association has to tell to what the user of the link
    /// is told: its events in order, and the messages of the stream where the
    /// stream is first said to have some. Messages on other streams are read
    /// and dropped. Afterwards no event waits. What waits to be sent stays.
    ///
    /// Once the user is told that the link is up, the stream is there and
    /// counts as open.
    pub fn drain(&mut self, a: &mut Association) -> (out: Vec<LinkEvent>)
        ensures
            link_events_view(out@) == reports(*old(self), *old(a), pending(*old(a)).len()),
            *final(self) == state_after(*old(self), *old(a), pending(*old(a)).len()),
            pending(*final(a)).len() == 0,
            link_events_view(out@).contains(LinkEventView::Connected) ==> final(self).stream_ready && has_stream(
                *final(a),
                DEFAULT_STREAM_ID,
            ),
            forall|id: u16| #[trigger] outgoing(*final(a), id) == outgoing(*old(a), id),
    {
        let ghost start = *a;
        let ghost s = *self;
        let ghost mut n: nat = 0;
        let mut out: Vec<LinkEvent> = Vec::new();
        assert(link_events_view(out@) =~= reports(s, start, 0));
        assert(pending(start).subrange(0, pending(start).len() as int) =~= pending(start));
        loop
            invariant
                start == *old(a),
                s == *old(self),
                dealt_with(start, *a, n),
                link_events_view(out@) == reports(s, start, n),
                *self == state_after(s, start, n),
                forall|id: u16| #[trigger] outgoing(*a, id) == outgoing(start, id),
            decreases pending(*a).len(),
        {
            let ghost before = *a;
            match poll(a) {
                None => {
                    assert(n == pending(start).len());
                    proof {
                        connected_means_ready(s, start, n);
                        lemma_connected_was_pending(s, start, n);
                    }
                    return out;
                },
                Some(e) => {
                    assert(e@ == pending(start)[n as int]);
                    let event = notice(a, e);
                    proof {
                        lemma_dealt_with(start, before, *a, n);
                        n = n + 1;
                    }
                    let mut told = self.on_association_event(event);
                    let ghost earlier = link_events_view(out@);
                    let ghost more = link_events_view(told@);
                    out.append(&mut told);
                    assert(link_events_view(out@) =~= earlier + more);
                },
            }
        }
    }

    /// Writes a message to the stream of a link. Before the stream is open, and
    /// once the link is lost, the message is refused, and the association is
    /// not touched.
    pub fn write(&self, a: &mut Association, message: &Bytes) -> (r: Result<(), TransportError>)
        ensures
            self.lost ==> r is Err && r->Err_0 is Closed && *final(a) == *old(a),
            !self.lost && !self.stream_ready ==> r is Err && r->Err_0 is NotReady && *final(a) == *old(a),
            !self.lost && self.stream_ready ==> match refusal(*old(a), DEFAULT_STREAM_ID, octets_of(*message)) {
                None => {
                    &&& r is Ok
                    &&& outgoing(*final(a), DEFAULT_STREAM_ID) == outgoing(*old(a), DEFAULT_STREAM_ID) + octets_of(
                        *message,
                    )
                },
                Some(text) => {
                    &&& r is Err
                    &&& r->Err_0 matches TransportError::Sctp(t) && t@ == text
                    &&& outgoing(*final(a), DEFAULT_STREAM_ID) == outgoing(*old(a), DEFAULT_STREAM_ID)
                },
            },
            !has_stream(*old(a), DEFAULT_STREAM_ID) ==> r is Err,
            same_news(pending(*old(a)), pending(*final(a))),
            forall|id: u16|
                id != DEFAULT_STREAM_ID ==> #[trigger] outgoing(*final(a), id) == outgoing(*old(a), id),
            forall|id: u16| #[trigger] unread(*final(a), id) == unread(*old(a), id),
            forall|id: u16| #[trigger] has_stream(*final(a), id) == has_stream(*old(a), id),
    {
        self.check_ready()?;
        match write_with_ppi(a, DEFAULT_STREAM_ID, bytes_as_slice(message)) {
            Ok(_) => Ok(()),
            Err(text) => Err(TransportError::Sctp(text)),
        }
    }
}

} // verus!
