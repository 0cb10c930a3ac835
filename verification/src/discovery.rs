//! Peer discovery: the decisions of one discovery round.
//!
//! A round sends a fixed probe to every broadcast target and then listens
//! until its deadline. Every datagram that begins with the service
//! announcement counts as a reply, and its sender as a peer that serves on
//! the fixed service port. The socket belongs to the caller: it reports
//! what each receive call came to, and the round says how to go on and, in
//! the end, which peers were found.

use crate::text::{
    begins_with, chars_of, lemma_text_before_asymmetric, lemma_text_before_irreflexive,
    lemma_text_before_transitive, order_of, starts_with, text_before, TextOrder,
};
use vstd::prelude::*;
use vstd::string::StringSliceAdditionalSpecFns;
use vstd::utf8::{decode_utf8, valid_utf8};

verus! {

/// The UDP port that probes are sent to.
pub const DISCOVERY_PORT: u16 = 4837;

/// The TCP port that every peer serves files on.
pub const SERVICE_PORT: u16 = 4836;

/// How long a round listens, in milliseconds.
pub const DISCOVERY_TIMEOUT_MS: u64 = 3000;

/// How long one receive call waits for a datagram, in milliseconds.
pub const RECEIVE_TIMEOUT_MS: u64 = 100;

/// How long the round rests after a receive call that brought nothing, in
/// milliseconds.
pub const RETRY_DELAY_MS: u64 = 50;

/// The size of the buffer that a datagram is received into.
pub const DATAGRAM_CAPACITY: usize = 1024;

/// The bytes of the probe.
pub open spec fn probe_bytes() -> Seq<u8> {
    "ZHER_DISCOVERY".spec_bytes()
}

/// The probe that is sent to every broadcast target.
pub fn probe_payload() -> (r: Vec<u8>)
    ensures
        r@ == probe_bytes(),
{
    "ZHER_DISCOVERY".as_bytes_vec()
}

/// What every reply begins with.
pub open spec fn announcement() -> Seq<char> {
    "ZHER_SERVICE:"@
}

/// The datagram is a reply: it is valid UTF-8 and begins with the service
/// announcement.
pub open spec fn is_reply(payload: Seq<u8>) -> bool {
    valid_utf8(payload) && begins_with(decode_utf8(payload), announcement())
}

/// Calls `core::str::from_utf8`. The contract claims what its
/// documentation says: the bytes are accepted exactly when they are valid
/// UTF-8, and the text then holds the characters that they encode.
#[verifier::external_body]
fn utf8_text(bytes: &[u8]) -> (r: Option<&str>)
    ensures
        r is Some <==> valid_utf8(bytes@),
        r matches Some(text) ==> text@ == decode_utf8(bytes@),
{
    std::str::from_utf8(bytes).ok()
}

/// Tests whether a text begins with the service announcement.
pub fn is_announcement(text: &str) -> (r: bool)
    ensures
        r == begins_with(text@, announcement()),
{
    starts_with(&chars_of(text), &chars_of("ZHER_SERVICE:"))
}

/// Tests whether a datagram is a reply to the probe.
pub fn is_service_reply(payload: &[u8]) -> (r: bool)
    ensures
        r == is_reply(payload@),
{
    match utf8_text(payload) {
        Some(text) => is_announcement(text),
        None => false,
    }
}

/// A peer that was found.
#[derive(Clone, Debug, PartialEq, Eq)]
pub struct ServiceInfo {
    /// The peer's address as text.
    pub ip: String,
    /// The port that the peer serves on.
    pub port: u16,
    /// The URL of the peer's service.
    pub url: String,
}

/// What a [`ServiceInfo`] says.
pub struct ServiceView {
    pub ip: Seq<char>,
    pub port: u16,
    pub url: Seq<char>,
}

impl View for ServiceInfo {
    type V = ServiceView;

    open spec fn view(&self) -> ServiceView {
        ServiceView { ip: self.ip@, port: self.port, url: self.url@ }
    }
}

/// The service of the peer at the address `ip`: all but the address is
/// fixed.
pub open spec fn service_at(ip: Seq<char>) -> ServiceView {
    ServiceView { ip, port: SERVICE_PORT, url: "http://"@ + ip + ":4836"@ }
}

impl ServiceInfo {
    /// Describes the service of the peer at the address `ip`.
    pub fn for_peer(ip: String) -> (r: ServiceInfo)
        ensures
            r@ == service_at(ip@),
    {
        let mut url = String::from_str("http://");
        url.append(ip.as_str());
        url.append(":4836");
        ServiceInfo { ip, port: SERVICE_PORT, url }
    }
}

/// What a list of peers says.
pub open spec fn service_views(peers: Seq<ServiceInfo>) -> Seq<ServiceView> {
    peers.map_values(|peer: ServiceInfo| peer@)
}

/// What one receive call on the round's socket came to.
#[derive(Clone, Debug, PartialEq, Eq)]
pub enum Received {
    /// A datagram arrived from the address `sender`.
    Datagram { payload: Vec<u8>, sender: String },
    /// Nothing arrived in time, or the call would have blocked.
    Idle,
    /// The call failed in any other way.
    Failed,
}

/// How the round goes on after a receive call.
#[derive(Clone, Copy, Debug, PartialEq, Eq, Structural)]
pub enum PollAction {
    /// Receive again at once.
    Continue,
    /// Rest for this many milliseconds, then receive again.
    Wait(u64),
    /// Stop listening: the round ends early.
    Stop,
}

/// How the round goes on after `event`: a receive call that brought
/// nothing is no error, and only a real failure ends the round before its
/// deadline.
pub open spec fn action_after(event: Received) -> PollAction {
    match event {
        Received::Datagram { .. } => PollAction::Continue,
        Received::Idle => PollAction::Wait(RETRY_DELAY_MS),
        Received::Failed => PollAction::Stop,
    }
}

/// The round listens on while less than the timeout has passed.
pub fn within_deadline(elapsed_ms: u64) -> (r: bool)
    ensures
        r == (elapsed_ms < DISCOVERY_TIMEOUT_MS),
{
    elapsed_ms < DISCOVERY_TIMEOUT_MS
}

/// The senders of the replies among `events`, in the order of arrival, up
/// to the first failure.
pub open spec fn reply_senders(events: Seq<Received>) -> Seq<Seq<char>>
    decreases events.len(),
{
    if events.len() == 0 {
        Seq::empty()
    } else {
        match events[0] {
            Received::Datagram { payload, sender } => if is_reply(payload@) {
                seq![sender@] + reply_senders(events.skip(1))
            } else {
                reply_senders(events.skip(1))
            },
            Received::Idle => reply_senders(events.skip(1)),
            Received::Failed => Seq::empty(),
        }
    }
}

/// The peers come in rising dictionary order of their addresses, so no
/// address comes twice.
pub open spec fn rising_by_address(peers: Seq<ServiceView>) -> bool {
    forall|i: int, j: int|
        0 <= i < j < peers.len() ==> text_before((#[trigger] peers[i]).ip, (#[trigger] peers[j]).ip)
}

/// One of `peers` has the address `ip`.
pub open spec fn has_address(peers: Seq<ServiceView>, ip: Seq<char>) -> bool {
    exists|k: int| 0 <= k < peers.len() && (#[trigger] peers[k]).ip == ip
}

/// `peers` is the result of a round whose replies came from `senders`:
/// one peer for each address that a reply came from, sorted by address,
/// each with the fixed port and the URL made from its address.
pub open spec fn is_peer_list(peers: Seq<ServiceView>, senders: Seq<Seq<char>>) -> bool {
    &&& rising_by_address(peers)
    &&& forall|k: int| 0 <= k < peers.len() ==> #[trigger] peers[k] == service_at(peers[k].ip)
    &&& forall|ip: Seq<char>| #[trigger] has_address(peers, ip) <==> senders.contains(ip)
}

/// One discovery round: the addresses that replies have come from so far.
#[derive(Clone, Debug, PartialEq, Eq)]
pub struct DiscoveryRound {
    pub senders: Vec<String>,
}

impl DiscoveryRound {
    /// The addresses that replies have come from, in the order of arrival.
    pub open spec fn sender_texts(&self) -> Seq<Seq<char>> {
        self.senders@.map_values(|sender: String| sender@)
    }

    /// A round that has heard nothing yet.
    pub fn new() -> (r: DiscoveryRound)
        ensures
            r.sender_texts() == Seq::<Seq<char>>::empty(),
    {
        let r = DiscoveryRound { senders: Vec::new() };
        assert(r.sender_texts() =~= Seq::<Seq<char>>::empty());
        r
    }

    /// Takes what one receive call came to: notes the sender if a reply
    /// arrived, and says how to go on.
    pub fn observe(&mut self, event: &Received) -> (action: PollAction)
        ensures
            action == action_after(*event),
            final(self).sender_texts() == match *event {
                Received::Datagram { payload, sender } => if is_reply(payload@) {
                    old(self).sender_texts().push(sender@)
                } else {
                    old(self).sender_texts()
                },
                _ => old(self).sender_texts(),
            },
    {
        match event {
            Received::Datagram { payload, sender } => {
                if is_service_reply(payload.as_slice()) {
                    self.senders.push(sender.clone());
                    assert(self.sender_texts() =~= old(self).sender_texts().push(sender@));
                }
                PollAction::Continue
            },
            Received::Idle => PollAction::Wait(RETRY_DELAY_MS),
            Received::Failed => PollAction::Stop,
        }
    }

    /// Ends the round: the peers that were found.
    pub fn finish(self) -> (peers: Vec<ServiceInfo>)
        ensures
            is_peer_list(service_views(peers@), self.sender_texts()),
    {
        let mut peers: Vec<ServiceInfo> = Vec::new();
        let mut i: usize = 0;
        assert(self.sender_texts().take(0) =~= Seq::<Seq<char>>::empty());
        while i < self.senders.len()
            invariant
                i <= self.senders.len(),
                is_peer_list(service_views(peers@), self.sender_texts().take(i as int)),
            decreases self.senders.len() - i,
        {
            let ghost heard = self.sender_texts().take(i as int);
            let ghost before = service_views(peers@);
            insert_peer(&mut peers, &self.senders[i]);
            proof {
                let sender = self.senders@[i as int]@;
                let longer = self.sender_texts().take(i + 1);
                let after = service_views(peers@);
                assert(longer =~= heard.push(sender));
                assert forall|ip: Seq<char>| #[trigger]
                    has_address(after, ip) <==> longer.contains(ip) by {
                    if longer.contains(ip) {
                        let k = choose|k: int| 0 <= k < longer.len() && longer[k] == ip;
                        if k < i {
                            assert(heard[k] == ip);
                            assert(heard.contains(ip));
                            assert(has_address(before, ip));
                        }
                    }
                    if has_address(before, ip) {
                        let k = choose|k: int| 0 <= k < heard.len() && heard[k] == ip;
                        assert(longer[k] == ip);
                    }
                    if ip == sender {
                        assert(longer[i as int] == ip);
                    }
                }
            }
            i += 1;
        }
        assert(self.sender_texts().take(self.senders.len() as int) =~= self.sender_texts());
        peers
    }
}

fn insert_peer(peers: &mut Vec<ServiceInfo>, ip: &String)
    requires
        rising_by_address(service_views(old(peers)@)),
        forall|k: int|
            0 <= k < old(peers)@.len() ==> #[trigger] service_views(old(peers)@)[k] == service_at(
                service_views(old(peers)@)[k].ip,
            ),
    ensures
        rising_by_address(service_views(final(peers)@)),
        forall|k: int|
            0 <= k < final(peers)@.len() ==> #[trigger] service_views(final(peers)@)[k]
                == service_at(service_views(final(peers)@)[k].ip),
        forall|other: Seq<char>| #[trigger]
            has_address(service_views(final(peers)@), other) <==> (has_address(
                service_views(old(peers)@),
                other,
            ) || other == ip@),
{
    let key = chars_of(ip.as_str());
    let ghost before = service_views(peers@);
    let mut at: usize = 0;
    let mut found = false;
    while at < peers.len()
        invariant_except_break
            !found,
        invariant
            at <= peers.len(),
            peers@ == old(peers)@,
            before == service_views(peers@),
            key@ == ip@,
            forall|j: int| 0 <= j < at ==> text_before((#[trigger] before[j]).ip, key@),
        ensures
            at <= peers.len(),
            peers@ == old(peers)@,
            forall|j: int| 0 <= j < at ==> text_before((#[trigger] before[j]).ip, key@),
            found ==> at < peers.len() && before[at as int].ip == key@,
            !found && at < peers.len() ==> text_before(key@, before[at as int].ip),
        decreases peers.len() - at,
    {
        let here = chars_of(peers[at].ip.as_str());
        assert(here@ == before[at as int].ip);
        match order_of(&here, &key) {
            TextOrder::Before => {
                at += 1;
            },
            TextOrder::Same => {
                found = true;
                break ;
            },
            TextOrder::After => {
                break ;
            },
        }
    }
    if found {
        proof {
            assert forall|other: Seq<char>| #[trigger]
                has_address(before, other) <==> (has_address(before, other) || other == ip@) by {
                if other == ip@ {
                    assert(before[at as int].ip == other);
                }
            }
        }
        return ;
    }
    peers.insert(at, ServiceInfo::for_peer(ip.clone()));
    proof {
        let after = service_views(peers@);
        assert(after.len() == before.len() + 1);
        assert(after[at as int] == service_at(ip@));
        assert forall|j: int| 0 <= j < after.len() implies #[trigger] after[j] == (if j < at {
            before[j]
        } else if j == at {
            service_at(ip@)
        } else {
            before[j - 1]
        }) by {}
        assert forall|other: Seq<char>| #[trigger]
            has_address(after, other) <==> (has_address(before, other) || other == ip@) by {
            if has_address(after, other) {
                let j = choose|j: int| 0 <= j < after.len() && (#[trigger] after[j]).ip == other;
                if j < at {
                    assert(before[j].ip == other);
                } else if j > at {
                    assert(before[j - 1].ip == other);
                }
            }
            if has_address(before, other) {
                let j = choose|j: int| 0 <= j < before.len() && (#[trigger] before[j]).ip == other;
                if j < at {
                    assert(after[j].ip == other);
                } else {
                    assert(after[j + 1].ip == other);
                }
            }
            if other == ip@ {
                assert(after[at as int].ip == other);
            }
        }
        assert forall|i: int, j: int| 0 <= i < j < after.len() implies text_before(
            (#[trigger] after[i]).ip,
            (#[trigger] after[j]).ip,
        ) by {
            if j < at {
                assert(after[i] == before[i] && after[j] == before[j]);
            } else if j == at {
                assert(after[i] == before[i]);
            } else if i < at {
                assert(after[i] == before[i] && after[j] == before[j - 1]);
            } else if i == at {
                assert(after[j] == before[j - 1]);
                if j - 1 > at {
                    assert(text_before(before[at as int].ip, before[j - 1].ip));
                    lemma_text_before_transitive(ip@, before[at as int].ip, before[j - 1].ip);
                }
            } else {
                assert(after[i] == before[i - 1] && after[j] == before[j - 1]);
            }
        }
    }
}

/// Runs a whole round over what its receive calls came to, in order, and
/// lists the peers that were found. Listening ends with the first receive
/// call that failed: what came after it is not looked at.
pub fn discover_services(events: &Vec<Received>) -> (peers: Vec<ServiceInfo>)
    ensures
        is_peer_list(service_views(peers@), reply_senders(events@)),
{
    let mut round = DiscoveryRound::new();
    let mut taken: usize = 0;
    assert(events@.skip(0) =~= events@);
    while taken < events.len()
        invariant
            taken <= events.len(),
            reply_senders(events@) == round.sender_texts() + reply_senders(
                events@.skip(taken as int),
            ),
        decreases events.len() - taken,
    {
        let ghost here = events@.skip(taken as int);
        let ghost heard = round.sender_texts();
        assert(here[0] == events@[taken as int]);
        assert(here.skip(1) =~= events@.skip(taken + 1));
        let action = round.observe(&events[taken]);
        match action {
            PollAction::Stop => {
                assert(reply_senders(events@) =~= round.sender_texts());
                return round.finish();
            },
            _ => {},
        }
        proof {
            let later = reply_senders(events@.skip(taken + 1));
            match events@[taken as int] {
                Received::Datagram { payload, sender } => {
                    if is_reply(payload@) {
                        assert(heard.push(sender@) + later =~= heard + (seq![sender@] + later));
                    }
                },
                _ => {},
            }
        }
        taken += 1;
    }
    assert(reply_senders(events@) =~= round.sender_texts());
    round.finish()
}

/// Replies from one address make one peer, however many they are: a peer
/// that answers once is listed once, with its address and the fixed port,
/// and so is a peer that answers twice.
pub proof fn lemma_replies_from_one_address(
    peers: Seq<ServiceView>,
    senders: Seq<Seq<char>>,
    sender: Seq<char>,
)
    requires
        is_peer_list(peers, senders),
        senders.len() >= 1,
        forall|i: int| 0 <= i < senders.len() ==> senders[i] == sender,
    ensures
        peers == seq![service_at(sender)],
        peers[0].port == SERVICE_PORT,
{
    assert(senders[0] == sender);
    assert(senders.contains(sender));
    assert(has_address(peers, sender));
    assert forall|k: int| 0 <= k < peers.len() implies (#[trigger] peers[k]).ip == sender by {
        assert(has_address(peers, peers[k].ip));
        assert(senders.contains(peers[k].ip));
    }
    if peers.len() >= 2 {
        assert(text_before(peers[0].ip, peers[1].ip));
        lemma_text_before_irreflexive(sender);
    }
    assert(peers[0] == service_at(peers[0].ip));
    assert(peers =~= seq![service_at(sender)]);
}

/// No address is listed twice.
pub proof fn lemma_peers_distinct(peers: Seq<ServiceView>, senders: Seq<Seq<char>>, i: int, j: int)
    requires
        is_peer_list(peers, senders),
        0 <= i < peers.len(),
        0 <= j < peers.len(),
        i != j,
    ensures
        peers[i].ip != peers[j].ip,
{
    if i < j {
        lemma_text_before_asymmetric(peers[i].ip, peers[j].ip);
    } else {
        lemma_text_before_asymmetric(peers[j].ip, peers[i].ip);
    }
}

/// The replies decide the list: two lists that both answer the same
/// replies are the same list.
pub proof fn lemma_peer_list_unique(
    first: Seq<ServiceView>,
    second: Seq<ServiceView>,
    senders: Seq<Seq<char>>,
)
    requires
        is_peer_list(first, senders),
        is_peer_list(second, senders),
    ensures
        first == second,
{
    lemma_same_addresses_same_list(first, second);
}

proof fn lemma_same_addresses_same_list(first: Seq<ServiceView>, second: Seq<ServiceView>)
    requires
        rising_by_address(first),
        rising_by_address(second),
        forall|k: int| 0 <= k < first.len() ==> #[trigger] first[k] == service_at(first[k].ip),
        forall|k: int| 0 <= k < second.len() ==> #[trigger] second[k] == service_at(second[k].ip),
        forall|ip: Seq<char>| #[trigger] has_address(first, ip) <==> has_address(second, ip),
    ensures
        first == second,
    decreases first.len(),
{
    if first.len() == 0 {
        if second.len() > 0 {
            assert(has_address(second, second[0].ip));
            assert(has_address(first, second[0].ip));
        }
        assert(first =~= second);
    } else {
        assert(has_address(first, first[0].ip));
        assert(has_address(second, first[0].ip));
        let j = choose|j: int| 0 <= j < second.len() && (#[trigger] second[j]).ip == first[0].ip;
        assert(has_address(second, second[0].ip));
        assert(has_address(first, second[0].ip));
        let i = choose|i: int| 0 <= i < first.len() && (#[trigger] first[i]).ip == second[0].ip;
        if j > 0 {
            assert(text_before(second[0].ip, second[j].ip));
            if i > 0 {
                assert(text_before(first[0].ip, first[i].ip));
                lemma_text_before_asymmetric(first[0].ip, second[0].ip);
            } else {
                lemma_text_before_irreflexive(first[0].ip);
            }
        }
        assert(first[0].ip == second[0].ip);
        let rest = first.skip(1);
        let other = second.skip(1);
        assert forall|ip: Seq<char>| #[trigger] has_address(rest, ip) <==> has_address(other, ip) by {
            if has_address(rest, ip) {
                let k = choose|k: int| 0 <= k < rest.len() && (#[trigger] rest[k]).ip == ip;
                assert(first[k + 1].ip == ip);
                assert(text_before(first[0].ip, first[k + 1].ip));
                lemma_text_before_asymmetric(first[0].ip, ip);
                assert(has_address(first, ip));
                assert(has_address(second, ip));
                let m = choose|m: int| 0 <= m < second.len() && (#[trigger] second[m]).ip == ip;
                assert(m > 0);
                assert(other[m - 1].ip == ip);
            }
            if has_address(other, ip) {
                let k = choose|k: int| 0 <= k < other.len() && (#[trigger] other[k]).ip == ip;
                assert(second[k + 1].ip == ip);
                assert(text_before(second[0].ip, second[k + 1].ip));
                lemma_text_before_asymmetric(second[0].ip, ip);
                assert(has_address(second, ip));
                assert(has_address(first, ip));
                let m = choose|m: int| 0 <= m < first.len() && (#[trigger] first[m]).ip == ip;
                assert(m > 0);
                assert(rest[m - 1].ip == ip);
            }
        }
        assert forall|a: int, b: int| 0 <= a < b < rest.len() implies text_before(
            (#[trigger] rest[a]).ip,
            (#[trigger] rest[b]).ip,
        ) by {
            assert(rest[a] == first[a + 1] && rest[b] == first[b + 1]);
        }
        assert forall|a: int, b: int| 0 <= a < b < other.len() implies text_before(
            (#[trigger] other[a]).ip,
            (#[trigger] other[b]).ip,
        ) by {
            assert(other[a] == second[a + 1] && other[b] == second[b + 1]);
        }
        assert forall|k: int| 0 <= k < rest.len() implies #[trigger] rest[k] == service_at(
            rest[k].ip,
        ) by {
            assert(rest[k] == first[k + 1]);
        }
        assert forall|k: int| 0 <= k < other.len() implies #[trigger] other[k] == service_at(
            other[k].ip,
        ) by {
            assert(other[k] == second[k + 1]);
        }
        lemma_same_addresses_same_list(rest, other);
        assert(first[0] == second[0]);
        assert forall|k: int| 0 <= k < first.len() implies first[k] == second[k] by {
            if k > 0 {
                assert(first[k] == rest[k - 1]);
                assert(second[k] == other[k - 1]);
            }
        }
        assert(first.len() == second.len()) by {
            assert(rest.len() == other.len());
        }
        assert(first =~= second);
    }
}

/// A round that hears no reply finds no peer, and fails for no other
/// reason either.
pub proof fn lemma_no_reply_no_peer(peers: Seq<ServiceView>)
    requires
        is_peer_list(peers, Seq::empty()),
    ensures
        peers.len() == 0,
{
    if peers.len() > 0 {
        assert(has_address(peers, peers[0].ip));
    }
}

/// What parsing a URL comes to, as far as its port goes: `None` where
/// `url::Url::parse` rejects the text, else what `url::Url::port` says of
/// the parsed URL, which is `None` where the URL names no port or the
/// default port of its scheme.
pub uninterp spec fn url_port(url: Seq<char>) -> Option<Option<u16>>;

/// Calls `url::Url::parse` and, on the URL that it yields,
/// `url::Url::port`. The contract claims only that the result is a
/// function of the text, which is named [`url_port`].
#[verifier::external_body]
fn parse_port(url: &str) -> (r: Option<Option<u16>>)
    ensures
        r == url_port(url@),
{
    match url::Url::parse(url) {
        Ok(parsed) => Some(parsed.port()),
        Err(_) => None,
    }
}

/// The text was parsed as a URL that names the service port.
pub open spec fn names_service_port(port: Option<Option<u16>>) -> bool {
    port == Some(Some(SERVICE_PORT))
}

/// Tests whether a parsed URL names the service port; `port` is `None`
/// for a text that is no URL, and `Some(None)` for a URL without a port.
pub fn is_service_port(port: Option<Option<u16>>) -> (r: bool)
    ensures
        r == names_service_port(port),
{
    match port {
        Some(Some(number)) => number == SERVICE_PORT,
        _ => false,
    }
}

/// Tests whether a text is a URL whose port is the service port. The
/// answer is never an error: a text that is no URL is simply not valid.
pub fn validate_service_url(url: String) -> (r: Result<bool, String>)
    ensures
        r matches Ok(valid) && valid == names_service_port(url_port(url@)),
{
    Ok(is_service_port(parse_port(url.as_str())))
}

} // verus!
