//! Whiteboard (indirect, polling relay) links.
use vstd::prelude::*;

use crate::link::{receives, Connection, Link, LinkAddress, LinkConfig, ReceiverSet, is_receiving_type};
use crate::race_common::{ConnectionType, LinkProperties, LinkType, SendType, TransmissionType};

verus! {

/// Address of a whiteboard link: the relay's host and port, the hashtag
/// under which the link's posts are filed, and how often (in milliseconds)
/// the relay is polled for new posts.
#[derive(Clone, Debug)]
pub struct LinkProfile {
    pub hostname: String,
    pub port: u32,
    pub hashtag: String,
    pub check_frequency_ms: u32,
}

impl LinkProfile {
    /// Seconds between two polls of the relay: the check frequency in whole
    /// seconds, and one second when that rounds down to zero.
    pub fn poll_interval_secs(&self) -> (r: u32)
        ensures
            r == (if self.check_frequency_ms / 1000 == 0 {
                1
            } else {
                self.check_frequency_ms / 1000
            }),
    {
        let secs = self.check_frequency_ms / 1000;
        if secs == 0 {
            1
        } else {
            secs
        }
    }

    /// A field-for-field copy.
    pub fn copy(&self) -> (r: LinkProfile)
        ensures
            r == *self,
    {
        LinkProfile {
            hostname: self.hostname.clone(),
            port: self.port,
            hashtag: self.hashtag.clone(),
            check_frequency_ms: self.check_frequency_ms,
        }
    }
}

/// Text of the standard, padded base64 encoding of a byte string.
pub uninterp spec fn base64_encoding(b: Seq<u8>) -> Seq<char>;

/// The bytes that a text stands for in standard base64, if it is valid
/// base64.
pub uninterp spec fn base64_decoding(s: Seq<char>) -> Option<Seq<u8>>;

/// Relies on `base64::encode` (standard alphabet, padded): the text depends
/// on the bytes alone, and `base64::decode` turns it back into them.
#[verifier::external_body]
fn base64_encode(b: &[u8]) -> (r: String)
    ensures
        r@ == base64_encoding(b@),
        base64_decoding(r@) == Some(b@),
{
    base64::encode(b)
}

/// Relies on `base64::decode` (standard alphabet): the outcome depends on the
/// text alone.
#[verifier::external_body]
fn base64_decode(s: &String) -> (r: Option<Vec<u8>>)
    ensures
        match r {
            Some(v) => base64_decoding(s@) == Some(v@),
            None => base64_decoding(s@) is None,
        },
{
    base64::decode(s).ok()
}

/// The body under which a package is posted to the relay: its base64 text,
/// from which the receiving side decodes exactly the package again.
pub fn encode_package(package: &[u8]) -> (r: String)
    ensures
        r@ == base64_encoding(package@),
        base64_decoding(r@) == Some(package@),
{
    base64_encode(package)
}

/// The package carried by one post, or `None` when the post is not valid
/// base64.
pub fn decode_post(post: &String) -> (r: Option<Vec<u8>>)
    ensures
        match r {
            Some(v) => base64_decoding(post@) == Some(v@),
            None => base64_decoding(post@) is None,
        },
{
    base64_decode(post)
}

/// A batch of posts fetched from the relay: the posts after the requested
/// index, and the relay's total post count for the hashtag.
pub struct Messages {
    pub data: Vec<String>,
    pub length: i32,
}

/// What one poll of the relay yields: the index to resume from, how many
/// posts the relay counted but did not return, and the packages decoded
/// from the returned posts, in order.
pub struct PollOutcome {
    pub last_index: i32,
    pub lost: u64,
    pub packages: Vec<Vec<u8>>,
}

/// The packages that a list of posts carries, in order, leaving out posts
/// that are not valid base64.
pub open spec fn decoded_posts(posts: Seq<Seq<char>>) -> Seq<Seq<u8>>
    decreases posts.len(),
{
    if posts.len() == 0 {
        seq![]
    } else {
        let rest = decoded_posts(posts.drop_last());
        match base64_decoding(posts.last()) {
            Some(b) => rest.push(b),
            None => rest,
        }
    }
}

/// Posts that the relay counted after `prev` up to `length` but that did not
/// arrive, when `received` did.
pub open spec fn lost_posts(prev: i32, length: i32, received: nat) -> nat {
    let expected = length - prev;
    if expected > received {
        (expected - received) as nat
    } else {
        0
    }
}

pub open spec fn bytes_views(v: Seq<Vec<u8>>) -> Seq<Seq<u8>> {
    v.map_values(|b: Vec<u8>| b@)
}

/// One poll step: given the index after which posts were requested and the
/// relay's answer, the next index is the relay's total (whether or not every
/// post arrived, so that a lost post never blocks the ones after it), the
/// shortfall between the posts the relay counted and those returned is
/// reported as lost, and each returned post is decoded; a post that does not
/// decode is dropped alone.
///
/// A relay total below the previous index is no answer to this poll (a
/// failed fetch reports zero): the index stays, nothing is delivered and
/// nothing is counted lost.
pub fn process_new_posts(prev_last_index: i32, messages: &Messages) -> (r: PollOutcome)
    ensures
        messages.length >= prev_last_index ==> {
            &&& r.last_index == messages.length
            &&& r.lost == lost_posts(prev_last_index, messages.length, messages.data@.len())
            &&& bytes_views(r.packages@) == decoded_posts(crate::link::texts(messages.data@))
        },
        messages.length < prev_last_index ==> {
            &&& r.last_index == prev_last_index
            &&& r.lost == 0
            &&& r.packages@.len() == 0
        },
{
    if messages.length < prev_last_index {
        return PollOutcome { last_index: prev_last_index, lost: 0, packages: Vec::new() };
    }
    let expected: i64 = messages.length as i64 - prev_last_index as i64;
    let received: usize = messages.data.len();
    let lost: u64 = if expected > 0 && expected as u64 > received as u64 {
        (expected as u64) - (received as u64)
    } else {
        0
    };
    let ghost posts = crate::link::texts(messages.data@);
    let mut packages: Vec<Vec<u8>> = Vec::new();
    let mut i: usize = 0;
    while i < messages.data.len()
        invariant
            i <= messages.data@.len(),
            posts == crate::link::texts(messages.data@),
            bytes_views(packages@) == decoded_posts(posts.subrange(0, i as int)),
        decreases messages.data@.len() - i,
    {
        let decoded = decode_post(&messages.data[i]);
        proof {
            assert(posts.subrange(0, i + 1).drop_last() =~= posts.subrange(0, i as int));
            assert(posts.subrange(0, i + 1).last() == messages.data@[i as int]@);
        }
        match decoded {
            Some(p) => {
                let ghost before = packages@;
                let ghost pv = p@;
                packages.push(p);
                proof {
                    assert(bytes_views(packages@) =~= bytes_views(before).push(pv));
                }
            },
            None => {},
        }
        i = i + 1;
    }
    proof {
        assert(posts.subrange(0, posts.len() as int) =~= posts);
    }
    PollOutcome { last_index: messages.length, lost, packages }
}

/// A whiteboard link. Receiving is done by a poller that fetches new posts
/// under the profile's hashtag, which runs while the link has receive
/// connections; sending posts each package, base64-encoded, under the hashtag.
pub struct WhiteboardLink {
    link_id: String,
    link_properties: LinkProperties,
    profile: LinkProfile,
    receivers: ReceiverSet,
}

impl WhiteboardLink {
    pub closed spec fn id(&self) -> Seq<char> {
        self.link_id@
    }

    pub closed spec fn properties(&self) -> LinkProperties {
        self.link_properties
    }

    pub closed spec fn profile(&self) -> LinkProfile {
        self.profile
    }

    pub closed spec fn receivers(&self) -> ReceiverSet {
        self.receivers
    }

    /// Creates a whiteboard link with no connections and no listener.
    pub fn new(link_id: &String, link_properties: LinkProperties, profile: LinkProfile) -> (r:
        WhiteboardLink)
        ensures
            r.id() == link_id@,
            r.properties() == link_properties,
            r.profile() == profile,
            r.receivers().wf(),
            r.receivers().ids().len() == 0,
            !r.receivers().running(),
    {
        WhiteboardLink {
            link_id: link_id.clone(),
            link_properties,
            profile,
            receivers: ReceiverSet::new(),
        }
    }

    pub fn set_link_address(&mut self, link_address: String)
        ensures
            final(self).id() == old(self).id(),
            final(self).profile() == old(self).profile(),
            final(self).receivers() == old(self).receivers(),
            final(self).properties().link_address == link_address,
            final(self).properties().link_type == old(self).properties().link_type,
            final(self).properties().channel_gid == old(self).properties().channel_gid,
    {
        self.link_properties.link_address = link_address;
    }

    pub fn get_link_id(&self) -> (r: &String)
        ensures
            r@ == self.id(),
    {
        &self.link_id
    }

    pub fn get_link_type(&self) -> (r: LinkType)
        ensures
            r == self.properties().link_type,
    {
        self.link_properties.link_type
    }

    pub fn get_link_properties(&self) -> (r: &LinkProperties)
        ensures
            *r == self.properties(),
    {
        &self.link_properties
    }

    pub fn get_profile(&self) -> (r: &LinkProfile)
        ensures
            *r == self.profile(),
    {
        &self.profile
    }

    pub fn receive_connection_ids(&self) -> (r: Vec<String>)
        ensures
            crate::link::texts(r@) == self.receivers().ids(),
    {
        self.receivers.to_vec()
    }

    pub fn task_running(&self) -> (r: bool)
        ensures
            r == self.receivers().running(),
    {
        self.receivers.is_running()
    }

    /// See `Link::open_connection`.
    pub fn open_connection(&mut self, link_type: LinkType, connection_id: &String) -> (r: (
        Connection,
        bool,
    ))
        requires
            old(self).receivers().wf(),
        ensures
            final(self).receivers().wf(),
            final(self).id() == old(self).id(),
            final(self).properties() == old(self).properties(),
            final(self).profile() == old(self).profile(),
            r.0.connection_id@ == connection_id@,
            r.0.link_type == link_type,
            r.0.link_id() == old(self).id(),
            receives(link_type) ==> {
                &&& forall|s: Seq<char>|
                    final(self).receivers().contains(s) <==> (old(self).receivers().contains(s)
                        || s == connection_id@)
                &&& r.1 == (old(self).receivers().ids().len() == 0)
                &&& final(self).receivers().running()
            },
            !receives(link_type) ==> final(self).receivers() == old(self).receivers() && !r.1,
    {
        let start = if is_receiving_type(link_type) {
            self.receivers.insert(connection_id)
        } else {
            false
        };
        (Connection::new(connection_id, link_type, &self.link_id), start)
    }

    /// See `Link::close_connection`.
    pub fn close_connection(&mut self, connection_id: &String) -> (stop: bool)
        requires
            old(self).receivers().wf(),
        ensures
            final(self).receivers().wf(),
            final(self).id() == old(self).id(),
            final(self).properties() == old(self).properties(),
            final(self).profile() == old(self).profile(),
            forall|s: Seq<char>|
                final(self).receivers().contains(s) <==> (old(self).receivers().contains(s) && s
                    != connection_id@),
            stop == (old(self).receivers().contains(connection_id@)
                && old(self).receivers().ids().len() == 1),
            final(self).receivers().running() == (old(self).receivers().running() && !stop),
    {
        self.receivers.remove(connection_id)
    }
}

/// Makes whiteboard/multicast links from a link's static configuration.
pub struct WhiteboardLinkParser {
    config: LinkConfig,
}

impl WhiteboardLinkParser {
    pub closed spec fn config(&self) -> LinkConfig {
        self.config
    }

    pub fn new(config: LinkConfig) -> (r: WhiteboardLinkParser)
        ensures
            r.config() == config,
    {
        WhiteboardLinkParser { config }
    }

    /// Makes the link with the id `link_id` that the host generated, on
    /// channel `channel_gid`, with the profile read from the configuration's
    /// profile text (`None` when it could not be read). No link is made for
    /// an empty id or a missing profile. The link keeps every configured
    /// property but the transport tags and the channel id, which are the
    /// channel's.
    pub fn create_link(&self, link_id: &String, channel_gid: &str, profile: Option<LinkProfile>) -> (r:
        Option<Link>)
        ensures
            r is None <==> (link_id@.len() == 0 || profile is None),
            r matches Some(l) ==> {
                let p = l.properties();
                &&& l.id() == link_id@
                &&& l.address() == LinkAddress::Whiteboard(profile->0)
                &&& l.wf()
                &&& l.receivers().ids().len() == 0
                &&& p.link_type == self.config().properties.link_type
                &&& p.transmission_type == TransmissionType::TtMulticast
                &&& p.connection_type == ConnectionType::CtIndirect
                &&& p.send_type == SendType::StStoredAsync
                &&& p.channel_gid@ == channel_gid@
                &&& p.reliable == self.config().properties.reliable
                &&& p.mtu == self.config().properties.mtu
                &&& p.expected == self.config().properties.expected
                &&& p.is_flushable == self.config().properties.is_flushable
                &&& p.duration_s == self.config().properties.duration_s
                &&& p.period_s == self.config().properties.period_s
                &&& p.worst == self.config().properties.worst
                &&& p.best == self.config().properties.best
                &&& p.supported_hints@ == self.config().properties.supported_hints@
                &&& p.link_address@ == self.config().properties.link_address@
            },
    {
        proof {
            if link_id@.len() == 0 {
                assert(link_id@ =~= Seq::<char>::empty());
            }
        }
        if link_id.eq(&String::new()) {
            return None;
        }
        let profile = match profile {
            Some(p) => p,
            None => return None,
        };
        let mut props = self.config.get_link_properties();
        props.transmission_type = TransmissionType::TtMulticast;
        props.connection_type = ConnectionType::CtIndirect;
        props.send_type = SendType::StStoredAsync;
        props.channel_gid = String::from_str(channel_gid);
        Some(Link::from_address(link_id, props, LinkAddress::Whiteboard(profile)))
    }
}

} // verus!
