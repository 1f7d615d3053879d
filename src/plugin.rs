//! The plugin core: the registries of links and connections, the channel
//! status table, and the user-input driven start of the direct channel.
//!
//! Every command is a step from one state to the next. What the host must be
//! told, and which background tasks must start or stop, comes back as the
//! step's result; the caller performs it.
use vstd::prelude::*;

use crate::channels::{
    Channel, channel_from_gid, channel_of, get_default_link_properties_for_channel,
    takes_channel_defaults,
};
use crate::direct_link;
use crate::link::{
    Connection, Link, LinkAddress, accepts, can_send, link_accepts, is_sending_type, receives,
    same_text,
};
use crate::race_common::{
    ChannelProperties, ChannelStatus, LinkProperties, LinkType, PackageStatus, PluginResponse,
};
use crate::text::{decimal_of, decimal_text, parse_u32, parsed_u32};
use crate::whiteboard_link;

verus! {

/// What closing one connection asks of the caller: report the connection
/// closed, and stop the link's background task if `stop_task` is set.
pub struct ConnectionClosure {
    pub connection_id: String,
    pub link_id: String,
    pub stop_task: bool,
}

/// Why a link could not be made or loaded.
#[derive(PartialEq, Eq, Structural, Clone, Copy, Debug)]
pub enum CreateLinkError {
    /// The channel id names no channel of this plugin.
    UnknownChannel,
    /// The channel is not available.
    ChannelNotAvailable,
    /// A link with the new link's id is already registered.
    DuplicateLinkId,
    /// The link address does not describe a link of the channel's kind.
    InvalidAddress,
}

/// How a package leaves this node.
pub enum SendPlan {
    /// Dial `hostname:port`, write the package, and close.
    Tcp { hostname: String, port: u32 },
    /// Post `body` under `hashtag` at the relay on `hostname:port`.
    Post { hostname: String, port: u32, hashtag: String, body: String },
}

/// Why a package was not handed to any transport. Either way the package is
/// reported failed.
#[derive(PartialEq, Eq, Structural, Clone, Copy, Debug)]
pub enum SendRefusal {
    /// No connection has the given id.
    UnknownConnection,
    /// The connection's link cannot send.
    NotSendCapable,
}

impl SendRefusal {
    /// The package status reported for a refused package.
    pub fn package_status(&self) -> (r: PackageStatus)
        ensures
            r == PackageStatus::PackageFailedGeneric,
    {
        PackageStatus::PackageFailedGeneric
    }
}

/// The package status after the transport was tried, and the response to
/// the send request.
pub fn package_status_after_send(sent: bool) -> (r: (PackageStatus, PluginResponse))
    ensures
        r == (if sent {
            (PackageStatus::PackageSent, PluginResponse::PluginOk)
        } else {
            (PackageStatus::PackageFailedGeneric, PluginResponse::PluginError)
        }),
{
    if sent {
        (PackageStatus::PackageSent, PluginResponse::PluginOk)
    } else {
        (PackageStatus::PackageFailedGeneric, PluginResponse::PluginError)
    }
}

/// The response to a send request, once the transport was tried and the
/// package's status reported: success only when the package went out and
/// the host accepted the report.
pub fn send_response(sent: bool, report_accepted: bool) -> (r: PluginResponse)
    ensures
        r == (if sent && report_accepted {
            PluginResponse::PluginOk
        } else {
            PluginResponse::PluginError
        }),
{
    if sent && report_accepted {
        PluginResponse::PluginOk
    } else {
        PluginResponse::PluginError
    }
}

/// Result of a request to activate a channel.
#[derive(PartialEq, Eq, Structural, Clone, Copy, Debug)]
pub enum Activation {
    /// The channel id names no channel of this plugin.
    UnknownChannel,
    /// The indirect channel is available now.
    IndirectAvailable,
    /// The direct channel is starting; the user must be asked for this
    /// node's hostname (then `hostname_requested`).
    RequestHostname,
}

/// Result of a user's answer to a prompt.
#[derive(PartialEq, Eq, Structural, Clone, Copy, Debug)]
pub enum InputOutcome {
    /// The handle belongs to no prompt of this plugin.
    Unrecognized,
    /// The hostname was declined: the direct channel is disabled.
    DirectDisabled,
    /// Other prompts of the direct channel are still unanswered.
    StillPending,
    /// That was the last outstanding prompt: the direct channel is available.
    DirectAvailable,
}

/// What closing a link asks of the caller: report it destroyed, and handle
/// the closures of its connections.
pub struct LinkTeardown {
    pub link_id: String,
    pub closed: Vec<ConnectionClosure>,
}

/// Result of a request to open a connection.
pub enum OpenOutcome {
    /// No link has the requested id.
    NoSuchLink,
    /// The link's direction does not allow the requested one.
    Mismatch,
    /// A connection with this id is already open.
    DuplicateConnection,
    /// The connection is open; `start_task` says whether the link's
    /// background task must be started now.
    Opened { start_task: bool },
}

/// The orchestrator's state: links by id, connections by id, the status of
/// each channel, and what the start of the direct channel has gathered.
pub struct PluginCommsTwoSixRust {
    connections: Vec<Connection>,
    links: Vec<Link>,
    active_persona: String,
    direct_status: ChannelStatus,
    indirect_status: ChannelStatus,
    next_available_port: u32,
    next_available_hashtag: u32,
    whiteboard_hostname: String,
    whiteboard_port: u32,
    hostname: String,
    direct_channel_user_input_requests: Vec<u64>,
    request_hostname_handle: u64,
    request_start_port_handle: u64,
}

/// Position of `x` in a sequence without duplicates.
pub proof fn lemma_index_of_unique<A>(s: Seq<A>, i: int)
    requires
        s.no_duplicates(),
        0 <= i < s.len(),
    ensures
        s.index_of(s[i]) == i,
{
    assert(s.contains(s[i]));
    let j = s.index_of(s[i]);
    assert(0 <= j < s.len() && s[j] == s[i]);
}

/// Removing one entry from a keyed sequence without duplicate keys: the keys
/// stay unique, exactly the removed key is gone, and every other key still
/// finds the same entry.
pub proof fn lemma_keyed_removed<A>(s: Seq<A>, key: spec_fn(A) -> Seq<char>, i: int)
    requires
        s.map_values(key).no_duplicates(),
        0 <= i < s.len(),
    ensures
        ({
            let r = s.remove(i);
            let ids = s.map_values(key);
            let rids = r.map_values(key);
            &&& rids == ids.remove(i)
            &&& rids.no_duplicates()
            &&& forall|x: Seq<char>| rids.contains(x) <==> (ids.contains(x) && x != ids[i])
            &&& forall|x: Seq<char>|
                #![trigger rids.index_of(x)]
                rids.contains(x) ==> r[rids.index_of(x)] == s[ids.index_of(x)]
        }),
{
    let r = s.remove(i);
    let ids = s.map_values(key);
    let rids = r.map_values(key);
    assert(rids =~= ids.remove(i));
    assert forall|a: int, b: int| 0 <= a < rids.len() && 0 <= b < rids.len() && a != b implies rids[a]
        != rids[b] by {
        let a2 = if a < i { a } else { a + 1 };
        let b2 = if b < i { b } else { b + 1 };
        assert(rids[a] == ids[a2] && rids[b] == ids[b2]);
    }
    assert forall|x: Seq<char>| rids.contains(x) <==> (ids.contains(x) && x != ids[i]) by {
        if rids.contains(x) {
            let a = choose|a: int| 0 <= a < rids.len() && rids[a] == x;
            let a2 = if a < i { a } else { a + 1 };
            assert(ids[a2] == x);
        }
        if ids.contains(x) && x != ids[i] {
            let a = choose|a: int| 0 <= a < ids.len() && ids[a] == x;
            if a < i {
                assert(rids[a] == x);
            } else {
                assert(rids[a - 1] == x);
            }
        }
    }
    assert forall|x: Seq<char>| #![trigger rids.index_of(x)] rids.contains(x) implies r[rids.index_of(x)]
        == s[ids.index_of(x)] by {
        let a = rids.index_of(x);
        let a2 = if a < i { a } else { a + 1 };
        assert(ids[a2] == x);
        lemma_index_of_unique(ids, a2);
    }
}

/// Replacing the entry at `i` by one with the same key keeps the keys, and
/// every other key finds the same entry.
pub proof fn lemma_link_replaced(links: Seq<Link>, i: int, l: Link)
    requires
        link_ids_of(links).no_duplicates(),
        0 <= i < links.len(),
        l.id() == links[i].id(),
    ensures
        link_ids_of(links.update(i, l)) == link_ids_of(links),
        forall|x: Seq<char>|
            #![trigger link_ids_of(links).index_of(x)]
            link_ids_of(links).contains(x) && x != links[i].id() ==> links.update(i, l)[link_ids_of(
                links,
            ).index_of(x)] == links[link_ids_of(links).index_of(x)],
{
    assert(link_ids_of(links.update(i, l)) =~= link_ids_of(links));
    assert forall|x: Seq<char>|
        #![trigger link_ids_of(links).index_of(x)]
        link_ids_of(links).contains(x) && x != links[i].id() implies links.update(i, l)[link_ids_of(
            links,
        ).index_of(x)] == links[link_ids_of(links).index_of(x)] by {
        let a = link_ids_of(links).index_of(x);
        assert(link_ids_of(links)[a] == x);
    }
}

/// The successor of `n`, wrapping to zero after the largest value.
pub open spec fn wrapping_next(n: u32) -> u32 {
    if n == u32::MAX {
        0
    } else {
        (n + 1) as u32
    }
}

/// Whether an address read from outside describes a link of channel `c`.
pub open spec fn address_fits(c: Channel, address: Option<LinkAddress>) -> bool {
    match (c, address) {
        (Channel::Direct, Some(LinkAddress::Direct(_))) => true,
        (Channel::Indirect, Some(LinkAddress::Whiteboard(_))) => true,
        _ => false,
    }
}

/// Adds a handle to a list of outstanding handles, once.
fn add_handle(handles: &mut Vec<u64>, h: u64)
    ensures
        forall|x: u64| final(handles)@.contains(x) <==> (old(handles)@.contains(x) || x == h),
{
    let mut i: usize = 0;
    while i < handles.len()
        invariant
            i <= handles@.len(),
            handles@ == old(handles)@,
            forall|k: int| 0 <= k < i ==> handles@[k] != h,
        decreases handles@.len() - i,
    {
        if handles[i] == h {
            return;
        }
        i = i + 1;
    }
    handles.push(h);
    proof {
        assert forall|x: u64| handles@.contains(x) <==> (old(handles)@.contains(x) || x == h) by {
            if x == h {
                assert(handles@[handles@.len() - 1] == h);
            }
            if old(handles)@.contains(x) {
                let k = choose|k: int| 0 <= k < old(handles)@.len() && old(handles)@[k] == x;
                assert(handles@[k] == x);
            }
        }
    }
}

/// Whether a handle is in a list of outstanding handles.
fn has_handle(handles: &Vec<u64>, h: u64) -> (r: bool)
    ensures
        r == handles@.contains(h),
{
    let mut i: usize = 0;
    while i < handles.len()
        invariant
            i <= handles@.len(),
            forall|k: int| 0 <= k < i ==> handles@[k] != h,
        decreases handles@.len() - i,
    {
        if handles[i] == h {
            return true;
        }
        i = i + 1;
    }
    false
}

/// Removes every occurrence of a handle.
fn remove_handle(handles: &mut Vec<u64>, h: u64)
    ensures
        forall|x: u64| final(handles)@.contains(x) <==> (old(handles)@.contains(x) && x != h),
{
    let mut kept: Vec<u64> = Vec::new();
    let mut i: usize = 0;
    while i < handles.len()
        invariant
            i <= handles@.len(),
            handles@ == old(handles)@,
            forall|x: u64| kept@.contains(x) <==> (handles@.subrange(0, i as int).contains(x) && x != h),
        decreases handles@.len() - i,
    {
        let v = handles[i];
        let ghost kept_before = kept@;
        if v != h {
            kept.push(v);
        }
        proof {
            assert(handles@.subrange(0, i + 1) =~= handles@.subrange(0, i as int).push(v));
            assert forall|x: u64| kept@.contains(x) <==> (handles@.subrange(0, i + 1).contains(x)
                && x != h) by {
                let s0 = handles@.subrange(0, i as int);
                if kept@.contains(x) {
                    let k = choose|k: int| 0 <= k < kept@.len() && kept@[k] == x;
                    if k < kept_before.len() {
                        assert(kept_before[k] == x);
                        assert(kept_before.contains(x));
                        assert(s0.contains(x));
                        let m = choose|m: int| 0 <= m < s0.len() && s0[m] == x;
                        assert(handles@.subrange(0, i + 1)[m] == x);
                    } else {
                        assert(handles@.subrange(0, i + 1)[i as int] == x);
                    }
                }
                if handles@.subrange(0, i + 1).contains(x) && x != h {
                    let s1 = handles@.subrange(0, i + 1);
                    let m = choose|m: int| 0 <= m < s1.len() && s1[m] == x;
                    if m < i {
                        assert(s0[m] == x);
                        assert(kept_before.contains(x));
                        let k = choose|k: int| 0 <= k < kept_before.len() && kept_before[k] == x;
                        assert(kept@[k] == x);
                    } else {
                        assert(kept@[kept@.len() - 1] == x);
                    }
                }
            }
        }
        i = i + 1;
    }
    proof {
        assert(handles@.subrange(0, handles@.len() as int) =~= handles@);
    }
    *handles = kept;
}

/// A registered link is found under its id, and its receivers are open
/// connections on it.
proof fn lemma_link_of_id(p: PluginCommsTwoSixRust, id: Seq<char>)
    requires
        p.wf(),
        p.has_link(id),
    ensures
        p.link(id).id() == id,
        p.link(id).wf(),
        forall|s: Seq<char>|
            #![trigger p.link(id).receivers().contains(s)]
            p.link(id).receivers().contains(s) ==> p.has_connection(s) && p.connection(s).link_id()
                == id,
{
    let k = p.link_ids().index_of(id);
    assert(p.link_ids()[k] == id);
    assert(p.links()[k].wf());
    assert forall|s: Seq<char>| #![trigger p.link(id).receivers().contains(s)] p.link(id).receivers().contains(s) implies p.has_connection(s)
        && p.connection(s).link_id() == id by {
        assert(p.links()[k].receivers().contains(s));
    }
}

/// Appending a closure: a stop is asked for afterwards exactly when it was
/// before or the new closure asks for it.
proof fn lemma_closure_pushed(closed: Seq<ConnectionClosure>, c: ConnectionClosure)
    ensures
        some_stop(closed.push(c)) == (some_stop(closed) || c.stop_task),
        at_most_one_stop(closed) && !(some_stop(closed) && c.stop_task) ==> at_most_one_stop(
            closed.push(c),
        ),
{
    let n = closed.len() as int;
    let t = closed.push(c);
    if some_stop(closed) {
        let k = choose|k: int| 0 <= k < closed.len() && (#[trigger] closed[k]).stop_task;
        assert(t[k].stop_task);
    }
    if c.stop_task {
        assert(t[n].stop_task);
    }
    if some_stop(t) {
        let k = choose|k: int| 0 <= k < t.len() && (#[trigger] t[k]).stop_task;
        if k < n {
            assert(closed[k].stop_task);
        }
    }
    if at_most_one_stop(closed) && !(some_stop(closed) && c.stop_task) {
        assert forall|k: int, m: int|
            0 <= k < t.len() && 0 <= m < t.len() && (#[trigger] t[k]).stop_task
                && (#[trigger] t[m]).stop_task implies k == m by {
            if k < n && m < n {
                assert(closed[k].stop_task && closed[m].stop_task);
            } else if k < n {
                assert(closed[k].stop_task);
            } else if m < n {
                assert(closed[m].stop_task);
            }
        }
    }
}

/// Destroying a registered link shortens the registry.
proof fn lemma_link_count(before: PluginCommsTwoSixRust, after: PluginCommsTwoSixRust, id: Seq<char>)
    requires
        before.wf(),
        after.wf(),
        before.has_link(id),
        !after.has_link(id),
        forall|x: Seq<char>| after.has_link(x) ==> before.has_link(x),
    ensures
        after.links().len() < before.links().len(),
{
    let a = after.link_ids();
    let b = before.link_ids();
    a.unique_seq_to_set();
    b.unique_seq_to_set();
    assert forall|x: Seq<char>| a.to_set().contains(x) implies b.to_set().contains(x) by {
        assert(after.has_link(x));
    }
    assert(a.to_set().subset_of(b.to_set()));
    assert(b.to_set().contains(id));
    assert(!a.to_set().contains(id));
    vstd::set_lib::lemma_len_subset(a.to_set(), b.to_set().remove(id));
}

/// The ids of the connections that a list of closures closes.
pub open spec fn closure_ids(closed: Seq<ConnectionClosure>) -> Seq<Seq<char>> {
    closed.map_values(|c: ConnectionClosure| c.connection_id@)
}

/// Whether one of the closures asks to stop a background task.
pub open spec fn some_stop(closed: Seq<ConnectionClosure>) -> bool {
    exists|k: int| 0 <= k < closed.len() && (#[trigger] closed[k]).stop_task
}

/// Whether at most one of the closures asks to stop a background task.
pub open spec fn at_most_one_stop(closed: Seq<ConnectionClosure>) -> bool {
    forall|k: int, m: int|
        0 <= k < closed.len() && 0 <= m < closed.len() && (#[trigger] closed[k]).stop_task
            && (#[trigger] closed[m]).stop_task ==> k == m
}

/// `closed` closes exactly the connections that `before` had open on link
/// `link_id`, each once, and asks once to stop the link's background task
/// when, and only when, that task was running.
pub open spec fn closes_link_connections(
    closed: Seq<ConnectionClosure>,
    before: PluginCommsTwoSixRust,
    link_id: Seq<char>,
) -> bool {
    &&& closure_ids(closed).no_duplicates()
    &&& forall|x: Seq<char>|
        closure_ids(closed).contains(x) <==> (before.has_connection(x) && before.connection(
            x,
        ).link_id() == link_id)
    &&& forall|k: int| 0 <= k < closed.len() ==> (#[trigger] closed[k]).link_id@ == link_id
    &&& some_stop(closed) == before.link(link_id).receivers().running()
    &&& at_most_one_stop(closed)
}

/// The ids of the links that a list of teardowns destroys.
pub open spec fn teardown_ids(torn: Seq<LinkTeardown>) -> Seq<Seq<char>> {
    torn.map_values(|t: LinkTeardown| t.link_id@)
}

/// A list of closures that closes the connections of link `link_id` in
/// `before` also does so in `after` when the link and the connections on it
/// are the same in both.
proof fn lemma_closes_carried(
    closed: Seq<ConnectionClosure>,
    before: PluginCommsTwoSixRust,
    after: PluginCommsTwoSixRust,
    link_id: Seq<char>,
)
    requires
        closes_link_connections(closed, before, link_id),
        before.link(link_id) == after.link(link_id),
        forall|x: Seq<char>|
            (before.has_connection(x) && before.connection(x).link_id() == link_id) <==> (
            after.has_connection(x) && after.connection(x).link_id() == link_id),
    ensures
        closes_link_connections(closed, after, link_id),
{
}

/// The key of a link in the registry: its id.
pub open spec fn link_key() -> spec_fn(Link) -> Seq<char> {
    |l: Link| l.id()
}

/// The key of a connection in the registry: its id.
pub open spec fn connection_key() -> spec_fn(Connection) -> Seq<char> {
    |c: Connection| c.connection_id@
}

pub open spec fn link_ids_of(links: Seq<Link>) -> Seq<Seq<char>> {
    links.map_values(link_key())
}

pub open spec fn connection_ids_of(conns: Seq<Connection>) -> Seq<Seq<char>> {
    conns.map_values(connection_key())
}

impl PluginCommsTwoSixRust {
    pub closed spec fn links(&self) -> Seq<Link> {
        self.links@
    }

    pub closed spec fn connections(&self) -> Seq<Connection> {
        self.connections@
    }

    pub closed spec fn status(&self, c: Channel) -> ChannelStatus {
        match c {
            Channel::Direct => self.direct_status,
            Channel::Indirect => self.indirect_status,
        }
    }

    pub closed spec fn persona(&self) -> Seq<char> {
        self.active_persona@
    }

    pub closed spec fn next_port(&self) -> u32 {
        self.next_available_port
    }

    pub closed spec fn next_hashtag(&self) -> u32 {
        self.next_available_hashtag
    }

    pub closed spec fn hostname(&self) -> Seq<char> {
        self.hostname@
    }

    pub closed spec fn whiteboard_host(&self) -> (Seq<char>, u32) {
        (self.whiteboard_hostname@, self.whiteboard_port)
    }

    /// Handles of the direct channel's outstanding user-input requests.
    pub closed spec fn pending_requests(&self) -> Seq<u64> {
        self.direct_channel_user_input_requests@
    }

    pub closed spec fn hostname_handle(&self) -> u64 {
        self.request_hostname_handle
    }

    pub closed spec fn start_port_handle(&self) -> u64 {
        self.request_start_port_handle
    }

    pub open spec fn link_ids(&self) -> Seq<Seq<char>> {
        link_ids_of(self.links())
    }

    pub open spec fn connection_ids(&self) -> Seq<Seq<char>> {
        connection_ids_of(self.connections())
    }

    pub open spec fn has_link(&self, id: Seq<char>) -> bool {
        self.link_ids().contains(id)
    }

    pub open spec fn has_connection(&self, id: Seq<char>) -> bool {
        self.connection_ids().contains(id)
    }

    /// The registered link with this id (meaningful when `has_link(id)`).
    pub open spec fn link(&self, id: Seq<char>) -> Link {
        self.links()[self.link_ids().index_of(id)]
    }

    /// The open connection with this id (meaningful when `has_connection(id)`).
    pub open spec fn connection(&self, id: Seq<char>) -> Connection {
        self.connections()[self.connection_ids().index_of(id)]
    }

    /// Whether `handle` is an outstanding prompt of the direct channel's
    /// current start: the channel is starting, and the handle is the hostname
    /// or the start-port prompt, not yet answered.
    pub open spec fn answers_prompt(&self, handle: u64) -> bool {
        &&& self.status(Channel::Direct) == ChannelStatus::ChannelStarting
        &&& self.pending_requests().contains(handle)
        &&& (handle == self.hostname_handle() || handle == self.start_port_handle())
    }

    /// Everything but the registries is the same in both states.
    pub open spec fn same_channel_state(&self, other: &Self) -> bool {
        &&& self.status(Channel::Direct) == other.status(Channel::Direct)
        &&& self.status(Channel::Indirect) == other.status(Channel::Indirect)
        &&& self.persona() == other.persona()
        &&& self.next_port() == other.next_port()
        &&& self.next_hashtag() == other.next_hashtag()
        &&& self.hostname() == other.hostname()
        &&& self.whiteboard_host() == other.whiteboard_host()
        &&& self.pending_requests() == other.pending_requests()
        &&& self.hostname_handle() == other.hostname_handle()
        &&& self.start_port_handle() == other.start_port_handle()
    }

    /// Why a link with id `link_id` cannot be made on channel `gid` now, if
    /// anything prevents it before its address is looked at.
    pub open spec fn creation_refusal(&self, gid: Seq<char>, link_id: Seq<char>) -> Option<
        CreateLinkError,
    > {
        match channel_of(gid) {
            None => Some(CreateLinkError::UnknownChannel),
            Some(c) => if self.status(c) != ChannelStatus::ChannelAvailable {
                Some(CreateLinkError::ChannelNotAvailable)
            } else if self.has_link(link_id) {
                Some(CreateLinkError::DuplicateLinkId)
            } else {
                None
            },
        }
    }

    /// The registries are consistent: link ids and connection ids are
    /// unique, each link's receive set is well formed, every connection
    /// names a registered link, and every receiver of a link is an open
    /// connection on that link.
    pub open spec fn wf(&self) -> bool {
        &&& self.link_ids().no_duplicates()
        &&& self.connection_ids().no_duplicates()
        &&& forall|i: int| 0 <= i < self.links().len() ==> #[trigger] self.links()[i].wf()
        &&& forall|i: int|
            0 <= i < self.connections().len() ==> self.has_link(
                #[trigger] self.connections()[i].link_id(),
            )
        &&& forall|i: int, s: Seq<char>|
            0 <= i < self.links().len() && #[trigger] self.links()[i].receivers().contains(s)
                ==> self.has_connection(s) && self.connection(s).link_id() == self.links()[i].id()
    }

    /// A plugin with no links or connections, both channels unavailable, and
    /// the default start port, relay address and hostname.
    pub fn new() -> (r: PluginCommsTwoSixRust)
        ensures
            r.wf(),
            r.links().len() == 0,
            r.connections().len() == 0,
            r.status(Channel::Direct) == ChannelStatus::ChannelUnavailable,
            r.status(Channel::Indirect) == ChannelStatus::ChannelUnavailable,
            r.next_port() == 10000,
            r.next_hashtag() == 0,
            r.persona().len() == 0,
            r.pending_requests().len() == 0,
            r.hostname_handle() == 0,
            r.start_port_handle() == 0,
    {
        PluginCommsTwoSixRust {
            connections: Vec::new(),
            links: Vec::new(),
            active_persona: String::new(),
            direct_status: ChannelStatus::ChannelUnavailable,
            indirect_status: ChannelStatus::ChannelUnavailable,
            next_available_port: 10000,
            next_available_hashtag: 0,
            whiteboard_hostname: String::from_str("twosix-whiteboard"),
            whiteboard_port: 5000,
            hostname: String::from_str("no-hostname-provided-by-user"),
            direct_channel_user_input_requests: Vec::new(),
            request_hostname_handle: 0,
            request_start_port_handle: 0,
        }
    }

    /// Records the active persona and marks both channels unavailable.
    pub fn init(&mut self, active_persona: &String) -> (r: PluginResponse)
        requires
            old(self).wf(),
        ensures
            final(self).wf(),
            r == PluginResponse::PluginOk,
            final(self).persona() == active_persona@,
            final(self).status(Channel::Direct) == ChannelStatus::ChannelUnavailable,
            final(self).status(Channel::Indirect) == ChannelStatus::ChannelUnavailable,
            final(self).links() == old(self).links(),
            final(self).connections() == old(self).connections(),
    {
        self.active_persona = active_persona.clone();
        self.direct_status = ChannelStatus::ChannelUnavailable;
        self.indirect_status = ChannelStatus::ChannelUnavailable;
        PluginResponse::PluginOk
    }

    pub fn get_active_persona(&self) -> (r: &String)
        ensures
            r@ == self.persona(),
    {
        &self.active_persona
    }

    /// Status of a channel, or `None` for an unknown channel id.
    pub fn channel_status(&self, channel_gid: &str) -> (r: Option<ChannelStatus>)
        ensures
            r == match channel_of(channel_gid@) {
                Some(c) => Some(self.status(c)),
                None => None,
            },
    {
        match channel_from_gid(channel_gid) {
            Some(Channel::Direct) => Some(self.direct_status),
            Some(Channel::Indirect) => Some(self.indirect_status),
            None => None,
        }
    }

    fn find_link(&self, link_id: &String) -> (r: Option<usize>)
        requires
            self.link_ids().no_duplicates(),
        ensures
            match r {
                Some(i) => {
                    &&& i < self.links().len()
                    &&& self.links()[i as int].id() == link_id@
                    &&& self.has_link(link_id@)
                    &&& self.link_ids().index_of(link_id@) == i
                },
                None => !self.has_link(link_id@),
            },
    {
        let mut i: usize = 0;
        while i < self.links.len()
            invariant
                self.link_ids().no_duplicates(),
                i <= self.links@.len(),
                forall|j: int| 0 <= j < i ==> self.link_ids()[j] != link_id@,
            decreases self.links@.len() - i,
        {
            if same_text(self.links[i].get_link_id(), link_id) {
                proof {
                    assert(self.link_ids()[i as int] == link_id@);
                    lemma_index_of_unique(self.link_ids(), i as int);
                }
                return Some(i);
            }
            i = i + 1;
        }
        None
    }

    fn find_connection(&self, connection_id: &String) -> (r: Option<usize>)
        requires
            self.connection_ids().no_duplicates(),
        ensures
            match r {
                Some(i) => {
                    &&& i < self.connections().len()
                    &&& self.connections()[i as int].connection_id@ == connection_id@
                    &&& self.has_connection(connection_id@)
                    &&& self.connection_ids().index_of(connection_id@) == i
                },
                None => !self.has_connection(connection_id@),
            },
    {
        let mut i: usize = 0;
        while i < self.connections.len()
            invariant
                self.connection_ids().no_duplicates(),
                i <= self.connections@.len(),
                forall|j: int| 0 <= j < i ==> self.connection_ids()[j] != connection_id@,
            decreases self.connections@.len() - i,
        {
            if same_text(&self.connections[i].connection_id, connection_id) {
                proof {
                    assert(self.connection_ids()[i as int] == connection_id@);
                    lemma_index_of_unique(self.connection_ids(), i as int);
                }
                return Some(i);
            }
            i = i + 1;
        }
        None
    }

    /// Whether a link with this id is registered.
    pub fn contains_link(&self, link_id: &String) -> (r: bool)
        requires
            self.wf(),
        ensures
            r == self.has_link(link_id@),
    {
        self.find_link(link_id).is_some()
    }

    /// The registered link with this id.
    pub fn get_link(&self, link_id: &String) -> (r: Option<&Link>)
        requires
            self.wf(),
        ensures
            match r {
                Some(l) => self.has_link(link_id@) && *l == self.link(link_id@),
                None => !self.has_link(link_id@),
            },
    {
        match self.find_link(link_id) {
            Some(i) => Some(&self.links[i]),
            None => None,
        }
    }

    /// Opens a connection of type `link_type` on link `link_id` under the id
    /// `connection_id`, which the host generated.
    ///
    /// The request is refused, with nothing changed, when the link is not
    /// registered, when its direction does not accept the requested one, or
    /// when the connection id is already open. Otherwise the connection is
    /// registered and bound to the link, which adds it to its receive set if
    /// it receives; the background task is to be started exactly when this
    /// is the link's first receiver.
    pub fn open_connection(
        &mut self,
        link_type: LinkType,
        link_id: &String,
        connection_id: &String,
    ) -> (r: OpenOutcome)
        requires
            old(self).wf(),
        ensures
            final(self).wf(),
            !old(self).has_link(link_id@) ==> r is NoSuchLink,
            old(self).has_link(link_id@) && !accepts(old(self).link(link_id@).link_type(), link_type)
                ==> r is Mismatch,
            old(self).has_link(link_id@) && accepts(old(self).link(link_id@).link_type(), link_type)
                && old(self).has_connection(connection_id@) ==> r is DuplicateConnection,
            old(self).has_link(link_id@) && accepts(old(self).link(link_id@).link_type(), link_type)
                && !old(self).has_connection(connection_id@) ==> r is Opened,
            !(r is Opened) ==> final(self).links() == old(self).links() && final(self).connections()
                == old(self).connections(),
            r matches OpenOutcome::Opened { start_task } ==> {
                let old_link = old(self).link(link_id@);
                let new_link = final(self).link(link_id@);
                &&& old(self).has_link(link_id@)
                &&& accepts(old_link.link_type(), link_type)
                &&& !old(self).has_connection(connection_id@)
                &&& final(self).link_ids() == old(self).link_ids()
                &&& final(self).connection_ids() == old(self).connection_ids().push(connection_id@)
                &&& final(self).connection(connection_id@).link_id() == link_id@
                &&& final(self).connection(connection_id@).link_type == link_type
                &&& new_link.properties() == old_link.properties()
                &&& forall|other: Seq<char>|
                    old(self).has_link(other) && other != link_id@ ==> #[trigger] final(self).link(
                        other,
                    ) == old(self).link(other)
                &&& receives(link_type) ==> {
                    &&& forall|s: Seq<char>|
                        new_link.receivers().contains(s) <==> (old_link.receivers().contains(s)
                            || s == connection_id@)
                    &&& start_task == (old_link.receivers().ids().len() == 0)
                    &&& new_link.receivers().running()
                }
                &&& !receives(link_type) ==> new_link.receivers() == old_link.receivers()
                    && !start_task
            },
            final(self).same_channel_state(old(self)),
    {
        let i = match self.find_link(link_id) {
            Some(i) => i,
            None => return OpenOutcome::NoSuchLink,
        };
        if !link_accepts(self.links[i].get_link_type(), link_type) {
            return OpenOutcome::Mismatch;
        }
        if self.find_connection(connection_id).is_some() {
            return OpenOutcome::DuplicateConnection;
        }
        let ghost old_links = self.links@;
        let ghost old_conns = self.connections@;
        let mut link = self.links.remove(i);
        let (connection, start_task) = link.open_connection(link_type, connection_id);
        self.links.insert(i, link);
        self.connections.push(connection);
        proof {
            assert(self.links@ =~= old_links.update(i as int, self.links@[i as int]));
            assert(self.link_ids() =~= old(self).link_ids());
            assert(self.connection_ids() =~= old(self).connection_ids().push(connection_id@));
            let n = old_conns.len() as int;
            assert(self.connection_ids()[n] == connection_id@);
            assert(self.connection_ids().no_duplicates()) by {
                assert forall|a: int, b: int|
                    0 <= a < self.connection_ids().len() && 0 <= b < self.connection_ids().len()
                        && a != b implies self.connection_ids()[a] != self.connection_ids()[b] by {
                    if a == n {
                        assert(old(self).connection_ids()[b] == self.connection_ids()[b]);
                    } else if b == n {
                        assert(old(self).connection_ids()[a] == self.connection_ids()[a]);
                    }
                }
            }
            lemma_index_of_unique(self.connection_ids(), n);
            assert forall|k: int| 0 <= k < self.links().len() implies #[trigger] self.links()[k].wf() by {
                if k != i {
                    assert(self.links()[k] == old_links[k]);
                }
            }
            assert forall|k: int| 0 <= k < self.connections().len() implies self.has_link(
                #[trigger] self.connections()[k].link_id(),
            ) by {
                if k < n {
                    assert(self.connections()[k] == old_conns[k]);
                } else {
                    assert(self.link_ids()[i as int] == link_id@);
                }
            }
            assert(self.link_ids().index_of(link_id@) == i);
            assert forall|other: Seq<char>| old(self).has_link(other) && other != link_id@ implies #[trigger] self.link(other)
                == old(self).link(other) by {
                let k = self.link_ids().index_of(other);
                assert(self.link_ids()[k] == other);
            }
            assert forall|x: Seq<char>| old(self).has_connection(x) implies self.has_connection(x)
                && #[trigger] self.connection(x) == old(self).connection(x) by {
                let m = old(self).connection_ids().index_of(x);
                assert(self.connection_ids()[m] == x);
                lemma_index_of_unique(self.connection_ids(), m);
            }
            assert forall|k: int, s: Seq<char>|
                0 <= k < self.links().len() && #[trigger] self.links()[k].receivers().contains(s)
                    implies self.has_connection(s) && self.connection(s).link_id() == self.links()[k].id() by {
                if s == connection_id@ {
                    assert(self.connection_ids()[n] == s);
                    if k != i {
                        assert(self.links()[k] == old_links[k]);
                        assert(old(self).links()[k].receivers().contains(s));
                        assert(old(self).has_connection(s));
                        assert(false);
                    }
                } else {
                    if k != i {
                        assert(self.links()[k] == old_links[k]);
                    }
                    assert(old(self).links()[k].receivers().contains(s));
                    assert(self.connection(s) == old(self).connection(s));
                }
            }
        }
        OpenOutcome::Opened { start_task }
    }

    /// Closes connection `connection_id`: it leaves the registry and its
    /// link's receive set. `None`, with nothing changed, when no such
    /// connection is open. The link's background task is to be stopped
    /// exactly when this connection was the link's last receiver.
    pub fn close_connection(&mut self, connection_id: &String) -> (r: Option<ConnectionClosure>)
        requires
            old(self).wf(),
        ensures
            final(self).wf(),
            r is None <==> !old(self).has_connection(connection_id@),
            r is None ==> final(self).links() == old(self).links() && final(self).connections()
                == old(self).connections(),
            r matches Some(c) ==> {
                let lid = old(self).connection(connection_id@).link_id();
                let old_link = old(self).link(lid);
                let new_link = final(self).link(lid);
                &&& c.connection_id@ == connection_id@
                &&& c.link_id@ == lid
                &&& old(self).has_link(lid)
                &&& final(self).connections() == old(self).connections().remove(
                    old(self).connection_ids().index_of(connection_id@),
                )
                &&& forall|s: Seq<char>|
                    new_link.receivers().contains(s) <==> (old_link.receivers().contains(s) && s
                        != connection_id@)
                &&& c.stop_task == (old_link.receivers().contains(connection_id@)
                    && old_link.receivers().ids().len() == 1)
                &&& new_link.receivers().running() == (old_link.receivers().running()
                    && !c.stop_task)
                &&& new_link.properties() == old_link.properties()
                &&& forall|other: Seq<char>|
                    old(self).has_link(other) && other != lid ==> #[trigger] final(self).link(other)
                        == old(self).link(other)
            },
            final(self).link_ids() == old(self).link_ids(),
            forall|x: Seq<char>|
                final(self).has_connection(x) <==> (old(self).has_connection(x) && x
                    != connection_id@),
            forall|x: Seq<char>|
                #![trigger final(self).connection(x)]
                final(self).has_connection(x) ==> final(self).connection(x) == old(self).connection(
                    x,
                ),
            final(self).same_channel_state(old(self)),
    {
        let i = match self.find_connection(connection_id) {
            Some(i) => i,
            None => return None,
        };
        let connection = self.connections.remove(i);
        proof {
            lemma_keyed_removed(old(self).connections(), connection_key(), i as int);
            assert(old(self).has_link(connection.link_id()));
        }
        let j = match self.find_link(&connection.link_id) {
            Some(j) => j,
            None => {
                proof {
                    assert(false);
                }
                return None;
            },
        };
        let ghost links_before = self.links@;
        let mut link = self.links.remove(j);
        let stop_task = link.close_connection(connection_id);
        self.links.insert(j, link);
        proof {
            assert(self.links@ =~= links_before.update(j as int, self.links@[j as int]));
            lemma_link_replaced(links_before, j as int, self.links@[j as int]);
            assert(self.link_ids().index_of(connection.link_id()) == j);
            assert forall|k: int| 0 <= k < self.links().len() implies #[trigger] self.links()[k].wf() by {
                if k != j {
                    assert(self.links()[k] == links_before[k]);
                }
            }
            assert forall|k: int| 0 <= k < self.connections().len() implies self.has_link(
                #[trigger] self.connections()[k].link_id(),
            ) by {
                let k2 = if k < i { k } else { k + 1 };
                assert(self.connections()[k] == old(self).connections()[k2]);
            }
            assert forall|other: Seq<char>| old(self).has_link(other) && other != connection.link_id() implies #[trigger] self.link(other)
                == old(self).link(other) by {
                let k = self.link_ids().index_of(other);
                assert(self.link_ids()[k] == other);
            }
            assert forall|k: int, s: Seq<char>|
                0 <= k < self.links().len() && #[trigger] self.links()[k].receivers().contains(s)
                    implies self.has_connection(s) && self.connection(s).link_id() == self.links()[k].id() by {
                if k != j {
                    assert(self.links()[k] == links_before[k]);
                    assert(old(self).links()[k].receivers().contains(s));
                    if s == connection_id@ {
                        assert(old(self).connection(s) == connection);
                        assert(old(self).link_ids()[k] == old(self).link_ids()[j as int]);
                    }
                } else {
                    assert(old(self).links()[k].receivers().contains(s));
                }
                assert(old(self).has_connection(s));
                assert(self.has_connection(s));
                assert(self.connection(s) == old(self).connection(s));
            }
        }
        Some(ConnectionClosure { connection_id: connection.connection_id, link_id: connection.link_id, stop_task })
    }

    /// Destroys link `link_id`: every connection bound to it is closed
    /// through `close_connection`, then the link leaves the registry.
    /// `None`, with nothing changed, when no such link is registered.
    pub fn destroy_link(&mut self, link_id: &String) -> (r: Option<Vec<ConnectionClosure>>)
        requires
            old(self).wf(),
        ensures
            final(self).wf(),
            r is None <==> !old(self).has_link(link_id@),
            r is None ==> final(self).links() == old(self).links() && final(self).connections()
                == old(self).connections(),
            r matches Some(closed) ==> {
                &&& !final(self).has_link(link_id@)
                &&& forall|x: Seq<char>|
                    final(self).has_link(x) <==> (old(self).has_link(x) && x != link_id@)
                &&& forall|x: Seq<char>|
                    #![trigger final(self).link(x)]
                    final(self).has_link(x) ==> final(self).link(x) == old(self).link(x)
                &&& forall|x: Seq<char>|
                    final(self).has_connection(x) <==> (old(self).has_connection(x)
                        && old(self).connection(x).link_id() != link_id@)
                &&& closes_link_connections(closed@, *old(self), link_id@)
            },
            forall|x: Seq<char>|
                #![trigger final(self).connection(x)]
                final(self).has_connection(x) ==> final(self).connection(x) == old(self).connection(
                    x,
                ),
            final(self).same_channel_state(old(self)),
    {
        if self.find_link(link_id).is_none() {
            return None;
        }
        let mut closed: Vec<ConnectionClosure> = Vec::new();
        let mut k: usize = 0;
        while k < self.connections.len()
            invariant
                self.wf(),
                k <= self.connections@.len(),
                self.link_ids() == old(self).link_ids(),
                old(self).has_link(link_id@),
                forall|m: int| 0 <= m < k ==> (#[trigger] self.connections()[m]).link_id() != link_id@,
                forall|x: Seq<char>|
                    #![trigger self.link(x)]
                    old(self).has_link(x) && x != link_id@ ==> self.link(x) == old(self).link(x),
                forall|x: Seq<char>|
                    self.has_connection(x) ==> old(self).has_connection(x),
                forall|x: Seq<char>|
                    #![trigger self.connection(x)]
                    self.has_connection(x) ==> self.connection(x) == old(self).connection(x),
                forall|x: Seq<char>|
                    old(self).has_connection(x) && old(self).connection(x).link_id() != link_id@
                        ==> self.has_connection(x),
                forall|m: int| 0 <= m < closed@.len() ==> (#[trigger] closed@[m]).link_id@ == link_id@,
                self.same_channel_state(old(self)),
                closure_ids(closed@).no_duplicates(),
                forall|x: Seq<char>|
                    closure_ids(closed@).contains(x) <==> (old(self).has_connection(x) && old(
                        self,
                    ).connection(x).link_id() == link_id@ && !self.has_connection(x)),
                old(self).link(link_id@).receivers().running() == (self.link(
                    link_id@,
                ).receivers().running() || some_stop(closed@)),
                some_stop(closed@) ==> !self.link(link_id@).receivers().running(),
                at_most_one_stop(closed@),
            decreases self.connections@.len() - k,
        {
            if same_text(&self.connections[k].link_id, link_id) {
                let id = self.connections[k].connection_id.clone();
                proof {
                    assert(self.connection_ids()[k as int] == id@);
                    lemma_index_of_unique(self.connection_ids(), k as int);
                }
                let ghost before = *self;
                let ghost closed_before = closed@;
                proof {
                    assert(before.connection(id@).link_id() == link_id@);
                    lemma_link_of_id(before, link_id@);
                }
                match self.close_connection(&id) {
                    Some(c) => {
                        closed.push(c);
                        proof {
                            lemma_closure_pushed(closed_before, c);
                        }
                    },
                    None => {},
                }
                proof {
                    assert(closure_ids(closed@) =~= closure_ids(closed_before).push(id@));
                    assert(!closure_ids(closed_before).contains(id@));
                    assert(closure_ids(closed@).no_duplicates()) by {
                        let n = closed_before.len() as int;
                        assert forall|a: int, b: int|
                            0 <= a < closure_ids(closed@).len() && 0 <= b < closure_ids(closed@).len()
                                && a != b implies closure_ids(closed@)[a] != closure_ids(closed@)[b] by {
                            if a == n {
                                assert(closure_ids(closed_before)[b] == closure_ids(closed@)[b]);
                            } else if b == n {
                                assert(closure_ids(closed_before)[a] == closure_ids(closed@)[a]);
                            }
                        }
                    }
                    assert forall|x: Seq<char>|
                        closure_ids(closed@).contains(x) <==> (old(self).has_connection(x) && old(
                            self,
                        ).connection(x).link_id() == link_id@ && !self.has_connection(x)) by {
                        if closure_ids(closed@).contains(x) && x != id@ {
                            let a = choose|a: int| 0 <= a < closure_ids(closed@).len() && closure_ids(closed@)[a] == x;
                            assert(closure_ids(closed_before)[a] == x);
                        }
                        if x == id@ {
                            assert(closure_ids(closed@)[closed_before.len() as int] == x);
                            assert(before.has_connection(x));
                            assert(before.connection(x) == old(self).connection(x));
                            assert(old(self).has_connection(x));
                        }
                        if x != id@ && old(self).has_connection(x) && old(self).connection(x).link_id() == link_id@ && !self.has_connection(x) {
                            assert(!before.has_connection(x));
                            assert(closure_ids(closed_before).contains(x));
                            let a = choose|a: int| 0 <= a < closure_ids(closed_before).len() && closure_ids(closed_before)[a] == x;
                            assert(closure_ids(closed@)[a] == x);
                        }
                    }
                    assert forall|m: int| 0 <= m < k implies (#[trigger] self.connections()[m]).link_id() != link_id@ by {
                        assert(self.connections()[m] == before.connections()[m]);
                    }
                    assert forall|x: Seq<char>| old(self).has_connection(x) && old(self).connection(x).link_id() != link_id@ implies self.has_connection(x) by {
                        assert(before.has_connection(x));
                        if x == id@ {
                            assert(before.connection(x) == before.connections()[k as int]);
                        }
                    }
                }
            } else {
                k = k + 1;
            }
        }
        proof {
            lemma_link_of_id(*self, link_id@);
            let l = self.link(link_id@);
            if l.receivers().running() {
                let s0 = l.receivers().ids()[0];
                assert(l.receivers().contains(s0));
                let m = self.connection_ids().index_of(s0);
                assert(self.connections()[m].link_id() != link_id@);
            }
            assert forall|x: Seq<char>| old(self).has_connection(x) && old(self).connection(x).link_id() == link_id@
                implies !self.has_connection(x) by {
                if self.has_connection(x) {
                    let m = self.connection_ids().index_of(x);
                    assert(self.connection_ids()[m] == x);
                    assert(self.connections()[m].link_id() != link_id@);
                    assert(self.connection(x) == old(self).connection(x));
                }
            }
        }
        let j = match self.find_link(link_id) {
            Some(j) => j,
            None => {
                proof {
                    assert(false);
                }
                return None;
            },
        };
        let ghost links_before = self.links@;
        let ghost mid = *self;
        self.links.remove(j);
        proof {
            lemma_keyed_removed(links_before, link_key(), j as int);
            assert forall|m: int| 0 <= m < self.links().len() implies #[trigger] self.links()[m].wf() by {
                let m2 = if m < j { m } else { m + 1 };
                assert(self.links()[m] == links_before[m2]);
            }
            assert forall|m: int| 0 <= m < self.connections().len() implies self.has_link(
                #[trigger] self.connections()[m].link_id(),
            ) by {
                assert(self.connections()[m].link_id() != link_id@);
            }
            assert forall|x: Seq<char>| #![trigger self.link(x)] self.has_link(x) implies self.link(x) == old(self).link(x) by {
                assert(link_ids_of(links_before).contains(x));
                assert(x != link_id@);
                assert(mid.link(x) == old(self).link(x));
            }
            assert forall|x: Seq<char>| self.has_connection(x) implies old(self).connection(x).link_id() != link_id@ by {
                let m = self.connection_ids().index_of(x);
                assert(self.connections()[m].link_id() != link_id@);
                assert(mid.connection(x) == old(self).connection(x));
            }
            assert forall|x: Seq<char>| #![trigger self.connection(x)] self.has_connection(x) implies self.connection(x)
                == old(self).connection(x) by {
                assert(mid.connection(x) == old(self).connection(x));
            }
        }
        Some(closed)
    }
    /// Registers a new link.
    fn add_link(&mut self, link_id: &String, props: LinkProperties, address: LinkAddress)
        requires
            old(self).wf(),
            !old(self).has_link(link_id@),
        ensures
            final(self).wf(),
            final(self).link_ids() == old(self).link_ids().push(link_id@),
            final(self).connections() == old(self).connections(),
            final(self).same_channel_state(old(self)),
            final(self).link(link_id@).properties() == props,
            final(self).link(link_id@).address() == address,
            final(self).link(link_id@).receivers().ids().len() == 0,
            !final(self).link(link_id@).receivers().running(),
            forall|x: Seq<char>|
                #![trigger final(self).link(x)]
                old(self).has_link(x) ==> final(self).link(x) == old(self).link(x),
    {
        let link = Link::from_address(link_id, props, address);
        self.links.push(link);
        proof {
            let n = old(self).links().len() as int;
            assert(self.link_ids() =~= old(self).link_ids().push(link_id@));
            assert(self.link_ids().no_duplicates()) by {
                assert forall|a: int, b: int|
                    0 <= a < self.link_ids().len() && 0 <= b < self.link_ids().len() && a != b
                        implies self.link_ids()[a] != self.link_ids()[b] by {
                    if a == n {
                        assert(old(self).link_ids()[b] == self.link_ids()[b]);
                    } else if b == n {
                        assert(old(self).link_ids()[a] == self.link_ids()[a]);
                    }
                }
            }
            lemma_index_of_unique(self.link_ids(), n);
            assert forall|k: int| 0 <= k < self.links().len() implies #[trigger] self.links()[k].wf() by {
                if k < n {
                    assert(self.links()[k] == old(self).links()[k]);
                }
            }
            assert forall|k: int| 0 <= k < self.connections().len() implies self.has_link(
                #[trigger] self.connections()[k].link_id(),
            ) by {
                let x = self.connections()[k].link_id();
                assert(old(self).has_link(x));
                let m = old(self).link_ids().index_of(x);
                assert(self.link_ids()[m] == x);
            }
            assert forall|x: Seq<char>| #![trigger self.link(x)] old(self).has_link(x) implies self.link(x)
                == old(self).link(x) by {
                let m = old(self).link_ids().index_of(x);
                assert(self.link_ids()[m] == x);
                lemma_index_of_unique(self.link_ids(), m);
            }
        }
    }

    /// Makes a new link on channel `channel_gid` under the id `link_id`,
    /// which the host generated, with an address of this plugin's choosing.
    ///
    /// A direct link receives on this node's hostname and the next free
    /// port, which then advances by one; a whiteboard link is bidirectional,
    /// on the configured relay, under the hashtag `rust_<persona>_<n>` for
    /// the next free number `n`, which then advances by one, and is polled
    /// every second. The link's properties start from the channel's
    /// defaults. The returned profile is the link's address; its text is set
    /// later with `set_link_address`.
    pub fn create_link(
        &mut self,
        channel_gid: &str,
        link_id: &String,
        channel_props: &ChannelProperties,
    ) -> (r: Result<LinkAddress, CreateLinkError>)
        requires
            old(self).wf(),
        ensures
            final(self).wf(),
            final(self).connections() == old(self).connections(),
            match old(self).creation_refusal(channel_gid@, link_id@) {
                Some(e) => r == Err::<LinkAddress, CreateLinkError>(e) && final(self).links()
                    == old(self).links() && final(self).same_channel_state(old(self)),
                None => r is Ok,
            },
            r matches Ok(address) ==> {
                let c = channel_of(channel_gid@)->0;
                let l = final(self).link(link_id@);
                &&& final(self).link_ids() == old(self).link_ids().push(link_id@)
                &&& forall|x: Seq<char>|
                    #![trigger final(self).link(x)]
                    old(self).has_link(x) ==> final(self).link(x) == old(self).link(x)
                &&& l.address() == address
                &&& takes_channel_defaults(l.properties(), *channel_props, c)
                &&& l.properties().link_address@.len() == 0
                &&& l.receivers().ids().len() == 0
                &&& final(self).status(Channel::Direct) == old(self).status(Channel::Direct)
                &&& final(self).status(Channel::Indirect) == old(self).status(Channel::Indirect)
                &&& final(self).persona() == old(self).persona()
                &&& final(self).hostname() == old(self).hostname()
                &&& final(self).pending_requests() == old(self).pending_requests()
                &&& c == Channel::Direct ==> {
                    &&& l.properties().link_type == LinkType::LtRecv
                    &&& address matches LinkAddress::Direct(p) && p.hostname@ == old(self).hostname()
                        && p.port == old(self).next_port()
                    &&& final(self).next_port() == wrapping_next(old(self).next_port())
                    &&& final(self).next_hashtag() == old(self).next_hashtag()
                }
                &&& c == Channel::Indirect ==> {
                    &&& l.properties().link_type == LinkType::LtBidi
                    &&& address matches LinkAddress::Whiteboard(p) && p.hostname@
                        == old(self).whiteboard_host().0 && p.port == old(self).whiteboard_host().1
                        && p.hashtag@ == "rust_"@ + old(self).persona() + "_"@ + decimal_of(
                        old(self).next_hashtag() as nat,
                    ) && p.check_frequency_ms == 1000
                    &&& final(self).next_hashtag() == wrapping_next(old(self).next_hashtag())
                    &&& final(self).next_port() == old(self).next_port()
                }
            },
    {
        let channel = match channel_from_gid(channel_gid) {
            Some(c) => c,
            None => return Err(CreateLinkError::UnknownChannel),
        };
        let status = match channel {
            Channel::Direct => self.direct_status,
            Channel::Indirect => self.indirect_status,
        };
        if status != ChannelStatus::ChannelAvailable {
            return Err(CreateLinkError::ChannelNotAvailable);
        }
        if self.find_link(link_id).is_some() {
            return Err(CreateLinkError::DuplicateLinkId);
        }
        let mut props = match get_default_link_properties_for_channel(channel_props, channel_gid) {
            Ok(p) => p,
            Err(()) => return Err(CreateLinkError::UnknownChannel),
        };
        match channel {
            Channel::Direct => {
                props.link_type = LinkType::LtRecv;
                let profile = direct_link::LinkProfile {
                    hostname: self.hostname.clone(),
                    port: self.next_available_port,
                };
                self.next_available_port = self.next_available_port.wrapping_add(1);
                let address = LinkAddress::Direct(profile.copy());
                self.add_link(link_id, props, LinkAddress::Direct(profile));
                Ok(address)
            },
            Channel::Indirect => {
                props.link_type = LinkType::LtBidi;
                let mut hashtag = String::from_str("rust_");
                hashtag.append(self.active_persona.as_str());
                hashtag.append("_");
                let number = decimal_text(self.next_available_hashtag);
                hashtag.append(number.as_str());
                let profile = whiteboard_link::LinkProfile {
                    hostname: self.whiteboard_hostname.clone(),
                    port: self.whiteboard_port,
                    hashtag,
                    check_frequency_ms: 1000,
                };
                self.next_available_hashtag = self.next_available_hashtag.wrapping_add(1);
                let address = LinkAddress::Whiteboard(profile.copy());
                self.add_link(link_id, props, LinkAddress::Whiteboard(profile));
                Ok(address)
            },
        }
    }

    /// Registers a link on channel `channel_gid` under the id `link_id` at
    /// the given address: `link_address` is the address text, `address` the
    /// profile read from it (`None` when it could not be read). A direct
    /// link gets the type `direct_type`, a whiteboard link is bidirectional.
    fn add_link_at_address(
        &mut self,
        channel_gid: &str,
        link_id: &String,
        link_address: &String,
        address: Option<LinkAddress>,
        channel_props: &ChannelProperties,
        direct_type: LinkType,
    ) -> (r: Result<(), CreateLinkError>)
        requires
            old(self).wf(),
        ensures
            final(self).wf(),
            final(self).connections() == old(self).connections(),
            final(self).same_channel_state(old(self)),
            r == match old(self).creation_refusal(channel_gid@, link_id@) {
                Some(e) => Err(e),
                None => if address_fits(channel_of(channel_gid@)->0, address) {
                    Ok(())
                } else {
                    Err(CreateLinkError::InvalidAddress)
                },
            },
            r is Err ==> final(self).links() == old(self).links(),
            r is Ok ==> {
                let c = channel_of(channel_gid@)->0;
                let l = final(self).link(link_id@);
                &&& final(self).link_ids() == old(self).link_ids().push(link_id@)
                &&& forall|x: Seq<char>|
                    #![trigger final(self).link(x)]
                    old(self).has_link(x) ==> final(self).link(x) == old(self).link(x)
                &&& l.address() == address->0
                &&& takes_channel_defaults(l.properties(), *channel_props, c)
                &&& l.properties().link_address@ == link_address@
                &&& l.properties().link_type == (if c == Channel::Direct {
                    direct_type
                } else {
                    LinkType::LtBidi
                })
                &&& l.receivers().ids().len() == 0
            },
    {
        let channel = match channel_from_gid(channel_gid) {
            Some(c) => c,
            None => return Err(CreateLinkError::UnknownChannel),
        };
        let status = match channel {
            Channel::Direct => self.direct_status,
            Channel::Indirect => self.indirect_status,
        };
        if status != ChannelStatus::ChannelAvailable {
            return Err(CreateLinkError::ChannelNotAvailable);
        }
        if self.find_link(link_id).is_some() {
            return Err(CreateLinkError::DuplicateLinkId);
        }
        let mut props = match get_default_link_properties_for_channel(channel_props, channel_gid) {
            Ok(p) => p,
            Err(()) => return Err(CreateLinkError::UnknownChannel),
        };
        props.link_address = link_address.clone();
        match (channel, address) {
            (Channel::Direct, Some(LinkAddress::Direct(profile))) => {
                props.link_type = direct_type;
                self.add_link(link_id, props, LinkAddress::Direct(profile));
                Ok(())
            },
            (Channel::Indirect, Some(LinkAddress::Whiteboard(profile))) => {
                props.link_type = LinkType::LtBidi;
                self.add_link(link_id, props, LinkAddress::Whiteboard(profile));
                Ok(())
            },
            _ => Err(CreateLinkError::InvalidAddress),
        }
    }

    /// Makes a new link that this node creates at an address given from
    /// outside (see `add_link_at_address`); a direct link made so receives.
    pub fn create_link_from_address(
        &mut self,
        channel_gid: &str,
        link_id: &String,
        link_address: &String,
        address: Option<LinkAddress>,
        channel_props: &ChannelProperties,
    ) -> (r: Result<(), CreateLinkError>)
        requires
            old(self).wf(),
        ensures
            final(self).wf(),
            final(self).connections() == old(self).connections(),
            final(self).same_channel_state(old(self)),
            r == match old(self).creation_refusal(channel_gid@, link_id@) {
                Some(e) => Err(e),
                None => if address_fits(channel_of(channel_gid@)->0, address) {
                    Ok(())
                } else {
                    Err(CreateLinkError::InvalidAddress)
                },
            },
            r is Err ==> final(self).links() == old(self).links(),
            r is Ok ==> {
                let c = channel_of(channel_gid@)->0;
                let l = final(self).link(link_id@);
                &&& final(self).link_ids() == old(self).link_ids().push(link_id@)
                &&& forall|x: Seq<char>|
                    #![trigger final(self).link(x)]
                    old(self).has_link(x) ==> final(self).link(x) == old(self).link(x)
                &&& l.address() == address->0
                &&& takes_channel_defaults(l.properties(), *channel_props, c)
                &&& l.properties().link_address@ == link_address@
                &&& l.properties().link_type == (if c == Channel::Direct {
                    LinkType::LtRecv
                } else {
                    LinkType::LtBidi
                })
                &&& l.receivers().ids().len() == 0
            },
    {
        self.add_link_at_address(
            channel_gid,
            link_id,
            link_address,
            address,
            channel_props,
            LinkType::LtRecv,
        )
    }

    /// Loads a link that another node created, from its address (see
    /// `add_link_at_address`); a direct link loaded so sends.
    pub fn load_link_address(
        &mut self,
        channel_gid: &str,
        link_id: &String,
        link_address: &String,
        address: Option<LinkAddress>,
        channel_props: &ChannelProperties,
    ) -> (r: Result<(), CreateLinkError>)
        requires
            old(self).wf(),
        ensures
            final(self).wf(),
            final(self).connections() == old(self).connections(),
            final(self).same_channel_state(old(self)),
            r == match old(self).creation_refusal(channel_gid@, link_id@) {
                Some(e) => Err(e),
                None => if address_fits(channel_of(channel_gid@)->0, address) {
                    Ok(())
                } else {
                    Err(CreateLinkError::InvalidAddress)
                },
            },
            r is Err ==> final(self).links() == old(self).links(),
            r is Ok ==> {
                let c = channel_of(channel_gid@)->0;
                let l = final(self).link(link_id@);
                &&& final(self).link_ids() == old(self).link_ids().push(link_id@)
                &&& forall|x: Seq<char>|
                    #![trigger final(self).link(x)]
                    old(self).has_link(x) ==> final(self).link(x) == old(self).link(x)
                &&& l.address() == address->0
                &&& takes_channel_defaults(l.properties(), *channel_props, c)
                &&& l.properties().link_address@ == link_address@
                &&& l.properties().link_type == (if c == Channel::Direct {
                    LinkType::LtSend
                } else {
                    LinkType::LtBidi
                })
                &&& l.receivers().ids().len() == 0
            },
    {
        self.add_link_at_address(
            channel_gid,
            link_id,
            link_address,
            address,
            channel_props,
            LinkType::LtSend,
        )
    }

    /// Loading several addresses into one link is not offered by either
    /// channel: always refused.
    pub fn load_link_addresses(&self) -> (r: PluginResponse)
        ensures
            r == PluginResponse::PluginError,
    {
        PluginResponse::PluginError
    }

    /// Sets the address text of link `link_id`. Returns whether the link is
    /// registered; nothing else changes.
    pub fn set_link_address(&mut self, link_id: &String, link_address: String) -> (r: bool)
        requires
            old(self).wf(),
        ensures
            final(self).wf(),
            r == old(self).has_link(link_id@),
            final(self).link_ids() == old(self).link_ids(),
            final(self).connections() == old(self).connections(),
            final(self).same_channel_state(old(self)),
            r ==> {
                let l = final(self).link(link_id@);
                let o = old(self).link(link_id@);
                &&& l.properties().link_address == link_address
                &&& l.properties().link_type == o.properties().link_type
                &&& l.properties().channel_gid == o.properties().channel_gid
                &&& l.address() == o.address()
                &&& l.receivers() == o.receivers()
            },
            forall|x: Seq<char>|
                #![trigger final(self).link(x)]
                old(self).has_link(x) && x != link_id@ ==> final(self).link(x) == old(self).link(x),
            !r ==> final(self).links() == old(self).links(),
    {
        let j = match self.find_link(link_id) {
            Some(j) => j,
            None => return false,
        };
        let ghost links_before = self.links@;
        let mut link = self.links.remove(j);
        proof {
            assert(link.wf());
        }
        link.set_link_address(link_address);
        proof {
            assert(link.wf());
        }
        self.links.insert(j, link);
        proof {
            assert(self.links@ =~= links_before.update(j as int, self.links@[j as int]));
            lemma_link_replaced(links_before, j as int, self.links@[j as int]);
            assert forall|k: int| 0 <= k < self.links().len() implies #[trigger] self.links()[k].wf() by {
                if k != j {
                    assert(self.links()[k] == links_before[k]);
                }
            }
            assert forall|x: Seq<char>| #![trigger self.link(x)] old(self).has_link(x) && x != link_id@ implies self.link(x)
                == old(self).link(x) by {
                let k = self.link_ids().index_of(x);
                assert(self.link_ids()[k] == x);
            }
        }
        true
    }
    /// Where to send a package on connection `connection_id`.
    ///
    /// Refused when the connection is not open, or when its link cannot
    /// send (a receive-only link): then no transport is tried. Otherwise a
    /// direct link dials its profile's host and port, and a whiteboard link
    /// posts the package's base64 text under its hashtag.
    pub fn send_package(&self, connection_id: &String, package: &[u8]) -> (r: Result<
        SendPlan,
        SendRefusal,
    >)
        requires
            self.wf(),
        ensures
            !self.has_connection(connection_id@) ==> r == Err::<SendPlan, SendRefusal>(
                SendRefusal::UnknownConnection,
            ),
            self.has_connection(connection_id@) ==> {
                let l = self.link(self.connection(connection_id@).link_id());
                &&& !can_send(l.link_type()) ==> r == Err::<SendPlan, SendRefusal>(
                    SendRefusal::NotSendCapable,
                )
                &&& can_send(l.link_type()) ==> match l.address() {
                    LinkAddress::Direct(p) => r matches Ok(SendPlan::Tcp { hostname, port })
                        && hostname@ == p.hostname@ && port == p.port,
                    LinkAddress::Whiteboard(p) => r matches Ok(
                        SendPlan::Post { hostname, port, hashtag, body },
                    ) && hostname@ == p.hostname@ && port == p.port && hashtag@ == p.hashtag@
                        && body@ == whiteboard_link::base64_encoding(package@),
                }
            },
    {
        let i = match self.find_connection(connection_id) {
            Some(i) => i,
            None => return Err(SendRefusal::UnknownConnection),
        };
        let j = match self.find_link(&self.connections[i].link_id) {
            Some(j) => j,
            None => {
                proof {
                    assert(self.has_link(self.connections()[i as int].link_id()));
                }
                return Err(SendRefusal::UnknownConnection);
            },
        };
        let link = &self.links[j];
        if !is_sending_type(link.get_link_type()) {
            return Err(SendRefusal::NotSendCapable);
        }
        match link {
            Link::Direct(l) => {
                let p = l.get_profile();
                Ok(SendPlan::Tcp { hostname: p.hostname.clone(), port: p.port })
            },
            Link::Whiteboard(l) => {
                let p = l.get_profile();
                Ok(
                    SendPlan::Post {
                        hostname: p.hostname.clone(),
                        port: p.port,
                        hashtag: p.hashtag.clone(),
                        body: whiteboard_link::encode_package(package),
                    },
                )
            },
        }
    }

    /// Activates a channel. The indirect channel becomes available at once;
    /// the direct channel starts a new attempt, with no prompt outstanding,
    /// and becomes available only once the user has given this node's
    /// hostname and start port.
    pub fn activate_channel(&mut self, channel_gid: &str) -> (r: Activation)
        requires
            old(self).wf(),
        ensures
            final(self).wf(),
            final(self).links() == old(self).links(),
            final(self).connections() == old(self).connections(),
            channel_of(channel_gid@) == Some(Channel::Direct)
                ==> final(self).pending_requests().len() == 0,
            channel_of(channel_gid@) != Some(Channel::Direct) ==> final(self).pending_requests()
                == old(self).pending_requests(),
            final(self).next_port() == old(self).next_port(),
            final(self).hostname() == old(self).hostname(),
            r == match channel_of(channel_gid@) {
                None => Activation::UnknownChannel,
                Some(Channel::Indirect) => Activation::IndirectAvailable,
                Some(Channel::Direct) => Activation::RequestHostname,
            },
            r == Activation::UnknownChannel ==> final(self).same_channel_state(old(self)),
            r == Activation::IndirectAvailable ==> final(self).status(Channel::Indirect)
                == ChannelStatus::ChannelAvailable && final(self).status(Channel::Direct) == old(
                self,
            ).status(Channel::Direct),
            r == Activation::RequestHostname ==> final(self).status(Channel::Direct)
                == ChannelStatus::ChannelStarting && final(self).status(Channel::Indirect) == old(
                self,
            ).status(Channel::Indirect),
    {
        match channel_from_gid(channel_gid) {
            None => Activation::UnknownChannel,
            Some(Channel::Indirect) => {
                self.indirect_status = ChannelStatus::ChannelAvailable;
                Activation::IndirectAvailable
            },
            Some(Channel::Direct) => {
                self.direct_status = ChannelStatus::ChannelStarting;
                self.direct_channel_user_input_requests = Vec::new();
                Activation::RequestHostname
            },
        }
    }

    /// The host's answer to the request for the hostname prompt: the
    /// prompt's handle, or `None` when the host could not issue it. Without
    /// the prompt the direct channel fails and nothing more is asked;
    /// otherwise the prompt is outstanding and the start-port prompt is to be
    /// requested next (the result says whether to).
    pub fn hostname_requested(&mut self, handle: Option<u64>) -> (ask_start_port: bool)
        requires
            old(self).wf(),
        ensures
            final(self).wf(),
            final(self).links() == old(self).links(),
            final(self).connections() == old(self).connections(),
            ask_start_port == handle is Some,
            final(self).status(Channel::Indirect) == old(self).status(Channel::Indirect),
            final(self).start_port_handle() == old(self).start_port_handle(),
            match handle {
                Some(h) => {
                    &&& final(self).hostname_handle() == h
                    &&& final(self).status(Channel::Direct) == old(self).status(Channel::Direct)
                    &&& forall|x: u64|
                        final(self).pending_requests().contains(x) <==> (old(
                            self,
                        ).pending_requests().contains(x) || x == h)
                },
                None => {
                    &&& final(self).status(Channel::Direct) == ChannelStatus::ChannelFailed
                    &&& final(self).hostname_handle() == old(self).hostname_handle()
                    &&& final(self).pending_requests() == old(self).pending_requests()
                },
            },
    {
        match handle {
            Some(h) => {
                self.request_hostname_handle = h;
                add_handle(&mut self.direct_channel_user_input_requests, h);
                true
            },
            None => {
                self.direct_status = ChannelStatus::ChannelFailed;
                false
            },
        }
    }

    /// The host's answer to the request for the start-port prompt: the
    /// prompt's handle, or `None` when it could not be issued (the default
    /// start port then stays).
    pub fn start_port_requested(&mut self, handle: Option<u64>)
        requires
            old(self).wf(),
        ensures
            final(self).wf(),
            final(self).links() == old(self).links(),
            final(self).connections() == old(self).connections(),
            final(self).status(Channel::Direct) == old(self).status(Channel::Direct),
            final(self).status(Channel::Indirect) == old(self).status(Channel::Indirect),
            final(self).hostname_handle() == old(self).hostname_handle(),
            match handle {
                Some(h) => {
                    &&& final(self).start_port_handle() == h
                    &&& forall|x: u64|
                        final(self).pending_requests().contains(x) <==> (old(
                            self,
                        ).pending_requests().contains(x) || x == h)
                },
                None => {
                    &&& final(self).start_port_handle() == old(self).start_port_handle()
                    &&& final(self).pending_requests() == old(self).pending_requests()
                },
            },
    {
        if let Some(h) = handle {
            self.request_start_port_handle = h;
            add_handle(&mut self.direct_channel_user_input_requests, h);
        }
    }

    /// A user's answer to prompt `handle`.
    ///
    /// Only an outstanding prompt of the direct channel, while it is
    /// starting, is answered; any other answer is not recognised and changes
    /// nothing, so a disabled or failed start stays so. For the hostname
    /// prompt: an answer sets this node's hostname; a refusal disables the
    /// direct channel at once, and the prompt stays outstanding so the
    /// channel cannot become available later. For the start-port prompt: an
    /// answer that reads as a port number sets the next free port; otherwise
    /// the default stays. An answered prompt is no longer outstanding, and
    /// when none is left the direct channel becomes available.
    pub fn on_user_input_received(&mut self, handle: u64, answered: bool, response: &str) -> (r:
        InputOutcome)
        requires
            old(self).wf(),
        ensures
            final(self).wf(),
            final(self).links() == old(self).links(),
            final(self).connections() == old(self).connections(),
            final(self).status(Channel::Indirect) == old(self).status(Channel::Indirect),
            final(self).hostname_handle() == old(self).hostname_handle(),
            final(self).start_port_handle() == old(self).start_port_handle(),
            final(self).persona() == old(self).persona(),
            final(self).next_hashtag() == old(self).next_hashtag(),
            old(self).status(Channel::Direct) != ChannelStatus::ChannelStarting
                ==> final(self).status(Channel::Direct) == old(self).status(Channel::Direct)
                && r != InputOutcome::DirectAvailable,
            !old(self).answers_prompt(handle) ==> {
                &&& r == InputOutcome::Unrecognized
                &&& final(self).same_channel_state(old(self))
            },
            old(self).answers_prompt(handle) && handle == old(self).hostname_handle() && !answered
                ==> {
                &&& r == InputOutcome::DirectDisabled
                &&& final(self).status(Channel::Direct) == ChannelStatus::ChannelDisabled
                &&& final(self).pending_requests() == old(self).pending_requests()
                &&& final(self).hostname() == old(self).hostname()
                &&& final(self).next_port() == old(self).next_port()
            },
            old(self).answers_prompt(handle) && handle == old(self).hostname_handle() && answered
                ==> {
                &&& final(self).hostname() == response@
                &&& final(self).next_port() == old(self).next_port()
            },
            old(self).answers_prompt(handle) && handle != old(self).hostname_handle() ==> {
                &&& final(self).hostname() == old(self).hostname()
                &&& final(self).next_port() == (if answered && parsed_u32(response@) is Some {
                    parsed_u32(response@)->0
                } else {
                    old(self).next_port()
                })
            },
            old(self).answers_prompt(handle) && !(handle == old(self).hostname_handle()
                && !answered) ==> (r == InputOutcome::StillPending || r
                == InputOutcome::DirectAvailable),
            r == InputOutcome::StillPending || r == InputOutcome::DirectAvailable ==> {
                &&& forall|x: u64|
                    final(self).pending_requests().contains(x) <==> (old(
                        self,
                    ).pending_requests().contains(x) && x != handle)
                &&& (r == InputOutcome::DirectAvailable) == (final(self).pending_requests().len()
                    == 0)
                &&& r == InputOutcome::DirectAvailable ==> final(self).status(Channel::Direct)
                    == ChannelStatus::ChannelAvailable
                &&& r == InputOutcome::StillPending ==> final(self).status(Channel::Direct) == old(
                    self,
                ).status(Channel::Direct)
            },
    {
        if self.direct_status != ChannelStatus::ChannelStarting
            || !has_handle(&self.direct_channel_user_input_requests, handle) {
            return InputOutcome::Unrecognized;
        }
        if handle == self.request_hostname_handle {
            if answered {
                self.hostname = String::from_str(response);
            } else {
                self.direct_status = ChannelStatus::ChannelDisabled;
                return InputOutcome::DirectDisabled;
            }
        } else if handle == self.request_start_port_handle {
            if answered {
                if let Some(port) = parse_u32(response) {
                    self.next_available_port = port;
                }
            }
        } else {
            return InputOutcome::Unrecognized;
        }
        remove_handle(&mut self.direct_channel_user_input_requests, handle);
        if self.direct_channel_user_input_requests.len() == 0 {
            self.direct_status = ChannelStatus::ChannelAvailable;
            InputOutcome::DirectAvailable
        } else {
            InputOutcome::StillPending
        }
    }

    /// Index of a link on channel `gid`, if any.
    fn find_link_on_channel(&self, gid: &String) -> (r: Option<usize>)
        ensures
            match r {
                Some(i) => i < self.links().len() && self.links()[i as int].properties().channel_gid@
                    == gid@,
                None => forall|k: int|
                    0 <= k < self.links().len() ==> (#[trigger] self.links()[k]).properties().channel_gid@
                        != gid@,
            },
    {
        let mut i: usize = 0;
        while i < self.links.len()
            invariant
                i <= self.links@.len(),
                forall|k: int|
                    0 <= k < i ==> (#[trigger] self.links()[k]).properties().channel_gid@ != gid@,
            decreases self.links@.len() - i,
        {
            if same_text(&self.links[i].get_link_properties().channel_gid, gid) {
                return Some(i);
            }
            i = i + 1;
        }
        None
    }

    /// Deactivates a channel: it becomes unavailable and every link on it is
    /// destroyed as `destroy_link` does. `None`, with nothing changed, for an
    /// unknown channel id.
    pub fn deactivate_channel(&mut self, channel_gid: &str) -> (r: Option<Vec<LinkTeardown>>)
        requires
            old(self).wf(),
        ensures
            final(self).wf(),
            r is None <==> channel_of(channel_gid@) is None,
            r is None ==> final(self).links() == old(self).links() && final(self).connections()
                == old(self).connections() && final(self).same_channel_state(old(self)),
            r is Some ==> {
                let c = channel_of(channel_gid@)->0;
                &&& final(self).status(c) == ChannelStatus::ChannelUnavailable
                &&& forall|x: Seq<char>|
                    final(self).has_link(x) <==> (old(self).has_link(x) && old(self).link(
                        x,
                    ).properties().channel_gid@ != channel_gid@)
                &&& forall|x: Seq<char>|
                    #![trigger final(self).link(x)]
                    final(self).has_link(x) ==> final(self).link(x) == old(self).link(x)
                &&& forall|d: Channel| d != c ==> final(self).status(d) == old(self).status(d)
                &&& final(self).persona() == old(self).persona()
                &&& final(self).next_port() == old(self).next_port()
                &&& final(self).next_hashtag() == old(self).next_hashtag()
                &&& final(self).hostname() == old(self).hostname()
                &&& final(self).whiteboard_host() == old(self).whiteboard_host()
                &&& final(self).pending_requests() == old(self).pending_requests()
                &&& final(self).hostname_handle() == old(self).hostname_handle()
                &&& final(self).start_port_handle() == old(self).start_port_handle()
            },
            r matches Some(torn) ==> {
                &&& teardown_ids(torn@).no_duplicates()
                &&& forall|x: Seq<char>|
                    teardown_ids(torn@).contains(x) <==> (old(self).has_link(x) && old(self).link(
                        x,
                    ).properties().channel_gid@ == channel_gid@)
                &&& forall|k: int|
                    0 <= k < torn@.len() ==> closes_link_connections(
                        (#[trigger] torn@[k]).closed@,
                        *old(self),
                        torn@[k].link_id@,
                    )
            },
    {
        let channel = match channel_from_gid(channel_gid) {
            Some(c) => c,
            None => return None,
        };
        match channel {
            Channel::Direct => self.direct_status = ChannelStatus::ChannelUnavailable,
            Channel::Indirect => self.indirect_status = ChannelStatus::ChannelUnavailable,
        }
        let ghost start = *self;
        let gid = String::from_str(channel_gid);
        let mut teardowns: Vec<LinkTeardown> = Vec::new();
        loop
            invariant
                self.wf(),
                self.status(channel) == ChannelStatus::ChannelUnavailable,
                channel_of(channel_gid@) == Some(channel),
                gid@ == channel_gid@,
                start.links() == old(self).links(),
                forall|x: Seq<char>|
                    #![trigger self.link(x)]
                    self.has_link(x) ==> old(self).has_link(x) && self.link(x) == old(self).link(x),
                forall|x: Seq<char>|
                    old(self).has_link(x) && old(self).link(x).properties().channel_gid@
                        != channel_gid@ ==> self.has_link(x),
                self.same_channel_state(&start),
                teardown_ids(teardowns@).no_duplicates(),
                forall|x: Seq<char>|
                    teardown_ids(teardowns@).contains(x) <==> (old(self).has_link(x) && old(
                        self,
                    ).link(x).properties().channel_gid@ == channel_gid@ && !self.has_link(x)),
                forall|k: int|
                    0 <= k < teardowns@.len() ==> closes_link_connections(
                        (#[trigger] teardowns@[k]).closed@,
                        *old(self),
                        teardowns@[k].link_id@,
                    ),
                forall|x: Seq<char>|
                    #![trigger self.connection(x)]
                    self.has_connection(x) ==> old(self).has_connection(x) && self.connection(x)
                        == old(self).connection(x),
                forall|x: Seq<char>|
                    old(self).has_connection(x) && self.has_link(old(self).connection(x).link_id())
                        ==> self.has_connection(x),
            ensures
                self.wf(),
                self.status(channel) == ChannelStatus::ChannelUnavailable,
                channel_of(channel_gid@) == Some(channel),
                forall|x: Seq<char>|
                    #![trigger self.link(x)]
                    self.has_link(x) ==> old(self).has_link(x) && self.link(x) == old(self).link(x),
                forall|x: Seq<char>|
                    old(self).has_link(x) && old(self).link(x).properties().channel_gid@
                        != channel_gid@ ==> self.has_link(x),
                forall|k: int|
                    0 <= k < self.links().len() ==> (#[trigger] self.links()[k]).properties().channel_gid@
                        != channel_gid@,
                self.same_channel_state(&start),
                teardown_ids(teardowns@).no_duplicates(),
                forall|x: Seq<char>|
                    teardown_ids(teardowns@).contains(x) <==> (old(self).has_link(x) && old(
                        self,
                    ).link(x).properties().channel_gid@ == channel_gid@ && !self.has_link(x)),
                forall|k: int|
                    0 <= k < teardowns@.len() ==> closes_link_connections(
                        (#[trigger] teardowns@[k]).closed@,
                        *old(self),
                        teardowns@[k].link_id@,
                    ),
                forall|x: Seq<char>|
                    #![trigger self.connection(x)]
                    self.has_connection(x) ==> old(self).has_connection(x) && self.connection(x)
                        == old(self).connection(x),
                forall|x: Seq<char>|
                    old(self).has_connection(x) && self.has_link(old(self).connection(x).link_id())
                        ==> self.has_connection(x),
            decreases self.links@.len(),
        {
            let j = match self.find_link_on_channel(&gid) {
                Some(j) => j,
                None => break,
            };
            let link_id = self.links[j].get_link_id().clone();
            proof {
                assert(self.link_ids()[j as int] == link_id@);
                lemma_index_of_unique(self.link_ids(), j as int);
            }
            let ghost before = *self;
            let ghost torn_before = teardowns@;
            let ghost lid = link_id@;
            proof {
                assert(before.links()[j as int].properties().channel_gid@ == channel_gid@);
                assert(before.link(lid) == old(self).link(lid));
            }
            match self.destroy_link(&link_id) {
                Some(closed) => {
                    proof {
                        assert forall|x: Seq<char>|
                            (before.has_connection(x) && before.connection(x).link_id() == lid)
                                <==> (old(self).has_connection(x) && old(self).connection(x).link_id()
                                == lid) by {
                            if before.has_connection(x) {
                                assert(before.connection(x) == old(self).connection(x));
                            }
                        }
                        lemma_closes_carried(closed@, before, *old(self), lid);
                    }
                    teardowns.push(LinkTeardown { link_id, closed });
                },
                None => {},
            }
            proof {
                assert(teardown_ids(teardowns@) =~= teardown_ids(torn_before).push(lid));
                assert(!teardown_ids(torn_before).contains(lid));
                let n = torn_before.len() as int;
                assert(teardown_ids(teardowns@).no_duplicates()) by {
                    assert forall|a: int, b: int|
                        0 <= a < teardown_ids(teardowns@).len() && 0 <= b < teardown_ids(teardowns@).len()
                            && a != b implies teardown_ids(teardowns@)[a] != teardown_ids(teardowns@)[b] by {
                        if a == n {
                            assert(teardown_ids(torn_before)[b] == teardown_ids(teardowns@)[b]);
                        } else if b == n {
                            assert(teardown_ids(torn_before)[a] == teardown_ids(teardowns@)[a]);
                        }
                    }
                }
                assert forall|x: Seq<char>|
                    teardown_ids(teardowns@).contains(x) <==> (old(self).has_link(x) && old(
                        self,
                    ).link(x).properties().channel_gid@ == channel_gid@ && !self.has_link(x)) by {
                    if teardown_ids(teardowns@).contains(x) && x != lid {
                        let a = choose|a: int| 0 <= a < teardown_ids(teardowns@).len() && teardown_ids(teardowns@)[a] == x;
                        assert(teardown_ids(torn_before)[a] == x);
                    }
                    if x == lid {
                        assert(teardown_ids(teardowns@)[n] == x);
                    }
                    if x != lid && old(self).has_link(x) && old(self).link(x).properties().channel_gid@ == channel_gid@ && !self.has_link(x) {
                        assert(!before.has_link(x));
                        assert(teardown_ids(torn_before).contains(x));
                        let a = choose|a: int| 0 <= a < teardown_ids(torn_before).len() && teardown_ids(torn_before)[a] == x;
                        assert(teardown_ids(teardowns@)[a] == x);
                    }
                }
                assert forall|k: int| 0 <= k < teardowns@.len() implies closes_link_connections(
                    (#[trigger] teardowns@[k]).closed@,
                    *old(self),
                    teardowns@[k].link_id@,
                ) by {
                    if k < n {
                        assert(teardowns@[k] == torn_before[k]);
                    }
                }
                assert forall|x: Seq<char>| #![trigger self.connection(x)] self.has_connection(x) implies old(self).has_connection(x) && self.connection(x)
                    == old(self).connection(x) by {
                    assert(before.has_connection(x));
                    assert(before.connection(x) == old(self).connection(x));
                }
                assert forall|x: Seq<char>|
                    old(self).has_connection(x) && self.has_link(old(self).connection(x).link_id())
                        implies self.has_connection(x) by {
                    assert(before.has_link(old(self).connection(x).link_id()));
                    assert(before.has_connection(x));
                    assert(before.connection(x) == old(self).connection(x));
                }
                assert forall|x: Seq<char>|
                    old(self).has_link(x) && old(self).link(x).properties().channel_gid@
                        != channel_gid@ implies self.has_link(x) by {
                    assert(before.has_link(x));
                    if x == link_id@ {
                        assert(before.link(x) == before.links()[j as int]);
                    }
                }
                assert forall|x: Seq<char>| #![trigger self.link(x)] self.has_link(x) implies old(self).has_link(x) && self.link(x) == old(self).link(x) by {
                    assert(before.link(x) == old(self).link(x));
                }
                lemma_link_count(before, *self, link_id@);
            }
        }
        proof {
            assert forall|x: Seq<char>|
                self.has_link(x) <==> (old(self).has_link(x) && old(self).link(
                    x,
                ).properties().channel_gid@ != channel_gid@) by {
                if self.has_link(x) {
                    assert(self.link(x) == old(self).link(x));
                    let k = self.link_ids().index_of(x);
                    assert(self.links()[k].properties().channel_gid@ != channel_gid@);
                }
            }
            assert forall|x: Seq<char>|
                teardown_ids(teardowns@).contains(x) <==> (old(self).has_link(x) && old(self).link(
                    x,
                ).properties().channel_gid@ == channel_gid@) by {
                if self.has_link(x) {
                    assert(self.link(x) == old(self).link(x));
                    let k = self.link_ids().index_of(x);
                    assert(self.links()[k].properties().channel_gid@ != channel_gid@);
                }
            }
        }
        Some(teardowns)
    }

    /// Shuts the plugin down: both channels are marked available, every
    /// connection is closed as `close_connection` does, and every link is
    /// dropped.
    pub fn shutdown(&mut self) -> (r: Vec<ConnectionClosure>)
        requires
            old(self).wf(),
        ensures
            final(self).wf(),
            final(self).links().len() == 0,
            final(self).connections().len() == 0,
            final(self).status(Channel::Direct) == ChannelStatus::ChannelAvailable,
            final(self).status(Channel::Indirect) == ChannelStatus::ChannelAvailable,
            r@.len() == old(self).connections().len(),
            closure_ids(r@).no_duplicates(),
            forall|x: Seq<char>| closure_ids(r@).contains(x) <==> old(self).has_connection(x),
            forall|k: int|
                0 <= k < r@.len() ==> (#[trigger] r@[k]).link_id@ == old(self).connection(
                    r@[k].connection_id@,
                ).link_id(),
    {
        self.direct_status = ChannelStatus::ChannelAvailable;
        self.indirect_status = ChannelStatus::ChannelAvailable;
        let mut closed: Vec<ConnectionClosure> = Vec::new();
        while self.connections.len() > 0
            invariant
                self.wf(),
                self.status(Channel::Direct) == ChannelStatus::ChannelAvailable,
                self.status(Channel::Indirect) == ChannelStatus::ChannelAvailable,
                closed@.len() + self.connections().len() == old(self).connections().len(),
                closure_ids(closed@).no_duplicates(),
                forall|x: Seq<char>|
                    closure_ids(closed@).contains(x) <==> (old(self).has_connection(x)
                        && !self.has_connection(x)),
                forall|x: Seq<char>|
                    #![trigger self.connection(x)]
                    self.has_connection(x) ==> old(self).has_connection(x) && self.connection(x)
                        == old(self).connection(x),
                forall|k: int|
                    0 <= k < closed@.len() ==> (#[trigger] closed@[k]).link_id@ == old(
                        self,
                    ).connection(closed@[k].connection_id@).link_id(),
            decreases self.connections@.len(),
        {
            let id = self.connections[0].connection_id.clone();
            proof {
                assert(self.connection_ids()[0] == id@);
                lemma_index_of_unique(self.connection_ids(), 0);
            }
            let ghost before = *self;
            let ghost closed_before = closed@;
            match self.close_connection(&id) {
                Some(c) => closed.push(c),
                None => {},
            }
            proof {
                let n = closed_before.len() as int;
                assert(before.connection(id@) == old(self).connection(id@));
                assert(closure_ids(closed@) =~= closure_ids(closed_before).push(id@));
                assert(!closure_ids(closed_before).contains(id@));
                assert(closure_ids(closed@).no_duplicates()) by {
                    assert forall|a: int, b: int|
                        0 <= a < closure_ids(closed@).len() && 0 <= b < closure_ids(closed@).len()
                            && a != b implies closure_ids(closed@)[a] != closure_ids(closed@)[b] by {
                        if a == n {
                            assert(closure_ids(closed_before)[b] == closure_ids(closed@)[b]);
                        } else if b == n {
                            assert(closure_ids(closed_before)[a] == closure_ids(closed@)[a]);
                        }
                    }
                }
                assert forall|x: Seq<char>|
                    closure_ids(closed@).contains(x) <==> (old(self).has_connection(x)
                        && !self.has_connection(x)) by {
                    if closure_ids(closed@).contains(x) && x != id@ {
                        let a = choose|a: int| 0 <= a < closure_ids(closed@).len() && closure_ids(closed@)[a] == x;
                        assert(closure_ids(closed_before)[a] == x);
                    }
                    if x == id@ {
                        assert(closure_ids(closed@)[n] == x);
                    }
                    if x != id@ && old(self).has_connection(x) && !self.has_connection(x) {
                        assert(!before.has_connection(x));
                        let a = choose|a: int| 0 <= a < closure_ids(closed_before).len() && closure_ids(closed_before)[a] == x;
                        assert(closure_ids(closed@)[a] == x);
                    }
                }
                assert forall|x: Seq<char>| #![trigger self.connection(x)] self.has_connection(x) implies old(self).has_connection(x) && self.connection(x)
                    == old(self).connection(x) by {
                    assert(before.connection(x) == old(self).connection(x));
                }
                assert forall|k: int| 0 <= k < closed@.len() implies (#[trigger] closed@[k]).link_id@ == old(
                    self,
                ).connection(closed@[k].connection_id@).link_id() by {
                    if k < n {
                        assert(closed@[k] == closed_before[k]);
                    }
                }
            }
        }
        proof {
            assert forall|x: Seq<char>| !self.has_connection(x) by {
                assert(self.connection_ids().len() == 0);
            }
        }
        self.links = Vec::new();
        proof {
            assert(self.link_ids() =~= Seq::<Seq<char>>::empty());
        }
        closed
    }
}

/// At most one link is registered under any id: two entries of the registry
/// with the same id are one entry.
pub proof fn lemma_one_link_per_id(p: PluginCommsTwoSixRust, i: int, j: int)
    requires
        p.wf(),
        0 <= i < p.links().len(),
        0 <= j < p.links().len(),
        p.links()[i].id() == p.links()[j].id(),
    ensures
        i == j,
{
    assert(p.link_ids()[i] == p.links()[i].id());
    assert(p.link_ids()[j] == p.links()[j].id());
}

/// Every registered link's background task runs exactly while the link has
/// at least one receive connection.
pub proof fn lemma_task_runs_while_receiving(p: PluginCommsTwoSixRust, id: Seq<char>)
    requires
        p.wf(),
        p.has_link(id),
    ensures
        p.link(id).receivers().running() <==> p.link(id).receivers().ids().len() > 0,
{
    let k = p.link_ids().index_of(id);
    assert(p.links()[k].wf());
}

} // verus!
