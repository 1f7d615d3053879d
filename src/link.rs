//! The link abstraction: a connection handle, the set of receive connections
//! whose emptiness decides whether a link's background task runs, and the
//! two link variants behind one interface.
use vstd::prelude::*;

use crate::direct_link::DirectLink;
use crate::race_common::{LinkProperties, LinkType};
use crate::whiteboard_link::WhiteboardLink;

verus! {

/// Whether a connection of this type receives data (and so needs the
/// link's background task).
pub open spec fn receives(t: LinkType) -> bool {
    t == LinkType::LtRecv || t == LinkType::LtBidi
}

/// Whether a link of this type can send.
pub open spec fn can_send(t: LinkType) -> bool {
    t == LinkType::LtSend || t == LinkType::LtBidi
}

/// Whether a link of type `link` accepts a connection request of type
/// `requested`: a bidirectional link accepts any request, any other link
/// only a request of its own type.
pub open spec fn accepts(link: LinkType, requested: LinkType) -> bool {
    link == LinkType::LtBidi || (link == LinkType::LtSend && requested == LinkType::LtSend) || (
    link == LinkType::LtRecv && requested == LinkType::LtRecv)
}

pub fn is_receiving_type(t: LinkType) -> (r: bool)
    ensures
        r == receives(t),
{
    match t {
        LinkType::LtRecv | LinkType::LtBidi => true,
        _ => false,
    }
}

pub fn is_sending_type(t: LinkType) -> (r: bool)
    ensures
        r == can_send(t),
{
    match t {
        LinkType::LtSend | LinkType::LtBidi => true,
        _ => false,
    }
}

pub fn link_accepts(link: LinkType, requested: LinkType) -> (r: bool)
    ensures
        r == accepts(link, requested),
{
    match (link, requested) {
        (LinkType::LtBidi, _) => true,
        (LinkType::LtSend, LinkType::LtSend) => true,
        (LinkType::LtRecv, LinkType::LtRecv) => true,
        _ => false,
    }
}

/// String equality, as a plain function of the two texts.
pub fn same_text(a: &String, b: &String) -> (r: bool)
    ensures
        r == (a@ == b@),
{
    a.eq(b)
}

/// The ids of a list of strings, as sequences of characters.
pub open spec fn texts(v: Seq<String>) -> Seq<Seq<char>> {
    v.map_values(|s: String| s@)
}

/// The connection ids that receive on one link, and whether the link's
/// background task (listener or poller) is running.
///
/// The task runs exactly while the set is non-empty: it is started by the
/// first receive connection and stopped by the removal of the last one.
pub struct ReceiverSet {
    ids: Vec<String>,
    running: bool,
}

impl ReceiverSet {
    pub closed spec fn ids(&self) -> Seq<Seq<char>> {
        texts(self.ids@)
    }

    pub closed spec fn running(&self) -> bool {
        self.running
    }

    pub open spec fn contains(&self, id: Seq<char>) -> bool {
        self.ids().contains(id)
    }

    pub open spec fn wf(&self) -> bool {
        &&& self.ids().no_duplicates()
        &&& (self.running() <==> self.ids().len() > 0)
    }

    pub fn new() -> (r: ReceiverSet)
        ensures
            r.wf(),
            r.ids().len() == 0,
            !r.running(),
    {
        ReceiverSet { ids: Vec::new(), running: false }
    }

    pub fn is_running(&self) -> (r: bool)
        ensures
            r == self.running(),
    {
        self.running
    }

    pub fn len(&self) -> (r: usize)
        ensures
            r == self.ids().len(),
    {
        self.ids.len()
    }

    /// Position of `id` in the set, if it is there.
    fn position(&self, id: &String) -> (r: Option<usize>)
        ensures
            match r {
                Some(i) => i < self.ids().len() && self.ids()[i as int] == id@,
                None => !self.contains(id@),
            },
    {
        let mut i: usize = 0;
        while i < self.ids.len()
            invariant
                i <= self.ids@.len(),
                forall|j: int| 0 <= j < i ==> self.ids()[j] != id@,
            decreases self.ids@.len() - i,
        {
            if same_text(&self.ids[i], id) {
                return Some(i);
            }
            i = i + 1;
        }
        None
    }

    pub fn contains_id(&self, id: &String) -> (r: bool)
        ensures
            r == self.contains(id@),
    {
        self.position(id).is_some()
    }

    /// The receive connection ids, in the order they joined.
    pub fn to_vec(&self) -> (r: Vec<String>)
        ensures
            texts(r@) == self.ids(),
    {
        let v = crate::channels::clone_texts(&self.ids);
        proof {
            assert(texts(v@) =~= self.ids());
        }
        v
    }

    /// Adds a receive connection. Returns whether the background task must be
    /// started now, which is so exactly when the set was empty.
    pub fn insert(&mut self, id: &String) -> (start: bool)
        requires
            old(self).wf(),
        ensures
            final(self).wf(),
            forall|s: Seq<char>| final(self).contains(s) <==> (old(self).contains(s) || s == id@),
            start == (old(self).ids().len() == 0),
            final(self).running(),
            final(self).ids().len() == old(self).ids().len() + (if old(self).contains(id@) {
                0int
            } else {
                1int
            }),
    {
        let start = !self.running;
        if self.position(id).is_none() {
            self.ids.push(id.clone());
            proof {
                assert(self.ids() =~= old(self).ids().push(id@));
                assert forall|s: Seq<char>| self.contains(s) <==> (old(self).contains(s) || s
                    == id@) by {
                    if s == id@ {
                        assert(self.ids()[self.ids().len() - 1] == s);
                    }
                    if old(self).contains(s) {
                        let j = choose|j: int| 0 <= j < old(self).ids().len() && old(self).ids()[j] == s;
                        assert(self.ids()[j] == s);
                    }
                }
            }
        }
        self.running = true;
        start
    }

    /// Removes a connection id. Returns whether the background task must be
    /// stopped now, which is so exactly when the id was in the set and was
    /// its last member. Removing an absent id changes nothing.
    pub fn remove(&mut self, id: &String) -> (stop: bool)
        requires
            old(self).wf(),
        ensures
            final(self).wf(),
            forall|s: Seq<char>| final(self).contains(s) <==> (old(self).contains(s) && s != id@),
            stop == (old(self).contains(id@) && old(self).ids().len() == 1),
            final(self).ids().len() == old(self).ids().len() - (if old(self).contains(id@) {
                1int
            } else {
                0int
            }),
    {
        match self.position(id) {
            Some(i) => {
                let ghost before = self.ids();
                self.ids.remove(i);
                proof {
                    assert(self.ids() =~= before.remove(i as int));
                    assert forall|s: Seq<char>| self.contains(s) <==> (old(self).contains(s) && s
                        != id@) by {
                        if self.contains(s) {
                            let j = choose|j: int| 0 <= j < self.ids().len() && self.ids()[j] == s;
                            if j < i {
                                assert(before[j] == s);
                            } else {
                                assert(before[j + 1] == s);
                            }
                        }
                        if old(self).contains(s) && s != id@ {
                            let j = choose|j: int| 0 <= j < before.len() && before[j] == s;
                            if j < i {
                                assert(self.ids()[j] == s);
                            } else {
                                assert(self.ids()[j - 1] == s);
                            }
                        }
                    }
                }
                let stop = self.ids.len() == 0;
                if stop {
                    self.running = false;
                }
                stop
            },
            None => false,
        }
    }
}

/// One logical, directional stream bound to exactly one link. The link is
/// named by its id and resolved through the plugin's link registry.
#[derive(Clone, Debug)]
pub struct Connection {
    pub link_id: String,
    pub connection_id: String,
    pub link_type: LinkType,
}

impl Connection {
    pub open spec fn link_id(&self) -> Seq<char> {
        self.link_id@
    }

    /// Creates a connection with the given id and type on the named link.
    pub fn new(connection_id: &String, link_type: LinkType, link_id: &String) -> (r: Connection)
        ensures
            r.connection_id@ == connection_id@,
            r.link_type == link_type,
            r.link_id() == link_id@,
    {
        Connection {
            link_id: link_id.clone(),
            connection_id: connection_id.clone(),
            link_type,
        }
    }

    /// The id of the link that this connection belongs to.
    pub fn get_link(&self) -> (r: &String)
        ensures
            r@ == self.link_id(),
    {
        &self.link_id
    }
}

/// Static configuration of one link: the personas that use it, those it
/// reaches, its profile text, and its properties.
pub struct LinkConfig {
    pub utilized_by: Vec<String>,
    pub connected_to: Vec<String>,
    pub profile: String,
    pub properties: LinkProperties,
}

impl LinkConfig {
    /// The personas to which this link allows communication.
    pub fn get_connected_to(&self) -> (r: Vec<String>)
        ensures
            r@ == self.connected_to@,
    {
        crate::channels::clone_texts(&self.connected_to)
    }

    /// A copy of the link properties given in the configuration: every field
    /// equal, the hint list equal as text.
    pub fn get_link_properties(&self) -> (r: LinkProperties)
        ensures
            r.link_type == self.properties.link_type,
            r.reliable == self.properties.reliable,
            r.is_flushable == self.properties.is_flushable,
            r.duration_s == self.properties.duration_s,
            r.period_s == self.properties.period_s,
            r.mtu == self.properties.mtu,
            r.worst == self.properties.worst,
            r.best == self.properties.best,
            r.expected == self.properties.expected,
            r.supported_hints@ == self.properties.supported_hints@,
            r.transmission_type == self.properties.transmission_type,
            r.connection_type == self.properties.connection_type,
            r.send_type == self.properties.send_type,
            r.channel_gid == self.properties.channel_gid,
            r.link_address == self.properties.link_address,
    {
        self.properties.copy()
    }
}

/// Where a link's traffic goes: the profile of a direct or of a whiteboard
/// link. Its JSON text is the link's address.
pub enum LinkAddress {
    Direct(crate::direct_link::LinkProfile),
    Whiteboard(crate::whiteboard_link::LinkProfile),
}

/// A registered link of either kind.
pub enum Link {
    Direct(DirectLink),
    Whiteboard(WhiteboardLink),
}

impl Link {
    pub open spec fn id(&self) -> Seq<char> {
        match self {
            Link::Direct(l) => l.id(),
            Link::Whiteboard(l) => l.id(),
        }
    }

    pub open spec fn properties(&self) -> LinkProperties {
        match self {
            Link::Direct(l) => l.properties(),
            Link::Whiteboard(l) => l.properties(),
        }
    }

    pub open spec fn link_type(&self) -> LinkType {
        self.properties().link_type
    }

    pub open spec fn receivers(&self) -> ReceiverSet {
        match self {
            Link::Direct(l) => l.receivers(),
            Link::Whiteboard(l) => l.receivers(),
        }
    }

    pub open spec fn wf(&self) -> bool {
        self.receivers().wf()
    }

    pub open spec fn address(&self) -> LinkAddress {
        match self {
            Link::Direct(l) => LinkAddress::Direct(l.profile()),
            Link::Whiteboard(l) => LinkAddress::Whiteboard(l.profile()),
        }
    }

    /// A new link of the kind that `address` names, with no connections and
    /// no background task.
    pub fn from_address(link_id: &String, link_properties: LinkProperties, address: LinkAddress) -> (r:
        Link)
        ensures
            r.id() == link_id@,
            r.properties() == link_properties,
            r.address() == address,
            r.wf(),
            r.receivers().ids().len() == 0,
            !r.receivers().running(),
    {
        match address {
            LinkAddress::Direct(p) => Link::Direct(DirectLink::new(link_id, link_properties, p)),
            LinkAddress::Whiteboard(p) => Link::Whiteboard(
                WhiteboardLink::new(link_id, link_properties, p),
            ),
        }
    }

    /// Sets the address text in the link's properties.
    pub fn set_link_address(&mut self, link_address: String)
        ensures
            final(self).id() == old(self).id(),
            final(self).address() == old(self).address(),
            final(self).receivers() == old(self).receivers(),
            final(self).properties().link_address == link_address,
            final(self).properties().link_type == old(self).properties().link_type,
            final(self).properties().channel_gid == old(self).properties().channel_gid,
    {
        match self {
            Link::Direct(l) => l.set_link_address(link_address),
            Link::Whiteboard(l) => l.set_link_address(link_address),
        }
    }

    pub fn get_link_id(&self) -> (r: &String)
        ensures
            r@ == self.id(),
    {
        match self {
            Link::Direct(l) => l.get_link_id(),
            Link::Whiteboard(l) => l.get_link_id(),
        }
    }

    pub fn get_link_type(&self) -> (r: LinkType)
        ensures
            r == self.link_type(),
    {
        match self {
            Link::Direct(l) => l.get_link_type(),
            Link::Whiteboard(l) => l.get_link_type(),
        }
    }

    pub fn get_link_properties(&self) -> (r: &LinkProperties)
        ensures
            *r == self.properties(),
    {
        match self {
            Link::Direct(l) => l.get_link_properties(),
            Link::Whiteboard(l) => l.get_link_properties(),
        }
    }

    /// The ids of the connections that receive on this link: each inbound
    /// message goes to all of them.
    pub fn receive_connection_ids(&self) -> (r: Vec<String>)
        ensures
            texts(r@) == self.receivers().ids(),
    {
        match self {
            Link::Direct(l) => l.receive_connection_ids(),
            Link::Whiteboard(l) => l.receive_connection_ids(),
        }
    }

    /// Whether the background task of this link is running.
    pub fn task_running(&self) -> (r: bool)
        ensures
            r == self.receivers().running(),
    {
        match self {
            Link::Direct(l) => l.task_running(),
            Link::Whiteboard(l) => l.task_running(),
        }
    }

    /// Opens a connection of type `link_type` on this link. A receiving
    /// connection joins the receive set; the returned flag says whether the
    /// background task must be started now (first receiver). Sending
    /// connections start nothing.
    pub fn open_connection(&mut self, link_type: LinkType, connection_id: &String) -> (r: (
        Connection,
        bool,
    ))
        requires
            old(self).wf(),
        ensures
            final(self).wf(),
            final(self).id() == old(self).id(),
            final(self).properties() == old(self).properties(),
            final(self).address() == old(self).address(),
            r.0.connection_id@ == connection_id@,
            r.0.link_type == link_type,
            r.0.link_id() == old(self).id(),
            receives(link_type) ==> {
                &&& forall|s: Seq<char>|
                    final(self).receivers().contains(s) <==> (old(self).receivers().contains(s)
                        || s == connection_id@)
                &&& r.1 == (old(self).receivers().ids().len() == 0)
                &&& final(self).receivers().running()
            },
            !receives(link_type) ==> final(self).receivers() == old(self).receivers() && !r.1,
    {
        match self {
            Link::Direct(l) => l.open_connection(link_type, connection_id),
            Link::Whiteboard(l) => l.open_connection(link_type, connection_id),
        }
    }

    /// Closes a connection on this link. The returned flag says whether the
    /// background task must be stopped now (the last receiver left).
    pub fn close_connection(&mut self, connection_id: &String) -> (stop: bool)
        requires
            old(self).wf(),
        ensures
            final(self).wf(),
            final(self).id() == old(self).id(),
            final(self).properties() == old(self).properties(),
            final(self).address() == old(self).address(),
            forall|s: Seq<char>|
                final(self).receivers().contains(s) <==> (old(self).receivers().contains(s) && s
                    != connection_id@),
            stop == (old(self).receivers().contains(connection_id@)
                && old(self).receivers().ids().len() == 1),
            final(self).receivers().running() == (old(self).receivers().running() && !stop),
    {
        match self {
            Link::Direct(l) => l.close_connection(connection_id),
            Link::Whiteboard(l) => l.close_connection(connection_id),
        }
    }
}

} // verus!
