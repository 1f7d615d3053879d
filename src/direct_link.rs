//! Direct (unicast TCP) links.
use vstd::prelude::*;

use crate::link::{receives, Connection, Link, LinkAddress, LinkConfig, ReceiverSet, is_receiving_type};
use crate::race_common::{ConnectionType, LinkProperties, LinkType, SendType, TransmissionType};

verus! {

/// Address of a direct link: the node that listens, and its port.
#[derive(Clone, Debug)]
pub struct LinkProfile {
    pub hostname: String,
    pub port: u32,
}

impl LinkProfile {
    /// A field-for-field copy.
    pub fn copy(&self) -> (r: LinkProfile)
        ensures
            r == *self,
    {
        LinkProfile { hostname: self.hostname.clone(), port: self.port }
    }
}

/// A direct link. Receiving is done by a TCP listener on the profile's port,
/// which runs while the link has receive connections; sending dials the
/// profile's host and port once per package.
pub struct DirectLink {
    link_id: String,
    link_properties: LinkProperties,
    profile: LinkProfile,
    receivers: ReceiverSet,
}

impl DirectLink {
    pub closed spec fn id(&self) -> Seq<char> {
        self.link_id@
    }

    pub closed spec fn properties(&self) -> LinkProperties {
        self.link_properties
    }

    pub closed spec fn profile(&self) -> LinkProfile {
        self.profile
    }

    pub closed spec fn receivers(&self) -> ReceiverSet {
        self.receivers
    }

    /// Creates a direct link with no connections and no listener.
    pub fn new(link_id: &String, link_properties: LinkProperties, profile: LinkProfile) -> (r:
        DirectLink)
        ensures
            r.id() == link_id@,
            r.properties() == link_properties,
            r.profile() == profile,
            r.receivers().wf(),
            r.receivers().ids().len() == 0,
            !r.receivers().running(),
    {
        DirectLink {
            link_id: link_id.clone(),
            link_properties,
            profile,
            receivers: ReceiverSet::new(),
        }
    }

    pub fn set_link_address(&mut self, link_address: String)
        ensures
            final(self).id() == old(self).id(),
            final(self).profile() == old(self).profile(),
            final(self).receivers() == old(self).receivers(),
            final(self).properties().link_address == link_address,
            final(self).properties().link_type == old(self).properties().link_type,
            final(self).properties().channel_gid == old(self).properties().channel_gid,
    {
        self.link_properties.link_address = link_address;
    }

    pub fn get_link_id(&self) -> (r: &String)
        ensures
            r@ == self.id(),
    {
        &self.link_id
    }

    pub fn get_link_type(&self) -> (r: LinkType)
        ensures
            r == self.properties().link_type,
    {
        self.link_properties.link_type
    }

    pub fn get_link_properties(&self) -> (r: &LinkProperties)
        ensures
            *r == self.properties(),
    {
        &self.link_properties
    }

    pub fn get_profile(&self) -> (r: &LinkProfile)
        ensures
            *r == self.profile(),
    {
        &self.profile
    }

    pub fn receive_connection_ids(&self) -> (r: Vec<String>)
        ensures
            crate::link::texts(r@) == self.receivers().ids(),
    {
        self.receivers.to_vec()
    }

    pub fn task_running(&self) -> (r: bool)
        ensures
            r == self.receivers().running(),
    {
        self.receivers.is_running()
    }

    /// See `Link::open_connection`.
    pub fn open_connection(&mut self, link_type: LinkType, connection_id: &String) -> (r: (
        Connection,
        bool,
    ))
        requires
            old(self).receivers().wf(),
        ensures
            final(self).receivers().wf(),
            final(self).id() == old(self).id(),
            final(self).properties() == old(self).properties(),
            final(self).profile() == old(self).profile(),
            r.0.connection_id@ == connection_id@,
            r.0.link_type == link_type,
            r.0.link_id() == old(self).id(),
            receives(link_type) ==> {
                &&& forall|s: Seq<char>|
                    final(self).receivers().contains(s) <==> (old(self).receivers().contains(s)
                        || s == connection_id@)
                &&& r.1 == (old(self).receivers().ids().len() == 0)
                &&& final(self).receivers().running()
            },
            !receives(link_type) ==> final(self).receivers() == old(self).receivers() && !r.1,
    {
        let start = if is_receiving_type(link_type) {
            self.receivers.insert(connection_id)
        } else {
            false
        };
        (Connection::new(connection_id, link_type, &self.link_id), start)
    }

    /// See `Link::close_connection`.
    pub fn close_connection(&mut self, connection_id: &String) -> (stop: bool)
        requires
            old(self).receivers().wf(),
        ensures
            final(self).receivers().wf(),
            final(self).id() == old(self).id(),
            final(self).properties() == old(self).properties(),
            final(self).profile() == old(self).profile(),
            forall|s: Seq<char>|
                final(self).receivers().contains(s) <==> (old(self).receivers().contains(s) && s
                    != connection_id@),
            stop == (old(self).receivers().contains(connection_id@)
                && old(self).receivers().ids().len() == 1),
            final(self).receivers().running() == (old(self).receivers().running() && !stop),
    {
        self.receivers.remove(connection_id)
    }
}

/// Makes direct/unicast links from a link's static configuration.
pub struct DirectLinkParser {
    config: LinkConfig,
}

impl DirectLinkParser {
    pub closed spec fn config(&self) -> LinkConfig {
        self.config
    }

    pub fn new(config: LinkConfig) -> (r: DirectLinkParser)
        ensures
            r.config() == config,
    {
        DirectLinkParser { config }
    }

    /// Makes the link with the id `link_id` that the host generated, on
    /// channel `channel_gid`, with the profile read from the configuration's
    /// profile text (`None` when it could not be read). No link is made for
    /// an empty id or a missing profile. The link keeps every configured
    /// property but the transport tags and the channel id, which are the
    /// channel's.
    pub fn create_link(&self, link_id: &String, channel_gid: &str, profile: Option<LinkProfile>) -> (r:
        Option<Link>)
        ensures
            r is None <==> (link_id@.len() == 0 || profile is None),
            r matches Some(l) ==> {
                let p = l.properties();
                &&& l.id() == link_id@
                &&& l.address() == LinkAddress::Direct(profile->0)
                &&& l.wf()
                &&& l.receivers().ids().len() == 0
                &&& p.link_type == self.config().properties.link_type
                &&& p.transmission_type == TransmissionType::TtUnicast
                &&& p.connection_type == ConnectionType::CtDirect
                &&& p.send_type == SendType::StEphemSync
                &&& p.channel_gid@ == channel_gid@
                &&& p.reliable == self.config().properties.reliable
                &&& p.mtu == self.config().properties.mtu
                &&& p.expected == self.config().properties.expected
                &&& p.is_flushable == self.config().properties.is_flushable
                &&& p.duration_s == self.config().properties.duration_s
                &&& p.period_s == self.config().properties.period_s
                &&& p.worst == self.config().properties.worst
                &&& p.best == self.config().properties.best
                &&& p.supported_hints@ == self.config().properties.supported_hints@
                &&& p.link_address@ == self.config().properties.link_address@
            },
    {
        proof {
            if link_id@.len() == 0 {
                assert(link_id@ =~= Seq::<char>::empty());
            }
        }
        if link_id.eq(&String::new()) {
            return None;
        }
        let profile = match profile {
            Some(p) => p,
            None => return None,
        };
        let mut props = self.config.get_link_properties();
        props.transmission_type = TransmissionType::TtUnicast;
        props.connection_type = ConnectionType::CtDirect;
        props.send_type = SendType::StEphemSync;
        props.channel_gid = String::from_str(channel_gid);
        Some(Link::from_address(link_id, props, LinkAddress::Direct(profile)))
    }
}

} // verus!
