//! The two channels this plugin offers, and the link properties that a new
//! link on each starts from.
use vstd::prelude::*;

use crate::race_common::{
    ChannelProperties, ConnectionType, LinkProperties, LinkPropertyPair, LinkPropertySet,
    LinkType, SendType, TransmissionType,
};

verus! {

pub const DIRECT_CHANNEL_GID: &'static str = "twoSixDirectRust";

pub const INDIRECT_CHANNEL_GID: &'static str = "twoSixIndirectRust";

/// The channels known to the plugin.
#[derive(PartialEq, Eq, Structural, Clone, Copy, Debug)]
pub enum Channel {
    /// Unicast TCP links.
    Direct,
    /// Multicast links through the whiteboard relay.
    Indirect,
}

/// The channel that a channel id names, if any.
pub open spec fn channel_of(gid: Seq<char>) -> Option<Channel> {
    if gid == DIRECT_CHANNEL_GID@ {
        Some(Channel::Direct)
    } else if gid == INDIRECT_CHANNEL_GID@ {
        Some(Channel::Indirect)
    } else {
        None
    }
}

/// The id of a channel.
pub open spec fn gid_of(c: Channel) -> Seq<char> {
    match c {
        Channel::Direct => DIRECT_CHANNEL_GID@,
        Channel::Indirect => INDIRECT_CHANNEL_GID@,
    }
}

pub fn channel_from_gid(gid: &str) -> (r: Option<Channel>)
    ensures
        r == channel_of(gid@),
{
    let g = String::from_str(gid);
    if g.eq(&String::from_str(DIRECT_CHANNEL_GID)) {
        Some(Channel::Direct)
    } else if g.eq(&String::from_str(INDIRECT_CHANNEL_GID)) {
        Some(Channel::Indirect)
    } else {
        None
    }
}

pub fn channel_gid(c: Channel) -> (r: String)
    ensures
        r@ == gid_of(c),
{
    match c {
        Channel::Direct => String::from_str(DIRECT_CHANNEL_GID),
        Channel::Indirect => String::from_str(INDIRECT_CHANNEL_GID),
    }
}

/// Best-case figures of links on a channel, in both directions.
pub open spec fn best_figures(c: Channel) -> LinkPropertySet {
    match c {
        Channel::Direct => LinkPropertySet {
            bandwidth_bps: 28270000i32,
            latency_ms: 14i32,
            loss_per_mille: -1000i32,
        },
        Channel::Indirect => LinkPropertySet {
            bandwidth_bps: 338800i32,
            latency_ms: 2610i32,
            loss_per_mille: 100i32,
        },
    }
}

/// Worst-case figures of links on a channel, in both directions.
pub open spec fn worst_figures(c: Channel) -> LinkPropertySet {
    match c {
        Channel::Direct => LinkPropertySet {
            bandwidth_bps: 23130000i32,
            latency_ms: 17i32,
            loss_per_mille: -1000i32,
        },
        Channel::Indirect => LinkPropertySet {
            bandwidth_bps: 277200i32,
            latency_ms: 3190i32,
            loss_per_mille: 100i32,
        },
    }
}

/// What a new link on channel `c` takes from the channel's properties `cp`:
/// the channel's transport tags, flags and expected figures, fixed best and
/// worst figures per channel, and the channel id.
pub open spec fn takes_channel_defaults(p: LinkProperties, cp: ChannelProperties, c: Channel) -> bool {
    &&& p.transmission_type == cp.transmission_type
    &&& p.connection_type == cp.connection_type
    &&& p.send_type == cp.send_type
    &&& p.reliable == cp.reliable
    &&& p.is_flushable == cp.is_flushable
    &&& p.duration_s == cp.duration_s
    &&& p.period_s == cp.period_s
    &&& p.mtu == cp.mtu
    &&& p.expected == cp.creator_expected
    &&& p.best == (LinkPropertyPair { send: best_figures(c), receive: best_figures(c) })
    &&& p.worst == (LinkPropertyPair { send: worst_figures(c), receive: worst_figures(c) })
    &&& p.supported_hints@ == cp.supported_hints@
    &&& p.channel_gid@ == gid_of(c)
}

/// The properties that a new link on `channel_gid` starts from (see
/// `takes_channel_defaults`), with no address. Indirect links are
/// bidirectional; the type of a direct link is left undefined here and set
/// when the link is made. An unknown channel id is an error.
pub fn get_default_link_properties_for_channel(
    channel_props: &ChannelProperties,
    channel_gid: &str,
) -> (r: Result<LinkProperties, ()>)
    ensures
        r is Err <==> channel_of(channel_gid@) is None,
        r matches Ok(p) ==> {
            let c = channel_of(channel_gid@)->0;
            &&& takes_channel_defaults(p, *channel_props, c)
            &&& p.link_type == (if c == Channel::Indirect {
                LinkType::LtBidi
            } else {
                LinkType::LtUndef
            })
            &&& p.link_address@.len() == 0
        },
{
    let channel = match channel_from_gid(channel_gid) {
        Some(c) => c,
        None => return Err(()),
    };
    let mut props = LinkProperties::unknown();
    let (best, worst) = match channel {
        Channel::Direct => (
            LinkPropertySet { bandwidth_bps: 28270000, latency_ms: 14, loss_per_mille: -1000 },
            LinkPropertySet { bandwidth_bps: 23130000, latency_ms: 17, loss_per_mille: -1000 },
        ),
        Channel::Indirect => {
            props.link_type = LinkType::LtBidi;
            (
                LinkPropertySet { bandwidth_bps: 338800, latency_ms: 2610, loss_per_mille: 100 },
                LinkPropertySet { bandwidth_bps: 277200, latency_ms: 3190, loss_per_mille: 100 },
            )
        },
    };
    props.transmission_type = channel_props.transmission_type;
    props.connection_type = channel_props.connection_type;
    props.send_type = channel_props.send_type;
    props.reliable = channel_props.reliable;
    props.is_flushable = channel_props.is_flushable;
    props.duration_s = channel_props.duration_s;
    props.period_s = channel_props.period_s;
    props.mtu = channel_props.mtu;
    props.worst = LinkPropertyPair { send: worst, receive: worst };
    props.expected = channel_props.creator_expected;
    props.best = LinkPropertyPair { send: best, receive: best };
    props.supported_hints = clone_texts(&channel_props.supported_hints);
    props.channel_gid = String::from_str(channel_gid);
    Ok(props)
}

/// A copy of a list of strings.
pub fn clone_texts(v: &Vec<String>) -> (r: Vec<String>)
    ensures
        r@ == v@,
{
    let mut out: Vec<String> = Vec::new();
    let mut i: usize = 0;
    while i < v.len()
        invariant
            i <= v@.len(),
            out@ == v@.subrange(0, i as int),
        decreases v@.len() - i,
    {
        out.push(v[i].clone());
        proof {
            assert(out@ =~= v@.subrange(0, i + 1));
        }
        i = i + 1;
    }
    proof {
        assert(out@ =~= v@);
    }
    out
}

} // verus!
