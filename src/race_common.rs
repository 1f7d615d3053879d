//! Plain data types shared between the plugin and its host: link, channel,
//! connection and package vocabularies, and the property records that
//! describe a link or a channel.
use vstd::prelude::*;

verus! {

/// Direction(s) in which a link or a connection carries data.
#[derive(PartialEq, Eq, Structural, Clone, Copy, Debug)]
pub enum LinkType {
    LtUndef,
    LtSend,
    LtRecv,
    LtBidi,
}

#[derive(PartialEq, Eq, Structural, Clone, Copy, Debug)]
pub enum TransmissionType {
    TtUndef,
    TtUnicast,
    TtMulticast,
}

#[derive(PartialEq, Eq, Structural, Clone, Copy, Debug)]
pub enum ConnectionType {
    CtUndef,
    CtDirect,
    CtIndirect,
}

#[derive(PartialEq, Eq, Structural, Clone, Copy, Debug)]
pub enum SendType {
    StUndef,
    StStoredAsync,
    StEphemSync,
}

#[derive(PartialEq, Eq, Structural, Clone, Copy, Debug)]
pub enum LinkDirection {
    LdUndef,
    LdCreatorToLoader,
    LdLoaderToCreator,
    LdBidi,
}

#[derive(PartialEq, Eq, Structural, Clone, Copy, Debug)]
pub enum LinkSide {
    LsUndef,
    LsCreator,
    LsLoader,
    LsBoth,
}

#[derive(PartialEq, Eq, Structural, Clone, Copy, Debug)]
pub enum ChannelStatus {
    ChannelUndef,
    ChannelAvailable,
    ChannelUnavailable,
    ChannelEnabled,
    ChannelDisabled,
    ChannelStarting,
    ChannelFailed,
    ChannelUnsupported,
}

#[derive(PartialEq, Eq, Structural, Clone, Copy, Debug)]
pub enum ConnectionStatus {
    ConnectionUndef,
    ConnectionOpen,
    ConnectionClosed,
    ConnectionAwaitingContact,
    ConnectionInitFailed,
    ConnectionAvailable,
    ConnectionUnavailable,
}

#[derive(PartialEq, Eq, Structural, Clone, Copy, Debug)]
pub enum LinkStatus {
    LinkUndef,
    LinkCreated,
    LinkLoaded,
    LinkDestroyed,
}

#[derive(PartialEq, Eq, Structural, Clone, Copy, Debug)]
pub enum PackageStatus {
    PackageInvalid,
    PackageSent,
    PackageReceived,
    PackageFailedGeneric,
    PackageFailedNetworkError,
    PackageFailedTimeout,
}

#[derive(PartialEq, Eq, Structural, Clone, Copy, Debug)]
pub enum PluginResponse {
    PluginUndef,
    PluginOk,
    PluginTempError,
    PluginError,
    PluginFatal,
}

#[derive(PartialEq, Eq, Structural, Clone, Copy, Debug)]
pub enum UserDisplayType {
    UdDialog,
    UdQrCode,
    UdToast,
    UdNotification,
    UdUndef,
}

#[derive(PartialEq, Eq, Structural, Clone, Copy, Debug)]
pub enum BootstrapActionType {
    BsDownloadBundle,
    BsNetworkConnect,
    BsComplete,
    BsUndef,
}

#[derive(PartialEq, Eq, Structural, Clone, Copy, Debug)]
pub enum SdkStatus {
    SdkUndef,
    SdkOk,
    SdkShuttingDown,
    SdkPluginMissing,
    SdkInvalidArgument,
    SdkQueueFull,
}

#[derive(PartialEq, Eq, Structural, Clone, Copy, Debug)]
pub enum LogLevel {
    LlDebug,
    LlInfo,
    LlWarning,
    LlError,
}

/// Handle value meaning "no handle".
pub const NULL_RACE_HANDLE: u64 = 0;

/// A role that a node may take on a channel.
#[derive(Clone, Debug)]
pub struct ChannelRole {
    pub role_name: String,
    pub mechanical_tags: Vec<String>,
    pub behavioral_tags: Vec<String>,
    pub link_side: LinkSide,
}

/// Directories handed to the plugin at start-up.
#[derive(Clone, Debug)]
pub struct PluginConfig {
    pub etc_directory: String,
    pub logging_directory: String,
    pub aux_data_directory: String,
    pub tmp_directory: String,
    pub plugin_directory: String,
}

impl PluginConfig {
    pub fn new(
        etc_directory: &str,
        logging_directory: &str,
        aux_data_directory: &str,
        tmp_directory: &str,
        plugin_directory: &str,
    ) -> (r: PluginConfig)
        ensures
            r.etc_directory@ == etc_directory@,
            r.logging_directory@ == logging_directory@,
            r.aux_data_directory@ == aux_data_directory@,
            r.tmp_directory@ == tmp_directory@,
            r.plugin_directory@ == plugin_directory@,
    {
        PluginConfig {
            etc_directory: String::from_str(etc_directory),
            logging_directory: String::from_str(logging_directory),
            aux_data_directory: String::from_str(aux_data_directory),
            tmp_directory: String::from_str(tmp_directory),
            plugin_directory: String::from_str(plugin_directory),
        }
    }
}

/// Bandwidth, latency and loss of one direction of a link.
///
/// Loss is held in thousandths (`-1000` stands for "unknown", `100` for 0.1).
#[derive(Clone, Copy, Debug, PartialEq, Eq, Structural)]
pub struct LinkPropertySet {
    pub bandwidth_bps: i32,
    pub latency_ms: i32,
    pub loss_per_mille: i32,
}

pub open spec fn unknown_property_set() -> LinkPropertySet {
    LinkPropertySet { bandwidth_bps: -1i32, latency_ms: -1i32, loss_per_mille: -1000i32 }
}

impl LinkPropertySet {
    /// The set in which every figure is unknown.
    pub fn unknown() -> (r: LinkPropertySet)
        ensures
            r == unknown_property_set(),
    {
        LinkPropertySet { bandwidth_bps: -1, latency_ms: -1, loss_per_mille: -1000 }
    }
}

#[derive(Clone, Copy, Debug, PartialEq, Eq, Structural)]
pub struct LinkPropertyPair {
    pub send: LinkPropertySet,
    pub receive: LinkPropertySet,
}

pub open spec fn unknown_property_pair() -> LinkPropertyPair {
    LinkPropertyPair { send: unknown_property_set(), receive: unknown_property_set() }
}

impl LinkPropertyPair {
    pub fn unknown() -> (r: LinkPropertyPair)
        ensures
            r == unknown_property_pair(),
    {
        LinkPropertyPair { send: LinkPropertySet::unknown(), receive: LinkPropertySet::unknown() }
    }
}

/// Transport metadata of one link.
#[derive(Clone, Debug)]
pub struct LinkProperties {
    pub link_type: LinkType,
    pub transmission_type: TransmissionType,
    pub connection_type: ConnectionType,
    pub send_type: SendType,
    pub reliable: bool,
    pub is_flushable: bool,
    pub duration_s: i32,
    pub period_s: i32,
    pub mtu: i32,
    pub worst: LinkPropertyPair,
    pub best: LinkPropertyPair,
    pub expected: LinkPropertyPair,
    pub supported_hints: Vec<String>,
    pub channel_gid: String,
    pub link_address: String,
}

impl LinkProperties {
    pub fn new(
        link_type: LinkType,
        transmission_type: TransmissionType,
        connection_type: ConnectionType,
        send_type: SendType,
        reliable: bool,
        is_flushable: bool,
        duration_s: i32,
        period_s: i32,
        mtu: i32,
        worst: LinkPropertyPair,
        best: LinkPropertyPair,
        expected: LinkPropertyPair,
        supported_hints: Vec<String>,
        channel_gid: String,
        link_address: String,
    ) -> (r: LinkProperties)
        ensures
            r.link_type == link_type,
            r.transmission_type == transmission_type,
            r.connection_type == connection_type,
            r.send_type == send_type,
            r.reliable == reliable,
            r.is_flushable == is_flushable,
            r.duration_s == duration_s,
            r.period_s == period_s,
            r.mtu == mtu,
            r.worst == worst,
            r.best == best,
            r.expected == expected,
            r.supported_hints == supported_hints,
            r.channel_gid == channel_gid,
            r.link_address == link_address,
    {
        LinkProperties {
            link_type,
            transmission_type,
            connection_type,
            send_type,
            reliable,
            is_flushable,
            duration_s,
            period_s,
            mtu,
            worst,
            best,
            expected,
            supported_hints,
            channel_gid,
            link_address,
        }
    }

    /// A copy: equal fields, and equal texts where the field holds text.
    pub fn copy(&self) -> (r: LinkProperties)
        ensures
            r.link_type == self.link_type,
            r.transmission_type == self.transmission_type,
            r.connection_type == self.connection_type,
            r.send_type == self.send_type,
            r.reliable == self.reliable,
            r.is_flushable == self.is_flushable,
            r.duration_s == self.duration_s,
            r.period_s == self.period_s,
            r.mtu == self.mtu,
            r.worst == self.worst,
            r.best == self.best,
            r.expected == self.expected,
            r.supported_hints@ == self.supported_hints@,
            r.channel_gid == self.channel_gid,
            r.link_address == self.link_address,
    {
        let mut hints: Vec<String> = Vec::new();
        let mut i: usize = 0;
        while i < self.supported_hints.len()
            invariant
                i <= self.supported_hints@.len(),
                hints@ == self.supported_hints@.subrange(0, i as int),
            decreases self.supported_hints@.len() - i,
        {
            hints.push(self.supported_hints[i].clone());
            proof {
                assert(hints@ =~= self.supported_hints@.subrange(0, i + 1));
            }
            i = i + 1;
        }
        proof {
            assert(hints@ =~= self.supported_hints@);
        }
        LinkProperties {
            link_type: self.link_type,
            transmission_type: self.transmission_type,
            connection_type: self.connection_type,
            send_type: self.send_type,
            reliable: self.reliable,
            is_flushable: self.is_flushable,
            duration_s: self.duration_s,
            period_s: self.period_s,
            mtu: self.mtu,
            worst: self.worst,
            best: self.best,
            expected: self.expected,
            supported_hints: hints,
            channel_gid: self.channel_gid.clone(),
            link_address: self.link_address.clone(),
        }
    }

    /// Properties of a link about which nothing is known yet.
    pub fn unknown() -> (r: LinkProperties)
        ensures
            r.link_type == LinkType::LtUndef,
            r.transmission_type == TransmissionType::TtUndef,
            r.connection_type == ConnectionType::CtUndef,
            r.send_type == SendType::StUndef,
            !r.reliable,
            !r.is_flushable,
            r.duration_s == -1,
            r.period_s == -1,
            r.mtu == -1,
            r.worst == unknown_property_pair(),
            r.best == unknown_property_pair(),
            r.expected == unknown_property_pair(),
            r.supported_hints@.len() == 0,
            r.channel_gid@.len() == 0,
            r.link_address@.len() == 0,
    {
        LinkProperties {
            link_type: LinkType::LtUndef,
            transmission_type: TransmissionType::TtUndef,
            connection_type: ConnectionType::CtUndef,
            send_type: SendType::StUndef,
            reliable: false,
            is_flushable: false,
            duration_s: -1,
            period_s: -1,
            mtu: -1,
            worst: LinkPropertyPair::unknown(),
            best: LinkPropertyPair::unknown(),
            expected: LinkPropertyPair::unknown(),
            supported_hints: Vec::new(),
            channel_gid: String::new(),
            link_address: String::new(),
        }
    }
}

/// Static description of a channel, as the host reports it.
#[derive(Clone, Debug)]
pub struct ChannelProperties {
    pub channel_status: ChannelStatus,
    pub link_direction: LinkDirection,
    pub transmission_type: TransmissionType,
    pub connection_type: ConnectionType,
    pub send_type: SendType,
    pub multi_addressable: bool,
    pub reliable: bool,
    pub bootstrap: bool,
    pub is_flushable: bool,
    pub duration_s: i32,
    pub period_s: i32,
    pub mtu: i32,
    pub creator_expected: LinkPropertyPair,
    pub loader_expected: LinkPropertyPair,
    pub supported_hints: Vec<String>,
    pub max_links: i32,
    pub creators_per_loader: i32,
    pub loaders_per_creator: i32,
    pub roles: Vec<ChannelRole>,
    pub current_role: ChannelRole,
    pub max_sends_per_interval: i32,
    pub seconds_per_interval: i32,
    pub interval_end_time: u64,
    pub sends_remaining_in_interval: i32,
    pub channel_gid: String,
}

} // verus!
