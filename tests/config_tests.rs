use plugin_comms_twosix_rust::config_loader::ConfigLoader;
use plugin_comms_twosix_rust::link::LinkConfig;
use plugin_comms_twosix_rust::link_profile_parser::{
    default_multicast, parse, LinkProfileParser, ParseError, ProfileHeader,
};
use plugin_comms_twosix_rust::race_common::{
    ConnectionType, LinkProperties, LinkType, PluginConfig, SendType, TransmissionType,
};
use plugin_comms_twosix_rust::text::{decimal_text, parse_u32};
use plugin_comms_twosix_rust::{direct_link, whiteboard_link};

fn config(users: &[&str]) -> LinkConfig {
    let mut properties = LinkProperties::unknown();
    properties.link_type = LinkType::LtBidi;
    properties.mtu = 900;
    LinkConfig {
        utilized_by: users.iter().map(|s| s.to_string()).collect(),
        connected_to: vec!["bob".to_string()],
        profile: "{}".to_string(),
        properties,
    }
}

fn header(multicast: bool, service: &str) -> Option<ProfileHeader> {
    Some(ProfileHeader { multicast, service_name: service.to_string() })
}

#[test]
fn multicast_defaults_to_false() {
    assert!(!default_multicast());
}

#[test]
fn parse_requires_the_active_persona() {
    let r = parse(config(&["carol"]), header(false, ""), &"alice".to_string(), true);
    assert_eq!(r.err(), Some(ParseError::NotUtilized));
}

#[test]
fn parse_unicast_is_direct_only() {
    let alice = "alice".to_string();
    assert!(matches!(
        parse(config(&["bob", "alice"]), header(false, ""), &alice, true),
        Ok(LinkProfileParser::Direct(_))
    ));
    assert_eq!(
        parse(config(&["alice"]), header(false, ""), &alice, false).err(),
        Some(ParseError::IncorrectChannelType)
    );
}

#[test]
fn parse_whiteboard_is_indirect_only() {
    let alice = "alice".to_string();
    assert!(matches!(
        parse(config(&["alice"]), header(true, "twosix-whiteboard"), &alice, false),
        Ok(LinkProfileParser::Whiteboard(_))
    ));
    assert_eq!(
        parse(config(&["alice"]), header(true, "twosix-whiteboard"), &alice, true).err(),
        Some(ParseError::IncorrectChannelType)
    );
}

#[test]
fn parse_other_service_and_bad_profile() {
    let alice = "alice".to_string();
    assert_eq!(
        parse(config(&["alice"]), header(true, "elsewhere"), &alice, false).err(),
        Some(ParseError::NotRecognized)
    );
    assert_eq!(
        parse(config(&["alice"]), None, &alice, false).err(),
        Some(ParseError::JsonError)
    );
}

#[test]
fn direct_parser_makes_unicast_links() {
    let alice = "alice".to_string();
    let parser = match parse(config(&["alice"]), header(false, ""), &alice, true) {
        Ok(LinkProfileParser::Direct(p)) => p,
        _ => panic!("expected a direct link parser"),
    };
    let profile = direct_link::LinkProfile { hostname: "h".to_string(), port: 4 };
    assert!(parser.create_link(&String::new(), "twoSixDirectRust", Some(profile.clone())).is_none());
    assert!(parser.create_link(&"L".to_string(), "twoSixDirectRust", None).is_none());
    let link = parser.create_link(&"L".to_string(), "twoSixDirectRust", Some(profile)).unwrap();
    let props = link.get_link_properties();
    assert_eq!(props.transmission_type, TransmissionType::TtUnicast);
    assert_eq!(props.connection_type, ConnectionType::CtDirect);
    assert_eq!(props.send_type, SendType::StEphemSync);
    assert_eq!(props.link_type, LinkType::LtBidi);
    assert_eq!(props.mtu, 900);
    assert_eq!(props.duration_s, -1);
    assert_eq!(props.best.send.bandwidth_bps, -1);
    assert!(props.supported_hints.is_empty());
    assert_eq!(props.channel_gid, "twoSixDirectRust");
}

#[test]
fn whiteboard_parser_makes_multicast_links() {
    let parser = whiteboard_link::WhiteboardLinkParser::new(config(&["alice"]));
    let profile = whiteboard_link::LinkProfile {
        hostname: "h".to_string(),
        port: 4,
        hashtag: "t".to_string(),
        check_frequency_ms: 1000,
    };
    let link = parser.create_link(&"W".to_string(), "twoSixIndirectRust", Some(profile)).unwrap();
    let props = link.get_link_properties();
    assert_eq!(props.transmission_type, TransmissionType::TtMulticast);
    assert_eq!(props.connection_type, ConnectionType::CtIndirect);
    assert_eq!(props.send_type, SendType::StStoredAsync);
}

#[test]
fn link_config_lists_its_peers() {
    assert_eq!(config(&["alice"]).get_connected_to(), vec!["bob".to_string()]);
    assert_eq!(config(&["alice"]).get_link_properties().mtu, 900);
}

#[test]
fn config_link_type_names() {
    assert_eq!(ConfigLoader::parse_link_type("send"), LinkType::LtSend);
    assert_eq!(ConfigLoader::parse_link_type("receive"), LinkType::LtRecv);
    assert_eq!(ConfigLoader::parse_link_type("bidirectional"), LinkType::LtBidi);
    assert_eq!(ConfigLoader::parse_link_type("other"), LinkType::LtUndef);
}

#[test]
fn config_integer_and_flag_fields() {
    assert_eq!(ConfigLoader::int_or(Some(42), -1), 42);
    assert_eq!(ConfigLoader::int_or(Some(1i64 << 40), -1), -1);
    assert_eq!(ConfigLoader::int_or(None, -1), -1);
    assert!(ConfigLoader::bool_or(Some(true), false));
    assert!(!ConfigLoader::bool_or(None, false));
}

#[test]
fn plugin_config_keeps_directories() {
    let c = PluginConfig::new("/etc", "/log", "/aux", "/tmp", "/plugin");
    assert_eq!(c.etc_directory, "/etc");
    assert_eq!(c.logging_directory, "/log");
    assert_eq!(c.aux_data_directory, "/aux");
    assert_eq!(c.tmp_directory, "/tmp");
    assert_eq!(c.plugin_directory, "/plugin");
}

#[test]
fn decimal_text_and_parse() {
    assert_eq!(decimal_text(0), "0");
    assert_eq!(decimal_text(4294967295), "4294967295");
    assert_eq!(decimal_text(1030), "1030");
    assert_eq!(parse_u32("20000"), Some(20000));
    assert_eq!(parse_u32("+7"), Some(7));
    assert_eq!(parse_u32("4294967295"), Some(u32::MAX));
    assert_eq!(parse_u32("4294967296"), None);
    assert_eq!(parse_u32("-1"), None);
    assert_eq!(parse_u32("+"), None);
    assert_eq!(parse_u32(""), None);
    assert_eq!(parse_u32("12a"), None);
    assert_eq!(parse_u32("007"), Some(7));
}
