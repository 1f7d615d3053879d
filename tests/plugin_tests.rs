use plugin_comms_twosix_rust::channels::{
    get_default_link_properties_for_channel, DIRECT_CHANNEL_GID, INDIRECT_CHANNEL_GID,
};
use plugin_comms_twosix_rust::direct_link;
use plugin_comms_twosix_rust::link::{Link, LinkAddress};
use plugin_comms_twosix_rust::plugin::{
    package_status_after_send, send_response, Activation, CreateLinkError, InputOutcome, OpenOutcome,
    PluginCommsTwoSixRust, SendPlan, SendRefusal,
};
use plugin_comms_twosix_rust::race_common::{
    ChannelProperties, ChannelRole, ChannelStatus, ConnectionType, LinkDirection,
    LinkPropertyPair, LinkPropertySet, LinkSide, LinkType, PackageStatus, PluginResponse,
    SendType, TransmissionType,
};
use plugin_comms_twosix_rust::whiteboard_link;

fn channel_props() -> ChannelProperties {
    let expected = LinkPropertySet { bandwidth_bps: 1000, latency_ms: 20, loss_per_mille: 5 };
    ChannelProperties {
        channel_status: ChannelStatus::ChannelAvailable,
        link_direction: LinkDirection::LdBidi,
        transmission_type: TransmissionType::TtUnicast,
        connection_type: ConnectionType::CtDirect,
        send_type: SendType::StEphemSync,
        multi_addressable: false,
        reliable: true,
        bootstrap: false,
        is_flushable: false,
        duration_s: 7,
        period_s: 8,
        mtu: 1500,
        creator_expected: LinkPropertyPair { send: expected, receive: expected },
        loader_expected: LinkPropertyPair::unknown(),
        supported_hints: vec!["hint".to_string()],
        max_links: 10,
        creators_per_loader: 1,
        loaders_per_creator: 1,
        roles: vec![],
        current_role: ChannelRole {
            role_name: String::new(),
            mechanical_tags: vec![],
            behavioral_tags: vec![],
            link_side: LinkSide::LsBoth,
        },
        max_sends_per_interval: -1,
        seconds_per_interval: -1,
        interval_end_time: 0,
        sends_remaining_in_interval: -1,
        channel_gid: String::new(),
    }
}

fn plugin_with_persona(persona: &str) -> PluginCommsTwoSixRust {
    let mut p = PluginCommsTwoSixRust::new();
    assert_eq!(p.init(&persona.to_string()), PluginResponse::PluginOk);
    p
}

/// A plugin whose direct channel went through both prompts.
fn plugin_with_direct_channel(hostname: &str, start_port: &str) -> PluginCommsTwoSixRust {
    let mut p = plugin_with_persona("alice");
    assert_eq!(p.activate_channel(DIRECT_CHANNEL_GID), Activation::RequestHostname);
    assert!(p.hostname_requested(Some(7)));
    p.start_port_requested(Some(8));
    assert_eq!(p.on_user_input_received(7, true, hostname), InputOutcome::StillPending);
    assert_eq!(p.on_user_input_received(8, true, start_port), InputOutcome::DirectAvailable);
    p
}

fn id(s: &str) -> String {
    s.to_string()
}

#[test]
fn lib_it_works() {
    assert_eq!(2 + 2, 4);
}

#[test]
fn new_plugin_has_both_channels_unavailable() {
    let p = PluginCommsTwoSixRust::new();
    assert_eq!(p.channel_status(DIRECT_CHANNEL_GID), Some(ChannelStatus::ChannelUnavailable));
    assert_eq!(p.channel_status(INDIRECT_CHANNEL_GID), Some(ChannelStatus::ChannelUnavailable));
    assert_eq!(p.channel_status("other"), None);
}

#[test]
fn indirect_channel_becomes_available_without_prompts() {
    let mut p = plugin_with_persona("alice");
    assert_eq!(p.activate_channel(INDIRECT_CHANNEL_GID), Activation::IndirectAvailable);
    assert_eq!(p.channel_status(INDIRECT_CHANNEL_GID), Some(ChannelStatus::ChannelAvailable));
    assert_eq!(p.channel_status(DIRECT_CHANNEL_GID), Some(ChannelStatus::ChannelUnavailable));
}

#[test]
fn unknown_channel_is_not_activated() {
    let mut p = plugin_with_persona("alice");
    assert_eq!(p.activate_channel("nope"), Activation::UnknownChannel);
    assert!(p.deactivate_channel("nope").is_none());
}

#[test]
fn direct_channel_needs_both_answers_hostname_first() {
    let mut p = plugin_with_persona("alice");
    assert_eq!(p.activate_channel(DIRECT_CHANNEL_GID), Activation::RequestHostname);
    assert_eq!(p.channel_status(DIRECT_CHANNEL_GID), Some(ChannelStatus::ChannelStarting));
    assert!(p.hostname_requested(Some(41)));
    p.start_port_requested(Some(42));
    assert_eq!(p.on_user_input_received(41, true, "node-a"), InputOutcome::StillPending);
    assert_eq!(p.channel_status(DIRECT_CHANNEL_GID), Some(ChannelStatus::ChannelStarting));
    assert_eq!(p.on_user_input_received(42, true, "30000"), InputOutcome::DirectAvailable);
    assert_eq!(p.channel_status(DIRECT_CHANNEL_GID), Some(ChannelStatus::ChannelAvailable));
}

#[test]
fn direct_channel_needs_both_answers_port_first() {
    let mut p = plugin_with_persona("alice");
    p.activate_channel(DIRECT_CHANNEL_GID);
    assert!(p.hostname_requested(Some(41)));
    p.start_port_requested(Some(42));
    assert_eq!(p.on_user_input_received(42, false, ""), InputOutcome::StillPending);
    assert_eq!(p.channel_status(DIRECT_CHANNEL_GID), Some(ChannelStatus::ChannelStarting));
    assert_eq!(p.on_user_input_received(41, true, "node-a"), InputOutcome::DirectAvailable);
    assert_eq!(p.channel_status(DIRECT_CHANNEL_GID), Some(ChannelStatus::ChannelAvailable));
}

#[test]
fn declined_hostname_disables_direct_channel() {
    let mut p = plugin_with_persona("alice");
    p.activate_channel(DIRECT_CHANNEL_GID);
    assert!(p.hostname_requested(Some(1)));
    p.start_port_requested(Some(2));
    assert_eq!(p.on_user_input_received(1, false, ""), InputOutcome::DirectDisabled);
    assert_eq!(p.channel_status(DIRECT_CHANNEL_GID), Some(ChannelStatus::ChannelDisabled));
    assert_eq!(p.on_user_input_received(2, true, "9000"), InputOutcome::Unrecognized);
    assert_eq!(p.on_user_input_received(1, true, "node-a"), InputOutcome::Unrecognized);
    assert_eq!(p.channel_status(DIRECT_CHANNEL_GID), Some(ChannelStatus::ChannelDisabled));
}

#[test]
fn declined_hostname_then_hostname_answer_stays_disabled() {
    let mut p = plugin_with_persona("alice");
    p.activate_channel(DIRECT_CHANNEL_GID);
    assert!(p.hostname_requested(Some(1)));
    assert_eq!(p.on_user_input_received(1, false, ""), InputOutcome::DirectDisabled);
    assert_eq!(p.on_user_input_received(1, true, "node-a"), InputOutcome::Unrecognized);
    assert_eq!(p.channel_status(DIRECT_CHANNEL_GID), Some(ChannelStatus::ChannelDisabled));
}

#[test]
fn new_activation_after_decline_can_succeed() {
    let mut p = plugin_with_persona("alice");
    p.activate_channel(DIRECT_CHANNEL_GID);
    p.hostname_requested(Some(1));
    p.start_port_requested(Some(2));
    assert_eq!(p.on_user_input_received(1, false, ""), InputOutcome::DirectDisabled);
    assert_eq!(p.activate_channel(DIRECT_CHANNEL_GID), Activation::RequestHostname);
    assert_eq!(p.channel_status(DIRECT_CHANNEL_GID), Some(ChannelStatus::ChannelStarting));
    p.hostname_requested(Some(10));
    p.start_port_requested(Some(11));
    assert_eq!(p.on_user_input_received(1, true, "stale"), InputOutcome::Unrecognized);
    assert_eq!(p.on_user_input_received(10, true, "node-a"), InputOutcome::StillPending);
    assert_eq!(p.on_user_input_received(11, true, "15000"), InputOutcome::DirectAvailable);
    assert_eq!(p.channel_status(DIRECT_CHANNEL_GID), Some(ChannelStatus::ChannelAvailable));
}

#[test]
fn failed_poll_keeps_the_index() {
    let messages = whiteboard_link::Messages { data: vec![], length: 0 };
    let out = whiteboard_link::process_new_posts(12, &messages);
    assert_eq!(out.last_index, 12);
    assert_eq!(out.lost, 0);
    assert!(out.packages.is_empty());
    let stale = whiteboard_link::Messages {
        data: vec![whiteboard_link::encode_package(b"old")],
        length: 5,
    };
    let out = whiteboard_link::process_new_posts(12, &stale);
    assert_eq!(out.last_index, 12);
    assert!(out.packages.is_empty());
}

#[test]
fn failed_hostname_request_fails_channel_and_asks_nothing_more() {
    let mut p = plugin_with_persona("alice");
    p.activate_channel(DIRECT_CHANNEL_GID);
    assert!(!p.hostname_requested(None));
    assert_eq!(p.channel_status(DIRECT_CHANNEL_GID), Some(ChannelStatus::ChannelFailed));
}

#[test]
fn unrecognized_input_handle_is_refused() {
    let mut p = plugin_with_persona("alice");
    p.activate_channel(DIRECT_CHANNEL_GID);
    p.hostname_requested(Some(5));
    p.start_port_requested(Some(6));
    assert_eq!(p.on_user_input_received(99, true, "x"), InputOutcome::Unrecognized);
    assert_eq!(p.channel_status(DIRECT_CHANNEL_GID), Some(ChannelStatus::ChannelStarting));
}

#[test]
fn direct_links_use_the_answered_hostname_and_ports() {
    let mut p = plugin_with_direct_channel("node-a", "20000");
    let props = channel_props();
    match p.create_link(DIRECT_CHANNEL_GID, &id("L1"), &props) {
        Ok(LinkAddress::Direct(profile)) => {
            assert_eq!(profile.hostname, "node-a");
            assert_eq!(profile.port, 20000);
        }
        _ => panic!("expected a direct link"),
    }
    match p.create_link(DIRECT_CHANNEL_GID, &id("L2"), &props) {
        Ok(LinkAddress::Direct(profile)) => assert_eq!(profile.port, 20001),
        _ => panic!("expected a direct link"),
    }
    let link = p.get_link(&id("L1")).unwrap();
    assert_eq!(link.get_link_type(), LinkType::LtRecv);
    assert_eq!(link.get_link_properties().channel_gid, DIRECT_CHANNEL_GID);
    assert_eq!(link.get_link_properties().mtu, 1500);
    assert_eq!(link.get_link_properties().best.send.bandwidth_bps, 28270000);
}

#[test]
fn unreadable_start_port_keeps_the_default() {
    let mut p = plugin_with_direct_channel("node-a", "not-a-port");
    match p.create_link(DIRECT_CHANNEL_GID, &id("L1"), &channel_props()) {
        Ok(LinkAddress::Direct(profile)) => assert_eq!(profile.port, 10000),
        _ => panic!("expected a direct link"),
    }
}

#[test]
fn whiteboard_links_get_numbered_hashtags() {
    let mut p = plugin_with_persona("alice");
    p.activate_channel(INDIRECT_CHANNEL_GID);
    let props = channel_props();
    match p.create_link(INDIRECT_CHANNEL_GID, &id("W1"), &props) {
        Ok(LinkAddress::Whiteboard(profile)) => {
            assert_eq!(profile.hashtag, "rust_alice_0");
            assert_eq!(profile.hostname, "twosix-whiteboard");
            assert_eq!(profile.port, 5000);
            assert_eq!(profile.check_frequency_ms, 1000);
        }
        _ => panic!("expected a whiteboard link"),
    }
    match p.create_link(INDIRECT_CHANNEL_GID, &id("W2"), &props) {
        Ok(LinkAddress::Whiteboard(profile)) => assert_eq!(profile.hashtag, "rust_alice_1"),
        _ => panic!("expected a whiteboard link"),
    }
    assert_eq!(p.get_link(&id("W1")).unwrap().get_link_type(), LinkType::LtBidi);
}

#[test]
fn link_creation_refusals() {
    let mut p = plugin_with_persona("alice");
    let props = channel_props();
    assert_eq!(
        p.create_link("nope", &id("L"), &props).err(),
        Some(CreateLinkError::UnknownChannel)
    );
    assert_eq!(
        p.create_link(INDIRECT_CHANNEL_GID, &id("L"), &props).err(),
        Some(CreateLinkError::ChannelNotAvailable)
    );
    p.activate_channel(INDIRECT_CHANNEL_GID);
    assert!(p.create_link(INDIRECT_CHANNEL_GID, &id("L"), &props).is_ok());
    assert_eq!(
        p.create_link(INDIRECT_CHANNEL_GID, &id("L"), &props).err(),
        Some(CreateLinkError::DuplicateLinkId)
    );
    let wrong_kind = Some(LinkAddress::Direct(direct_link::LinkProfile {
        hostname: id("h"),
        port: 1,
    }));
    assert_eq!(
        p.load_link_address(INDIRECT_CHANNEL_GID, &id("M"), &id("{}"), wrong_kind, &props),
        Err(CreateLinkError::InvalidAddress)
    );
    assert_eq!(
        p.load_link_address(INDIRECT_CHANNEL_GID, &id("M"), &id("{"), None, &props),
        Err(CreateLinkError::InvalidAddress)
    );
    assert!(!p.contains_link(&id("M")));
}

#[test]
fn destroying_an_unknown_link_is_an_error() {
    let mut p = plugin_with_persona("alice");
    assert!(p.destroy_link(&id("missing")).is_none());
}

#[test]
fn destroying_a_link_closes_its_connections() {
    let mut p = plugin_with_persona("alice");
    p.activate_channel(INDIRECT_CHANNEL_GID);
    let props = channel_props();
    p.create_link(INDIRECT_CHANNEL_GID, &id("W1"), &props).unwrap();
    p.create_link(INDIRECT_CHANNEL_GID, &id("W2"), &props).unwrap();
    p.open_connection(LinkType::LtRecv, &id("W1"), &id("c1"));
    p.open_connection(LinkType::LtSend, &id("W1"), &id("c2"));
    p.open_connection(LinkType::LtRecv, &id("W2"), &id("c3"));
    let closed = p.destroy_link(&id("W1")).unwrap();
    assert_eq!(closed.len(), 2);
    assert!(closed.iter().all(|c| c.link_id == "W1"));
    assert!(closed.iter().any(|c| c.connection_id == "c1" && c.stop_task));
    assert!(!p.contains_link(&id("W1")));
    assert!(p.contains_link(&id("W2")));
    assert!(p.close_connection(&id("c1")).is_none());
    assert!(p.close_connection(&id("c3")).is_some());
}

#[test]
fn background_task_runs_while_receivers_remain() {
    let mut p = plugin_with_direct_channel("node-a", "20000");
    p.create_link(DIRECT_CHANNEL_GID, &id("L1"), &channel_props()).unwrap();
    let mut starts = vec![];
    for c in ["r1", "r2", "r3"] {
        match p.open_connection(LinkType::LtRecv, &id("L1"), &id(c)) {
            OpenOutcome::Opened { start_task } => starts.push(start_task),
            _ => panic!("expected the connection to open"),
        }
    }
    assert_eq!(starts, vec![true, false, false]);
    assert!(!p.close_connection(&id("r1")).unwrap().stop_task);
    assert!(!p.close_connection(&id("r2")).unwrap().stop_task);
    assert!(p.get_link(&id("L1")).unwrap().task_running());
    let last = p.close_connection(&id("r3")).unwrap();
    assert!(last.stop_task);
    assert_eq!(last.link_id, "L1");
    assert!(!p.get_link(&id("L1")).unwrap().task_running());
}

#[test]
fn open_connection_refusals() {
    let mut p = plugin_with_direct_channel("node-a", "20000");
    p.create_link(DIRECT_CHANNEL_GID, &id("L1"), &channel_props()).unwrap();
    assert!(matches!(
        p.open_connection(LinkType::LtRecv, &id("nope"), &id("c")),
        OpenOutcome::NoSuchLink
    ));
    assert!(matches!(
        p.open_connection(LinkType::LtSend, &id("L1"), &id("c")),
        OpenOutcome::Mismatch
    ));
    assert!(matches!(
        p.open_connection(LinkType::LtRecv, &id("L1"), &id("c")),
        OpenOutcome::Opened { start_task: true }
    ));
    assert!(matches!(
        p.open_connection(LinkType::LtRecv, &id("L1"), &id("c")),
        OpenOutcome::DuplicateConnection
    ));
}

#[test]
fn sending_on_a_receive_link_is_refused() {
    let mut p = plugin_with_direct_channel("node-a", "20000");
    p.create_link(DIRECT_CHANNEL_GID, &id("L1"), &channel_props()).unwrap();
    p.open_connection(LinkType::LtRecv, &id("L1"), &id("r1"));
    let refused = p.send_package(&id("r1"), b"payload");
    assert_eq!(refused.as_ref().err(), Some(&SendRefusal::NotSendCapable));
    assert_eq!(SendRefusal::NotSendCapable.package_status(), PackageStatus::PackageFailedGeneric);
    assert_eq!(
        p.send_package(&id("missing"), b"payload").err(),
        Some(SendRefusal::UnknownConnection)
    );
}

#[test]
fn loaded_direct_link_sends_to_its_address() {
    let mut p = plugin_with_direct_channel("node-a", "20000");
    let address = Some(LinkAddress::Direct(direct_link::LinkProfile {
        hostname: id("node-b"),
        port: 20005,
    }));
    let text = id("{\"hostname\":\"node-b\",\"port\":20005}");
    p.load_link_address(DIRECT_CHANNEL_GID, &id("S1"), &text, address, &channel_props())
        .unwrap();
    let link = p.get_link(&id("S1")).unwrap();
    assert_eq!(link.get_link_type(), LinkType::LtSend);
    assert_eq!(link.get_link_properties().link_address, text);
    assert!(matches!(
        p.open_connection(LinkType::LtSend, &id("S1"), &id("s")),
        OpenOutcome::Opened { start_task: false }
    ));
    match p.send_package(&id("s"), b"payload") {
        Ok(SendPlan::Tcp { hostname, port }) => {
            assert_eq!(hostname, "node-b");
            assert_eq!(port, 20005);
        }
        _ => panic!("expected a TCP send"),
    }
}

#[test]
fn whiteboard_send_posts_base64() {
    let mut p = plugin_with_persona("bob");
    p.activate_channel(INDIRECT_CHANNEL_GID);
    p.create_link(INDIRECT_CHANNEL_GID, &id("W1"), &channel_props()).unwrap();
    p.open_connection(LinkType::LtBidi, &id("W1"), &id("b"));
    match p.send_package(&id("b"), b"hello") {
        Ok(SendPlan::Post { hostname, port, hashtag, body }) => {
            assert_eq!(hostname, "twosix-whiteboard");
            assert_eq!(port, 5000);
            assert_eq!(hashtag, "rust_bob_0");
            assert_eq!(body, "aGVsbG8=");
        }
        _ => panic!("expected a relay post"),
    }
}

#[test]
fn package_status_follows_the_transport() {
    assert_eq!(
        package_status_after_send(true),
        (PackageStatus::PackageSent, PluginResponse::PluginOk)
    );
    assert_eq!(
        package_status_after_send(false),
        (PackageStatus::PackageFailedGeneric, PluginResponse::PluginError)
    );
}

#[test]
fn deactivating_a_channel_destroys_its_links() {
    let mut p = plugin_with_persona("alice");
    p.activate_channel(INDIRECT_CHANNEL_GID);
    let props = channel_props();
    p.create_link(INDIRECT_CHANNEL_GID, &id("W1"), &props).unwrap();
    p.create_link(INDIRECT_CHANNEL_GID, &id("W2"), &props).unwrap();
    p.open_connection(LinkType::LtRecv, &id("W2"), &id("c"));
    let teardowns = p.deactivate_channel(INDIRECT_CHANNEL_GID).unwrap();
    assert_eq!(teardowns.len(), 2);
    assert_eq!(p.channel_status(INDIRECT_CHANNEL_GID), Some(ChannelStatus::ChannelUnavailable));
    assert!(!p.contains_link(&id("W1")));
    assert!(!p.contains_link(&id("W2")));
    assert!(p.close_connection(&id("c")).is_none());
}

#[test]
fn shutdown_closes_everything() {
    let mut p = plugin_with_persona("alice");
    p.activate_channel(INDIRECT_CHANNEL_GID);
    p.create_link(INDIRECT_CHANNEL_GID, &id("W1"), &channel_props()).unwrap();
    p.open_connection(LinkType::LtRecv, &id("W1"), &id("c1"));
    p.open_connection(LinkType::LtSend, &id("W1"), &id("c2"));
    let closed = p.shutdown();
    assert_eq!(closed.len(), 2);
    assert!(!p.contains_link(&id("W1")));
    assert_eq!(p.channel_status(INDIRECT_CHANNEL_GID), Some(ChannelStatus::ChannelAvailable));
}

#[test]
fn load_link_addresses_is_refused() {
    let p = PluginCommsTwoSixRust::new();
    assert_eq!(p.load_link_addresses(), PluginResponse::PluginError);
}

#[test]
fn default_properties_per_channel() {
    let props = channel_props();
    let direct = get_default_link_properties_for_channel(&props, DIRECT_CHANNEL_GID).unwrap();
    assert_eq!(direct.link_type, LinkType::LtUndef);
    assert_eq!(direct.best.send.bandwidth_bps, 28270000);
    assert_eq!(direct.best.receive.latency_ms, 14);
    assert_eq!(direct.worst.send.bandwidth_bps, 23130000);
    assert_eq!(direct.worst.receive.latency_ms, 17);
    assert_eq!(direct.worst.send.loss_per_mille, -1000);
    assert_eq!(direct.expected.send.bandwidth_bps, 1000);
    assert_eq!(direct.supported_hints, vec!["hint".to_string()]);
    assert_eq!(direct.channel_gid, DIRECT_CHANNEL_GID);
    assert!(direct.reliable);
    let indirect = get_default_link_properties_for_channel(&props, INDIRECT_CHANNEL_GID).unwrap();
    assert_eq!(indirect.link_type, LinkType::LtBidi);
    assert_eq!(indirect.best.send.bandwidth_bps, 338800);
    assert_eq!(indirect.best.send.latency_ms, 2610);
    assert_eq!(indirect.worst.receive.bandwidth_bps, 277200);
    assert_eq!(indirect.worst.receive.latency_ms, 3190);
    assert_eq!(indirect.worst.receive.loss_per_mille, 100);
    assert!(get_default_link_properties_for_channel(&props, "nope").is_err());
}

#[test]
fn poll_accounts_for_lost_posts() {
    let messages = whiteboard_link::Messages {
        data: vec![
            whiteboard_link::encode_package(b"one"),
            whiteboard_link::encode_package(b"two"),
            whiteboard_link::encode_package(b"three"),
        ],
        length: 15,
    };
    let out = whiteboard_link::process_new_posts(10, &messages);
    assert_eq!(out.lost, 2);
    assert_eq!(out.last_index, 15);
    assert_eq!(out.packages, vec![b"one".to_vec(), b"two".to_vec(), b"three".to_vec()]);
}

#[test]
fn poll_drops_undecodable_posts_alone() {
    let messages = whiteboard_link::Messages {
        data: vec![id("!!not base64!!"), whiteboard_link::encode_package(&[0xff, 0x00])],
        length: 2,
    };
    let out = whiteboard_link::process_new_posts(0, &messages);
    assert_eq!(out.lost, 0);
    assert_eq!(out.last_index, 2);
    assert_eq!(out.packages, vec![vec![0xffu8, 0x00]]);
}

#[test]
fn poll_with_nothing_new() {
    let messages = whiteboard_link::Messages { data: vec![], length: 4 };
    let out = whiteboard_link::process_new_posts(4, &messages);
    assert_eq!(out.lost, 0);
    assert_eq!(out.last_index, 4);
    assert!(out.packages.is_empty());
}

#[test]
fn base64_round_trip_on_binary_and_empty() {
    for bytes in [vec![], vec![0u8, 0xff, 0x80, 0x7f, 0xc3], b"plain text".to_vec()] {
        let text = whiteboard_link::encode_package(&bytes);
        assert_eq!(whiteboard_link::decode_post(&text), Some(bytes.clone()));
    }
    assert_eq!(whiteboard_link::encode_package(&[]), "");
    assert_eq!(whiteboard_link::encode_package(b"hi"), "aGk=");
    assert_eq!(whiteboard_link::decode_post(&id("aGk=")), Some(b"hi".to_vec()));
    assert_eq!(whiteboard_link::decode_post(&id("a")), None);
}

#[test]
fn poll_interval_is_at_least_one_second() {
    let mut profile = whiteboard_link::LinkProfile {
        hostname: id("h"),
        port: 1,
        hashtag: id("t"),
        check_frequency_ms: 500,
    };
    assert_eq!(profile.poll_interval_secs(), 1);
    profile.check_frequency_ms = 2500;
    assert_eq!(profile.poll_interval_secs(), 2);
}

#[test]
fn link_variant_reports_its_id() {
    let link = Link::from_address(
        &id("X"),
        plugin_comms_twosix_rust::race_common::LinkProperties::unknown(),
        LinkAddress::Direct(direct_link::LinkProfile { hostname: id("h"), port: 3 }),
    );
    assert_eq!(link.get_link_id(), "X");
    assert!(!link.task_running());
}

#[test]
fn input_without_an_outstanding_prompt_is_refused() {
    let mut p = plugin_with_persona("alice");
    assert_eq!(p.on_user_input_received(0, true, "node-a"), InputOutcome::Unrecognized);
    assert_eq!(p.channel_status(DIRECT_CHANNEL_GID), Some(ChannelStatus::ChannelUnavailable));
    match p.create_link(DIRECT_CHANNEL_GID, &id("L1"), &channel_props()) {
        Err(CreateLinkError::ChannelNotAvailable) => {}
        _ => panic!("the direct channel must still be unavailable"),
    }
}

#[test]
fn answered_prompt_is_not_answered_twice() {
    let mut p = plugin_with_persona("alice");
    p.activate_channel(DIRECT_CHANNEL_GID);
    p.hostname_requested(Some(3));
    p.start_port_requested(Some(4));
    assert_eq!(p.on_user_input_received(4, true, "12000"), InputOutcome::StillPending);
    assert_eq!(p.on_user_input_received(4, true, "13000"), InputOutcome::Unrecognized);
    assert_eq!(p.on_user_input_received(3, true, "node-a"), InputOutcome::DirectAvailable);
    match p.create_link(DIRECT_CHANNEL_GID, &id("L1"), &channel_props()) {
        Ok(LinkAddress::Direct(profile)) => assert_eq!(profile.port, 12000),
        _ => panic!("expected a direct link"),
    }
}

#[test]
fn destroying_a_link_stops_its_task_once() {
    let mut p = plugin_with_direct_channel("node-a", "20000");
    p.create_link(DIRECT_CHANNEL_GID, &id("L1"), &channel_props()).unwrap();
    for c in ["r1", "r2", "r3"] {
        p.open_connection(LinkType::LtRecv, &id("L1"), &id(c));
    }
    let closed = p.destroy_link(&id("L1")).unwrap();
    let mut ids: Vec<String> = closed.iter().map(|c| c.connection_id.clone()).collect();
    ids.sort();
    assert_eq!(ids, vec![id("r1"), id("r2"), id("r3")]);
    assert_eq!(closed.iter().filter(|c| c.stop_task).count(), 1);
}

#[test]
fn deactivating_one_channel_leaves_the_other() {
    let mut p = plugin_with_direct_channel("node-a", "20000");
    p.activate_channel(INDIRECT_CHANNEL_GID);
    p.create_link(DIRECT_CHANNEL_GID, &id("L1"), &channel_props()).unwrap();
    p.create_link(INDIRECT_CHANNEL_GID, &id("W1"), &channel_props()).unwrap();
    let torn = p.deactivate_channel(INDIRECT_CHANNEL_GID).unwrap();
    assert_eq!(torn.len(), 1);
    assert_eq!(torn[0].link_id, "W1");
    assert_eq!(p.channel_status(DIRECT_CHANNEL_GID), Some(ChannelStatus::ChannelAvailable));
    assert!(p.contains_link(&id("L1")));
}

#[test]
fn send_response_needs_transport_and_host() {
    assert_eq!(send_response(true, true), PluginResponse::PluginOk);
    assert_eq!(send_response(true, false), PluginResponse::PluginError);
    assert_eq!(send_response(false, true), PluginResponse::PluginError);
}
