use sync_copy::commands::epoch_ms_or_zero;
use sync_copy::addr::{IpAddress, SocketAddress};
use sync_copy::addr_parse::parse_socket_addr;
use sync_copy::app::config::Config;
use sync_copy::app::history::{HistoryEntry, HistoryPayload, HistorySource, HistoryStore};
use sync_copy::commands::{
    apply_config_payload, approve_peer, clear_history, delete_history_item, entry_to_item, format_last_sync,
    get_config, get_history, listen_addr_text, normalize_addr, peer_info, peer_infos, recopy_history_item,
    reject_peer, relative_time_str, status_info, trust_label, CommandError, ConfigPayload, HistoryItemPayload,
    StatusInfo,
};
use sync_copy::peer::sanitize::sanitize_device_name;
use sync_copy::peer::{PeerRegistry, PeerState, SeenSeqs, TrustState};

fn make_peer(id: &str, trust: TrustState) -> PeerState {
    PeerState {
        device_id: id.to_string(),
        device_name: format!("name-{id}"),
        addr: SocketAddress::new(IpAddress::V4(0x7f00_0001), 9999),
        pubkey_b64: String::new(),
        aes_key: [0u8; 32],
        last_successful_sync_at: None,
        last_heartbeat_at: None,
        consecutive_heartbeat_failures: 0,
        consecutive_send_failures: 0,
        trust_state: trust,
        last_seen_seq_by_kind: SeenSeqs::new(),
    }
}

fn text_entry(id: &str, text: &str, source: HistorySource, hash: Option<&str>) -> HistoryEntry {
    HistoryEntry {
        id: id.to_string(),
        timestamp_ms: 1000,
        source,
        content_hash: hash.map(|h| h.to_string()),
        payload: HistoryPayload::Text { text: text.to_string() },
    }
}

fn make_status() -> StatusInfo {
    status_info("test-device-id".to_string(), "127.0.0.1:5858".to_string(), &[])
}

#[test]
fn get_status_returns_my_device_id_correct() {
    let status = make_status();
    assert_eq!(status.my_device_id, "test-device-id", "my_device_id must match input");
    assert_eq!(status.listen_addr, "127.0.0.1:5858", "listen_addr must match input");
    assert_eq!(status.approved_count, 0);
}

#[test]
fn approve_peer_unknown_returns_not_found() {
    let mut registry = PeerRegistry::new_for_test();
    let unknown_id = "nonexistent-device-uuid";
    assert!(!registry.is_known(unknown_id), "unknown device must not be known");
    let result = approve_peer(&mut registry, unknown_id).map_err(|e| e.body().to_string());
    assert!(result.is_err(), "approve_peer for unknown device must return Err");
    let err_str = result.unwrap_err();
    assert_eq!(err_str, "not_found", "error body must be generic 'not_found', not expose device_id");
    assert!(!err_str.contains(unknown_id), "error body must not contain device_id literal");
}

#[test]
fn set_config_persists_device_name() {
    let current = Config::with_device_name("old".to_string());
    let blank = ConfigPayload { device_name: Some("   ".to_string()), listen_port: None };
    assert_eq!(apply_config_payload(&current, blank).unwrap_err(), CommandError::InvalidInput);

    let valid_name = "工作 Mac";
    let ok = ConfigPayload { device_name: Some(valid_name.to_string()), listen_port: None };
    let cfg = apply_config_payload(&current, ok).expect("valid name accepted");
    assert_eq!(cfg.device_name, valid_name);

    let long_name: String = "x".repeat(100);
    let sanitized = sanitize_device_name(&long_name);
    assert_eq!(sanitized.chars().count(), 64, "sanitize_device_name must truncate to 64 codepoints");
}

#[test]
fn set_config_rejects_rtl_in_device_name() {
    let rtl = '\u{202E}';
    let name_with_rtl = format!("exploit{rtl}gpj.exe");
    let trimmed = name_with_rtl.trim().to_string();
    let safe_name = sanitize_device_name(&trimmed);
    assert!(!safe_name.contains('\u{202E}'), "sanitize_device_name must strip U+202E RTL override from device_name");
    assert_ne!(safe_name, "<unnamed>", "non-empty name after RTL strip must not become <unnamed>");

    let current = Config::with_device_name("old".to_string());
    let cfg = apply_config_payload(&current, ConfigPayload { device_name: Some(name_with_rtl), listen_port: None })
        .expect("accepted");
    assert_eq!(cfg.device_name, "exploitgpj.exe");
}

#[test]
fn set_config_truncates_long_device_name() {
    let long_unicode: String = "中".repeat(500);
    let safe_name = sanitize_device_name(&long_unicode);
    assert_eq!(safe_name.chars().count(), 64, "device_name must be truncated to exactly 64 Unicode codepoints");
    let current = Config::with_device_name("old".to_string());
    let cfg = apply_config_payload(&current, ConfigPayload { device_name: Some(long_unicode), listen_port: None })
        .expect("accepted");
    assert_eq!(cfg.device_name.chars().count(), 64);
}

#[test]
fn set_config_strips_control_chars() {
    let with_ctrl = "My\u{0000}Mac\u{0007}Book\u{001B}";
    let safe_name = sanitize_device_name(with_ctrl);
    assert!(
        !safe_name.chars().any(|c| c <= '\u{001F}' || c == '\u{007F}'),
        "sanitize_device_name must remove all C0 control characters"
    );
    assert!(safe_name.contains("MyMacBook"), "legitimate chars must be preserved after control char strip");
}

#[test]
fn set_config_io_error_returns_generic_internal_error() {
    let boundary_str = CommandError::InternalError.body().to_string();
    assert_eq!(boundary_str, "internal_error", "io error must map to generic 'internal_error'");
    assert!(!boundary_str.contains("Library"), "boundary error must not expose internal path");
    assert!(!boundary_str.contains("config.json"), "boundary error must not expose config file path");
}

#[test]
fn normalize_addr_strips_prefix_and_slash() {
    assert_eq!(normalize_addr("http://192.168.1.10:5858/"), "192.168.1.10:5858");
    assert_eq!(normalize_addr("https://192.168.1.10:5858"), "192.168.1.10:5858");
    assert_eq!(normalize_addr("192.168.1.10:5858"), "192.168.1.10:5858");
    assert_eq!(normalize_addr("  192.168.1.10:5858  "), "192.168.1.10:5858");
}

#[test]
fn entry_to_item_text_payload() {
    let entry = text_entry("test-id", "hello world", HistorySource::Local, Some("hash123"));
    let item = entry_to_item(&entry);
    assert_eq!(item.id, "test-id");
    assert!(matches!(item.source, HistorySource::Local));
    match item.payload {
        HistoryItemPayload::Text { text } => assert_eq!(text, "hello world"),
        _ => panic!("text payload expected"),
    }
}

#[test]
fn entry_to_item_remote_source() {
    let entry = text_entry(
        "remote-id",
        "from remote",
        HistorySource::Remote { device_name: "工作 Mac".to_string() },
        None,
    );
    let item = entry_to_item(&entry);
    match item.source {
        HistorySource::Remote { device_name } => assert_eq!(device_name, "工作 Mac"),
        _ => panic!("remote source expected"),
    }
}

#[test]
fn relative_time_str_all_ranges() {
    assert_eq!(relative_time_str(0), "刚刚");
    assert_eq!(relative_time_str(59), "刚刚");
    assert_eq!(relative_time_str(60), "1 分钟前");
    assert_eq!(relative_time_str(3599), "59 分钟前");
    assert_eq!(relative_time_str(3600), "1 小时前");
    assert_eq!(relative_time_str(86399), "23 小时前");
    assert_eq!(relative_time_str(86400), "1 天前");
}

// ---- further cases ----

#[test]
fn command_error_bodies() {
    assert_eq!(CommandError::InvalidInput.body(), "invalid_input");
    assert_eq!(CommandError::NotFound.body(), "not_found");
    assert_eq!(CommandError::Forbidden.body(), "forbidden");
    assert_eq!(CommandError::InternalError.body(), "internal_error");
}

#[test]
fn relative_time_many_days() {
    assert_eq!(relative_time_str(86400 * 45 + 7), "45 天前");
}

#[test]
fn format_last_sync_cases() {
    assert_eq!(format_last_sync(None, 5_000), None);
    assert_eq!(format_last_sync(Some(1_000), 181_000), Some("3 分钟前".to_string()));
    assert_eq!(format_last_sync(Some(10_000), 5_000), Some("刚刚".to_string()));
}

#[test]
fn normalize_addr_other_forms() {
    assert_eq!(normalize_addr("http://https://h:1//"), "h:1");
    assert_eq!(normalize_addr("HTTP://h:1"), "HTTP://h:1");
    assert_eq!(normalize_addr(" http:// h:1 / "), "h:1");
    assert_eq!(normalize_addr(""), "");
}

#[test]
fn listen_addr_picks_first_lan_ipv4() {
    let addrs = [
        IpAddress::V4(0x7f00_0001),
        IpAddress::V6(1),
        IpAddress::V4(0xc0a8_0105),
        IpAddress::V4(0x0a00_0001),
    ];
    assert_eq!(listen_addr_text(&addrs, 5858), "192.168.1.5:5858");
    assert_eq!(listen_addr_text(&[IpAddress::V4(0x7f00_0001)], 80), "127.0.0.1:80");
    assert_eq!(listen_addr_text(&[], 1), "127.0.0.1:1");
}

#[test]
fn status_counts_by_trust() {
    let peers = vec![
        make_peer("a", TrustState::Approved),
        make_peer("b", TrustState::Banned),
        make_peer("c", TrustState::Approved),
        make_peer("d", TrustState::Pending),
    ];
    let s = status_info("me".to_string(), "x".to_string(), &peers);
    assert_eq!(s.peer_count, 4);
    assert_eq!(s.approved_count, 2);
    assert_eq!(s.banned_count, 1);
}

#[test]
fn peer_info_fields() {
    let mut p = make_peer("a", TrustState::Pending);
    p.last_successful_sync_at = Some(0);
    let info = peer_info(&p, 7_200_000);
    assert_eq!(info.device_id, "a");
    assert_eq!(info.addr, "127.0.0.1:9999");
    assert_eq!(info.device_name, "name-a");
    assert_eq!(info.trust_state, "pending");
    assert_eq!(info.last_successful_sync_at.as_deref(), Some("2 小时前"));
    assert_eq!(trust_label(TrustState::Approved), "approved");
    assert_eq!(trust_label(TrustState::Banned), "banned");
    let list = peer_infos(&[p, make_peer("b", TrustState::Approved)], 0);
    assert_eq!(list.len(), 2);
    assert_eq!(list[1].device_id, "b");
    assert_eq!(list[1].last_successful_sync_at, None);
}

#[test]
fn peer_info_ipv6_address_text() {
    let mut p = make_peer("a", TrustState::Approved);
    p.addr = SocketAddress::new(IpAddress::V6(0xfe80_0000_0000_0000_0000_0000_0000_0001), 5858);
    assert_eq!(peer_info(&p, 0).addr, "[fe80::1]:5858");
    p.addr = SocketAddress::new(IpAddress::V6(0x2001_0db8_0000_0000_0001_0000_0000_0001), 1);
    assert_eq!(peer_info(&p, 0).addr, "[2001:db8::1:0:0:1]:1");
    p.addr = SocketAddress::new(IpAddress::V6(0xffff_c0a8_0101), 2);
    assert_eq!(peer_info(&p, 0).addr, "[::ffff:192.168.1.1]:2");
    p.addr = SocketAddress::new(IpAddress::V6(0), 3);
    assert_eq!(peer_info(&p, 0).addr, "[::]:3");
}

#[test]
fn approve_and_reject_known_peer() {
    let mut registry = PeerRegistry::new_for_test();
    registry.insert(make_peer("p1", TrustState::Pending));
    assert_eq!(approve_peer(&mut registry, "p1"), Ok(()));
    assert!(registry.is_approved("p1"));
    reject_peer(&mut registry, "p1");
    assert!(registry.is_banned("p1"));
    assert!(!registry.is_approved("p1"));
    assert!(!registry.is_known("p1"));
    reject_peer(&mut registry, "never-seen");
    assert!(registry.is_banned("never-seen"));
}

#[test]
fn set_config_rejects_port_zero_and_unnamed() {
    let current = Config::with_device_name("old".to_string());
    let p = ConfigPayload { device_name: None, listen_port: Some(0) };
    assert_eq!(apply_config_payload(&current, p).unwrap_err(), CommandError::InvalidInput);
    let q = ConfigPayload { device_name: Some("\u{202E}\u{1}".to_string()), listen_port: None };
    assert_eq!(apply_config_payload(&current, q).unwrap_err(), CommandError::InvalidInput);
    let r = ConfigPayload { device_name: None, listen_port: Some(6000) };
    let cfg = apply_config_payload(&current, r).expect("accepted");
    assert_eq!(cfg.listen_port, 6000);
    assert_eq!(cfg.device_name, "old");
    let info = get_config(&cfg);
    assert_eq!(info.listen_port, 6000);
    assert_eq!(info.peer_hint, None);
}

#[test]
fn history_commands() {
    let mut store = HistoryStore::new();
    store.push(text_entry("t1", "one", HistorySource::Local, Some("h1")));
    store.push(HistoryEntry {
        id: "i1".to_string(),
        timestamp_ms: 2,
        source: HistorySource::Local,
        content_hash: Some("h2".to_string()),
        payload: HistoryPayload::Image { width: 2, height: 3, data_b64: "AAAA".to_string() },
    });
    let items = get_history(&store);
    assert_eq!(items.len(), 2);
    match &items[0].payload {
        HistoryItemPayload::Image { width, height, data_url } => {
            assert_eq!((*width, *height), (2, 3));
            assert_eq!(data_url, "data:image/png;base64,AAAA");
        },
        _ => panic!("image first"),
    }
    assert_eq!(recopy_history_item(&store, "t1"), Ok("one".to_string()));
    assert_eq!(recopy_history_item(&store, "i1"), Err(CommandError::InvalidInput));
    assert_eq!(recopy_history_item(&store, "zz"), Err(CommandError::NotFound));
    assert_eq!(delete_history_item(&mut store, "zz"), Err(CommandError::NotFound));
    assert_eq!(delete_history_item(&mut store, "t1"), Ok(()));
    assert_eq!(store.count(), 1);
    clear_history(&mut store);
    assert_eq!(store.count(), 0);
}

#[test]
fn default_device_name_picks_env_in_order() {
    assert_eq!(Config::default_device_name(Some("h".into()), Some("c".into())), "h");
    assert_eq!(Config::default_device_name(None, Some("c".into())), "c");
    assert_eq!(Config::default_device_name(None, None), "My Device");
    assert_eq!(Config::default_listen_port(), 5858);
}

#[test]
fn epoch_ms_keeps_low_64_bits_or_zero() {
    assert_eq!(epoch_ms_or_zero(None), 0);
    assert_eq!(epoch_ms_or_zero(Some(1_700_000_000_123)), 1_700_000_000_123);
    assert_eq!(epoch_ms_or_zero(Some((1u128 << 64) + 5)), 5);
}

fn v4sock(a: [u8; 4], port: u16) -> Option<(SocketAddress, u32)> {
    Some((SocketAddress::new(IpAddress::V4(u32::from_be_bytes(a)), port), 0))
}

fn v6sock(groups: [u16; 8], port: u16, scope: u32) -> Option<(SocketAddress, u32)> {
    let mut v: u128 = 0;
    for g in groups {
        v = (v << 16) | g as u128;
    }
    Some((SocketAddress::new(IpAddress::V6(v), port), scope))
}

#[test]
fn parse_socket_addr_ipv4() {
    assert_eq!(parse_socket_addr("192.168.1.10:5858"), v4sock([192, 168, 1, 10], 5858));
    assert_eq!(parse_socket_addr("0.0.0.0:0"), v4sock([0, 0, 0, 0], 0));
    assert_eq!(parse_socket_addr("10.0.0.1:00080"), v4sock([10, 0, 0, 1], 80));
    assert_eq!(parse_socket_addr("255.255.255.255:65535"), v4sock([255, 255, 255, 255], 65535));
    for bad in ["256.0.0.1:1", "01.2.3.4:1", "1.2.3:1", "1.2.3.4.5:1", "1.2.3.4", "1.2.3.4:", "1.2.3.4:65536", "1.2.3.4:+1", "a.b.c.d:1", " 1.2.3.4:1", "", "1.2.3.4:1:2"] {
        assert_eq!(parse_socket_addr(bad), None, "{bad}");
    }
}

#[test]
fn parse_socket_addr_ipv6() {
    assert_eq!(parse_socket_addr("[::1]:5858"), v6sock([0, 0, 0, 0, 0, 0, 0, 1], 5858, 0));
    assert_eq!(parse_socket_addr("[::]:1"), v6sock([0; 8], 1, 0));
    assert_eq!(parse_socket_addr("[fe80::1%3]:80"), v6sock([0xfe80, 0, 0, 0, 0, 0, 0, 1], 80, 3));
    assert_eq!(parse_socket_addr("[1:2:3:4:5:6:7:8]:9"), v6sock([1, 2, 3, 4, 5, 6, 7, 8], 9, 0));
    assert_eq!(parse_socket_addr("[1:2:3:4:5:6:7::]:9"), v6sock([1, 2, 3, 4, 5, 6, 7, 0], 9, 0));
    assert_eq!(parse_socket_addr("[::ffff:192.168.0.1]:9"), v6sock([0, 0, 0, 0, 0, 0xffff, 0xc0a8, 0x0001], 9, 0));
    assert_eq!(parse_socket_addr("[1:2:3:4:5:6:1.2.3.4]:9"), v6sock([1, 2, 3, 4, 5, 6, 0x0102, 0x0304], 9, 0));
    assert_eq!(parse_socket_addr("[ABCD:ef01::0000]:9"), v6sock([0xabcd, 0xef01, 0, 0, 0, 0, 0, 0], 9, 0));
    for bad in ["[1:2:3:4:5:6:7:8::]:9", "[:::]:9", "[1:::2]:9", "[12345::]:9", "[1::2::3]:9", "[1.2.3.4::]:9", "[::1]", "[::1]:", "[::1]:65536", "[::1%]:1", "[::1%4294967296]:1", "::1:80", "[1:2:3:4:5:6:7]:9", "[1:2:3:4:5:6:7:1.2.3.4]:9", "[::1]x:1"] {
        assert_eq!(parse_socket_addr(bad), None, "{bad}");
    }
}
