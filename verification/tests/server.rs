//! Starting the server.

use crane_wyoming::engine::model_factory::{DiscoveredModel, ModelType};
use crane_wyoming::server::{
    bind_step, parse_size, print_discovered_models, resolve_bind_target, startup,
    systemd_listen_fd, BindAttempt, BindStep, BindTarget, Listener, Size, SocketInode, Startup,
    SD_LISTEN_FDS_START,
};

fn bytes(s: &str) -> u64 {
    match parse_size(s).unwrap() {
        Size::Bytes(n) => n,
        other => panic!("expected a number of bytes, got {other:?}"),
    }
}

#[test]
fn lib_parse_size_bare_bytes() {
    assert_eq!(bytes("1024"), 1024);
}

#[test]
fn lib_parse_size_kilobytes() {
    assert_eq!(bytes("500K"), 500 * 1024);
    assert_eq!(bytes("500KB"), 500 * 1024);
}

#[test]
fn lib_parse_size_megabytes() {
    assert_eq!(bytes("500M"), 500 * 1024 * 1024);
    assert_eq!(bytes("100MB"), 100 * 1024 * 1024);
}

#[test]
fn lib_parse_size_gigabytes() {
    assert_eq!(bytes("1G"), 1024 * 1024 * 1024);
    assert_eq!(bytes("1.5G"), (1.5 * 1024.0 * 1024.0 * 1024.0) as u64);
}

#[test]
fn lib_parse_size_lowercase_suffix() {
    assert_eq!(bytes("500m"), 500 * 1024 * 1024);
}

#[test]
fn lib_parse_size_rejects_empty() {
    assert!(parse_size("").is_err());
    assert!(parse_size("   ").is_err());
}

#[test]
fn lib_parse_size_rejects_invalid() {
    assert!(parse_size("abc").is_err());
    assert!(parse_size("M").is_err());
}

#[test]
fn lib_parse_size_rejects_negative() {
    assert!(parse_size("-500M").is_err());
    assert!(parse_size("-1").is_err());
}

#[test]
fn parse_size_bare_bytes() {
    assert_eq!(parse_size("1024"), Ok(Size::Bytes(1024)));
}

#[test]
fn parse_size_kilobytes() {
    assert_eq!(parse_size("500K"), Ok(Size::Bytes(500 * 1024)));
    assert_eq!(parse_size("500KB"), Ok(Size::Bytes(500 * 1024)));
}

#[test]
fn parse_size_megabytes() {
    assert_eq!(parse_size("500M"), Ok(Size::Bytes(500 * 1024 * 1024)));
    assert_eq!(parse_size("100MB"), Ok(Size::Bytes(100 * 1024 * 1024)));
}

#[test]
fn parse_size_gigabytes() {
    assert_eq!(parse_size("1G"), Ok(Size::Bytes(1024 * 1024 * 1024)));
    assert_eq!(
        parse_size("1.5G"),
        Ok(Size::Bytes((1.5 * 1024.0 * 1024.0 * 1024.0) as u64))
    );
}

#[test]
fn parse_size_lowercase_suffix() {
    assert_eq!(parse_size("500m"), Ok(Size::Bytes(500 * 1024 * 1024)));
}

#[test]
fn parse_size_rejects_empty() {
    assert_eq!(parse_size(""), Err("empty size string".to_string()));
    assert_eq!(parse_size("   "), Err("empty size string".to_string()));
}

#[test]
fn parse_size_rejects_invalid() {
    assert_eq!(parse_size("abc"), Err("invalid size string: abc".to_string()));
    assert_eq!(parse_size("M"), Err("invalid size string: M".to_string()));
}

#[test]
fn parse_size_rejects_negative() {
    assert!(parse_size("-500M").unwrap_err().contains("-500M"));
    assert!(parse_size("-1").unwrap_err().contains("-1"));
}

#[test]
fn parse_size_drops_a_fraction_of_a_byte() {
    assert_eq!(bytes("1.9"), 1);
    assert_eq!(bytes("0.3K"), (0.3f64 * 1024.0) as u64);
    assert_eq!(bytes(".5K"), 512);
    assert_eq!(bytes("2."), 2);
    assert_eq!(bytes(" 1 K "), 1024);
    assert_eq!(bytes("-0"), 0);
}

#[test]
fn a_whole_number_of_bytes_is_exact() {
    for n in [0, 1, 9007199254740991, 9007199254740992, 9007199254740993, u64::MAX] {
        assert_eq!(parse_size(&n.to_string()), Ok(Size::Bytes(n)));
    }
    assert_eq!(parse_size("9007199254740993."), Ok(Size::Bytes(9007199254740993)));
    assert_eq!(parse_size("8796093022209K"), Ok(Size::Bytes(9007199254742016)));
    assert_eq!(parse_size("17179869183GB"), Ok(Size::Bytes(17179869183 << 30)));
    assert_eq!(
        parse_size("17179869184G"),
        Ok(Size::Scaled { number: "17179869184".to_string(), multiplier: 1 << 30 })
    );
    assert_eq!(
        parse_size("-9007199254740993"),
        Err("negative size is not allowed: -9007199254740993".to_string())
    );
}

#[test]
fn parse_size_leaves_large_and_scientific_numbers_to_the_caller() {
    assert_eq!(
        parse_size("18446744073709551616").unwrap(),
        Size::Scaled { number: "18446744073709551616".to_string(), multiplier: 1 }
    );
    assert_eq!(
        parse_size("9007199254740992.5").unwrap(),
        Size::Scaled { number: "9007199254740992.5".to_string(), multiplier: 1 }
    );
    assert_eq!(
        parse_size("1e3K").unwrap(),
        Size::Scaled { number: "1E3".to_string(), multiplier: 1024 }
    );
}

#[test]
fn resolve_bind_target_tcp_uri() {
    assert_eq!(
        resolve_bind_target(Some("tcp://127.0.0.1:9999"), "0.0.0.0", 10200, true),
        Ok(BindTarget::Tcp("127.0.0.1:9999".to_string()))
    );
}

#[test]
fn resolve_bind_target_unix_uri() {
    assert_eq!(
        resolve_bind_target(Some("unix:///tmp/test.sock"), "0.0.0.0", 10200, true),
        Ok(BindTarget::Unix("/tmp/test.sock".to_string()))
    );
    assert!(resolve_bind_target(Some("unix:///tmp/test.sock"), "0.0.0.0", 10200, false).is_err());
}

#[test]
fn resolve_bind_target_invalid_scheme() {
    assert!(resolve_bind_target(Some("http://foo"), "0.0.0.0", 10200, true).is_err());
}

#[test]
fn resolve_bind_target_host_port_fallback() {
    assert_eq!(
        resolve_bind_target(None, "127.0.0.1", 4242, true),
        Ok(BindTarget::Tcp("127.0.0.1:4242".to_string()))
    );
}

#[test]
fn resolve_bind_target_ipv6_brackets() {
    assert_eq!(
        resolve_bind_target(None, "::1", 4242, true),
        Ok(BindTarget::Tcp("[::1]:4242".to_string()))
    );
}

#[test]
fn unix_stale_socket_cleanup() {
    assert_eq!(bind_step(BindAttempt::InUse, false), BindStep::RemoveAndRetry);
    assert_eq!(bind_step(BindAttempt::Succeeded, true), BindStep::Bound);
    assert_eq!(bind_step(BindAttempt::InUse, true), BindStep::Fail);
    assert_eq!(bind_step(BindAttempt::Failed, false), BindStep::Fail);
}

#[test]
fn unix_listener_drop_removes_socket() {
    let inode = SocketInode { dev: 1, ino: 2 };
    let listener = Listener::Unix { path: "/tmp/test.sock".to_string(), inode };
    assert!(listener.removes_socket(Some(inode)));
    assert!(!listener.removes_socket(None));
    assert_eq!(listener.display_addr(), "unix:///tmp/test.sock");
}

#[test]
fn unix_drop_preserves_foreign_socket() {
    let first = SocketInode { dev: 1, ino: 2 };
    let second = SocketInode { dev: 1, ino: 3 };
    let listener = Listener::Unix { path: "/tmp/test.sock".to_string(), inode: first };
    assert!(!listener.removes_socket(Some(second)));
    assert!(!listener.removes_socket(Some(SocketInode { dev: 2, ino: 2 })));
}

#[test]
fn systemd_listener_from_fd_does_not_unlink_on_drop() {
    let listener = Listener::Systemd(Some("/tmp/test.sock".to_string()));
    assert!(listener.display_addr().contains("systemd"));
    assert!(!listener.removes_socket(Some(SocketInode { dev: 1, ino: 2 })));
    assert!(Listener::Systemd(None).display_addr().contains("systemd"));
    assert_eq!(Listener::Tcp(Some("127.0.0.1:1".to_string())).display_addr(), "127.0.0.1:1");
    assert_eq!(Listener::Tcp(None).display_addr(), "unknown");
}

#[test]
fn systemd_listen_fd_detection() {
    assert!(systemd_listen_fd(None, None, 77).is_none());
    assert!(systemd_listen_fd(Some("4294967295"), Some("1"), 77).is_none());
    assert!(systemd_listen_fd(Some("77"), None, 77).is_none());
    assert!(systemd_listen_fd(Some("77"), Some("0"), 77).is_none());
    assert!(systemd_listen_fd(Some("no"), Some("1"), 77).is_none());
}

#[test]
fn systemd_listen_fd_detection_matching_pid() {
    assert_eq!(systemd_listen_fd(Some("77"), Some("1"), 77), Some(SD_LISTEN_FDS_START));
    assert_eq!(SD_LISTEN_FDS_START, 3);
}

fn models() -> Vec<DiscoveredModel> {
    vec![
        DiscoveredModel {
            path: "/models/alpha".to_string(),
            name: "alpha".to_string(),
            model_type: ModelType::Qwen3TTS,
        },
        DiscoveredModel {
            path: "/models/beta".to_string(),
            name: "beta".to_string(),
            model_type: ModelType::VoxtralTTS,
        },
    ]
}

#[test]
fn models_are_listed() {
    let listing = "Models in '/models':\n\n  alpha  (qwen3_tts)\n  beta  (voxtral_tts)\n";
    assert_eq!(print_discovered_models("/models", &models()), listing);
    assert_eq!(
        print_discovered_models("/models", &[]),
        "No supported models found in '/models'\n"
    );
    match startup("/models", true, &models(), &[]) {
        Startup::List(text) => assert_eq!(text, listing),
        _ => panic!("expected a listing"),
    }
}

#[test]
fn startup_loads_what_is_asked_for() {
    let discovered = models();
    match startup("/models", false, &discovered, &["beta".to_string()]) {
        Startup::Load(chosen) => assert_eq!(chosen, vec![&discovered[1]]),
        _ => panic!("expected models"),
    }
    match startup("/models", false, &discovered, &[]) {
        Startup::Load(chosen) => assert_eq!(chosen.len(), 2),
        _ => panic!("expected models"),
    }
    match startup("/models", false, &[], &[]) {
        Startup::NoModels(message) => {
            assert_eq!(message, "no supported TTS models found in '/models'");
        },
        _ => panic!("expected no models"),
    }
    match startup("/models", false, &discovered, &["ghost".to_string()]) {
        Startup::BadRequest { context, reason } => {
            assert_eq!(context, "in '/models'");
            assert!(reason.contains("ghost"));
        },
        _ => panic!("expected a refusal"),
    }
}
