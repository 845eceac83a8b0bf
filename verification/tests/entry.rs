use eclipse_core::debug::{is_debug, DebugMode};
use eclipse_core::entry::{
    arguments_or_none, color, env_entries, flag, launch_arguments, live_handle, low_i16, low_u16,
    low_u8, proxy_overrides, server_config, variables_or_none, Color,
};

fn some(s: &str) -> Option<String> {
    Some(s.to_string())
}

fn pair(name: &str, value: &str) -> (String, String) {
    (name.to_string(), value.to_string())
}

#[test]
fn zero_is_no_handle() {
    assert_eq!(live_handle(0), None);
    assert_eq!(live_handle(1), Some(1));
    assert_eq!(live_handle(-1), Some(-1));
}

#[test]
fn flags_are_set_by_anything_but_zero() {
    assert!(!flag(0));
    assert!(flag(1));
    assert!(flag(255));
}

#[test]
fn numbers_are_narrowed_to_their_low_bits() {
    for n in [0, 1, 24, 255, 256, 32767, 32768, 65535, 65536, 70000, -1, -300, i32::MAX, i32::MIN] {
        assert_eq!(low_u16(n), n as u16);
        assert_eq!(low_u8(n), n as u8);
        assert_eq!(low_i16(n), n as i16);
    }
    assert_eq!(low_u16(65537), 1);
    assert_eq!(low_u8(-1), 255);
    assert_eq!(low_i16(-12), -12);
}

#[test]
fn a_server_is_configured() {
    let config = server_config(10000, 65535, 0, None);
    assert_eq!((config.port_min, config.port_max), (10000, 65535));
    assert_eq!(config.preferred_port, None);
    assert_eq!(config.auth_token, None);
    assert_eq!(server_config(1, 2, -5, None).preferred_port, None);
    let config = server_config(1, 2, 8080, some("secret"));
    assert_eq!(config.preferred_port, Some(8080));
    assert_eq!(config.auth_token, some("secret"));
    assert_eq!(server_config(1, 2, 65536, None).preferred_port, Some(0));
}

#[test]
fn a_command_is_read_from_json() {
    let launch = launch_arguments(
        some("sh"),
        some(r#"["-c", "echo \"hi\""]"#),
        some(r#"[["A","1"],["B",""]]"#),
        some("/work"),
    );
    assert_eq!(launch.cmd, "sh");
    assert_eq!(launch.args, vec!["-c".to_string(), "echo \"hi\"".to_string()]);
    assert_eq!(launch.extra_env, vec![pair("A", "1"), pair("B", "")]);
    assert_eq!(launch.cwd, "/work");
}

#[test]
fn what_cannot_be_read_is_empty() {
    let launch = launch_arguments(None, None, None, None);
    assert_eq!(launch.cmd, "");
    assert!(launch.args.is_empty());
    assert!(launch.extra_env.is_empty());
    assert_eq!(launch.cwd, "");
    for args in ["", "null", "{}", "[1]", "[\"a\",null]", "\"a\"", "[\"a\"] x", "[\"a\",]"] {
        assert!(launch_arguments(None, some(args), None, None).args.is_empty());
    }
    for env in [
        "",
        "[[\"a\"]]",
        "[[\"a\",\"b\",\"c\"]]",
        "[[\"a\",1]]",
        "[\"a\",\"b\"]",
        "{\"a\":\"b\"}",
        "[[\"a\",\"b\"],[]]",
    ] {
        assert!(launch_arguments(None, None, some(env), None).extra_env.is_empty());
    }
}

#[test]
fn parsed_lists_are_taken_over() {
    assert!(arguments_or_none(None).is_empty());
    assert_eq!(arguments_or_none(Some(vec!["a".to_string()])), vec!["a".to_string()]);
    assert!(variables_or_none(None).is_empty());
    let raw = vec![["a".to_string(), "1".to_string()], ["b".to_string(), "2".to_string()]];
    assert_eq!(variables_or_none(Some(raw)), vec![pair("a", "1"), pair("b", "2")]);
}

#[test]
fn empty_proxies_count_as_none() {
    let overrides = proxy_overrides(some("http://p:1"), some(""), None);
    assert_eq!(overrides.http, some("http://p:1"));
    assert_eq!(overrides.https, None);
    assert_eq!(overrides.no_proxy, None);
    let overrides = proxy_overrides(None, some("s"), some("localhost"));
    assert_eq!(overrides.http, None);
    assert_eq!(overrides.https, some("s"));
    assert_eq!(overrides.no_proxy, some("localhost"));
}

#[test]
fn variables_are_written_as_entries() {
    let list = vec![pair("PATH", "/a:/b"), pair("EMPTY", ""), pair("X", "a=b")];
    assert_eq!(env_entries(&list), vec!["PATH=/a:/b", "EMPTY=", "X=a=b"]);
    assert!(env_entries(&vec![]).is_empty());
}

#[test]
fn colours_are_made_of_three_channels() {
    assert_eq!(color(1, 256, -1), Color { r: 1, g: 0, b: 255 });
}

#[test]
fn debug_mode_is_off_until_it_is_switched_on() {
    let mut mode = DebugMode::new();
    assert!(!is_debug(&mode));
    mode.store(1);
    assert!(is_debug(&mode));
    mode.store(0);
    assert!(!is_debug(&mode));
}
