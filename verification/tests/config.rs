use cumments::config::{
    collect_env_vars, env_key_path, parse_port, pick_env, port_from_env, replace_all,
    DatabaseSettings, DriverConfig, MatrixSettings, SecuritySettings, ServerSettings, Settings,
};

#[test]
fn test_get_env_generics() {
    let val: u16 = port_from_env(Some("42"), None, 0);
    assert_eq!(val, 42);

    let val: u16 = port_from_env(None, Some("abc"), 100);
    assert_eq!(val, 100);
}

#[test]
fn variable_with_the_prefix_goes_first() {
    assert_eq!(pick_env(Some("a"), Some("b")), Some("a"));
    assert_eq!(pick_env(None, Some("b")), Some("b"));
    assert_eq!(pick_env(None, None), None);
    assert_eq!(port_from_env(Some("8080"), Some("9090"), 3000), 8080);
    assert_eq!(port_from_env(None, Some("9090"), 3000), 9090);
    assert_eq!(port_from_env(None, None, 3000), 3000);
    // a value that names no port gives the default, whatever the other variable says
    assert_eq!(port_from_env(Some("x"), Some("9090"), 3000), 3000);
}

#[test]
fn port_is_a_numeral_up_to_65535() {
    assert_eq!(parse_port("0"), Some(0));
    assert_eq!(parse_port("3000"), Some(3000));
    assert_eq!(parse_port("65535"), Some(65535));
    assert_eq!(parse_port("65536"), None);
    assert_eq!(parse_port("-1"), None);
    assert_eq!(parse_port("080"), None);
    assert_eq!(parse_port(""), None);
}

#[test]
fn occurrences_are_replaced_from_the_left() {
    assert_eq!(replace_all("SERVER__PORT", "__", "."), "SERVER.PORT");
    assert_eq!(replace_all("A___B", "__", "."), "A._B");
    assert_eq!(replace_all("____", "__", "."), "..");
    assert_eq!(replace_all("abc", "__", "."), "abc");
    assert_eq!(replace_all("", "__", "."), "");
    assert_eq!(replace_all("abc", "", "."), "abc");
    assert_eq!(replace_all("aaa", "a", "bb"), "bbbbbb");
    assert_eq!(replace_all("h\u{e9}__llo", "__", "."), "h\u{e9}.llo");
}

#[test]
fn variable_names_a_setting() {
    assert_eq!(env_key_path("CUMMENTS_SERVER__PORT").as_deref(), Some("server.port"));
    assert_eq!(
        env_key_path("CUMMENTS_SECURITY__IDENTITY_SALT").as_deref(),
        Some("security.identity_salt")
    );
    assert_eq!(env_key_path("CUMMENTS_CUMMENTS_X").as_deref(), Some("x"));
    assert_eq!(env_key_path("CUMMENTS_").as_deref(), Some(""));
    assert_eq!(env_key_path("CUMMENTS").as_deref(), None);
    assert_eq!(env_key_path("PATH"), None);
    assert_eq!(env_key_path("cumments_server__port"), None);
}

#[test]
fn settings_are_picked_out_of_the_environment() {
    let vars = vec![
        ("HOME".to_string(), "/root".to_string()),
        ("CUMMENTS_MATRIX__MODE".to_string(), "AppService".to_string()),
        ("CUMMENTS_SERVER__HOST".to_string(), "127.0.0.1".to_string()),
    ];
    assert_eq!(
        collect_env_vars(&vars),
        vec![
            ("matrix.mode".to_string(), "AppService".to_string()),
            ("server.host".to_string(), "127.0.0.1".to_string()),
        ]
    );
    assert!(collect_env_vars(&Vec::new()).is_empty());
}

#[test]
fn defaults_are_those_of_a_local_server() {
    let s = ServerSettings::defaults();
    assert_eq!(s.host, "0.0.0.0");
    assert_eq!(s.port, 3000);
    assert_eq!(s.cors_origins, "*");
    assert_eq!(s.public_server_name, "matrix.org");
    assert_eq!(DatabaseSettings::defaults().url, "sqlite://data/cumments.db");
}

fn settings(matrix: MatrixSettings) -> Settings {
    Settings {
        server: ServerSettings::defaults(),
        database: DatabaseSettings::defaults(),
        matrix,
        security: SecuritySettings {
            identity_salt: "salt".to_string(),
            admin_token: "admin".to_string(),
            pow_secret: "pow".to_string(),
        },
    }
}

#[test]
fn settings_give_the_setup_of_the_driver() {
    let s = settings(MatrixSettings::Bot {
        homeserver_url: "https://matrix.org".to_string(),
        user: "@bot:matrix.org".to_string(),
        token: "t".to_string(),
        device_id: None,
        owner_id: Some("@me:matrix.org".to_string()),
    });
    match s.driver_config() {
        DriverConfig::Bot(b) => {
            assert_eq!(b.homeserver_url, "https://matrix.org");
            assert_eq!(b.user_id, "@bot:matrix.org");
            assert_eq!(b.access_token, "t");
            assert_eq!(b.identity_salt, "salt");
            assert_eq!(b.device_id, "CUMMENTS_BOT");
            assert_eq!(b.owner_id.as_deref(), Some("@me:matrix.org"));
        }
        other => panic!("{:?}", other),
    }
    let s = settings(MatrixSettings::AppService {
        homeserver_url: "http://hs".to_string(),
        server_name: "example.org".to_string(),
        as_token: "as".to_string(),
        hs_token: "hs".to_string(),
        bot_localpart: "cumments".to_string(),
        listen_port: 9000,
        owner_id: None,
    });
    match s.driver_config() {
        DriverConfig::AppService(a) => {
            assert_eq!(a.homeserver_url, "http://hs");
            assert_eq!(a.server_name, "example.org");
            assert_eq!(a.as_token, "as");
            assert_eq!(a.hs_token, "hs");
            assert_eq!(a.bot_localpart, "cumments");
            assert_eq!(a.listen_port, 9000);
            assert_eq!(a.identity_salt, "salt");
            assert_eq!(a.owner_id, None);
        }
        other => panic!("{:?}", other),
    }
}
