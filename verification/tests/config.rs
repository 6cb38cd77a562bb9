use cosmic_chat::config::{Config, ServerConfig};

#[test]
fn default_config_offers_libera() {
    let c = Config::default();
    assert_eq!(c.servers.len(), 1);
    let s = &c.servers[0];
    assert_eq!(s.name, "Libera.Chat");
    assert_eq!(s.host, "irc.libera.chat");
    assert_eq!(s.port, 6697);
    assert_eq!(s.nick, "cosmic-user");
    assert!(s.use_tls);
    assert!(s.user.is_none() && s.realname.is_none() && s.password.is_none());
    assert_eq!(s.channels, vec!["#cosmic-chat"]);
}

#[test]
fn blank_server_config() {
    let s = ServerConfig::default();
    assert_eq!(s.name, "");
    assert_eq!(s.port, 0);
    assert!(!s.use_tls);
    assert!(s.channels.is_empty());
    let d = s.duplicate();
    assert_eq!(d.name, s.name);
}

#[test]
fn config_path_rules() {
    assert_eq!(
        Config::config_path_from(Some("/x/cfg".into()), Some("/home/u".into())),
        "/x/cfg/cosmic-chat/config.toml"
    );
    assert_eq!(
        Config::config_path_from(None, Some("/home/u".into())),
        "/home/u/.config/cosmic-chat/config.toml"
    );
    assert_eq!(
        Config::config_path_from(None, None),
        "./.config/cosmic-chat/config.toml"
    );
    assert_eq!(
        Config::config_path_from(Some("/x/".into()), None),
        "/x/cosmic-chat/config.toml"
    );
    assert_eq!(
        Config::config_path_from(Some("".into()), None),
        "cosmic-chat/config.toml"
    );
}
