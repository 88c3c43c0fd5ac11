use shepherd::config::{Config, ServerConfig, Shepherd, TomlDecode};

fn web_config() -> ServerConfig {
    ServerConfig {
        dir: "/srv".to_string(),
        command: "sleep".to_string(),
        args: vec!["100".to_string()],
        auto_restart: Some(true),
        on_stop: Vec::new(),
        stop_timeout: Some(500),
    }
}

#[test]
fn into_config_defaults_the_socket_path() {
    let decode = TomlDecode {
        shepherd: Shepherd { socket_path: None, start_servers: vec!["web".to_string()] },
        servers: vec![("web".to_string(), web_config())],
    };
    let config = decode.into_config();
    assert_eq!(config.socket_path, "/tmp/shepherd.sock");
    assert_eq!(config.start_servers, vec!["web".to_string()]);
    assert_eq!(config.servers.len(), 1);
}

#[test]
fn into_config_keeps_a_named_socket_path() {
    let decode = TomlDecode {
        shepherd: Shepherd {
            socket_path: Some("/run/herd.sock".to_string()),
            start_servers: Vec::new(),
        },
        servers: Vec::new(),
    };
    assert_eq!(decode.into_config().socket_path, "/run/herd.sock");
}

#[test]
fn lookup_finds_only_configured_names() {
    let config = Config {
        socket_path: "/tmp/shepherd.sock".to_string(),
        start_servers: Vec::new(),
        servers: vec![("web".to_string(), web_config())],
    };
    assert!(config.lookup("web").is_some());
    assert_eq!(config.lookup("web").unwrap().command, "sleep");
    assert!(config.lookup("db").is_none());
}

#[test]
fn well_formedness_rejects_duplicate_names() {
    let ok = Config {
        socket_path: String::new(),
        start_servers: Vec::new(),
        servers: vec![("a".to_string(), web_config()), ("b".to_string(), web_config())],
    };
    assert!(ok.check_wf());
    let dup = Config {
        socket_path: String::new(),
        start_servers: Vec::new(),
        servers: vec![("a".to_string(), web_config()), ("a".to_string(), web_config())],
    };
    assert!(!dup.check_wf());
}

#[test]
fn config_listing_text() {
    assert_eq!(
        web_config().describe(),
        "directory: /srv\ncommand: sleep\nargs: [\"100\"]"
    );
    let mut two = web_config();
    two.args = vec!["-a".to_string(), "-b".to_string()];
    assert_eq!(two.describe(), "directory: /srv\ncommand: sleep\nargs: [\"-a\", \"-b\"]");
    let mut none = web_config();
    none.args = Vec::new();
    assert_eq!(none.describe(), "directory: /srv\ncommand: sleep\nargs: []");
}

#[test]
fn cloned_config_is_equal() {
    let c = web_config();
    let d = c.clone();
    assert_eq!(d.dir, c.dir);
    assert_eq!(d.command, c.command);
    assert_eq!(d.args, c.args);
    assert_eq!(d.auto_restart, c.auto_restart);
    assert_eq!(d.on_stop, c.on_stop);
    assert_eq!(d.stop_timeout, c.stop_timeout);
}
