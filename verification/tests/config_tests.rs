use udp_bench::config::{get_config, parse_u16, ClientConfig, ConfigError};

fn strings(v: &[&str]) -> Vec<String> {
    v.iter().map(|s| s.to_string()).collect()
}

fn client(v: &[&str]) -> Result<ClientConfig, ConfigError> {
    let args = strings(v);
    let ok: Vec<bool> = args.iter().map(|a| a.parse::<f32>().is_ok()).collect();
    ClientConfig::new(&args, &ok)
}

#[test]
fn parse_u16_follows_std() {
    for s in ["0", "80", "+80", "007", "65535", "", "+", "-1", "-0", "65536", " 1", "1 ", "12a", "99999999999", "+-1", "٣"] {
        assert_eq!(parse_u16(s), s.parse::<u16>().ok(), "input {:?}", s);
    }
}

#[test]
fn server_config_reads_address_and_port() {
    let r = get_config(&strings(&["prog", "-l", "192.168.20.245", "-p", "9898"]));
    assert_eq!(r, Ok(("192.168.20.245".to_string(), 9898)));
}

#[test]
fn server_config_last_option_wins() {
    let r = get_config(&strings(&["prog", "-p", "1", "-l", "a", "-p", "2", "-l", "b"]));
    assert_eq!(r, Ok(("b".to_string(), 2)));
}

#[test]
fn server_config_errors() {
    assert_eq!(get_config(&strings(&[])), Err("Not enough arguments provided".to_string()));
    assert_eq!(get_config(&strings(&["prog"])), Err("Not enough arguments provided".to_string()));
    assert_eq!(
        get_config(&strings(&["prog", "-l", "x"])),
        Err("Not enough arguments provided".to_string())
    );
    assert_eq!(
        get_config(&strings(&["prog", "-l", "x", "-p", "0"])),
        Err("Not enough arguments provided".to_string())
    );
    assert_eq!(
        get_config(&strings(&["prog", "-l"])),
        Err("Missing IP address after -l".to_string())
    );
    assert_eq!(
        get_config(&strings(&["prog", "-l", "x", "-p"])),
        Err("Missing port number after -p".to_string())
    );
    assert_eq!(
        get_config(&strings(&["prog", "-p", "70000", "-l", "x"])),
        Err("Invalid port number".to_string())
    );
    assert_eq!(
        get_config(&strings(&["bench", "-x"])),
        Err("Usage: bench -x".replace(" -x", "") + " -l <ip> -p <port>")
    );
}

#[test]
fn server_config_value_may_look_like_option() {
    let r = get_config(&strings(&["prog", "-l", "-p", "-p", "5"]));
    assert_eq!(r, Ok(("-p".to_string(), 5)));
}

#[test]
fn client_config_reads_all_options() {
    let c = client(&[
        "prog", "-s", "192.168.20.245", "-p", "9898", "-c", "192.168.10.245", "-r", "7878", "-k",
        "100",
    ])
    .unwrap();
    assert_eq!(c.server_ip, "192.168.20.245");
    assert_eq!(c.server_port, 9898);
    assert_eq!(c.client_ip, "192.168.10.245");
    assert_eq!(c.client_port, 7878);
    assert_eq!(c.kbps, Some("100".to_string()));
}

#[test]
fn client_config_defaults() {
    let c = client(&["prog"]).unwrap();
    assert_eq!(c.server_ip, "");
    assert_eq!(c.server_port, 0);
    assert_eq!(c.client_ip, "");
    assert_eq!(c.client_port, 0);
    assert_eq!(c.kbps, None);
    assert!(client(&[]).is_ok());
}

#[test]
fn client_config_errors() {
    assert_eq!(client(&["prog", "-h"]).err(), Some(ConfigError::Help));
    assert_eq!(client(&["prog", "-s"]).err(), Some(ConfigError::MissingServerIp));
    assert_eq!(client(&["prog", "-p"]).err(), Some(ConfigError::MissingServerPort));
    assert_eq!(client(&["prog", "-p", "x"]).err(), Some(ConfigError::BadServerPort { at: 2 }));
    assert_eq!(client(&["prog", "-c"]).err(), Some(ConfigError::MissingClientIp));
    assert_eq!(client(&["prog", "-r"]).err(), Some(ConfigError::MissingClientPort));
    assert_eq!(
        client(&["prog", "-s", "a", "-r", "65536"]).err(),
        Some(ConfigError::BadClientPort { at: 4 })
    );
    assert_eq!(client(&["prog", "-k"]).err(), Some(ConfigError::MissingKbps));
    assert_eq!(client(&["prog", "-k", "fast"]).err(), Some(ConfigError::BadKbps { at: 2 }));
    assert_eq!(client(&["prog", "-z"]).err(), Some(ConfigError::UnknownFlag));
    assert_eq!(client(&["prog", "-k", "fast", "-z"]).err(), Some(ConfigError::BadKbps { at: 2 }));
    assert_eq!(client(&["prog", "-z", "-k", "fast"]).err(), Some(ConfigError::UnknownFlag));
}

#[test]
fn client_config_messages() {
    assert_eq!(ConfigError::Help.message(), "please input -s -p -c -r -k");
    assert_eq!(ConfigError::UnknownFlag.message(), "please input -s -p -c -r -k");
    assert_eq!(ConfigError::MissingServerIp.message(), "please input server ip");
    assert_eq!(ConfigError::MissingServerPort.message(), "please input server port");
    assert_eq!(ConfigError::BadServerPort { at: 1 }.message(), "server port is error");
    assert_eq!(ConfigError::MissingClientIp.message(), "please input client ip");
    assert_eq!(ConfigError::MissingClientPort.message(), "please input client port");
    assert_eq!(ConfigError::BadClientPort { at: 1 }.message(), "client port is error");
    assert_eq!(ConfigError::MissingKbps.message(), "please input kbps");
    assert_eq!(ConfigError::BadKbps { at: 1 }.message(), "kbps is error");
}

#[test]
fn client_config_roundtrip_of_rendered_ports() {
    for (sp, cp) in [(1u16, 2u16), (9898, 7878), (65535, 10)] {
        let sps = sp.to_string();
        let cps = cp.to_string();
        let c = client(&["p", "-s", "srv", "-p", &sps, "-c", "cli", "-r", &cps, "-k", "64.5"]).unwrap();
        assert_eq!((c.server_port, c.client_port), (sp, cp));
        assert_eq!(c.kbps.as_deref(), Some("64.5"));
    }
}

#[test]
fn client_config_later_port_wins() {
    let c = client(&["prog", "-s", "a", "-p", "1", "-k", "5"]).unwrap();
    let d = client(&["prog", "-s", "a", "-p", "1", "-k", "5", "-p", "2"]).unwrap();
    assert_eq!(c.server_port, 1);
    assert_eq!(d.server_port, 2);
    assert_eq!(d.server_ip, c.server_ip);
    assert_eq!(d.kbps, c.kbps);
    assert_eq!(d.client_port, c.client_port);
}
