use bevy_webserver::{IpAddress, WebServerConfig, DEFAULT_PORT};

#[test]
fn default_config_is_loopback_8080() {
    let config = WebServerConfig::default();
    assert_eq!(config.ip, IpAddress::V4(127, 0, 0, 1));
    assert_eq!(config.port, 8080);
    assert_eq!(DEFAULT_PORT, 8080);
}

#[test]
fn chosen_config_prefers_the_provided_one() {
    let provided = WebServerConfig { ip: IpAddress::V6(0, 0, 0, 0, 0, 0, 0, 1), port: 3000 };
    assert_eq!(WebServerConfig::chosen(Some(provided)), provided);
}

#[test]
fn chosen_config_falls_back_to_the_default() {
    assert_eq!(WebServerConfig::chosen(None), WebServerConfig::default());
}

#[test]
fn chosen_config_keeps_an_unspecified_address() {
    let provided = WebServerConfig { ip: IpAddress::V4(0, 0, 0, 0), port: 80 };
    let config = WebServerConfig::chosen(Some(provided));
    assert_eq!(config.ip, IpAddress::V4(0, 0, 0, 0));
    assert_eq!(config.port, 80);
}
