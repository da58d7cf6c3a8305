use caching_proxy::config::{Configuration, ProxyProperties, Service};

#[test]
fn default_service_is_local_port_8080() {
    let service = Service::default();
    assert_eq!(service.ip, "localhost");
    assert_eq!(service.port, "8080");
    assert_eq!(service.address(), "localhost:8080");
}

#[test]
fn address_joins_host_and_port() {
    let service = Service { ip: "10.0.0.7".to_string(), port: "9000".to_string() };
    assert_eq!(service.address(), "10.0.0.7:9000");
    let bare = Service { ip: String::new(), port: String::new() };
    assert_eq!(bare.address(), ":");
}

#[test]
fn configuration_hands_out_its_service() {
    let service = Service { ip: "upstream.internal".to_string(), port: "443".to_string() };
    let configuration = Configuration::new(ProxyProperties { service: service.clone() });
    assert_eq!(configuration.service_config(), service);
    assert_eq!(configuration.service_config(), configuration.service_config());
}

#[test]
fn clone_of_service_is_equal() {
    let service = Service { ip: "h".to_string(), port: "1".to_string() };
    let copy = service.clone();
    assert_eq!(copy, service);
    assert_eq!(copy.ip, "h");
    assert_eq!(copy.port, "1");
}
