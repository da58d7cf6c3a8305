//! The settings of the proxy: where the service that it fronts is found.
//!
//! The settings are fixed when the proxy starts and are only read afterwards.

use crate::text::append;
use vstd::prelude::*;

verus! {

/// The address of a service: its host and its port, each as text.
#[derive(Debug, PartialEq, Eq)]
pub struct Service {
    pub ip: String,
    pub port: String,
}

impl Clone for Service {
    fn clone(&self) -> (r: Service)
        ensures
            r == *self,
    {
        Service { ip: self.ip.clone(), port: self.port.clone() }
    }
}

impl Default for Service {
    /// Port 8080 of this machine.
    fn default() -> (r: Service)
        ensures
            r.ip@ == "localhost"@,
            r.port@ == "8080"@,
    {
        Service { ip: "localhost".to_owned(), port: "8080".to_owned() }
    }
}

impl Service {
    /// Host and port as one text.
    pub open spec fn address_of(self) -> Seq<char> {
        self.ip@ + seq![':'] + self.port@
    }

    /// The address in the form `host:port`.
    pub fn address(&self) -> (r: String)
        ensures
            r@ == self.address_of(),
    {
        let mut r = String::new();
        append(&mut r, self.ip.as_str());
        append(&mut r, ":");
        append(&mut r, self.port.as_str());
        proof {
            reveal_strlit(":");
            assert(":"@ =~= seq![':']);
            assert(r@ =~= self.address_of());
        }
        r
    }
}

/// What the settings file holds.
#[derive(Debug, PartialEq, Eq)]
pub struct ProxyProperties {
    pub service: Service,
}

#[derive(Debug)]
struct ProxyConfig {
    props: ProxyProperties,
}

/// The settings that the proxy runs with.
pub struct Configuration {
    proxy_config: ProxyConfig,
}

impl Configuration {
    /// The service that these settings name.
    pub closed spec fn service(&self) -> Service {
        self.proxy_config.props.service
    }

    /// Settings made of `props`.
    pub fn new(props: ProxyProperties) -> (r: Configuration)
        ensures
            r.service() == props.service,
    {
        Configuration { proxy_config: ProxyConfig { props } }
    }

    /// A copy of the address of the service.
    pub fn service_config(&self) -> (r: Service)
        ensures
            r == self.service(),
    {
        self.proxy_config.props.service.clone()
    }
}

} // verus!
