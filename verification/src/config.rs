//! The configuration of the frontend: which services listen, and where.

use crate::service::{Service, lookup, lookup_spec, registry, services};
use crate::text::uppercase;
use crate::{Level, level_named};
use vstd::prelude::*;
use vstd::string::*;
use vstd::utf8::encode_utf8;

verus! {

/// Why a configuration cannot be used.
#[derive(Debug, PartialEq, Eq)]
pub enum Error {
    /// No service of this name is known, or it has no port to listen on.
    UnknownService(String),
}

/// What is logged, and where.
#[derive(Debug, PartialEq, Eq)]
pub struct Log {
    pub level: String,
    pub file: Option<String>,
}

/// One service as the configuration describes it.
#[derive(Debug, PartialEq, Eq)]
pub struct ServiceConfig {
    pub name: String,
    pub enabled: bool,
    /// The address to listen on, where it is not that of the configuration.
    pub ip: Option<String>,
    /// The port to listen on, where it is not that of the service.
    pub port: Option<u16>,
}

/// The configuration of the frontend: the address that services listen on
/// unless they name their own, the logging, and the services.
#[derive(Debug, PartialEq, Eq)]
pub struct Config {
    pub ip: String,
    pub log: Log,
    pub services: Vec<ServiceConfig>,
}

/// Where a service listens.
#[derive(Debug)]
pub struct Endpoint {
    pub service: Service,
    pub ip: String,
    pub port: u16,
}

/// The level that is logged at where the configuration names none: more in
/// a build for debugging.
pub fn default_log_level(debugging: bool) -> (level: String)
    ensures
        level@ == if debugging {
            "DEBUG"@
        } else {
            "INFO"@
        },
{
    if debugging {
        "DEBUG".to_owned()
    } else {
        "INFO".to_owned()
    }
}

pub fn default_true() -> (yes: bool)
    ensures
        yes,
{
    true
}

/// Whether `config` describes the service at position `i` of the registry
/// as it is by default: enabled, on the address of the configuration and the
/// port of the service.
pub open spec fn is_default_service(config: ServiceConfig, i: int) -> bool {
    &&& config.name@ == registry()[i].name@
    &&& config.enabled
    &&& config.ip is None
    &&& config.port == match registry()[i].tcp_frontend {
        Some(frontend) => Some(frontend.default_port),
        None => None,
    }
}

/// Every service of the registry, as it is by default.
pub fn default_services() -> (all: Vec<ServiceConfig>)
    ensures
        all@.len() == registry().len(),
        forall|i: int| 0 <= i < all@.len() ==> is_default_service(#[trigger] all@[i], i),
{
    let known: [Service; 6] = services();
    let mut all: Vec<ServiceConfig> = Vec::new();
    let mut i: usize = 0;
    while i < 6
        invariant
            i <= 6,
            known@ == registry(),
            all@.len() == i,
            forall|j: int| 0 <= j < i ==> is_default_service(#[trigger] all@[j], j),
        decreases 6 - i,
    {
        let service: Service = known[i];
        let port: Option<u16> = match service.tcp_frontend {
            Some(frontend) => Some(frontend.default_port),
            None => None,
        };
        all.push(ServiceConfig { name: service.name.to_owned(), enabled: true, ip: None, port });
        i = i + 1;
    }
    all
}

impl Config {
    /// The configuration that is written where none is found: every service
    /// on the loopback address, logging at the default level and to no file.
    pub fn default(debugging: bool) -> (config: Config)
        ensures
            config.ip@ == "127.0.0.1"@,
            config.log.level@ == if debugging {
                "DEBUG"@
            } else {
                "INFO"@
            },
            config.log.file is None,
            config.services@.len() == registry().len(),
            forall|i: int|
                0 <= i < config.services@.len() ==> is_default_service(
                    #[trigger] config.services@[i],
                    i,
                ),
    {
        Config {
            ip: "127.0.0.1".to_owned(),
            log: Log { level: default_log_level(debugging), file: None },
            services: default_services(),
        }
    }

    /// The level to log at: the one that the configuration names, or `Info`
    /// where it names none that is known.
    pub fn log_level(&self) -> (level: Level)
        ensures
            level == match level_named(uppercase(self.log.level@)) {
                Some(l) => l,
                None => Level::Info,
            },
    {
        match Level::try_from(self.log.level.as_str()) {
            Ok(level) => level,
            Err(_) => Level::Info,
        }
    }

    pub fn log_file(&self) -> (file: Option<&String>)
        ensures
            file == match self.log.file {
                Some(f) => Some(&f),
                None => None,
            },
    {
        self.log.file.as_ref()
    }

    /// Where a service of the configuration listens: on its own address or
    /// that of the configuration, and on its own port or that of the
    /// service. A name that the registry does not know, or a service
    /// without any port, is an error that holds the name.
    pub fn endpoint(&self, service: &ServiceConfig) -> (r: Result<Endpoint, Error>)
        ensures
            match lookup_spec(encode_utf8(service.name@)) {
                None => r matches Err(Error::UnknownService(name)) && name@ == service.name@,
                Some(known) => match (service.port, known.tcp_frontend) {
                    (None, None) => r matches Err(Error::UnknownService(name)) && name@
                        == known.name@,
                    (port, frontend) => {
                        &&& r is Ok
                        &&& r->Ok_0.service == known
                        &&& r->Ok_0.ip@ == match service.ip {
                            Some(ip) => ip@,
                            None => self.ip@,
                        }
                        &&& r->Ok_0.port == match port {
                            Some(p) => p,
                            None => frontend->Some_0.default_port,
                        }
                    },
                },
            },
    {
        let ip: String = match &service.ip {
            Some(ip) => ip.clone(),
            None => self.ip.clone(),
        };
        let known: Service = match lookup(service.name.as_str()) {
            Some(known) => known,
            None => {
                return Err(Error::UnknownService(service.name.clone()));
            },
        };
        let port: u16 = match service.port {
            Some(port) => port,
            None => match known.tcp_frontend {
                Some(frontend) => frontend.default_port,
                None => {
                    return Err(Error::UnknownService(known.name.to_owned()));
                },
            },
        };
        Ok(Endpoint { service: known, ip, port })
    }
}

} // verus!
