//! The services of the local stack and their observable states.

use vstd::prelude::*;

verus! {

/// A service of the local web stack.
#[derive(Debug, Clone, Copy, PartialEq, Eq, Hash, Structural)]
pub enum ServiceType {
    Caddy,
    PhpFpm,
    MySQL,
    PostgreSQL,
}

/// The port a service listens on when settings say nothing else.
pub open spec fn default_port_of(t: ServiceType) -> u16 {
    match t {
        ServiceType::Caddy => 8080,
        ServiceType::PhpFpm => 9000,
        ServiceType::MySQL => 3306,
        ServiceType::PostgreSQL => 5432,
    }
}

pub open spec fn display_name_of(t: ServiceType) -> Seq<char> {
    match t {
        ServiceType::Caddy => "Caddy"@,
        ServiceType::PhpFpm => "PHP-FPM 8.5"@,
        ServiceType::MySQL => "MySQL"@,
        ServiceType::PostgreSQL => "PostgreSQL"@,
    }
}

pub open spec fn description_of(t: ServiceType) -> Seq<char> {
    match t {
        ServiceType::Caddy => "Web Server"@,
        ServiceType::PhpFpm => "PHP Runtime"@,
        ServiceType::MySQL => "Database Server"@,
        ServiceType::PostgreSQL => "Database Server"@,
    }
}

pub open spec fn binary_name_of(t: ServiceType) -> Seq<char> {
    match t {
        ServiceType::Caddy => "caddy"@,
        ServiceType::PhpFpm => "php-cgi"@,
        ServiceType::MySQL => "mysqld"@,
        ServiceType::PostgreSQL => "postgres"@,
    }
}

impl ServiceType {
    pub fn default_port(&self) -> (p: u16)
        ensures
            p == default_port_of(*self),
    {
        match self {
            ServiceType::Caddy => 8080,
            ServiceType::PhpFpm => 9000,
            ServiceType::MySQL => 3306,
            ServiceType::PostgreSQL => 5432,
        }
    }

    pub fn display_name(&self) -> (s: &'static str)
        ensures
            s@ == display_name_of(*self),
    {
        match self {
            ServiceType::Caddy => "Caddy",
            ServiceType::PhpFpm => "PHP-FPM 8.5",
            ServiceType::MySQL => "MySQL",
            ServiceType::PostgreSQL => "PostgreSQL",
        }
    }

    pub fn description(&self) -> (s: &'static str)
        ensures
            s@ == description_of(*self),
    {
        match self {
            ServiceType::Caddy => "Web Server",
            ServiceType::PhpFpm => "PHP Runtime",
            ServiceType::MySQL => "Database Server",
            ServiceType::PostgreSQL => "Database Server",
        }
    }

    pub fn binary_name(&self) -> (s: &'static str)
        ensures
            s@ == binary_name_of(*self),
    {
        match self {
            ServiceType::Caddy => "caddy",
            ServiceType::PhpFpm => "php-cgi",
            ServiceType::MySQL => "mysqld",
            ServiceType::PostgreSQL => "postgres",
        }
    }
}

/// The lifecycle state of a service.
#[derive(Debug, Clone, Copy, PartialEq, Eq, Structural)]
pub enum ServiceState {
    Stopped,
    Starting,
    Running,
    Stopping,
    Error,
}

impl ServiceState {
    pub fn is_running(&self) -> (b: bool)
        ensures
            b == (*self == ServiceState::Running),
    {
        match self {
            ServiceState::Running => true,
            _ => false,
        }
    }

    pub fn is_transitioning(&self) -> (b: bool)
        ensures
            b == (*self == ServiceState::Starting || *self == ServiceState::Stopping),
    {
        match self {
            ServiceState::Starting => true,
            ServiceState::Stopping => true,
            _ => false,
        }
    }
}

/// What the user interface is told about one service.
#[derive(Debug, Clone)]
pub struct ServiceInfo {
    pub service_type: ServiceType,
    pub state: ServiceState,
    pub port: u16,
    pub error_message: Option<String>,
}

impl ServiceInfo {
    pub fn new(service_type: ServiceType) -> (info: ServiceInfo)
        ensures
            info.service_type == service_type,
            info.state == ServiceState::Stopped,
            info.port == default_port_of(service_type),
            info.error_message is None,
    {
        ServiceInfo {
            port: service_type.default_port(),
            service_type,
            state: ServiceState::Stopped,
            error_message: None,
        }
    }
}

/// Service statuses keyed by service.
pub type ServiceMap = std::collections::HashMap<ServiceType, ServiceInfo>;

/// No two services share a default port.
pub proof fn lemma_default_ports_distinct(a: ServiceType, b: ServiceType)
    requires
        a != b,
    ensures
        default_port_of(a) != default_port_of(b),
{
}

} // verus!
