//! The process manager: the state of the four services and the decisions
//! taken when they are started, stopped and watched.
//!
//! Spawning, signalling and waiting are done by the caller; the manager says
//! what to do and records what came of it.

use vstd::prelude::*;
use crate::constants::{default_port_release_timeout, mysql_port_release_timeout, Timeout};
use crate::locator::RuntimePaths;
use crate::ports::{
    no_port_message, probe_said, search_outcome, select_available_port, select_caddy_port,
};
use crate::service::{display_name_of, ServiceInfo, ServiceMap, ServiceState, ServiceType};
use crate::settings::AppSettings;
use crate::text::{decimal, push_chars, push_decimal, push_str, starts_with, starts_with_chars, chars_of};

verus! {

broadcast use vstd::string::group_string_axioms;

/// The services, in the order the manager keeps them.
pub open spec fn all_services() -> Seq<ServiceType> {
    seq![ServiceType::Caddy, ServiceType::PhpFpm, ServiceType::MySQL, ServiceType::PostgreSQL]
}

/// The position of a service in [`all_services`].
pub open spec fn index_of(t: ServiceType) -> int {
    match t {
        ServiceType::Caddy => 0,
        ServiceType::PhpFpm => 1,
        ServiceType::MySQL => 2,
        ServiceType::PostgreSQL => 3,
    }
}

fn position(t: ServiceType) -> (i: usize)
    ensures
        i == index_of(t),
{
    match t {
        ServiceType::Caddy => 0,
        ServiceType::PhpFpm => 1,
        ServiceType::MySQL => 2,
        ServiceType::PostgreSQL => 3,
    }
}

/// The port the settings give a service.
pub open spec fn settings_port(s: AppSettings, t: ServiceType) -> u16 {
    match t {
        ServiceType::Caddy => s.web_port,
        ServiceType::PhpFpm => s.php_port,
        ServiceType::MySQL => s.mysql_port,
        ServiceType::PostgreSQL => s.postgresql_port,
    }
}

/// The settings with the port of one service replaced.
pub open spec fn with_port(s: AppSettings, t: ServiceType, port: u16) -> AppSettings {
    match t {
        ServiceType::Caddy => AppSettings { web_port: port, ..s },
        ServiceType::PhpFpm => AppSettings { php_port: port, ..s },
        ServiceType::MySQL => AppSettings { mysql_port: port, ..s },
        ServiceType::PostgreSQL => AppSettings { postgresql_port: port, ..s },
    }
}

/// A service as the manager tracks it.
#[derive(Debug)]
pub struct ServiceProcess {
    pub name: ServiceType,
    /// A child process started by this application runs the service.
    pub has_child: bool,
    pub state: ServiceState,
    pub port: u16,
    /// Path to the log file of the service.
    pub log_file: Option<String>,
    /// Error message where the service is in error.
    pub error_message: Option<String>,
    /// A process found running, adopted in place of a child.
    pub external_pid: Option<u32>,
}

impl ServiceProcess {
    fn stopped(name: ServiceType, port: u16) -> (s: ServiceProcess)
        ensures
            s == (ServiceProcess {
                name,
                has_child: false,
                state: ServiceState::Stopped,
                port,
                log_file: None,
                error_message: None,
                external_pid: None,
            }),
    {
        ServiceProcess {
            name,
            has_child: false,
            state: ServiceState::Stopped,
            port,
            log_file: None,
            error_message: None,
            external_pid: None,
        }
    }
}

/// The process manager of the local stack.
pub struct ProcessManager {
    services: Vec<ServiceProcess>,
    runtime_paths: Option<RuntimePaths>,
    settings: AppSettings,
}

impl ProcessManager {
    /// Each service sits in its slot.
    pub closed spec fn wf(&self) -> bool {
        &&& self.services.len() == 4
        &&& forall|i: int| 0 <= i < 4 ==> #[trigger] self.services@[i].name == all_services()[i]
    }

    /// What the manager records of a service.
    pub closed spec fn slot(&self, t: ServiceType) -> ServiceProcess {
        self.services@[index_of(t)]
    }

    /// The settings the manager works with.
    pub closed spec fn current_settings(&self) -> AppSettings {
        self.settings
    }

    /// The runtime paths, once located.
    pub closed spec fn paths(&self) -> Option<RuntimePaths> {
        self.runtime_paths
    }

    /// The port the settings give a service.
    pub fn port_for_service(service_type: ServiceType, settings: &AppSettings) -> (p: u16)
        ensures
            p == settings_port(*settings, service_type),
    {
        match service_type {
            ServiceType::Caddy => settings.web_port,
            ServiceType::PhpFpm => settings.php_port,
            ServiceType::MySQL => settings.mysql_port,
            ServiceType::PostgreSQL => settings.postgresql_port,
        }
    }

    /// A manager with every service stopped on the port its settings give it.
    pub fn with_settings(settings: AppSettings) -> (m: ProcessManager)
        ensures
            m.wf(),
            m.current_settings() == settings,
            m.paths() is None,
            forall|t: ServiceType|
                #[trigger] m.slot(t) == (ServiceProcess {
                    name: t,
                    has_child: false,
                    state: ServiceState::Stopped,
                    port: settings_port(settings, t),
                    log_file: None,
                    error_message: None,
                    external_pid: None,
                }),
    {
        let mut services: Vec<ServiceProcess> = Vec::new();
        services.push(
            ServiceProcess::stopped(
                ServiceType::Caddy,
                Self::port_for_service(ServiceType::Caddy, &settings),
            ),
        );
        services.push(
            ServiceProcess::stopped(
                ServiceType::PhpFpm,
                Self::port_for_service(ServiceType::PhpFpm, &settings),
            ),
        );
        services.push(
            ServiceProcess::stopped(
                ServiceType::MySQL,
                Self::port_for_service(ServiceType::MySQL, &settings),
            ),
        );
        services.push(
            ServiceProcess::stopped(
                ServiceType::PostgreSQL,
                Self::port_for_service(ServiceType::PostgreSQL, &settings),
            ),
        );
        let m = ProcessManager { services, runtime_paths: None, settings };
        assert forall|t: ServiceType|
            #[trigger] m.slot(t) == (ServiceProcess {
                name: t,
                has_child: false,
                state: ServiceState::Stopped,
                port: settings_port(settings, t),
                log_file: None,
                error_message: None,
                external_pid: None,
            }) by {
            match t {
                ServiceType::Caddy => {},
                ServiceType::PhpFpm => {},
                ServiceType::MySQL => {},
                ServiceType::PostgreSQL => {},
            }
        }
        m
    }

    /// The number of services managed.
    pub fn service_count(&self) -> (n: usize)
        requires
            self.wf(),
        ensures
            n == 4,
    {
        self.services.len()
    }

    /// The state of a service.
    pub fn status(&self, service: ServiceType) -> (s: ServiceState)
        requires
            self.wf(),
        ensures
            s == self.slot(service).state,
    {
        self.services[position(service)].state
    }

    /// The port of a service.
    pub fn port(&self, service: ServiceType) -> (p: u16)
        requires
            self.wf(),
        ensures
            p == self.slot(service).port,
    {
        self.services[position(service)].port
    }

    /// Whether a child process runs the service.
    pub fn has_child(&self, service: ServiceType) -> (b: bool)
        requires
            self.wf(),
        ensures
            b == self.slot(service).has_child,
    {
        self.services[position(service)].has_child
    }

    /// The process adopted for a service, where there is one.
    pub fn adopted_pid(&self, service: ServiceType) -> (p: Option<u32>)
        requires
            self.wf(),
        ensures
            p == self.slot(service).external_pid,
    {
        self.services[position(service)].external_pid
    }

    /// The log file of a service, where it has one.
    pub fn log_file(&self, service: ServiceType) -> (p: Option<String>)
        requires
            self.wf(),
        ensures
            p == self.slot(service).log_file,
    {
        crate::packages::copy_opt(&self.services[position(service)].log_file)
    }

    /// The error message of a service, where it has one.
    pub fn error_message(&self, service: ServiceType) -> (p: Option<String>)
        requires
            self.wf(),
        ensures
            p == self.slot(service).error_message,
    {
        crate::packages::copy_opt(&self.services[position(service)].error_message)
    }

    /// The settings the manager works with.
    pub fn settings(&self) -> (s: AppSettings)
        ensures
            s == self.current_settings(),
    {
        self.settings.duplicate()
    }

    /// The runtime paths, once located.
    pub fn runtime_paths(&self) -> (p: &Option<RuntimePaths>)
        ensures
            *p == self.paths(),
    {
        &self.runtime_paths
    }

    /// Records the located runtime paths.
    pub fn set_runtime_paths(&mut self, paths: RuntimePaths)
        requires
            old(self).wf(),
        ensures
            final(self).wf(),
            final(self).paths() == Some(paths),
            final(self).current_settings() == old(self).current_settings(),
            forall|t: ServiceType| #[trigger] final(self).slot(t) == old(self).slot(t),
    {
        self.runtime_paths = Some(paths);
    }

    /// Gives a service a new port, in its slot and in the settings.
    pub fn set_runtime_port(&mut self, service_type: ServiceType, port: u16)
        requires
            old(self).wf(),
        ensures
            final(self).wf(),
            final(self).current_settings() == with_port(old(self).current_settings(), service_type, port),
            final(self).slot(service_type) == (ServiceProcess { port, ..old(self).slot(service_type) }),
            forall|t: ServiceType| t != service_type ==> #[trigger] final(self).slot(t) == old(self).slot(t),
            final(self).paths() == old(self).paths(),
    {
        match service_type {
            ServiceType::Caddy => self.settings.web_port = port,
            ServiceType::PhpFpm => self.settings.php_port = port,
            ServiceType::MySQL => self.settings.mysql_port = port,
            ServiceType::PostgreSQL => self.settings.postgresql_port = port,
        }
        let i = position(service_type);
        let ghost before = self.services@;
        self.services[i].port = port;
        assert forall|t: ServiceType| t != service_type implies #[trigger] self.slot(t) == old(self).slot(t) by {
            assert(index_of(t) != index_of(service_type));
        }
    }

    /// The ports of the other services, in the manager's order.
    pub fn reserved_ports_except(&self, service_type: ServiceType) -> (r: Vec<u16>)
        requires
            self.wf(),
        ensures
            r@ == self.reserved_for(service_type),
    {
        let c = self.services[0].port;
        let p = self.services[1].port;
        let m = self.services[2].port;
        let g = self.services[3].port;
        match service_type {
            ServiceType::Caddy => vec![p, m, g],
            ServiceType::PhpFpm => vec![c, m, g],
            ServiceType::MySQL => vec![c, p, g],
            ServiceType::PostgreSQL => vec![c, p, m],
        }
    }

    /// The ports of the services other than `t`, in the manager's order.
    pub open spec fn reserved_for(&self, t: ServiceType) -> Seq<u16> {
        let c = self.slot(ServiceType::Caddy).port;
        let p = self.slot(ServiceType::PhpFpm).port;
        let m = self.slot(ServiceType::MySQL).port;
        let g = self.slot(ServiceType::PostgreSQL).port;
        match t {
            ServiceType::Caddy => seq![p, m, g],
            ServiceType::PhpFpm => seq![c, m, g],
            ServiceType::MySQL => seq![c, p, g],
            ServiceType::PostgreSQL => seq![c, p, m],
        }
    }

    /// The web server port.
    pub fn web_port(&self) -> (p: u16)
        requires
            self.wf(),
        ensures
            p == self.slot(ServiceType::Caddy).port,
    {
        self.port(ServiceType::Caddy)
    }

    /// The PHP FastCGI port.
    pub fn php_port(&self) -> (p: u16)
        requires
            self.wf(),
        ensures
            p == self.slot(ServiceType::PhpFpm).port,
    {
        self.port(ServiceType::PhpFpm)
    }

    /// The MySQL port.
    pub fn mysql_port(&self) -> (p: u16)
        requires
            self.wf(),
        ensures
            p == self.slot(ServiceType::MySQL).port,
    {
        self.port(ServiceType::MySQL)
    }

    /// The PostgreSQL port.
    pub fn postgresql_port(&self) -> (p: u16)
        requires
            self.wf(),
        ensures
            p == self.slot(ServiceType::PostgreSQL).port,
    {
        self.port(ServiceType::PostgreSQL)
    }

    /// Takes new settings; every service moves to the port they give it.
    pub fn update_ports(&mut self, settings: &AppSettings)
        requires
            old(self).wf(),
        ensures
            final(self).wf(),
            final(self).current_settings() == *settings,
            forall|t: ServiceType|
                #[trigger] final(self).slot(t) == (ServiceProcess {
                    port: settings_port(*settings, t),
                    ..old(self).slot(t)
                }),
            final(self).paths() == old(self).paths(),
    {
        self.settings = settings.duplicate();
        self.services[0].port = settings.web_port;
        self.services[1].port = settings.php_port;
        self.services[2].port = settings.mysql_port;
        self.services[3].port = settings.postgresql_port;
        assert forall|t: ServiceType|
            #[trigger] self.slot(t) == (ServiceProcess {
                port: settings_port(*settings, t),
                ..old(self).slot(t)
            }) by {
            match t {
                ServiceType::Caddy => {},
                ServiceType::PhpFpm => {},
                ServiceType::MySQL => {},
                ServiceType::PostgreSQL => {},
            }
        }
    }

    /// What the user interface is told about a service.
    pub fn info(&self, service: ServiceType) -> (i: ServiceInfo)
        requires
            self.wf(),
        ensures
            i.service_type == service,
            i.state == self.slot(service).state,
            i.port == self.slot(service).port,
            i.error_message == self.slot(service).error_message,
    {
        ServiceInfo {
            service_type: service,
            state: self.status(service),
            port: self.port(service),
            error_message: self.error_message(service),
        }
    }

    /// What the user interface is told about each service, in the manager's order.
    pub fn statuses(&self) -> (v: Vec<ServiceInfo>)
        requires
            self.wf(),
        ensures
            v.len() == 4,
            forall|i: int|
                0 <= i < 4 ==> {
                    let t = #[trigger] all_services()[i];
                    &&& v@[i].service_type == t
                    &&& v@[i].state == self.slot(t).state
                    &&& v@[i].port == self.slot(t).port
                    &&& v@[i].error_message == self.slot(t).error_message
                },
    {
        let mut v: Vec<ServiceInfo> = Vec::new();
        v.push(self.info(ServiceType::Caddy));
        v.push(self.info(ServiceType::PhpFpm));
        v.push(self.info(ServiceType::MySQL));
        v.push(self.info(ServiceType::PostgreSQL));
        v
    }

    /// Get all service statuses, keyed by service.
    pub fn get_all_statuses(&self) -> (m: ServiceMap)
        requires
            self.wf(),
        ensures
            vstd::std_specs::hash::obeys_key_model::<ServiceType>()
                && vstd::std_specs::hash::builds_valid_hashers::<std::hash::RandomState>() ==> {
                &&& m@.dom().len() == 4
                &&& forall|t: ServiceType|
                    #[trigger] m@.contains_key(t) && m@[t].service_type == t && m@[t].state == self.slot(
                        t,
                    ).state && m@[t].port == self.slot(t).port && m@[t].error_message == self.slot(
                        t,
                    ).error_message
            },
    {
        let mut m: ServiceMap = std::collections::HashMap::new();
        m.insert(ServiceType::Caddy, self.info(ServiceType::Caddy));
        m.insert(ServiceType::PhpFpm, self.info(ServiceType::PhpFpm));
        m.insert(ServiceType::MySQL, self.info(ServiceType::MySQL));
        m.insert(ServiceType::PostgreSQL, self.info(ServiceType::PostgreSQL));
        proof {
            if vstd::std_specs::hash::obeys_key_model::<ServiceType>()
                && vstd::std_specs::hash::builds_valid_hashers::<std::hash::RandomState>() {
                assert(m@.dom() =~= set![
                    ServiceType::Caddy,
                    ServiceType::PhpFpm,
                    ServiceType::MySQL,
                    ServiceType::PostgreSQL,
                ]);
                assert forall|t: ServiceType|
                    #[trigger] m@.contains_key(t) && m@[t].service_type == t && m@[t].state
                        == self.slot(t).state && m@[t].port == self.slot(t).port
                        && m@[t].error_message == self.slot(t).error_message by {
                    match t {
                        ServiceType::Caddy => {},
                        ServiceType::PhpFpm => {},
                        ServiceType::MySQL => {},
                        ServiceType::PostgreSQL => {},
                    }
                }
            }
        }
        m
    }
}

/// The message recorded when a service moves to a fallback port.
pub open spec fn fallback_message(t: ServiceType, current: u16, selected: u16) -> Seq<char> {
    display_name_of(t) + " port "@ + decimal(current as nat) + " is in use; using fallback port "@
        + decimal(selected as nat) + "."@
}

/// The port chosen for a service about to start, as the port searches of
/// [`crate::ports`] state it; for the web server stale processes may be
/// stopped first (`stop_stale`).
pub open spec fn port_choice<F: Fn(u16) -> bool, G: FnOnce() -> Result<usize, String>>(
    t: ServiceType,
    preferred: u16,
    reserved: Seq<u16>,
    probe: F,
    stop_stale: G,
    r: Result<u16, String>,
) -> bool {
    if t == ServiceType::Caddy {
        match r {
            Ok(p) => (p == preferred && !reserved.contains(p) && probe_said(probe, p, true))
                || search_outcome(probe, t, preferred, reserved, Some(p)),
            Err(e) => call_ensures(stop_stale, (), Err(e)) || (search_outcome(
                probe,
                t,
                preferred,
                reserved,
                None,
            ) && e@ == no_port_message(t, preferred)),
        }
    } else {
        match r {
            Ok(p) => search_outcome(probe, t, preferred, reserved, Some(p)),
            Err(e) => search_outcome(probe, t, preferred, reserved, None) && e@ == no_port_message(
                t,
                preferred,
            ),
        }
    }
}

/// The port chosen for a service other than the web server, as the port
/// searches of [`crate::ports`] state it.
pub open spec fn plain_port_choice<F: Fn(u16) -> bool>(
    t: ServiceType,
    preferred: u16,
    reserved: Seq<u16>,
    probe: F,
    r: Result<u16, String>,
) -> bool {
    match r {
        Ok(p) => search_outcome(probe, t, preferred, reserved, Some(p)),
        Err(e) => search_outcome(probe, t, preferred, reserved, None) && e@ == no_port_message(t, preferred),
    }
}

/// What preparing the port of service `t` does to the manager (`before` to
/// `after`) and answers (`r`), where `chosen` says which port choices the
/// search may make: a running service keeps its port; otherwise a failed
/// search changes nothing, and a found port other than the current one moves
/// the service there, records the fallback message and answers it.
pub open spec fn port_step(
    t: ServiceType,
    before: ProcessManager,
    after: ProcessManager,
    r: Result<Option<String>, String>,
    chosen: spec_fn(Result<u16, String>) -> bool,
) -> bool {
    &&& others_unchanged(after, before, t)
    &&& if before.slot(t).state == ServiceState::Running {
        r == Ok::<Option<String>, String>(None) && after == before
    } else {
        match r {
            Err(e) => after == before && chosen(Err(e)),
            Ok(msg) => {
                let cur = before.slot(t).port;
                let port = after.slot(t).port;
                &&& chosen(Ok(port))
                &&& after.slot(t).state == before.slot(t).state
                &&& after.slot(t).has_child == before.slot(t).has_child
                &&& after.slot(t).external_pid == before.slot(t).external_pid
                &&& after.slot(t).log_file == before.slot(t).log_file
                &&& if port == cur {
                    &&& msg is None
                    &&& after == before
                } else {
                    &&& msg matches Some(m) && m@ == fallback_message(t, cur, port)
                    &&& after.slot(t).error_message matches Some(e) && e@ == fallback_message(t, cur, port)
                    &&& after.current_settings() == with_port(before.current_settings(), t, port)
                }
            },
        }
    }
}

/// The messages of an optional message.
pub open spec fn opt_messages(m: Option<String>) -> Seq<String> {
    match m {
        Some(x) => seq![x],
        None => Seq::empty(),
    }
}

/// Preparing the stack's ports went through the states `before`, `s1`,
/// `s2`, `after`: PHP first, then the database server `db`, then the web
/// server, each step as [`port_step`] says; the first failure is the answer,
/// else the messages of the services that moved, in that order.
pub open spec fn stack_chain<F: Fn(u16) -> bool, G: FnOnce() -> Result<usize, String>>(
    db: ServiceType,
    probe: F,
    stop_stale: G,
    before: ProcessManager,
    s1: ProcessManager,
    s2: ProcessManager,
    after: ProcessManager,
    r1: Result<Option<String>, String>,
    r2: Result<Option<String>, String>,
    r3: Result<Option<String>, String>,
    r: Result<Vec<String>, String>,
) -> bool {
    &&& port_step(
        ServiceType::PhpFpm,
        before,
        s1,
        r1,
        |x: Result<u16, String>|
            plain_port_choice(
                ServiceType::PhpFpm,
                before.slot(ServiceType::PhpFpm).port,
                before.reserved_for(ServiceType::PhpFpm),
                probe,
                x,
            ),
    )
    &&& match r1 {
        Err(e) => after == s1 && r == Err::<Vec<String>, String>(e),
        Ok(m1) => {
            &&& port_step(
                db,
                s1,
                s2,
                r2,
                |x: Result<u16, String>| plain_port_choice(db, s1.slot(db).port, s1.reserved_for(db), probe, x),
            )
            &&& match r2 {
                Err(e) => after == s2 && r == Err::<Vec<String>, String>(e),
                Ok(m2) => {
                    &&& port_step(
                        ServiceType::Caddy,
                        s2,
                        after,
                        r3,
                        |x: Result<u16, String>|
                            port_choice(
                                ServiceType::Caddy,
                                s2.slot(ServiceType::Caddy).port,
                                s2.reserved_for(ServiceType::Caddy),
                                probe,
                                stop_stale,
                                x,
                            ),
                    )
                    &&& match r3 {
                        Err(e) => r == Err::<Vec<String>, String>(e),
                        Ok(m3) => r matches Ok(v) && v@ == opt_messages(m1) + opt_messages(m2) + opt_messages(m3),
                    }
                },
            }
        },
    }
}

/// What preparing the stack's ports may do: some run of [`stack_chain`].
pub open spec fn stack_ports_prepared<F: Fn(u16) -> bool, G: FnOnce() -> Result<usize, String>>(
    db: ServiceType,
    probe: F,
    stop_stale: G,
    before: ProcessManager,
    after: ProcessManager,
    r: Result<Vec<String>, String>,
) -> bool {
    exists|
        s1: ProcessManager,
        s2: ProcessManager,
        r1: Result<Option<String>, String>,
        r2: Result<Option<String>, String>,
        r3: Result<Option<String>, String>,
    | #[trigger] stack_chain(db, probe, stop_stale, before, s1, s2, after, r1, r2, r3, r)
}

/// What starting a service needs done next.
pub enum StartPlan {
    /// The service already runs; nothing to do.
    AlreadyRunning,
    /// Launch the service on `port`; the other ports are those the services
    /// have now. Where the service moved to a fallback port, the message to
    /// append to the port fallback log.
    Launch {
        port: u16,
        web_port: u16,
        php_port: u16,
        mysql_port: u16,
        postgresql_port: u16,
        fallback_message: Option<String>,
    },
}

/// What came of launching a service.
pub enum Attachment {
    /// A child process was started; it logs to `log_file`.
    Child { log_file: String },
    /// A process already running was adopted.
    Adopted { pid: u32, log_file: String },
}

/// What follows the stop of a service's processes.
#[derive(Debug, Clone, Copy, PartialEq, Eq, Structural)]
pub enum StopCleanup {
    /// Nothing more.
    Nothing,
    /// Stop every MySQL process of this runtime.
    MySql,
    /// Stop every PostgreSQL process of this runtime.
    PostgreSql,
    /// Stop every web server process of this runtime.
    Caddy,
}

/// What stopping a service needs done.
pub enum StopPlan {
    /// The service does not run; nothing to do.
    NotRunning,
    /// Kill the child where there is one, terminate the adopted process,
    /// clean up, then wait up to the timeout for the port to be released.
    Stop { kill_child: bool, terminate_pid: Option<u32>, cleanup: StopCleanup, wait: Option<(u16, Timeout)> },
}

/// How a service that ended is described.
pub struct ExitStatusInfo {
    /// The exit code, where the process exited.
    pub code: Option<i32>,
    /// The signal, where a signal ended it.
    pub signal: Option<i32>,
    /// The debug rendering of the status.
    pub debug: String,
}

/// What a health check found.
pub enum HealthObservation {
    /// The child process has exited; the content of its log file where it
    /// could be read.
    ChildExited { status: ExitStatusInfo, log_content: Option<String> },
    /// The child process still runs.
    ChildRunning,
    /// The child process could not be asked.
    ChildCheckFailed,
    /// The adopted process still exists.
    AdoptedAlive,
    /// The adopted process is gone.
    AdoptedGone,
}

/// What a health check of a service looks at.
#[derive(Debug, Clone, Copy, PartialEq, Eq, Structural)]
pub enum HealthProbe {
    Child,
    Adopted(u32),
    Nothing,
}

/// The text of an exit status.
pub open spec fn exit_status_text(code: Option<i32>, signal: Option<i32>, debug: Seq<char>) -> Seq<char> {
    match code {
        Some(c) => "exit code "@ + crate::text::signed_decimal(c as int),
        None => match signal {
            Some(g) => "signal "@ + crate::text::signed_decimal(g as int),
            None => debug,
        },
    }
}

/// The text of an exit status: the exit code, else the signal, else its
/// debug rendering.
pub fn format_exit_status(status: &ExitStatusInfo) -> (s: String)
    ensures
        s@ == exit_status_text(status.code, status.signal, status.debug@),
{
    let mut s = String::new();
    match status.code {
        Some(c) => {
            push_str(&mut s, "exit code ");
            push_chars(&mut s, crate::text::signed_decimal_chars(c as i64).as_slice());
        },
        None => match status.signal {
            Some(g) => {
                push_str(&mut s, "signal ");
                push_chars(&mut s, crate::text::signed_decimal_chars(g as i64).as_slice());
            },
            None => {
                push_str(&mut s, status.debug.as_str());
            },
        },
    }
    s
}

/// The texts of a list of lines.
pub open spec fn line_views(v: Seq<Vec<char>>) -> Seq<Seq<char>> {
    v.map_values(|w: Vec<char>| w@)
}

/// The last `max` lines of a log, joined, trimmed; none where that is empty.
pub open spec fn log_tail(content: Seq<char>, max: nat) -> Option<Seq<char>> {
    let ls = crate::text::lines(content);
    let start = if ls.len() > max {
        ls.len() - max
    } else {
        0
    };
    let t = crate::text::trim(crate::text::join(ls.skip(start), "\n"@));
    if t.len() == 0 {
        None
    } else {
        Some(t)
    }
}

/// The last `max_lines` lines of a log.
pub fn read_log_tail(content: &str, max_lines: usize) -> (r: Option<String>)
    ensures
        match log_tail(content@, max_lines as nat) {
            Some(t) => r matches Some(x) && x@ == t,
            None => r is None,
        },
{
    let c = chars_of(content);
    let ls = crate::text::lines_of(c.as_slice());
    assert(line_views(ls@) == crate::text::lines(c@));
    let start = if ls.len() > max_lines {
        ls.len() - max_lines
    } else {
        0
    };
    let mut tail: Vec<Vec<char>> = Vec::new();
    let mut i = start;
    while i < ls.len()
        invariant
            start <= i <= ls.len(),
            line_views(tail@) == line_views(ls@).subrange(start as int, i as int),
        decreases ls.len() - i,
    {
        let ghost before = tail@;
        let line = crate::text::slice_of(ls[i].as_slice(), 0, ls[i].len());
        assert(line@ =~= ls@[i as int]@);
        tail.push(line);
        assert(tail@ =~= before.push(line));
        assert(line_views(before.push(line)) =~= line_views(before).push(line@));
        assert(line_views(ls@)[i as int] == ls@[i as int]@);
        assert(line_views(ls@).subrange(start as int, i + 1) =~= line_views(ls@).subrange(start as int, i as int).push(ls@[i as int]@));
        assert(line_views(tail@) =~= line_views(ls@).subrange(start as int, i + 1));
        i = i + 1;
    }
    assert(line_views(ls@).subrange(start as int, ls.len() as int) =~= crate::text::lines(c@).skip(start as int));
    assert(line_views(tail@) == tail@.map_values(|p: Vec<char>| p@));
    let nl = chars_of("\n");
    let joined = crate::text::join_chars(&tail, nl.as_slice());
    let t = crate::text::trim_chars(joined.as_slice());
    if t.len() == 0 {
        None
    } else {
        Some(crate::text::string_from_chars(t.as_slice()))
    }
}

/// The message of a process that exited: the summary, the exit status, the
/// log file, and the last lines of the log where there are any.
pub open spec fn process_exit_error(
    summary: Seq<char>,
    status: Seq<char>,
    log_path: Option<Seq<char>>,
    log_content: Option<Seq<char>>,
) -> Seq<char> {
    summary + " ("@ + status + ")"@ + match log_path {
        Some(p) => "\nLog file: "@ + p + match log_content {
            Some(c) => match log_tail(c, 40) {
                Some(t) => "\nLast log lines:\n"@ + t,
                None => Seq::empty(),
            },
            None => Seq::empty(),
        },
        None => Seq::empty(),
    }
}

/// The text of an optional string.
pub open spec fn opt_str(o: Option<String>) -> Option<Seq<char>> {
    match o {
        Some(s) => Some(s@),
        None => None,
    }
}

/// The message of a process that exited (see [`process_exit_error`]); the
/// log content is that of `log_path`, where it could be read.
pub fn format_process_exit_error(
    summary: &str,
    status: &ExitStatusInfo,
    log_path: &Option<String>,
    log_content: &Option<String>,
) -> (m: String)
    ensures
        m@ == process_exit_error(
            summary@,
            exit_status_text(status.code, status.signal, status.debug@),
            opt_str(*log_path),
            opt_str(*log_content),
        ),
{
    let mut m = String::new();
    push_str(&mut m, summary);
    push_str(&mut m, " (");
    let st = format_exit_status(status);
    push_str(&mut m, st.as_str());
    push_str(&mut m, ")");
    match log_path {
        Some(p) => {
            push_str(&mut m, "\nLog file: ");
            push_str(&mut m, p.as_str());
            match log_content {
                Some(c) => match read_log_tail(c.as_str(), crate::constants::MAX_LOG_TAIL_LINES) {
                    Some(t) => {
                        push_str(&mut m, "\nLast log lines:\n");
                        push_str(&mut m, t.as_str());
                    },
                    None => {},
                },
                None => {},
            }
        },
        None => {},
    }
    assert(m@ =~= process_exit_error(
        summary@,
        exit_status_text(status.code, status.signal, status.debug@),
        opt_str(*log_path),
        opt_str(*log_content),
    ));
    m
}

/// The database server the selected database tool works with: Adminer for
/// PostgreSQL, phpMyAdmin for MySQL.
pub open spec fn active_database_spec(tool_id: Seq<char>) -> ServiceType {
    if starts_with(tool_id, "adminer"@) {
        ServiceType::PostgreSQL
    } else {
        ServiceType::MySQL
    }
}

/// The database server the selected database tool works with.
pub fn active_database_service(database_tool_id: &str) -> (t: ServiceType)
    ensures
        t == active_database_spec(database_tool_id@),
{
    let id = chars_of(database_tool_id);
    let p = chars_of("adminer");
    if starts_with_chars(id.as_slice(), p.as_slice()) {
        ServiceType::PostgreSQL
    } else {
        ServiceType::MySQL
    }
}

/// The services the stack starts, in order: PHP, the database server of the
/// selected tool, then the web server.
pub fn stack_start_services(database_tool_id: &str) -> (v: Vec<ServiceType>)
    ensures
        v@ == seq![ServiceType::PhpFpm, active_database_spec(database_tool_id@), ServiceType::Caddy],
{
    vec![ServiceType::PhpFpm, active_database_service(database_tool_id), ServiceType::Caddy]
}

fn fallback_text(service: ServiceType, current_port: u16, selected_port: u16) -> (m: String)
    ensures
        m@ == fallback_message(service, current_port, selected_port),
{
    let mut m = String::new();
    push_str(&mut m, service.display_name());
    push_str(&mut m, " port ");
    let mut d: Vec<char> = Vec::new();
    push_decimal(&mut d, current_port as u64);
    push_chars(&mut m, d.as_slice());
    push_str(&mut m, " is in use; using fallback port ");
    let mut e: Vec<char> = Vec::new();
    push_decimal(&mut e, selected_port as u64);
    push_chars(&mut m, e.as_slice());
    push_str(&mut m, ".");
    assert(m@ =~= fallback_message(service, current_port, selected_port));
    m
}

/// The other slots and the paths are as they were.
pub open spec fn others_unchanged(a: ProcessManager, b: ProcessManager, t: ServiceType) -> bool {
    &&& forall|u: ServiceType| u != t ==> #[trigger] a.slot(u) == b.slot(u)
    &&& a.paths() == b.paths()
}

impl ProcessManager {
    /// Moves a service to a fallback port and records why. Answers the
    /// message to append to the port fallback log.
    pub fn record_port_fallback(&mut self, service: ServiceType, current_port: u16, selected_port: u16) -> (m:
        String)
        requires
            old(self).wf(),
        ensures
            final(self).wf(),
            m@ == fallback_message(service, current_port, selected_port),
            final(self).current_settings() == with_port(old(self).current_settings(), service, selected_port),
            final(self).slot(service) == (ServiceProcess {
                port: selected_port,
                error_message: final(self).slot(service).error_message,
                ..old(self).slot(service)
            }),
            final(self).slot(service).error_message matches Some(e) && e@ == m@,
            others_unchanged(*final(self), *old(self), service),
    {
        let message = fallback_text(service, current_port, selected_port);
        self.set_runtime_port(service, selected_port);
        let ghost mid = *self;
        let i = position(service);
        self.services[i].error_message = Some(message.clone());
        assert forall|u: ServiceType| u != service implies #[trigger] self.slot(u) == old(self).slot(u) by {
            assert(index_of(u) != index_of(service));
            assert(self.slot(u) == mid.slot(u));
        }
        message
    }

    /// Decides how a service is started: nothing to do where it runs; else a
    /// port for it (moving it to a fallback port where its own is taken) and
    /// the state `Starting`. Fails where the runtime paths are not located
    /// or no port is found.
    pub fn prepare_start<F: Fn(u16) -> bool, G: FnOnce() -> Result<usize, String>>(
        &mut self,
        service: ServiceType,
        probe: &F,
        stop_stale: G,
    ) -> (r: Result<StartPlan, String>)
        requires
            old(self).wf(),
            forall|p: u16| call_requires(*probe, (p,)),
            call_requires(stop_stale, ()),
        ensures
            final(self).wf(),
            match r {
                Err(e) => *final(self) == *old(self) && ((old(self).paths() is None && e@
                    == "Runtime paths not initialized"@) || (old(self).paths() is Some
                    && old(self).slot(service).state != ServiceState::Running && port_choice(
                    service,
                    old(self).slot(service).port,
                    old(self).reserved_for(service),
                    *probe,
                    stop_stale,
                    Err(e),
                ))),
                Ok(StartPlan::AlreadyRunning) => *final(self) == *old(self) && old(self).paths() is Some
                    && old(self).slot(service).state == ServiceState::Running,
                Ok(
                    StartPlan::Launch {
                        port,
                        web_port,
                        php_port,
                        mysql_port,
                        postgresql_port,
                        fallback_message: msg,
                    },
                ) => {
                    let cur = old(self).slot(service).port;
                    &&& old(self).paths() is Some
                    &&& old(self).slot(service).state != ServiceState::Running
                    &&& port_choice(
                        service,
                        cur,
                        old(self).reserved_for(service),
                        *probe,
                        stop_stale,
                        Ok(port),
                    )
                    &&& final(self).slot(service).state == ServiceState::Starting
                    &&& final(self).slot(service).port == port
                    &&& final(self).slot(service).has_child == old(self).slot(service).has_child
                    &&& final(self).slot(service).external_pid == old(self).slot(service).external_pid
                    &&& final(self).slot(service).log_file == old(self).slot(service).log_file
                    &&& if port == cur {
                        &&& msg is None
                        &&& final(self).slot(service).error_message == old(self).slot(service).error_message
                        &&& final(self).current_settings() == old(self).current_settings()
                    } else {
                        &&& msg matches Some(m) && m@ == fallback_message(service, cur, port)
                        &&& final(self).slot(service).error_message matches Some(e) && e@
                            == fallback_message(service, cur, port)
                        &&& final(self).current_settings() == with_port(
                            old(self).current_settings(),
                            service,
                            port,
                        )
                    }
                    &&& others_unchanged(*final(self), *old(self), service)
                    &&& web_port == final(self).slot(ServiceType::Caddy).port
                    &&& php_port == final(self).slot(ServiceType::PhpFpm).port
                    &&& mysql_port == final(self).slot(ServiceType::MySQL).port
                    &&& postgresql_port == final(self).slot(ServiceType::PostgreSQL).port
                },
            },
    {
        if self.runtime_paths.is_none() {
            return Err("Runtime paths not initialized".to_string());
        }
        let i = position(service);
        if self.services[i].state.is_running() {
            return Ok(StartPlan::AlreadyRunning);
        }
        let current_port = self.services[i].port;
        let reserved = self.reserved_ports_except(service);
        let selected = match service {
            ServiceType::Caddy => select_caddy_port(current_port, reserved.as_slice(), probe, stop_stale),
            _ => select_available_port(service, current_port, reserved.as_slice(), probe),
        };
        let port = match selected {
            Ok(p) => p,
            Err(e) => {
                return Err(e);
            },
        };
        let ghost mid = *self;
        let fallback_message = if port != current_port {
            Some(self.record_port_fallback(service, current_port, port))
        } else {
            None
        };
        let ghost mid2 = *self;
        self.services[i].state = ServiceState::Starting;
        assert forall|u: ServiceType| u != service implies #[trigger] self.slot(u) == mid2.slot(u) by {
            assert(index_of(u) != index_of(service));
        }
        Ok(
            StartPlan::Launch {
                port,
                web_port: self.services[0].port,
                php_port: self.services[1].port,
                mysql_port: self.services[2].port,
                postgresql_port: self.services[3].port,
                fallback_message,
            },
        )
    }

    /// Records what came of launching a service: it runs with its process
    /// and log file, or it is in error with the message.
    pub fn finish_start(&mut self, service: ServiceType, outcome: Result<Attachment, String>) -> (r: Result<
        (),
        String,
    >)
        requires
            old(self).wf(),
        ensures
            final(self).wf(),
            final(self).current_settings() == old(self).current_settings(),
            others_unchanged(*final(self), *old(self), service),
            final(self).slot(service).port == old(self).slot(service).port,
            match outcome {
                Ok(Attachment::Child { log_file }) => r is Ok && final(self).slot(service) == (ServiceProcess {
                    has_child: true,
                    state: ServiceState::Running,
                    log_file: Some(log_file),
                    error_message: None,
                    ..old(self).slot(service)
                }),
                Ok(Attachment::Adopted { pid, log_file }) => r is Ok && final(self).slot(service) == (
                ServiceProcess {
                    has_child: false,
                    external_pid: Some(pid),
                    state: ServiceState::Running,
                    log_file: Some(log_file),
                    error_message: None,
                    ..old(self).slot(service)
                }),
                Err(e) => r == Err::<(), String>(e) && final(self).slot(service) == (ServiceProcess {
                    state: ServiceState::Error,
                    error_message: Some(e),
                    ..old(self).slot(service)
                }),
            },
    {
        let i = position(service);
        let ghost before = *self;
        let r = match outcome {
            Ok(Attachment::Child { log_file }) => {
                self.services[i].has_child = true;
                self.services[i].log_file = Some(log_file);
                self.services[i].state = ServiceState::Running;
                self.services[i].error_message = None;
                Ok(())
            },
            Ok(Attachment::Adopted { pid, log_file }) => {
                self.services[i].has_child = false;
                self.services[i].external_pid = Some(pid);
                self.services[i].log_file = Some(log_file);
                self.services[i].state = ServiceState::Running;
                self.services[i].error_message = None;
                Ok(())
            },
            Err(e) => {
                self.services[i].state = ServiceState::Error;
                self.services[i].error_message = Some(e.clone());
                Err(e)
            },
        };
        assert forall|u: ServiceType| u != service implies #[trigger] self.slot(u) == before.slot(u) by {
            assert(index_of(u) != index_of(service));
        }
        r
    }

    /// Decides how a running service is stopped; nothing where it does not
    /// run. A stopping service is `Stopping` and no longer holds an adopted
    /// process. MySQL and PostgreSQL are given longer to release their port.
    pub fn begin_stop(&mut self, service: ServiceType) -> (p: StopPlan)
        requires
            old(self).wf(),
        ensures
            final(self).wf(),
            final(self).current_settings() == old(self).current_settings(),
            others_unchanged(*final(self), *old(self), service),
            old(self).slot(service).state != ServiceState::Running ==> p is NotRunning && *final(self)
                == *old(self),
            old(self).slot(service).state == ServiceState::Running ==> {
                let s = old(self).slot(service);
                let located = old(self).paths() is Some;
                &&& final(self).slot(service) == (ServiceProcess {
                    state: ServiceState::Stopping,
                    external_pid: None,
                    ..s
                })
                &&& p == (StopPlan::Stop {
                    kill_child: s.has_child,
                    terminate_pid: s.external_pid,
                    cleanup: if !located {
                        StopCleanup::Nothing
                    } else {
                        match service {
                            ServiceType::MySQL => StopCleanup::MySql,
                            ServiceType::PostgreSQL => StopCleanup::PostgreSql,
                            ServiceType::Caddy => StopCleanup::Caddy,
                            ServiceType::PhpFpm => StopCleanup::Nothing,
                        }
                    },
                    wait: match service {
                        ServiceType::MySQL | ServiceType::PostgreSQL => if located {
                            Some((s.port, Timeout { millis: 8000 }))
                        } else {
                            None
                        },
                        ServiceType::Caddy => if located {
                            Some((s.port, Timeout { millis: 4000 }))
                        } else {
                            None
                        },
                        ServiceType::PhpFpm => Some((s.port, Timeout { millis: 4000 })),
                    },
                })
            },
    {
        let i = position(service);
        if !self.services[i].state.is_running() {
            return StopPlan::NotRunning;
        }
        let ghost before = *self;
        self.services[i].state = ServiceState::Stopping;
        let terminate_pid = self.services[i].external_pid;
        self.services[i].external_pid = None;
        let port = self.services[i].port;
        let located = self.runtime_paths.is_some();
        let cleanup = if !located {
            StopCleanup::Nothing
        } else {
            match service {
                ServiceType::MySQL => StopCleanup::MySql,
                ServiceType::PostgreSQL => StopCleanup::PostgreSql,
                ServiceType::Caddy => StopCleanup::Caddy,
                ServiceType::PhpFpm => StopCleanup::Nothing,
            }
        };
        let wait = match service {
            ServiceType::MySQL | ServiceType::PostgreSQL => if located {
                Some((port, mysql_port_release_timeout()))
            } else {
                None
            },
            ServiceType::Caddy => if located {
                Some((port, default_port_release_timeout()))
            } else {
                None
            },
            ServiceType::PhpFpm => Some((port, default_port_release_timeout())),
        };
        assert forall|u: ServiceType| u != service implies #[trigger] self.slot(u) == before.slot(u) by {
            assert(index_of(u) != index_of(service));
        }
        StopPlan::Stop { kill_child: self.services[i].has_child, terminate_pid, cleanup, wait }
    }

    /// Records that a service's processes are gone: it is stopped.
    pub fn finish_stop(&mut self, service: ServiceType)
        requires
            old(self).wf(),
        ensures
            final(self).wf(),
            final(self).current_settings() == old(self).current_settings(),
            others_unchanged(*final(self), *old(self), service),
            final(self).slot(service) == (ServiceProcess {
                has_child: false,
                state: ServiceState::Stopped,
                ..old(self).slot(service)
            }),
    {
        let i = position(service);
        let ghost before = *self;
        self.services[i].has_child = false;
        self.services[i].state = ServiceState::Stopped;
        assert forall|u: ServiceType| u != service implies #[trigger] self.slot(u) == before.slot(u) by {
            assert(index_of(u) != index_of(service));
        }
    }

    /// The running services, in the manager's order: those a stop of the
    /// stack or of everything stops.
    pub fn running_services(&self) -> (v: Vec<ServiceType>)
        requires
            self.wf(),
        ensures
            v@ == self.running_list(),
    {
        let mut v: Vec<ServiceType> = Vec::new();
        if self.status(ServiceType::Caddy) == ServiceState::Running {
            v.push(ServiceType::Caddy);
        }
        if self.status(ServiceType::PhpFpm) == ServiceState::Running {
            v.push(ServiceType::PhpFpm);
        }
        if self.status(ServiceType::MySQL) == ServiceState::Running {
            v.push(ServiceType::MySQL);
        }
        if self.status(ServiceType::PostgreSQL) == ServiceState::Running {
            v.push(ServiceType::PostgreSQL);
        }
        assert(v@ =~= self.running_list());
        v
    }

    /// The running services, in the manager's order.
    pub open spec fn running_list(&self) -> Seq<ServiceType> {
        self.if_running(ServiceType::Caddy) + self.if_running(ServiceType::PhpFpm) + self.if_running(
            ServiceType::MySQL,
        ) + self.if_running(ServiceType::PostgreSQL)
    }

    /// The service, where it runs.
    pub open spec fn if_running(&self, t: ServiceType) -> Seq<ServiceType> {
        if self.slot(t).state == ServiceState::Running {
            seq![t]
        } else {
            Seq::empty()
        }
    }

    /// What a health check of a service looks at: its child process, else
    /// its adopted process, else nothing.
    pub fn health_probe(&self, service: ServiceType) -> (p: HealthProbe)
        requires
            self.wf(),
        ensures
            p == (if self.slot(service).has_child {
                HealthProbe::Child
            } else {
                match self.slot(service).external_pid {
                    Some(pid) => HealthProbe::Adopted(pid),
                    None => HealthProbe::Nothing,
                }
            }),
    {
        let i = position(service);
        if self.services[i].has_child {
            HealthProbe::Child
        } else {
            match self.services[i].external_pid {
                Some(pid) => HealthProbe::Adopted(pid),
                None => HealthProbe::Nothing,
            }
        }
    }

    /// Records what a health check of a service found. An observation that
    /// does not fit what the service runs leaves it as it is.
    pub fn apply_health(&mut self, service: ServiceType, observation: HealthObservation)
        requires
            old(self).wf(),
        ensures
            final(self).wf(),
            final(self).current_settings() == old(self).current_settings(),
            others_unchanged(*final(self), *old(self), service),
            ({
                let s = old(self).slot(service);
                let f = final(self).slot(service);
                if s.has_child {
                    match observation {
                        HealthObservation::ChildExited { status, log_content } => f == (ServiceProcess {
                            state: ServiceState::Error,
                            has_child: false,
                            error_message: f.error_message,
                            ..s
                        }) && (f.error_message matches Some(m) && m@ == process_exit_error(
                            display_name_of(service) + " process exited unexpectedly"@,
                            exit_status_text(status.code, status.signal, status.debug@),
                            opt_str(s.log_file),
                            opt_str(log_content),
                        )),
                        HealthObservation::ChildRunning => f == (ServiceProcess {
                            state: ServiceState::Running,
                            error_message: None,
                            ..s
                        }),
                        HealthObservation::ChildCheckFailed => f == (ServiceProcess {
                            state: ServiceState::Error,
                            error_message: f.error_message,
                            ..s
                        }) && (f.error_message matches Some(m) && m@ == "Failed to check process status"@),
                        _ => f == s,
                    }
                } else {
                    match s.external_pid {
                        Some(pid) => match observation {
                            HealthObservation::AdoptedAlive => f == (ServiceProcess {
                                state: ServiceState::Running,
                                error_message: None,
                                ..s
                            }),
                            HealthObservation::AdoptedGone => f == (ServiceProcess {
                                state: ServiceState::Error,
                                external_pid: None,
                                error_message: f.error_message,
                                ..s
                            }) && (f.error_message matches Some(m) && m@ == display_name_of(service)
                                + " process exited unexpectedly (pid "@ + decimal(pid as nat) + ")"@),
                            _ => f == s,
                        },
                        None => f == s,
                    }
                }
            }),
    {
        let i = position(service);
        let ghost before = *self;
        if self.services[i].has_child {
            match observation {
                HealthObservation::ChildExited { status, log_content } => {
                    let mut summary = String::new();
                    push_str(&mut summary, service.display_name());
                    push_str(&mut summary, " process exited unexpectedly");
                    let m = format_process_exit_error(
                        summary.as_str(),
                        &status,
                        &self.services[i].log_file,
                        &log_content,
                    );
                    self.services[i].state = ServiceState::Error;
                    self.services[i].error_message = Some(m);
                    self.services[i].has_child = false;
                },
                HealthObservation::ChildRunning => {
                    self.services[i].state = ServiceState::Running;
                    self.services[i].error_message = None;
                },
                HealthObservation::ChildCheckFailed => {
                    self.services[i].state = ServiceState::Error;
                    self.services[i].error_message = Some("Failed to check process status".to_string());
                },
                _ => {},
            }
        } else {
            match self.services[i].external_pid {
                Some(pid) => match observation {
                    HealthObservation::AdoptedAlive => {
                        self.services[i].state = ServiceState::Running;
                        self.services[i].error_message = None;
                    },
                    HealthObservation::AdoptedGone => {
                        let mut m = String::new();
                        push_str(&mut m, service.display_name());
                        push_str(&mut m, " process exited unexpectedly (pid ");
                        let mut d: Vec<char> = Vec::new();
                        push_decimal(&mut d, pid as u64);
                        push_chars(&mut m, d.as_slice());
                        push_str(&mut m, ")");
                        self.services[i].state = ServiceState::Error;
                        self.services[i].error_message = Some(m);
                        self.services[i].external_pid = None;
                    },
                    _ => {},
                },
                None => {},
            }
        }
        assert forall|u: ServiceType| u != service implies #[trigger] self.slot(u) == before.slot(u) by {
            assert(index_of(u) != index_of(service));
        }
    }

    /// Chooses the port of a service that does not run, moving it to a
    /// fallback port where its own is taken; answers the message to log in
    /// that case. A running service keeps its port.
    pub fn prepare_port<F: Fn(u16) -> bool, G: FnOnce() -> Result<usize, String>>(
        &mut self,
        service: ServiceType,
        probe: &F,
        stop_stale: G,
    ) -> (r: Result<Option<String>, String>)
        requires
            old(self).wf(),
            forall|p: u16| call_requires(*probe, (p,)),
            call_requires(stop_stale, ()),
        ensures
            final(self).wf(),
            others_unchanged(*final(self), *old(self), service),
            old(self).slot(service).state == ServiceState::Running ==> r == Ok::<Option<String>, String>(None)
                && *final(self) == *old(self),
            old(self).slot(service).state != ServiceState::Running ==> match r {
                Err(e) => *final(self) == *old(self) && port_choice(
                    service,
                    old(self).slot(service).port,
                    old(self).reserved_for(service),
                    *probe,
                    stop_stale,
                    Err(e),
                ),
                Ok(msg) => {
                    let cur = old(self).slot(service).port;
                    let port = final(self).slot(service).port;
                    &&& port_choice(
                        service,
                        cur,
                        old(self).reserved_for(service),
                        *probe,
                        stop_stale,
                        Ok(port),
                    )
                    &&& final(self).slot(service).state == old(self).slot(service).state
                    &&& final(self).slot(service).has_child == old(self).slot(service).has_child
                    &&& final(self).slot(service).external_pid == old(self).slot(service).external_pid
                    &&& final(self).slot(service).log_file == old(self).slot(service).log_file
                    &&& if port == cur {
                        &&& msg is None
                        &&& *final(self) == *old(self)
                    } else {
                        &&& msg matches Some(m) && m@ == fallback_message(service, cur, port)
                        &&& final(self).slot(service).error_message matches Some(e) && e@
                            == fallback_message(service, cur, port)
                        &&& final(self).current_settings() == with_port(
                            old(self).current_settings(),
                            service,
                            port,
                        )
                    }
                },
            },
    {
        let i = position(service);
        if self.services[i].state.is_running() {
            return Ok(None);
        }
        let current_port = self.services[i].port;
        let reserved = self.reserved_ports_except(service);
        let selected = match service {
            ServiceType::Caddy => select_caddy_port(current_port, reserved.as_slice(), probe, stop_stale),
            _ => select_available_port(service, current_port, reserved.as_slice(), probe),
        };
        let port = match selected {
            Ok(p) => p,
            Err(e) => {
                return Err(e);
            },
        };
        if port != current_port {
            Ok(Some(self.record_port_fallback(service, current_port, port)))
        } else {
            Ok(None)
        }
    }

    /// Chooses the ports of the stack before it starts, service by service
    /// in start order (PHP, the database server, the web server), and
    /// answers the messages to log for those that moved. Stops at the first
    /// service for which no port is found.
    pub fn prepare_stack_ports<F: Fn(u16) -> bool, G: FnOnce() -> Result<usize, String>>(
        &mut self,
        database_tool_id: &str,
        probe: &F,
        stop_stale: G,
    ) -> (r: Result<Vec<String>, String>)
        requires
            old(self).wf(),
            forall|p: u16| call_requires(*probe, (p,)),
            call_requires(stop_stale, ()),
        ensures
            final(self).wf(),
            final(self).paths() == old(self).paths(),
            old(self).paths() is None ==> (*final(self) == *old(self) && (r matches Err(e) && e@
                == "Runtime paths not initialized"@)),
            forall|t: ServiceType|
                #[trigger] final(self).slot(t).state == old(self).slot(t).state,
            r is Ok ==> forall|t: ServiceType|
                #![trigger final(self).slot(t)]
                t != ServiceType::PhpFpm && t != ServiceType::Caddy && t != active_database_spec(
                    database_tool_id@,
                ) ==> final(self).slot(t) == old(self).slot(t),
            old(self).paths() is Some ==> stack_ports_prepared(
                active_database_spec(database_tool_id@),
                *probe,
                stop_stale,
                *old(self),
                *final(self),
                r,
            ),
    {
        if self.runtime_paths.is_none() {
            return Err("Runtime paths not initialized".to_string());
        }
        let mut messages: Vec<String> = Vec::new();
        let db = active_database_service(database_tool_id);
        let ghost s0 = *self;
        let ghost g = stop_stale;
        let ghost pr = *probe;
        let noop = || -> (r: Result<usize, String>) ensures r == Ok::<usize, String>(0usize) { Ok(0usize) };
        let r1 = self.prepare_port(ServiceType::PhpFpm, probe, noop);
        let ghost s1 = *self;
        let ghost gr1 = r1;
        assert(port_step(
            ServiceType::PhpFpm,
            s0,
            s1,
            gr1,
            |x: Result<u16, String>|
                plain_port_choice(
                    ServiceType::PhpFpm,
                    s0.slot(ServiceType::PhpFpm).port,
                    s0.reserved_for(ServiceType::PhpFpm),
                    pr,
                    x,
                ),
        ));
        match r1 {
            Ok(Some(m)) => messages.push(m),
            Ok(None) => {},
            Err(e) => {
                let r = Err(e);
                assert(stack_chain(db, pr, g, s0, s1, s1, *self, gr1, gr1, gr1, r));
                return r;
            },
        }
        assert(messages@ == opt_messages(gr1->Ok_0));
        let noop2 = || -> (r: Result<usize, String>) ensures r == Ok::<usize, String>(0usize) { Ok(0usize) };
        let r2 = self.prepare_port(db, probe, noop2);
        let ghost s2 = *self;
        let ghost gr2 = r2;
        assert(port_step(
            db,
            s1,
            s2,
            gr2,
            |x: Result<u16, String>| plain_port_choice(db, s1.slot(db).port, s1.reserved_for(db), pr, x),
        ));
        match r2 {
            Ok(Some(m)) => messages.push(m),
            Ok(None) => {},
            Err(e) => {
                let r = Err(e);
                assert(stack_chain(db, pr, g, s0, s1, s2, *self, gr1, gr2, gr2, r));
                return r;
            },
        }
        assert(messages@ == opt_messages(gr1->Ok_0) + opt_messages(gr2->Ok_0));
        let r3 = self.prepare_port(ServiceType::Caddy, probe, stop_stale);
        let ghost gr3 = r3;
        assert(port_step(
            ServiceType::Caddy,
            s2,
            *self,
            gr3,
            |x: Result<u16, String>|
                port_choice(
                    ServiceType::Caddy,
                    s2.slot(ServiceType::Caddy).port,
                    s2.reserved_for(ServiceType::Caddy),
                    pr,
                    g,
                    x,
                ),
        ));
        match r3 {
            Ok(Some(m)) => messages.push(m),
            Ok(None) => {},
            Err(e) => {
                let r = Err(e);
                assert(stack_chain(db, pr, g, s0, s1, s2, *self, gr1, gr2, gr3, r));
                return r;
            },
        }
        assert(messages@ =~= opt_messages(gr1->Ok_0) + opt_messages(gr2->Ok_0) + opt_messages(gr3->Ok_0));
        assert forall|t: ServiceType|
            t != ServiceType::PhpFpm && t != ServiceType::Caddy && t != db implies #[trigger] self.slot(t)
                == s0.slot(t) by {
            assert(self.slot(t) == s2.slot(t));
            assert(s2.slot(t) == s1.slot(t));
        }
        let r = Ok(messages);
        assert(stack_chain(db, pr, g, s0, s1, s2, *self, gr1, gr2, gr3, r));
        r
    }
}

} // verus!
