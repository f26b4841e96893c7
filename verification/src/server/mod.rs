//! The service that this machine offers to the others.
pub mod relative_name;
pub mod remote_manager;
pub mod remote_worker;
pub mod transfer_receiver;
pub mod transfers;

use crate::config::protocol::ProtocolConfig;
use crate::config::user::{UserConfig, UserConfigView};
use crate::proto::{ServiceRegistration, ServiceRegistrationView};
use crate::server::remote_manager::{ManagerView, RemoteManager, ServerView};
use crate::text::{copy_optional_text, to_decimal};
use vstd::prelude::*;
use vstd::string::*;

verus! {

/// The version of the protocol that is spoken.
pub const SERVICE_API_VERSION: u16 = 2;

/// How long to wait between withdrawing an announcement and making it again, in milliseconds.
pub const ANNOUNCE_DELAY_MILLIS: u64 = 500;

/// The domain that the service is announced in.
pub open spec fn service_domain() -> Seq<char> {
    "_warpinator._tcp.local."@
}

/// Why a server could not be built.
#[derive(Clone, Copy, Debug, PartialEq, Eq, Structural)]
pub enum WarpinatorBuildError {
    /// The service has no name
    MissingServiceName,
    /// There is no address to bind to
    MissingAddress,
}

impl WarpinatorBuildError {
    /// What the error says.
    pub open spec fn text(self) -> Seq<char> {
        match self {
            WarpinatorBuildError::MissingServiceName => "Service name is required"@,
            WarpinatorBuildError::MissingAddress => "One IP address (IPv4 or IPv6) is required"@,
        }
    }

    /// The error in words.
    pub fn message(&self) -> (r: String)
        ensures
            r@ == self.text(),
    {
        match self {
            WarpinatorBuildError::MissingServiceName => "Service name is required".to_string(),
            WarpinatorBuildError::MissingAddress => {
                "One IP address (IPv4 or IPv6) is required".to_string()
            },
        }
    }
}

/// Why a server has stopped.
#[derive(Clone, Copy, Debug, PartialEq, Eq, Structural)]
pub enum WarpinatorServeError {
    /// There is no address to announce
    MissingAddress,
    /// The registration service has ended by itself
    RegistrationServerTerminated,
    /// The service for connected remotes has ended by itself
    WarpServerTerminated,
}

impl WarpinatorServeError {
    /// What the error says.
    pub open spec fn text(self) -> Seq<char> {
        match self {
            WarpinatorServeError::MissingAddress => "One IP address (IPv4 or IPv6) is required"@,
            WarpinatorServeError::RegistrationServerTerminated => {
                "Registration server task terminated"@
            },
            WarpinatorServeError::WarpServerTerminated => "Warp server task terminated"@,
        }
    }

    /// The error in words.
    pub fn message(&self) -> (r: String)
        ensures
            r@ == self.text(),
    {
        match self {
            WarpinatorServeError::MissingAddress => {
                "One IP address (IPv4 or IPv6) is required".to_string()
            },
            WarpinatorServeError::RegistrationServerTerminated => {
                "Registration server task terminated".to_string()
            },
            WarpinatorServeError::WarpServerTerminated => "Warp server task terminated".to_string(),
        }
    }
}

/// Collects what a server is built from.
#[derive(Debug)]
pub struct WarpinatorServerBuilder {
    user_config: Option<UserConfig>,
    protocol_config: Option<ProtocolConfig>,
    service_name: Option<String>,
}

/// What a [`WarpinatorServerBuilder`] has collected.
#[verifier::ext_equal]
pub struct BuilderView {
    pub user_config: Option<UserConfigView>,
    pub protocol_config: Option<ProtocolConfig>,
    pub service_name: Option<Seq<char>>,
}

impl View for WarpinatorServerBuilder {
    type V = BuilderView;

    closed spec fn view(&self) -> BuilderView {
        BuilderView {
            user_config: match self.user_config {
                Some(config) => Some(config@),
                None => None,
            },
            protocol_config: self.protocol_config,
            service_name: crate::text::optional_text(self.service_name),
        }
    }
}

impl BuilderView {
    /// The user's settings, or the defaults.
    pub open spec fn user(self) -> UserConfigView {
        match self.user_config {
            Some(config) => config,
            None => crate::config::user::default_user_config(),
        }
    }

    /// How the protocol is run.
    pub open spec fn protocol(self) -> ProtocolConfig {
        match self.protocol_config {
            Some(config) => config,
            None => crate::config::protocol::default_protocol_config(),
        }
    }
}

impl WarpinatorServerBuilder {
    /// Sets the user's settings.
    pub fn user_config(self, config: UserConfig) -> (r: Self)
        ensures
            r@ == (BuilderView { user_config: Some(config@), ..self@ }),
    {
        WarpinatorServerBuilder {
            user_config: Some(config),
            protocol_config: self.protocol_config,
            service_name: self.service_name,
        }
    }

    /// Sets how the protocol is run.
    pub fn protocol_config(self, config: ProtocolConfig) -> (r: Self)
        ensures
            r@ == (BuilderView { protocol_config: Some(config), ..self@ }),
    {
        WarpinatorServerBuilder {
            user_config: self.user_config,
            protocol_config: Some(config),
            service_name: self.service_name,
        }
    }

    /// Sets the name under which the service is known.
    pub fn service_name(self, service_name: &str) -> (r: Self)
        ensures
            r@ == (BuilderView { service_name: Some(service_name@), ..self@ }),
    {
        WarpinatorServerBuilder {
            user_config: self.user_config,
            protocol_config: self.protocol_config,
            service_name: Some(service_name.to_string()),
        }
    }

    /// Builds the server. A name is needed, and an IPv4 address to bind to.
    pub fn build(self) -> (r: Result<WarpinatorServer, WarpinatorBuildError>)
        ensures
            match self@.service_name {
                None => r == Err::<WarpinatorServer, WarpinatorBuildError>(
                    WarpinatorBuildError::MissingServiceName,
                ),
                Some(service_name) => match self@.user().bind_addr_v4 {
                    None => r == Err::<WarpinatorServer, WarpinatorBuildError>(
                        WarpinatorBuildError::MissingAddress,
                    ),
                    Some(address) => r matches Ok(server) && {
                        &&& server.remotes.wf()
                        &&& server@ == (WarpinatorServerView {
                            user_config: self@.user(),
                            protocol_config: self@.protocol(),
                            service_name,
                            remotes: ManagerView {
                                remotes: Seq::empty(),
                                events: Seq::empty(),
                                server: ServerView {
                                    protocol_config: self@.protocol(),
                                    hostname: self@.user().hostname,
                                    ip: address,
                                    fullname: service_name,
                                },
                            },
                        })
                    },
                },
            },
    {
        let service_name = match self.service_name {
            Some(name) => name,
            None => {
                return Err(WarpinatorBuildError::MissingServiceName);
            },
        };
        let user_config = match self.user_config {
            Some(config) => config,
            None => UserConfig::default(),
        };
        let protocol_config = match self.protocol_config {
            Some(config) => config,
            None => ProtocolConfig::default(),
        };
        let address = match copy_optional_text(&user_config.bind_addr_v4) {
            Some(address) => address,
            None => {
                return Err(WarpinatorBuildError::MissingAddress);
            },
        };
        let remotes = RemoteManager::new(
            protocol_config,
            user_config.hostname.clone(),
            address,
            service_name.clone(),
        );
        Ok(WarpinatorServer { user_config, protocol_config, service_name, remotes })
    }
}

/// The service of this machine: who it is, and which remotes it knows.
#[derive(Debug)]
pub struct WarpinatorServer {
    pub user_config: UserConfig,
    pub protocol_config: ProtocolConfig,
    pub service_name: String,
    pub remotes: RemoteManager,
}

/// What a [`WarpinatorServer`] holds.
#[verifier::ext_equal]
pub struct WarpinatorServerView {
    pub user_config: UserConfigView,
    pub protocol_config: ProtocolConfig,
    pub service_name: Seq<char>,
    pub remotes: ManagerView,
}

impl View for WarpinatorServer {
    type V = WarpinatorServerView;

    open spec fn view(&self) -> WarpinatorServerView {
        WarpinatorServerView {
            user_config: self.user_config@,
            protocol_config: self.protocol_config,
            service_name: self.service_name@,
            remotes: self.remotes@,
        }
    }
}

/// An address and a port to listen on.
#[derive(Debug)]
pub struct ListenAddress {
    pub ip: String,
    pub port: u16,
}

/// What is announced on the network.
#[derive(Debug)]
pub struct Announcement {
    pub domain: String,
    pub service_name: String,
    pub host: String,
    pub ip: String,
    pub port: u16,
    /// Names and values
    pub properties: Vec<(String, String)>,
}

/// What an [`Announcement`] says.
#[verifier::ext_equal]
pub struct AnnouncementView {
    pub domain: Seq<char>,
    pub service_name: Seq<char>,
    pub host: Seq<char>,
    pub ip: Seq<char>,
    pub port: u16,
    pub properties: Seq<(Seq<char>, Seq<char>)>,
}

impl View for Announcement {
    type V = AnnouncementView;

    open spec fn view(&self) -> AnnouncementView {
        AnnouncementView {
            domain: self.domain@,
            service_name: self.service_name@,
            host: self.host@,
            ip: self.ip@,
            port: self.port,
            properties: self.properties@.map_values(|p: (String, String)| (p.0@, p.1@)),
        }
    }
}

/// Why a server stops serving.
#[derive(Clone, Copy, Debug, PartialEq, Eq, Structural)]
pub enum ServeEnd {
    /// It was asked to
    Shutdown,
    /// The registration service has ended by itself
    RegistrationEnded,
    /// The service for connected remotes has ended by itself
    WarpEnded,
}

/// How a server that stops serving winds up.
#[derive(Clone, Copy, Debug, PartialEq, Eq)]
pub struct ServeOutcome {
    /// Whether the tasks of the server are cancelled
    pub cancel_tasks: bool,
    /// Whether the announcement is withdrawn
    pub shutdown_mdns: bool,
    pub result: Result<(), WarpinatorServeError>,
}

/// How withdrawing the announcement went.
#[derive(Clone, Copy, Debug, PartialEq, Eq, Structural)]
pub enum MdnsShutdown {
    /// It is under way
    Started,
    /// It could not be begun just now
    Again,
    /// It failed
    Failed,
}

/// What to do about the outcome.
#[derive(Clone, Copy, Debug, PartialEq, Eq, Structural)]
pub enum MdnsShutdownStep {
    /// Try once more
    Retry,
    /// Wait until it is done
    Drain,
    /// Give up
    GiveUp,
}

/// How a server that stops serving winds up: its tasks are cancelled in any case; it is withdrawn
/// and without an error only where it was asked to stop.
pub fn wind_up(end: ServeEnd) -> (r: ServeOutcome)
    ensures
        r == (match end {
            ServeEnd::Shutdown => ServeOutcome {
                cancel_tasks: true,
                shutdown_mdns: true,
                result: Ok(()),
            },
            ServeEnd::RegistrationEnded => ServeOutcome {
                cancel_tasks: true,
                shutdown_mdns: false,
                result: Err(WarpinatorServeError::RegistrationServerTerminated),
            },
            ServeEnd::WarpEnded => ServeOutcome {
                cancel_tasks: true,
                shutdown_mdns: false,
                result: Err(WarpinatorServeError::WarpServerTerminated),
            },
        }),
{
    match end {
        ServeEnd::Shutdown => ServeOutcome {
            cancel_tasks: true,
            shutdown_mdns: true,
            result: Ok(()),
        },
        ServeEnd::RegistrationEnded => ServeOutcome {
            cancel_tasks: true,
            shutdown_mdns: false,
            result: Err(WarpinatorServeError::RegistrationServerTerminated),
        },
        ServeEnd::WarpEnded => ServeOutcome {
            cancel_tasks: true,
            shutdown_mdns: false,
            result: Err(WarpinatorServeError::WarpServerTerminated),
        },
    }
}

/// What to do after an attempt to withdraw the announcement. Only the first is repeated.
pub fn after_mdns_shutdown(first_attempt: bool, outcome: MdnsShutdown) -> (r: MdnsShutdownStep)
    ensures
        r == (match outcome {
            MdnsShutdown::Started => MdnsShutdownStep::Drain,
            MdnsShutdown::Again => if first_attempt {
                MdnsShutdownStep::Retry
            } else {
                MdnsShutdownStep::GiveUp
            },
            MdnsShutdown::Failed => MdnsShutdownStep::GiveUp,
        }),
{
    match outcome {
        MdnsShutdown::Started => MdnsShutdownStep::Drain,
        MdnsShutdown::Again => if first_attempt {
            MdnsShutdownStep::Retry
        } else {
            MdnsShutdownStep::GiveUp
        },
        MdnsShutdown::Failed => MdnsShutdownStep::GiveUp,
    }
}

/// An address in text form, or the empty text where there is none.
pub open spec fn address_or_empty(address: Option<Seq<char>>) -> Seq<char> {
    match address {
        Some(a) => a,
        None => Seq::empty(),
    }
}

fn text_or_empty(text: &Option<String>) -> (r: String)
    ensures
        r@ == address_or_empty(crate::text::optional_text(*text)),
{
    match text {
        Some(t) => t.clone(),
        None => String::new(),
    }
}

/// What a server announces, given the address it is bound to.
pub open spec fn announcement_of(server: WarpinatorServerView, ip: Seq<char>) -> AnnouncementView {
    AnnouncementView {
        domain: service_domain(),
        service_name: server.service_name,
        host: server.user_config.hostname + ".local."@,
        ip,
        port: server.user_config.port,
        properties: seq![
            ("type"@, "real"@),
            ("hostname"@, server.user_config.hostname),
            ("api-version"@, crate::text::decimal(SERVICE_API_VERSION as nat)),
            ("auth-port"@, crate::text::decimal(server.user_config.reg_port as nat)),
        ],
    }
}

impl WarpinatorServer {
    /// A builder in which nothing is set yet.
    pub fn builder() -> (r: WarpinatorServerBuilder)
        ensures
            r@ == (BuilderView { user_config: None, protocol_config: None, service_name: None }),
    {
        WarpinatorServerBuilder { user_config: None, protocol_config: None, service_name: None }
    }

    /// Where the registration service listens.
    pub fn registration_address(&self) -> (r: Option<ListenAddress>)
        ensures
            match self@.user_config.bind_addr_v4 {
                Some(ip) => r matches Some(a) && a.ip@ == ip && a.port
                    == self@.user_config.reg_port,
                None => r is None,
            },
    {
        match &self.user_config.bind_addr_v4 {
            Some(ip) => Some(ListenAddress { ip: ip.clone(), port: self.user_config.reg_port }),
            None => None,
        }
    }

    /// Where the service for connected remotes listens.
    pub fn warp_address(&self) -> (r: Option<ListenAddress>)
        ensures
            match self@.user_config.bind_addr_v4 {
                Some(ip) => r matches Some(a) && a.ip@ == ip && a.port == self@.user_config.port,
                None => r is None,
            },
    {
        match &self.user_config.bind_addr_v4 {
            Some(ip) => Some(ListenAddress { ip: ip.clone(), port: self.user_config.port }),
            None => None,
        }
    }

    /// How the registration service describes this machine.
    pub fn service_registration(&self) -> (r: ServiceRegistration)
        ensures
            r@ == (ServiceRegistrationView {
                service_id: self@.service_name,
                ip: address_or_empty(self@.user_config.bind_addr_v4),
                port: self@.user_config.port as u32,
                hostname: self@.user_config.hostname,
                api_version: SERVICE_API_VERSION as u32,
                auth_port: self@.user_config.reg_port as u32,
                ipv6: address_or_empty(self@.user_config.bind_addr_v6),
            }),
    {
        ServiceRegistration {
            service_id: self.service_name.clone(),
            ip: text_or_empty(&self.user_config.bind_addr_v4),
            port: self.user_config.port as u32,
            hostname: self.user_config.hostname.clone(),
            api_version: SERVICE_API_VERSION as u32,
            auth_port: self.user_config.reg_port as u32,
            ipv6: text_or_empty(&self.user_config.bind_addr_v6),
        }
    }

    /// What is announced on the network.
    pub fn announce_mdns(&self) -> (r: Result<Announcement, WarpinatorServeError>)
        ensures
            match self@.user_config.bind_addr_v4 {
                Some(ip) => r matches Ok(announcement) && announcement@ == announcement_of(
                    self@,
                    ip,
                ),
                None => r == Err::<Announcement, WarpinatorServeError>(
                    WarpinatorServeError::MissingAddress,
                ),
            },
    {
        let ip = match &self.user_config.bind_addr_v4 {
            Some(ip) => ip.clone(),
            None => {
                return Err(WarpinatorServeError::MissingAddress);
            },
        };
        let mut properties: Vec<(String, String)> = Vec::new();
        properties.push(("type".to_string(), "real".to_string()));
        properties.push(("hostname".to_string(), self.user_config.hostname.clone()));
        properties.push(("api-version".to_string(), to_decimal(SERVICE_API_VERSION)));
        properties.push(("auth-port".to_string(), to_decimal(self.user_config.reg_port)));
        let announcement = Announcement {
            domain: "_warpinator._tcp.local.".to_string(),
            service_name: self.service_name.clone(),
            host: self.user_config.hostname.clone().concat(".local."),
            ip,
            port: self.user_config.port,
            properties,
        };
        proof {
            let expected = announcement_of(self@, announcement.ip@);
            assert(announcement@.properties =~= expected.properties);
        }
        Ok(announcement)
    }
}

/// The order in which a server's parts are set does not matter.
pub proof fn builder_order_does_not_matter(
    builder: BuilderView,
    user: UserConfigView,
    protocol: ProtocolConfig,
    name: Seq<char>,
)
    ensures
        ({
            let user_first = BuilderView { user_config: Some(user), ..builder };
            let protocol_first = BuilderView { protocol_config: Some(protocol), ..builder };
            let name_first = BuilderView { service_name: Some(name), ..builder };
            &&& (BuilderView { protocol_config: Some(protocol), ..user_first }) == (BuilderView {
                user_config: Some(user),
                ..protocol_first
            })
            &&& (BuilderView { service_name: Some(name), ..user_first }) == (BuilderView {
                user_config: Some(user),
                ..name_first
            })
            &&& (BuilderView { service_name: Some(name), ..protocol_first }) == (BuilderView {
                protocol_config: Some(protocol),
                ..name_first
            })
        }),
{
}

/// What is said of an announcement is what it holds.
pub proof fn announcement_is_seen_as_it_is(announcement: Announcement)
    ensures
        announcement@.domain == announcement.domain@,
        announcement@.service_name == announcement.service_name@,
        announcement@.host == announcement.host@,
        announcement@.ip == announcement.ip@,
        announcement@.port == announcement.port,
        announcement@.properties.len() == announcement.properties@.len(),
        forall|i: int|
            0 <= i < announcement.properties@.len() ==> #[trigger] announcement@.properties[i] == (
                announcement.properties@[i].0@,
                announcement.properties@[i].1@,
            ),
{
}

/// What is said of a server is what it holds.
pub proof fn server_is_seen_as_it_is(server: WarpinatorServer)
    ensures
        server@.user_config == server.user_config@,
        server@.protocol_config == server.protocol_config,
        server@.service_name == server.service_name@,
        server@.remotes == server.remotes@,
{
}

/// A server is announced as it is: under its name, at the address that it is bound to and its own
/// port, as the host that it is, and with its own name, the version of the protocol and the port of
/// its registration service among the properties, each number readable from its digits.
pub proof fn server_is_announced_as_it_is(server: WarpinatorServerView, ip: Seq<char>)
    ensures
        ({
            let announced = announcement_of(server, ip);
            &&& announced.domain == "_warpinator._tcp.local."@
            &&& announced.service_name == server.service_name
            &&& announced.host == server.user_config.hostname + ".local."@
            &&& announced.ip == ip
            &&& announced.port == server.user_config.port
            &&& announced.properties.len() == 4
            &&& announced.properties[0] == ("type"@, "real"@)
            &&& announced.properties[1] == ("hostname"@, server.user_config.hostname)
            &&& announced.properties[2].0 == "api-version"@
            &&& crate::text::value_of(announced.properties[2].1) == 2
            &&& announced.properties[3].0 == "auth-port"@
            &&& crate::text::value_of(announced.properties[3].1) == server.user_config.reg_port
        }),
{
    crate::text::decimal_stands_for_the_number(SERVICE_API_VERSION as nat);
    crate::text::decimal_stands_for_the_number(server.user_config.reg_port as nat);
}

/// What has been set is what a server is built from; what has not been set is as it is by default.
pub proof fn set_parts_are_built_from(
    builder: BuilderView,
    user: UserConfigView,
    protocol: ProtocolConfig,
)
    ensures
        (BuilderView { user_config: Some(user), ..builder }).user() == user,
        (BuilderView { protocol_config: Some(protocol), ..builder }).protocol() == protocol,
        builder.user_config is None ==> {
            let by_default = builder.user();
            &&& by_default.group_code == "Warpinator"@
            &&& by_default.hostname.len() == 0
            &&& by_default.username.len() == 0
            &&& by_default.display_name.len() == 0
            &&& by_default.picture is None
            &&& by_default.bind_addr_v4 is None
            &&& by_default.bind_addr_v6 is None
            &&& by_default.port == 42000
            &&& by_default.reg_port == 42001
        },
        builder.protocol_config is None ==> {
            let by_default = builder.protocol();
            &&& by_default.features.has(crate::config::protocol::MESSAGE_SUPPORT)
            &&& by_default.features.bits == 1
            &&& by_default.reconnect_interval == 30_000
            &&& by_default.ping_interval == 10_000
            &&& by_default.ping_timeout == 5_000
            &&& by_default.connect_timeout == 5_000
        },
{
    assert(1u32 & 1u32 == 1u32) by (bit_vector);
}

/// An address that is there is told as it is, and one that is not leaves nothing.
pub proof fn address_is_told_as_it_is(address: Seq<char>)
    ensures
        address_or_empty(Some(address)) == address,
        address_or_empty(None).len() == 0,
{
}

} // verus!
