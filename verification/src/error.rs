//! Error types of the proxy and the text each of them displays.

use vstd::prelude::*;
use crate::text::{append_decimal, append_str, decimal, string_from};

verus! {

/// Configuration related errors.
#[derive(Debug, Clone)]
pub enum ConfigError {
    InvalidIpAddress(String),
    PortInUse(u16),
    PortBindError(u16, String),
    InsufficientPrivileges(u16),
    InvalidPort(u16),
    InvalidTomlFormat(String),
    InvalidConfigValue { path: String, reason: String },
    MissingRequiredField(String),
    ConfigFileNotFound(String),
    ReadFailed(String),
    InvalidConfig(String),
}

/// Network related errors.
#[derive(Debug, Clone)]
pub enum NetworkError {
    ConnectionFailed(String),
    ListenFailed(String),
    SocketCreationFailed(String),
    AddressResolutionFailed(String),
    ConnectionTimeout,
    ConnectionClosed,
    ConnectionReset,
    NetworkUnreachable,
    InvalidBufferSize(usize),
    InvalidSocketOption(String),
}

/// Proxy related errors.
#[derive(Debug, Clone)]
pub enum ProxyError {
    StartupFailed(String),
    StopFailed(String),
    ForwardingFailed(String),
    ConnectionPoolError(String),
    BufferPoolError(String),
    InvalidProxyConfig(String),
    InstanceNotFound(String),
    ForwardingStrategyError(String),
}

/// Performance tuning related errors.
#[derive(Debug, Clone)]
pub enum PerformanceError {
    TcpOptimizationFailed(String),
    BufferPoolInitFailed(String),
    ConnectionPoolInitFailed(String),
    InsufficientResources(String),
    InvalidPerformanceParameter(String),
    ZeroCopyFailed(String),
}

/// Operating system related errors.
#[derive(Debug, Clone)]
pub enum SystemError {
    SignalHandlingFailed(String),
    InsufficientFileDescriptors,
    SystemCallFailed(String),
    PermissionDenied(String),
    ResourceExhausted(String),
}

/// Reverse tunnel related errors.
#[derive(Debug, Clone)]
pub enum ReverseProxyError {
    ProtocolError(String),
    HandshakeFailed(String),
    ClientDisconnected,
    InvalidMessage(String),
    SerializationFailed(String),
    DeserializationFailed(String),
    ControlChannelError(String),
    PortAllocationFailed(String),
    MultiplexingError(String),
    ConnectionFailed(String),
    UnsupportedVersion(u8),
    CryptoError(String),
}

/// The application error. I/O and TOML decoding failures are carried by the
/// message their source displayed.
#[derive(Debug, Clone)]
pub enum AppError {
    Config(ConfigError),
    Network(NetworkError),
    Proxy(ProxyError),
    Performance(PerformanceError),
    System(SystemError),
    ReverseProxy(ReverseProxyError),
    Io(String),
    Serialization(String),
    Internal { message: String },
}

/// How serious an error is.
#[derive(Debug, Clone, Copy, PartialEq, Eq, Structural)]
pub enum ErrorSeverity {
    /// The program must exit.
    Fatal,
    /// Needs handling, but the program can go on.
    Error,
    /// Only logged.
    Warning,
    /// Informational.
    Info,
}

// ---------------------------------------------------------------------------
// Displayed text
// ---------------------------------------------------------------------------

impl ConfigError {
    /// The text this error displays.
    pub open spec fn text(self) -> Seq<char> {
        match self {
            ConfigError::InvalidIpAddress(s) => "Invalid IP address: "@ + s@,
            ConfigError::PortInUse(p) => "Port "@ + decimal(p as nat) + " is already in use"@,
            ConfigError::PortBindError(p, s) => "Cannot bind to port "@ + decimal(p as nat) + ": "@ + s@,
            ConfigError::InsufficientPrivileges(p) => "Insufficient privileges to bind to port "@ + decimal(p as nat),
            ConfigError::InvalidPort(p) => "Invalid port: "@ + decimal(p as nat),
            ConfigError::InvalidTomlFormat(s) => "Invalid TOML format: "@ + s@,
            ConfigError::InvalidConfigValue { path, reason } => "Invalid configuration value at "@ + path@ + ": "@ + reason@,
            ConfigError::MissingRequiredField(s) => "Missing required configuration field: "@ + s@,
            ConfigError::ConfigFileNotFound(s) => "Configuration file not found: "@ + s@,
            ConfigError::ReadFailed(s) => "Configuration file read failed: "@ + s@,
            ConfigError::InvalidConfig(s) => "Invalid configuration: "@ + s@,
        }
    }

    /// The text this error displays.
    pub fn message(&self) -> (r: String)
        ensures
            r@ == self.text(),
    {
        match self {
            ConfigError::InvalidIpAddress(s) => with_suffix("Invalid IP address: ", s),
            ConfigError::PortInUse(p) => {
                let mut r = string_from("Port ");
                append_decimal(&mut r, *p as u64);
                append_str(&mut r, " is already in use");
                r
            },
            ConfigError::PortBindError(p, s) => {
                let mut r = string_from("Cannot bind to port ");
                append_decimal(&mut r, *p as u64);
                append_str(&mut r, ": ");
                append_str(&mut r, s.as_str());
                r
            },
            ConfigError::InsufficientPrivileges(p) => {
                let mut r = string_from("Insufficient privileges to bind to port ");
                append_decimal(&mut r, *p as u64);
                r
            },
            ConfigError::InvalidPort(p) => {
                let mut r = string_from("Invalid port: ");
                append_decimal(&mut r, *p as u64);
                r
            },
            ConfigError::InvalidTomlFormat(s) => with_suffix("Invalid TOML format: ", s),
            ConfigError::InvalidConfigValue { path, reason } => {
                let mut r = string_from("Invalid configuration value at ");
                append_str(&mut r, path.as_str());
                append_str(&mut r, ": ");
                append_str(&mut r, reason.as_str());
                r
            },
            ConfigError::MissingRequiredField(s) => with_suffix(
                "Missing required configuration field: ",
                s,
            ),
            ConfigError::ConfigFileNotFound(s) => with_suffix("Configuration file not found: ", s),
            ConfigError::ReadFailed(s) => with_suffix("Configuration file read failed: ", s),
            ConfigError::InvalidConfig(s) => with_suffix("Invalid configuration: ", s),
        }
    }
}

impl NetworkError {
    /// The text this error displays.
    pub open spec fn text(self) -> Seq<char> {
        match self {
            NetworkError::ConnectionFailed(s) => "Connection failed: "@ + s@,
            NetworkError::ListenFailed(s) => "Listen failed: "@ + s@,
            NetworkError::SocketCreationFailed(s) => "Socket creation failed: "@ + s@,
            NetworkError::AddressResolutionFailed(s) => "Address resolution failed: "@ + s@,
            NetworkError::ConnectionTimeout => "Connection timeout"@,
            NetworkError::ConnectionClosed => "Connection closed by remote"@,
            NetworkError::ConnectionReset => "Connection reset"@,
            NetworkError::NetworkUnreachable => "Network unreachable"@,
            NetworkError::InvalidBufferSize(n) => "Invalid buffer size: "@ + decimal(n as nat),
            NetworkError::InvalidSocketOption(s) => "Invalid socket option: "@ + s@,
        }
    }

    /// The text this error displays.
    pub fn message(&self) -> (r: String)
        ensures
            r@ == self.text(),
    {
        match self {
            NetworkError::ConnectionFailed(s) => with_suffix("Connection failed: ", s),
            NetworkError::ListenFailed(s) => with_suffix("Listen failed: ", s),
            NetworkError::SocketCreationFailed(s) => with_suffix("Socket creation failed: ", s),
            NetworkError::AddressResolutionFailed(s) => with_suffix(
                "Address resolution failed: ",
                s,
            ),
            NetworkError::ConnectionTimeout => string_from("Connection timeout"),
            NetworkError::ConnectionClosed => string_from("Connection closed by remote"),
            NetworkError::ConnectionReset => string_from("Connection reset"),
            NetworkError::NetworkUnreachable => string_from("Network unreachable"),
            NetworkError::InvalidBufferSize(n) => {
                let mut r = string_from("Invalid buffer size: ");
                append_decimal(&mut r, *n as u64);
                r
            },
            NetworkError::InvalidSocketOption(s) => with_suffix("Invalid socket option: ", s),
        }
    }
}

impl ProxyError {
    /// The text this error displays.
    pub open spec fn text(self) -> Seq<char> {
        match self {
            ProxyError::StartupFailed(s) => "Proxy startup failed: "@ + s@,
            ProxyError::StopFailed(s) => "Proxy stop failed: "@ + s@,
            ProxyError::ForwardingFailed(s) => "Data forwarding failed: "@ + s@,
            ProxyError::ConnectionPoolError(s) => "Connection pool error: "@ + s@,
            ProxyError::BufferPoolError(s) => "Buffer pool error: "@ + s@,
            ProxyError::InvalidProxyConfig(s) => "Invalid proxy configuration: "@ + s@,
            ProxyError::InstanceNotFound(s) => "Proxy instance not found: "@ + s@,
            ProxyError::ForwardingStrategyError(s) => "Forwarding strategy error: "@ + s@,
        }
    }

    /// The text this error displays.
    pub fn message(&self) -> (r: String)
        ensures
            r@ == self.text(),
    {
        match self {
            ProxyError::StartupFailed(s) => with_suffix("Proxy startup failed: ", s),
            ProxyError::StopFailed(s) => with_suffix("Proxy stop failed: ", s),
            ProxyError::ForwardingFailed(s) => with_suffix("Data forwarding failed: ", s),
            ProxyError::ConnectionPoolError(s) => with_suffix("Connection pool error: ", s),
            ProxyError::BufferPoolError(s) => with_suffix("Buffer pool error: ", s),
            ProxyError::InvalidProxyConfig(s) => with_suffix("Invalid proxy configuration: ", s),
            ProxyError::InstanceNotFound(s) => with_suffix("Proxy instance not found: ", s),
            ProxyError::ForwardingStrategyError(s) => with_suffix("Forwarding strategy error: ", s),
        }
    }
}

impl PerformanceError {
    /// The text this error displays.
    pub open spec fn text(self) -> Seq<char> {
        match self {
            PerformanceError::TcpOptimizationFailed(s) => "TCP optimization failed: "@ + s@,
            PerformanceError::BufferPoolInitFailed(s) => "Buffer pool initialization failed: "@ + s@,
            PerformanceError::ConnectionPoolInitFailed(s) => "Connection pool initialization failed: "@
                + s@,
            PerformanceError::InsufficientResources(s) => "Insufficient system resources: "@ + s@,
            PerformanceError::InvalidPerformanceParameter(s) => "Invalid performance parameter: "@
                + s@,
            PerformanceError::ZeroCopyFailed(s) => "Zero-Copy operation failed: "@ + s@,
        }
    }

    /// The text this error displays.
    pub fn message(&self) -> (r: String)
        ensures
            r@ == self.text(),
    {
        match self {
            PerformanceError::TcpOptimizationFailed(s) => with_suffix("TCP optimization failed: ", s),
            PerformanceError::BufferPoolInitFailed(s) => with_suffix(
                "Buffer pool initialization failed: ",
                s,
            ),
            PerformanceError::ConnectionPoolInitFailed(s) => with_suffix(
                "Connection pool initialization failed: ",
                s,
            ),
            PerformanceError::InsufficientResources(s) => with_suffix(
                "Insufficient system resources: ",
                s,
            ),
            PerformanceError::InvalidPerformanceParameter(s) => with_suffix(
                "Invalid performance parameter: ",
                s,
            ),
            PerformanceError::ZeroCopyFailed(s) => with_suffix("Zero-Copy operation failed: ", s),
        }
    }
}

impl SystemError {
    /// The text this error displays.
    pub open spec fn text(self) -> Seq<char> {
        match self {
            SystemError::SignalHandlingFailed(s) => "Signal handling failed: "@ + s@,
            SystemError::InsufficientFileDescriptors => "Insufficient file descriptors"@,
            SystemError::SystemCallFailed(s) => "System call failed: "@ + s@,
            SystemError::PermissionDenied(s) => "Permission denied: "@ + s@,
            SystemError::ResourceExhausted(s) => "System resource exhausted: "@ + s@,
        }
    }

    /// The text this error displays.
    pub fn message(&self) -> (r: String)
        ensures
            r@ == self.text(),
    {
        match self {
            SystemError::SignalHandlingFailed(s) => with_suffix("Signal handling failed: ", s),
            SystemError::InsufficientFileDescriptors => string_from("Insufficient file descriptors"),
            SystemError::SystemCallFailed(s) => with_suffix("System call failed: ", s),
            SystemError::PermissionDenied(s) => with_suffix("Permission denied: ", s),
            SystemError::ResourceExhausted(s) => with_suffix("System resource exhausted: ", s),
        }
    }
}

impl ReverseProxyError {
    /// The text this error displays.
    pub open spec fn text(self) -> Seq<char> {
        match self {
            ReverseProxyError::ProtocolError(s) => "Protocol error: "@ + s@,
            ReverseProxyError::HandshakeFailed(s) => "Handshake failed: "@ + s@,
            ReverseProxyError::ClientDisconnected => "Client disconnected"@,
            ReverseProxyError::InvalidMessage(s) => "Invalid message: "@ + s@,
            ReverseProxyError::SerializationFailed(s) => "Message serialization failed: "@ + s@,
            ReverseProxyError::DeserializationFailed(s) => "Message deserialization failed: "@ + s@,
            ReverseProxyError::ControlChannelError(s) => "Control channel error: "@ + s@,
            ReverseProxyError::PortAllocationFailed(s) => "Port allocation failed: "@ + s@,
            ReverseProxyError::MultiplexingError(s) => "Connection multiplexing error: "@ + s@,
            ReverseProxyError::ConnectionFailed(s) => "Connection failed: "@ + s@,
            ReverseProxyError::UnsupportedVersion(v) => "Unsupported protocol version: "@ + decimal(
                v as nat,
            ),
            ReverseProxyError::CryptoError(s) => "Cryptography error: "@ + s@,
        }
    }

    /// The text this error displays.
    pub fn message(&self) -> (r: String)
        ensures
            r@ == self.text(),
    {
        match self {
            ReverseProxyError::ProtocolError(s) => with_suffix("Protocol error: ", s),
            ReverseProxyError::HandshakeFailed(s) => with_suffix("Handshake failed: ", s),
            ReverseProxyError::ClientDisconnected => string_from("Client disconnected"),
            ReverseProxyError::InvalidMessage(s) => with_suffix("Invalid message: ", s),
            ReverseProxyError::SerializationFailed(s) => with_suffix(
                "Message serialization failed: ",
                s,
            ),
            ReverseProxyError::DeserializationFailed(s) => with_suffix(
                "Message deserialization failed: ",
                s,
            ),
            ReverseProxyError::ControlChannelError(s) => with_suffix("Control channel error: ", s),
            ReverseProxyError::PortAllocationFailed(s) => with_suffix("Port allocation failed: ", s),
            ReverseProxyError::MultiplexingError(s) => with_suffix(
                "Connection multiplexing error: ",
                s,
            ),
            ReverseProxyError::ConnectionFailed(s) => with_suffix("Connection failed: ", s),
            ReverseProxyError::UnsupportedVersion(v) => {
                let mut r = string_from("Unsupported protocol version: ");
                append_decimal(&mut r, *v as u64);
                r
            },
            ReverseProxyError::CryptoError(s) => with_suffix("Cryptography error: ", s),
        }
    }
}

impl AppError {
    /// The text this error displays.
    pub open spec fn text(self) -> Seq<char> {
        match self {
            AppError::Config(e) => "Configuration error: "@ + e.text(),
            AppError::Network(e) => "Network error: "@ + e.text(),
            AppError::Proxy(e) => "Proxy error: "@ + e.text(),
            AppError::Performance(e) => "Performance error: "@ + e.text(),
            AppError::System(e) => "System error: "@ + e.text(),
            AppError::ReverseProxy(e) => "Reverse proxy error: "@ + e.text(),
            AppError::Io(s) => "IO error: "@ + s@,
            AppError::Serialization(s) => "Serialization error: "@ + s@,
            AppError::Internal { message } => "Internal error: "@ + message@,
        }
    }

    /// The text this error displays.
    pub fn message(&self) -> (r: String)
        ensures
            r@ == self.text(),
    {
        let (head, tail) = match self {
            AppError::Config(e) => (string_from("Configuration error: "), e.message()),
            AppError::Network(e) => (string_from("Network error: "), e.message()),
            AppError::Proxy(e) => (string_from("Proxy error: "), e.message()),
            AppError::Performance(e) => (string_from("Performance error: "), e.message()),
            AppError::System(e) => (string_from("System error: "), e.message()),
            AppError::ReverseProxy(e) => (string_from("Reverse proxy error: "), e.message()),
            AppError::Io(s) => (string_from("IO error: "), s.clone()),
            AppError::Serialization(s) => (string_from("Serialization error: "), s.clone()),
            AppError::Internal { message } => (string_from("Internal error: "), message.clone()),
        };
        let mut r = head;
        append_str(&mut r, tail.as_str());
        r
    }

    /// An internal error with the given message.
    pub fn internal(message: &str) -> (r: AppError)
        ensures
            r matches AppError::Internal { message: m } && m@ == message@,
    {
        AppError::Internal { message: string_from(message) }
    }

    /// Whether the operation that failed may be tried again.
    pub open spec fn recoverable(self) -> bool {
        match self {
            AppError::System(SystemError::InsufficientFileDescriptors) => false,
            AppError::Config(ConfigError::InsufficientPrivileges(_)) => false,
            _ => true,
        }
    }

    /// Whether the operation that failed may be tried again: all errors are,
    /// but running out of file descriptors and lacking the privileges to bind.
    pub fn is_recoverable(&self) -> (r: bool)
        ensures
            r == self.recoverable(),
    {
        match self {
            AppError::Network(NetworkError::ConnectionTimeout)
            | AppError::Network(NetworkError::ConnectionClosed)
            | AppError::Network(NetworkError::ConnectionReset) => true,
            AppError::System(SystemError::InsufficientFileDescriptors) => false,
            AppError::Config(ConfigError::InsufficientPrivileges(_)) => false,
            _ => true,
        }
    }

    /// How serious this error is.
    pub open spec fn severity_of(self) -> ErrorSeverity {
        match self {
            AppError::Config(_) => ErrorSeverity::Fatal,
            AppError::System(SystemError::InsufficientFileDescriptors) => ErrorSeverity::Fatal,
            AppError::Network(NetworkError::ConnectionClosed) => ErrorSeverity::Warning,
            _ => ErrorSeverity::Error,
        }
    }

    /// How serious this error is: configuration errors and running out of file
    /// descriptors are fatal, a connection closed by the peer is a warning.
    pub fn severity(&self) -> (r: ErrorSeverity)
        ensures
            r == self.severity_of(),
    {
        match self {
            AppError::Config(_) => ErrorSeverity::Fatal,
            AppError::System(SystemError::InsufficientFileDescriptors) => ErrorSeverity::Fatal,
            AppError::Network(NetworkError::ConnectionClosed) => ErrorSeverity::Warning,
            AppError::Network(NetworkError::ConnectionTimeout) => ErrorSeverity::Error,
            _ => ErrorSeverity::Error,
        }
    }
}

/// A string made of a literal followed by a string.
fn with_suffix(head: &str, tail: &String) -> (r: String)
    ensures
        r@ == head@ + tail@,
{
    let mut r = string_from(head);
    append_str(&mut r, tail.as_str());
    r
}

/// Context for errors on their way up.
pub trait ErrorExt<T>: Sized {
    /// Replaces an error by an internal error whose message puts the context
    /// before the error's text.
    fn with_context(self, context: &str) -> Result<T, AppError>;

    /// Replaces an error by an internal error whose message is the error's
    /// text behind "Internal error: ".
    fn internal_error(self) -> Result<T, AppError>;
}

impl<T> ErrorExt<T> for Result<T, AppError> {
    fn with_context(self, context: &str) -> (r: Result<T, AppError>)
        ensures
            self is Ok ==> r == self,
            self is Err ==> (r matches Err(AppError::Internal { message }) && message@ == context@
                + ": "@ + self->Err_0.text()),
    {
        match self {
            Ok(v) => Ok(v),
            Err(e) => {
                let mut m = string_from(context);
                append_str(&mut m, ": ");
                let t = e.message();
                append_str(&mut m, t.as_str());
                Err(AppError::Internal { message: m })
            },
        }
    }

    fn internal_error(self) -> (r: Result<T, AppError>)
        ensures
            self is Ok ==> r == self,
            self is Err ==> (r matches Err(AppError::Internal { message }) && message@
                == "Internal error: "@ + self->Err_0.text()),
    {
        match self {
            Ok(v) => Ok(v),
            Err(e) => {
                let mut m = string_from("Internal error: ");
                let t = e.message();
                append_str(&mut m, t.as_str());
                Err(AppError::Internal { message: m })
            },
        }
    }
}

} // verus!
