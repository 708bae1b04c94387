//! Server settings, with the defaults the registry starts from.
use vstd::prelude::*;

verus! {

/// Default port of the registry API.
pub const DEFAULT_REGISTRY_PORT: u16 = 5000;

/// Default port of the web interface.
pub const DEFAULT_WEB_PORT: u16 = 8080;

pub struct Config {
    pub server: ServerConfig,
    pub database: DatabaseConfig,
    pub storage: StorageConfig,
    pub auth: AuthConfig,
    pub registry: RegistryConfig,
    pub web: WebConfig,
    pub logging: LoggingConfig,
}

pub struct ServerConfig {
    pub bind: String,
    pub port: u16,
    pub workers: Option<usize>,
    pub keep_alive: Option<u64>,
}

pub struct DatabaseConfig {
    pub path: String,
    pub max_connections: u32,
    pub connection_timeout: u64,
}

pub struct StorageConfig {
    pub backend: StorageBackend,
    pub path: String,
    pub max_upload_size: u64,
    pub enable_deduplication: bool,
}

#[derive(Debug, Clone, Copy, PartialEq, Eq, Structural)]
pub enum StorageBackend {
    Filesystem,
    S3,
    GCS,
    Azure,
}

pub struct AuthConfig {
    pub jwt_secret: String,
    pub jwt_expiration: u64,
    pub oauth: OAuthConfig,
    pub enable_anonymous_read: bool,
}

pub struct OAuthConfig {
    pub google: Option<OAuthProvider>,
    pub github: Option<OAuthProvider>,
    pub microsoft: Option<OAuthProvider>,
}

pub struct OAuthProvider {
    pub client_id: String,
    pub client_secret: String,
    pub redirect_url: String,
    pub enabled: bool,
}

pub struct RegistryConfig {
    pub name: String,
    pub title: String,
    pub description: String,
    pub enable_manifest_list: bool,
    pub enable_content_trust: bool,
    pub max_manifest_size: u64,
    pub max_layer_size: u64,
}

pub struct WebConfig {
    pub port: u16,
    pub enable_ui: bool,
    pub ui_path: String,
    pub cors_enabled: bool,
    pub cors_origins: Vec<String>,
}

pub struct LoggingConfig {
    pub level: String,
    pub format: LogFormat,
    pub file: Option<String>,
}

#[derive(Debug, Clone, Copy, PartialEq, Eq, Structural)]
pub enum LogFormat {
    Json,
    Pretty,
    Compact,
}

impl Config {
    /// The settings a fresh registry starts from.
    pub fn default() -> (r: Config)
        ensures
            r.server.bind@ == "127.0.0.1"@,
            r.server.port == DEFAULT_REGISTRY_PORT,
            r.server.workers is None,
            r.server.keep_alive == Some(60u64),
            r.database.path@ == "./ghostdock.db"@,
            r.database.max_connections == 10,
            r.database.connection_timeout == 30,
            r.storage.backend == StorageBackend::Filesystem,
            r.storage.path@ == "./storage"@,
            r.storage.max_upload_size == 5 * 1024 * 1024 * 1024,
            r.storage.enable_deduplication,
            r.auth.jwt_secret@ == "your-secret-key-change-this"@,
            r.auth.jwt_expiration == 86400,
            r.auth.oauth.google is None,
            r.auth.oauth.github is None,
            r.auth.oauth.microsoft is None,
            r.auth.enable_anonymous_read,
            r.registry.name@ == "ghostdock"@,
            r.registry.title@ == "GhostDock Registry"@,
            r.registry.description@ == "A next-generation Docker registry"@,
            r.registry.enable_manifest_list,
            !r.registry.enable_content_trust,
            r.registry.max_manifest_size == 1024 * 1024,
            r.registry.max_layer_size == 10 * 1024 * 1024 * 1024,
            r.web.port == DEFAULT_WEB_PORT,
            r.web.enable_ui,
            r.web.ui_path@ == "./web/dist"@,
            r.web.cors_enabled,
            r.web.cors_origins@.len() == 1 && r.web.cors_origins@[0]@ == "*"@,
            r.logging.level@ == "info"@,
            r.logging.format == LogFormat::Pretty,
            r.logging.file is None,
    {
        let mut origins: Vec<String> = Vec::new();
        origins.push(String::from_str("*"));
        Config {
            server: ServerConfig {
                bind: String::from_str("127.0.0.1"),
                port: DEFAULT_REGISTRY_PORT,
                workers: None,
                keep_alive: Some(60),
            },
            database: DatabaseConfig {
                path: String::from_str("./ghostdock.db"),
                max_connections: 10,
                connection_timeout: 30,
            },
            storage: StorageConfig {
                backend: StorageBackend::Filesystem,
                path: String::from_str("./storage"),
                max_upload_size: 5 * 1024 * 1024 * 1024,
                enable_deduplication: true,
            },
            auth: AuthConfig {
                jwt_secret: String::from_str("your-secret-key-change-this"),
                jwt_expiration: 86400,
                oauth: OAuthConfig { google: None, github: None, microsoft: None },
                enable_anonymous_read: true,
            },
            registry: RegistryConfig {
                name: String::from_str("ghostdock"),
                title: String::from_str("GhostDock Registry"),
                description: String::from_str("A next-generation Docker registry"),
                enable_manifest_list: true,
                enable_content_trust: false,
                max_manifest_size: 1024 * 1024,
                max_layer_size: 10 * 1024 * 1024 * 1024,
            },
            web: WebConfig {
                port: DEFAULT_WEB_PORT,
                enable_ui: true,
                ui_path: String::from_str("./web/dist"),
                cors_enabled: true,
                cors_origins: origins,
            },
            logging: LoggingConfig {
                level: String::from_str("info"),
                format: LogFormat::Pretty,
                file: None,
            },
        }
    }
}

} // verus!
