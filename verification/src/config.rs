//! Configuration surface of the service.  The values are read from the
//! process environment by the surrounding program; the pipeline itself only
//! consumes them.

use vstd::prelude::*;

verus! {

/// Complete application configuration.
pub struct AppConfig {
    pub server: ServerConfig,
    pub database: DatabaseConfig,
    pub storage: StorageConfig,
    pub ai: AIConfig,
    pub security: SecurityConfig,
    pub logging: LoggingConfig,
    pub worker: WorkerConfig,
    pub webhooks: WebhookConfig,
}

pub struct ServerConfig {
    pub host: String,
    pub port: u16,
    pub workers: usize,
    pub max_connections: usize,
    pub timeout_seconds: u64,
    pub keep_alive_seconds: u64,
    pub client_timeout_seconds: u64,
    pub client_shutdown_seconds: u64,
}

pub struct DatabaseConfig {
    pub url: String,
    pub max_connections: u32,
    pub min_connections: u32,
    pub connect_timeout_seconds: u64,
    pub idle_timeout_seconds: u64,
    pub max_lifetime_seconds: u64,
}

pub struct StorageConfig {
    pub aws_region: String,
    pub aws_access_key_id: String,
    pub aws_secret_access_key: String,
    pub s3_bucket: String,
    pub s3_endpoint: Option<String>,
    pub max_image_size_bytes: usize,
}

pub struct AIConfig {
    pub gemini_api_key: String,
    pub gemini_endpoint: String,
    pub gemini_model: String,
}

pub struct SecurityConfig {
    pub cors_allowed_origins: Vec<String>,
    pub rate_limit_requests: u32,
    pub rate_limit_window_seconds: u64,
    pub max_request_size_bytes: usize,
}

pub struct LoggingConfig {
    pub level: String,
    pub format: String,
}

/// Knobs of the analysis worker: whether it runs, how often it polls, and
/// whether/how thumbnails are derived.
pub struct WorkerConfig {
    pub analysis_enabled: bool,
    pub analysis_interval_seconds: u64,
    pub thumbnail_enabled: bool,
    pub max_thumbnail_width: u32,
    pub max_thumbnail_height: u32,
}

pub struct WebhookConfig {
    pub stories_service_url: String,
    pub enabled: bool,
}

} // verus!
