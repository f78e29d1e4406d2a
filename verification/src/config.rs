//! The configuration that the services are started with.

use vstd::prelude::*;
use crate::error::{DreasError, DreasErrorView};
use crate::text::{clone_opt_text, opt_text};

verus! {

/// Where the cloud project and its key live.
#[derive(Debug)]
pub struct GcpConfig {
    pub project_id: String,
    pub kms_key_uri: String,
    pub location: String,
    pub service_account_key_path: Option<String>,
}

/// Which safeguards are on.
#[derive(Clone, Copy, Debug)]
pub struct SecurityConfig {
    pub enable_audit_logging: bool,
    pub enable_key_escrow: bool,
    pub audit_log_retention_days: u32,
}

/// The whole configuration.
#[derive(Debug)]
pub struct AppConfig {
    pub gcp: GcpConfig,
    pub security: SecurityConfig,
    pub api_port: u16,
    pub log_level: String,
}

/// The mathematical value of an [`AppConfig`].
pub struct AppConfigView {
    pub project_id: Seq<char>,
    pub kms_key_uri: Seq<char>,
    pub location: Seq<char>,
    pub service_account_key_path: Option<Seq<char>>,
    pub security: SecurityConfig,
    pub api_port: u16,
    pub log_level: Seq<char>,
}

impl AppConfigView {
    /// The complaint about the first setting that cannot work; nothing
    /// where the configuration is valid.
    pub open spec fn fault(self) -> Option<Seq<char>> {
        if self.project_id.len() == 0 {
            Some("GCP project ID cannot be empty"@)
        } else if self.kms_key_uri.len() == 0 {
            Some("KMS key URI cannot be empty"@)
        } else if self.api_port == 0 {
            Some("API port must be greater than 0"@)
        } else {
            None
        }
    }
}

/// The configuration that is used where none is given.
pub open spec fn default_config() -> AppConfigView {
    AppConfigView {
        project_id: "your-project-id"@,
        kms_key_uri: "projects/../cryptoKeys/../cryptoKeyVersions/1"@,
        location: "us-central1"@,
        service_account_key_path: None,
        security: SecurityConfig {
            enable_audit_logging: true,
            enable_key_escrow: true,
            audit_log_retention_days: 365,
        },
        api_port: 8080,
        log_level: "info"@,
    }
}

impl View for AppConfig {
    type V = AppConfigView;

    open spec fn view(&self) -> AppConfigView {
        AppConfigView {
            project_id: self.gcp.project_id@,
            kms_key_uri: self.gcp.kms_key_uri@,
            location: self.gcp.location@,
            service_account_key_path: opt_text(self.gcp.service_account_key_path),
            security: self.security,
            api_port: self.api_port,
            log_level: self.log_level@,
        }
    }
}

impl Clone for GcpConfig {
    fn clone(&self) -> (r: Self)
        ensures
            r.project_id@ == self.project_id@,
            r.kms_key_uri@ == self.kms_key_uri@,
            r.location@ == self.location@,
            opt_text(r.service_account_key_path) == opt_text(self.service_account_key_path),
    {
        GcpConfig {
            project_id: self.project_id.clone(),
            kms_key_uri: self.kms_key_uri.clone(),
            location: self.location.clone(),
            service_account_key_path: clone_opt_text(&self.service_account_key_path),
        }
    }
}

impl Clone for AppConfig {
    fn clone(&self) -> (r: Self)
        ensures
            r@ == self@,
    {
        AppConfig {
            gcp: self.gcp.clone(),
            security: self.security,
            api_port: self.api_port,
            log_level: self.log_level.clone(),
        }
    }
}

impl AppConfig {
    /// The default configuration. It names a placeholder project and key
    /// and is valid.
    pub fn default() -> (config: Self)
        ensures
            config@ == default_config(),
    {
        AppConfig {
            gcp: GcpConfig {
                project_id: "your-project-id".to_string(),
                kms_key_uri: "projects/../cryptoKeys/../cryptoKeyVersions/1".to_string(),
                location: "us-central1".to_string(),
                service_account_key_path: None,
            },
            security: SecurityConfig {
                enable_audit_logging: true,
                enable_key_escrow: true,
                audit_log_retention_days: 365,
            },
            api_port: 8080,
            log_level: "info".to_string(),
        }
    }

    /// Checks the configuration: the project and the key must be named and
    /// the port must not be 0. The error names the first setting that
    /// fails.
    pub fn validate(&self) -> (r: Result<(), DreasError>)
        ensures
            match r {
                Ok(_) => self@.fault() is None,
                Err(e) => self@.fault() is Some && e@ == DreasErrorView::Configuration(
                    self@.fault()->0,
                ),
            },
    {
        if self.gcp.project_id.as_str().is_empty() {
            return Err(DreasError::Configuration("GCP project ID cannot be empty".to_string()));
        }
        if self.gcp.kms_key_uri.as_str().is_empty() {
            return Err(DreasError::Configuration("KMS key URI cannot be empty".to_string()));
        }
        if self.api_port == 0 {
            return Err(DreasError::Configuration("API port must be greater than 0".to_string()));
        }
        Ok(())
    }
}

/// The default configuration passes validation.
pub proof fn lemma_default_config_is_valid()
    ensures
        default_config().fault() is None,
{
    reveal_strlit("your-project-id");
    reveal_strlit("projects/../cryptoKeys/../cryptoKeyVersions/1");
}

} // verus!
