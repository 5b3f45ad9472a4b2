//! Settings of the process, taken from its environment.

use vstd::prelude::*;
use vstd::string::*;
use crate::text::same_text;

verus! {

/// Name of the environment variable for the address to listen on.
pub const BIND_VAR: &'static str = "DDUI_BIND";

/// Name of the environment variable for the scan kind.
pub const SCAN_KIND_VAR: &'static str = "DDUI_SCAN_KIND";

/// Name of the environment variable for the scan root.
pub const SCAN_ROOT_VAR: &'static str = "DDUI_SCAN_ROOT";

/// Name of the environment variable for the refresh interval.
pub const REFRESH_INTERVAL_VAR: &'static str = "DDUI_REFRESH_INTERVAL";

/// Name of the environment variable that names the license variable.
pub const LICENSE_ENV_VAR: &'static str = "DDUI_LICENSE_ENV";

/// Name of the environment variable that names the license file.
pub const LICENSE_PATH_VAR: &'static str = "DDUI_LICENSE_PATH";

/// The values found in the environment, `None` for a variable that is unset
/// or not valid Unicode.
#[derive(Debug)]
pub struct EnvVars {
    pub bind: Option<String>,
    pub scan_kind: Option<String>,
    pub scan_root: Option<String>,
    pub refresh_interval: Option<String>,
    pub license_env: Option<String>,
    pub license_path: Option<String>,
}

/// The settings of the process.
#[derive(Debug)]
pub struct AppConfig {
    pub bind_addr: String,
    pub scan_kind: String,
    pub scan_root: String,
    pub refresh_interval: String,
    pub license_env: String,
    pub license_path: String,
}

/// The settings, as a mathematical value.
pub struct AppConfigView {
    pub bind_addr: Seq<char>,
    pub scan_kind: Seq<char>,
    pub scan_root: Seq<char>,
    pub refresh_interval: Seq<char>,
    pub license_env: Seq<char>,
    pub license_path: Seq<char>,
}

impl View for AppConfig {
    type V = AppConfigView;

    open spec fn view(&self) -> AppConfigView {
        AppConfigView {
            bind_addr: self.bind_addr@,
            scan_kind: self.scan_kind@,
            scan_root: self.scan_root@,
            refresh_interval: self.refresh_interval@,
            license_env: self.license_env@,
            license_path: self.license_path@,
        }
    }
}

/// Why the environment does not give usable settings.
#[derive(Clone, Copy, Debug, PartialEq, Eq, Structural)]
pub enum ConfigError {
    /// The scan kind is neither `local` nor `repo`.
    InvalidScanKind,
}

impl ConfigError {
    /// The message shown for this error.
    pub fn message(&self) -> (r: String)
        ensures
            r@ == "DDUI_SCAN_KIND must be 'local' or 'repo'"@,
    {
        String::from_str("DDUI_SCAN_KIND must be 'local' or 'repo'")
    }
}

/// The value of a variable, or its default where the variable gave none.
pub open spec fn or_default(value: Option<String>, default: Seq<char>) -> Seq<char> {
    match value {
        Some(v) => v@,
        None => default,
    }
}

/// A scan kind that is accepted: `local` or `repo`, exactly.
pub open spec fn is_scan_kind(kind: Seq<char>) -> bool {
    kind == "local"@ || kind == "repo"@
}

/// The settings that `vars` stand for, each missing value replaced by its
/// default.
pub open spec fn settings_of(vars: EnvVars) -> AppConfigView {
    AppConfigView {
        bind_addr: or_default(vars.bind, "0.0.0.0:3000"@),
        scan_kind: or_default(vars.scan_kind, "local"@),
        scan_root: or_default(vars.scan_root, "/opt/docker/ant-parade/docker-compose"@),
        refresh_interval: or_default(vars.refresh_interval, "10m"@),
        license_env: or_default(vars.license_env, "DDUI_LICENSE"@),
        license_path: or_default(vars.license_path, "/run/secrets/ddui_license"@),
    }
}

fn value_or(value: Option<String>, default: &str) -> (r: String)
    ensures
        r@ == or_default(value, default@),
{
    match value {
        Some(v) => v,
        None => String::from_str(default),
    }
}

impl Clone for AppConfig {
    fn clone(&self) -> (r: Self)
        ensures
            r == *self,
    {
        AppConfig {
            bind_addr: self.bind_addr.clone(),
            scan_kind: self.scan_kind.clone(),
            scan_root: self.scan_root.clone(),
            refresh_interval: self.refresh_interval.clone(),
            license_env: self.license_env.clone(),
            license_path: self.license_path.clone(),
        }
    }
}

impl AppConfig {
    /// Builds the settings from the values found in the environment. A
    /// variable that gave no value takes its default. The scan kind, after
    /// that, must be `local` or `repo`: anything else is refused, and nothing
    /// else is.
    pub fn from_env(vars: EnvVars) -> (r: Result<AppConfig, ConfigError>)
        ensures
            r is Ok <==> is_scan_kind(settings_of(vars).scan_kind),
            r matches Ok(cfg) ==> cfg@ == settings_of(vars),
            r matches Err(e) ==> e == ConfigError::InvalidScanKind,
    {
        let bind_addr = value_or(vars.bind, "0.0.0.0:3000");
        let scan_kind = value_or(vars.scan_kind, "local");
        let scan_root = value_or(vars.scan_root, "/opt/docker/ant-parade/docker-compose");
        let refresh_interval = value_or(vars.refresh_interval, "10m");
        let license_env = value_or(vars.license_env, "DDUI_LICENSE");
        let license_path = value_or(vars.license_path, "/run/secrets/ddui_license");

        if !same_text(&scan_kind, "local") && !same_text(&scan_kind, "repo") {
            return Err(ConfigError::InvalidScanKind);
        }
        Ok(AppConfig { bind_addr, scan_kind, scan_root, refresh_interval, license_env, license_path })
    }
}

} // verus!
