//! The settings of the operator, taken from its environment.
use vstd::prelude::*;

verus! {

/// The settings of the operator.
#[derive(Debug, Clone, PartialEq)]
pub struct AppConfig {
    pub schema: String,
    pub host: String,
    pub port: String,
    pub rathole_image: String,
    pub rathole_config_path: String,
    pub rathole_config_name: String,
}

/// The value of a setting: the one given, or its default.
pub open spec fn or_default(given: Option<String>, default: Seq<char>) -> Seq<char> {
    match given {
        Some(s) => s@,
        None => default,
    }
}

/// The given text, or a copy of `default` where none is given.
fn value_or(given: Option<String>, default: &str) -> (s: String)
    ensures
        s@ == or_default(given, default@),
{
    match given {
        Some(s) => s,
        None => String::from_str(default),
    }
}

impl AppConfig {
    /// The settings from the values of the environment variables
    /// `OPERATOR_SCHEMA`, `OPERATOR_HOST`, `OPERATOR_PORT`, `RATHOLE_IMAGE` and
    /// `RATHOLE_CONFIG_PATH` (`None` where a variable is unset); each unset one
    /// takes its default. The name of the configuration file is taken from
    /// `RATHOLE_CONFIG_PATH` too, with `config.toml` as its default.
    pub fn from_env_values(
        schema: Option<String>,
        host: Option<String>,
        port: Option<String>,
        rathole_image: Option<String>,
        rathole_config_path: Option<String>,
    ) -> (c: AppConfig)
        ensures
            c.schema@ == or_default(schema, "http"@),
            c.host@ == or_default(host, "0.0.0.0"@),
            c.port@ == or_default(port, "8080"@),
            c.rathole_image@ == or_default(rathole_image, "rapiz1/rathole:v0.5.0"@),
            c.rathole_config_path@ == or_default(rathole_config_path, "/tmp"@),
            c.rathole_config_name@ == or_default(rathole_config_path, "config.toml"@),
    {
        let config_name_var = rathole_config_path.clone();
        AppConfig {
            schema: value_or(schema, "http"),
            host: value_or(host, "0.0.0.0"),
            port: value_or(port, "8080"),
            rathole_image: value_or(rathole_image, "rapiz1/rathole:v0.5.0"),
            rathole_config_path: value_or(rathole_config_path, "/tmp"),
            rathole_config_name: value_or(config_name_var, "config.toml"),
        }
    }
}

} // verus!
