use vstd::prelude::*;
use vstd::string::StringExecFns;

verus! {

/// How permissive the server's CORS policy is.
#[derive(Debug, Clone, Copy, PartialEq, Eq, Structural)]
pub enum CorsSetting {
    Default,
    VeryPermissive,
}

impl Default for CorsSetting {
    /// The default policy is the default one.
    fn default() -> (res: Self)
        ensures
            res == CorsSetting::Default,
    {
        CorsSetting::Default
    }
}

impl CorsSetting {
    /// The setting in snake case, as configuration files write it.
    pub fn as_ref(&self) -> (text: &'static str)
        ensures
            text@ == (match *self {
                CorsSetting::Default => "default"@,
                CorsSetting::VeryPermissive => "very_permissive"@,
            }),
    {
        match self {
            CorsSetting::Default => "default",
            CorsSetting::VeryPermissive => "very_permissive",
        }
    }
}

/// The server's directories and CORS policy. The directories are absolute
/// and cleaned when read from configuration.
#[derive(Debug, Clone)]
pub struct Server {
    pub path_dir_public: String,
    pub path_dir_data_session: String,
    pub cors: CorsSetting,
}

/// Where a database is reached.
#[derive(Debug, Clone)]
pub struct DBGeneric {
    pub uri: String,
}

/// The databases the server uses.
#[derive(Debug, Clone)]
pub struct Databases {
    pub postgres: DBGeneric,
}

/// The certificate and key files of TLS, absolute and cleaned when read
/// from configuration.
#[derive(Debug, Clone)]
pub struct Tls {
    pub cert: String,
    pub key: String,
}

/// The whole configuration of the server.
#[derive(Debug, Clone)]
pub struct ConfigThis {
    pub databases: Databases,
    pub server: Server,
    pub run_env: String,
    pub tls: Option<Tls>,
}

/// The prefix of the environment variables that override configuration.
pub const ENV_PREFIX: &'static str = "THIS";
/// The separator of nested keys in those environment variables.
pub const ENV_SEPARATOR: &'static str = "_";

/// The run mode when none is set.
pub open spec fn default_run_mode() -> Seq<char> {
    "development"@
}

/// The configuration files, in the order in which later ones override
/// earlier ones: the base file, the file of the run mode, the local file.
pub open spec fn config_files(run_mode: Seq<char>) -> Seq<Seq<char>> {
    seq!["./configs/base.toml"@, "./configs/"@ + run_mode + ".toml"@, "./configs/local.toml"@]
}

impl ConfigThis {
    /// The configuration files to read for a run mode, `development` when
    /// none is set; none of them has to exist.
    pub fn source_files(run_mode: Option<String>) -> (res: Vec<String>)
        ensures
            res@.len() == 3,
            forall|i: int| 0 <= i < 3 ==> #[trigger] res@[i]@ == config_files(
                match run_mode {
                    Some(m) => m@,
                    None => default_run_mode(),
                },
            )[i],
    {
        let mode = match run_mode {
            Some(m) => m,
            None => String::from_str("development"),
        };
        let mut res = Vec::new();
        res.push(String::from_str("./configs/base.toml"));
        res.push(String::from_str("./configs/").concat(mode.as_str()).concat(".toml"));
        res.push(String::from_str("./configs/local.toml"));
        res
    }
}

} // verus!
