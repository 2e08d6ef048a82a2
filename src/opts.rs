//! Options of the commands, and how they are merged with the settings of the
//! `.ultraman` dotfile: an option given on the command line wins.

use crate::decimal::{signed_decimal_chars, signed_decimal_text};
use crate::procfile::DEFAULT_FORMATION;
use vstd::prelude::*;

verus! {

/// The manifest read when no other is named.
pub const DEFAULT_PROCFILE: &'static str = "Procfile";

/// The environment file read when no other is named.
pub const DEFAULT_ENV: &'static str = ".env";

/// Seconds of grace before children are killed, when the dotfile names none.
pub const DEFAULT_TIMEOUT: i64 = 5;

pub const DEFAULT_NO_TIMESTAMP: bool = false;

/// The settings found in the dotfile, each `None` when absent.
pub struct ConfigValues {
    pub procfile_path: Option<String>,
    pub env_path: Option<String>,
    pub formation: Option<String>,
    pub timeout: Option<i64>,
    pub is_no_timestamp: Option<bool>,
    pub port: Option<i64>,
    pub app: Option<String>,
    pub log_path: Option<String>,
    pub run_path: Option<String>,
    pub template_path: Option<String>,
    pub user: Option<String>,
    pub root_path: Option<String>,
}

/// The dotfile settings, with defaults in place of what is absent.
pub struct Config {
    pub procfile_path: String,
    pub env_path: String,
    pub formation: String,
    pub timeout: i64,
    pub is_no_timestamp: bool,
    pub port: Option<i64>,
    pub app: Option<String>,
    pub log_path: Option<String>,
    pub run_path: Option<String>,
    pub template_path: Option<String>,
    pub user: Option<String>,
    pub root_path: Option<String>,
}

pub open spec fn opt_text(o: Option<String>) -> Option<Seq<char>> {
    match o {
        Some(s) => Some(s@),
        None => None,
    }
}

pub open spec fn text_or(o: Option<String>, d: Seq<char>) -> Seq<char> {
    match o {
        Some(s) => s@,
        None => d,
    }
}

fn copy_opt(o: &Option<String>) -> (r: Option<String>)
    ensures
        opt_text(r) == opt_text(*o),
{
    match o {
        Some(s) => Some(s.clone()),
        None => None,
    }
}

fn text_or_default(o: &Option<String>, d: &str) -> (r: String)
    ensures
        r@ == text_or(*o, d@),
{
    match o {
        Some(s) => s.clone(),
        None => d.to_string(),
    }
}

impl Config {
    /// The settings of a dotfile, or of none when `values` are all `None`.
    pub fn with_defaults(values: &ConfigValues) -> (r: Config)
        ensures
            r.procfile_path@ == text_or(values.procfile_path, DEFAULT_PROCFILE@),
            r.env_path@ == text_or(values.env_path, DEFAULT_ENV@),
            r.formation@ == text_or(values.formation, DEFAULT_FORMATION@),
            r.timeout == (match values.timeout {
                Some(t) => t,
                None => DEFAULT_TIMEOUT,
            }),
            r.is_no_timestamp == (match values.is_no_timestamp {
                Some(b) => b,
                None => DEFAULT_NO_TIMESTAMP,
            }),
            r.port == values.port,
            opt_text(r.app) == opt_text(values.app),
            opt_text(r.log_path) == opt_text(values.log_path),
            opt_text(r.run_path) == opt_text(values.run_path),
            opt_text(r.template_path) == opt_text(values.template_path),
            opt_text(r.user) == opt_text(values.user),
            opt_text(r.root_path) == opt_text(values.root_path),
    {
        Config {
            procfile_path: text_or_default(&values.procfile_path, DEFAULT_PROCFILE),
            env_path: text_or_default(&values.env_path, DEFAULT_ENV),
            formation: text_or_default(&values.formation, DEFAULT_FORMATION),
            timeout: match values.timeout {
                Some(t) => t,
                None => DEFAULT_TIMEOUT,
            },
            is_no_timestamp: match values.is_no_timestamp {
                Some(b) => b,
                None => DEFAULT_NO_TIMESTAMP,
            },
            port: values.port,
            app: copy_opt(&values.app),
            log_path: copy_opt(&values.log_path),
            run_path: copy_opt(&values.run_path),
            template_path: copy_opt(&values.template_path),
            user: copy_opt(&values.user),
            root_path: copy_opt(&values.root_path),
        }
    }
}

/// Options of `start`.
pub struct StartOpts {
    pub formation: Option<String>,
    pub env_path: Option<String>,
    pub procfile_path: Option<String>,
    pub timeout: Option<String>,
    pub port: Option<String>,
    pub is_no_timestamp: Option<bool>,
}

/// Options of `check`.
pub struct CheckOpts {
    pub procfile_path: Option<String>,
}

/// Options of `run`.
pub struct RunOpts {
    pub app_name: String,
    pub env_path: Option<String>,
    pub procfile_path: Option<String>,
}

/// The option if given, else the dotfile's setting.
pub open spec fn given_or(o: Option<String>, d: Seq<char>) -> Option<Seq<char>> {
    match o {
        Some(s) => Some(s@),
        None => Some(d),
    }
}

fn given_or_text(o: &Option<String>, d: &String) -> (r: Option<String>)
    ensures
        opt_text(r) == given_or(*o, d@),
{
    match o {
        Some(s) => Some(s.clone()),
        None => Some(d.clone()),
    }
}

impl StartOpts {
    /// The options of `start`, the dotfile filling in what was not given.
    pub fn merged_opts(&self, dotconfig: &Config) -> (r: StartOpts)
        ensures
            opt_text(r.formation) == given_or(self.formation, dotconfig.formation@),
            opt_text(r.env_path) == given_or(self.env_path, dotconfig.env_path@),
            opt_text(r.procfile_path) == given_or(self.procfile_path, dotconfig.procfile_path@),
            opt_text(r.timeout) == given_or(self.timeout, signed_decimal_chars(dotconfig.timeout as int)),
            opt_text(r.port) == match self.port {
                Some(p) => Some(p@),
                None => match dotconfig.port {
                    Some(p) => Some(signed_decimal_chars(p as int)),
                    None => None,
                },
            },
            r.is_no_timestamp == Some(
                match self.is_no_timestamp {
                    Some(b) => b,
                    None => dotconfig.is_no_timestamp,
                },
            ),
    {
        StartOpts {
            formation: given_or_text(&self.formation, &dotconfig.formation),
            env_path: given_or_text(&self.env_path, &dotconfig.env_path),
            procfile_path: given_or_text(&self.procfile_path, &dotconfig.procfile_path),
            timeout: given_or_text(&self.timeout, &signed_decimal_text(dotconfig.timeout)),
            port: match &self.port {
                Some(p) => Some(p.clone()),
                None => match dotconfig.port {
                    Some(p) => Some(signed_decimal_text(p)),
                    None => None,
                },
            },
            is_no_timestamp: Some(
                match self.is_no_timestamp {
                    Some(b) => b,
                    None => dotconfig.is_no_timestamp,
                },
            ),
        }
    }
}

impl CheckOpts {
    /// The options of `check`, the dotfile filling in what was not given.
    pub fn merged_opts(&self, dotconfig: &Config) -> (r: CheckOpts)
        ensures
            opt_text(r.procfile_path) == given_or(self.procfile_path, dotconfig.procfile_path@),
    {
        CheckOpts { procfile_path: given_or_text(&self.procfile_path, &dotconfig.procfile_path) }
    }
}

impl RunOpts {
    /// The options of `run`, the dotfile filling in what was not given.
    pub fn merged_opts(&self, dotconfig: &Config) -> (r: RunOpts)
        ensures
            r.app_name@ == self.app_name@,
            opt_text(r.env_path) == given_or(self.env_path, dotconfig.env_path@),
            opt_text(r.procfile_path) == given_or(self.procfile_path, dotconfig.procfile_path@),
    {
        RunOpts {
            app_name: self.app_name.clone(),
            env_path: given_or_text(&self.env_path, &dotconfig.env_path),
            procfile_path: given_or_text(&self.procfile_path, &dotconfig.procfile_path),
        }
    }
}

/// Options of `export`.
pub struct ExportOpts {
    pub format: String,
    pub location: String,
    pub app: Option<String>,
    pub formation: Option<String>,
    pub log_path: Option<String>,
    pub run_path: Option<String>,
    pub port: Option<String>,
    pub template_path: Option<String>,
    pub user: Option<String>,
    pub env_path: Option<String>,
    pub procfile_path: Option<String>,
    pub root_path: Option<String>,
    pub timeout: Option<String>,
}

/// The option if given, else the dotfile's optional setting.
pub open spec fn either(o: Option<String>, d: Option<String>) -> Option<Seq<char>> {
    match o {
        Some(s) => Some(s@),
        None => opt_text(d),
    }
}

fn either_text(o: &Option<String>, d: &Option<String>) -> (r: Option<String>)
    ensures
        opt_text(r) == either(*o, *d),
{
    match o {
        Some(s) => Some(s.clone()),
        None => copy_opt(d),
    }
}

impl ExportOpts {
    /// The options of `export`, the dotfile filling in what was not given.
    pub fn merged_opts(&self, dotconfig: &Config) -> (r: ExportOpts)
        ensures
            r.format@ == self.format@,
            r.location@ == self.location@,
            opt_text(r.formation) == given_or(self.formation, dotconfig.formation@),
            opt_text(r.env_path) == given_or(self.env_path, dotconfig.env_path@),
            opt_text(r.procfile_path) == given_or(self.procfile_path, dotconfig.procfile_path@),
            opt_text(r.timeout) == given_or(self.timeout, signed_decimal_chars(dotconfig.timeout as int)),
            opt_text(r.port) == match self.port {
                Some(p) => Some(p@),
                None => match dotconfig.port {
                    Some(p) => Some(signed_decimal_chars(p as int)),
                    None => None,
                },
            },
            opt_text(r.app) == either(self.app, dotconfig.app),
            opt_text(r.log_path) == either(self.log_path, dotconfig.log_path),
            opt_text(r.root_path) == either(self.root_path, dotconfig.root_path),
            opt_text(r.run_path) == either(self.run_path, dotconfig.run_path),
            opt_text(r.template_path) == either(self.template_path, dotconfig.template_path),
            opt_text(r.user) == either(self.user, dotconfig.user),
    {
        ExportOpts {
            format: self.format.clone(),
            location: self.location.clone(),
            formation: given_or_text(&self.formation, &dotconfig.formation),
            env_path: given_or_text(&self.env_path, &dotconfig.env_path),
            procfile_path: given_or_text(&self.procfile_path, &dotconfig.procfile_path),
            timeout: given_or_text(&self.timeout, &signed_decimal_text(dotconfig.timeout)),
            port: match &self.port {
                Some(p) => Some(p.clone()),
                None => match dotconfig.port {
                    Some(p) => Some(signed_decimal_text(p)),
                    None => None,
                },
            },
            app: either_text(&self.app, &dotconfig.app),
            log_path: either_text(&self.log_path, &dotconfig.log_path),
            root_path: either_text(&self.root_path, &dotconfig.root_path),
            run_path: either_text(&self.run_path, &dotconfig.run_path),
            template_path: either_text(&self.template_path, &dotconfig.template_path),
            user: either_text(&self.user, &dotconfig.user),
        }
    }
}

} // verus!
