//! The command's switches, the defaults that a configuration file adds to
//! them, and what they ask to be found out about each match.
use vstd::prelude::*;

verus! {

/// The command's on/off switches.
#[derive(Clone, Copy)]
pub struct Options {
    pub all: bool,
    pub first_only: bool,
    pub show_symlink: bool,
    pub show_size: bool,
    pub verbose: bool,
    pub json: bool,
    pub pretty: bool,
    pub yaml: bool,
    pub csv: bool,
    pub plain: bool,
    pub color: bool,
    pub hash: bool,
    pub time: bool,
    pub package: bool,
    pub version_info: bool,
    pub why: bool,
    pub trace: bool,
    pub benchmark: bool,
    pub doctor: bool,
    pub about: bool,
    pub quiet: bool,
    pub arch: bool,
    pub security: bool,
    pub libs: bool,
    pub interactive: bool,
    pub suggest: bool,
    pub resolve: bool,
    pub explain: bool,
}

/// Defaults read from the configuration file; a missing key leaves the switch as it is.
pub struct Config {
    pub color: Option<bool>,
    pub output: Option<String>,
    pub package: Option<bool>,
    pub version_info: Option<bool>,
    pub all: Option<bool>,
}

/// What to find out about each match found on the local filesystem.
pub struct Plan {
    /// The canonical path.
    pub canonical: bool,
    /// The target of a symbolic link.
    pub symlink_target: bool,
    /// The size in bytes.
    pub size: bool,
    /// Inode, owner and permissions.
    pub ownership: bool,
    /// The SHA-256 of the contents.
    pub hash: bool,
    /// The package that owns the file.
    pub package: bool,
    /// The first line of `--version` output.
    pub version: bool,
    /// The filesystem type.
    pub filesystem: bool,
    /// Architecture, linkage and libraries from the ELF headers.
    pub binary: bool,
}

/// A configuration flag set to true turns the switch on.
pub open spec fn with_flag(current: bool, flag: Option<bool>) -> bool {
    current || flag == Some(true)
}

impl Options {
    /// Output goes to a machine-readable format.
    pub open spec fn structured(&self) -> bool {
        self.json || self.yaml || self.csv
    }

    /// Every detail of every match is wanted.
    pub open spec fn everything(&self) -> bool {
        self.structured() || self.trace
    }

    /// Whether output goes to a machine-readable format (JSON, YAML or CSV).
    pub fn is_structured(&self) -> (r: bool)
        ensures
            r == self.structured(),
    {
        self.json || self.yaml || self.csv
    }

    /// Whether every detail of every match is wanted: structured output or a trace.
    pub fn fetch_all(&self) -> (r: bool)
        ensures
            r == self.everything(),
    {
        self.is_structured() || self.trace
    }

    /// Adds the configuration file's defaults: each flag set to true turns its
    /// switch on, and `output` names one of `json`, `yaml`, `csv` or `plain` to
    /// turn on (any other name is ignored). Nothing is turned off.
    pub fn apply_config(&mut self, config: &Config)
        ensures
            final(self).color == with_flag(old(self).color, config.color),
            final(self).package == with_flag(old(self).package, config.package),
            final(self).version_info == with_flag(old(self).version_info, config.version_info),
            final(self).all == with_flag(old(self).all, config.all),
            final(self).json == (old(self).json || (config.output matches Some(o) && o@ == "json"@)),
            final(self).yaml == (old(self).yaml || (config.output matches Some(o) && o@ == "yaml"@)),
            final(self).csv == (old(self).csv || (config.output matches Some(o) && o@ == "csv"@)),
            final(self).plain == (old(self).plain || (config.output matches Some(o) && o@
                == "plain"@)),
            final(self).first_only == old(self).first_only,
            final(self).show_symlink == old(self).show_symlink,
            final(self).show_size == old(self).show_size,
            final(self).verbose == old(self).verbose,
            final(self).pretty == old(self).pretty,
            final(self).hash == old(self).hash,
            final(self).time == old(self).time,
            final(self).why == old(self).why,
            final(self).trace == old(self).trace,
            final(self).benchmark == old(self).benchmark,
            final(self).doctor == old(self).doctor,
            final(self).about == old(self).about,
            final(self).quiet == old(self).quiet,
            final(self).arch == old(self).arch,
            final(self).security == old(self).security,
            final(self).libs == old(self).libs,
            final(self).interactive == old(self).interactive,
            final(self).suggest == old(self).suggest,
            final(self).resolve == old(self).resolve,
            final(self).explain == old(self).explain,
    {
        let name = match &config.output {
            Some(o) => output_name(o.as_str()),
            None => OutputName::Other,
        };
        let old = *self;
        *self = Options {
            color: old.color || config.color == Some(true),
            package: old.package || config.package == Some(true),
            version_info: old.version_info || config.version_info == Some(true),
            all: old.all || config.all == Some(true),
            json: old.json || matches!(name, OutputName::Json),
            yaml: old.yaml || matches!(name, OutputName::Yaml),
            csv: old.csv || matches!(name, OutputName::Csv),
            plain: old.plain || matches!(name, OutputName::Plain),
            ..old
        };
    }

    /// What to find out about each match on the local filesystem.
    pub fn plan(&self) -> (p: Plan)
        ensures
            p.canonical == self.everything(),
            p.symlink_target == (self.show_symlink || self.verbose || self.everything()),
            p.size == (self.show_size || self.verbose || self.everything()),
            p.ownership == (self.verbose || self.everything()),
            p.hash == (self.hash || self.everything()),
            p.package == (self.package || self.everything()),
            p.version == (self.version_info || self.everything()),
            p.filesystem == (self.trace || self.everything()),
            p.binary == (self.arch || self.security || self.libs || self.everything()),
    {
        let all = self.fetch_all();
        Plan {
            canonical: all,
            symlink_target: self.show_symlink || self.verbose || all,
            size: self.show_size || self.verbose || all,
            ownership: self.verbose || all,
            hash: self.hash || all,
            package: self.package || all,
            version: self.version_info || all,
            filesystem: self.trace || all,
            binary: self.arch || self.security || self.libs || all,
        }
    }

    /// Whether a file found inside a container image is copied out for inspection.
    pub fn inspects_container_files(&self) -> (r: bool)
        ensures
            r == (self.hash || self.show_size || self.arch || self.security || self.libs
                || self.verbose),
    {
        self.hash || self.show_size || self.arch || self.security || self.libs || self.verbose
    }
}

/// The output formats that the configuration file can name.
pub enum OutputName {
    Json,
    Yaml,
    Csv,
    Plain,
    Other,
}

/// Which output format `name` names.
pub fn output_name(name: &str) -> (r: OutputName)
    ensures
        (r is Json) == (name@ == "json"@),
        (r is Yaml) == (name@ == "yaml"@),
        (r is Csv) == (name@ == "csv"@),
        (r is Plain) == (name@ == "plain"@),
{
    proof {
        reveal_strlit("json");
        reveal_strlit("yaml");
        reveal_strlit("csv");
        reveal_strlit("plain");
        assert("json"@[0] == 'j' && "yaml"@[0] == 'y' && "csv"@[0] == 'c' && "plain"@[0] == 'p');
    }
    if str_is(name, "json") {
        OutputName::Json
    } else if str_is(name, "yaml") {
        OutputName::Yaml
    } else if str_is(name, "csv") {
        OutputName::Csv
    } else if str_is(name, "plain") {
        OutputName::Plain
    } else {
        OutputName::Other
    }
}

/// Whether the two strings are equal.
pub fn str_is(a: &str, b: &str) -> (r: bool)
    ensures
        r == (a@ == b@),
{
    let x = crate::text::chars_of(a);
    let y = crate::text::chars_of(b);
    crate::text::chars_eq(&x, &y)
}

} // verus!
