//! Configuration: the `config.yaml` schema, the layering of defaults, file,
//! command line and environment into the effective VM settings, their
//! validation, and the per-certificate step of CA certificate staging.
use vstd::prelude::*;
use crate::text;

verus! {

/// The only `config.yaml` schema version this release understands.
pub const CONFIG_VERSION: u64 = 1;

/// VM settings as written in `config.yaml`; every key is optional.
#[derive(Clone, Debug, PartialEq, Eq, Structural)]
pub struct FileVmConfig {
    pub cpus: Option<u64>,
    pub memory_mb: Option<u64>,
    pub disk_gb: Option<u64>,
}

/// The `ca:` section of `config.yaml`.
#[derive(Clone, Debug)]
pub struct CaConfig {
    pub extra_certs: Vec<String>,
}

/// The contents of `config.yaml`.
#[derive(Clone, Debug)]
pub struct AppConfig {
    pub version: Option<u64>,
    pub vm: FileVmConfig,
    pub log_level: Option<String>,
    pub ca: CaConfig,
}

/// The VM resources that `spk up` finally uses.
#[derive(Clone, Copy, Debug, PartialEq, Eq, Structural)]
pub struct EffectiveVmConfig {
    pub cpus: u64,
    pub memory_mb: u64,
    pub disk_gb: u64,
}

/// The configuration after every source has been applied.
#[derive(Clone, Debug)]
pub struct EffectiveConfig {
    pub vm: EffectiveVmConfig,
    pub log_level: String,
    pub extra_certs: Vec<String>,
}

/// An unknown key found in `config.yaml`.
#[derive(Clone, Debug)]
pub struct ConfigWarning {
    pub path: String,
    pub message: String,
}

/// Which sources contributed to a configuration.
#[derive(Clone, Copy, Debug, Default, PartialEq, Eq, Structural)]
pub struct ConfigSources {
    pub config_file: bool,
    pub cli: bool,
    pub env: bool,
}

/// The string keys of the three mappings of a `config.yaml` document, in
/// document order: the top level, and the `vm` and `ca` sections where they
/// are mappings.
#[derive(Clone, Debug)]
pub struct ConfigKeys {
    pub top: Vec<String>,
    pub vm: Option<Vec<String>>,
    pub ca: Option<Vec<String>>,
}

/// The VM overrides given on the `spk up` command line.
#[derive(Clone, Copy, Debug, PartialEq, Eq, Structural)]
pub struct UpOverrides {
    pub cpus: Option<u64>,
    pub memory: Option<u64>,
    pub disk: Option<u64>,
}

/// What reading one environment variable gave.
#[derive(Clone, Debug)]
pub enum EnvVar {
    NotPresent,
    /// The variable is set but not Unicode; the text describes the value.
    NotUnicode(String),
    Present(String),
}

/// The `SPECK_*` environment variables that configure `spk up`.
#[derive(Clone, Debug)]
pub struct SpeckEnv {
    pub vm_cpus: EnvVar,
    pub vm_memory_mb: EnvVar,
    pub vm_disk_gb: EnvVar,
    pub log_level: EnvVar,
}

/// Why a configuration was rejected.
#[derive(Clone, Debug, PartialEq, Eq)]
pub enum ConfigError {
    /// `config.yaml` declares a schema version other than 1.
    UnsupportedVersion(Option<u64>),
    /// A numeric variable is set but not Unicode.
    EnvNotUnicode { var: String, unit: String, detail: String },
    /// A numeric variable does not hold an unsigned integer.
    EnvNotInteger { var: String, unit: String, value: String },
    /// The log level is not a valid tracing filter directive; `source` names
    /// where it came from.
    InvalidLogLevel { source: String },
    ZeroCpus,
    CpusExceedPhysicalCores { cpus: u64, physical_cores: u64 },
    MemoryBelowMinimum,
    ZeroDisk,
    /// The host did not report its physical core count.
    CoreCountUnavailable,
}

impl ConfigError {
    /// The human-readable text of the error.
    pub fn message(&self) -> (r: String)
        ensures
            self matches ConfigError::UnsupportedVersion(v) ==> r@ == "unsupported config version "@
                + match v {
                Some(n) => "Some("@ + text::decimal_text(n as nat) + ")"@,
                None => "None"@,
            } + "; expected version 1"@,
            self matches ConfigError::EnvNotUnicode { var, unit, detail } ==> r@ == var@
                + " must be valid UTF-8 "@ + unit@ + ": "@ + detail@,
            self matches ConfigError::EnvNotInteger { var, unit, value } ==> r@ == var@
                + " must be an unsigned integer "@ + unit@ + "; got `"@ + value@ + "`"@,
            self matches ConfigError::InvalidLogLevel { source } ==> r@ == source@
                + " must be a valid tracing EnvFilter directive"@,
            self is ZeroCpus ==> r@ == "vm.cpus must be at least 1"@,
            self matches ConfigError::CpusExceedPhysicalCores { cpus, physical_cores } ==> r@
                == "vm.cpus ("@ + text::decimal_text(cpus as nat) + ") exceeds host physical core count ("@
                + text::decimal_text(physical_cores as nat) + ")"@,
            self is MemoryBelowMinimum ==> r@ == "vm.memory_mb must be at least 512 MiB"@,
            self is ZeroDisk ==> r@ == "vm.disk_gb must be at least 1 GiB"@,
            self is CoreCountUnavailable ==> r@ == "failed to determine host physical core count"@,
    {
        match self {
            ConfigError::UnsupportedVersion(v) => {
                let mut r = text::string_of("unsupported config version ");
                match v {
                    Some(n) => {
                        text::push_str(&mut r, "Some(");
                        text::push_decimal(&mut r, *n);
                        text::push_str(&mut r, ")");
                    },
                    None => text::push_str(&mut r, "None"),
                }
                text::push_str(&mut r, "; expected version 1");
                r
            },
            ConfigError::EnvNotUnicode { var, unit, detail } => {
                let mut r = text::string_of(var.as_str());
                text::push_str(&mut r, " must be valid UTF-8 ");
                text::push_str(&mut r, unit.as_str());
                text::push_str(&mut r, ": ");
                text::push_str(&mut r, detail.as_str());
                r
            },
            ConfigError::EnvNotInteger { var, unit, value } => {
                let mut r = text::string_of(var.as_str());
                text::push_str(&mut r, " must be an unsigned integer ");
                text::push_str(&mut r, unit.as_str());
                text::push_str(&mut r, "; got `");
                text::push_str(&mut r, value.as_str());
                text::push_str(&mut r, "`");
                r
            },
            ConfigError::InvalidLogLevel { source } => text::concat2(
                source.as_str(),
                " must be a valid tracing EnvFilter directive",
            ),
            ConfigError::ZeroCpus => text::string_of("vm.cpus must be at least 1"),
            ConfigError::CpusExceedPhysicalCores { cpus, physical_cores } => {
                let mut r = text::string_of("vm.cpus (");
                text::push_decimal(&mut r, *cpus);
                text::push_str(&mut r, ") exceeds host physical core count (");
                text::push_decimal(&mut r, *physical_cores);
                text::push_str(&mut r, ")");
                r
            },
            ConfigError::MemoryBelowMinimum => text::string_of("vm.memory_mb must be at least 512 MiB"),
            ConfigError::ZeroDisk => text::string_of("vm.disk_gb must be at least 1 GiB"),
            ConfigError::CoreCountUnavailable => text::string_of(
                "failed to determine host physical core count",
            ),
        }
    }
}

impl Default for FileVmConfig {
    fn default() -> (r: Self)
        ensures
            r.cpus is None && r.memory_mb is None && r.disk_gb is None,
    {
        FileVmConfig { cpus: None, memory_mb: None, disk_gb: None }
    }
}

impl Default for CaConfig {
    fn default() -> (r: Self)
        ensures
            r.extra_certs@.len() == 0,
    {
        CaConfig { extra_certs: Vec::new() }
    }
}

impl Default for AppConfig {
    fn default() -> (r: Self)
        ensures
            r.version == Some(CONFIG_VERSION),
            r.vm == (FileVmConfig { cpus: None, memory_mb: None, disk_gb: None }),
            (r.log_level is None),
            r.ca.extra_certs@.len() == 0,
    {
        AppConfig {
            version: Some(CONFIG_VERSION),
            vm: FileVmConfig::default(),
            log_level: None,
            ca: CaConfig::default(),
        }
    }
}

impl Default for EffectiveVmConfig {
    fn default() -> (r: Self)
        ensures
            r == (EffectiveVmConfig { cpus: 2, memory_mb: 2048, disk_gb: 20 }),
    {
        EffectiveVmConfig { cpus: 2, memory_mb: 2048, disk_gb: 20 }
    }
}

impl Default for EffectiveConfig {
    fn default() -> (r: Self)
        ensures
            r.vm == (EffectiveVmConfig { cpus: 2, memory_mb: 2048, disk_gb: 20 }),
            r.log_level@ == "info"@,
            r.extra_certs@.len() == 0,
    {
        EffectiveConfig {
            vm: EffectiveVmConfig::default(),
            log_level: text::string_of("info"),
            extra_certs: Vec::new(),
        }
    }
}

/// The schema version assumed when `config.yaml` omits `version`.
pub fn default_config_version() -> (r: Option<u64>)
    ensures
        r == Some(CONFIG_VERSION),
{
    Some(CONFIG_VERSION)
}

/// Accepts exactly the schema version 1.
pub fn check_config_version(version: Option<u64>) -> (r: Result<(), ConfigError>)
    ensures
        version == Some(CONFIG_VERSION) ==> r is Ok,
        version != Some(CONFIG_VERSION) ==> (r matches Err(ConfigError::UnsupportedVersion(v))
            && v == version),
{
    match version {
        Some(v) => if v == CONFIG_VERSION {
            Ok(())
        } else {
            Err(ConfigError::UnsupportedVersion(version))
        },
        None => Err(ConfigError::UnsupportedVersion(version)),
    }
}

/// What `parse_env_u64` makes of a variable: `Some(None)` when unset,
/// `Some(Some(n))` for a number, `None` when it is rejected.
pub open spec fn env_u64_outcome(v: EnvVar) -> Option<Option<int>> {
    match v {
        EnvVar::NotPresent => Some(None),
        EnvVar::NotUnicode(_) => None,
        EnvVar::Present(s) => match text::parse_unsigned(s@, u64::MAX as int) {
            Some(n) => Some(Some(n)),
            None => None,
        },
    }
}

/// Whether `e` is the error that `parse_env_u64` reports for variable `var`
/// with unit `unit` and value `v`.
pub open spec fn is_env_error(e: ConfigError, var: Seq<char>, unit: Seq<char>, v: EnvVar) -> bool {
    match v {
        EnvVar::NotUnicode(d) => e matches ConfigError::EnvNotUnicode { var: a, unit: b, detail: c }
            && a@ == var && b@ == unit && c@ == d@,
        EnvVar::Present(s) => e matches ConfigError::EnvNotInteger { var: a, unit: b, value: c }
            && a@ == var && b@ == unit && c@ == s@,
        EnvVar::NotPresent => false,
    }
}

/// Reads an unsigned integer setting from the value of variable `var_name`;
/// `unit` names the unit in error messages.
pub fn parse_env_u64(var_name: &str, unit: &str, value: &EnvVar) -> (r: Result<Option<u64>, ConfigError>)
    ensures
        match env_u64_outcome(*value) {
            Some(o) => r matches Ok(x) && match o {
                Some(n) => x == Some(n as u64),
                None => x is None,
            },
            None => r matches Err(e) && is_env_error(e, var_name@, unit@, *value),
        },
{
    match value {
        EnvVar::NotPresent => Ok(None),
        EnvVar::NotUnicode(detail) => Err(
            ConfigError::EnvNotUnicode {
                var: text::string_of(var_name),
                unit: text::string_of(unit),
                detail: detail.clone(),
            },
        ),
        EnvVar::Present(s) => match text::parse_u64(s.as_str()) {
            Some(n) => Ok(Some(n)),
            None => Err(
                ConfigError::EnvNotInteger {
                    var: text::string_of(var_name),
                    unit: text::string_of(unit),
                    value: s.clone(),
                },
            ),
        },
    }
}

/// Whether `tracing_subscriber::EnvFilter::try_new` accepts `directives`.
pub uninterp spec fn env_filter_accepts(directives: Seq<char>) -> bool;

/// Calls `tracing_subscriber::EnvFilter::try_new(directives)` and reports whether
/// it parsed; the parse depends on the directive text alone.
#[verifier::external_body]
fn env_filter_parses(directives: &str) -> (r: bool)
    ensures
        r == env_filter_accepts(directives@),
{
    tracing_subscriber::EnvFilter::try_new(directives).is_ok()
}

/// Whether `s` is a usable log level: no white space, and a valid tracing
/// filter directive.
pub open spec fn log_level_valid(s: Seq<char>) -> bool {
    (forall|i: int| 0 <= i < s.len() ==> !text::is_ws(#[trigger] s[i])) && env_filter_accepts(s)
}

/// Validates a log level; `source` names where it came from in the error.
pub fn validate_log_level(source: &str, value: &str) -> (r: Result<(), ConfigError>)
    ensures
        log_level_valid(value@) ==> r is Ok,
        !log_level_valid(value@) ==> (r matches Err(ConfigError::InvalidLogLevel { source: s })
            && s@ == source@),
{
    let cs = text::chars_of(value);
    let mut i: usize = 0;
    while i < cs.len()
        invariant
            i <= cs@.len(),
            cs@ == value@,
            forall|j: int| 0 <= j < i ==> !text::is_ws(#[trigger] cs@[j]),
        decreases cs@.len() - i,
    {
        if text::is_ws_char(cs[i]) {
            return Err(ConfigError::InvalidLogLevel { source: text::string_of(source) });
        }
        i += 1;
    }
    if !env_filter_parses(value) {
        return Err(ConfigError::InvalidLogLevel { source: text::string_of(source) });
    }
    Ok(())
}

/// The first violated rule of a VM configuration, if any.
pub open spec fn vm_config_error(config: EffectiveVmConfig, physical_cores: u64) -> Option<
    ConfigError,
> {
    if config.cpus == 0 {
        Some(ConfigError::ZeroCpus)
    } else if config.cpus > physical_cores {
        Some(ConfigError::CpusExceedPhysicalCores { cpus: config.cpus, physical_cores })
    } else if config.memory_mb < 512 {
        Some(ConfigError::MemoryBelowMinimum)
    } else if config.disk_gb == 0 {
        Some(ConfigError::ZeroDisk)
    } else {
        None
    }
}

/// Checks the VM resources against the host: at least one vCPU and no more
/// than the physical cores, at least 512 MiB of memory, at least 1 GiB of disk.
pub fn validate_effective_vm_config_with_physical_cores(
    config: &EffectiveVmConfig,
    physical_cores: u64,
) -> (r: Result<(), ConfigError>)
    ensures
        r == validation_outcome(*config, physical_cores),
{
    if config.cpus == 0 {
        return Err(ConfigError::ZeroCpus);
    }
    if config.cpus > physical_cores {
        return Err(ConfigError::CpusExceedPhysicalCores { cpus: config.cpus, physical_cores });
    }
    if config.memory_mb < 512 {
        return Err(ConfigError::MemoryBelowMinimum);
    }
    if config.disk_gb == 0 {
        return Err(ConfigError::ZeroDisk);
    }
    Ok(())
}

/// The outcome of validating `config` on a host with `physical_cores` cores.
pub open spec fn validation_outcome(config: EffectiveVmConfig, physical_cores: u64) -> Result<
    (),
    ConfigError,
> {
    match vm_config_error(config, physical_cores) {
        Some(e) => Err(e),
        None => Ok(()),
    }
}

/// `sysinfo::System::physical_core_count`: the number of physical cores of the
/// host, or `None` when the host does not report it. The count is read from
/// the machine, so nothing is stated of it.
#[verifier::external_body]
fn sysinfo_physical_core_count() -> (r: Option<usize>) {
    sysinfo::System::new().physical_core_count()
}

/// The host's physical core count as `sysinfo` reports it; `None` when the
/// host does not report one (a caller may then ask `sysctl hw.physicalcpu`).
pub fn physical_core_count() -> (r: Option<u64>) {
    match sysinfo_physical_core_count() {
        Some(n) => Some(n as u64),
        None => None,
    }
}

/// Checks the VM resources against this host's physical core count.
/// Whatever count the host reports, the result is the validation against that
/// count; when it reports none, the result is `CoreCountUnavailable`.
pub fn validate_effective_vm_config(config: &EffectiveVmConfig) -> (r: Result<(), ConfigError>)
    ensures
        r matches Err(ConfigError::CoreCountUnavailable) || exists|cores: u64|
            r == #[trigger] validation_outcome(*config, cores),
        config.cpus == 0 ==> (r matches Err(e) && (e is ZeroCpus || e is CoreCountUnavailable)),
{
    match physical_core_count() {
        Some(cores) => {
            let r = validate_effective_vm_config_with_physical_cores(config, cores);
            assert(r == validation_outcome(*config, cores));
            r
        },
        None => Err(ConfigError::CoreCountUnavailable),
    }
}

/// `base` replaced by `over` when it is given.
pub open spec fn layer(base: u64, over: Option<u64>) -> u64 {
    match over {
        Some(v) => v,
        None => base,
    }
}

/// An environment layer that parsed, as an override.
pub open spec fn env_layer(v: EnvVar) -> Option<u64> {
    match env_u64_outcome(v) {
        Some(Some(n)) => Some(n as u64),
        _ => None,
    }
}

/// The VM resources before validation: defaults, then the file, then the
/// command line, then the environment, each later source winning.
pub open spec fn layered_vm(file: FileVmConfig, cli: UpOverrides, env: SpeckEnv) -> EffectiveVmConfig {
    EffectiveVmConfig {
        cpus: layer(layer(layer(2, file.cpus), cli.cpus), env_layer(env.vm_cpus)),
        memory_mb: layer(layer(layer(2048, file.memory_mb), cli.memory), env_layer(env.vm_memory_mb)),
        disk_gb: layer(layer(layer(20, file.disk_gb), cli.disk), env_layer(env.vm_disk_gb)),
    }
}

/// Each VM setting comes from the first source that gives it: a variable of
/// the environment that parsed, else the command line, else the file, else
/// the default (2 vCPUs, 2048 MiB, 20 GiB).
pub proof fn lemma_setting_precedence(file: FileVmConfig, cli: UpOverrides, env: SpeckEnv)
    ensures
        layered_vm(file, cli, env).cpus == match (env_layer(env.vm_cpus), cli.cpus, file.cpus) {
            (Some(v), _, _) => v,
            (None, Some(v), _) => v,
            (None, None, Some(v)) => v,
            (None, None, None) => 2,
        },
        layered_vm(file, cli, env).memory_mb == match (
            env_layer(env.vm_memory_mb),
            cli.memory,
            file.memory_mb,
        ) {
            (Some(v), _, _) => v,
            (None, Some(v), _) => v,
            (None, None, Some(v)) => v,
            (None, None, None) => 2048,
        },
        layered_vm(file, cli, env).disk_gb == match (env_layer(env.vm_disk_gb), cli.disk, file.disk_gb) {
            (Some(v), _, _) => v,
            (None, Some(v), _) => v,
            (None, None, Some(v)) => v,
            (None, None, None) => 20,
        },
{
}

/// The log level before validation: `SPECK_LOG_LEVEL` when it is set and
/// Unicode, else the file's `log_level`, else `info`.
pub open spec fn layered_log_level(file: Option<Seq<char>>, env: EnvVar) -> Seq<char> {
    match env {
        EnvVar::Present(s) => s@,
        _ => match file {
            Some(l) => l,
            None => "info"@,
        },
    }
}

/// Where the log level came from, as error messages name it.
pub open spec fn log_level_source(env: EnvVar) -> Seq<char> {
    match env {
        EnvVar::Present(_) => "SPECK_LOG_LEVEL"@,
        _ => "log_level"@,
    }
}

/// What resolving the configuration gives on a host with `physical_cores`
/// cores: each setting takes the first of the environment, the command line,
/// the file and the default; a malformed numeric variable is reported first
/// (CPUs, then memory, then disk), then an invalid log level, then the first
/// violated VM rule.
pub open spec fn resolves_to(
    file: AppConfig,
    cli: UpOverrides,
    env: SpeckEnv,
    physical_cores: u64,
    r: Result<EffectiveConfig, ConfigError>,
) -> bool {
    let lvl = layered_log_level(
        match file.log_level {
            Some(l) => Some(l@),
            None => None,
        },
        env.log_level,
    );
    let vm = layered_vm(file.vm, cli, env);
    if env_u64_outcome(env.vm_cpus) is None {
        r matches Err(e) && is_env_error(e, "SPECK_VM_CPUS"@, "vCPU count"@, env.vm_cpus)
    } else if env_u64_outcome(env.vm_memory_mb) is None {
        r matches Err(e) && is_env_error(e, "SPECK_VM_MEMORY_MB"@, "MiB"@, env.vm_memory_mb)
    } else if env_u64_outcome(env.vm_disk_gb) is None {
        r matches Err(e) && is_env_error(e, "SPECK_VM_DISK_GB"@, "GiB"@, env.vm_disk_gb)
    } else if !log_level_valid(lvl) {
        r matches Err(ConfigError::InvalidLogLevel { source: s }) && s@ == log_level_source(
            env.log_level,
        )
    } else {
        match vm_config_error(vm, physical_cores) {
            Some(e) => r == Err::<EffectiveConfig, ConfigError>(e),
            None => r matches Ok(c) && c.vm == vm && c.log_level@ == lvl && c.extra_certs
                == file.ca.extra_certs,
        }
    }
}

/// Resolves the effective configuration against a host with `physical_cores`
/// cores.
pub fn resolve_effective_config_with_physical_cores(
    file: AppConfig,
    cli: &UpOverrides,
    env: &SpeckEnv,
    physical_cores: u64,
) -> (r: Result<EffectiveConfig, ConfigError>)
    ensures
        resolves_to(file, *cli, *env, physical_cores, r),
{
    let mut effective = EffectiveConfig::default();
    if let Some(cpus) = file.vm.cpus {
        effective.vm.cpus = cpus;
    }
    if let Some(memory_mb) = file.vm.memory_mb {
        effective.vm.memory_mb = memory_mb;
    }
    if let Some(disk_gb) = file.vm.disk_gb {
        effective.vm.disk_gb = disk_gb;
    }
    if let Some(log_level) = file.log_level {
        effective.log_level = log_level;
    }
    effective.extra_certs = file.ca.extra_certs;

    if let Some(cpus) = cli.cpus {
        effective.vm.cpus = cpus;
    }
    if let Some(memory_mb) = cli.memory {
        effective.vm.memory_mb = memory_mb;
    }
    if let Some(disk_gb) = cli.disk {
        effective.vm.disk_gb = disk_gb;
    }

    if let Some(cpus) = parse_env_u64("SPECK_VM_CPUS", "vCPU count", &env.vm_cpus)? {
        effective.vm.cpus = cpus;
    }
    if let Some(memory_mb) = parse_env_u64("SPECK_VM_MEMORY_MB", "MiB", &env.vm_memory_mb)? {
        effective.vm.memory_mb = memory_mb;
    }
    if let Some(disk_gb) = parse_env_u64("SPECK_VM_DISK_GB", "GiB", &env.vm_disk_gb)? {
        effective.vm.disk_gb = disk_gb;
    }
    match &env.log_level {
        EnvVar::Present(level) => {
            effective.log_level = level.clone();
            validate_log_level("SPECK_LOG_LEVEL", effective.log_level.as_str())?;
        },
        _ => {
            validate_log_level("log_level", effective.log_level.as_str())?;
        },
    }
    validate_effective_vm_config_with_physical_cores(&effective.vm, physical_cores)?;
    Ok(effective)
}

/// Resolves the effective configuration against this host: whatever physical
/// core count the host reports, the result is the resolution against that
/// count; when it reports none, the result is `CoreCountUnavailable`.
pub fn resolve_effective_config(file: AppConfig, cli: &UpOverrides, env: &SpeckEnv) -> (r: Result<
    EffectiveConfig,
    ConfigError,
>)
    ensures
        r matches Err(ConfigError::CoreCountUnavailable) || exists|cores: u64|
            #[trigger] resolves_to(file, *cli, *env, cores, r),
{
    let ghost f = file;
    match physical_core_count() {
        Some(cores) => {
            let r = resolve_effective_config_with_physical_cores(file, cli, env, cores);
            assert(resolves_to(f, *cli, *env, cores, r));
            r
        },
        None => Err(ConfigError::CoreCountUnavailable),
    }
}

/// The mappings of `config.yaml` whose keys are checked.
#[derive(Clone, Copy, Debug, PartialEq, Eq, Structural)]
pub enum ConfigSection {
    Top,
    Vm,
    Ca,
}

/// The keys that each section of `config.yaml` defines.
pub open spec fn known_key(section: ConfigSection, k: Seq<char>) -> bool {
    match section {
        ConfigSection::Top => k == "version"@ || k == "vm"@ || k == "log_level"@ || k == "ca"@,
        ConfigSection::Vm => k == "cpus"@ || k == "memory_mb"@ || k == "disk_gb"@,
        ConfigSection::Ca => k == "extra_certs"@,
    }
}

/// The prefix that a section's keys carry in warning paths.
pub open spec fn section_prefix(section: ConfigSection) -> Seq<char> {
    match section {
        ConfigSection::Top => Seq::empty(),
        ConfigSection::Vm => "vm."@,
        ConfigSection::Ca => "ca."@,
    }
}

/// The warnings, as (path, message) pairs, for the unknown keys among `keys`, in order.
pub open spec fn unknown_key_warnings(keys: Seq<Seq<char>>, section: ConfigSection) -> Seq<
    (Seq<char>, Seq<char>),
>
    decreases keys.len(),
{
    if keys.len() == 0 {
        Seq::empty()
    } else {
        let rest = unknown_key_warnings(keys.drop_last(), section);
        let k = keys.last();
        if known_key(section, k) {
            rest
        } else {
            let path = section_prefix(section) + k;
            rest.push((path, "unknown config key `"@ + path + "` ignored"@))
        }
    }
}

/// A warning as its (path, message) pair.
pub open spec fn warning_view(w: ConfigWarning) -> (Seq<char>, Seq<char>) {
    (w.path@, w.message@)
}

/// The views of a list of strings.
pub open spec fn strings_view(v: Seq<String>) -> Seq<Seq<char>> {
    v.map_values(|s: String| s@)
}

fn is_known_key(section: ConfigSection, k: &str) -> (r: bool)
    ensures
        r == known_key(section, k@),
{
    match section {
        ConfigSection::Top => text::str_eq(k, "version") || text::str_eq(k, "vm")
            || text::str_eq(k, "log_level") || text::str_eq(k, "ca"),
        ConfigSection::Vm => text::str_eq(k, "cpus") || text::str_eq(k, "memory_mb")
            || text::str_eq(k, "disk_gb"),
        ConfigSection::Ca => text::str_eq(k, "extra_certs"),
    }
}

fn push_unknown_keys(out: &mut Vec<ConfigWarning>, keys: &Vec<String>, section: ConfigSection)
    ensures
        final(out)@.map_values(|w: ConfigWarning| warning_view(w)) == old(out)@.map_values(
            |w: ConfigWarning| warning_view(w),
        ) + unknown_key_warnings(strings_view(keys@), section),
{
    let ghost base = old(out)@.map_values(|w: ConfigWarning| warning_view(w));
    let mut i: usize = 0;
    while i < keys.len()
        invariant
            i <= keys@.len(),
            out@.map_values(|w: ConfigWarning| warning_view(w)) == base + unknown_key_warnings(
                strings_view(keys@.subrange(0, i as int)),
                section,
            ),
        decreases keys@.len() - i,
    {
        let k = keys[i].as_str();
        let ghost before = out@;
        assert(strings_view(keys@.subrange(0, i + 1)).drop_last() =~= strings_view(
            keys@.subrange(0, i as int),
        ));
        assert(strings_view(keys@.subrange(0, i + 1)).last() == keys@[i as int]@);
        if !is_known_key(section, k) {
            let path = match section {
                ConfigSection::Top => text::string_of(k),
                ConfigSection::Vm => text::concat2("vm.", k),
                ConfigSection::Ca => text::concat2("ca.", k),
            };
            assert(path@ == section_prefix(section) + k@) by {
                if section is Top {
                    assert(path@ =~= Seq::<char>::empty() + k@);
                }
            }
            let message = text::concat3("unknown config key `", path.as_str(), "` ignored");
            out.push(ConfigWarning { path, message });
            assert(out@.map_values(|w: ConfigWarning| warning_view(w)) =~= before.map_values(
                |w: ConfigWarning| warning_view(w),
            ).push(warning_view(out@.last())));
        }
        i += 1;
    }
    assert(keys@.subrange(0, i as int) =~= keys@);
}

/// Lists the unknown keys of a `config.yaml` document as warnings: first the
/// top-level ones, then those of `vm`, then those of `ca`.
pub fn collect_unknown_keys(keys: &ConfigKeys) -> (r: Vec<ConfigWarning>)
    ensures
        r@.map_values(|w: ConfigWarning| warning_view(w)) == unknown_key_warnings(
            strings_view(keys.top@),
            ConfigSection::Top,
        ) + match keys.vm {
            Some(v) => unknown_key_warnings(strings_view(v@), ConfigSection::Vm),
            None => Seq::empty(),
        } + match keys.ca {
            Some(c) => unknown_key_warnings(strings_view(c@), ConfigSection::Ca),
            None => Seq::empty(),
        },
{
    let mut out: Vec<ConfigWarning> = Vec::new();
    assert(out@.map_values(|w: ConfigWarning| warning_view(w)) =~= Seq::empty());
    push_unknown_keys(&mut out, &keys.top, ConfigSection::Top);
    let ghost after_top = out@.map_values(|w: ConfigWarning| warning_view(w));
    match &keys.vm {
        Some(v) => push_unknown_keys(&mut out, v, ConfigSection::Vm),
        None => {},
    }
    let ghost after_vm = out@.map_values(|w: ConfigWarning| warning_view(w));
    match &keys.ca {
        Some(c) => push_unknown_keys(&mut out, c, ConfigSection::Ca),
        None => {},
    }
    proof {
        if keys.vm is None {
            assert(after_vm =~= after_top + Seq::empty());
        }
        if keys.ca is None {
            assert(out@.map_values(|w: ConfigWarning| warning_view(w)) =~= after_vm
                + Seq::empty());
        }
    }
    out
}

/// Why a CA certificate file was refused.
#[derive(Clone, Debug, PartialEq, Eq)]
pub enum CaCertError {
    /// The file could not be read.
    FileNotFound(String),
    /// The file is not UTF-8 text framed by PEM markers.
    NotValidPem(String),
}

impl CaCertError {
    /// The human-readable text of the error.
    pub fn message(&self) -> (r: String)
        ensures
            self matches CaCertError::FileNotFound(p) ==> r@ == "file not found: "@ + p@,
            self matches CaCertError::NotValidPem(p) ==> r@ == "not valid PEM: "@ + p@,
    {
        match self {
            CaCertError::FileNotFound(p) => text::concat2("file not found: ", p.as_str()),
            CaCertError::NotValidPem(p) => text::concat2("not valid PEM: ", p.as_str()),
        }
    }
}

/// The lower-case hexadecimal SHA-256 digest of `data`, as `format!("{:x}", ..)`
/// renders `sha2::Sha256::digest(data)`.
pub uninterp spec fn sha256_lower_hex(data: Seq<u8>) -> Seq<char>;

/// Computes `sha2::Sha256::digest(data)` and renders it in lower-case hex.
#[verifier::external_body]
fn sha256_hex(data: &[u8]) -> (r: String)
    ensures
        r@ == sha256_lower_hex(data@),
{
    format!("{:x}", <sha2::Sha256 as sha2::Digest>::digest(data))
}

/// Whether file contents look like PEM: UTF-8 text that, trimmed, starts with
/// `-----BEGIN ` and ends with `-----`.
pub open spec fn looks_like_pem(contents: Seq<u8>) -> bool {
    vstd::utf8::valid_utf8(contents) && {
        let t = text::trim(vstd::utf8::decode_utf8(contents));
        text::starts_with(t, "-----BEGIN "@) && text::ends_with(t, "-----"@)
    }
}

/// Checks one configured CA certificate and decides whether it must be
/// staged: `contents` is what reading `path` gave (`None` when it could not be
/// read), `seen` the digests staged so far. A new certificate is staged as
/// `{ca_certs_dir}/{sha256}.pem`, whose path is returned; a duplicate returns
/// `None`.
pub fn stage_ca_cert(
    ca_certs_dir: &str,
    path: &str,
    contents: Option<&[u8]>,
    seen: &mut Vec<String>,
) -> (r: Result<Option<String>, CaCertError>)
    ensures
        contents is None ==> (r matches Err(CaCertError::FileNotFound(p)) && p@ == path@
            && final(seen)@ == old(seen)@),
        contents matches Some(c) ==> (!looks_like_pem(c@) ==> (r matches Err(
            CaCertError::NotValidPem(p),
        ) && p@ == path@ && final(seen)@ == old(seen)@)),
        contents matches Some(c) ==> (looks_like_pem(c@) ==> {
            let h = sha256_lower_hex(c@);
            if exists|i: int| 0 <= i < old(seen)@.len() && (#[trigger] old(seen)@[i])@ == h {
                r matches Ok(None) && final(seen)@ == old(seen)@
            } else {
                r matches Ok(Some(d)) && d@ == text::path_join(ca_certs_dir@, h + ".pem"@)
                    && final(seen)@.len() == old(seen)@.len() + 1 && final(seen)@.subrange(
                    0,
                    old(seen)@.len() as int,
                ) == old(seen)@ && final(seen)@.last()@ == h
            }
        }),
{
    let bytes = match contents {
        Some(b) => b,
        None => return Err(CaCertError::FileNotFound(text::string_of(path))),
    };
    let pem_text = match text::utf8_text(bytes) {
        Some(t) => t,
        None => return Err(CaCertError::NotValidPem(text::string_of(path))),
    };
    let trimmed = text::trimmed_chars(pem_text.as_str());
    let begin = text::chars_of("-----BEGIN ");
    let dashes = text::chars_of("-----");
    if !text::chars_start_with(trimmed.as_slice(), begin.as_slice()) || !text::chars_end_with(
        trimmed.as_slice(),
        dashes.as_slice(),
    ) {
        return Err(CaCertError::NotValidPem(text::string_of(path)));
    }
    let hash_hex = sha256_hex(bytes);
    if text::strings_contain(seen, hash_hex.as_str()) {
        return Ok(None);
    }
    let file_name = text::concat2(hash_hex.as_str(), ".pem");
    let dest = text::join_path(ca_certs_dir, file_name.as_str());
    seen.push(hash_hex);
    assert(seen@.subrange(0, seen@.len() - 1) =~= old(seen)@);
    Ok(Some(dest))
}

} // verus!
