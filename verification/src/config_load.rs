//! The settings that the service starts with, and how they are read from the
//! text of its INI file.

use crate::decimal::{parse_decimal, parsed};
use vstd::prelude::*;
use vstd::utf8::encode_utf8;

verus! {

/// The settings of the running service, fixed once it has started.
#[derive(Debug)]
pub struct AppState {
    /// Path of the pool file.
    pub nginx_conf_path: String,
    /// Path that holds the pool file as it was before the last mutation.
    pub nginx_conf_backup_path: String,
    /// Capacity, in MB, that a server uses before it takes any load.
    pub enclave_image_initial_used_capacity_mb: u64,
    /// Capacity, in MB, that one connection is allotted.
    pub allotment_per_workerd_mb: u64,
    /// Port that the service listens on.
    pub port: u16,
}

pub struct AppStateView {
    pub nginx_conf_path: Seq<char>,
    pub nginx_conf_backup_path: Seq<char>,
    pub enclave_image_initial_used_capacity_mb: u64,
    pub allotment_per_workerd_mb: u64,
    pub port: u16,
}

impl View for AppState {
    type V = AppStateView;

    open spec fn view(&self) -> AppStateView {
        AppStateView {
            nginx_conf_path: self.nginx_conf_path@,
            nginx_conf_backup_path: self.nginx_conf_backup_path@,
            enclave_image_initial_used_capacity_mb: self.enclave_image_initial_used_capacity_mb,
            allotment_per_workerd_mb: self.allotment_per_workerd_mb,
            port: self.port,
        }
    }
}

impl AppState {
    /// Settings are usable when the allotment is not zero: the policy
    /// divides by it.
    pub open spec fn wf(&self) -> bool {
        self.allotment_per_workerd_mb > 0
    }
}

/// One of the five settings.
#[derive(Clone, Copy, Debug, PartialEq, Eq, Structural)]
pub enum Setting {
    NginxConfPath,
    NginxConfBackupPath,
    InitialUsedCapacity,
    AllotmentPerWorker,
    Port,
}

/// The longest INI text, in bytes, that is handed to the parser. The parser
/// numbers the lines of its text in a signed 32-bit integer and stops the
/// process where that number runs over; a text of this length has fewer
/// lines than that.
pub const MAX_INI_BYTES: usize = 0x7fff_0000;

/// Why no settings could be made of the file.
#[derive(Debug, PartialEq, Eq)]
pub enum ConfigError {
    /// The text is longer than `MAX_INI_BYTES`; it was not parsed.
    TooLong,
    /// The text is no INI file; the parser's message says why.
    Malformed(String),
    /// The section `env` holds no value for the setting.
    Missing(Setting),
    /// The value of the setting is not a number in its range.
    NotANumber(Setting),
    /// The allotment is zero.
    ZeroAllotment,
}

pub enum ConfigErrorView {
    TooLong,
    Malformed(Seq<char>),
    Missing(Setting),
    NotANumber(Setting),
    ZeroAllotment,
}

impl View for ConfigError {
    type V = ConfigErrorView;

    open spec fn view(&self) -> ConfigErrorView {
        match *self {
            ConfigError::TooLong => ConfigErrorView::TooLong,
            ConfigError::Malformed(why) => ConfigErrorView::Malformed(why@),
            ConfigError::Missing(setting) => ConfigErrorView::Missing(setting),
            ConfigError::NotANumber(setting) => ConfigErrorView::NotANumber(setting),
            ConfigError::ZeroAllotment => ConfigErrorView::ZeroAllotment,
        }
    }
}

/// What looking a key up in an INI text gives: the parser's message where
/// the text is malformed, else the value where the key has one.
pub type Lookup = Result<Option<String>, String>;

/// View of a lookup.
pub open spec fn lookup_view(lookup: Lookup) -> Result<Option<Seq<char>>, Seq<char>> {
    match lookup {
        Ok(Some(value)) => Ok(Some(value@)),
        Ok(None) => Ok(None),
        Err(why) => Err(why@),
    }
}

/// View of settings or the reason why there are none.
pub open spec fn config_view(config: Result<AppState, ConfigError>) -> Result<
    AppStateView,
    ConfigErrorView,
> {
    match config {
        Ok(state) => Ok(state@),
        Err(error) => Err(error@),
    }
}

/// The value of a setting that is text.
pub open spec fn text_setting(
    lookup: Result<Option<Seq<char>>, Seq<char>>,
    setting: Setting,
) -> Result<Seq<char>, ConfigErrorView> {
    match lookup {
        Err(why) => Err(ConfigErrorView::Malformed(why)),
        Ok(None) => Err(ConfigErrorView::Missing(setting)),
        Ok(Some(value)) => Ok(value),
    }
}

/// The value of a setting that is a number up to `max`, written in decimal.
pub open spec fn number_setting(
    lookup: Result<Option<Seq<char>>, Seq<char>>,
    setting: Setting,
    max: nat,
) -> Result<nat, ConfigErrorView> {
    match text_setting(lookup, setting) {
        Err(error) => Err(error),
        Ok(value) => match parsed(encode_utf8(value), max) {
            None => Err(ConfigErrorView::NotANumber(setting)),
            Some(n) => Ok(n),
        },
    }
}

/// The settings that five lookups give. They are taken in the order of the
/// parameters, and the first that fails decides the error. An allotment of
/// zero fails in its turn.
pub open spec fn config_of(
    path: Result<Option<Seq<char>>, Seq<char>>,
    backup_path: Result<Option<Seq<char>>, Seq<char>>,
    capacity: Result<Option<Seq<char>>, Seq<char>>,
    allotment: Result<Option<Seq<char>>, Seq<char>>,
    port: Result<Option<Seq<char>>, Seq<char>>,
) -> Result<AppStateView, ConfigErrorView> {
    match text_setting(path, Setting::NginxConfPath) {
        Err(error) => Err(error),
        Ok(nginx_conf_path) => match text_setting(backup_path, Setting::NginxConfBackupPath) {
            Err(error) => Err(error),
            Ok(nginx_conf_backup_path) => match number_setting(
                capacity,
                Setting::InitialUsedCapacity,
                u64::MAX as nat,
            ) {
                Err(error) => Err(error),
                Ok(baseline) => match number_setting(
                    allotment,
                    Setting::AllotmentPerWorker,
                    u64::MAX as nat,
                ) {
                    Err(error) => Err(error),
                    Ok(per_worker) => if per_worker == 0 {
                        Err(ConfigErrorView::ZeroAllotment)
                    } else {
                        match number_setting(port, Setting::Port, u16::MAX as nat) {
                            Err(error) => Err(error),
                            Ok(listen) => Ok(
                                AppStateView {
                                    nginx_conf_path,
                                    nginx_conf_backup_path,
                                    enclave_image_initial_used_capacity_mb: baseline as u64,
                                    allotment_per_workerd_mb: per_worker as u64,
                                    port: listen as u16,
                                },
                            ),
                        }
                    },
                },
            },
        },
    }
}

/// Takes the text of a setting out of its lookup.
fn text_of(lookup: Lookup, setting: Setting) -> (value: Result<String, ConfigError>)
    ensures
        match value {
            Ok(text) => text_setting(lookup_view(lookup), setting) == Ok::<
                Seq<char>,
                ConfigErrorView,
            >(text@),
            Err(error) => text_setting(lookup_view(lookup), setting) == Err::<
                Seq<char>,
                ConfigErrorView,
            >(error@),
        },
{
    match lookup {
        Err(why) => Err(ConfigError::Malformed(why)),
        Ok(None) => Err(ConfigError::Missing(setting)),
        Ok(Some(value)) => Ok(value),
    }
}

/// Takes the number of a setting out of its lookup.
fn number_of(lookup: Lookup, setting: Setting, max: u64) -> (value: Result<u64, ConfigError>)
    ensures
        match value {
            Ok(n) => number_setting(lookup_view(lookup), setting, max as nat) == Ok::<
                nat,
                ConfigErrorView,
            >(n as nat),
            Err(error) => number_setting(lookup_view(lookup), setting, max as nat) == Err::<
                nat,
                ConfigErrorView,
            >(error@),
        },
        value is Ok ==> value->Ok_0 <= max,
{
    match text_of(lookup, setting) {
        Err(error) => Err(error),
        Ok(text) => match parse_decimal(text.as_str().as_bytes(), max) {
            None => Err(ConfigError::NotANumber(setting)),
            Some(n) => Ok(n),
        },
    }
}

/// Makes the settings of what the five lookups gave.
pub fn build_config(
    path: Lookup,
    backup_path: Lookup,
    capacity: Lookup,
    allotment: Lookup,
    port: Lookup,
) -> (config: Result<AppState, ConfigError>)
    ensures
        config_view(config) == config_of(
            lookup_view(path),
            lookup_view(backup_path),
            lookup_view(capacity),
            lookup_view(allotment),
            lookup_view(port),
        ),
        config is Ok ==> config->Ok_0.wf(),
{
    let nginx_conf_path = match text_of(path, Setting::NginxConfPath) {
        Err(error) => { return Err(error); },
        Ok(value) => value,
    };
    let nginx_conf_backup_path = match text_of(backup_path, Setting::NginxConfBackupPath) {
        Err(error) => { return Err(error); },
        Ok(value) => value,
    };
    let baseline: u64 = match number_of(capacity, Setting::InitialUsedCapacity, u64::MAX) {
        Err(error) => { return Err(error); },
        Ok(value) => value,
    };
    let per_worker: u64 = match number_of(allotment, Setting::AllotmentPerWorker, u64::MAX) {
        Err(error) => { return Err(error); },
        Ok(value) => value,
    };
    if per_worker == 0 {
        return Err(ConfigError::ZeroAllotment);
    }
    let listen: u64 = match number_of(port, Setting::Port, 65535u64) {
        Err(error) => { return Err(error); },
        Ok(value) => value,
    };
    Ok(
        AppState {
            nginx_conf_path,
            nginx_conf_backup_path,
            enclave_image_initial_used_capacity_mb: baseline,
            allotment_per_workerd_mb: per_worker,
            port: listen as u16,
        },
    )
}

/// The section of the INI file that holds the settings.
pub open spec fn section_name() -> Seq<char> {
    "env"@
}

/// The key under which a setting stands in the section.
pub open spec fn setting_key(setting: Setting) -> Seq<char> {
    match setting {
        Setting::NginxConfPath => "NGINX_CONF_PATH"@,
        Setting::NginxConfBackupPath => "NGINX_CONF_BACKUP_PATH"@,
        Setting::InitialUsedCapacity => "ENCLAVE_IMAGE_INITIAL_USED_CAPACITY_MB"@,
        Setting::AllotmentPerWorker => "ALLOTMENT_PER_WORKERD_MB"@,
        Setting::Port => "PORT"@,
    }
}

/// The key under which a setting stands in the section.
pub fn key_of(setting: Setting) -> (key: &'static str)
    ensures
        key@ == setting_key(setting),
{
    match setting {
        Setting::NginxConfPath => "NGINX_CONF_PATH",
        Setting::NginxConfBackupPath => "NGINX_CONF_BACKUP_PATH",
        Setting::InitialUsedCapacity => "ENCLAVE_IMAGE_INITIAL_USED_CAPACITY_MB",
        Setting::AllotmentPerWorker => "ALLOTMENT_PER_WORKERD_MB",
        Setting::Port => "PORT",
    }
}

/// What configparser's `Ini`, as `Ini::new` makes it, says of `key` in
/// `section` once it has read `text`: the message of `Ini::read` where that
/// fails, else what `Ini::get` returns.
pub uninterp spec fn ini_value(text: Seq<char>, section: Seq<char>, key: Seq<char>) -> Result<
    Option<Seq<char>>,
    Seq<char>,
>;

/// Looks one key up in an INI text with configparser: makes a parser with
/// `Ini::new`, has it read the text with `Ini::read` and asks it with
/// `Ini::get`. Nothing is proved of the parser; the contract only gives its
/// answer a name, which says that the answer depends on the three texts
/// alone. The text may not be longer than `MAX_INI_BYTES`: the parser's line
/// counter would run over on a text of some two thousand million lines.
#[verifier::external_body]
fn read_ini_value(text: &str, section: &str, key: &str) -> (value: Lookup)
    requires
        encode_utf8(text@).len() <= MAX_INI_BYTES,
    ensures
        lookup_view(value) == ini_value(text@, section@, key@),
{
    let mut ini = configparser::ini::Ini::new();
    ini.read(text.to_owned())?;
    Ok(ini.get(section, key))
}

/// What the INI text says of a setting.
pub open spec fn setting_lookup(text: Seq<char>, setting: Setting) -> Result<
    Option<Seq<char>>,
    Seq<char>,
> {
    ini_value(text, section_name(), setting_key(setting))
}

/// Looks a setting up in the INI text.
fn look_up(text: &str, setting: Setting) -> (value: Lookup)
    requires
        encode_utf8(text@).len() <= MAX_INI_BYTES,
    ensures
        lookup_view(value) == setting_lookup(text@, setting),
{
    read_ini_value(text, "env", key_of(setting))
}

/// The settings that an INI text gives: none for a text longer than
/// `MAX_INI_BYTES`, else what the five keys of the section `env` give.
pub open spec fn config_of_text(text: Seq<char>) -> Result<AppStateView, ConfigErrorView> {
    if encode_utf8(text).len() > MAX_INI_BYTES {
        Err(ConfigErrorView::TooLong)
    } else {
        config_of(
            setting_lookup(text, Setting::NginxConfPath),
            setting_lookup(text, Setting::NginxConfBackupPath),
            setting_lookup(text, Setting::InitialUsedCapacity),
            setting_lookup(text, Setting::AllotmentPerWorker),
            setting_lookup(text, Setting::Port),
        )
    }
}

/// Reads the settings from the text of the INI file: the five keys of the
/// section `env`, as the parser gives them, made into settings as
/// `build_config` does. A text longer than `MAX_INI_BYTES` is refused
/// unread.
pub fn get_config(text: &str) -> (config: Result<AppState, ConfigError>)
    ensures
        config_view(config) == config_of_text(text@),
        config is Ok ==> config->Ok_0.wf(),
{
    if text.as_bytes().len() > MAX_INI_BYTES {
        return Err(ConfigError::TooLong);
    }
    let path = look_up(text, Setting::NginxConfPath);
    let backup_path = look_up(text, Setting::NginxConfBackupPath);
    let capacity = look_up(text, Setting::InitialUsedCapacity);
    let allotment = look_up(text, Setting::AllotmentPerWorker);
    let port = look_up(text, Setting::Port);
    build_config(path, backup_path, capacity, allotment, port)
}

/// Hands out the settings that the service starts with. The service cannot
/// start without them: a caller that has none stops instead of calling.
pub fn settled(config: Result<AppState, ConfigError>) -> (state: AppState)
    requires
        config is Ok,
    ensures
        state == config->Ok_0,
{
    match config {
        Ok(state) => state,
        Err(_) => unreached(),
    }
}

} // verus!
