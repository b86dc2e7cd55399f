//! The configuration that the host gives to a tracer: where its files lie on
//! each platform, and the entries that they resolve to for one process.

use vstd::prelude::*;
use vstd::slice::slice_to_vec;
use crate::text::{text_eq, texts};

verus! {

/// A platform on which the configuration files are looked up.
#[derive(Debug, Clone, Copy, PartialEq, Eq, Structural)]
pub enum Target {
    Linux,
    Macos,
    Windows,
}

/// Why a configuration could not be had.
#[derive(Debug, PartialEq, Eq)]
pub enum ConfigError {
    /// The name is none of `linux`, `win32` and `darwin`.
    UnsupportedTarget,
    /// The configuration files could not be read or applied; the text says
    /// why.
    Failed(String),
}

/// What is said of a configuration that could not be resolved: the fixed
/// words, then the resolver's description.
pub open spec fn failure_text(detail: Seq<char>) -> Seq<char> {
    "Failed to get configuration: "@ + detail
}

/// The message for a configuration that could not be resolved.
pub fn failure_message(detail: &str) -> (r: String)
    ensures
        r@ == failure_text(detail@),
{
    "Failed to get configuration: ".to_owned().concat(detail)
}

impl ConfigError {
    /// What the host is told of the failure.
    pub open spec fn text(self) -> Seq<char> {
        match self {
            ConfigError::UnsupportedTarget => "Unsupported target"@,
            ConfigError::Failed(detail) => failure_text(detail@),
        }
    }

    /// The message that the host is given for the failure.
    pub fn message(&self) -> (r: String)
        ensures
            r@ == self.text(),
    {
        match self {
            ConfigError::UnsupportedTarget => "Unsupported target".to_owned(),
            ConfigError::Failed(detail) => failure_message(detail.as_str()),
        }
    }
}

/// The platform that Node.js names `name`.
pub open spec fn target_named(name: Seq<char>) -> Option<Target> {
    if name == "linux"@ {
        Some(Target::Linux)
    } else if name == "win32"@ {
        Some(Target::Windows)
    } else if name == "darwin"@ {
        Some(Target::Macos)
    } else {
        None
    }
}

/// Where the local configuration file lies on a platform.
pub open spec fn local_path(target: Target) -> Seq<char> {
    match target {
        Target::Linux => "/etc/datadog-agent/application_monitoring.yaml"@,
        Target::Macos => "/opt/datadog-agent/etc/application_monitoring.yaml"@,
        Target::Windows => "C:\\ProgramData\\Datadog\\application_monitoring.yaml"@,
    }
}

/// Where the configuration file that fleet management writes lies on a
/// platform.
pub open spec fn managed_path(target: Target) -> Seq<char> {
    match target {
        Target::Linux => "/etc/datadog-agent/managed/datadog-agent/stable/application_monitoring.yaml"@,
        Target::Macos => "/opt/datadog-agent/etc/stable/application_monitoring.yaml"@,
        Target::Windows => "C:\\ProgramData\\Datadog\\managed\\datadog-agent\\stable\\application_monitoring.yaml"@,
    }
}

/// The platform that Node.js names `name`, where it is one of the three.
pub fn target_of(name: &str) -> (r: Option<Target>)
    ensures
        r == target_named(name@),
{
    if text_eq(name, "linux") {
        Some(Target::Linux)
    } else if text_eq(name, "win32") {
        Some(Target::Windows)
    } else if text_eq(name, "darwin") {
        Some(Target::Macos)
    } else {
        None
    }
}

/// Calls `Configurator::local_stable_configuration_path` of
/// libdd-library-config, which gives one fixed path for each platform.
#[verifier::external_body]
fn local_stable_configuration_path(target: Target) -> (r: &'static str)
    ensures
        r@ == local_path(target),
{
    libdd_library_config::Configurator::local_stable_configuration_path(
        match target {
            Target::Linux => libdd_library_config::Target::Linux,
            Target::Macos => libdd_library_config::Target::Macos,
            Target::Windows => libdd_library_config::Target::Windows,
        },
    )
}

/// Calls `Configurator::fleet_stable_configuration_path` of
/// libdd-library-config, which gives one fixed path for each platform.
#[verifier::external_body]
fn fleet_stable_configuration_path(target: Target) -> (r: &'static str)
    ensures
        r@ == managed_path(target),
{
    libdd_library_config::Configurator::fleet_stable_configuration_path(
        match target {
            Target::Linux => libdd_library_config::Target::Linux,
            Target::Macos => libdd_library_config::Target::Macos,
            Target::Windows => libdd_library_config::Target::Windows,
        },
    )
}

/// One resolved setting: its name, its value, the file it comes from and
/// the id of the configuration that set it.
#[derive(Debug, Clone, PartialEq, Eq)]
pub struct ConfigEntry {
    name: String,
    value: String,
    source: String,
    config_id: String,
}

/// What an entry is.
pub struct ConfigEntryView {
    pub name: Seq<char>,
    pub value: Seq<char>,
    pub source: Seq<char>,
    pub config_id: Seq<char>,
}

impl View for ConfigEntry {
    type V = ConfigEntryView;

    closed spec fn view(&self) -> ConfigEntryView {
        ConfigEntryView {
            name: self.name@,
            value: self.value@,
            source: self.source@,
            config_id: self.config_id@,
        }
    }
}

impl ConfigEntry {
    /// The entry with the four given texts.
    pub fn new(name: String, value: String, source: String, config_id: String) -> (r: ConfigEntry)
        ensures
            r@ == (ConfigEntryView {
                name: name@,
                value: value@,
                source: source@,
                config_id: config_id@,
            }),
    {
        ConfigEntry { name, value, source, config_id }
    }

    /// The name of the setting.
    pub fn name(&self) -> (r: String)
        ensures
            r@ == self@.name,
    {
        self.name.clone()
    }

    /// The value of the setting.
    pub fn value(&self) -> (r: String)
        ensures
            r@ == self@.value,
    {
        self.value.clone()
    }

    /// The file that the setting comes from.
    pub fn source(&self) -> (r: String)
        ensures
            r@ == self@.source,
    {
        self.source.clone()
    }

    /// The id of the configuration that set it, empty where it has none.
    pub fn config_id(&self) -> (r: String)
        ensures
            r@ == self@.config_id,
    {
        self.config_id.clone()
    }
}

/// A setting as the resolver hands it out: the config id may be missing.
pub struct Resolved {
    pub name: String,
    pub value: String,
    pub source: String,
    pub config_id: Option<String>,
}

/// The entry for a resolved setting: a missing config id becomes the empty
/// text.
pub open spec fn entry_of(resolved: Resolved) -> ConfigEntryView {
    ConfigEntryView {
        name: resolved.name@,
        value: resolved.value@,
        source: resolved.source@,
        config_id: match resolved.config_id {
            Some(id) => id@,
            None => Seq::empty(),
        },
    }
}

/// The entries for the settings that the resolver handed out, in their
/// order.
pub fn entries_of(resolved: Vec<Resolved>) -> (r: Vec<ConfigEntry>)
    ensures
        r@.len() == resolved@.len(),
        forall|i: int| 0 <= i < r@.len() ==> (#[trigger] r@[i])@ == entry_of(resolved@[i]),
{
    let mut resolved = resolved;
    let ghost all = resolved@;
    let mut backwards: Vec<ConfigEntry> = Vec::new();
    while resolved.len() > 0
        invariant
            resolved@.len() + backwards@.len() == all.len(),
            forall|i: int| 0 <= i < resolved@.len() ==> resolved@[i] == all[i],
            forall|i: int|
                0 <= i < backwards@.len() ==> (#[trigger] backwards@[i])@ == entry_of(
                    all[all.len() - 1 - i],
                ),
        decreases resolved@.len(),
    {
        match resolved.pop() {
            Some(one) => {
                let config_id = match one.config_id {
                    Some(id) => id,
                    None => String::new(),
                };
                backwards.push(ConfigEntry::new(one.name, one.value, one.source, config_id));
            },
            None => {},
        }
    }
    let mut r: Vec<ConfigEntry> = Vec::new();
    let ghost turned = backwards@;
    while backwards.len() > 0
        invariant
            backwards@.len() + r@.len() == turned.len(),
            turned.len() == all.len(),
            forall|i: int| 0 <= i < backwards@.len() ==> backwards@[i] == turned[i],
            forall|i: int|
                0 <= i < turned.len() ==> (#[trigger] turned[i])@ == entry_of(
                    all[all.len() - 1 - i],
                ),
            forall|i: int| 0 <= i < r@.len() ==> (#[trigger] r@[i])@ == entry_of(all[i]),
        decreases backwards@.len(),
    {
        let ghost k = backwards@.len() - 1;
        match backwards.pop() {
            Some(entry) => {
                assert(entry == turned[k]);
                r.push(entry);
            },
            None => {},
        }
    }
    r
}

/// The texts of a list that has gaps, without the gaps.
pub open spec fn present(values: Seq<Option<String>>) -> Seq<Seq<char>>
    decreases values.len(),
{
    if values.len() == 0 {
        Seq::empty()
    } else {
        match values.last() {
            Some(s) => present(values.drop_last()).push(s@),
            None => present(values.drop_last()),
        }
    }
}

/// The bytes of each text of a list, in UTF-8.
pub open spec fn encoded(list: Seq<String>) -> Seq<Seq<u8>> {
    Seq::new(list.len(), |i: int| vstd::utf8::encode_utf8(list[i]@))
}

/// The bytes of each list of a list.
pub open spec fn byte_lists(list: Seq<Vec<u8>>) -> Seq<Seq<u8>> {
    Seq::new(list.len(), |i: int| list[i]@)
}

fn keep_present(values: Vec<Option<String>>) -> (r: Vec<String>)
    ensures
        texts(r@) == present(values@),
{
    let mut r: Vec<String> = Vec::new();
    let mut i: usize = 0;
    proof {
        assert(values@.take(0) =~= Seq::<Option<String>>::empty());
        assert(texts(r@) =~= present(values@.take(0)));
    }
    while i < values.len()
        invariant
            i <= values@.len(),
            texts(r@) == present(values@.take(i as int)),
        decreases values@.len() - i,
    {
        let ghost before = texts(r@);
        proof {
            assert(values@.take(i as int + 1).drop_last() =~= values@.take(i as int));
            assert(values@.take(i as int + 1).last() == values@[i as int]);
        }
        match &values[i] {
            Some(s) => {
                r.push(s.clone());
                assert(texts(r@) =~= before.push(s@));
            },
            None => {},
        }
        i += 1;
    }
    proof {
        assert(values@.take(values@.len() as int) =~= values@);
    }
    r
}

fn bytes_of_each(list: &Vec<String>) -> (r: Vec<Vec<u8>>)
    ensures
        byte_lists(r@) == encoded(list@),
{
    let mut r: Vec<Vec<u8>> = Vec::new();
    let mut i: usize = 0;
    while i < list.len()
        invariant
            i <= list@.len(),
            r@.len() == i,
            forall|k: int| 0 <= k < i ==> (#[trigger] r@[k])@ == vstd::utf8::encode_utf8(list@[k]@),
        decreases list@.len() - i,
    {
        r.push(slice_to_vec(list[i].as_str().as_bytes()));
        i += 1;
    }
    assert(byte_lists(r@) =~= encoded(list@));
    r
}

/// The settings that `Configurator::get_config_from_bytes` of
/// libdd-library-config resolves from the two configuration files for a
/// process with the given environment, arguments and language, or nothing
/// where it fails. Each setting stands under its name, with its value, the
/// name of the file it comes from, and the id of the configuration that set
/// it, where there is one.
pub uninterp spec fn resolved_settings(
    local: Seq<u8>,
    managed: Seq<u8>,
    envp: Seq<Seq<u8>>,
    args: Seq<Seq<u8>>,
    language: Seq<u8>,
) -> Option<Map<Seq<char>, (Seq<char>, Seq<char>, Option<Seq<char>>)>>;

/// What a resolved setting holds besides its name.
pub open spec fn setting_of(one: Resolved) -> (Seq<char>, Seq<char>, Option<Seq<char>>) {
    (
        one.value@,
        one.source@,
        match one.config_id {
            Some(id) => Some(id@),
            None => None,
        },
    )
}

/// Whether the list holds exactly the settings of `settings`, each once and
/// in any order.
pub open spec fn lists_settings(
    list: Seq<Resolved>,
    settings: Map<Seq<char>, (Seq<char>, Seq<char>, Option<Seq<char>>)>,
) -> bool {
    &&& forall|i: int, j: int| 0 <= i < j < list.len() ==> list[i].name@ != list[j].name@
    &&& forall|i: int|
        0 <= i < list.len() ==> settings.contains_key((#[trigger] list[i]).name@)
            && settings[list[i].name@] == setting_of(list[i])
    &&& forall|name: Seq<char>| #[trigger]
        settings.contains_key(name) ==> exists|i: int|
            0 <= i < list.len() && (#[trigger] list[i]).name@ == name
}

/// The entry for a setting: a missing config id becomes the empty text.
pub open spec fn entry_for(
    name: Seq<char>,
    setting: (Seq<char>, Seq<char>, Option<Seq<char>>),
) -> ConfigEntryView {
    ConfigEntryView {
        name,
        value: setting.0,
        source: setting.1,
        config_id: match setting.2 {
            Some(id) => id,
            None => Seq::empty(),
        },
    }
}

/// What each entry of a list is.
pub open spec fn entries_view(entries: Seq<ConfigEntry>) -> Seq<ConfigEntryView> {
    Seq::new(entries.len(), |i: int| entries[i]@)
}

/// Whether the entries are exactly the entries for the settings of
/// `settings`, each once and in any order.
pub open spec fn holds_settings(
    entries: Seq<ConfigEntryView>,
    settings: Map<Seq<char>, (Seq<char>, Seq<char>, Option<Seq<char>>)>,
) -> bool {
    &&& forall|i: int, j: int| 0 <= i < j < entries.len() ==> entries[i].name != entries[j].name
    &&& forall|i: int|
        0 <= i < entries.len() ==> settings.contains_key((#[trigger] entries[i]).name)
            && entries[i] == entry_for(entries[i].name, settings[entries[i].name])
    &&& forall|name: Seq<char>| #[trigger]
        settings.contains_key(name) ==> exists|i: int|
            0 <= i < entries.len() && (#[trigger] entries[i]).name == name
}

/// The bytes of each text of a list, in UTF-8.
pub open spec fn utf8_of_each(list: Seq<Seq<char>>) -> Seq<Seq<u8>> {
    Seq::new(list.len(), |i: int| vstd::utf8::encode_utf8(list[i]))
}

/// Whether a text is the name of one of the two configuration files.
pub open spec fn is_source_name(s: Seq<char>) -> bool {
    s == "local_stable_config"@ || s == "fleet_stable_config"@
}

/// The resolver of libdd-library-config. Nothing is known of what it holds.
#[verifier::external_type_specification]
#[verifier::external_body]
pub struct ExConfigurator(libdd_library_config::Configurator);

/// Calls `Configurator::new` of libdd-library-config.
#[verifier::external_body]
fn new_configurator(debug_logs: bool) -> libdd_library_config::Configurator {
    libdd_library_config::Configurator::new(debug_logs)
}

/// Calls `Configurator::get_config_from_bytes` of libdd-library-config for
/// a process with the given environment, arguments and language. Which
/// settings come out, and whether the call fails, depends on these and on
/// the two files alone. The settings come out of a hash map of the outside
/// crate: their order is open, no name comes twice, and each names the
/// file it comes from with one of the two names that
/// `LibraryConfigSource::to_str` gives. A failure comes out as the text that
/// describes the outside error.
#[verifier::external_body]
fn get_config_from_bytes(
    configurator: &libdd_library_config::Configurator,
    local: &[u8],
    managed: &[u8],
    envp: Vec<Vec<u8>>,
    args: Vec<Vec<u8>>,
    language: Vec<u8>,
) -> (r: Result<Vec<Resolved>, String>)
    ensures
        match r {
            Ok(list) => resolved_settings(
                local@,
                managed@,
                byte_lists(envp@),
                byte_lists(args@),
                language@,
            ) is Some && lists_settings(
                list@,
                resolved_settings(
                    local@,
                    managed@,
                    byte_lists(envp@),
                    byte_lists(args@),
                    language@,
                )->Some_0,
            ),
            Err(_) => resolved_settings(
                local@,
                managed@,
                byte_lists(envp@),
                byte_lists(args@),
                language@,
            ) is None,
        },
        r is Ok ==> forall|i: int|
            0 <= i < r->Ok_0@.len() ==> is_source_name((#[trigger] r->Ok_0@[i]).source@),
{
    let info = libdd_library_config::ProcessInfo { args, envp, language };
    match configurator.get_config_from_bytes(local, managed, info) {
        Ok(found) => Ok(
            found.into_iter().map(
                |c| Resolved {
                    name: c.name,
                    value: c.value,
                    source: c.source.to_str().into(),
                    config_id: c.config_id,
                },
            ).collect(),
        ),
        Err(e) => Err(format!("{:?}", e)),
    }
}

/// The process for which configuration is resolved: its environment, as
/// `NAME=value` texts, and its arguments.
pub struct JsConfigurator {
    configurator: Box<libdd_library_config::Configurator>,
    envp: Vec<String>,
    args: Vec<String>,
}

impl JsConfigurator {
    /// The environment of the process.
    pub closed spec fn envp(&self) -> Seq<Seq<char>> {
        texts(self.envp@)
    }

    /// The arguments of the process.
    pub closed spec fn args(&self) -> Seq<Seq<char>> {
        texts(self.args@)
    }

    /// A process without environment and without arguments.
    pub fn new() -> (r: Self)
        ensures
            r.envp() == Seq::<Seq<char>>::empty(),
            r.args() == Seq::<Seq<char>>::empty(),
    {
        let r = JsConfigurator {
            configurator: Box::new(new_configurator(false)),
            envp: Vec::new(),
            args: Vec::new(),
        };
        assert(r.envp() =~= Seq::<Seq<char>>::empty());
        assert(r.args() =~= Seq::<Seq<char>>::empty());
        r
    }

    /// Sets the environment to the texts among `envp`; a value that is no
    /// text is passed over.
    pub fn set_envp(&mut self, envp: Vec<Option<String>>)
        ensures
            final(self).envp() == present(envp@),
            final(self).args() == old(self).args(),
    {
        self.envp = keep_present(envp);
    }

    /// Sets the arguments to the texts among `args`; a value that is no text
    /// is passed over.
    pub fn set_args(&mut self, args: Vec<Option<String>>)
        ensures
            final(self).args() == present(args@),
            final(self).envp() == old(self).envp(),
    {
        self.args = keep_present(args);
    }

    /// Where the local configuration file lies on the platform that Node.js
    /// names `target`.
    pub fn get_config_local_path(&self, target: String) -> (r: Result<String, ConfigError>)
        ensures
            match target_named(target@) {
                Some(t) => r is Ok && r->Ok_0@ == local_path(t),
                None => r == Err::<String, ConfigError>(ConfigError::UnsupportedTarget),
            },
    {
        match target_of(target.as_str()) {
            Some(t) => Ok(local_stable_configuration_path(t).to_owned()),
            None => Err(ConfigError::UnsupportedTarget),
        }
    }

    /// Where the configuration file that fleet management writes lies on
    /// the platform that Node.js names `target`.
    pub fn get_config_managed_path(&self, target: String) -> (r: Result<String, ConfigError>)
        ensures
            match target_named(target@) {
                Some(t) => r is Ok && r->Ok_0@ == managed_path(t),
                None => r == Err::<String, ConfigError>(ConfigError::UnsupportedTarget),
            },
    {
        match target_of(target.as_str()) {
            Some(t) => Ok(fleet_stable_configuration_path(t).to_owned()),
            None => Err(ConfigError::UnsupportedTarget),
        }
    }

    /// The settings that the resolver gives for the two configuration
    /// files and this process, whose language is `nodejs`.
    pub open spec fn settings(&self, local: Seq<char>, managed: Seq<char>) -> Option<
        Map<Seq<char>, (Seq<char>, Seq<char>, Option<Seq<char>>)>,
    > {
        resolved_settings(
            vstd::utf8::encode_utf8(local),
            vstd::utf8::encode_utf8(managed),
            utf8_of_each(self.envp()),
            utf8_of_each(self.args()),
            vstd::utf8::encode_utf8("nodejs"@),
        )
    }

    /// Resolves the two configuration files for this process, whose
    /// language is `nodejs`. Where the resolver gives settings, the entries
    /// are the entries for exactly these, each once; they come in no
    /// particular order, and each names the file it comes from. Where the
    /// resolver fails, the failure is `Failed` with its description.
    pub fn get_configuration(&self, config_string_local: String, config_string_managed: String) -> (r:
        Result<Vec<ConfigEntry>, ConfigError>)
        ensures
            match r {
                Ok(entries) => self.settings(config_string_local@, config_string_managed@)
                    is Some && holds_settings(
                    entries_view(entries@),
                    self.settings(config_string_local@, config_string_managed@)->Some_0,
                ) && (forall|i: int|
                    0 <= i < entries@.len() ==> is_source_name((#[trigger] entries@[i])@.source)),
                Err(e) => e is Failed && self.settings(
                    config_string_local@,
                    config_string_managed@,
                ) is None,
            },
    {
        let envp = bytes_of_each(&self.envp);
        let args = bytes_of_each(&self.args);
        let language = slice_to_vec("nodejs".as_bytes());
        proof {
            assert(byte_lists(envp@) =~= utf8_of_each(self.envp()));
            assert(byte_lists(args@) =~= utf8_of_each(self.args()));
        }
        match get_config_from_bytes(
            &self.configurator,
            config_string_local.as_str().as_bytes(),
            config_string_managed.as_str().as_bytes(),
            envp,
            args,
            language,
        ) {
            Ok(resolved) => {
                let ghost given = resolved@;
                let ghost settings = self.settings(
                    config_string_local@,
                    config_string_managed@,
                )->Some_0;
                let entries = entries_of(resolved);
                proof {
                    let views = entries_view(entries@);
                    assert forall|i: int| 0 <= i < views.len() implies #[trigger] views[i]
                        == entry_of(given[i]) by {
                        assert(entries@[i]@ == entry_of(given[i]));
                    }
                    assert forall|i: int, j: int| 0 <= i < j < views.len() implies views[i].name
                        != views[j].name by {
                        assert(given[i].name@ != given[j].name@);
                    }
                    assert forall|i: int| 0 <= i < views.len() implies settings.contains_key(
                        (#[trigger] views[i]).name,
                    ) && views[i] == entry_for(views[i].name, settings[views[i].name]) by {
                        assert(settings.contains_key(given[i].name@));
                        assert(settings[given[i].name@] == setting_of(given[i]));
                    }
                    assert forall|name: Seq<char>| #[trigger]
                        settings.contains_key(name) implies exists|i: int|
                        0 <= i < views.len() && (#[trigger] views[i]).name == name by {
                        let i = choose|i: int|
                            0 <= i < given.len() && (#[trigger] given[i]).name@ == name;
                        assert(views[i].name == name);
                    }
                    assert forall|i: int| 0 <= i < entries@.len() implies is_source_name(
                        (#[trigger] entries@[i])@.source,
                    ) by {
                        assert(entries@[i]@ == entry_of(given[i]));
                    }
                }
                Ok(entries)
            },
            Err(detail) => Err(ConfigError::Failed(detail)),
        }
    }
}

} // verus!
