//! The plugin registry: built-in plugins, plugins found in the plugin directory,
//! plugins added by users, and which of them are loaded. Reading the directory and
//! parsing manifests happen outside the library, which is handed what was found.

use vstd::prelude::*;
use crate::audit::{clone_opt, opt_view};
use crate::clock::{now_timestamp, MAX_TIMESTAMP};
use crate::error::AppError;
use crate::json::json_null;
use crate::keyed::restrict_where;
use crate::rbac::lists_map;
use crate::store::{filter_pred, record_entries, Record, RecordFilter, Store};
use crate::text::{concat3, lowercase, replace_char, replace_chars, str_to_string, to_lowercase};

verus! {

/// Where a plugin came from.
#[derive(Debug, Clone, Copy, PartialEq, Eq, Structural)]
pub enum PluginSource {
    Builtin,
    Dynamic,
    UserInstalled,
}

/// A plugin. `config` is free-form JSON carried along as it was given.
#[derive(Debug)]
pub struct Plugin {
    pub id: String,
    pub name: String,
    pub description: String,
    pub version: String,
    pub loaded: bool,
    pub config: serde_json::Value,
    pub created_at: i64,
    pub source: PluginSource,
    pub manifest_path: Option<String>,
}

/// The value of a plugin.
pub struct PluginView {
    pub id: Seq<char>,
    pub name: Seq<char>,
    pub description: Seq<char>,
    pub version: Seq<char>,
    pub loaded: bool,
    pub config: serde_json::Value,
    pub created_at: i64,
    pub source: PluginSource,
    pub manifest_path: Option<Seq<char>>,
}

impl View for Plugin {
    type V = PluginView;

    open spec fn view(&self) -> PluginView {
        PluginView {
            id: self.id@,
            name: self.name@,
            description: self.description@,
            version: self.version@,
            loaded: self.loaded,
            config: self.config,
            created_at: self.created_at,
            source: self.source,
            manifest_path: opt_view(self.manifest_path),
        }
    }
}

impl Record for Plugin {
    open spec fn key_of(v: PluginView) -> Seq<char> {
        v.id
    }

    fn key(&self) -> (r: &str) {
        self.id.as_str()
    }

    fn duplicate(&self) -> (r: Self) {
        Plugin {
            id: self.id.clone(),
            name: self.name.clone(),
            description: self.description.clone(),
            version: self.version.clone(),
            loaded: self.loaded,
            config: self.config.clone(),
            created_at: self.created_at,
            source: self.source,
            manifest_path: clone_opt(&self.manifest_path),
        }
    }
}

/// What a user gives to add a plugin.
#[derive(Debug)]
pub struct PluginCreate {
    pub name: String,
    pub description: Option<String>,
    pub version: Option<String>,
}

/// A plugin's manifest (`plugin.json`). `config` is free-form JSON.
#[derive(Debug)]
pub struct PluginManifest {
    pub name: String,
    pub description: String,
    pub version: String,
    pub entry: Option<String>,
    pub config: Option<serde_json::Value>,
}

/// The value of a manifest.
pub struct ManifestView {
    pub name: Seq<char>,
    pub description: Seq<char>,
    pub version: Seq<char>,
    pub entry: Option<Seq<char>>,
    pub config: Option<serde_json::Value>,
}

impl View for PluginManifest {
    type V = ManifestView;

    open spec fn view(&self) -> ManifestView {
        ManifestView { name: self.name@, description: self.description@, version: self.version@, entry: opt_view(self.entry), config: self.config }
    }
}

/// The id a plugin gets from its name: lower-cased, with each space made an underscore.
pub open spec fn plugin_id(name: Seq<char>) -> Seq<char> {
    replace_char(lowercase(name), ' ', '_')
}

/// The id a plugin gets from its name.
pub fn plugin_id_of(name: &str) -> (r: String)
    ensures
        r@ == plugin_id(name@),
{
    let lower = to_lowercase(name);
    replace_chars(lower.as_str(), ' ', '_')
}

/// A built-in plugin as the registry starts with it, with the settings `config`.
pub open spec fn builtin_plugin(id: Seq<char>, name: Seq<char>, description: Seq<char>, version: Seq<char>, loaded: bool, now: i64, config: serde_json::Value) -> PluginView {
    PluginView { id, name, description, version, loaded, config, created_at: now, source: PluginSource::Builtin, manifest_path: None }
}

/// The plugins a registry starts with, created at `now`: six built-in ones, of which
/// `disk_cleanup` and `memory_plugin` are loaded, all with the settings `config`.
pub open spec fn default_plugins(now: i64, config: serde_json::Value) -> Map<Seq<char>, PluginView> {
    Map::<Seq<char>, PluginView>::empty()
        .insert("disk_cleanup"@, builtin_plugin("disk_cleanup"@, "Disk Cleanup"@, "System disk cleanup plugin"@, "1.0.0"@, true, now, config))
        .insert("memory_plugin"@, builtin_plugin("memory_plugin"@, "Memory Plugin"@, "Memory management plugin"@, "1.1.0"@, true, now, config))
        .insert("network_monitor"@, builtin_plugin("network_monitor"@, "Network Monitor"@, "Network traffic monitoring"@, "0.9.0"@, false, now, config))
        .insert("log_manager"@, builtin_plugin("log_manager"@, "Log Manager"@, "Log rotation and management"@, "1.0.0"@, false, now, config))
        .insert("scheduler_plugin"@, builtin_plugin("scheduler_plugin"@, "Scheduler Plugin"@, "Advanced task scheduling"@, "0.8.0"@, false, now, config))
        .insert("security_scanner"@, builtin_plugin("security_scanner"@, "Security Scanner"@, "Security vulnerability scanning"@, "1.2.0"@, false, now, config))
}

/// The plugin a manifest found at `path` describes, registered at `now`, not loaded,
/// with the manifest's settings or else `blank`.
pub open spec fn manifest_plugin(m: ManifestView, path: Seq<char>, now: i64, blank: serde_json::Value) -> PluginView {
    PluginView {
        id: plugin_id(m.name),
        name: m.name,
        description: m.description,
        version: m.version,
        loaded: false,
        config: match m.config {
            Some(c) => c,
            None => blank,
        },
        created_at: now,
        source: PluginSource::Dynamic,
        manifest_path: Some(path),
    }
}

/// The plugins after registering the manifests `ms` in order, at `now`, with `blank` as
/// the settings of a manifest that gives none: a manifest whose id is already registered
/// is passed over.
pub open spec fn scanned(m: Map<Seq<char>, PluginView>, ms: Seq<(ManifestView, Seq<char>)>, now: i64, blank: serde_json::Value) -> Map<Seq<char>, PluginView>
    decreases ms.len(),
{
    if ms.len() == 0 {
        m
    } else {
        let prev = scanned(m, ms.drop_last(), now, blank);
        let (mf, path) = ms.last();
        if prev.dom().contains(plugin_id(mf.name)) {
            prev
        } else {
            prev.insert(plugin_id(mf.name), manifest_plugin(mf, path, now, blank))
        }
    }
}

/// The values of found manifests with their paths.
pub open spec fn found_views(v: Seq<(PluginManifest, String)>) -> Seq<(ManifestView, Seq<char>)> {
    v.map_values(|e: (PluginManifest, String)| (e.0@, e.1@))
}

/// The plugin a user adds, at `now`, with the settings `config`: not loaded; no
/// description unless given; version 1.0.0 unless given.
pub open spec fn user_plugin(name: Seq<char>, description: Option<Seq<char>>, version: Option<Seq<char>>, now: i64, config: serde_json::Value) -> PluginView {
    PluginView {
        id: plugin_id(name),
        name,
        description: match description { Some(d) => d, None => Seq::<char>::empty() },
        version: match version { Some(v) => v, None => "1.0.0"@ },
        loaded: false,
        config,
        created_at: now,
        source: PluginSource::UserInstalled,
        manifest_path: None,
    }
}

/// The loaded plugins.
pub struct LoadedPlugins;

impl RecordFilter<Plugin> for LoadedPlugins {
    open spec fn holds(&self, v: PluginView) -> bool {
        v.loaded
    }

    fn test(&self, r: &Plugin) -> (b: bool) {
        r.loaded
    }
}

/// Whether a plugin is loaded.
pub open spec fn is_loaded(v: PluginView) -> bool {
    v.loaded
}

fn builtin(id: &str, name: &str, description: &str, version: &str, loaded: bool, now: i64, config: &serde_json::Value) -> (p: Plugin)
    ensures
        p@ == builtin_plugin(id@, name@, description@, version@, loaded, now, *config),
{
    Plugin {
        id: str_to_string(id),
        name: str_to_string(name),
        description: str_to_string(description),
        version: str_to_string(version),
        loaded,
        config: config.clone(),
        created_at: now,
        source: PluginSource::Builtin,
        manifest_path: None,
    }
}

fn plugin_from_manifest(manifest: PluginManifest, path: String, now: i64, blank: &serde_json::Value) -> (p: Plugin)
    ensures
        p@ == manifest_plugin(manifest@, path@, now, *blank),
{
    let id = plugin_id_of(manifest.name.as_str());
    let config = match manifest.config {
        Some(c) => c,
        None => blank.clone(),
    };
    Plugin {
        id,
        name: manifest.name,
        description: manifest.description,
        version: manifest.version,
        loaded: false,
        config,
        created_at: now,
        source: PluginSource::Dynamic,
        manifest_path: Some(path),
    }
}

/// The registered plugins, by id, and the directory plugins are found in.
pub struct PluginRegistry {
    plugins: Store<Plugin>,
    plugin_dir: String,
    blank: serde_json::Value,
}

impl PluginRegistry {
    /// The registered plugins, by id.
    pub closed spec fn plugins_view(&self) -> Map<Seq<char>, PluginView> {
        self.plugins.view_map()
    }

    /// The registry's invariant: each id is held once.
    pub closed spec fn wf(&self) -> bool {
        self.plugins.wf()
    }

    /// The directory plugins are found in.
    pub closed spec fn dir(&self) -> Seq<char> {
        self.plugin_dir@
    }

    /// The settings a plugin gets when nothing gives it any (JSON `null`).
    pub closed spec fn blank(&self) -> serde_json::Value {
        self.blank
    }

    /// A registry holding the default plugins, created at `now`.
    pub fn new_at(plugin_dir: String, now: i64) -> (r: Self)
        ensures
            r.wf(),
            r.plugins_view() == default_plugins(now, r.blank()),
            r.dir() == plugin_dir@,
    {
        let blank = json_null();
        let mut plugins: Store<Plugin> = Store::new();
        plugins.insert(builtin("disk_cleanup", "Disk Cleanup", "System disk cleanup plugin", "1.0.0", true, now, &blank));
        plugins.insert(builtin("memory_plugin", "Memory Plugin", "Memory management plugin", "1.1.0", true, now, &blank));
        plugins.insert(builtin("network_monitor", "Network Monitor", "Network traffic monitoring", "0.9.0", false, now, &blank));
        plugins.insert(builtin("log_manager", "Log Manager", "Log rotation and management", "1.0.0", false, now, &blank));
        plugins.insert(builtin("scheduler_plugin", "Scheduler Plugin", "Advanced task scheduling", "0.8.0", false, now, &blank));
        plugins.insert(builtin("security_scanner", "Security Scanner", "Security vulnerability scanning", "1.2.0", false, now, &blank));
        PluginRegistry { plugins, plugin_dir, blank }
    }

    /// A registry holding the default plugins, created now. The caller scans the plugin
    /// directory and hands what it found to `scan_plugins`.
    pub fn new(plugin_dir: String) -> (r: Self)
        ensures
            r.wf(),
            exists|now: i64| 0 <= now < MAX_TIMESTAMP && r.plugins_view() == #[trigger] default_plugins(now, r.blank()),
            r.dir() == plugin_dir@,
    {
        let now = now_timestamp();
        let r = Self::new_at(plugin_dir, now);
        assert(r.plugins_view() == default_plugins(now, r.blank()));
        r
    }

    /// The directory plugins are found in.
    pub fn plugin_dir(&self) -> (r: &str)
        ensures
            r@ == self.dir(),
    {
        self.plugin_dir.as_str()
    }

    /// Registers the manifests found in the plugin directory (each with the path of its
    /// `plugin.json`), in order, at `now`: not loaded; a manifest whose id is already
    /// registered is passed over.
    pub fn scan_plugins_at(&mut self, found: Vec<(PluginManifest, String)>, now: i64)
        requires
            old(self).wf(),
        ensures
            final(self).wf(),
            final(self).plugins_view() == scanned(old(self).plugins_view(), found_views(found@), now, old(self).blank()),
            final(self).dir() == old(self).dir(),
    {
        let ghost fv = found_views(found@);
        let ghost start = self.plugins_view();
        let mut found = found;
        let mut i: usize = 0;
        let n = found.len();
        proof {
            assert(fv.take(0) =~= Seq::<(ManifestView, Seq<char>)>::empty());
            assert(found_views(found@) =~= fv.skip(0));
        }
        while found.len() > 0
            invariant
                self.wf(),
                i + found@.len() == n,
                n == fv.len(),
                found_views(found@) == fv.skip(i as int),
                self.plugins_view() == scanned(start, fv.take(i as int), now, old(self).blank()),
                self.dir() == old(self).dir(),
                self.blank() == old(self).blank(),
            decreases found.len(),
        {
            let ghost before = found@;
            let (manifest, path) = found.remove(0);
            proof {
                assert(found_views(before)[0] == fv.skip(i as int)[0]);
                assert((manifest@, path@) == fv[i as int]);
                assert forall|k: int| 0 <= k < found@.len() implies #[trigger] found_views(found@)[k] == fv.skip(i + 1)[k] by {
                    assert(found@[k] == before[k + 1]);
                    assert(found_views(before)[k + 1] == fv.skip(i as int)[k + 1]);
                }
                assert(found_views(found@) =~= fv.skip(i + 1));
                assert(fv.take(i + 1).drop_last() =~= fv.take(i as int));
                assert(fv.take(i + 1).last() == fv[i as int]);
            }
            let id = plugin_id_of(manifest.name.as_str());
            if !self.plugins.contains(id.as_str()) {
                let p = plugin_from_manifest(manifest, path, now, &self.blank);
                self.plugins.insert(p);
            }
            i = i + 1;
        }
        proof {
            assert(fv.take(n as int) =~= fv);
        }
    }

    /// Registers the manifests found in the plugin directory, now.
    pub fn scan_plugins(&mut self, found: Vec<(PluginManifest, String)>)
        requires
            old(self).wf(),
        ensures
            final(self).wf(),
            exists|now: i64| 0 <= now < MAX_TIMESTAMP && final(self).plugins_view() == #[trigger] scanned(old(self).plugins_view(), found_views(found@), now, old(self).blank()),
            final(self).dir() == old(self).dir(),
    {
        let now = now_timestamp();
        let ghost fv = found_views(found@);
        self.scan_plugins_at(found, now);
        assert(self.plugins_view() == scanned(old(self).plugins_view(), fv, now, old(self).blank()));
    }

    fn set_loaded(&mut self, plugin_id: &str, loaded: bool) -> (r: Result<Plugin, AppError>)
        requires
            old(self).wf(),
        ensures
            final(self).wf(),
            final(self).dir() == old(self).dir(),
            r is Ok <==> old(self).plugins_view().dom().contains(plugin_id@),
            match r {
                Ok(p) => p@ == PluginView { loaded, ..old(self).plugins_view()[plugin_id@] }
                    && final(self).plugins_view() == old(self).plugins_view().insert(plugin_id@, p@),
                Err(e) => e is NotFound && e.message() == "Plugin "@ + plugin_id@ + " not found"@
                    && final(self).plugins_view() == old(self).plugins_view(),
            },
    {
        match self.plugins.get_copy(plugin_id) {
            Some(mut p) => {
                p.loaded = loaded;
                let copy = p.duplicate();
                self.plugins.insert(p);
                Ok(copy)
            },
            None => Err(AppError::NotFound(concat3("Plugin ", plugin_id, " not found"))),
        }
    }

    /// Marks the plugin `plugin_id` loaded and returns it; `NotFound` when there is none.
    pub fn load(&mut self, plugin_id: &str) -> (r: Result<Plugin, AppError>)
        requires
            old(self).wf(),
        ensures
            final(self).wf(),
            final(self).dir() == old(self).dir(),
            r is Ok <==> old(self).plugins_view().dom().contains(plugin_id@),
            match r {
                Ok(p) => p@ == PluginView { loaded: true, ..old(self).plugins_view()[plugin_id@] }
                    && final(self).plugins_view() == old(self).plugins_view().insert(plugin_id@, p@),
                Err(e) => e is NotFound && e.message() == "Plugin "@ + plugin_id@ + " not found"@
                    && final(self).plugins_view() == old(self).plugins_view(),
            },
    {
        self.set_loaded(plugin_id, true)
    }

    /// Marks the plugin `plugin_id` unloaded and returns it; `NotFound` when there is none.
    pub fn unload(&mut self, plugin_id: &str) -> (r: Result<Plugin, AppError>)
        requires
            old(self).wf(),
        ensures
            final(self).wf(),
            final(self).dir() == old(self).dir(),
            r is Ok <==> old(self).plugins_view().dom().contains(plugin_id@),
            match r {
                Ok(p) => p@ == PluginView { loaded: false, ..old(self).plugins_view()[plugin_id@] }
                    && final(self).plugins_view() == old(self).plugins_view().insert(plugin_id@, p@),
                Err(e) => e is NotFound && e.message() == "Plugin "@ + plugin_id@ + " not found"@
                    && final(self).plugins_view() == old(self).plugins_view(),
            },
    {
        self.set_loaded(plugin_id, false)
    }

    /// The plugin `plugin_id`, if registered.
    pub fn get(&self, plugin_id: &str) -> (r: Option<Plugin>)
        requires
            self.wf(),
        ensures
            match r {
                Some(p) => self.plugins_view().dom().contains(plugin_id@) && p@ == self.plugins_view()[plugin_id@],
                None => !self.plugins_view().dom().contains(plugin_id@),
            },
    {
        self.plugins.get_copy(plugin_id)
    }

    /// Every registered plugin, once each.
    pub fn list(&self) -> (r: Vec<Plugin>)
        requires
            self.wf(),
        ensures
            lists_map(record_entries(r@).map_values(|e: (Seq<char>, PluginView)| e.0), r@.map_values(|x: Plugin| x@), self.plugins_view()),
    {
        self.plugins.values()
    }

    /// The loaded plugins, once each.
    pub fn list_loaded(&self) -> (r: Vec<Plugin>)
        requires
            self.wf(),
        ensures
            lists_map(
                record_entries(r@).map_values(|e: (Seq<char>, PluginView)| e.0),
                r@.map_values(|x: Plugin| x@),
                restrict_where(self.plugins_view(), |v: PluginView| is_loaded(v)),
            ),
    {
        let f = LoadedPlugins;
        let r = self.plugins.values_where(&f);
        assert(restrict_where(self.plugins_view(), filter_pred::<Plugin, LoadedPlugins>(&f))
            =~= restrict_where(self.plugins_view(), |v: PluginView| is_loaded(v)));
        r
    }

    /// Adds a plugin a user installed, at `now`, replacing any with the same id.
    pub fn add_plugin_at(&mut self, create: PluginCreate, now: i64) -> (r: Result<Plugin, AppError>)
        requires
            old(self).wf(),
        ensures
            final(self).wf(),
            final(self).dir() == old(self).dir(),
            r is Ok,
            match r {
                Ok(p) => p@ == user_plugin(create.name@, opt_view(create.description), opt_view(create.version), now, old(self).blank())
                    && final(self).plugins_view() == old(self).plugins_view().insert(p@.id, p@),
                Err(_) => false,
            },
    {
        let id = plugin_id_of(create.name.as_str());
        let description = match create.description {
            Some(d) => d,
            None => String::new(),
        };
        let version = match create.version {
            Some(v) => v,
            None => str_to_string("1.0.0"),
        };
        let plugin = Plugin {
            id,
            name: create.name,
            description,
            version,
            loaded: false,
            config: self.blank.clone(),
            created_at: now,
            source: PluginSource::UserInstalled,
            manifest_path: None,
        };
        let copy = plugin.duplicate();
        self.plugins.insert(plugin);
        Ok(copy)
    }

    /// Adds a plugin a user installed, now, replacing any with the same id.
    pub fn add_plugin(&mut self, create: PluginCreate) -> (r: Result<Plugin, AppError>)
        requires
            old(self).wf(),
        ensures
            final(self).wf(),
            final(self).dir() == old(self).dir(),
            r is Ok,
            match r {
                Ok(p) => p@.created_at < MAX_TIMESTAMP
                    && p@ == user_plugin(create.name@, opt_view(create.description), opt_view(create.version), p@.created_at, old(self).blank())
                    && final(self).plugins_view() == old(self).plugins_view().insert(p@.id, p@),
                Err(_) => false,
            },
    {
        let now = now_timestamp();
        self.add_plugin_at(create, now)
    }

    /// Removes the plugin `plugin_id`; whether there was one.
    pub fn remove_plugin(&mut self, plugin_id: &str) -> (r: Result<bool, AppError>)
        requires
            old(self).wf(),
        ensures
            final(self).wf(),
            final(self).dir() == old(self).dir(),
            r == Ok::<bool, AppError>(old(self).plugins_view().dom().contains(plugin_id@)),
            final(self).plugins_view() == old(self).plugins_view().remove(plugin_id@),
    {
        let removed = self.plugins.remove(plugin_id);
        Ok(removed.is_some())
    }

    /// Registers the manifests found in the plugin directory, now, and returns how many
    /// plugins are registered.
    pub fn reload_plugins(&mut self, found: Vec<(PluginManifest, String)>) -> (n: usize)
        requires
            old(self).wf(),
        ensures
            final(self).wf(),
            final(self).dir() == old(self).dir(),
            exists|now: i64| 0 <= now < MAX_TIMESTAMP && final(self).plugins_view() == #[trigger] scanned(old(self).plugins_view(), found_views(found@), now, old(self).blank()),
            n == final(self).plugins_view().dom().len(),
    {
        self.scan_plugins(found);
        self.plugins.len()
    }

    /// Registers the plugin of the manifest read from `manifest_path`, at `now`,
    /// replacing any with the same id. (Reading and parsing the manifest, and their
    /// errors, happen before.)
    pub fn install_from_manifest_at(&mut self, manifest: PluginManifest, manifest_path: String, now: i64) -> (r: Result<Plugin, AppError>)
        requires
            old(self).wf(),
        ensures
            final(self).wf(),
            final(self).dir() == old(self).dir(),
            r is Ok,
            match r {
                Ok(p) => p@ == manifest_plugin(manifest@, manifest_path@, now, old(self).blank())
                    && final(self).plugins_view() == old(self).plugins_view().insert(p@.id, p@),
                Err(_) => false,
            },
    {
        let p = plugin_from_manifest(manifest, manifest_path, now, &self.blank);
        let copy = p.duplicate();
        self.plugins.insert(p);
        Ok(copy)
    }

    /// Registers the plugin of the manifest read from `manifest_path`, now, replacing
    /// any with the same id.
    pub fn install_from_manifest(&mut self, manifest: PluginManifest, manifest_path: String) -> (r: Result<Plugin, AppError>)
        requires
            old(self).wf(),
        ensures
            final(self).wf(),
            final(self).dir() == old(self).dir(),
            r is Ok,
            match r {
                Ok(p) => p@.created_at < MAX_TIMESTAMP && p@ == manifest_plugin(manifest@, manifest_path@, p@.created_at, old(self).blank())
                    && final(self).plugins_view() == old(self).plugins_view().insert(p@.id, p@),
                Err(_) => false,
            },
    {
        let now = now_timestamp();
        self.install_from_manifest_at(manifest, manifest_path, now)
    }
}


/// The plugin registry as the rest of the program uses it.
pub struct PluginManager {
    registry: PluginRegistry,
}

impl PluginManager {
    /// The registered plugins, by id.
    pub closed spec fn plugins_view(&self) -> Map<Seq<char>, PluginView> {
        self.registry.plugins_view()
    }

    /// The manager's invariant: that of its registry.
    pub closed spec fn wf(&self) -> bool {
        self.registry.wf()
    }

    /// The directory plugins are found in.
    pub closed spec fn dir(&self) -> Seq<char> {
        self.registry.dir()
    }

    /// The settings a plugin gets when nothing gives it any (JSON `null`).
    pub closed spec fn blank(&self) -> serde_json::Value {
        self.registry.blank()
    }

    /// A manager over a registry holding the default plugins, created now.
    pub fn new(plugin_dir: String) -> (r: Self)
        ensures
            r.wf(),
            exists|now: i64| 0 <= now < MAX_TIMESTAMP && r.plugins_view() == #[trigger] default_plugins(now, r.blank()),
            r.dir() == plugin_dir@,
    {
        let registry = PluginRegistry::new(plugin_dir);
        let r = PluginManager { registry };
        proof {
            let now = choose|now: i64| 0 <= now < MAX_TIMESTAMP && r.registry.plugins_view() == #[trigger] default_plugins(now, r.registry.blank());
            assert(r.plugins_view() == default_plugins(now, r.blank()));
        }
        r
    }

    /// The directory plugins are found in.
    pub fn plugin_dir(&self) -> (r: &str)
        ensures
            r@ == self.dir(),
    {
        self.registry.plugin_dir()
    }

    /// Marks the plugin `plugin_id` loaded and returns it; `NotFound` when there is none.
    pub fn load(&mut self, plugin_id: &str) -> (r: Result<Plugin, AppError>)
        requires
            old(self).wf(),
        ensures
            final(self).wf(),
            final(self).dir() == old(self).dir(),
            r is Ok <==> old(self).plugins_view().dom().contains(plugin_id@),
            match r {
                Ok(p) => p@ == PluginView { loaded: true, ..old(self).plugins_view()[plugin_id@] }
                    && final(self).plugins_view() == old(self).plugins_view().insert(plugin_id@, p@),
                Err(e) => e is NotFound && e.message() == "Plugin "@ + plugin_id@ + " not found"@
                    && final(self).plugins_view() == old(self).plugins_view(),
            },
    {
        self.registry.load(plugin_id)
    }

    /// Marks the plugin `plugin_id` unloaded and returns it; `NotFound` when there is none.
    pub fn unload(&mut self, plugin_id: &str) -> (r: Result<Plugin, AppError>)
        requires
            old(self).wf(),
        ensures
            final(self).wf(),
            final(self).dir() == old(self).dir(),
            r is Ok <==> old(self).plugins_view().dom().contains(plugin_id@),
            match r {
                Ok(p) => p@ == PluginView { loaded: false, ..old(self).plugins_view()[plugin_id@] }
                    && final(self).plugins_view() == old(self).plugins_view().insert(plugin_id@, p@),
                Err(e) => e is NotFound && e.message() == "Plugin "@ + plugin_id@ + " not found"@
                    && final(self).plugins_view() == old(self).plugins_view(),
            },
    {
        self.registry.unload(plugin_id)
    }

    /// The plugin `plugin_id`, if registered.
    pub fn get(&self, plugin_id: &str) -> (r: Option<Plugin>)
        requires
            self.wf(),
        ensures
            match r {
                Some(p) => self.plugins_view().dom().contains(plugin_id@) && p@ == self.plugins_view()[plugin_id@],
                None => !self.plugins_view().dom().contains(plugin_id@),
            },
    {
        self.registry.get(plugin_id)
    }

    /// Every registered plugin, once each.
    pub fn list(&self) -> (r: Vec<Plugin>)
        requires
            self.wf(),
        ensures
            lists_map(record_entries(r@).map_values(|e: (Seq<char>, PluginView)| e.0), r@.map_values(|x: Plugin| x@), self.plugins_view()),
    {
        self.registry.list()
    }

    /// The loaded plugins, once each.
    pub fn list_loaded(&self) -> (r: Vec<Plugin>)
        requires
            self.wf(),
        ensures
            lists_map(
                record_entries(r@).map_values(|e: (Seq<char>, PluginView)| e.0),
                r@.map_values(|x: Plugin| x@),
                restrict_where(self.plugins_view(), |v: PluginView| is_loaded(v)),
            ),
    {
        self.registry.list_loaded()
    }

    /// Adds a plugin a user installed, now, replacing any with the same id.
    pub fn add_plugin(&mut self, create: PluginCreate) -> (r: Result<Plugin, AppError>)
        requires
            old(self).wf(),
        ensures
            final(self).wf(),
            final(self).dir() == old(self).dir(),
            r is Ok,
            match r {
                Ok(p) => p@.created_at < MAX_TIMESTAMP
                    && p@ == user_plugin(create.name@, opt_view(create.description), opt_view(create.version), p@.created_at, old(self).blank())
                    && final(self).plugins_view() == old(self).plugins_view().insert(p@.id, p@),
                Err(_) => false,
            },
    {
        self.registry.add_plugin(create)
    }

    /// Removes the plugin `plugin_id`; whether there was one.
    pub fn remove_plugin(&mut self, plugin_id: &str) -> (r: Result<bool, AppError>)
        requires
            old(self).wf(),
        ensures
            final(self).wf(),
            final(self).dir() == old(self).dir(),
            r == Ok::<bool, AppError>(old(self).plugins_view().dom().contains(plugin_id@)),
            final(self).plugins_view() == old(self).plugins_view().remove(plugin_id@),
    {
        self.registry.remove_plugin(plugin_id)
    }

    /// Registers the manifests found in the plugin directory, now, and returns how many
    /// plugins are registered.
    pub fn reload_plugins(&mut self, found: Vec<(PluginManifest, String)>) -> (n: usize)
        requires
            old(self).wf(),
        ensures
            final(self).wf(),
            final(self).dir() == old(self).dir(),
            exists|now: i64| 0 <= now < MAX_TIMESTAMP && final(self).plugins_view() == #[trigger] scanned(old(self).plugins_view(), found_views(found@), now, old(self).blank()),
            n == final(self).plugins_view().dom().len(),
    {
        let ghost fv = found_views(found@);
        let ghost before = self.registry.plugins_view();
        let r = self.registry.reload_plugins(found);
        proof {
            let now = choose|now: i64| 0 <= now < MAX_TIMESTAMP && self.registry.plugins_view() == #[trigger] scanned(before, fv, now, old(self).blank());
            assert(self.plugins_view() == scanned(old(self).plugins_view(), fv, now, old(self).blank()));
        }
        r
    }

    /// Registers the plugin of the manifest read from `manifest_path`, now, replacing
    /// any with the same id.
    pub fn install_from_manifest(&mut self, manifest: PluginManifest, manifest_path: String) -> (r: Result<Plugin, AppError>)
        requires
            old(self).wf(),
        ensures
            final(self).wf(),
            final(self).dir() == old(self).dir(),
            r is Ok,
            match r {
                Ok(p) => p@.created_at < MAX_TIMESTAMP && p@ == manifest_plugin(manifest@, manifest_path@, p@.created_at, old(self).blank())
                    && final(self).plugins_view() == old(self).plugins_view().insert(p@.id, p@),
                Err(_) => false,
            },
    {
        self.registry.install_from_manifest(manifest, manifest_path)
    }

    /// Registers the manifests found in the plugin directory, now.
    pub fn scan_plugins(&mut self, found: Vec<(PluginManifest, String)>)
        requires
            old(self).wf(),
        ensures
            final(self).wf(),
            exists|now: i64| 0 <= now < MAX_TIMESTAMP && final(self).plugins_view() == #[trigger] scanned(old(self).plugins_view(), found_views(found@), now, old(self).blank()),
            final(self).dir() == old(self).dir(),
    {
        let ghost fv = found_views(found@);
        let ghost before = self.registry.plugins_view();
        self.registry.scan_plugins(found);
        proof {
            let now = choose|now: i64| 0 <= now < MAX_TIMESTAMP && self.registry.plugins_view() == #[trigger] scanned(before, fv, now, old(self).blank());
            assert(self.plugins_view() == scanned(old(self).plugins_view(), fv, now, old(self).blank()));
        }
    }
}

/// A loaded plugin is among the loaded plugins, and unloading a plugin that was not
/// loaded before loading it gives the plugins back as they were.
pub proof fn law_load_then_unload(m: Map<Seq<char>, PluginView>, id: Seq<char>)
    requires
        m.dom().contains(id),
    ensures
        restrict_where(m.insert(id, PluginView { loaded: true, ..m[id] }), |v: PluginView| is_loaded(v)).dom().contains(id),
        !m[id].loaded ==> m.insert(id, PluginView { loaded: true, ..m[id] }).insert(
            id,
            PluginView { loaded: false, ..m.insert(id, PluginView { loaded: true, ..m[id] })[id] },
        ) == m,
{
    let loaded = m.insert(id, PluginView { loaded: true, ..m[id] });
    assert(is_loaded(loaded[id]));
    if !m[id].loaded {
        let back = loaded.insert(id, PluginView { loaded: false, ..loaded[id] });
        assert(back[id] == m[id]);
        assert(back =~= m);
    }
}

} // verus!
