//! Configuration hot reload: which loaded configurations are accepted, and
//! the versions they are published under.
//!
//! Reading the file, watching its modification time, timestamps and the
//! broadcast to subscribers are the caller's part; the caller hands in what
//! it read (`Ok(settings)` or the text of the read or parse error), the
//! modification time it saw, and the timestamp to publish.
use vstd::prelude::*;
use vstd::string::*;
use crate::config::validation::{ConfigValidator, all_errors};
use crate::models::settings::{Settings, routers_view};
use crate::text::{concat2, join, str_join, strs_view};

verus! {

/// A published configuration.
#[derive(Debug)]
pub struct ConfigUpdate {
    pub settings: Settings,
    pub timestamp: String,
    pub version: u64,
}

/// The verdict on a loaded configuration: load errors are reported, and a
/// configuration with validation errors is refused with all of them.
pub open spec fn reload_verdict(loaded: Result<Settings, Seq<char>>) -> Result<Settings, Seq<char>> {
    match loaded {
        Err(e) => Err("Failed to load config: "@ + e),
        Ok(s) => if all_errors(routers_view(s.routers@)).len() == 0 {
            Ok(s)
        } else {
            Err(
                "Configuration validation failed: "@ + join(
                    all_errors(routers_view(s.routers@)),
                    ", "@,
                ),
            )
        },
    }
}

/// The outcome of a load, by text.
pub open spec fn loaded_view(r: Result<Settings, String>) -> Result<Settings, Seq<char>> {
    match r {
        Ok(s) => Ok(s),
        Err(e) => Err(e@),
    }
}

/// Accepts a loaded configuration when it validates without errors.
pub fn reload_config(loaded: Result<Settings, String>) -> (r: Result<Settings, String>)
    ensures
        loaded_view(r) == reload_verdict(loaded_view(loaded)),
{
    match loaded {
        Err(e) => Err(concat2("Failed to load config: ", e.as_str())),
        Ok(settings) => {
            let result = ConfigValidator::validate_comprehensive(&settings);
            if !result.is_valid {
                let joined = str_join(&result.errors, ", ");
                return Err(concat2("Configuration validation failed: ", joined.as_str()));
            }
            Ok(settings)
        },
    }
}

/// Watches one configuration file and publishes accepted reloads under
/// increasing versions.
#[derive(Debug)]
pub struct ConfigWatcher {
    current: ConfigUpdate,
    config_path: String,
    version_counter: u64,
    last_modified: Option<u64>,
}

impl ConfigWatcher {
    /// The published configuration.
    pub closed spec fn current(&self) -> ConfigUpdate {
        self.current
    }

    /// The last version handed out.
    pub closed spec fn counter(&self) -> u64 {
        self.version_counter
    }

    /// The modification time of the last accepted file change, if any.
    pub closed spec fn spec_last_modified(&self) -> Option<u64> {
        self.last_modified
    }

    /// The file watched.
    pub closed spec fn spec_path(&self) -> Seq<char> {
        self.config_path@
    }

    /// The versions are consistent: the published one is the last handed out.
    pub closed spec fn wf(&self) -> bool {
        self.current.version == self.version_counter
    }

    /// A watcher publishing `initial_config` as version 1 at `timestamp`,
    /// with the file's modification time as first seen.
    pub fn new(
        initial_config: Settings,
        config_path: String,
        timestamp: String,
        modified: Option<u64>,
    ) -> (r: Self)
        ensures
            r.wf(),
            r.current().settings == initial_config,
            r.current().timestamp@ == timestamp@,
            r.current().version == 1,
            r.counter() == 1,
            r.spec_path() == config_path@,
            r.spec_last_modified() == modified,
    {
        ConfigWatcher {
            current: ConfigUpdate { settings: initial_config, timestamp, version: 1 },
            config_path,
            version_counter: 1,
            last_modified: modified,
        }
    }

    /// The published configuration.
    pub fn get_current_config(&self) -> (r: &ConfigUpdate)
        ensures
            *r == self.current(),
    {
        &self.current
    }

    /// The file watched.
    pub fn config_path(&self) -> (r: &str)
        ensures
            r@ == self.spec_path(),
    {
        self.config_path.as_str()
    }

    /// Whether a file seen with modification time `modified` is to be
    /// reloaded: it has one, and it differs from the last accepted change.
    pub fn needs_reload(&self, modified: Option<u64>) -> (r: bool)
        ensures
            r == (modified is Some && modified != self.spec_last_modified()),
    {
        match modified {
            Some(t) => match self.last_modified {
                Some(l) => t != l,
                None => true,
            },
            None => false,
        }
    }

    /// Publishes `settings` under the next version at `timestamp`.
    fn publish(&mut self, settings: Settings, timestamp: String) -> (r: u64)
        requires
            old(self).counter() < u64::MAX,
        ensures
            r == old(self).counter() + 1,
            final(self).counter() == r,
            final(self).wf(),
            final(self).current() == (ConfigUpdate { settings, timestamp, version: r }),
            final(self).spec_path() == old(self).spec_path(),
            final(self).spec_last_modified() == old(self).spec_last_modified(),
    {
        let version = self.version_counter + 1;
        self.version_counter = version;
        self.current = ConfigUpdate { settings, timestamp, version };
        version
    }

    /// Reloads on request with what was just `loaded`: an accepted
    /// configuration is published under the next version at `timestamp`
    /// and its version returned; otherwise nothing changes and the reason
    /// is returned.
    pub fn manual_reload(&mut self, loaded: Result<Settings, String>, timestamp: String) -> (r: Result<
        u64,
        String,
    >)
        requires
            old(self).counter() < u64::MAX,
        ensures
            final(self).spec_path() == old(self).spec_path(),
            final(self).spec_last_modified() == old(self).spec_last_modified(),
            old(self).wf() ==> final(self).wf(),
            old(self).wf() ==> final(self).current().version >= old(self).current().version,
            match reload_verdict(loaded_view(loaded)) {
                Ok(s) => r == Ok::<u64, String>((old(self).counter() + 1) as u64) && final(self).current() == (ConfigUpdate {
                    settings: s,
                    timestamp,
                    version: (old(self).counter() + 1) as u64,
                }) && final(self).counter() == old(self).counter() + 1,
                Err(e) => r is Err && r->Err_0@ == e && final(self).current() == old(self).current() && final(self).counter() == old(self).counter(),
            },
    {
        match reload_config(loaded) {
            Ok(settings) => Ok(self.publish(settings, timestamp)),
            Err(e) => Err(e),
        }
    }

    /// Handles a change of the watched file, seen with modification time
    /// `modified`, with what was `loaded` from it: an accepted configuration
    /// is published under the next version and the change remembered; a
    /// refused one changes nothing, so that the file is tried again.
    pub fn file_changed(
        &mut self,
        modified: u64,
        loaded: Result<Settings, String>,
        timestamp: String,
    ) -> (r: Result<u64, String>)
        requires
            old(self).counter() < u64::MAX,
        ensures
            final(self).spec_path() == old(self).spec_path(),
            old(self).wf() ==> final(self).wf() && final(self).current().version >= old(
                self,
            ).current().version,
            match reload_verdict(loaded_view(loaded)) {
                Ok(s) => r == Ok::<u64, String>((old(self).counter() + 1) as u64) && final(self).current() == (ConfigUpdate {
                    settings: s,
                    timestamp,
                    version: (old(self).counter() + 1) as u64,
                }) && final(self).counter() == old(self).counter() + 1 && final(self).spec_last_modified() == Some(modified),
                Err(e) => r is Err && r->Err_0@ == e && final(self).current() == old(self).current() && final(self).counter() == old(self).counter() && final(self).spec_last_modified() == old(self).spec_last_modified(),
            },
    {
        match reload_config(loaded) {
            Ok(settings) => {
                let v = self.publish(settings, timestamp);
                self.last_modified = Some(modified);
                Ok(v)
            },
            Err(e) => Err(e),
        }
    }
}

/// The configuration manager: a watcher behind the reload endpoints.
#[derive(Debug)]
pub struct ConfigManager {
    watcher: ConfigWatcher,
}

impl ConfigManager {
    /// The watcher managed.
    pub closed spec fn spec_watcher(&self) -> ConfigWatcher {
        self.watcher
    }

    /// A manager publishing `initial_config` as version 1.
    pub fn new(
        initial_config: Settings,
        config_path: String,
        timestamp: String,
        modified: Option<u64>,
    ) -> (r: Self)
        ensures
            r.spec_watcher().current().settings == initial_config,
            r.spec_watcher().current().version == 1,
            r.spec_watcher().counter() == 1,
            r.spec_watcher().spec_path() == config_path@,
    {
        ConfigManager { watcher: ConfigWatcher::new(initial_config, config_path, timestamp, modified) }
    }

    /// The published configuration.
    pub fn get_current_config(&self) -> (r: &ConfigUpdate)
        ensures
            *r == self.spec_watcher().current(),
    {
        self.watcher.get_current_config()
    }

    /// The watcher, for the file-watching loop.
    pub fn watcher_mut(&mut self) -> (r: &mut ConfigWatcher)
        ensures
            *r == old(self).spec_watcher(),
            final(self).spec_watcher() == *final(r),
    {
        &mut self.watcher
    }

    /// Reloads now with what was just `loaded`.
    pub fn reload_now(&mut self, loaded: Result<Settings, String>, timestamp: String) -> (r: Result<
        u64,
        String,
    >)
        requires
            old(self).spec_watcher().counter() < u64::MAX,
        ensures
            match reload_verdict(loaded_view(loaded)) {
                Ok(s) => r == Ok::<u64, String>((old(self).spec_watcher().counter() + 1) as u64)
                    && final(self).spec_watcher().current().settings == s,
                Err(e) => r is Err && r->Err_0@ == e && final(self).spec_watcher().current() == old(self).spec_watcher().current(),
            },
    {
        self.watcher.manual_reload(loaded, timestamp)
    }
}

/// The body of a reload or status answer.
#[derive(Debug)]
pub struct ReloadResponse {
    pub success: bool,
    pub message: String,
    pub version: Option<u64>,
    pub timestamp: Option<String>,
}

/// The answer to a reload: 200 with the new version and its timestamp, or
/// 500 with the reason.
pub fn reload_response(outcome: Result<u64, String>, current: &ConfigUpdate) -> (r: (u16, ReloadResponse))
    ensures
        match outcome {
            Ok(v) => r.0 == 200 && r.1.success && r.1.message@
                == "Configuration reloaded successfully"@ && r.1.version == Some(v)
                && r.1.timestamp is Some && r.1.timestamp->0@ == current.timestamp@,
            Err(e) => r.0 == 500 && !r.1.success && r.1.message@ == "Failed to reload configuration: "@
                + e@ && r.1.version is None && r.1.timestamp is None,
        },
{
    match outcome {
        Ok(v) => (
            200,
            ReloadResponse {
                success: true,
                message: crate::text::owned("Configuration reloaded successfully"),
                version: Some(v),
                timestamp: Some(current.timestamp.clone()),
            },
        ),
        Err(e) => (
            500,
            ReloadResponse {
                success: false,
                message: concat2("Failed to reload configuration: ", e.as_str()),
                version: None,
                timestamp: None,
            },
        ),
    }
}

/// The answer to a status request: the published version and timestamp.
pub fn config_status(current: &ConfigUpdate) -> (r: ReloadResponse)
    ensures
        r.success,
        r.message@ == "Current configuration status"@,
        r.version == Some(current.version),
        r.timestamp is Some && r.timestamp->0@ == current.timestamp@,
{
    ReloadResponse {
        success: true,
        message: crate::text::owned("Current configuration status"),
        version: Some(current.version),
        timestamp: Some(current.timestamp.clone()),
    }
}

} // verus!
