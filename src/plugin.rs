use vstd::prelude::*;

verus! {

/// Name that a plugin reports when it does not choose one.
pub const DEFAULT_NAME: &'static str = "plugin_manager";

/// Version that a plugin reports when it does not choose one.
pub const DEFAULT_VERSION: &'static str = "0.1.0";

/// Author that a plugin reports when it does not choose one.
pub const DEFAULT_AUTHOR: &'static str = "";

/// Description that a plugin reports when it does not choose one.
pub const DEFAULT_EXPLAIN: &'static str = "not explain";

/// What a plugin reports about itself: its name, version, author and a
/// free-text description. The name is the key the manager registers it under.
pub struct Plugin {
    pub name: String,
    pub version: String,
    pub author: String,
    pub explain: String,
}

impl Default for Plugin {
    fn default() -> (r: Self)
        ensures
            r.name@ == DEFAULT_NAME@,
            r.version@ == DEFAULT_VERSION@,
            r.author@ == DEFAULT_AUTHOR@,
            r.explain@ == DEFAULT_EXPLAIN@,
    {
        Plugin {
            name: DEFAULT_NAME.to_owned(),
            version: DEFAULT_VERSION.to_owned(),
            author: DEFAULT_AUTHOR.to_owned(),
            explain: DEFAULT_EXPLAIN.to_owned(),
        }
    }
}

impl Plugin {
    /// A field-by-field copy of this record.
    pub fn copy(&self) -> (r: Plugin)
        ensures
            r == *self,
    {
        Plugin {
            name: self.name.clone(),
            version: self.version.clone(),
            author: self.author.clone(),
            explain: self.explain.clone(),
        }
    }

    /// Sets the plugin's name; the other fields are kept.
    pub fn set_name(&mut self, name: String) -> (r: &Self)
        ensures
            final(self).name == name,
            final(self).version == old(self).version,
            final(self).author == old(self).author,
            final(self).explain == old(self).explain,
            *r == *final(self),
    {
        self.name = name;
        self
    }

    /// Sets the plugin's version; the other fields are kept.
    pub fn set_version(&mut self, version: String) -> (r: &Self)
        ensures
            final(self).name == old(self).name,
            final(self).version == version,
            final(self).author == old(self).author,
            final(self).explain == old(self).explain,
            *r == *final(self),
    {
        self.version = version;
        self
    }

    /// Sets the plugin's author; the other fields are kept.
    pub fn set_author(&mut self, author: String) -> (r: &Self)
        ensures
            final(self).name == old(self).name,
            final(self).version == old(self).version,
            final(self).author == author,
            final(self).explain == old(self).explain,
            *r == *final(self),
    {
        self.author = author;
        self
    }

    /// Sets the plugin's description; the other fields are kept.
    pub fn set_explain(&mut self, explain: String) -> (r: &Self)
        ensures
            final(self).name == old(self).name,
            final(self).version == old(self).version,
            final(self).author == old(self).author,
            final(self).explain == explain,
            *r == *final(self),
    {
        self.explain = explain;
        self
    }
}

/// The interface every plugin implements. `register` describes the plugin;
/// the lifecycle hooks `load`, `reload` and `unload` do nothing unless a
/// plugin overrides them. Plugins are shared across threads, so they must be
/// `Send` and `Sync`. `reported` names the metadata a plugin describes itself
/// with; an implementation returns the same from `register` every time, and
/// the manager's contracts rest on that.
pub trait PluginTrait: Send + Sync {
    /// What the plugin reports about itself. A plugin always reports the
    /// same metadata.
    spec fn reported(&self) -> Plugin;

    /// Describes the plugin. It must not change the manager's state, and
    /// it returns what the plugin reports.
    fn register(&self) -> (r: Plugin)
        ensures
            r == self.reported(),
    ;

    /// Runs once, right after the plugin is created and before `register`.
    fn load(&self) {
    }

    /// Runs when the manager reloads its plugins.
    fn reload(&self) {
    }

    /// Runs when the manager unloads its plugins.
    fn unload(&self) {
    }
}

/// A value tagged as a success or as a failure; both carry the same type.
pub enum PlguninResult<T> {
    Success(T),
    Failure(T),
}

impl<T> PlguninResult<T> {
    /// Whether this is the success variant.
    pub fn is_ok(&self) -> (r: bool)
        ensures
            r == (self is Success),
    {
        match self {
            PlguninResult::Success(_) => true,
            PlguninResult::Failure(_) => false,
        }
    }

    /// The carried value, whichever the variant.
    pub fn into_inner(self) -> (r: T)
        ensures
            r == match self {
                PlguninResult::Success(v) => v,
                PlguninResult::Failure(v) => v,
            },
    {
        match self {
            PlguninResult::Success(v) => v,
            PlguninResult::Failure(v) => v,
        }
    }
}

} // verus!
