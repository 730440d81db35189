use vstd::prelude::*;

verus! {

/// Why a plugin, or a directory of plugins, could not be loaded.
#[derive(Debug, PartialEq, Eq)]
pub enum LoadError {
    /// The plugin directory could not be created.
    DirectoryCreateFailed,
    /// The plugin directory could not be listed.
    DirectoryUnreadable,
    /// One entry of the directory could not be read.
    EntryUnreadable,
    /// The dynamic library could not be opened.
    OpenFailed,
    /// The library does not export the entry point.
    SymbolNotFound,
    /// The entry point returned a null instance.
    NullInstance,
    /// A plugin of this name is already registered.
    DuplicateName(String),
}

/// Why a lookup by name failed.
#[derive(Debug, Clone, Copy, PartialEq, Eq)]
pub enum SelectError {
    /// No plugin is registered under that name.
    NotFound,
}

} // verus!
