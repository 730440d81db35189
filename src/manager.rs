use vstd::prelude::*;

use crate::error::{LoadError, SelectError};
use crate::plugin::{Plugin, PluginTrait};
use libloader::libloading::Library;
use std::sync::Arc;

verus! {

#[verifier::external_type_specification]
#[verifier::external_body]
pub struct ExLibrary(Library);

/// A lifecycle hook that the manager runs on a plugin.
pub enum Hook {
    Load,
    Reload,
    Unload,
}

/// One hook run, with the name of the plugin it ran on.
pub type HookCall = (Hook, Seq<char>);

/// What came of opening one candidate library file and calling its entry
/// point. `Produced(None)` stands for an entry point that returned null.
pub enum Probe<P> {
    /// The directory entry could not be read.
    Unreadable,
    /// The library could not be opened.
    OpenFailed,
    /// The library does not export the entry point.
    SymbolNotFound,
    /// The entry point was called; it returned this instance, or null.
    Produced(Option<P>),
}

/// A registered plugin: what it reported about itself and a shared handle on it.
pub struct Entry<P> {
    pub meta: Plugin,
    pub handle: Arc<P>,
}

/// The plugin's name, as the registry keys it.
pub open spec fn key_of<P>(e: Entry<P>) -> Seq<char> {
    e.meta.name@
}

/// No two entries share a name.
pub open spec fn names_unique<P>(s: Seq<Entry<P>>) -> bool {
    forall|i: int, j: int|
        0 <= i < s.len() && 0 <= j < s.len() && i != j ==> #[trigger] key_of(s[i]) != #[trigger] key_of(
            s[j],
        )
}

/// Some entry is registered under `name`.
pub open spec fn is_registered<P>(s: Seq<Entry<P>>, name: Seq<char>) -> bool {
    exists|i: int| 0 <= i < s.len() && #[trigger] key_of(s[i]) == name
}

/// The hook runs that `hook` on every entry of `s`, in order, makes.
pub open spec fn hook_all<P>(s: Seq<Entry<P>>, hook: Hook) -> Seq<HookCall> {
    s.map_values(|e: Entry<P>| (hook, key_of(e)))
}

/// The error that a probe gives before any instance exists, if it gives one.
pub open spec fn probe_error<P>(probe: Probe<P>) -> Option<LoadError> {
    match probe {
        Probe::Unreadable => Some(LoadError::EntryUnreadable),
        Probe::OpenFailed => Some(LoadError::OpenFailed),
        Probe::SymbolNotFound => Some(LoadError::SymbolNotFound),
        Probe::Produced(None) => Some(LoadError::NullInstance),
        Probe::Produced(Some(_)) => None,
    }
}

/// Each entry holds the metadata that its plugin reports.
pub open spec fn entries_report<P: PluginTrait>(s: Seq<Entry<P>>) -> bool {
    forall|i: int| 0 <= i < s.len() ==> (#[trigger] s[i]).meta == (*s[i].handle).reported()
}

/// One load of a probed library, from registry `pre` and hook log `pre_log`
/// to `post` and `post_log`, with outcome `out`.
///
/// A failed probe changes nothing and gives its error. A produced instance
/// has its `load` hook run and is described; it is then registered under the
/// name it reports, and the load gives that metadata back, unless the name
/// is taken: then the earlier registration stays, the newcomer's `unload`
/// hook runs and the load fails with `DuplicateName` of that name.
pub open spec fn load_step<P: PluginTrait>(
    pre: Seq<Entry<P>>,
    pre_log: Seq<HookCall>,
    probe: Probe<P>,
    out: Result<Plugin, LoadError>,
    post: Seq<Entry<P>>,
    post_log: Seq<HookCall>,
) -> bool {
    match probe {
        Probe::Produced(Some(p)) => {
            let m = p.reported();
            if is_registered(pre, m.name@) {
                &&& out == Err::<Plugin, LoadError>(LoadError::DuplicateName(m.name))
                &&& post == pre
                &&& post_log == pre_log.push((Hook::Load, m.name@)).push((Hook::Unload, m.name@))
            } else {
                &&& out == Ok::<Plugin, LoadError>(m)
                &&& post.len() == pre.len() + 1
                &&& post.drop_last() == pre
                &&& post.last().meta == m
                &&& *post.last().handle == p
                &&& post_log == pre_log.push((Hook::Load, m.name@))
            }
        },
        _ => out == Err::<Plugin, LoadError>(probe_error(probe)->0) && post == pre && post_log
            == pre_log,
    }
}

/// The errors among `outs`, in order.
pub open spec fn errors_of(outs: Seq<Result<Plugin, LoadError>>) -> Seq<LoadError>
    decreases outs.len(),
{
    if outs.len() == 0 {
        Seq::empty()
    } else {
        let before = errors_of(outs.drop_last());
        match outs.last() {
            Ok(_) => before,
            Err(e) => before.push(e),
        }
    }
}

/// `probes` were loaded one after the other: `states` are the registries and
/// hook logs in between, `outs` the outcome of each load.
pub open spec fn load_run<P: PluginTrait>(
    states: Seq<(Seq<Entry<P>>, Seq<HookCall>)>,
    probes: Seq<Probe<P>>,
    outs: Seq<Result<Plugin, LoadError>>,
) -> bool {
    &&& outs.len() == probes.len()
    &&& states.len() == probes.len() + 1
    &&& forall|i: int|
        0 <= i < probes.len() ==> #[trigger] load_step(
            states[i].0,
            states[i].1,
            probes[i],
            outs[i],
            states[i + 1].0,
            states[i + 1].1,
        )
}

/// Discovers, loads and keeps track of plugins. It owns the plugin directory's
/// path, the registry of plugins by name, and every library it opened: those
/// stay loaded as long as the manager lives, so code of theirs stays valid.
pub struct PluginManager<P> {
    path: String,
    entries: Vec<Entry<P>>,
    loaded_libraries: Vec<Library>,
    log: Ghost<Seq<HookCall>>,
}

impl<P: PluginTrait> PluginManager<P> {
    /// The plugin directory.
    pub closed spec fn path_spec(&self) -> Seq<char> {
        self.path@
    }

    /// The registry, in order of registration.
    pub closed spec fn entries(&self) -> Seq<Entry<P>> {
        self.entries@
    }

    /// A model of the lifecycle hooks this manager has run, in order: each
    /// record is written beside the call it stands for, and is not checked
    /// against the call.
    pub closed spec fn hooks(&self) -> Seq<HookCall> {
        self.log@
    }

    /// How many libraries the manager holds open.
    pub closed spec fn library_count(&self) -> nat {
        self.loaded_libraries@.len()
    }

    /// Each name is registered at most once, and each entry holds what its
    /// plugin reports.
    pub open spec fn wf(&self) -> bool {
        names_unique(self.entries()) && entries_report(self.entries())
    }

    /// An empty manager for the plugin directory `path`.
    pub fn new(path: String) -> (r: Self)
        ensures
            r.wf(),
            r.path_spec() == path@,
            r.entries() == Seq::<Entry<P>>::empty(),
            r.hooks() == Seq::<HookCall>::empty(),
            r.library_count() == 0,
    {
        PluginManager {
            path,
            entries: Vec::new(),
            loaded_libraries: Vec::new(),
            log: Ghost(Seq::empty()),
        }
    }

    /// The plugin directory.
    pub fn path(&self) -> (r: &String)
        ensures
            r@ == self.path_spec(),
    {
        &self.path
    }

    /// How many plugins are registered.
    pub fn len(&self) -> (r: usize)
        ensures
            r == self.entries().len(),
    {
        self.entries.len()
    }

    /// How many libraries the manager holds open.
    pub fn libraries(&self) -> (r: usize)
        ensures
            r == self.library_count(),
    {
        self.loaded_libraries.len()
    }

    /// Keeps an opened library for the rest of the manager's life.
    pub fn retain_library(&mut self, library: Library)
        ensures
            final(self).library_count() == old(self).library_count() + 1,
            final(self).entries() == old(self).entries(),
            final(self).hooks() == old(self).hooks(),
            final(self).path_spec() == old(self).path_spec(),
    {
        self.loaded_libraries.push(library);
    }

    /// Position of the entry registered under `name`, if any.
    fn find(&self, name: &String) -> (r: Option<usize>)
        ensures
            match r {
                Some(i) => i < self.entries().len() && key_of(self.entries()[i as int]) == name@,
                None => !is_registered(self.entries(), name@),
            },
    {
        let mut i: usize = 0;
        while i < self.entries.len()
            invariant
                i <= self.entries@.len(),
                forall|k: int| 0 <= k < i ==> key_of(#[trigger] self.entries@[k]) != name@,
            decreases self.entries@.len() - i,
        {
            if self.entries[i].meta.name == *name {
                return Some(i);
            }
            i = i + 1;
        }
        None
    }

    /// The handle registered under `name`; `NotFound` when there is none.
    pub fn select(&self, name: &String) -> (r: Result<Arc<P>, SelectError>)
        requires
            self.wf(),
        ensures
            r is Ok <==> is_registered(self.entries(), name@),
            match r {
                Ok(h) => (*h).reported().name@ == name@ && exists|i: int|
                    0 <= i < self.entries().len() && key_of(#[trigger] self.entries()[i]) == name@
                        && *h == *self.entries()[i].handle && (*h).reported()
                        == self.entries()[i].meta,
                Err(e) => e == SelectError::NotFound,
            },
    {
        match self.find(name) {
            Some(i) => Ok(share(&self.entries[i].handle)),
            None => Err(SelectError::NotFound),
        }
    }

    /// Loads one probed library: a produced instance has its `load` hook
    /// run, reports its metadata, and is registered under its name unless
    /// that name is taken (see `load_step`).
    pub fn load_one(&mut self, probe: Probe<P>) -> (r: Result<Plugin, LoadError>)
        requires
            old(self).wf(),
        ensures
            final(self).wf(),
            load_step(
                old(self).entries(),
                old(self).hooks(),
                probe,
                r,
                final(self).entries(),
                final(self).hooks(),
            ),
            final(self).path_spec() == old(self).path_spec(),
            final(self).library_count() == old(self).library_count(),
    {
        match probe {
            Probe::Unreadable => Err(LoadError::EntryUnreadable),
            Probe::OpenFailed => Err(LoadError::OpenFailed),
            Probe::SymbolNotFound => Err(LoadError::SymbolNotFound),
            Probe::Produced(None) => Err(LoadError::NullInstance),
            Probe::Produced(Some(instance)) => {
                instance.load();
                let meta = instance.register();
                match self.find(&meta.name) {
                    Some(_) => {
                        instance.unload();
                        proof {
                            self.log@ = self.log@.push((Hook::Load, meta.name@)).push(
                                (Hook::Unload, meta.name@),
                            );
                        }
                        Err(LoadError::DuplicateName(meta.name))
                    },
                    None => {
                        proof {
                            self.log@ = self.log@.push((Hook::Load, meta.name@));
                        }
                        let reported = meta.copy();
                        self.entries.push(Entry { meta, handle: Arc::new(instance) });
                        proof {
                            assert(self.entries@.drop_last() =~= old(self).entries@);
                            assert forall|i: int, j: int|
                                0 <= i < self.entries@.len() && 0 <= j < self.entries@.len() && i
                                    != j implies #[trigger] key_of(self.entries@[i]) != #[trigger] key_of(
                                self.entries@[j],
                            ) by {
                                if i < old(self).entries@.len() && j < old(self).entries@.len() {
                                    assert(self.entries@[i] == old(self).entries@[i]);
                                    assert(self.entries@[j] == old(self).entries@[j]);
                                } else if i < old(self).entries@.len() {
                                    assert(self.entries@[i] == old(self).entries@[i]);
                                } else {
                                    assert(self.entries@[j] == old(self).entries@[j]);
                                }
                            }
                        }
                        Ok(reported)
                    },
                }
            },
        }
    }

    /// Loads every probed library in order. One that fails does not stop
    /// the others: its error is collected, and the errors come back
    /// together, in order, when there is at least one.
    pub fn load_all(&mut self, probes: Vec<Probe<P>>) -> (r: Result<(), Vec<LoadError>>)
        requires
            old(self).wf(),
        ensures
            final(self).wf(),
            final(self).path_spec() == old(self).path_spec(),
            final(self).library_count() == old(self).library_count(),
            exists|states: Seq<(Seq<Entry<P>>, Seq<HookCall>)>, outs: Seq<Result<Plugin, LoadError>>|
                {
                    &&& #[trigger] load_run(states, probes@, outs)
                    &&& states[0] == (old(self).entries(), old(self).hooks())
                    &&& states.last() == (final(self).entries(), final(self).hooks())
                    &&& match r {
                        Ok(_) => errors_of(outs).len() == 0,
                        Err(v) => v@ == errors_of(outs) && v@.len() > 0,
                    }
                },
    {
        let ghost start = (self.entries@, self.log@);
        let ghost mut states: Seq<(Seq<Entry<P>>, Seq<HookCall>)> = seq![start];
        let ghost mut outs: Seq<Result<Plugin, LoadError>> = Seq::empty();
        let mut rest = probes;
        let mut failures: Vec<LoadError> = Vec::new();
        let ghost mut n: int = 0;
        while rest.len() > 0
            invariant
                self.wf(),
                self.path_spec() == old(self).path_spec(),
                self.library_count() == old(self).library_count(),
                n <= probes@.len(),
                rest@ == probes@.subrange(n, probes@.len() as int),
                states.len() == n + 1,
                outs.len() == n,
                states[0] == start,
                start == (old(self).entries(), old(self).hooks()),
                states.last() == (self.entries(), self.hooks()),
                forall|i: int|
                    0 <= i < n ==> #[trigger] load_step(
                        states[i].0,
                        states[i].1,
                        probes@[i],
                        outs[i],
                        states[i + 1].0,
                        states[i + 1].1,
                    ),
                failures@ == errors_of(outs),
            decreases rest@.len(),
        {
            assert(n < probes@.len()) by {
                assert(rest@.len() == probes@.len() - n);
            }
            let ghost before_outs = outs;
            let ghost before_states = states;
            let probe = rest.remove(0);
            assert(probe == probes@[n]);
            let out = self.load_one(probe);
            proof {
                outs = outs.push(out);
                states = states.push((self.entries@, self.log@));
                assert(outs.drop_last() =~= before_outs);
                assert forall|i: int|
                    0 <= i < n + 1 implies #[trigger] load_step(
                    states[i].0,
                    states[i].1,
                    probes@[i],
                    outs[i],
                    states[i + 1].0,
                    states[i + 1].1,
                ) by {
                    if i < n {
                        assert(states[i] == before_states[i]);
                        assert(states[i + 1] == before_states[i + 1]);
                        assert(outs[i] == before_outs[i]);
                    }
                }
            }
            match out {
                Ok(_) => {},
                Err(e) => {
                    failures.push(e);
                },
            }
            proof {
                assert(rest@ =~= probes@.subrange(n + 1, probes@.len() as int));
            }
            proof {
                n = n + 1;
            }
        }
        assert(load_run(states, probes@, outs));
        if failures.len() == 0 {
            Ok(())
        } else {
            Err(failures)
        }
    }

    /// Runs every registered plugin's `unload` hook once, in order of
    /// registration, then empties the registry. The libraries stay open:
    /// handles given out earlier may still call into them.
    pub fn unload_all(&mut self)
        ensures
            final(self).wf(),
            final(self).entries() == Seq::<Entry<P>>::empty(),
            final(self).hooks() == old(self).hooks() + hook_all(old(self).entries(), Hook::Unload),
            final(self).path_spec() == old(self).path_spec(),
            final(self).library_count() == old(self).library_count(),
    {
        self.run_hook(Hook::Unload);
        self.entries.clear();
    }

    /// Runs every registered plugin's `reload` hook once, in order of
    /// registration. The registry is kept as it was, so every plugin stays
    /// reachable by name afterwards.
    pub fn reload_all(&mut self)
        ensures
            final(self).wf() == old(self).wf(),
            final(self).entries() == old(self).entries(),
            final(self).hooks() == old(self).hooks() + hook_all(old(self).entries(), Hook::Reload),
            final(self).path_spec() == old(self).path_spec(),
            final(self).library_count() == old(self).library_count(),
    {
        self.run_hook(Hook::Reload);
    }

    /// Runs `hook` on every registered plugin, in order of registration.
    fn run_hook(&mut self, hook: Hook)
        requires
            !(hook is Load),
        ensures
            final(self).entries() == old(self).entries(),
            final(self).hooks() == old(self).hooks() + hook_all(old(self).entries(), hook),
            final(self).path_spec() == old(self).path_spec(),
            final(self).library_count() == old(self).library_count(),
    {
        let mut i: usize = 0;
        while i < self.entries.len()
            invariant
                i <= self.entries@.len(),
                self.entries@ == old(self).entries@,
                self.path == old(self).path,
                self.loaded_libraries@ == old(self).loaded_libraries@,
                self.log@ == old(self).log@ + hook_all(self.entries@.take(i as int), hook),
            decreases self.entries@.len() - i,
        {
            let entry = &self.entries[i];
            match hook {
                Hook::Unload => entry.handle.unload(),
                _ => entry.handle.reload(),
            }
            proof {
                let done = self.entries@.take(i as int);
                assert(self.entries@.take(i + 1) =~= done.push(self.entries@[i as int]));
                assert(hook_all(done.push(self.entries@[i as int]), hook) =~= hook_all(done, hook).push(
                    (hook, key_of(self.entries@[i as int])),
                ));
                self.log@ = self.log@.push((hook, key_of(self.entries@[i as int])));
            }
            i = i + 1;
        }
        proof {
            assert(self.entries@.take(i as int) =~= self.entries@);
        }
    }
}

/// Relies on `Arc::clone`: a new handle on the same value.
#[verifier::external_body]
fn share<P>(h: &Arc<P>) -> (r: Arc<P>)
    ensures
        *r == **h,
{
    Arc::clone(h)
}

} // verus!
