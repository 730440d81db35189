use plugin_manager::error::{LoadError, SelectError};
use plugin_manager::manager::{PluginManager, Probe};
use plugin_manager::plugin::{Plugin, PluginTrait};
use std::sync::atomic::{AtomicUsize, Ordering};
use std::sync::Arc;

#[derive(Default)]
struct Counters {
    loads: AtomicUsize,
    reloads: AtomicUsize,
    unloads: AtomicUsize,
}

struct Mock {
    name: String,
    id: u32,
    counters: Arc<Counters>,
}

impl PluginTrait for Mock {
    fn reported(&self) -> Plugin {
        self.register()
    }

    fn register(&self) -> Plugin {
        let mut p = Plugin::default();
        p.set_name(self.name.clone());
        p.set_version(format!("{}.0.0", self.id));
        p
    }

    fn load(&self) {
        self.counters.loads.fetch_add(1, Ordering::SeqCst);
    }

    fn reload(&self) {
        self.counters.reloads.fetch_add(1, Ordering::SeqCst);
    }

    fn unload(&self) {
        self.counters.unloads.fetch_add(1, Ordering::SeqCst);
    }
}

fn mock(name: &str, id: u32) -> (Mock, Arc<Counters>) {
    let counters = Arc::new(Counters::default());
    (
        Mock {
            name: name.to_string(),
            id,
            counters: counters.clone(),
        },
        counters,
    )
}

fn valid(name: &str, id: u32) -> (Probe<Mock>, Arc<Counters>) {
    let (m, c) = mock(name, id);
    (Probe::Produced(Some(m)), c)
}

fn count(c: &AtomicUsize) -> usize {
    c.load(Ordering::SeqCst)
}

#[test]
fn new_manager_is_empty() {
    let m: PluginManager<Mock> = PluginManager::new("./plugins".to_string());
    assert_eq!(m.path(), "./plugins");
    assert_eq!(m.len(), 0);
    assert_eq!(m.libraries(), 0);
}

#[test]
fn load_one_registers_under_reported_name() {
    let mut m = PluginManager::new("dir".to_string());
    let (probe, c) = valid("alpha", 1);
    let meta = m.load_one(probe).unwrap();
    assert_eq!(meta.name, "alpha");
    assert_eq!(meta.version, "1.0.0");
    assert_eq!(m.len(), 1);
    assert_eq!(count(&c.loads), 1);
    assert_eq!(count(&c.unloads), 0);
}

#[test]
fn select_known_name_returns_registered_plugin() {
    let mut m = PluginManager::new("dir".to_string());
    let (a, _) = valid("alpha", 1);
    let (b, _) = valid("beta", 2);
    m.load_one(a).unwrap();
    m.load_one(b).unwrap();
    let h = m.select(&"beta".to_string()).ok().unwrap();
    assert_eq!(h.id, 2);
    let d = h.register();
    assert_eq!(d.name, "beta");
    assert_eq!(d.version, "2.0.0");
}

#[test]
fn select_unknown_name_is_not_found() {
    let mut m = PluginManager::new("dir".to_string());
    let (a, _) = valid("alpha", 1);
    m.load_one(a).unwrap();
    assert!(matches!(m.select(&"gamma".to_string()), Err(SelectError::NotFound)));
    let empty: PluginManager<Mock> = PluginManager::new("dir".to_string());
    assert!(matches!(empty.select(&"alpha".to_string()), Err(SelectError::NotFound)));
}

#[test]
fn load_all_registers_one_entry_per_library() {
    let mut m = PluginManager::new("dir".to_string());
    let (a, ca) = valid("a", 1);
    let (b, cb) = valid("b", 2);
    let (c, cc) = valid("c", 3);
    assert_eq!(m.load_all(vec![a, b, c]), Ok(()));
    assert_eq!(m.len(), 3);
    assert_eq!(m.select(&"a".to_string()).ok().unwrap().id, 1);
    assert_eq!(m.select(&"b".to_string()).ok().unwrap().id, 2);
    assert_eq!(m.select(&"c".to_string()).ok().unwrap().id, 3);
    for ctr in [ca, cb, cc] {
        assert_eq!(count(&ctr.loads), 1);
    }
}

#[test]
fn load_all_with_empty_directory() {
    let mut m: PluginManager<Mock> = PluginManager::new("dir".to_string());
    assert_eq!(m.load_all(Vec::new()), Ok(()));
    assert_eq!(m.len(), 0);
}

#[test]
fn load_all_skips_malformed_library() {
    let mut m = PluginManager::new("dir".to_string());
    let (a, _) = valid("first", 1);
    let (b, _) = valid("second", 2);
    let r = m.load_all(vec![a, Probe::SymbolNotFound, b]);
    assert_eq!(r, Err(vec![LoadError::SymbolNotFound]));
    assert_eq!(m.len(), 2);
    assert!(m.select(&"first".to_string()).is_ok());
    assert!(m.select(&"second".to_string()).is_ok());
}

#[test]
fn load_all_collects_every_error_in_order() {
    let mut m = PluginManager::new("dir".to_string());
    let (a, _) = valid("x", 1);
    let (b, _) = valid("x", 2);
    let r = m.load_all(vec![
        Probe::Unreadable,
        a,
        Probe::OpenFailed,
        Probe::Produced(None),
        b,
    ]);
    assert_eq!(
        r,
        Err(vec![
            LoadError::EntryUnreadable,
            LoadError::OpenFailed,
            LoadError::NullInstance,
            LoadError::DuplicateName("x".to_string()),
        ])
    );
    assert_eq!(m.len(), 1);
    assert_eq!(m.select(&"x".to_string()).ok().unwrap().id, 1);
}

#[test]
fn duplicate_name_is_rejected_and_first_kept() {
    let mut m = PluginManager::new("dir".to_string());
    let (a, ca) = valid("same", 1);
    let (b, cb) = valid("same", 2);
    assert!(m.load_one(a).is_ok());
    let r = m.load_one(b);
    assert_eq!(r.err(), Some(LoadError::DuplicateName("same".to_string())));
    assert_eq!(m.len(), 1);
    assert_eq!(m.select(&"same".to_string()).ok().unwrap().id, 1);
    assert_eq!(count(&ca.loads), 1);
    assert_eq!(count(&ca.unloads), 0);
    assert_eq!(count(&cb.loads), 1);
    assert_eq!(count(&cb.unloads), 1);
}

#[test]
fn null_instance_fails_load() {
    let mut m: PluginManager<Mock> = PluginManager::new("dir".to_string());
    let r = m.load_one(Probe::Produced(None));
    assert_eq!(r.err(), Some(LoadError::NullInstance));
    assert_eq!(m.len(), 0);
}

#[test]
fn failed_probes_give_their_errors() {
    let mut m: PluginManager<Mock> = PluginManager::new("dir".to_string());
    assert_eq!(m.load_one(Probe::Unreadable).err(), Some(LoadError::EntryUnreadable));
    assert_eq!(m.load_one(Probe::OpenFailed).err(), Some(LoadError::OpenFailed));
    assert_eq!(m.load_one(Probe::SymbolNotFound).err(), Some(LoadError::SymbolNotFound));
    assert_eq!(m.len(), 0);
}

#[test]
fn unload_all_runs_unload_once_each_and_empties() {
    let mut m = PluginManager::new("dir".to_string());
    let (a, ca) = valid("a", 1);
    let (b, cb) = valid("b", 2);
    m.load_all(vec![a, b]).unwrap();
    let kept = m.select(&"a".to_string()).ok().unwrap();
    m.unload_all();
    assert_eq!(count(&ca.unloads), 1);
    assert_eq!(count(&cb.unloads), 1);
    assert_eq!(m.len(), 0);
    assert!(matches!(m.select(&"a".to_string()), Err(SelectError::NotFound)));
    assert!(matches!(m.select(&"b".to_string()), Err(SelectError::NotFound)));
    assert_eq!(kept.id, 1);
    m.unload_all();
    assert_eq!(count(&ca.unloads), 1);
}

#[test]
fn reload_all_runs_reload_and_keeps_registry() {
    let mut m = PluginManager::new("dir".to_string());
    let (a, ca) = valid("a", 1);
    let (b, cb) = valid("b", 2);
    m.load_all(vec![a, b]).unwrap();
    m.reload_all();
    assert_eq!(count(&ca.reloads), 1);
    assert_eq!(count(&cb.reloads), 1);
    assert_eq!(count(&ca.unloads), 0);
    assert_eq!(m.len(), 2);
    assert_eq!(m.select(&"b".to_string()).ok().unwrap().id, 2);
}

#[test]
fn name_freed_by_unload_can_be_loaded_again() {
    let mut m = PluginManager::new("dir".to_string());
    let (a, _) = valid("a", 1);
    m.load_one(a).unwrap();
    m.unload_all();
    let (b, _) = valid("a", 2);
    assert!(m.load_one(b).is_ok());
    assert_eq!(m.select(&"a".to_string()).ok().unwrap().id, 2);
}

#[test]
fn unreadable_entry_does_not_stop_the_scan() {
    let mut m = PluginManager::new("dir".to_string());
    let (a, _) = valid("a", 1);
    let (b, _) = valid("b", 2);
    let r = m.load_all(vec![a, Probe::Unreadable, b]);
    assert_eq!(r, Err(vec![LoadError::EntryUnreadable]));
    assert_eq!(m.len(), 2);
    assert_eq!(m.select(&"b".to_string()).ok().unwrap().id, 2);
}

#[test]
fn handle_outlives_unload_and_still_describes_itself() {
    let mut m = PluginManager::new("dir".to_string());
    let (a, _) = valid("a", 7);
    let registered = m.load_one(a).unwrap();
    let h = m.select(&"a".to_string()).ok().unwrap();
    m.unload_all();
    let d = h.register();
    assert_eq!(d.name, registered.name);
    assert_eq!(d.version, registered.version);
    assert_eq!(d.author, registered.author);
    assert_eq!(d.explain, registered.explain);
}
