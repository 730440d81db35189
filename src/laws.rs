use vstd::prelude::*;

use crate::error::LoadError;
use crate::manager::{
    errors_of, hook_all, is_registered, key_of, load_run, load_step, names_unique, probe_error,
    Entry, Hook, HookCall, Probe,
};
use crate::plugin::{Plugin, PluginTrait};

verus! {

/// A probe of a library that follows the entry-point convention: the entry
/// point was found and returned an instance.
pub open spec fn is_valid<P>(probe: Probe<P>) -> bool {
    probe is Produced && probe->Produced_0 is Some
}

/// The name that the instance of a valid probe reports.
pub open spec fn name_of<P: PluginTrait>(probe: Probe<P>) -> Seq<char> {
    probe->Produced_0->0.reported().name@
}

/// The errors of the probes that failed before an instance existed, in order.
pub open spec fn probe_errors<P>(probes: Seq<Probe<P>>) -> Seq<LoadError>
    decreases probes.len(),
{
    if probes.len() == 0 {
        Seq::empty()
    } else {
        let before = probe_errors(probes.drop_last());
        match probe_error(probes.last()) {
            Some(e) => before.push(e),
            None => before,
        }
    }
}

/// How many of `probes` are valid.
pub open spec fn valid_count<P>(probes: Seq<Probe<P>>) -> nat
    decreases probes.len(),
{
    if probes.len() == 0 {
        0
    } else {
        valid_count(probes.drop_last()) + if is_valid(probes.last()) {
            1nat
        } else {
            0nat
        }
    }
}

/// Some entry of `s` is registered under the name `p` reports, holds `p`
/// and the metadata `p` reports.
pub open spec fn registers<P: PluginTrait>(s: Seq<Entry<P>>, p: P) -> bool {
    exists|k: int|
        0 <= k < s.len() && #[trigger] key_of(s[k]) == p.reported().name@ && s[k].meta
            == p.reported() && *s[k].handle == p
}

/// Loading a directory's probes, where the valid ones report names that are
/// pairwise distinct and not yet registered: every valid library is
/// registered, exactly once, under the name it reports, holding its
/// instance, and its load gives back that metadata; the registry before is
/// kept as a prefix; and the errors are exactly those of the failed probes,
/// in order, so one bad library stops none of the others.
pub proof fn lemma_load_run_registers_valid<P: PluginTrait>(
    states: Seq<(Seq<Entry<P>>, Seq<HookCall>)>,
    probes: Seq<Probe<P>>,
    outs: Seq<Result<Plugin, LoadError>>,
)
    requires
        load_run(states, probes, outs),
        forall|i: int, j: int|
            0 <= i < probes.len() && 0 <= j < probes.len() && i != j && is_valid(probes[i])
                && is_valid(probes[j]) ==> #[trigger] name_of(probes[i]) != #[trigger] name_of(
                probes[j],
            ),
        forall|i: int|
            0 <= i < probes.len() && is_valid(probes[i]) ==> !is_registered(
                states[0].0,
                #[trigger] name_of(probes[i]),
            ),
    ensures
        errors_of(outs) == probe_errors(probes),
        states.last().0.len() == states[0].0.len() + valid_count(probes),
        states.last().0.take(states[0].0.len() as int) == states[0].0,
        forall|i: int|
            0 <= i < probes.len() && is_valid(#[trigger] probes[i]) ==> outs[i] == Ok::<
                Plugin,
                LoadError,
            >(probes[i]->Produced_0->0.reported()) && registers(
                states.last().0,
                probes[i]->Produced_0->0,
            ),
        forall|x: Seq<char>|
            #[trigger] is_registered(states.last().0, x) ==> is_registered(states[0].0, x) || exists|
                j: int,
            |
                0 <= j < probes.len() && is_valid(probes[j]) && #[trigger] name_of(probes[j]) == x,
    decreases probes.len(),
{
    let n = probes.len();
    let base = states[0].0;
    if n == 0 {
        assert(states.last().0.take(base.len() as int) =~= base);
    } else {
        let k = n - 1;
        let s2 = states.drop_last();
        let p2 = probes.drop_last();
        let o2 = outs.drop_last();
        assert forall|i: int| 0 <= i < p2.len() implies #[trigger] load_step(
            s2[i].0,
            s2[i].1,
            p2[i],
            o2[i],
            s2[i + 1].0,
            s2[i + 1].1,
        ) by {
            assert(load_step(
                states[i].0,
                states[i].1,
                probes[i],
                outs[i],
                states[i + 1].0,
                states[i + 1].1,
            ));
        }
        assert forall|i: int, j: int|
            0 <= i < p2.len() && 0 <= j < p2.len() && i != j && is_valid(p2[i]) && is_valid(
                p2[j],
            ) implies #[trigger] name_of(p2[i]) != #[trigger] name_of(p2[j]) by {
            assert(p2[i] == probes[i] && p2[j] == probes[j]);
            assert(name_of(probes[i]) != name_of(probes[j]));
        }
        assert forall|i: int| 0 <= i < p2.len() && is_valid(p2[i]) implies !is_registered(
            s2[0].0,
            #[trigger] name_of(p2[i]),
        ) by {
            assert(p2[i] == probes[i]);
            assert(!is_registered(base, name_of(probes[i])));
        }
        lemma_load_run_registers_valid(s2, p2, o2);
        assert(load_step(
            states[k].0,
            states[k].1,
            probes[k],
            outs[k],
            states[k + 1].0,
            states[k + 1].1,
        ));
        let pre = states[k].0;
        let post = states[k + 1].0;
        assert(s2.last() == states[k]);
        assert(o2 =~= outs.drop_last());
        assert(p2 =~= probes.drop_last());
        if is_valid(probes[k]) {
            let p = probes[k]->Produced_0->0;
            let m = p.reported();
            assert(name_of(probes[k]) == m.name@);
            if is_registered(pre, m.name@) {
                let x = m.name@;
                assert(is_registered(pre, x));
                if !is_registered(base, x) {
                    let j = choose|j: int|
                        0 <= j < p2.len() && is_valid(p2[j]) && #[trigger] name_of(p2[j]) == x;
                    assert(p2[j] == probes[j]);
                    assert(name_of(probes[j]) != name_of(probes[k]));
                }
                assert(!is_registered(base, name_of(probes[k])));
                assert(false);
            }
            assert(post.drop_last() == pre);
            assert forall|i: int|
                0 <= i < probes.len() && is_valid(#[trigger] probes[i]) implies outs[i] == Ok::<
                Plugin,
                LoadError,
            >(probes[i]->Produced_0->0.reported()) && registers(
                post,
                probes[i]->Produced_0->0,
            ) by {
                if i < k {
                    assert(p2[i] == probes[i] && o2[i] == outs[i]);
                    let q = probes[i]->Produced_0->0;
                    assert(registers(pre, q));
                    let kk = choose|kk: int|
                        0 <= kk < pre.len() && #[trigger] key_of(pre[kk]) == q.reported().name@
                            && pre[kk].meta == q.reported() && *pre[kk].handle == q;
                    assert(post[kk] == pre[kk]);
                } else {
                    assert(key_of(post[post.len() - 1]) == m.name@);
                }
            }
            assert forall|x: Seq<char>| #[trigger] is_registered(post, x) implies is_registered(
                base,
                x,
            ) || exists|j: int|
                0 <= j < probes.len() && is_valid(probes[j]) && #[trigger] name_of(probes[j])
                    == x by {
                let q = choose|q: int| 0 <= q < post.len() && #[trigger] key_of(post[q]) == x;
                if q < pre.len() {
                    assert(post[q] == pre[q]);
                    assert(is_registered(pre, x));
                    if !is_registered(base, x) {
                        let j = choose|j: int|
                            0 <= j < p2.len() && is_valid(p2[j]) && #[trigger] name_of(p2[j]) == x;
                        assert(p2[j] == probes[j]);
                    }
                } else {
                    assert(name_of(probes[k]) == x);
                }
            }
            assert(post.take(base.len() as int) =~= pre.take(base.len() as int));
        } else {
            assert(post == pre);
            assert forall|i: int|
                0 <= i < probes.len() && is_valid(#[trigger] probes[i]) implies outs[i] == Ok::<
                Plugin,
                LoadError,
            >(probes[i]->Produced_0->0.reported()) && registers(
                post,
                probes[i]->Produced_0->0,
            ) by {
                assert(i != k);
                assert(p2[i] == probes[i] && o2[i] == outs[i]);
            }
            assert forall|x: Seq<char>| #[trigger] is_registered(post, x) implies is_registered(
                base,
                x,
            ) || exists|j: int|
                0 <= j < probes.len() && is_valid(probes[j]) && #[trigger] name_of(probes[j])
                    == x by {
                if !is_registered(base, x) {
                    let j = choose|j: int|
                        0 <= j < p2.len() && is_valid(p2[j]) && #[trigger] name_of(p2[j]) == x;
                    assert(p2[j] == probes[j]);
                }
            }
        }
    }
}

/// After a load that succeeded, the load gave back what the plugin reports,
/// and that name selects exactly that plugin: its entry holds the reported
/// metadata and the instance that was produced.
pub proof fn lemma_select_after_load<P: PluginTrait>(
    pre: Seq<Entry<P>>,
    pre_log: Seq<HookCall>,
    p: P,
    m: Plugin,
    post: Seq<Entry<P>>,
    post_log: Seq<HookCall>,
)
    requires
        names_unique(pre),
        load_step(pre, pre_log, Probe::Produced(Some(p)), Ok(m), post, post_log),
    ensures
        m == p.reported(),
        is_registered(post, m.name@),
        forall|i: int|
            0 <= i < post.len() && #[trigger] key_of(post[i]) == m.name@ ==> post[i].meta == m
                && *post[i].handle == p,
{
    let last = post.len() - 1;
    assert(key_of(post[last]) == m.name@);
    assert forall|i: int| 0 <= i < post.len() && #[trigger] key_of(post[i]) == m.name@ implies post[i].meta
        == m && *post[i].handle == p by {
        if i < last {
            assert(post[i] == pre[i]);
        }
    }
}

/// A plugin that reports a name already registered is refused with
/// `DuplicateName` of that name, and the registry stays as it was; the
/// newcomer's `load` and `unload` hooks are the only hooks run. One that
/// reports a free name is registered.
pub proof fn lemma_duplicate_rejected<P: PluginTrait>(
    pre: Seq<Entry<P>>,
    pre_log: Seq<HookCall>,
    p: P,
    out: Result<Plugin, LoadError>,
    post: Seq<Entry<P>>,
    post_log: Seq<HookCall>,
)
    requires
        load_step(pre, pre_log, Probe::Produced(Some(p)), out, post, post_log),
    ensures
        is_registered(pre, p.reported().name@) ==> {
            &&& out == Err::<Plugin, LoadError>(LoadError::DuplicateName(p.reported().name))
            &&& post == pre
            &&& post_log == pre_log.push((Hook::Load, p.reported().name@)).push(
                (Hook::Unload, p.reported().name@),
            )
        },
        !is_registered(pre, p.reported().name@) ==> out == Ok::<Plugin, LoadError>(p.reported()),
{
}

/// A null instance from the entry point fails the load with `NullInstance`
/// and changes neither the registry nor the hooks run.
pub proof fn lemma_null_instance<P: PluginTrait>(
    pre: Seq<Entry<P>>,
    pre_log: Seq<HookCall>,
    out: Result<Plugin, LoadError>,
    post: Seq<Entry<P>>,
    post_log: Seq<HookCall>,
)
    requires
        load_step(pre, pre_log, Probe::Produced(None), out, post, post_log),
    ensures
        out == Err::<Plugin, LoadError>(LoadError::NullInstance),
        post == pre,
        post_log == pre_log,
{
}

/// Unloading all plugins runs `unload` exactly once on each registered
/// plugin: the i-th hook run is on the i-th entry, and no other run names it.
pub proof fn lemma_unload_once_each<P>(s: Seq<Entry<P>>)
    requires
        names_unique(s),
    ensures
        hook_all(s, Hook::Unload).len() == s.len(),
        forall|i: int|
            0 <= i < s.len() ==> #[trigger] hook_all(s, Hook::Unload)[i] == (
                Hook::Unload,
                key_of(s[i]),
            ),
        forall|i: int, j: int|
            0 <= i < s.len() && 0 <= j < s.len() && #[trigger] hook_all(s, Hook::Unload)[j].1
                == #[trigger] key_of(s[i]) ==> i == j,
{
}

/// After everything was unloaded, no name is registered, so selecting any
/// name, one registered before included, gives `NotFound`.
pub proof fn lemma_nothing_registered_after_unload<P>(s: Seq<Entry<P>>, name: Seq<char>)
    requires
        s == Seq::<Entry<P>>::empty(),
    ensures
        !is_registered(s, name),
{
}

} // verus!
