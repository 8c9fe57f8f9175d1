//! The surfaces by name: those the editor renders and those drawn in the
//! scene. A surface the last render left untouched is dropped, and so is
//! the drawn surface of every name the editor no longer has.

use vstd::prelude::*;

use super::surface_bevy::{SurfaceBevy, SurfaceHelix};
use super::{DespawnResource, EntityId};

verus! {

broadcast use vstd::seq_lib::group_filter_ensures;

/// The rendered surfaces by name.
pub type SurfacesMapHelix = Vec<(String, SurfaceHelix)>;

/// The drawn surfaces by name.
pub type SurfacesMapBevy = Vec<(String, SurfaceBevy)>;

/// The names of `surfaces`, in order.
pub open spec fn helix_names(surfaces: Seq<(String, SurfaceHelix)>) -> Seq<Seq<char>> {
    surfaces.map_values(|p: (String, SurfaceHelix)| p.0@)
}

/// Whether a rendered surface stays: the last render filled it in.
pub open spec fn helix_kept() -> spec_fn((String, SurfaceHelix)) -> bool {
    |p: (String, SurfaceHelix)| p.1.dirty
}

/// Whether a drawn surface stays: the editor still has a surface of its
/// name among `names`.
pub open spec fn bevy_kept(names: Seq<Seq<char>>) -> spec_fn((String, SurfaceBevy)) -> bool {
    |p: (String, SurfaceBevy)| names.contains(p.0@)
}

/// Whether a drawn surface goes.
pub open spec fn bevy_dropped(names: Seq<Seq<char>>) -> spec_fn((String, SurfaceBevy)) -> bool {
    |p: (String, SurfaceBevy)| !names.contains(p.0@)
}

/// The scene entities of `surfaces`, in order.
pub open spec fn bevy_entities(surfaces: Seq<(String, SurfaceBevy)>) -> Seq<EntityId> {
    surfaces.map_values(|p: (String, SurfaceBevy)| p.1.entity)
}

/// No name occurs twice: the surfaces map each name to one surface.
pub open spec fn names_unique(names: Seq<Seq<char>>) -> bool {
    forall|i: int, j: int| 0 <= i < j < names.len() ==> names[i] != names[j]
}

proof fn lemma_filter_keeps_names_unique<S>(s: Seq<(String, S)>, pred: spec_fn((String, S)) -> bool)
    requires
        names_unique(s.map_values(|p: (String, S)| p.0@)),
    ensures
        names_unique(s.filter(pred).map_values(|p: (String, S)| p.0@)),
        forall|x: (String, S)| s.filter(pred).contains(x) ==> s.contains(x),
    decreases s.len(),
{
    reveal(Seq::filter);
    if s.len() > 0 {
        let init = s.drop_last();
        assert(init.map_values(|p: (String, S)| p.0@) =~= s.map_values(|p: (String, S)| p.0@).drop_last());
        lemma_filter_keeps_names_unique(init, pred);
        let f0 = init.filter(pred);
        assert forall|x: (String, S)| s.filter(pred).contains(x) implies s.contains(x) by {
            if f0.contains(x) {
                assert(init.contains(x));
                let k = choose|k: int| 0 <= k < init.len() && init[k] == x;
                assert(s[k] == x);
            } else {
                assert(x == s.last());
                assert(s[s.len() - 1] == x);
            }
        }
        if pred(s.last()) {
            let f = s.filter(pred);
            assert(f == f0.push(s.last()));
            let names = f.map_values(|p: (String, S)| p.0@);
            assert forall|i: int, j: int| 0 <= i < j < names.len() implies names[i] != names[j] by {
                if j == names.len() - 1 {
                    assert(f0[i] == f[i]);
                    assert(f0.contains(f[i]));
                    assert(init.contains(f[i]));
                    let k = choose|k: int| 0 <= k < init.len() && init[k] == f[i];
                    assert(s[k] == f[i]);
                    assert(s.map_values(|p: (String, S)| p.0@)[k] != s.map_values(|p: (String, S)| p.0@)[s.len() - 1]);
                } else {
                    assert(f[i] == f0[i] && f[j] == f0[j]);
                    assert(f0.map_values(|p: (String, S)| p.0@)[i] != f0.map_values(|p: (String, S)| p.0@)[j]);
                }
            }
        }
    }
}

/// Whether the editor has a surface called `name`.
pub fn has_surface(surfaces: &SurfacesMapHelix, name: &String) -> (r: bool)
    ensures
        r == helix_names(surfaces@).contains(name@),
{
    let mut i: usize = 0;
    while i < surfaces.len()
        invariant
            i <= surfaces@.len(),
            forall|k: int| 0 <= k < i ==> (#[trigger] surfaces@[k]).0@ != name@,
        decreases surfaces@.len() - i,
    {
        if surfaces[i].0 == *name {
            assert(helix_names(surfaces@)[i as int] == name@);
            return true;
        }
        i = i + 1;
    }
    proof {
        if helix_names(surfaces@).contains(name@) {
            let k = choose|k: int| 0 <= k < helix_names(surfaces@).len() && helix_names(surfaces@)[k] == name@;
            assert(surfaces@[k].0@ == name@);
        }
    }
    false
}

/// The names of `surfaces`, in order.
pub open spec fn bevy_names(surfaces: Seq<(String, SurfaceBevy)>) -> Seq<Seq<char>> {
    surfaces.map_values(|p: (String, SurfaceBevy)| p.0@)
}

/// The names of the rendered surfaces that have no drawn surface yet, in
/// order: those that are to be spawned.
pub open spec fn names_to_spawn(helix: Seq<(String, SurfaceHelix)>, drawn: Seq<Seq<char>>) -> Seq<Seq<char>>
    decreases helix.len(),
{
    if helix.len() == 0 {
        Seq::empty()
    } else {
        let r = names_to_spawn(helix.drop_last(), drawn);
        if drawn.contains(helix.last().0@) { r } else { r.push(helix.last().0@) }
    }
}

/// Whether a drawn surface called `name` exists.
pub fn has_drawn_surface(surfaces: &SurfacesMapBevy, name: &String) -> (r: bool)
    ensures
        r == bevy_names(surfaces@).contains(name@),
{
    let mut i: usize = 0;
    while i < surfaces.len()
        invariant
            i <= surfaces@.len(),
            forall|k: int| 0 <= k < i ==> (#[trigger] surfaces@[k]).0@ != name@,
        decreases surfaces@.len() - i,
    {
        if surfaces[i].0 == *name {
            assert(bevy_names(surfaces@)[i as int] == name@);
            return true;
        }
        i = i + 1;
    }
    proof {
        if bevy_names(surfaces@).contains(name@) {
            let k = choose|k: int| 0 <= k < bevy_names(surfaces@).len() && bevy_names(surfaces@)[k] == name@;
            assert(surfaces@[k].0@ == name@);
        }
    }
    false
}

/// The rendered surfaces that are to be spawned; see `names_to_spawn`.
pub fn surfaces_to_spawn(surfaces_helix: &SurfacesMapHelix, surfaces_bevy: &SurfacesMapBevy) -> (r: Vec<String>)
    ensures
        r@.map_values(|s: String| s@) == names_to_spawn(surfaces_helix@, bevy_names(surfaces_bevy@)),
{
    let mut names: Vec<String> = Vec::new();
    let mut i: usize = 0;
    while i < surfaces_helix.len()
        invariant
            i <= surfaces_helix@.len(),
            names@.map_values(|s: String| s@) == names_to_spawn(surfaces_helix@.subrange(0, i as int), bevy_names(surfaces_bevy@)),
        decreases surfaces_helix@.len() - i,
    {
        proof {
            assert(surfaces_helix@.subrange(0, i + 1).drop_last() =~= surfaces_helix@.subrange(0, i as int));
        }
        if !has_drawn_surface(surfaces_bevy, &surfaces_helix[i].0) {
            names.push(surfaces_helix[i].0.clone());
        }
        i = i + 1;
        proof {
            assert(names@.map_values(|s: String| s@) =~= names_to_spawn(surfaces_helix@.subrange(0, i as int), bevy_names(surfaces_bevy@)));
        }
    }
    proof {
        assert(surfaces_helix@.subrange(0, i as int) =~= surfaces_helix@);
    }
    names
}

proof fn lemma_filter_step<A>(s: Seq<A>, j: int, pred: spec_fn(A) -> bool)
    requires
        0 <= j < s.len(),
    ensures
        s.subrange(0, j + 1).filter(pred) == if pred(s[j]) {
            s.subrange(0, j).filter(pred).push(s[j])
        } else {
            s.subrange(0, j).filter(pred)
        },
{
    reveal(Seq::filter);
    assert(s.subrange(0, j + 1).drop_last() =~= s.subrange(0, j));
}

/// Drops the rendered surfaces the last render left untouched, then the
/// drawn surfaces whose names the editor no longer has, queueing each
/// dropped drawn surface's entity to be despawned with its children. Both
/// maps keep the order of what stays.
pub fn despawn_unused_surfaces(
    surfaces_helix: &mut SurfacesMapHelix,
    surfaces_bevy: &mut SurfacesMapBevy,
    despawn: &mut DespawnResource,
)
    ensures
        final(surfaces_helix)@ == old(surfaces_helix)@.filter(helix_kept()),
        final(surfaces_bevy)@ == old(surfaces_bevy)@.filter(bevy_kept(helix_names(final(surfaces_helix)@))),
        final(despawn).recursive@ == old(despawn).recursive@ + bevy_entities(
            old(surfaces_bevy)@.filter(bevy_dropped(helix_names(final(surfaces_helix)@))),
        ),
        final(despawn).children_only@ == old(despawn).children_only@,
        names_unique(helix_names(old(surfaces_helix)@)) ==> names_unique(helix_names(final(surfaces_helix)@)),
        names_unique(bevy_names(old(surfaces_bevy)@)) ==> names_unique(bevy_names(final(surfaces_bevy)@)),
{
    let ghost helix0 = surfaces_helix@;
    let ghost n = helix0.len();
    let mut i: usize = 0;
    let ghost mut j: int = 0;
    while i < surfaces_helix.len()
        invariant
            0 <= j <= n,
            n == helix0.len(),
            surfaces_helix@ == helix0.subrange(0, j).filter(helix_kept()) + helix0.subrange(j, n as int),
            i == helix0.subrange(0, j).filter(helix_kept()).len(),
        decreases n - j,
    {
        proof {
            lemma_filter_step(helix0, j, helix_kept());
            assert(surfaces_helix@[i as int] == helix0[j]);
        }
        if surfaces_helix[i].1.dirty {
            i = i + 1;
        } else {
            surfaces_helix.remove(i);
        }
        proof {
            assert(surfaces_helix@ =~= helix0.subrange(0, j + 1).filter(helix_kept()) + helix0.subrange(j + 1, n as int));
            j = j + 1;
        }
    }
    proof {
        assert(helix0.subrange(0, j) =~= helix0);
        assert(helix0.subrange(j, n as int) =~= Seq::<(String, SurfaceHelix)>::empty());
        assert(surfaces_helix@ =~= helix0.filter(helix_kept()));
    }

    let ghost names = helix_names(surfaces_helix@);
    let ghost bevy0 = surfaces_bevy@;
    let ghost despawn0 = despawn.recursive@;
    let ghost m = bevy0.len();
    let mut i: usize = 0;
    let ghost mut j: int = 0;
    while i < surfaces_bevy.len()
        invariant
            0 <= j <= m,
            m == bevy0.len(),
            names == helix_names(surfaces_helix@),
            surfaces_bevy@ == bevy0.subrange(0, j).filter(bevy_kept(names)) + bevy0.subrange(j, m as int),
            i == bevy0.subrange(0, j).filter(bevy_kept(names)).len(),
            despawn.recursive@ == despawn0 + bevy_entities(bevy0.subrange(0, j).filter(bevy_dropped(names))),
            despawn.children_only@ == old(despawn).children_only@,
            despawn0 == old(despawn).recursive@,
        decreases m - j,
    {
        proof {
            lemma_filter_step(bevy0, j, bevy_kept(names));
            lemma_filter_step(bevy0, j, bevy_dropped(names));
            assert(surfaces_bevy@[i as int] == bevy0[j]);
        }
        let keep = has_surface(surfaces_helix, &surfaces_bevy[i].0);
        if keep {
            i = i + 1;
        } else {
            despawn.recursive.push(surfaces_bevy[i].1.entity);
            surfaces_bevy.remove(i);
        }
        proof {
            assert(surfaces_bevy@ =~= bevy0.subrange(0, j + 1).filter(bevy_kept(names)) + bevy0.subrange(j + 1, m as int));
            assert(despawn.recursive@ =~= despawn0 + bevy_entities(bevy0.subrange(0, j + 1).filter(bevy_dropped(names))));
            j = j + 1;
        }
    }
    proof {
        assert(bevy0.subrange(0, j) =~= bevy0);
        assert(bevy0.subrange(j, m as int) =~= Seq::<(String, SurfaceBevy)>::empty());
        assert(surfaces_bevy@ =~= bevy0.filter(bevy_kept(names)));
        if names_unique(helix_names(helix0)) {
            lemma_filter_keeps_names_unique(helix0, helix_kept());
        }
        if names_unique(bevy_names(bevy0)) {
            lemma_filter_keeps_names_unique(bevy0, bevy_kept(names));
        }
    }
}

/// After dropping the unused surfaces every drawn surface has a rendered
/// one of its name, and every rendered one was filled in by the last render.
pub proof fn lemma_surfaces_in_sync(
    old_helix: Seq<(String, SurfaceHelix)>,
    old_bevy: Seq<(String, SurfaceBevy)>,
    new_helix: Seq<(String, SurfaceHelix)>,
    new_bevy: Seq<(String, SurfaceBevy)>,
)
    requires
        new_helix == old_helix.filter(helix_kept()),
        new_bevy == old_bevy.filter(bevy_kept(helix_names(new_helix))),
    ensures
        forall|k: int| 0 <= k < new_bevy.len() ==> helix_names(new_helix).contains(#[trigger] new_bevy[k].0@),
        forall|k: int| 0 <= k < new_helix.len() ==> (#[trigger] new_helix[k]).1.dirty,
{
    assert forall|k: int| 0 <= k < new_bevy.len() implies helix_names(new_helix).contains(#[trigger] new_bevy[k].0@) by {
        assert(bevy_kept(helix_names(new_helix))(new_bevy[k]));
    }
    assert forall|k: int| 0 <= k < new_helix.len() implies (#[trigger] new_helix[k]).1.dirty by {
        assert(helix_kept()(new_helix[k]));
    }
}

proof fn lemma_filter_keeps_all<A>(s: Seq<A>, pred: spec_fn(A) -> bool)
    requires
        forall|k: int| 0 <= k < s.len() ==> pred(#[trigger] s[k]),
    ensures
        s.filter(pred) == s,
    decreases s.len(),
{
    reveal(Seq::filter);
    if s.len() > 0 {
        lemma_filter_keeps_all(s.drop_last(), pred);
        assert(s.drop_last().push(s.last()) =~= s);
    }
}

/// Dropping unused surfaces a second time, with no render in between,
/// changes nothing and despawns nothing.
pub proof fn lemma_despawn_unused_settles(
    old_helix: Seq<(String, SurfaceHelix)>,
    old_bevy: Seq<(String, SurfaceBevy)>,
    new_helix: Seq<(String, SurfaceHelix)>,
    new_bevy: Seq<(String, SurfaceBevy)>,
)
    requires
        new_helix == old_helix.filter(helix_kept()),
        new_bevy == old_bevy.filter(bevy_kept(helix_names(new_helix))),
    ensures
        new_helix.filter(helix_kept()) == new_helix,
        new_bevy.filter(bevy_kept(helix_names(new_helix.filter(helix_kept())))) == new_bevy,
        bevy_entities(new_bevy.filter(bevy_dropped(helix_names(new_helix)))).len() == 0,
{
    lemma_surfaces_in_sync(old_helix, old_bevy, new_helix, new_bevy);
    assert forall|k: int| 0 <= k < new_helix.len() implies helix_kept()(#[trigger] new_helix[k]) by {}
    lemma_filter_keeps_all(new_helix, helix_kept());
    let names = helix_names(new_helix);
    assert forall|k: int| 0 <= k < new_bevy.len() implies bevy_kept(names)(#[trigger] new_bevy[k]) by {}
    lemma_filter_keeps_all(new_bevy, bevy_kept(names));
    assert(new_bevy.all(|x: (String, SurfaceBevy)| !bevy_dropped(names)(x))) by {
        assert forall|k: int| 0 <= k < new_bevy.len() implies !bevy_dropped(names)(#[trigger] new_bevy[k]) by {}
    }
    new_bevy.lemma_all_neg_filter_empty(bevy_dropped(names));
}

} // verus!
