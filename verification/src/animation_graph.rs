//! Compiling the player's animation graph from its clip libraries.
//!
//! The appearance names one or more animation sources (a locomotion library
//! first, then a second library). Once every source has loaded, their clips
//! are merged into one list, sorted by name, each name once; on a collision
//! the earlier source wins. The roles are then bound against that list.

use vstd::prelude::*;

use crate::animation_roles::{
    bind_roles, canonical_name, clip_lookup, clip_views, first_present, own_clip, resolve_role,
    resolved_clip, role_bindings, vendor_alias_names, AnimationRole,
};

verus! {

/// Name order: characters compared one by one by their scalar value, a
/// proper prefix first. It is the order of `String`'s own comparison, which
/// compares UTF-8 bytes, an encoding that keeps scalar order.
pub open spec fn name_before(a: Seq<char>, b: Seq<char>) -> bool
    decreases a.len(),
{
    if a.len() == 0 {
        b.len() > 0
    } else if b.len() == 0 {
        false
    } else if a[0] != b[0] {
        (a[0] as int) < (b[0] as int)
    } else {
        name_before(a.drop_first(), b.drop_first())
    }
}

/// Source `s` ships a clip named `name`.
pub open spec fn source_holds(sources: Seq<Seq<String>>, s: int, name: Seq<char>) -> bool {
    0 <= s < sources.len() && exists|k: int|
        0 <= k < sources[s].len() && (#[trigger] sources[s][k])@ == name
}

/// The clip names of each source.
pub open spec fn name_lists(sources: Seq<Vec<String>>) -> Seq<Seq<String>> {
    sources.map_values(|v: Vec<String>| v@)
}

/// Some entry of `clips` carries `name`.
pub open spec fn lists_name(clips: Seq<(String, usize)>, name: Seq<char>) -> bool {
    exists|i: int| 0 <= i < clips.len() && clips[i].0@ == name
}

/// `clips` is the merge of `sources`: sorted strictly by name, every name of
/// every source present, and each entry naming the first source that ships it.
pub open spec fn is_merge_of(sources: Seq<Seq<String>>, clips: Seq<(String, usize)>) -> bool {
    &&& forall|i: int, j: int|
        0 <= i < j < clips.len() ==> name_before(#[trigger] clips[i].0@, #[trigger] clips[j].0@)
    &&& forall|i: int|
        0 <= i < clips.len() ==> {
            &&& source_holds(sources, #[trigger] clips[i].1 as int, clips[i].0@)
            &&& forall|s: int| 0 <= s < clips[i].1 ==> !source_holds(sources, s, clips[i].0@)
        }
    &&& forall|s: int, k: int|
        0 <= s < sources.len() && 0 <= k < sources[s].len() ==> lists_name(clips, (#[trigger] sources[s][k])@)
}

/// No name comes before itself.
pub proof fn lemma_name_before_irreflexive(a: Seq<char>)
    ensures
        !name_before(a, a),
    decreases a.len(),
{
    if a.len() > 0 {
        lemma_name_before_irreflexive(a.drop_first());
    }
}

/// Of two different names, one comes first, and never both.
pub proof fn lemma_name_before_total(a: Seq<char>, b: Seq<char>)
    ensures
        a != b ==> (name_before(a, b) || name_before(b, a)),
        !(name_before(a, b) && name_before(b, a)),
    decreases a.len(),
{
    if a.len() > 0 && b.len() > 0 {
        if a[0] == b[0] {
            lemma_name_before_total(a.drop_first(), b.drop_first());
            if a != b {
                assert(a =~= seq![a[0]] + a.drop_first());
                assert(b =~= seq![b[0]] + b.drop_first());
            }
        } else {
        }
    } else if a.len() == 0 && b.len() == 0 {
        assert(a =~= b);
    }
}

/// Name order is transitive.
pub proof fn lemma_name_before_transitive(a: Seq<char>, b: Seq<char>, c: Seq<char>)
    requires
        name_before(a, b),
        name_before(b, c),
    ensures
        name_before(a, c),
    decreases a.len(),
{
    if a.len() > 0 && b.len() > 0 && c.len() > 0 && a[0] == b[0] && b[0] == c[0] {
        lemma_name_before_transitive(a.drop_first(), b.drop_first(), c.drop_first());
    }
}

/// Whether `a` comes before `b` in name order.
pub fn precedes(a: &Vec<char>, b: &Vec<char>) -> (before: bool)
    ensures
        before == name_before(a@, b@),
{
    let mut i: usize = 0;
    assert(a@.subrange(0, a.len() as int) =~= a@);
    assert(b@.subrange(0, b.len() as int) =~= b@);
    while i < a.len() && i < b.len() && a[i] == b[i]
        invariant
            i <= a.len(),
            i <= b.len(),
            name_before(a@, b@) == name_before(
                a@.subrange(i as int, a.len() as int),
                b@.subrange(i as int, b.len() as int),
            ),
        decreases a.len() - i,
    {
        let ghost x = a@.subrange(i as int, a.len() as int);
        let ghost y = b@.subrange(i as int, b.len() as int);
        assert(x.drop_first() =~= a@.subrange(i + 1, a.len() as int));
        assert(y.drop_first() =~= b@.subrange(i + 1, b.len() as int));
        i = i + 1;
    }
    let ghost x = a@.subrange(i as int, a.len() as int);
    let ghost y = b@.subrange(i as int, b.len() as int);
    if i == a.len() {
        i < b.len()
    } else if i == b.len() {
        false
    } else {
        assert(x[0] == a@[i as int] && y[0] == b@[i as int]);
        a[i] < b[i]
    }
}

/// Merge the clip names of the animation sources, given in load order: the
/// result is sorted by name, holds each name once and every name of every
/// source, and pairs each name with the first source that ships it (on a
/// collision the earlier source wins).
pub fn merge_clip_names(sources: &[Vec<String>]) -> (clips: Vec<(String, usize)>)
    ensures
        is_merge_of(name_lists(sources@), clips@),
{
    let ghost lists = name_lists(sources@);
    let mut clips: Vec<(String, usize)> = Vec::new();
    let mut s: usize = 0;
    while s < sources.len()
        invariant
            s <= sources.len(),
            lists == name_lists(sources@),
            forall|i: int, j: int|
                0 <= i < j < clips@.len() ==> name_before(
                    #[trigger] clips@[i].0@,
                    #[trigger] clips@[j].0@,
                ),
            forall|i: int|
                0 <= i < clips@.len() ==> {
                    &&& #[trigger] clips@[i].1 < s
                    &&& source_holds(lists, clips@[i].1 as int, clips@[i].0@)
                    &&& forall|t: int|
                        0 <= t < clips@[i].1 ==> !source_holds(lists, t, clips@[i].0@)
                },
            forall|t: int, k: int|
                0 <= t < s && 0 <= k < lists[t].len() ==> lists_name(clips@, (#[trigger] lists[t][k])@),
        decreases sources.len() - s,
    {
        let names = &sources[s];
        let mut k: usize = 0;
        while k < names.len()
            invariant
                s < sources.len(),
                names@ == lists[s as int],
                lists == name_lists(sources@),
                k <= names.len(),
                forall|i: int, j: int|
                    0 <= i < j < clips@.len() ==> name_before(
                        #[trigger] clips@[i].0@,
                        #[trigger] clips@[j].0@,
                    ),
                forall|i: int|
                    0 <= i < clips@.len() ==> {
                        &&& #[trigger] clips@[i].1 <= s
                        &&& source_holds(lists, clips@[i].1 as int, clips@[i].0@)
                        &&& forall|t: int|
                            0 <= t < clips@[i].1 ==> !source_holds(lists, t, clips@[i].0@)
                    },
                forall|t: int, j: int|
                    0 <= t < s && 0 <= j < lists[t].len() ==> lists_name(clips@, (#[trigger] lists[t][j])@),
                forall|j: int|
                    0 <= j < k ==> lists_name(clips@, (#[trigger] names@[j])@),
            decreases names.len() - k,
        {
            let name = &names[k];
            let wanted = crate::text::chars_of(name.as_str());
            let mut p: usize = 0;
            let mut found = false;
            let mut past = false;
            while p < clips.len() && !found && !past
                invariant
                    p <= clips@.len(),
                    wanted@ == name@,
                    forall|j: int| 0 <= j < p ==> name_before(#[trigger] clips@[j].0@, name@),
                    found ==> p < clips@.len() && clips@[p as int].0@ == name@,
                    past ==> p < clips@.len() && clips@[p as int].0@ != name@ && !name_before(
                        clips@[p as int].0@,
                        name@,
                    ),
                decreases clips.len() - p + (if found || past { 0int } else { 1int }),
            {
                let here = crate::text::chars_of(clips[p].0.as_str());
                if crate::text::same_text(&here, &wanted) {
                    found = true;
                } else if precedes(&here, &wanted) {
                    p = p + 1;
                } else {
                    past = true;
                }
            }
            proof {
                assert(names@[k as int] == *name);
            }
            if !found {
                let ghost old_clips = clips@;
                proof {
                    if p < old_clips.len() {
                        lemma_name_before_total(old_clips[p as int].0@, name@);
                    }
                    // No earlier source ships this name: it would already be merged.
                    assert forall|t: int| 0 <= t < s implies !source_holds(
                        lists,
                        t,
                        name@,
                    ) by {
                        if source_holds(lists, t, name@) {
                            let j = choose|j: int|
                                0 <= j < lists[t].len() && (#[trigger] lists[t][j])@
                                    == name@;
                            assert(lists_name(old_clips, lists[t][j]@));
                            let i = choose|i: int|
                                0 <= i < old_clips.len() && old_clips[i].0@ == lists[t][j]@;
                            if i < p {
                                lemma_name_before_irreflexive(name@);
                            } else {
                                if i > p {
                                    lemma_name_before_transitive(
                                        name@,
                                        old_clips[p as int].0@,
                                        old_clips[i].0@,
                                    );
                                }
                                lemma_name_before_irreflexive(name@);
                            }
                        }
                    }
                    assert(source_holds(lists, s as int, name@));
                }
                clips.insert(p, (name.clone(), s));
                proof {
                    let c = clips@;
                    assert(c == old_clips.insert(p as int, (*name, s)));
                    assert forall|i: int, j: int| 0 <= i < j < c.len() implies name_before(
                        #[trigger] c[i].0@,
                        #[trigger] c[j].0@,
                    ) by {
                        if j < p {
                            assert(c[i] == old_clips[i] && c[j] == old_clips[j]);
                            assert(name_before(old_clips[i].0@, old_clips[j].0@));
                        } else if j == p {
                            assert(c[i] == old_clips[i]);
                        } else if i == p {
                            assert(c[j] == old_clips[j - 1]);
                            if j - 1 > p {
                                lemma_name_before_transitive(
                                    name@,
                                    old_clips[p as int].0@,
                                    old_clips[j - 1].0@,
                                );
                            }
                        } else if i < p {
                            assert(c[i] == old_clips[i] && c[j] == old_clips[j - 1]);
                            assert(name_before(old_clips[i].0@, old_clips[j - 1].0@));
                        } else {
                            assert(c[i] == old_clips[i - 1] && c[j] == old_clips[j - 1]);
                            assert(name_before(old_clips[i - 1].0@, old_clips[j - 1].0@));
                        }
                    }
                    assert forall|i: int| 0 <= i < c.len() implies {
                        &&& #[trigger] c[i].1 <= s
                        &&& source_holds(lists, c[i].1 as int, c[i].0@)
                        &&& forall|t: int| 0 <= t < c[i].1 ==> !source_holds(lists, t, c[i].0@)
                    } by {
                        if i < p {
                            assert(c[i] == old_clips[i]);
                        } else if i > p {
                            assert(c[i] == old_clips[i - 1]);
                        }
                    }
                    assert forall|t: int, j: int|
                        0 <= t < s && 0 <= j < lists[t].len() implies lists_name(c, (#[trigger] lists[t][j])@) by {
                        assert(lists_name(old_clips, lists[t][j]@));
                        let i = choose|i: int|
                            0 <= i < old_clips.len() && old_clips[i].0@ == lists[t][j]@;
                        if i < p {
                            assert(c[i] == old_clips[i]);
                        } else {
                            assert(c[i + 1] == old_clips[i]);
                        }
                    }
                    assert forall|j: int| 0 <= j < k + 1 implies lists_name(c, (#[trigger] names@[j])@) by {
                        if j == k {
                            assert(c[p as int].0@ == name@);
                        } else {
                            assert(lists_name(old_clips, names@[j]@));
                            let i = choose|i: int|
                                0 <= i < old_clips.len() && old_clips[i].0@ == names@[j]@;
                            if i < p {
                                assert(c[i] == old_clips[i]);
                            } else {
                                assert(c[i + 1] == old_clips[i]);
                            }
                        }
                    }
                }
            }
            k = k + 1;
        }
        proof {
            assert forall|t: int, j: int|
                0 <= t < s + 1 && 0 <= j < lists[t].len() implies lists_name(clips@, (#[trigger] lists[t][j])@) by {
                if t == s {
                    assert(lists[t][j] == names@[j]);
                }
            }
        }
        s = s + 1;
    }
    clips
}

/// Some source ships a clip named `name`.
pub open spec fn ships(sources: Seq<Seq<String>>, name: Seq<char>) -> bool {
    exists|s: int| source_holds(sources, s, name)
}

/// Every name an idle clip may carry: the canonical one, then the aliases.
pub open spec fn idle_names() -> Seq<Seq<char>> {
    seq![canonical_name(AnimationRole::Idle)] + vendor_alias_names(AnimationRole::Idle)
}

/// Some source ships an idle clip under one of its names.
pub open spec fn idle_shipped(sources: Seq<Seq<String>>) -> bool {
    exists|i: int| 0 <= i < idle_names().len() && ships(sources, #[trigger] idle_names()[i])
}

/// The merged clips numbered by their place in the list: the name-to-node
/// list the roles are bound against.
pub open spec fn numbered(clips: Seq<(String, usize)>) -> Seq<(Seq<char>, usize)> {
    Seq::new(clips.len(), |i: int| (clips[i].0@, i as usize))
}

/// The clip names of every source, once each source has loaded.
pub open spec fn loaded_sources(handles: Seq<Option<Vec<String>>>) -> Seq<Seq<String>> {
    handles.map_values(|h: Option<Vec<String>>| (h->0)@)
}

/// Every source has loaded.
pub open spec fn all_loaded(handles: Seq<Option<Vec<String>>>) -> bool {
    forall|i: int| 0 <= i < handles.len() ==> (#[trigger] handles[i]) is Some
}

/// A name is found in the numbered list exactly when the merge lists it.
proof fn lemma_lookup_numbered(clips: Seq<(String, usize)>, name: Seq<char>)
    ensures
        clip_lookup(numbered(clips), name) is Some <==> lists_name(clips, name),
    decreases clips.len(),
{
    if clips.len() > 0 {
        let rest = clips.drop_last();
        assert(numbered(clips).drop_last() =~= numbered(rest));
        lemma_lookup_numbered(rest, name);
        if lists_name(rest, name) {
            let i = choose|i: int| 0 <= i < rest.len() && rest[i].0@ == name;
            assert(clips[i] == rest[i]);
        }
        if lists_name(clips, name) && clips.last().0@ != name {
            let i = choose|i: int| 0 <= i < clips.len() && clips[i].0@ == name;
            assert(rest[i] == clips[i]);
        }
        if clips.last().0@ == name {
            assert(clips[clips.len() - 1].0@ == name);
        }
    }
}

/// None of `names` is found exactly when the first-present search finds none.
proof fn lemma_first_present_none(by_name: Seq<(Seq<char>, usize)>, names: Seq<Seq<char>>)
    ensures
        first_present(by_name, names) is None <==> forall|i: int|
            0 <= i < names.len() ==> clip_lookup(by_name, #[trigger] names[i]) is None,
    decreases names.len(),
{
    if names.len() > 0 {
        lemma_first_present_none(by_name, names.drop_first());
        assert forall|i: int| 1 <= i < names.len() implies #[trigger] names[i]
            == names.drop_first()[i - 1] by {}
        if first_present(by_name, names) is None {
            assert forall|i: int| 0 <= i < names.len() implies clip_lookup(
                by_name,
                #[trigger] names[i],
            ) is None by {
                if i > 0 {
                    assert(names[i] == names.drop_first()[i - 1]);
                }
            }
        }
    }
}

/// A merged list binds an idle clip exactly when some source ships one.
proof fn lemma_idle_bound_iff_shipped(sources: Seq<Seq<String>>, clips: Seq<(String, usize)>)
    requires
        is_merge_of(sources, clips),
    ensures
        own_clip(AnimationRole::Idle, numbered(clips)) is Some <==> idle_shipped(sources),
{
    let by = numbered(clips);
    let names = idle_names();
    assert forall|n: Seq<char>| lists_name(clips, n) <==> ships(sources, n) by {
        if lists_name(clips, n) {
            let i = choose|i: int| 0 <= i < clips.len() && clips[i].0@ == n;
            assert(source_holds(sources, clips[i].1 as int, clips[i].0@));
        }
        if ships(sources, n) {
            let s = choose|s: int| source_holds(sources, s, n);
            let k = choose|k: int| 0 <= k < sources[s].len() && (#[trigger] sources[s][k])@ == n;
            assert(lists_name(clips, sources[s][k]@));
        }
    }
    let aliases = vendor_alias_names(AnimationRole::Idle);
    lemma_first_present_none(by, aliases);
    lemma_lookup_numbered(clips, canonical_name(AnimationRole::Idle));
    assert(names[0] == canonical_name(AnimationRole::Idle));
    assert forall|i: int| 0 <= i < aliases.len() implies #[trigger] aliases[i] == names[i + 1] by {}
    assert forall|i: int| 0 <= i < names.len() implies (clip_lookup(by, #[trigger] names[i]) is Some
        <==> ships(sources, names[i])) by {
        lemma_lookup_numbered(clips, names[i]);
    }
    if idle_shipped(sources) {
        let i = choose|i: int| 0 <= i < names.len() && ships(sources, #[trigger] names[i]);
        if i > 0 {
            assert(aliases[i - 1] == names[i]);
        }
    }
    if own_clip(AnimationRole::Idle, by) is Some {
        if clip_lookup(by, canonical_name(AnimationRole::Idle)) is None {
            let i = choose|i: int|
                0 <= i < aliases.len() && clip_lookup(by, #[trigger] aliases[i]) is Some;
            assert(names[i + 1] == aliases[i]);
        } else {
            assert(ships(sources, names[0]));
        }
    }
}

/// What the graph compiler does on a frame.
#[derive(Debug, Clone, PartialEq, Eq)]
pub enum LoaderStep {
    /// Keep the loader and look again next frame: there is no loader, or a
    /// source is still loading.
    Wait,
    /// Every source has loaded and none ships an idle clip: drop the loader
    /// and animate nothing.
    Abandon,
    /// Install the compiled clips and drop the loader.
    Install(CompiledClips),
}

/// The player's compiled clips and role bindings.
#[derive(Debug, Clone, PartialEq, Eq)]
pub struct CompiledClips {
    /// Every clip, sorted by name, with the source it is taken from.
    pub clips: Vec<(String, usize)>,
    /// The idle clip, as a place in `clips`.
    pub idle: usize,
    /// Each role's clip, as a place in `clips`, in table order.
    pub roles: Vec<(AnimationRole, usize)>,
}

/// A copy of a list of clip names.
fn copy_names(names: &Vec<String>) -> (copy: Vec<String>)
    ensures
        copy@ == names@,
{
    let mut copy: Vec<String> = Vec::new();
    let mut i: usize = 0;
    while i < names.len()
        invariant
            i <= names.len(),
            copy@ == names@.take(i as int),
        decreases names.len() - i,
    {
        copy.push(names[i].clone());
        assert(copy@ =~= names@.take(i + 1));
        i = i + 1;
    }
    assert(names@.take(names.len() as int) =~= names@);
    copy
}

/// The clip names of every handle, or `None` while one is still loading.
fn take_loaded(handles: &Vec<Option<Vec<String>>>) -> (loaded: Option<Vec<Vec<String>>>)
    ensures
        loaded is Some <==> all_loaded(handles@),
        loaded is Some ==> name_lists(loaded->0@) == loaded_sources(handles@),
{
    let mut taken: Vec<Vec<String>> = Vec::new();
    let mut i: usize = 0;
    while i < handles.len()
        invariant
            i <= handles.len(),
            taken@.len() == i,
            forall|j: int| 0 <= j < i ==> (#[trigger] handles@[j]) is Some,
            name_lists(taken@) == loaded_sources(handles@.take(i as int)),
        decreases handles.len() - i,
    {
        match &handles[i] {
            Some(names) => {
                let copy = copy_names(names);
                let ghost before = taken@;
                taken.push(copy);
                assert(name_lists(taken@) =~= name_lists(before).push(copy@));
                assert(loaded_sources(handles@.take(i + 1)) =~= loaded_sources(
                    handles@.take(i as int),
                ).push(names@));
            },
            None => {
                return None;
            },
        }
        i = i + 1;
    }
    assert(handles@.take(handles.len() as int) =~= handles@);
    Some(taken)
}

/// One frame of compiling the player's animation graph. `loader` is `None`
/// when no load is under way; otherwise it holds, per animation source in
/// load order, the clip names of that source once it has loaded.
///
/// Nothing is decided until every source has loaded, so that no source's
/// clips are silently dropped. Then the clips are merged (the earlier source
/// wins a name), and the roles are bound, each to its own clip or its
/// fallback's; without an idle clip there is nothing to animate.
pub fn compile_step(loader: Option<&Vec<Option<Vec<String>>>>) -> (step: LoaderStep)
    ensures
        match loader {
            None => step is Wait,
            Some(handles) => if !all_loaded(handles@) {
                step is Wait
            } else {
                match step {
                    LoaderStep::Wait => false,
                    LoaderStep::Abandon => !idle_shipped(loaded_sources(handles@)),
                    LoaderStep::Install(c) => {
                        &&& idle_shipped(loaded_sources(handles@))
                        &&& is_merge_of(loaded_sources(handles@), c.clips@)
                        &&& Some(c.idle) == resolved_clip(AnimationRole::Idle, numbered(c.clips@))
                        &&& c.roles@ == role_bindings(numbered(c.clips@))
                    },
                }
            },
        },
{
    let handles = match loader {
        None => return LoaderStep::Wait,
        Some(handles) => handles,
    };
    let loaded = match take_loaded(handles) {
        None => return LoaderStep::Wait,
        Some(loaded) => loaded,
    };
    let clips = merge_clip_names(loaded.as_slice());
    let mut by_name: Vec<(String, usize)> = Vec::new();
    let mut i: usize = 0;
    while i < clips.len()
        invariant
            i <= clips.len(),
            clip_views(by_name@) == numbered(clips@).take(i as int),
        decreases clips.len() - i,
    {
        let name = clips[i].0.clone();
        let ghost before = by_name@;
        by_name.push((name, i));
        assert(by_name@ == before.push((clips@[i as int].0, i)));
        assert(clip_views(by_name@) =~= clip_views(before).push((clips@[i as int].0@, i)));
        assert(clip_views(by_name@) =~= numbered(clips@).take(i + 1));
        i = i + 1;
    }
    assert(numbered(clips@).take(clips.len() as int) =~= numbered(clips@));
    proof {
        lemma_idle_bound_iff_shipped(name_lists(loaded@), clips@);
    }
    let idle = match resolve_role(AnimationRole::Idle, by_name.as_slice()) {
        None => return LoaderStep::Abandon,
        Some(node) => node,
    };
    match bind_roles(by_name.as_slice()) {
        None => LoaderStep::Abandon,
        Some(roles) => LoaderStep::Install(CompiledClips { clips, idle, roles }),
    }
}

} // verus!
