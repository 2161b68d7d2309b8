//! Which representation each tree shows, and when a swap between the cheap
//! proxy and the detailed scene happens.
//!
//! A tree is never left invisible: it shows its proxy at once, and a detailed
//! scene replaces the proxy only once the scene has fully loaded and been
//! instantiated for a whole update. A detailed load that fails keeps the proxy
//! and is not retried while the detailed scene is still what is wanted.
//!
//! The decisions are made here; spawning and despawning happen in the engine.

use vstd::prelude::*;

use crate::scatter::TreeKind;

verus! {

/// The representation tier of a tree.
#[derive(Clone, Copy, PartialEq, Eq, Debug, Structural)]
pub enum TreeRepr {
    Proxy,
    Detailed,
}

/// The representation a tree should show: the detailed scene for the staged
/// reference tree, or for every tree when the detail knob is on.
pub open spec fn spec_wanted_repr(kind: TreeKind, tree_detail: bool) -> TreeRepr {
    if kind == TreeKind::Pine1 || tree_detail {
        TreeRepr::Detailed
    } else {
        TreeRepr::Proxy
    }
}

/// The representation a tree should show.
pub fn wanted_repr(kind: TreeKind, tree_detail: bool) -> (repr: TreeRepr)
    ensures
        repr == spec_wanted_repr(kind, tree_detail),
{
    if kind == TreeKind::Pine1 || tree_detail {
        TreeRepr::Detailed
    } else {
        TreeRepr::Proxy
    }
}

/// What to do for one tree this update.
#[derive(Clone, Copy, PartialEq, Eq, Debug, Structural)]
pub enum TreeSyncAction {
    /// Leave the tree as it is.
    Nothing,
    /// A tree with no representation yet: show its proxy now.
    EstablishProxy,
    /// Replace whatever it shows with its proxy.
    SwapToProxy,
    /// Start loading the detailed scene, keeping the proxy until it is ready.
    LoadDetailed,
}

/// One update's decision for a tree.
#[derive(Clone, Copy, PartialEq, Eq, Debug, Structural)]
pub struct TreeSyncStep {
    /// Forget a recorded failure: what is wanted changed since it failed.
    pub clear_failure: bool,
    pub action: TreeSyncAction,
}

/// The decision for a tree, from what it should show, what it shows, which
/// representation last failed to load, and whether a swap is in flight.
pub open spec fn spec_tree_sync_step(
    want: TreeRepr,
    current: Option<TreeRepr>,
    failed: Option<TreeRepr>,
    in_transition: bool,
) -> TreeSyncStep {
    if failed == Some(want) {
        TreeSyncStep { clear_failure: false, action: TreeSyncAction::Nothing }
    } else {
        let clear_failure = failed is Some;
        let action = if current == Some(want) {
            TreeSyncAction::Nothing
        } else if current is None {
            TreeSyncAction::EstablishProxy
        } else if in_transition {
            TreeSyncAction::Nothing
        } else if want == TreeRepr::Proxy {
            TreeSyncAction::SwapToProxy
        } else {
            TreeSyncAction::LoadDetailed
        };
        TreeSyncStep { clear_failure, action }
    }
}

/// The decision for one tree this update.
pub fn tree_sync_step(
    kind: TreeKind,
    tree_detail: bool,
    current: Option<TreeRepr>,
    failed: Option<TreeRepr>,
    in_transition: bool,
) -> (step: TreeSyncStep)
    ensures
        step == spec_tree_sync_step(
            spec_wanted_repr(kind, tree_detail),
            current,
            failed,
            in_transition,
        ),
{
    let want = wanted_repr(kind, tree_detail);
    if failed == Some(want) {
        return TreeSyncStep { clear_failure: false, action: TreeSyncAction::Nothing };
    }
    let clear_failure = failed.is_some();
    let action = if current == Some(want) {
        TreeSyncAction::Nothing
    } else if current.is_none() {
        TreeSyncAction::EstablishProxy
    } else if in_transition {
        TreeSyncAction::Nothing
    } else {
        match want {
            TreeRepr::Proxy => TreeSyncAction::SwapToProxy,
            TreeRepr::Detailed => TreeSyncAction::LoadDetailed,
        }
    };
    TreeSyncStep { clear_failure, action }
}

/// Where a pending detailed scene's load stands.
#[derive(Clone, Copy, PartialEq, Eq, Debug, Structural)]
pub enum PendingLoad {
    Failed,
    Loading,
    Loaded,
}

/// What to do with a pending detailed scene this update.
#[derive(Clone, Copy, PartialEq, Eq, Debug, Structural)]
pub enum SwapStep {
    /// The load failed: drop the pending scene and record the failure; the
    /// proxy stays.
    GiveUp,
    /// Not loaded or not instantiated yet.
    Wait,
    /// Loaded and instantiated: let one update pass so that every part of the
    /// scene exists before it is shown.
    SettleOneUpdate,
    /// Show the scene and despawn every other visual of the tree.
    Swap,
}

/// The step for a pending detailed scene. It is shown only once loaded,
/// instantiated and settled for a whole update, and only a failed load is
/// given up.
pub fn swap_step(load: PendingLoad, instantiated: bool, ready_updates: u8) -> (step: SwapStep)
    ensures
        step == (if load == PendingLoad::Failed {
            SwapStep::GiveUp
        } else if !instantiated || load != PendingLoad::Loaded {
            SwapStep::Wait
        } else if ready_updates == 0 {
            SwapStep::SettleOneUpdate
        } else {
            SwapStep::Swap
        }),
        step == SwapStep::Swap <==> (load == PendingLoad::Loaded && instantiated && ready_updates
            >= 1),
        step == SwapStep::GiveUp <==> load == PendingLoad::Failed,
        step == SwapStep::SettleOneUpdate <==> (load == PendingLoad::Loaded && instantiated
            && ready_updates == 0),
        step == SwapStep::Wait <==> (load == PendingLoad::Loading || (load == PendingLoad::Loaded
            && !instantiated)),
{
    if load == PendingLoad::Failed {
        SwapStep::GiveUp
    } else if !instantiated || load != PendingLoad::Loaded {
        SwapStep::Wait
    } else if ready_updates == 0 {
        SwapStep::SettleOneUpdate
    } else {
        SwapStep::Swap
    }
}

/// A tree is never left without a representation and a failure is not
/// retried: a tree that shows nothing gets its proxy this very update, and a
/// tree whose wanted representation failed is left alone, with the proxy it
/// shows, until what it wants changes.
pub proof fn a_tree_always_shows_something_and_a_failure_is_not_retried(
    want: TreeRepr,
    current: Option<TreeRepr>,
    failed: Option<TreeRepr>,
    in_transition: bool,
)
    ensures
        current is None && failed != Some(want) ==> spec_tree_sync_step(
            want,
            current,
            failed,
            in_transition,
        ).action == TreeSyncAction::EstablishProxy,
        failed == Some(want) ==> spec_tree_sync_step(want, current, failed, in_transition)
            == (TreeSyncStep { clear_failure: false, action: TreeSyncAction::Nothing }),
        spec_tree_sync_step(want, current, failed, in_transition).action
            == TreeSyncAction::LoadDetailed ==> current == Some(TreeRepr::Proxy) && !in_transition,
{
}

/// Every action moves a tree toward what it wants and nothing else moves it:
/// a tree that already shows what it wants is left alone; it is swapped to
/// its proxy only when the proxy is wanted and the detailed scene is shown;
/// a detailed load starts only when the detailed scene is wanted, the proxy
/// is shown and no swap is in flight; a proxy is established exactly when the
/// tree shows nothing (unless what it wants has failed); and a recorded
/// failure is forgotten exactly when what it wants is no longer what failed.
pub proof fn every_action_moves_a_tree_toward_what_it_wants(
    want: TreeRepr,
    current: Option<TreeRepr>,
    failed: Option<TreeRepr>,
    in_transition: bool,
)
    ensures
        current == Some(want) ==> spec_tree_sync_step(want, current, failed, in_transition).action
            == TreeSyncAction::Nothing,
        spec_tree_sync_step(want, current, failed, in_transition).action
            == TreeSyncAction::SwapToProxy <==> (failed != Some(want) && want == TreeRepr::Proxy
            && current == Some(TreeRepr::Detailed) && !in_transition),
        spec_tree_sync_step(want, current, failed, in_transition).action
            == TreeSyncAction::LoadDetailed <==> (failed != Some(want) && want
            == TreeRepr::Detailed && current == Some(TreeRepr::Proxy) && !in_transition),
        spec_tree_sync_step(want, current, failed, in_transition).action
            == TreeSyncAction::EstablishProxy <==> (failed != Some(want) && current is None),
        spec_tree_sync_step(want, current, failed, in_transition).clear_failure <==> (failed is Some
            && failed != Some(want)),
{
    match current {
        Some(TreeRepr::Proxy) => {},
        Some(TreeRepr::Detailed) => {},
        None => {},
    }
}

/// The staged reference pine always wants its detailed scene; any other tree
/// wants it exactly when the detail knob is on, and its proxy otherwise.
pub proof fn only_the_reference_pine_or_the_detail_knob_asks_for_detail(
    kind: TreeKind,
    tree_detail: bool,
)
    ensures
        spec_wanted_repr(kind, tree_detail) == TreeRepr::Detailed <==> (kind == TreeKind::Pine1
            || tree_detail),
        spec_wanted_repr(kind, tree_detail) == TreeRepr::Proxy <==> (kind != TreeKind::Pine1
            && !tree_detail),
{
}

/// What the scattered props showed at the last sync: whose list, which
/// wholesale-replace generation, which revision, and how many instances.
#[derive(Clone, Copy, PartialEq, Eq, Debug, Structural)]
pub struct SyncedInstances {
    pub owner: u64,
    pub generation: u32,
    pub revision: u32,
    pub len: usize,
}

/// How to bring the props' visuals up to date.
#[derive(Clone, Copy, PartialEq, Eq, Debug, Structural)]
pub enum InstanceSync {
    /// Nothing changed since the last sync.
    UpToDate,
    /// The list only grew: spawn the instances from this index on.
    AppendFrom(usize),
    /// Anything else: despawn every prop visual and spawn the whole list.
    RespawnAll,
}

/// The sync to run. Appending the new tail is only safe when the list was not
/// replaced wholesale and did not shrink; any other change respawns all.
pub fn instance_sync(last: Option<SyncedInstances>, current: SyncedInstances) -> (sync: InstanceSync)
    ensures
        sync == (match last {
            Some(previous) => if previous == current {
                InstanceSync::UpToDate
            } else if previous.owner == current.owner && previous.generation == current.generation
                && previous.len <= current.len {
                InstanceSync::AppendFrom(previous.len)
            } else {
                InstanceSync::RespawnAll
            },
            None => InstanceSync::RespawnAll,
        }),
        sync matches InstanceSync::AppendFrom(start) ==> start <= current.len,
{
    match last {
        Some(previous) => if previous == current {
            InstanceSync::UpToDate
        } else if previous.owner == current.owner && previous.generation == current.generation
            && previous.len <= current.len {
            InstanceSync::AppendFrom(previous.len)
        } else {
            InstanceSync::RespawnAll
        },
        None => InstanceSync::RespawnAll,
    }
}

} // verus!
