use bof::scatter::TreeKind;
use bof::tree_visuals::{
    instance_sync, swap_step, tree_sync_step, wanted_repr, InstanceSync, PendingLoad, SwapStep,
    SyncedInstances, TreeRepr, TreeSyncAction,
};

#[test]
fn a_new_tree_shows_its_proxy_at_once() {
    let step = tree_sync_step(TreeKind::Common2, false, None, None, false);
    assert_eq!(step.action, TreeSyncAction::EstablishProxy);
    // Even when the detailed scene is wanted, the proxy comes first.
    let step = tree_sync_step(TreeKind::Pine1, false, None, None, false);
    assert_eq!(step.action, TreeSyncAction::EstablishProxy);
}

#[test]
fn the_reference_pine_and_the_detail_knob_ask_for_the_scene() {
    assert_eq!(wanted_repr(TreeKind::Pine1, false), TreeRepr::Detailed);
    assert_eq!(wanted_repr(TreeKind::Pine2, false), TreeRepr::Proxy);
    assert_eq!(wanted_repr(TreeKind::Pine2, true), TreeRepr::Detailed);
    let step = tree_sync_step(TreeKind::Pine1, false, Some(TreeRepr::Proxy), None, false);
    assert_eq!(step.action, TreeSyncAction::LoadDetailed);
    let step = tree_sync_step(TreeKind::Pine1, false, Some(TreeRepr::Proxy), None, true);
    assert_eq!(step.action, TreeSyncAction::Nothing);
    let step = tree_sync_step(TreeKind::Common1, false, Some(TreeRepr::Detailed), None, false);
    assert_eq!(step.action, TreeSyncAction::SwapToProxy);
}

#[test]
fn a_failed_scene_is_not_retried_while_it_is_still_wanted() {
    let step = tree_sync_step(
        TreeKind::Pine1,
        false,
        Some(TreeRepr::Proxy),
        Some(TreeRepr::Detailed),
        false,
    );
    assert_eq!(step.action, TreeSyncAction::Nothing);
    assert!(!step.clear_failure);
    // Once the knob asks for the proxy, the failure is forgotten.
    let step = tree_sync_step(
        TreeKind::Pine2,
        false,
        Some(TreeRepr::Proxy),
        Some(TreeRepr::Detailed),
        false,
    );
    assert!(step.clear_failure);
    assert_eq!(step.action, TreeSyncAction::Nothing);
}

#[test]
fn a_scene_is_shown_only_a_full_update_after_it_loaded() {
    assert_eq!(swap_step(PendingLoad::Failed, true, 1), SwapStep::GiveUp);
    assert_eq!(swap_step(PendingLoad::Loading, true, 0), SwapStep::Wait);
    assert_eq!(swap_step(PendingLoad::Loaded, false, 0), SwapStep::Wait);
    assert_eq!(swap_step(PendingLoad::Loaded, true, 0), SwapStep::SettleOneUpdate);
    assert_eq!(swap_step(PendingLoad::Loaded, true, 1), SwapStep::Swap);
}

#[test]
fn placed_props_append_while_the_list_only_grows() {
    let state = |generation, revision, len| SyncedInstances { owner: 7, generation, revision, len };
    assert_eq!(instance_sync(None, state(0, 0, 3)), InstanceSync::RespawnAll);
    assert_eq!(instance_sync(Some(state(0, 1, 3)), state(0, 1, 3)), InstanceSync::UpToDate);
    assert_eq!(instance_sync(Some(state(0, 1, 3)), state(0, 2, 5)), InstanceSync::AppendFrom(3));
    // A reload replaces the list wholesale, even if it grew.
    assert_eq!(instance_sync(Some(state(0, 1, 3)), state(1, 2, 5)), InstanceSync::RespawnAll);
    // A clear shrinks it.
    assert_eq!(instance_sync(Some(state(0, 1, 3)), state(0, 2, 2)), InstanceSync::RespawnAll);
    let other_owner = SyncedInstances { owner: 8, generation: 0, revision: 2, len: 5 };
    assert_eq!(instance_sync(Some(state(0, 1, 3)), other_owner), InstanceSync::RespawnAll);
}
