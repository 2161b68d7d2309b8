use bof::animation_graph::{compile_step, merge_clip_names, LoaderStep};
use bof::animation_roles::{
    bind_roles, directional_role, fallback, missing_roles, plays_in_reverse, presented_role,
    resolve_direct, resolve_role, role_for_state, role_table, vendor_aliases, wants_blend,
    AnimationRole, LocomotionState, StrafeDir,
};

fn nodes(names: &[&str]) -> Vec<(String, usize)> {
    names
        .iter()
        .enumerate()
        .map(|(i, name)| (name.to_string(), i))
        .collect()
}

fn node_of(by_name: &[(String, usize)], name: &str) -> usize {
    by_name.iter().find(|(n, _)| n == name).unwrap().1
}

#[test]
fn directional_role_refines_grounded_strafe_and_leaves_forward_alone() {
    type R = AnimationRole;
    assert_eq!(directional_role(R::Walk, StrafeDir::Left), R::WalkStrafeL);
    assert_eq!(directional_role(R::Walk, StrafeDir::Back), R::WalkBwd);
    assert_eq!(directional_role(R::Run, StrafeDir::Right), R::RunStrafeR);
    assert_eq!(directional_role(R::Sneak, StrafeDir::Back), R::SneakBwd);
    assert_eq!(directional_role(R::Walk, StrafeDir::Forward), R::Walk);
    assert_eq!(directional_role(R::Run, StrafeDir::Idle), R::Run);
    assert_eq!(directional_role(R::Jump, StrafeDir::Left), R::Jump);
}

#[test]
fn back_pedal_reverses_only_a_borrowed_forward_clip() {
    let walk = 0;
    let walk_bwd = 1;
    assert!(plays_in_reverse(StrafeDir::Back, walk, walk));
    assert!(!plays_in_reverse(StrafeDir::Back, walk_bwd, walk));
    assert!(!plays_in_reverse(StrafeDir::Left, walk, walk));
    assert!(!plays_in_reverse(StrafeDir::Forward, walk, walk));
}

#[test]
fn every_role_resolves_once_idle_is_present() {
    let by_name = nodes(&["Idle_No_Loop"]);
    let idle = node_of(&by_name, "Idle_No_Loop");
    for role in role_table() {
        assert_eq!(resolve_role(role, &by_name), Some(idle));
    }
}

#[test]
fn vendor_aliases_bind_the_mannequin_and_canonical_names_win() {
    let by_name = nodes(&[
        "Idle_Loop",
        "Walk_Loop",
        "Sprint_Loop",
        "Crouch_Fwd_Loop",
        "Jump_Start",
        "Jump_Loop",
    ]);
    let expect = |role: AnimationRole, name: &str| {
        assert_eq!(
            resolve_role(role, &by_name),
            Some(node_of(&by_name, name)),
            "{role:?}"
        );
    };
    expect(AnimationRole::Idle, "Idle_Loop");
    expect(AnimationRole::Walk, "Walk_Loop");
    expect(AnimationRole::Run, "Sprint_Loop");
    expect(AnimationRole::Sneak, "Crouch_Fwd_Loop");
    expect(AnimationRole::Jump, "Jump_Start");
    expect(AnimationRole::Fall, "Jump_Loop");
    expect(AnimationRole::WallJump, "Jump_Start");
    expect(AnimationRole::Climb, "Idle_Loop");

    let authored = nodes(&["Idle_Loop", "Walk_Loop", "AN_Run"]);
    assert_eq!(
        resolve_role(AnimationRole::Run, &authored),
        Some(node_of(&authored, "AN_Run"))
    );
}

#[test]
fn a_rig_without_idle_binds_nothing() {
    let by_name = nodes(&["Walk_Loop", "AN_Run"]);
    assert_eq!(resolve_role(AnimationRole::Idle, &by_name), None);
    assert_eq!(resolve_role(AnimationRole::Glide, &by_name), None);
    assert_eq!(resolve_role(AnimationRole::Walk, &by_name), Some(0));
    assert!(bind_roles(&by_name).is_none());
}

#[test]
fn the_canonical_name_beats_an_earlier_alias_and_the_last_name_wins() {
    let by_name = nodes(&["Walk_Loop", "AN_Walk", "Idle_Loop", "Idle_Loop"]);
    assert_eq!(resolve_direct(AnimationRole::Walk, &by_name), Some(1));
    // A name listed twice maps to its last entry, as a map built from the list.
    assert_eq!(resolve_direct(AnimationRole::Idle, &by_name), Some(3));
    // No clip of its own: the back-pedal borrows the walk.
    assert_eq!(resolve_direct(AnimationRole::WalkBwd, &by_name), None);
    assert_eq!(resolve_role(AnimationRole::WalkBwd, &by_name), Some(1));
}

#[test]
fn binding_a_placeholder_rig_names_every_gap() {
    let by_name = nodes(&["Idle_Loop", "Walk_Loop"]);
    let bindings = bind_roles(&by_name).unwrap();
    assert_eq!(bindings.len(), 22);
    assert_eq!(bindings[0], (AnimationRole::Idle, 0));
    assert_eq!(bindings[1], (AnimationRole::Walk, 1));
    assert_eq!(bindings[2], (AnimationRole::Run, 1));
    assert_eq!(bindings[4], (AnimationRole::Jump, 0));
    let missing = missing_roles(&by_name);
    assert_eq!(missing.len(), 20);
    assert!(!missing.contains(&AnimationRole::Idle));
    assert!(!missing.contains(&AnimationRole::Walk));
    assert_eq!(missing[0], AnimationRole::Run);
}

#[test]
fn the_contract_names_match_the_clip_vocabulary() {
    assert_eq!(AnimationRole::Idle.canonical(), "AN_Idle");
    assert_eq!(AnimationRole::SneakStrafeR.canonical(), "AN_SneakStrafeR");
    assert_eq!(vendor_aliases(AnimationRole::Run), vec!["Sprint_Loop", "Jog_Fwd_Loop", "Run", "Sprint"]);
    assert!(vendor_aliases(AnimationRole::RunBwd).is_empty());
    assert_eq!(fallback(AnimationRole::Idle), None);
    assert_eq!(fallback(AnimationRole::Glide), Some(AnimationRole::Fall));
    let table = role_table();
    assert_eq!(table.len(), 22);
    for (i, a) in table.iter().enumerate() {
        for b in &table[i + 1..] {
            assert_ne!(a, b);
            assert_ne!(a.canonical(), b.canonical());
        }
    }
}

#[test]
fn a_still_planar_body_idles_and_the_rest_keep_their_clip() {
    assert_eq!(role_for_state(LocomotionState::Stairs), AnimationRole::Walk);
    assert_eq!(role_for_state(LocomotionState::AutoVault), AnimationRole::Vault);
    assert_eq!(
        presented_role(LocomotionState::Sneak, false, StrafeDir::Back),
        AnimationRole::Idle
    );
    assert_eq!(
        presented_role(LocomotionState::Sneak, true, StrafeDir::Back),
        AnimationRole::SneakBwd
    );
    assert_eq!(
        presented_role(LocomotionState::Glide, false, StrafeDir::Left),
        AnimationRole::Glide
    );
    assert!(wants_blend(LocomotionState::Sprint, true, false));
    assert!(!wants_blend(LocomotionState::Sprint, true, true));
    assert!(!wants_blend(LocomotionState::Walk, false, false));
    assert!(!wants_blend(LocomotionState::Sneak, true, false));
}

fn names(list: &[&str]) -> Vec<String> {
    list.iter().map(|name| name.to_string()).collect()
}

#[test]
fn merging_sorts_by_name_and_the_earlier_source_wins() {
    let sources = vec![
        names(&["Walk_Loop", "Idle_Loop", "Jump_Start"]),
        names(&["Idle_Loop", "AN_Run", "Climb_Loop"]),
    ];
    let clips = merge_clip_names(&sources);
    let expected: Vec<(String, usize)> = vec![
        ("AN_Run".to_string(), 1),
        ("Climb_Loop".to_string(), 1),
        ("Idle_Loop".to_string(), 0),
        ("Jump_Start".to_string(), 0),
        ("Walk_Loop".to_string(), 0),
    ];
    assert_eq!(clips, expected);
}

#[test]
fn merging_orders_names_as_strings_do() {
    let sources = vec![names(&["b", "ab", "a", "B", "á"]), Vec::new()];
    let clips = merge_clip_names(&sources);
    let mut sorted = names(&["b", "ab", "a", "B", "á"]);
    sorted.sort();
    let merged: Vec<String> = clips.iter().map(|(name, _)| name.clone()).collect();
    assert_eq!(merged, sorted);
    assert!(merge_clip_names(&[]).is_empty());
}

#[test]
fn the_graph_waits_for_every_source() {
    assert_eq!(compile_step(None), LoaderStep::Wait);
    let half = vec![Some(names(&["Idle_Loop"])), None];
    assert_eq!(compile_step(Some(&half)), LoaderStep::Wait);
}

#[test]
fn a_library_without_idle_is_abandoned() {
    let loaded = vec![Some(names(&["Walk_Loop"])), Some(names(&["AN_Run"]))];
    assert_eq!(compile_step(Some(&loaded)), LoaderStep::Abandon);
}

#[test]
fn a_loaded_library_installs_sorted_clips_and_bound_roles() {
    let loaded = vec![
        Some(names(&["Walk_Loop", "Idle_No_Loop"])),
        Some(names(&["Walk_Loop", "AN_Idle"])),
    ];
    match compile_step(Some(&loaded)) {
        LoaderStep::Install(compiled) => {
            let expected: Vec<(String, usize)> = vec![
                ("AN_Idle".to_string(), 1),
                ("Idle_No_Loop".to_string(), 0),
                ("Walk_Loop".to_string(), 0),
            ];
            assert_eq!(compiled.clips, expected);
            // The canonical name beats the alias, wherever it comes from.
            assert_eq!(compiled.idle, 0);
            assert_eq!(compiled.roles.len(), 22);
            assert_eq!(compiled.roles[0], (AnimationRole::Idle, 0));
            assert_eq!(compiled.roles[1], (AnimationRole::Walk, 2));
            assert_eq!(compiled.roles[2], (AnimationRole::Run, 2));
            assert_eq!(compiled.roles[4], (AnimationRole::Jump, 0));
        }
        other => panic!("expected an installed graph, got {other:?}"),
    }
}
