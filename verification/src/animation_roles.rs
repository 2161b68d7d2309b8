//! Which clip presents the player: semantic roles, their clip-name contract,
//! and the fallback chain that lets a partial rig degrade instead of freeze.
//!
//! A rig plugs in by naming its clips with the canonical `AN_<Role>`
//! vocabulary; the vendor mannequin is bridged by per-role aliases. A role with
//! no clip of its own borrows the clip of its fallback role, and every chain
//! ends at `Idle`, so once `Idle` resolves every role does.
//!
//! Clip nodes are plain indices here: whatever graph the clips were compiled
//! into, a node is named by its index.

use vstd::prelude::*;

use crate::text::{chars_of, same_text};

verus! {

broadcast use vstd::string::group_string_axioms;

/// Direction of the planar move relative to where the body faces.
#[derive(Debug, Clone, Copy, PartialEq, Eq, Hash, Structural)]
pub enum StrafeDir {
    Idle,
    Forward,
    Back,
    Left,
    Right,
}

/// The player's locomotion state, as the movement state machine reports it.
#[derive(Debug, Clone, Copy, PartialEq, Eq, Hash, Structural)]
pub enum LocomotionState {
    Walk,
    Stairs,
    Sprint,
    Sneak,
    Jump,
    Fall,
    Glide,
    Climb,
    Ladder,
    Mantle,
    AutoVault,
    WallJump,
    EdgeLeap,
}

/// The semantic locomotion clips the player state machine can drive, kept
/// independent of any one rig's clip names.
#[derive(Debug, Clone, Copy, PartialEq, Eq, Hash, Structural)]
pub enum AnimationRole {
    Idle,
    Walk,
    Run,
    Sneak,
    Jump,
    Fall,
    Glide,
    Climb,
    Ladder,
    Mantle,
    Vault,
    WallJump,
    EdgeLeap,
    WalkBwd,
    WalkStrafeL,
    WalkStrafeR,
    RunBwd,
    RunStrafeL,
    RunStrafeR,
    SneakBwd,
    SneakStrafeL,
    SneakStrafeR,
}

/// The canonical authored clip name of a role.
pub open spec fn canonical_name(role: AnimationRole) -> Seq<char> {
    match role {
        AnimationRole::Idle => "AN_Idle"@,
        AnimationRole::Walk => "AN_Walk"@,
        AnimationRole::Run => "AN_Run"@,
        AnimationRole::Sneak => "AN_Sneak"@,
        AnimationRole::Jump => "AN_Jump"@,
        AnimationRole::Fall => "AN_Fall"@,
        AnimationRole::Glide => "AN_Glide"@,
        AnimationRole::Climb => "AN_Climb"@,
        AnimationRole::Ladder => "AN_Ladder"@,
        AnimationRole::Mantle => "AN_Mantle"@,
        AnimationRole::Vault => "AN_Vault"@,
        AnimationRole::WallJump => "AN_WallJump"@,
        AnimationRole::EdgeLeap => "AN_EdgeLeap"@,
        AnimationRole::WalkBwd => "AN_WalkBwd"@,
        AnimationRole::WalkStrafeL => "AN_WalkStrafeL"@,
        AnimationRole::WalkStrafeR => "AN_WalkStrafeR"@,
        AnimationRole::RunBwd => "AN_RunBwd"@,
        AnimationRole::RunStrafeL => "AN_RunStrafeL"@,
        AnimationRole::RunStrafeR => "AN_RunStrafeR"@,
        AnimationRole::SneakBwd => "AN_SneakBwd"@,
        AnimationRole::SneakStrafeL => "AN_SneakStrafeL"@,
        AnimationRole::SneakStrafeR => "AN_SneakStrafeR"@,
    }
}

/// The non-canonical clip names a role accepts, in priority order: the
/// locomotion library's names first, then the action library's.
pub open spec fn vendor_alias_names(role: AnimationRole) -> Seq<Seq<char>> {
    match role {
        AnimationRole::Idle => seq!["Idle_Loop"@, "Idle_No_Loop"@],
        AnimationRole::Walk => seq!["Walk_Loop"@, "Walk_Formal_Loop"@, "Walk_Carry_Loop"@],
        AnimationRole::Run => seq!["Sprint_Loop"@, "Jog_Fwd_Loop"@, "Run"@, "Sprint"@],
        AnimationRole::Sneak => seq!["Crouch_Fwd_Loop"@, "Crouch_Walk"@, "SneakWalk"@],
        AnimationRole::Jump => seq!["Jump_Start"@, "NinjaJump_Start"@],
        AnimationRole::Fall => seq!["Jump_Loop"@, "Fall_Loop"@, "NinjaJump_Idle_Loop"@],
        AnimationRole::Glide => seq!["Glide_Loop"@, "NinjaJump_Idle_Loop"@],
        AnimationRole::Climb => seq!["Climb_Loop"@, "ClimbUp_1m"@],
        AnimationRole::Ladder => seq!["ClimbUp_1m"@],
        AnimationRole::Mantle => seq!["ClimbUp_1m"@],
        AnimationRole::Vault => seq!["ClimbUp_1m"@],
        AnimationRole::WallJump => seq!["NinjaJump_Start"@],
        AnimationRole::EdgeLeap => seq!["NinjaJump_Start"@],
        _ => Seq::empty(),
    }
}

/// The role whose clip a role borrows when the rig ships none of its own;
/// `None` marks the one required role.
pub open spec fn fallback_of(role: AnimationRole) -> Option<AnimationRole> {
    match role {
        AnimationRole::Idle => None,
        AnimationRole::Walk => Some(AnimationRole::Idle),
        AnimationRole::Run => Some(AnimationRole::Walk),
        AnimationRole::Sneak => Some(AnimationRole::Walk),
        AnimationRole::Jump => Some(AnimationRole::Idle),
        AnimationRole::Fall => Some(AnimationRole::Jump),
        AnimationRole::Glide => Some(AnimationRole::Fall),
        AnimationRole::Climb => Some(AnimationRole::Idle),
        AnimationRole::Ladder => Some(AnimationRole::Climb),
        AnimationRole::Mantle => Some(AnimationRole::Climb),
        AnimationRole::Vault => Some(AnimationRole::Jump),
        AnimationRole::WallJump => Some(AnimationRole::Jump),
        AnimationRole::EdgeLeap => Some(AnimationRole::Jump),
        AnimationRole::WalkBwd | AnimationRole::WalkStrafeL | AnimationRole::WalkStrafeR => Some(
            AnimationRole::Walk,
        ),
        AnimationRole::RunBwd | AnimationRole::RunStrafeL | AnimationRole::RunStrafeR => Some(
            AnimationRole::Run,
        ),
        AnimationRole::SneakBwd | AnimationRole::SneakStrafeL | AnimationRole::SneakStrafeR => Some(
            AnimationRole::Sneak,
        ),
    }
}

/// How many fallback steps separate a role from `Idle`.
pub open spec fn steps_to_idle(role: AnimationRole) -> nat
    decreases role,
{
    match role {
        AnimationRole::Idle => 0,
        AnimationRole::Walk | AnimationRole::Jump | AnimationRole::Climb => 1,
        AnimationRole::Run | AnimationRole::Sneak | AnimationRole::Fall | AnimationRole::Ladder
        | AnimationRole::Mantle | AnimationRole::Vault | AnimationRole::WallJump
        | AnimationRole::EdgeLeap | AnimationRole::WalkBwd | AnimationRole::WalkStrafeL
        | AnimationRole::WalkStrafeR => 2,
        _ => 3,
    }
}

/// The roles of the clip contract, in table order.
pub open spec fn all_roles() -> Seq<AnimationRole> {
    seq![
        AnimationRole::Idle,
        AnimationRole::Walk,
        AnimationRole::Run,
        AnimationRole::Sneak,
        AnimationRole::Jump,
        AnimationRole::Fall,
        AnimationRole::Glide,
        AnimationRole::Climb,
        AnimationRole::Ladder,
        AnimationRole::Mantle,
        AnimationRole::Vault,
        AnimationRole::WallJump,
        AnimationRole::EdgeLeap,
        AnimationRole::WalkBwd,
        AnimationRole::WalkStrafeL,
        AnimationRole::WalkStrafeR,
        AnimationRole::RunBwd,
        AnimationRole::RunStrafeL,
        AnimationRole::RunStrafeR,
        AnimationRole::SneakBwd,
        AnimationRole::SneakStrafeL,
        AnimationRole::SneakStrafeR,
    ]
}

/// The clip node a name maps to: the last entry of that name, as a map built
/// from the list keeps it.
pub open spec fn clip_lookup(by_name: Seq<(Seq<char>, usize)>, name: Seq<char>) -> Option<usize>
    decreases by_name.len(),
{
    if by_name.len() == 0 {
        None
    } else if by_name.last().0 == name {
        Some(by_name.last().1)
    } else {
        clip_lookup(by_name.drop_last(), name)
    }
}

/// The node of the first of `names` that the rig ships.
pub open spec fn first_present(by_name: Seq<(Seq<char>, usize)>, names: Seq<Seq<char>>) -> Option<
    usize,
>
    decreases names.len(),
{
    if names.len() == 0 {
        None
    } else {
        match clip_lookup(by_name, names[0]) {
            Some(node) => Some(node),
            None => first_present(by_name, names.drop_first()),
        }
    }
}

/// A role's own clip: its canonical name first, then its vendor aliases.
pub open spec fn own_clip(role: AnimationRole, by_name: Seq<(Seq<char>, usize)>) -> Option<usize> {
    match clip_lookup(by_name, canonical_name(role)) {
        Some(node) => Some(node),
        None => first_present(by_name, vendor_alias_names(role)),
    }
}

/// The clip a role resolves to: its own, else its fallback role's.
pub open spec fn resolved_clip(role: AnimationRole, by_name: Seq<(Seq<char>, usize)>) -> Option<
    usize,
>
    decreases steps_to_idle(role),
{
    match own_clip(role, by_name) {
        Some(node) => Some(node),
        None => match fallback_of(role) {
            Some(fallback) => if steps_to_idle(fallback) < steps_to_idle(role) {
                resolved_clip(fallback, by_name)
            } else {
                None
            },
            None => None,
        },
    }
}

/// The plain views of a name-to-node list.
pub open spec fn clip_views(by_name: Seq<(String, usize)>) -> Seq<(Seq<char>, usize)> {
    by_name.map_values(|e: (String, usize)| (e.0@, e.1))
}

/// A grounded planar base role refined into its facing-relative variant.
pub open spec fn spec_directional_role(base: AnimationRole, strafe: StrafeDir) -> AnimationRole {
    match (base, strafe) {
        (AnimationRole::Walk, StrafeDir::Back) => AnimationRole::WalkBwd,
        (AnimationRole::Walk, StrafeDir::Left) => AnimationRole::WalkStrafeL,
        (AnimationRole::Walk, StrafeDir::Right) => AnimationRole::WalkStrafeR,
        (AnimationRole::Run, StrafeDir::Back) => AnimationRole::RunBwd,
        (AnimationRole::Run, StrafeDir::Left) => AnimationRole::RunStrafeL,
        (AnimationRole::Run, StrafeDir::Right) => AnimationRole::RunStrafeR,
        (AnimationRole::Sneak, StrafeDir::Back) => AnimationRole::SneakBwd,
        (AnimationRole::Sneak, StrafeDir::Left) => AnimationRole::SneakStrafeL,
        (AnimationRole::Sneak, StrafeDir::Right) => AnimationRole::SneakStrafeR,
        _ => base,
    }
}

/// The clip that presents a locomotion state.
pub open spec fn spec_role_for_state(state: LocomotionState) -> AnimationRole {
    match state {
        LocomotionState::Walk | LocomotionState::Stairs => AnimationRole::Walk,
        LocomotionState::Sprint => AnimationRole::Run,
        LocomotionState::Sneak => AnimationRole::Sneak,
        LocomotionState::Jump => AnimationRole::Jump,
        LocomotionState::Fall => AnimationRole::Fall,
        LocomotionState::Glide => AnimationRole::Glide,
        LocomotionState::Climb => AnimationRole::Climb,
        LocomotionState::Ladder => AnimationRole::Ladder,
        LocomotionState::Mantle => AnimationRole::Mantle,
        LocomotionState::AutoVault => AnimationRole::Vault,
        LocomotionState::WallJump => AnimationRole::WallJump,
        LocomotionState::EdgeLeap => AnimationRole::EdgeLeap,
    }
}

/// The grounded planar states: the only ones with a facing-relative variant
/// and an idle-when-still refinement.
pub open spec fn spec_is_planar(state: LocomotionState) -> bool {
    matches!(
        state,
        LocomotionState::Walk | LocomotionState::Sprint | LocomotionState::Sneak
            | LocomotionState::Stairs
    )
}

/// The role that presents a state on the single-clip path.
pub open spec fn spec_presented_role(state: LocomotionState, moving: bool, strafe: StrafeDir) -> AnimationRole {
    if spec_is_planar(state) {
        let base = if moving {
            spec_role_for_state(state)
        } else {
            AnimationRole::Idle
        };
        spec_directional_role(base, strafe)
    } else {
        spec_role_for_state(state)
    }
}

impl AnimationRole {
    /// The canonical authored clip name (`AN_<Role>`) a rig-compatible asset
    /// ships to bind this role with zero code. Resolution prefers it over any
    /// vendor alias.
    pub fn canonical(self) -> (name: &'static str)
        ensures
            name@ == canonical_name(self),
    {
        match self {
            AnimationRole::Idle => "AN_Idle",
            AnimationRole::Walk => "AN_Walk",
            AnimationRole::Run => "AN_Run",
            AnimationRole::Sneak => "AN_Sneak",
            AnimationRole::Jump => "AN_Jump",
            AnimationRole::Fall => "AN_Fall",
            AnimationRole::Glide => "AN_Glide",
            AnimationRole::Climb => "AN_Climb",
            AnimationRole::Ladder => "AN_Ladder",
            AnimationRole::Mantle => "AN_Mantle",
            AnimationRole::Vault => "AN_Vault",
            AnimationRole::WallJump => "AN_WallJump",
            AnimationRole::EdgeLeap => "AN_EdgeLeap",
            AnimationRole::WalkBwd => "AN_WalkBwd",
            AnimationRole::WalkStrafeL => "AN_WalkStrafeL",
            AnimationRole::WalkStrafeR => "AN_WalkStrafeR",
            AnimationRole::RunBwd => "AN_RunBwd",
            AnimationRole::RunStrafeL => "AN_RunStrafeL",
            AnimationRole::RunStrafeR => "AN_RunStrafeR",
            AnimationRole::SneakBwd => "AN_SneakBwd",
            AnimationRole::SneakStrafeL => "AN_SneakStrafeL",
            AnimationRole::SneakStrafeR => "AN_SneakStrafeR",
        }
    }
}

/// The vendor aliases of a role, in priority order.
pub fn vendor_aliases(role: AnimationRole) -> (aliases: Vec<&'static str>)
    ensures
        aliases@.map_values(|a: &str| a@) == vendor_alias_names(role),
{
    let aliases: Vec<&'static str> = match role {
        AnimationRole::Idle => vec!["Idle_Loop", "Idle_No_Loop"],
        AnimationRole::Walk => vec!["Walk_Loop", "Walk_Formal_Loop", "Walk_Carry_Loop"],
        AnimationRole::Run => vec!["Sprint_Loop", "Jog_Fwd_Loop", "Run", "Sprint"],
        AnimationRole::Sneak => vec!["Crouch_Fwd_Loop", "Crouch_Walk", "SneakWalk"],
        AnimationRole::Jump => vec!["Jump_Start", "NinjaJump_Start"],
        AnimationRole::Fall => vec!["Jump_Loop", "Fall_Loop", "NinjaJump_Idle_Loop"],
        AnimationRole::Glide => vec!["Glide_Loop", "NinjaJump_Idle_Loop"],
        AnimationRole::Climb => vec!["Climb_Loop", "ClimbUp_1m"],
        AnimationRole::Ladder => vec!["ClimbUp_1m"],
        AnimationRole::Mantle => vec!["ClimbUp_1m"],
        AnimationRole::Vault => vec!["ClimbUp_1m"],
        AnimationRole::WallJump => vec!["NinjaJump_Start"],
        AnimationRole::EdgeLeap => vec!["NinjaJump_Start"],
        _ => Vec::new(),
    };
    assert(aliases@.map_values(|a: &str| a@) =~= vendor_alias_names(role));
    aliases
}

/// The role a role borrows its clip from when the rig ships none of its own.
pub fn fallback(role: AnimationRole) -> (borrowed: Option<AnimationRole>)
    ensures
        borrowed == fallback_of(role),
{
    match role {
        AnimationRole::Idle => None,
        AnimationRole::Walk => Some(AnimationRole::Idle),
        AnimationRole::Run => Some(AnimationRole::Walk),
        AnimationRole::Sneak => Some(AnimationRole::Walk),
        AnimationRole::Jump => Some(AnimationRole::Idle),
        AnimationRole::Fall => Some(AnimationRole::Jump),
        AnimationRole::Glide => Some(AnimationRole::Fall),
        AnimationRole::Climb => Some(AnimationRole::Idle),
        AnimationRole::Ladder => Some(AnimationRole::Climb),
        AnimationRole::Mantle => Some(AnimationRole::Climb),
        AnimationRole::Vault => Some(AnimationRole::Jump),
        AnimationRole::WallJump => Some(AnimationRole::Jump),
        AnimationRole::EdgeLeap => Some(AnimationRole::Jump),
        AnimationRole::WalkBwd | AnimationRole::WalkStrafeL | AnimationRole::WalkStrafeR => Some(
            AnimationRole::Walk,
        ),
        AnimationRole::RunBwd | AnimationRole::RunStrafeL | AnimationRole::RunStrafeR => Some(
            AnimationRole::Run,
        ),
        AnimationRole::SneakBwd | AnimationRole::SneakStrafeL | AnimationRole::SneakStrafeR => Some(
            AnimationRole::Sneak,
        ),
    }
}

/// The roles of the clip contract, in table order.
pub fn role_table() -> (roles: Vec<AnimationRole>)
    ensures
        roles@ == all_roles(),
{
    let roles = vec![
        AnimationRole::Idle,
        AnimationRole::Walk,
        AnimationRole::Run,
        AnimationRole::Sneak,
        AnimationRole::Jump,
        AnimationRole::Fall,
        AnimationRole::Glide,
        AnimationRole::Climb,
        AnimationRole::Ladder,
        AnimationRole::Mantle,
        AnimationRole::Vault,
        AnimationRole::WallJump,
        AnimationRole::EdgeLeap,
        AnimationRole::WalkBwd,
        AnimationRole::WalkStrafeL,
        AnimationRole::WalkStrafeR,
        AnimationRole::RunBwd,
        AnimationRole::RunStrafeL,
        AnimationRole::RunStrafeR,
        AnimationRole::SneakBwd,
        AnimationRole::SneakStrafeL,
        AnimationRole::SneakStrafeR,
    ];
    assert(roles@ =~= all_roles());
    roles
}

/// The clip node of a name, if the rig ships a clip of that name.
pub fn lookup_clip(by_name: &[(String, usize)], name: &str) -> (node: Option<usize>)
    ensures
        node == clip_lookup(clip_views(by_name@), name@),
{
    let wanted = chars_of(name);
    let ghost views = clip_views(by_name@);
    let mut i: usize = by_name.len();
    assert(views.take(i as int) =~= views);
    while i > 0
        invariant
            i <= by_name.len(),
            views == clip_views(by_name@),
            wanted@ == name@,
            clip_lookup(views, name@) == clip_lookup(views.take(i as int), name@),
        decreases i,
    {
        let entry_name = chars_of(by_name[i - 1].0.as_str());
        assert(views.take(i as int).last() == views[i - 1]);
        if same_text(&entry_name, &wanted) {
            return Some(by_name[i - 1].1);
        }
        assert(views.take(i as int).drop_last() =~= views.take(i - 1));
        i = i - 1;
    }
    None
}

/// A role's own clip: the canonical name first, then the vendor aliases.
/// `None` means the rig ships no clip for this role and it has to borrow one
/// through its fallback.
pub fn resolve_direct(role: AnimationRole, by_name: &[(String, usize)]) -> (node: Option<usize>)
    ensures
        node == own_clip(role, clip_views(by_name@)),
{
    let canonical = lookup_clip(by_name, role.canonical());
    if canonical.is_some() {
        return canonical;
    }
    let aliases = vendor_aliases(role);
    let ghost names = aliases@.map_values(|a: &str| a@);
    let mut k: usize = 0;
    assert(names.skip(0) =~= names);
    while k < aliases.len()
        invariant
            k <= aliases.len(),
            names == aliases@.map_values(|a: &str| a@),
            names == vendor_alias_names(role),
            clip_lookup(clip_views(by_name@), canonical_name(role)) is None,
            first_present(clip_views(by_name@), names) == first_present(
                clip_views(by_name@),
                names.skip(k as int),
            ),
        decreases aliases.len() - k,
    {
        let found = lookup_clip(by_name, aliases[k]);
        assert(names.skip(k as int)[0] == aliases[k as int]@);
        assert(names.skip(k as int).len() > 0);
        if found.is_some() {
            assert(first_present(clip_views(by_name@), names.skip(k as int)) == found);
            return found;
        }
        assert(names.skip(k as int).drop_first() =~= names.skip(k + 1));
        k = k + 1;
    }
    None
}

/// Resolve a role to a clip node: its own clip, else its fallback role's
/// resolution. `None` only when the chain reaches `Idle` and the rig ships no
/// idle clip under any of its names.
pub fn resolve_role(role: AnimationRole, by_name: &[(String, usize)]) -> (node: Option<usize>)
    ensures
        node == resolved_clip(role, clip_views(by_name@)),
    decreases steps_to_idle(role),
{
    let own = resolve_direct(role, by_name);
    if own.is_some() {
        return own;
    }
    match fallback(role) {
        Some(borrowed) => resolve_role(borrowed, by_name),
        None => None,
    }
}

/// Refine a grounded planar base role (`Walk`, `Run`, `Sneak`) into its
/// facing-relative variant. `Forward` and `Idle` moves and non-planar roles stay
/// as they are.
pub fn directional_role(base: AnimationRole, strafe: StrafeDir) -> (role: AnimationRole)
    ensures
        role == spec_directional_role(base, strafe),
{
    match (base, strafe) {
        (AnimationRole::Walk, StrafeDir::Back) => AnimationRole::WalkBwd,
        (AnimationRole::Walk, StrafeDir::Left) => AnimationRole::WalkStrafeL,
        (AnimationRole::Walk, StrafeDir::Right) => AnimationRole::WalkStrafeR,
        (AnimationRole::Run, StrafeDir::Back) => AnimationRole::RunBwd,
        (AnimationRole::Run, StrafeDir::Left) => AnimationRole::RunStrafeL,
        (AnimationRole::Run, StrafeDir::Right) => AnimationRole::RunStrafeR,
        (AnimationRole::Sneak, StrafeDir::Back) => AnimationRole::SneakBwd,
        (AnimationRole::Sneak, StrafeDir::Left) => AnimationRole::SneakStrafeL,
        (AnimationRole::Sneak, StrafeDir::Right) => AnimationRole::SneakStrafeR,
        _ => base,
    }
}

/// Whether a back-pedal plays its clip in reverse: only when it has no clip of
/// its own and borrowed the forward base clip, so the legs cycle backward
/// instead of moonwalking.
pub fn plays_in_reverse(strafe: StrafeDir, role_node: usize, base_node: usize) -> (reverse: bool)
    ensures
        reverse == (strafe == StrafeDir::Back && role_node == base_node),
{
    strafe == StrafeDir::Back && role_node == base_node
}

/// The clip that presents a locomotion state, before the idle-when-still
/// refinement.
pub fn role_for_state(state: LocomotionState) -> (role: AnimationRole)
    ensures
        role == spec_role_for_state(state),
{
    match state {
        LocomotionState::Walk | LocomotionState::Stairs => AnimationRole::Walk,
        LocomotionState::Sprint => AnimationRole::Run,
        LocomotionState::Sneak => AnimationRole::Sneak,
        LocomotionState::Jump => AnimationRole::Jump,
        LocomotionState::Fall => AnimationRole::Fall,
        LocomotionState::Glide => AnimationRole::Glide,
        LocomotionState::Climb => AnimationRole::Climb,
        LocomotionState::Ladder => AnimationRole::Ladder,
        LocomotionState::Mantle => AnimationRole::Mantle,
        LocomotionState::AutoVault => AnimationRole::Vault,
        LocomotionState::WallJump => AnimationRole::WallJump,
        LocomotionState::EdgeLeap => AnimationRole::EdgeLeap,
    }
}

/// Whether a state is grounded and planar.
pub fn is_planar(state: LocomotionState) -> (planar: bool)
    ensures
        planar == spec_is_planar(state),
{
    match state {
        LocomotionState::Walk | LocomotionState::Sprint | LocomotionState::Sneak
        | LocomotionState::Stairs => true,
        _ => false,
    }
}

/// Whether walking and sprinting go through the continuous walk-to-run blend:
/// only while the body moves, and never while the debug clip browser has a
/// clip to preview.
pub fn wants_blend(state: LocomotionState, moving: bool, browsing_clips: bool) -> (blend: bool)
    ensures
        blend == ((state == LocomotionState::Walk || state == LocomotionState::Sprint) && moving
            && !browsing_clips),
{
    (state == LocomotionState::Walk || state == LocomotionState::Sprint) && moving
        && !browsing_clips
}

/// The role that presents a state on the single-clip path: a still planar
/// body idles, and a planar role takes its facing-relative variant.
pub fn presented_role(state: LocomotionState, moving: bool, strafe: StrafeDir) -> (role:
    AnimationRole)
    ensures
        role == spec_presented_role(state, moving, strafe),
{
    if is_planar(state) {
        let base = if moving {
            role_for_state(state)
        } else {
            AnimationRole::Idle
        };
        directional_role(base, strafe)
    } else {
        role_for_state(state)
    }
}

/// Every role but `Idle` borrows from a role strictly closer to `Idle`, and
/// `Idle` borrows from none: the fallback chain is acyclic and every chain ends
/// at `Idle`.
pub proof fn every_fallback_chain_ends_at_idle(role: AnimationRole)
    ensures
        fallback_of(role) is None <==> role == AnimationRole::Idle,
        fallback_of(role) matches Some(borrowed) ==> steps_to_idle(borrowed) < steps_to_idle(role),
{
}

/// Every role has exactly one row in the clip contract.
pub proof fn every_role_has_exactly_one_row(role: AnimationRole)
    ensures
        all_roles().contains(role),
        forall|i: int, j: int|
            0 <= i < j < all_roles().len() ==> all_roles()[i] != all_roles()[j],
{
    match role {
        AnimationRole::Idle => assert(all_roles()[0] == role),
        AnimationRole::Walk => assert(all_roles()[1] == role),
        AnimationRole::Run => assert(all_roles()[2] == role),
        AnimationRole::Sneak => assert(all_roles()[3] == role),
        AnimationRole::Jump => assert(all_roles()[4] == role),
        AnimationRole::Fall => assert(all_roles()[5] == role),
        AnimationRole::Glide => assert(all_roles()[6] == role),
        AnimationRole::Climb => assert(all_roles()[7] == role),
        AnimationRole::Ladder => assert(all_roles()[8] == role),
        AnimationRole::Mantle => assert(all_roles()[9] == role),
        AnimationRole::Vault => assert(all_roles()[10] == role),
        AnimationRole::WallJump => assert(all_roles()[11] == role),
        AnimationRole::EdgeLeap => assert(all_roles()[12] == role),
        AnimationRole::WalkBwd => assert(all_roles()[13] == role),
        AnimationRole::WalkStrafeL => assert(all_roles()[14] == role),
        AnimationRole::WalkStrafeR => assert(all_roles()[15] == role),
        AnimationRole::RunBwd => assert(all_roles()[16] == role),
        AnimationRole::RunStrafeL => assert(all_roles()[17] == role),
        AnimationRole::RunStrafeR => assert(all_roles()[18] == role),
        AnimationRole::SneakBwd => assert(all_roles()[19] == role),
        AnimationRole::SneakStrafeL => assert(all_roles()[20] == role),
        AnimationRole::SneakStrafeR => assert(all_roles()[21] == role),
    }
}

/// Once the rig ships an idle clip, every role resolves to some clip.
pub proof fn every_role_resolves_once_idle_is_present(
    role: AnimationRole,
    by_name: Seq<(Seq<char>, usize)>,
)
    requires
        own_clip(AnimationRole::Idle, by_name) is Some,
    ensures
        resolved_clip(role, by_name) is Some,
    decreases steps_to_idle(role),
{
    if own_clip(role, by_name) is None {
        match fallback_of(role) {
            Some(borrowed) => every_role_resolves_once_idle_is_present(borrowed, by_name),
            None => {},
        }
    }
}

/// When the idle clip is the only one the rig ships for any role, every role
/// collapses onto it.
pub proof fn a_lone_idle_clip_presents_every_role(
    role: AnimationRole,
    by_name: Seq<(Seq<char>, usize)>,
)
    requires
        forall|other: AnimationRole|
            other != AnimationRole::Idle ==> #[trigger] own_clip(other, by_name) is None,
    ensures
        resolved_clip(role, by_name) == own_clip(AnimationRole::Idle, by_name),
    decreases steps_to_idle(role),
{
    if role != AnimationRole::Idle {
        assert(own_clip(role, by_name) is None);
        match fallback_of(role) {
            Some(borrowed) => a_lone_idle_clip_presents_every_role(borrowed, by_name),
            None => {},
        }
    }
}

/// A clip shipped under a role's canonical name binds that role, whatever
/// vendor aliases the rig also ships.
pub proof fn the_canonical_name_wins(role: AnimationRole, by_name: Seq<(Seq<char>, usize)>)
    requires
        clip_lookup(by_name, canonical_name(role)) is Some,
    ensures
        resolved_clip(role, by_name) == clip_lookup(by_name, canonical_name(role)),
{
}

/// A name that resolves names a clip the rig ships.
proof fn lemma_lookup_is_shipped(by_name: Seq<(Seq<char>, usize)>, name: Seq<char>)
    requires
        clip_lookup(by_name, name) is Some,
    ensures
        exists|i: int|
            0 <= i < by_name.len() && by_name[i] == (name, clip_lookup(by_name, name)->0),
    decreases by_name.len(),
{
    if by_name.last().0 == name {
        assert(by_name[by_name.len() - 1] == (name, clip_lookup(by_name, name)->0));
    } else {
        lemma_lookup_is_shipped(by_name.drop_last(), name);
        let i = choose|i: int|
            0 <= i < by_name.drop_last().len() && by_name.drop_last()[i] == (
                name,
                clip_lookup(by_name.drop_last(), name)->0,
            );
        assert(by_name[i] == by_name.drop_last()[i]);
    }
}

/// The first present name resolves to a shipped clip.
proof fn lemma_first_present_is_shipped(by_name: Seq<(Seq<char>, usize)>, names: Seq<Seq<char>>)
    requires
        first_present(by_name, names) is Some,
    ensures
        exists|i: int| 0 <= i < by_name.len() && by_name[i].1 == first_present(by_name, names)->0,
    decreases names.len(),
{
    match clip_lookup(by_name, names[0]) {
        Some(node) => lemma_lookup_is_shipped(by_name, names[0]),
        None => lemma_first_present_is_shipped(by_name, names.drop_first()),
    }
}

/// Whatever a role resolves to is a clip the rig actually ships: resolution
/// borrows clips, it never invents one.
pub proof fn a_resolved_clip_is_shipped(role: AnimationRole, by_name: Seq<(Seq<char>, usize)>)
    requires
        resolved_clip(role, by_name) is Some,
    ensures
        exists|i: int| 0 <= i < by_name.len() && by_name[i].1 == resolved_clip(role, by_name)->0,
    decreases steps_to_idle(role),
{
    match own_clip(role, by_name) {
        Some(node) => {
            match clip_lookup(by_name, canonical_name(role)) {
                Some(n) => lemma_lookup_is_shipped(by_name, canonical_name(role)),
                None => lemma_first_present_is_shipped(by_name, vendor_alias_names(role)),
            }
        },
        None => {
            match fallback_of(role) {
                Some(borrowed) => a_resolved_clip_is_shipped(borrowed, by_name),
                None => {},
            }
        },
    }
}

/// A facing-relative variant falls back to its base role, so it shows the
/// base clip until a rig ships the variant; forward and idle moves, and roles
/// that are not grounded and planar, are never refined.
pub proof fn a_directional_variant_borrows_its_base(base: AnimationRole, strafe: StrafeDir)
    ensures
        spec_directional_role(base, strafe) == base || fallback_of(
            spec_directional_role(base, strafe),
        ) == Some(base),
        strafe == StrafeDir::Forward || strafe == StrafeDir::Idle ==> spec_directional_role(
            base,
            strafe,
        ) == base,
        !(base == AnimationRole::Walk || base == AnimationRole::Run || base == AnimationRole::Sneak)
            ==> spec_directional_role(base, strafe) == base,
{
}

/// Each locomotion state is presented by the role of its own gait or action:
/// walking and climbing stairs by the walk, sprinting by the run, sneaking by
/// the sneak, an automatic vault by the vault, and every other state by the
/// role of the same name. No state is presented by the idle pose itself, and
/// the grounded planar states are exactly those presented by a gait.
pub proof fn each_state_is_presented_by_its_own_role(state: LocomotionState)
    ensures
        spec_role_for_state(state) == AnimationRole::Walk <==> (state == LocomotionState::Walk
            || state == LocomotionState::Stairs),
        spec_role_for_state(state) == AnimationRole::Run <==> state == LocomotionState::Sprint,
        spec_role_for_state(state) == AnimationRole::Sneak <==> state == LocomotionState::Sneak,
        spec_role_for_state(state) == AnimationRole::Jump <==> state == LocomotionState::Jump,
        spec_role_for_state(state) == AnimationRole::Fall <==> state == LocomotionState::Fall,
        spec_role_for_state(state) == AnimationRole::Glide <==> state == LocomotionState::Glide,
        spec_role_for_state(state) == AnimationRole::Climb <==> state == LocomotionState::Climb,
        spec_role_for_state(state) == AnimationRole::Ladder <==> state == LocomotionState::Ladder,
        spec_role_for_state(state) == AnimationRole::Mantle <==> state == LocomotionState::Mantle,
        spec_role_for_state(state) == AnimationRole::Vault <==> state
            == LocomotionState::AutoVault,
        spec_role_for_state(state) == AnimationRole::WallJump <==> state
            == LocomotionState::WallJump,
        spec_role_for_state(state) == AnimationRole::EdgeLeap <==> state
            == LocomotionState::EdgeLeap,
        spec_role_for_state(state) != AnimationRole::Idle,
        spec_is_planar(state) <==> (spec_role_for_state(state) == AnimationRole::Walk
            || spec_role_for_state(state) == AnimationRole::Run || spec_role_for_state(state)
            == AnimationRole::Sneak),
{
}

/// A moving grounded player is shown in its own gait: facing its move it plays
/// the gait's clip, and backing or strafing it plays the gait's own
/// back-pedal or strafe clip (`Bwd`, `StrafeL`, `StrafeR` after the gait's
/// name), which borrows the gait's clip until the rig ships it. A still
/// grounded player shows the idle pose, and a player in any other state shows
/// that state's role whatever the move.
pub proof fn a_moving_player_is_presented_in_its_own_gait(
    state: LocomotionState,
    moving: bool,
    strafe: StrafeDir,
)
    ensures
        spec_is_planar(state) && moving && (strafe == StrafeDir::Forward || strafe
            == StrafeDir::Idle) ==> spec_presented_role(state, moving, strafe)
            == spec_role_for_state(state),
        spec_is_planar(state) && moving && (strafe == StrafeDir::Back || strafe
            == StrafeDir::Left || strafe == StrafeDir::Right) ==> fallback_of(
            spec_presented_role(state, moving, strafe),
        ) == Some(spec_role_for_state(state)),
        spec_is_planar(state) && moving && strafe == StrafeDir::Back ==> canonical_name(
            spec_presented_role(state, moving, strafe),
        ) == canonical_name(spec_role_for_state(state)) + "Bwd"@,
        spec_is_planar(state) && moving && strafe == StrafeDir::Left ==> canonical_name(
            spec_presented_role(state, moving, strafe),
        ) == canonical_name(spec_role_for_state(state)) + "StrafeL"@,
        spec_is_planar(state) && moving && strafe == StrafeDir::Right ==> canonical_name(
            spec_presented_role(state, moving, strafe),
        ) == canonical_name(spec_role_for_state(state)) + "StrafeR"@,
        spec_is_planar(state) && !moving ==> spec_presented_role(state, moving, strafe)
            == AnimationRole::Idle,
        !spec_is_planar(state) ==> spec_presented_role(state, moving, strafe)
            == spec_role_for_state(state),
{
    reveal_strlit("Bwd");
    reveal_strlit("StrafeL");
    reveal_strlit("StrafeR");
    reveal_strlit("AN_Walk");
    reveal_strlit("AN_Run");
    reveal_strlit("AN_Sneak");
    reveal_strlit("AN_WalkBwd");
    reveal_strlit("AN_WalkStrafeL");
    reveal_strlit("AN_WalkStrafeR");
    reveal_strlit("AN_RunBwd");
    reveal_strlit("AN_RunStrafeL");
    reveal_strlit("AN_RunStrafeR");
    reveal_strlit("AN_SneakBwd");
    reveal_strlit("AN_SneakStrafeL");
    reveal_strlit("AN_SneakStrafeR");
    assert("AN_WalkBwd"@ =~= "AN_Walk"@ + "Bwd"@);
    assert("AN_WalkStrafeL"@ =~= "AN_Walk"@ + "StrafeL"@);
    assert("AN_WalkStrafeR"@ =~= "AN_Walk"@ + "StrafeR"@);
    assert("AN_RunBwd"@ =~= "AN_Run"@ + "Bwd"@);
    assert("AN_RunStrafeL"@ =~= "AN_Run"@ + "StrafeL"@);
    assert("AN_RunStrafeR"@ =~= "AN_Run"@ + "StrafeR"@);
    assert("AN_SneakBwd"@ =~= "AN_Sneak"@ + "Bwd"@);
    assert("AN_SneakStrafeL"@ =~= "AN_Sneak"@ + "StrafeL"@);
    assert("AN_SneakStrafeR"@ =~= "AN_Sneak"@ + "StrafeR"@);
}

/// The fallback chain degrades a role to its nearest relative: a grounded
/// movement (the run, the sneak, the walk's variants) to the walk, the walk,
/// the jump and the climb to the idle pose, the airborne and leaping roles to
/// the jump (the glide by way of the fall), the ladder and the mantle to the
/// climb, and each gait's variants to that gait. Only the idle pose borrows
/// nothing. So a rig without a run or a sneak clip shows the walk clip for
/// them, never the idle pose while a walk clip exists.
pub proof fn a_missing_clip_borrows_its_nearest_relative(
    role: AnimationRole,
    by_name: Seq<(Seq<char>, usize)>,
)
    ensures
        fallback_of(role) == Some(AnimationRole::Walk) <==> (role == AnimationRole::Run || role
            == AnimationRole::Sneak || role == AnimationRole::WalkBwd || role
            == AnimationRole::WalkStrafeL || role == AnimationRole::WalkStrafeR),
        fallback_of(role) == Some(AnimationRole::Idle) <==> (role == AnimationRole::Walk || role
            == AnimationRole::Jump || role == AnimationRole::Climb),
        fallback_of(role) == Some(AnimationRole::Jump) <==> (role == AnimationRole::Fall || role
            == AnimationRole::Vault || role == AnimationRole::WallJump || role
            == AnimationRole::EdgeLeap),
        fallback_of(role) == Some(AnimationRole::Fall) <==> role == AnimationRole::Glide,
        fallback_of(role) == Some(AnimationRole::Climb) <==> (role == AnimationRole::Ladder || role
            == AnimationRole::Mantle),
        fallback_of(role) == Some(AnimationRole::Run) <==> (role == AnimationRole::RunBwd || role
            == AnimationRole::RunStrafeL || role == AnimationRole::RunStrafeR),
        fallback_of(role) == Some(AnimationRole::Sneak) <==> (role == AnimationRole::SneakBwd
            || role == AnimationRole::SneakStrafeL || role == AnimationRole::SneakStrafeR),
        fallback_of(role) is None <==> role == AnimationRole::Idle,
        (role == AnimationRole::Run || role == AnimationRole::Sneak) && own_clip(role, by_name)
            is None ==> resolved_clip(role, by_name) == resolved_clip(
            AnimationRole::Walk,
            by_name,
        ),
        own_clip(AnimationRole::Walk, by_name) is None ==> resolved_clip(
            AnimationRole::Walk,
            by_name,
        ) == resolved_clip(AnimationRole::Idle, by_name),
{
}

/// A canonical name's length, its fourth character and its last one: enough
/// to tell any two canonical names apart.
pub open spec fn name_signature(name: Seq<char>) -> (nat, char, char) {
    (name.len(), name[3], name[name.len() - 1])
}

/// Every canonical name is `AN_` followed by the role's name, and no two
/// roles share one: an asset binds a role by its name alone.
pub proof fn canonical_names_are_distinct(a: AnimationRole, b: AnimationRole)
    ensures
        canonical_name(a).len() > 3,
        canonical_name(a).take(3) == "AN_"@,
        a != b ==> canonical_name(a) != canonical_name(b),
{
    reveal_strlit("AN_");
    reveal_strlit("AN_Idle");
    reveal_strlit("AN_Walk");
    reveal_strlit("AN_Run");
    reveal_strlit("AN_Sneak");
    reveal_strlit("AN_Jump");
    reveal_strlit("AN_Fall");
    reveal_strlit("AN_Glide");
    reveal_strlit("AN_Climb");
    reveal_strlit("AN_Ladder");
    reveal_strlit("AN_Mantle");
    reveal_strlit("AN_Vault");
    reveal_strlit("AN_WallJump");
    reveal_strlit("AN_EdgeLeap");
    reveal_strlit("AN_WalkBwd");
    reveal_strlit("AN_WalkStrafeL");
    reveal_strlit("AN_WalkStrafeR");
    reveal_strlit("AN_RunBwd");
    reveal_strlit("AN_RunStrafeL");
    reveal_strlit("AN_RunStrafeR");
    reveal_strlit("AN_SneakBwd");
    reveal_strlit("AN_SneakStrafeL");
    reveal_strlit("AN_SneakStrafeR");
    assert(canonical_name(a).take(3) =~= "AN_"@);
    if a != b {
        assert(name_signature(canonical_name(a)) != name_signature(canonical_name(b)));
    }
}

/// The clip binding of every role, in table order.
pub open spec fn role_bindings(by_name: Seq<(Seq<char>, usize)>) -> Seq<(AnimationRole, usize)> {
    all_roles().map_values(
        |role: AnimationRole| (role, resolved_clip(role, by_name)->0),
    )
}

/// The roles the rig ships no clip of their own for, in table order.
pub open spec fn roles_without_own_clip(by_name: Seq<(Seq<char>, usize)>) -> Seq<AnimationRole> {
    all_roles().filter(|role: AnimationRole| own_clip(role, by_name) is None)
}

/// Bind every role of the contract to a clip node. `None` when the rig ships
/// no idle clip under any of its names: then nothing can be animated. Otherwise
/// every role resolves, through its fallback chain if need be.
pub fn bind_roles(by_name: &[(String, usize)]) -> (bindings: Option<Vec<(AnimationRole, usize)>>)
    ensures
        match bindings {
            Some(b) => own_clip(AnimationRole::Idle, clip_views(by_name@)) is Some && b@
                == role_bindings(clip_views(by_name@)),
            None => own_clip(AnimationRole::Idle, clip_views(by_name@)) is None,
        },
{
    let ghost views = clip_views(by_name@);
    let idle = match resolve_role(AnimationRole::Idle, by_name) {
        Some(node) => node,
        None => return None,
    };
    let roles = role_table();
    let mut bindings: Vec<(AnimationRole, usize)> = Vec::new();
    let mut i: usize = 0;
    while i < roles.len()
        invariant
            i <= roles.len(),
            roles@ == all_roles(),
            views == clip_views(by_name@),
            own_clip(AnimationRole::Idle, views) is Some,
            bindings@ == role_bindings(views).take(i as int),
        decreases roles.len() - i,
    {
        let role = roles[i];
        proof {
            every_role_resolves_once_idle_is_present(role, views);
        }
        let node = match resolve_role(role, by_name) {
            Some(node) => node,
            None => idle,
        };
        bindings.push((role, node));
        assert(bindings@ =~= role_bindings(views).take(i + 1));
        i = i + 1;
    }
    assert(role_bindings(views).take(roles.len() as int) =~= role_bindings(views));
    Some(bindings)
}

/// The roles served by a fallback because the rig ships no clip of their own,
/// in table order: the gaps to author.
pub fn missing_roles(by_name: &[(String, usize)]) -> (missing: Vec<AnimationRole>)
    ensures
        missing@ == roles_without_own_clip(clip_views(by_name@)),
{
    let ghost views = clip_views(by_name@);
    let ghost gap = |role: AnimationRole| own_clip(role, views) is None;
    let roles = role_table();
    let mut missing: Vec<AnimationRole> = Vec::new();
    let mut i: usize = 0;
    while i < roles.len()
        invariant
            i <= roles.len(),
            roles@ == all_roles(),
            views == clip_views(by_name@),
            gap == (|role: AnimationRole| own_clip(role, views) is None),
            missing@ == all_roles().take(i as int).filter(gap),
        decreases roles.len() - i,
    {
        proof {
            reveal(Seq::filter);
        }
        assert(all_roles().take(i + 1).drop_last() =~= all_roles().take(i as int));
        assert(all_roles().take(i + 1).last() == roles@[i as int]);
        let role = roles[i];
        if resolve_direct(role, by_name).is_none() {
            missing.push(role);
        }
        i = i + 1;
    }
    assert(all_roles().take(roles.len() as int) =~= all_roles());
    missing
}

/// The nodes of a blend request, each once, in order of first appearance.
pub open spec fn first_appearances(nodes: Seq<usize>) -> Seq<usize>
    decreases nodes.len(),
{
    if nodes.len() == 0 {
        Seq::empty()
    } else {
        let before = first_appearances(nodes.drop_last());
        if before.contains(nodes.last()) {
            before
        } else {
            before.push(nodes.last())
        }
    }
}

/// The nodes a blend drives, each once, in the order they are first asked
/// for. Two entries of a blend can resolve to the same node (a rig whose run
/// borrows the walk clip); they are one node, played once with their weights
/// merged, not two calls where the second clobbers the first.
pub fn distinct_nodes(nodes: &[usize]) -> (merged: Vec<usize>)
    ensures
        merged@ == first_appearances(nodes@),
{
    let mut merged: Vec<usize> = Vec::new();
    let mut i: usize = 0;
    while i < nodes.len()
        invariant
            i <= nodes.len(),
            merged@ == first_appearances(nodes@.take(i as int)),
        decreases nodes.len() - i,
    {
        assert(nodes@.take(i + 1).drop_last() =~= nodes@.take(i as int));
        assert(nodes@.take(i + 1).last() == nodes@[i as int]);
        let node = nodes[i];
        let mut seen = false;
        let mut j: usize = 0;
        while j < merged.len()
            invariant
                j <= merged.len(),
                seen == exists|k: int| 0 <= k < j && merged@[k] == node,
            decreases merged.len() - j,
        {
            if merged[j] == node {
                seen = true;
            }
            j = j + 1;
        }
        if !seen {
            merged.push(node);
        }
        i = i + 1;
    }
    assert(nodes@.take(nodes.len() as int) =~= nodes@);
    merged
}

/// What a sequence with one more element at its end contains.
proof fn lemma_push_contains(s: Seq<usize>, x: usize, n: usize)
    ensures
        s.push(x).contains(n) <==> (s.contains(n) || n == x),
{
    if s.push(x).contains(n) && n != x {
        let i = choose|i: int| 0 <= i < s.push(x).len() && s.push(x)[i] == n;
        assert(s[i] == n);
    }
    if s.contains(n) {
        let i = choose|i: int| 0 <= i < s.len() && s[i] == n;
        assert(s.push(x)[i] == n);
    }
    if n == x {
        assert(s.push(x)[s.len() as int] == n);
    }
}

/// Merging keeps every node asked for and plays each one once.
pub proof fn merging_keeps_every_node_once(nodes: Seq<usize>)
    ensures
        first_appearances(nodes).no_duplicates(),
        forall|n: usize| #[trigger] first_appearances(nodes).contains(n) <==> nodes.contains(n),
    decreases nodes.len(),
{
    if nodes.len() > 0 {
        let rest = nodes.drop_last();
        let x = nodes.last();
        merging_keeps_every_node_once(rest);
        assert(nodes =~= rest.push(x));
        let r = first_appearances(rest);
        assert forall|n: usize| #[trigger] first_appearances(nodes).contains(n) <==> nodes.contains(
            n,
        ) by {
            lemma_push_contains(rest, x, n);
            lemma_push_contains(r, x, n);
        }
    }
}

} // verus!
