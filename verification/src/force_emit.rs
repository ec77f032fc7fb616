//! `bxt_force_emit_viewentity_player`: makes the engine add the player the
//! view is attached to to the list of visible entities every frame.
//!
//! The engine adds that player only in third person, so while the players
//! are linked the third-person query is answered with "yes". The view
//! model's attachments, which drawing the player overwrites, are saved
//! before and put back after, and the player's studio events are skipped.

use vstd::prelude::*;

verus! {

/// The module.
pub struct ForceEmitViewentityPlayer;

/// Which of the engine functions and variables the module needs were found.
#[derive(Clone, Copy, Debug)]
pub struct ForceEmitEngine {
    pub cl_link_players: bool,
    pub client_dll_is_third_person: bool,
    pub cl: bool,
    pub cl_entities: bool,
    pub currententity: bool,
}

impl ForceEmitEngine {
    /// Everything the module needs was found.
    pub open spec fn all_found(self) -> bool {
        &&& self.cl_link_players
        &&& self.client_dll_is_third_person
        &&& self.cl
        &&& self.cl_entities
        &&& self.currententity
    }
}

impl ForceEmitViewentityPlayer {
    /// The module's name, which is also its console variable's.
    pub fn name(&self) -> (r: &'static str)
        ensures
            r@ == "bxt_force_emit_viewentity_player"@,
    {
        "bxt_force_emit_viewentity_player"
    }

    /// What the module does, in one line.
    pub fn description(&self) -> (r: &'static str)
        ensures
            r@ == "Forces the engine to add the viewentity player to the list of visible entities every frame"@,
    {
        "Forces the engine to add the viewentity player to the list of visible entities every frame"
    }

    /// The module works when every engine item it needs was found.
    pub fn is_enabled(&self, engine: &ForceEmitEngine) -> (r: bool)
        ensures
            r == engine.all_found(),
    {
        engine.cl_link_players && engine.client_dll_is_third_person && engine.cl && engine.cl_entities
            && engine.currententity
    }
}

/// What the module keeps between engine calls.
pub struct ForceEmitState {
    /// The third-person query is to be answered with "yes": the players are
    /// being linked with the module on.
    pub should_override: bool,
    /// The view model's attachment points, saved before the player is drawn
    /// (each coordinate as the bits of an `f32`).
    pub viewmodel_attachments: [[u32; 3]; 4],
}

impl ForceEmitState {
    /// The state before any engine call: no override, attachments all zero.
    pub fn new() -> (r: ForceEmitState)
        ensures
            !r.should_override,
            forall|i: int, j: int| 0 <= i < 4 && 0 <= j < 3 ==> #[trigger] r.viewmodel_attachments@[i]@[j] == 0,
    {
        ForceEmitState { should_override: false, viewmodel_attachments: [[0u32; 3]; 4] }
    }
}

/// The override once the players are about to be linked.
pub open spec fn override_before_linking(should_override: bool, engine: ForceEmitEngine, force_emit: bool) -> bool {
    if engine.all_found() && force_emit {
        true
    } else {
        should_override
    }
}

/// The override once the players were linked.
pub open spec fn override_after_linking(should_override: bool, engine: ForceEmitEngine) -> bool {
    if engine.all_found() {
        false
    } else {
        should_override
    }
}

/// The answer to "is the third-person query overridden?".
pub open spec fn overrides_third_person(should_override: bool, engine: ForceEmitEngine) -> bool {
    engine.all_found() && should_override
}

/// Before the engine links the players: with the module enabled and its
/// variable set, the third-person query starts being overridden.
pub fn on_before_cl_linkplayers(state: &mut ForceEmitState, engine: &ForceEmitEngine, force_emit: bool)
    ensures
        final(state).should_override == override_before_linking(old(state).should_override, *engine, force_emit),
        final(state).viewmodel_attachments == old(state).viewmodel_attachments,
{
    if !ForceEmitViewentityPlayer.is_enabled(engine) {
        return;
    }
    if !force_emit {
        return;
    }
    state.should_override = true;
}

/// After the engine linked the players: with the module enabled, the
/// override ends.
pub fn on_after_cl_linkplayers(state: &mut ForceEmitState, engine: &ForceEmitEngine)
    ensures
        final(state).should_override == override_after_linking(old(state).should_override, *engine),
        final(state).viewmodel_attachments == old(state).viewmodel_attachments,
{
    if !ForceEmitViewentityPlayer.is_enabled(engine) {
        return;
    }
    state.should_override = false;
}

/// Whether the client's third-person query is to be answered with "yes".
pub fn should_override_clientdll_isthirdperson(state: &ForceEmitState, engine: &ForceEmitEngine) -> (r: bool)
    ensures
        r == overrides_third_person(state.should_override, *engine),
{
    if !ForceEmitViewentityPlayer.is_enabled(engine) {
        return false;
    }
    state.should_override
}

/// Whether the module is enabled and its variable set, so that it reads and
/// writes the view entity.
pub fn tracks_view_entity(engine: &ForceEmitEngine, force_emit: bool) -> (r: bool)
    ensures
        r == (engine.all_found() && force_emit),
{
    ForceEmitViewentityPlayer.is_enabled(engine) && force_emit
}

/// The saved attachments once the attachments of the view entity,
/// `attachments`, were offered for saving.
pub open spec fn attachments_after_saving(
    saved: [[u32; 3]; 4],
    engine: ForceEmitEngine,
    force_emit: bool,
    attachments: [[u32; 3]; 4],
) -> [[u32; 3]; 4] {
    if engine.all_found() && force_emit {
        attachments
    } else {
        saved
    }
}

/// The attachments to put back on the view entity, given the saved ones.
pub open spec fn attachments_to_restore(saved: [[u32; 3]; 4], engine: ForceEmitEngine, force_emit: bool) -> Option<
    [[u32; 3]; 4],
> {
    if engine.all_found() && force_emit {
        Some(saved)
    } else {
        None
    }
}

/// Saves the attachments of the view entity, `attachments`, when the
/// module is enabled and its variable set.
pub fn save_viewmodel_attachments(
    state: &mut ForceEmitState,
    engine: &ForceEmitEngine,
    force_emit: bool,
    attachments: [[u32; 3]; 4],
)
    ensures
        final(state).viewmodel_attachments == attachments_after_saving(
            old(state).viewmodel_attachments,
            *engine,
            force_emit,
            attachments,
        ),
        final(state).should_override == old(state).should_override,
{
    if !tracks_view_entity(engine, force_emit) {
        return;
    }
    state.viewmodel_attachments = attachments;
}

/// The attachments to put back on the view entity: the saved ones when the
/// module is enabled and its variable set, and nothing otherwise.
pub fn load_viewmodel_attachments(state: &ForceEmitState, engine: &ForceEmitEngine, force_emit: bool) -> (r: Option<
    [[u32; 3]; 4],
>)
    ensures
        r == attachments_to_restore(state.viewmodel_attachments, *engine, force_emit),
{
    if !tracks_view_entity(engine, force_emit) {
        return None;
    }
    Some(state.viewmodel_attachments)
}

/// Whether the studio events of the entity being drawn are skipped: with
/// the module enabled and its variable set, exactly those of the view
/// entity. `current_entity` and `view_entity` are the addresses of the
/// entity being drawn and of the view entity.
pub fn should_skip_studio_events(
    engine: &ForceEmitEngine,
    force_emit: bool,
    current_entity: usize,
    view_entity: usize,
) -> (r: bool)
    ensures
        r == (engine.all_found() && force_emit && current_entity == view_entity),
{
    if !tracks_view_entity(engine, force_emit) {
        return false;
    }
    if current_entity == view_entity {
        return true;
    }
    false
}

/// The third-person query is overridden exactly while the players are
/// being linked: from the call before linking, with the module enabled and
/// its variable set, to the call after, whatever the state was before.
pub proof fn lemma_override_only_while_linking(should_override: bool, engine: ForceEmitEngine)
    requires
        engine.all_found(),
    ensures
        overrides_third_person(override_before_linking(should_override, engine, true), engine),
        !overrides_third_person(override_after_linking(override_before_linking(should_override, engine, true), engine), engine),
        !overrides_third_person(override_after_linking(should_override, engine), engine),
{
}

/// With the module enabled and its variable set, the attachments put back
/// on the view entity are those saved before it was drawn.
pub proof fn lemma_restores_saved_attachments(saved: [[u32; 3]; 4], engine: ForceEmitEngine, attachments: [[u32; 3]; 4])
    requires
        engine.all_found(),
    ensures
        attachments_to_restore(attachments_after_saving(saved, engine, true, attachments), engine, true) == Some(
            attachments,
        ),
{
}

/// A module that is not enabled never overrides the third-person query,
/// whatever calls came before.
pub proof fn lemma_disabled_never_overrides(should_override: bool, engine: ForceEmitEngine, force_emit: bool)
    requires
        !engine.all_found(),
    ensures
        !overrides_third_person(should_override, engine),
        override_before_linking(should_override, engine, force_emit) == should_override,
        override_after_linking(should_override, engine) == should_override,
{
}

} // verus!
