use bxt_rs::force_emit::{
    load_viewmodel_attachments, on_after_cl_linkplayers, on_before_cl_linkplayers, save_viewmodel_attachments,
    should_override_clientdll_isthirdperson, should_skip_studio_events, ForceEmitEngine, ForceEmitState,
    ForceEmitViewentityPlayer,
};

fn engine() -> ForceEmitEngine {
    ForceEmitEngine { cl_link_players: true, client_dll_is_third_person: true, cl: true, cl_entities: true, currententity: true }
}

#[test]
fn override_lasts_only_while_players_are_linked() {
    let mut state = ForceEmitState::new();
    assert!(!should_override_clientdll_isthirdperson(&state, &engine()));
    on_before_cl_linkplayers(&mut state, &engine(), true);
    assert!(should_override_clientdll_isthirdperson(&state, &engine()));
    on_after_cl_linkplayers(&mut state, &engine());
    assert!(!should_override_clientdll_isthirdperson(&state, &engine()));
}

#[test]
fn override_needs_the_variable_set() {
    let mut state = ForceEmitState::new();
    on_before_cl_linkplayers(&mut state, &engine(), false);
    assert!(!should_override_clientdll_isthirdperson(&state, &engine()));
}

#[test]
fn disabled_module_never_overrides() {
    let off = ForceEmitEngine { currententity: false, ..engine() };
    assert!(!ForceEmitViewentityPlayer.is_enabled(&off));
    let mut state = ForceEmitState::new();
    on_before_cl_linkplayers(&mut state, &off, true);
    assert!(!state.should_override);
    state.should_override = true;
    assert!(!should_override_clientdll_isthirdperson(&state, &off));
    on_after_cl_linkplayers(&mut state, &off);
    assert!(state.should_override);
}

#[test]
fn attachments_are_saved_and_put_back() {
    let mut state = ForceEmitState::new();
    assert_eq!(state.viewmodel_attachments, [[0; 3]; 4]);
    let saved = [[1, 2, 3], [4, 5, 6], [7, 8, 9], [10, 11, 12]];
    save_viewmodel_attachments(&mut state, &engine(), true, saved);
    assert_eq!(load_viewmodel_attachments(&state, &engine(), true), Some(saved));
    assert_eq!(load_viewmodel_attachments(&state, &engine(), false), None);
    save_viewmodel_attachments(&mut state, &engine(), false, [[0; 3]; 4]);
    assert_eq!(state.viewmodel_attachments, saved);
}

#[test]
fn studio_events_skipped_only_for_the_view_entity() {
    assert!(should_skip_studio_events(&engine(), true, 0x5000, 0x5000));
    assert!(!should_skip_studio_events(&engine(), true, 0x5000, 0x6000));
    assert!(!should_skip_studio_events(&engine(), false, 0x5000, 0x5000));
    let off = ForceEmitEngine { cl: false, ..engine() };
    assert!(!should_skip_studio_events(&off, true, 0x5000, 0x5000));
}

#[test]
fn module_names() {
    assert_eq!(ForceEmitViewentityPlayer.name(), "bxt_force_emit_viewentity_player");
    assert_eq!(bxt_rs::gsr::GSR.name(), "GoldSrc engine State Recording");
    assert_eq!(bxt_rs::gsr::GSR.description(), "Records the state of the engine every frame");
}
