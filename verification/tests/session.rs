use poshanka::feed::command::CommandError;
use poshanka::feed::ProviderSpec;
use poshanka::model::{NotificationView, Urgency};
use poshanka::config::LayerShell;
use poshanka::wayland::anchor::Corner;
use poshanka::wayland::session::{
    action_command, configure_paint, eligible_output_keys, focus_after_close, global_binding,
    handle_pointer_click, handle_touch_down, output_matches, parse_layer, plan_upsert,
    pointer_step, solid_frame, stale_surface_keys, surfaces_on_output, sync_plan, CardPlacement, ConfigurePaint, GestureKind, GlobalKind,
    LayerKind, Margins, PointerEvent, ProviderAction, SurfaceState, BTN_LEFT, BTN_MIDDLE,
    BTN_RIGHT,
};

fn item(id: u32, has_actions: bool) -> NotificationView {
    NotificationView {
        id,
        app_id: "app".into(),
        summary: "s".into(),
        body: "b".into(),
        urgency: Urgency::Normal,
        timeout_ms: None,
        has_actions,
        icon: None,
        progress: None,
        category: None,
        desktop_entry: None,
        body_markup: false,
    }
}

#[test]
fn layer_words_parse_with_overlay_as_fallback() {
    assert_eq!(parse_layer("background"), LayerKind::Background);
    assert_eq!(parse_layer(" Bottom "), LayerKind::Bottom);
    assert_eq!(parse_layer("OVERLAY"), LayerKind::Overlay);
    assert_eq!(parse_layer("top"), LayerKind::Top);
    assert_eq!(parse_layer("sideways"), LayerKind::Overlay);
}

#[test]
fn output_filter_matches_by_exact_name() {
    assert!(output_matches("", None));
    assert!(output_matches("", Some("DP-1")));
    assert!(output_matches("DP-1", Some("DP-1")));
    assert!(!output_matches("DP-1", Some("DP-2")));
    assert!(!output_matches("DP-1", None));
    let outputs = vec![(3, Some("DP-1".to_string())), (5, None), (9, Some("HDMI-A-1".to_string()))];
    assert_eq!(eligible_output_keys(&outputs, ""), vec![3, 5, 9]);
    assert_eq!(eligible_output_keys(&outputs, "HDMI-A-1"), vec![9]);
}

#[test]
fn stale_surfaces_are_those_not_kept() {
    let existing = vec![(1, 10), (1, 11), (2, 10), (3, 12)];
    let stale = stale_surface_keys(&existing, &vec![1, 2], &vec![10]);
    assert_eq!(stale, vec![(1, 11), (3, 12)]);
}

#[test]
fn pointer_clicks_map_to_provider_actions() {
    let items = vec![item(1, true), item(2, false)];
    assert_eq!(handle_pointer_click(&items, 1, BTN_LEFT), Some(ProviderAction::Activate(1)));
    assert_eq!(handle_pointer_click(&items, 2, BTN_LEFT), Some(ProviderAction::Close(2)));
    assert_eq!(handle_pointer_click(&items, 9, BTN_LEFT), Some(ProviderAction::Close(9)));
    assert_eq!(
        handle_pointer_click(&items, 1, BTN_RIGHT),
        Some(ProviderAction::Input(1, GestureKind::ButtonRight))
    );
    assert_eq!(
        handle_pointer_click(&items, 2, BTN_MIDDLE),
        Some(ProviderAction::Input(2, GestureKind::ButtonMiddle))
    );
    assert_eq!(handle_pointer_click(&items, 1, 0x113), None);
    assert_eq!(handle_touch_down(4), ProviderAction::Input(4, GestureKind::Touch));
}

#[test]
fn actions_become_provider_command_lines() {
    let spec = ProviderSpec {
        feed_exec: None,
        command: Some("notredctl".into()),
        socket: Some("/run/n.sock".into()),
    };
    let close = action_command(&spec, ProviderAction::Close(5)).unwrap();
    assert_eq!(close.program, "notredctl");
    assert_eq!(close.args, vec!["--socket", "/run/n.sock", "close", "5"]);
    let touch = action_command(&spec, ProviderAction::Input(6, GestureKind::Touch)).unwrap();
    assert_eq!(touch.args, vec!["--socket", "/run/n.sock", "input", "6", "touch"]);
    let act = action_command(&spec, ProviderAction::Activate(7)).unwrap();
    assert_eq!(act.args, vec!["--socket", "/run/n.sock", "activate", "7"]);
    assert_eq!(
        action_command(&ProviderSpec::default(), ProviderAction::Close(1)),
        Err(CommandError::NoCommand)
    );
}

#[test]
fn configure_paints_pending_frame_only_at_its_size() {
    assert_eq!(configure_paint(Some((10, 20)), 10, 20), ConfigurePaint::PendingFrame);
    assert_eq!(
        configure_paint(Some((10, 20)), 11, 20),
        ConfigurePaint::Fallback { width: 11, height: 20 }
    );
    assert_eq!(
        configure_paint(None, 0, 0),
        ConfigurePaint::Fallback { width: 1, height: 1 }
    );
    assert_eq!(configure_paint(Some((1, 1)), 0, 0), ConfigurePaint::PendingFrame);
}

#[test]
fn solid_frame_repeats_the_colour() {
    let f = solid_frame(3, 2, [1, 2, 3, 4]);
    assert_eq!((f.width, f.height, f.stride), (3, 2, 12));
    assert_eq!(f.data.len(), 24);
    assert!(f.data.chunks(4).all(|px| px == [1, 2, 3, 4]));
}

#[test]
fn margins_from_tuple_keep_order() {
    let m = Margins::from_tuple((1, 2, 3, 4));
    assert_eq!((m.top, m.right, m.bottom, m.left), (1, 2, 3, 4));
}

#[test]
fn upsert_plans_new_resized_and_unchanged_surfaces() {
    let margin = Margins::from_tuple((0, 16, 40, 0));
    let fresh = plan_upsert(None, 300, 80, margin);
    assert!(fresh.create && fresh.set_size && fresh.set_margin && fresh.commit);
    assert!(fresh.keep_pending && !fresh.paint_now);
    assert!(!fresh.next.configured);

    let configured = SurfaceState {
        requested_w: 300,
        requested_h: 80,
        configured: true,
        margin,
    };
    let same = plan_upsert(Some(configured), 300, 80, margin);
    assert!(same.paint_now && !same.set_size && !same.set_margin && !same.create);
    assert_eq!(same.next, configured);

    let moved = Margins::from_tuple((0, 16, 130, 0));
    let resized = plan_upsert(Some(configured), 300, 90, moved);
    assert!(resized.set_size && resized.set_margin && resized.commit && !resized.paint_now);
    assert_eq!(resized.next.requested_h, 90);
    assert!(!resized.next.configured);

    let waiting = SurfaceState {
        configured: false,
        ..configured
    };
    let still = plan_upsert(Some(waiting), 300, 80, moved);
    assert!(still.keep_pending && still.set_margin && still.commit && !still.paint_now);
}

#[test]
fn configured_layer_names_parse_back() {
    for (layer, kind) in [
        (LayerShell::Background, LayerKind::Background),
        (LayerShell::Bottom, LayerKind::Bottom),
        (LayerShell::Top, LayerKind::Top),
        (LayerShell::Overlay, LayerKind::Overlay),
    ] {
        assert_eq!(parse_layer(&layer.name()), kind);
    }
}

#[test]
fn globals_are_bound_at_capped_versions() {
    assert_eq!(global_binding("wl_compositor", 6), Some((GlobalKind::Compositor, 5)));
    assert_eq!(global_binding("wl_compositor", 3), Some((GlobalKind::Compositor, 3)));
    assert_eq!(global_binding("wl_shm", 2), Some((GlobalKind::Shm, 1)));
    assert_eq!(global_binding("zwlr_layer_shell_v1", 5), Some((GlobalKind::LayerShell, 4)));
    assert_eq!(global_binding("wl_seat", 9), Some((GlobalKind::Seat, 7)));
    assert_eq!(global_binding("wl_output", 2), Some((GlobalKind::Output, 2)));
    assert_eq!(global_binding("wl_data_device_manager", 3), None);
}

#[test]
fn pointer_focus_follows_enter_and_leave() {
    let items = vec![item(1, true), item(2, false)];
    let (focus, action) = pointer_step(&items, None, PointerEvent::Enter { card: Some(2) });
    assert_eq!((focus, action), (Some(2), None));
    let (focus, action) = pointer_step(
        &items,
        focus,
        PointerEvent::Button {
            button: BTN_LEFT,
            released: false,
        },
    );
    assert_eq!((focus, action), (Some(2), None));
    let (focus, action) = pointer_step(
        &items,
        focus,
        PointerEvent::Button {
            button: BTN_LEFT,
            released: true,
        },
    );
    assert_eq!((focus, action), (Some(2), Some(ProviderAction::Close(2))));
    let (focus, action) = pointer_step(&items, focus, PointerEvent::Leave);
    assert_eq!((focus, action), (None, None));
    let (focus, action) = pointer_step(
        &items,
        focus,
        PointerEvent::Button {
            button: BTN_RIGHT,
            released: true,
        },
    );
    assert_eq!((focus, action), (None, None));
    assert_eq!(pointer_step(&items, Some(1), PointerEvent::Other), (Some(1), None));
}

#[test]
fn closing_a_card_drops_its_focus() {
    assert_eq!(focus_after_close(Some(3), (7, 3)), None);
    assert_eq!(focus_after_close(Some(3), (7, 4)), Some(3));
    assert_eq!(focus_after_close(None, (7, 4)), None);
}

#[test]
fn removed_output_takes_its_surfaces() {
    let existing = vec![(1, 10), (2, 10), (1, 11), (3, 12)];
    assert_eq!(surfaces_on_output(&existing, 1), vec![(1, 10), (1, 11)]);
    assert!(surfaces_on_output(&existing, 9).is_empty());
}

#[test]
fn sync_plan_drops_stale_surfaces_and_stacks_cards() {
    let existing = vec![(1, 10), (1, 11), (2, 10)];
    let plan = sync_plan(
        &existing,
        &vec![1],
        &vec![10, 12],
        &vec![(10, 50), (12, 30)],
        Corner::BottomRight,
        10,
        16,
    );
    assert_eq!(plan.stale, vec![(1, 11), (2, 10)]);
    assert_eq!(
        plan.cards,
        vec![
            CardPlacement {
                id: 10,
                margin: Margins::from_tuple((0, 16, 16, 0)),
            },
            CardPlacement {
                id: 12,
                margin: Margins::from_tuple((0, 16, 76, 0)),
            },
        ]
    );
}
