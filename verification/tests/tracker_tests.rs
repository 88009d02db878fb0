use waypaper_engine::codec::SourceImage;
use waypaper_engine::pipeline::render_buffer;
use waypaper_engine::surface::{DisplaySurface, Request};
use waypaper_engine::tracker::{
    required_globals_ok, select_outputs, Event, GlobalAdvert, MissingGlobal, Outcome, State,
};

fn solid_source(width: u32, height: u32) -> SourceImage {
    SourceImage {
        pixels: vec![50, 100, 150, 255].repeat((width * height) as usize),
        width,
        height,
    }
}

/// Registers an output, promotes it and adds its display surface; returns the
/// layer surface identity used.
fn promote_one(st: &mut State, global_name: u32, object_id: u64, base: u64) -> u64 {
    assert!(st.register_output(global_name, object_id));
    let info = match st.handle_event(Event::Done { output_id: object_id }) {
        Outcome::Promoted { info } => info,
        other => panic!("expected a promotion, got {:?}", other),
    };
    assert_eq!(info.global_name, global_name);
    let (d, setup) = DisplaySurface::create(
        object_id,
        global_name,
        base + 1,
        base + 2,
        base + 3,
        Some(base + 4),
    );
    assert_eq!(setup.len(), 8);
    assert!(st.add_display(d));
    base + 3
}

#[test]
fn required_globals_checked() {
    assert!(required_globals_ok(true, true, true).is_ok());
    assert_eq!(
        required_globals_ok(false, true, true).err(),
        Some(MissingGlobal::Compositor)
    );
    assert_eq!(
        required_globals_ok(true, false, true).err(),
        Some(MissingGlobal::SharedMemoryService)
    );
    assert_eq!(
        required_globals_ok(true, true, false).err(),
        Some(MissingGlobal::LayerShellManager)
    );
}

#[test]
fn select_outputs_picks_output_devices() {
    let globals = vec![
        GlobalAdvert { name: 1, interface: String::from("wl_compositor") },
        GlobalAdvert { name: 2, interface: String::from("wl_output") },
        GlobalAdvert { name: 3, interface: String::from("wl_shm") },
        GlobalAdvert { name: 4, interface: String::from("wl_output") },
    ];
    assert_eq!(select_outputs(&globals), vec![2, 4]);
}

#[test]
fn added_output_is_bound() {
    let mut st = State::new(true);
    let r = st.handle_event(Event::GlobalAdded { name: 9, interface: String::from("wl_output") });
    assert_eq!(r, Outcome::BindOutput { global_name: 9 });
    let r = st.handle_event(Event::GlobalAdded {
        name: 10,
        interface: String::from("wl_compositor"),
    });
    assert_eq!(r, Outcome::NoAction);
}

#[test]
fn register_duplicate_refused() {
    let mut st = State::new(true);
    assert!(st.register_output(5, 100));
    assert!(!st.register_output(5, 101));
    assert!(!st.register_output(6, 100));
    assert_eq!(st.outputs.len(), 1);
}

#[test]
fn description_fields_accumulate() {
    let mut st = State::new(true);
    assert!(st.register_output(5, 100));
    st.handle_event(Event::Geometry { output_id: 100, x: 10, y: 20 });
    st.handle_event(Event::Name { output_id: 100, name: String::from("DP-1") });
    st.handle_event(Event::Description { output_id: 100, desc: String::from("desk") });
    assert_eq!(st.outputs[0].x, Some(10));
    assert_eq!(st.outputs[0].y, Some(20));
    assert_eq!(st.outputs[0].name.as_deref(), Some("DP-1"));
    assert_eq!(st.outputs[0].desc.as_deref(), Some("desk"));
    // Fields of an unknown identity are ignored without error.
    st.handle_event(Event::Geometry { output_id: 999, x: 1, y: 1 });
    assert_eq!(st.outputs.len(), 1);
    assert_eq!(st.outputs[0].x, Some(10));
}

#[test]
fn setup_requests_exact() {
    let (d, setup) = DisplaySurface::create(100, 5, 201, 202, 203, None);
    assert_eq!(d.width, 0);
    assert_eq!(d.height, 0);
    assert!(!d.configured);
    assert_eq!(
        setup,
        vec![
            Request::SetInputRegion { surface: 201, region: 202 },
            Request::DestroyRegion { region: 202 },
            Request::SetAnchor {
                layer_surface: 203,
                top: true,
                bottom: true,
                left: true,
                right: true,
            },
            Request::SetExclusiveZone { layer_surface: 203, zone: -1 },
            Request::SetMargin { layer_surface: 203, top: 0, right: 0, bottom: 0, left: 0 },
            Request::SetKeyboardInteractivity { layer_surface: 203, enabled: false },
            Request::SetSize { layer_surface: 203, width: 0, height: 0 },
            Request::Commit { surface: 201 },
        ]
    );
}

#[test]
fn scenario_single_output_configure_and_render() {
    let mut st = State::new(true);
    let layer = promote_one(&mut st, 5, 100, 200);
    st.handle_event(Event::Configure {
        layer_surface_id: layer,
        serial: 1,
        width: 1920,
        height: 1080,
    });
    let acks = st.collect_acks();
    assert_eq!(acks, vec![Request::AckConfigure { layer_surface: layer, serial: 1 }]);
    assert_eq!(st.next_dirty(0), Some(0));
    let d = &st.displays[0];
    assert!(d.configured);
    let src = solid_source(64, 64);
    let buf = render_buffer(&src, d.width, d.height);
    assert_eq!(buf.width, 1920);
    assert_eq!(buf.height, 1080);
    assert_eq!(buf.stride, 7680);
    assert_eq!(buf.bytes.len(), 8_294_400);
    let reqs = st.complete_render(0, 301);
    assert_eq!(
        reqs,
        vec![
            Request::Attach { surface: 201, buffer: 301, x: 0, y: 0 },
            Request::Damage { surface: 201, x: 0, y: 0, width: 1920, height: 1080 },
            Request::Commit { surface: 201 },
        ]
    );
    assert!(!st.displays[0].dirty);
    assert_eq!(st.next_dirty(0), None);
    assert_eq!(st.displays[0].buffer_id, Some(301));
}

#[test]
fn scenario_two_outputs_independent() {
    let mut st = State::new(true);
    let layer_a = promote_one(&mut st, 5, 100, 200);
    let layer_b = promote_one(&mut st, 6, 110, 300);
    st.handle_event(Event::Configure {
        layer_surface_id: layer_a,
        serial: 1,
        width: 1920,
        height: 1080,
    });
    st.handle_event(Event::Configure {
        layer_surface_id: layer_b,
        serial: 7,
        width: 2560,
        height: 1440,
    });
    let acks = st.collect_acks();
    assert_eq!(
        acks,
        vec![
            Request::AckConfigure { layer_surface: layer_a, serial: 1 },
            Request::AckConfigure { layer_surface: layer_b, serial: 7 },
        ]
    );
    assert_eq!((st.displays[0].width, st.displays[0].height), (1920, 1080));
    assert_eq!((st.displays[1].width, st.displays[1].height), (2560, 1440));
    let src = solid_source(16, 16);
    let buf_a = render_buffer(&src, st.displays[0].width, st.displays[0].height);
    let buf_b = render_buffer(&src, st.displays[1].width, st.displays[1].height);
    assert_eq!(buf_a.bytes.len(), 8_294_400);
    assert_eq!(buf_b.bytes.len(), 14_745_600);
    assert_eq!(buf_a.stride, 7680);
    assert_eq!(buf_b.stride, 10_240);
}

#[test]
fn scenario_removed_before_ready() {
    let mut st = State::new(true);
    assert!(st.register_output(5, 100));
    let r = st.handle_event(Event::GlobalRemoved { name: 5 });
    assert_eq!(r, Outcome::DroppedPending);
    assert!(st.outputs.is_empty());
    assert!(st.displays.is_empty());
    // The terminal signal of the dropped output finds nothing to promote.
    let r = st.handle_event(Event::Done { output_id: 100 });
    assert_eq!(r, Outcome::NoAction);
}

#[test]
fn scenario_removed_after_ready() {
    let mut st = State::new(true);
    let layer = promote_one(&mut st, 5, 100, 200);
    st.handle_event(Event::Configure {
        layer_surface_id: layer,
        serial: 1,
        width: 800,
        height: 600,
    });
    st.collect_acks();
    st.complete_render(0, 301);
    let r = st.handle_event(Event::GlobalRemoved { name: 5 });
    let requests = match r {
        Outcome::TornDown { requests } => requests,
        other => panic!("expected a teardown, got {:?}", other),
    };
    assert_eq!(
        requests,
        vec![
            Request::DestroyLayerSurface { layer_surface: 203 },
            Request::DestroyViewport { viewport: 204 },
            Request::DestroyBuffer { buffer: 301 },
            Request::DestroySurface { surface: 201 },
        ]
    );
    assert!(st.displays.is_empty());
    // Later events naming the removed identities are ignored without error.
    let r = st.handle_event(Event::Configure {
        layer_surface_id: layer,
        serial: 2,
        width: 100,
        height: 100,
    });
    assert_eq!(r, Outcome::NoAction);
    assert!(st.displays.is_empty());
    let r = st.handle_event(Event::GlobalRemoved { name: 5 });
    assert_eq!(r, Outcome::NoAction);
}

#[test]
fn closed_layer_surface_tears_down() {
    let mut st = State::new(true);
    let layer = promote_one(&mut st, 5, 100, 200);
    let r = st.handle_event(Event::Closed { layer_surface_id: layer });
    let requests = match r {
        Outcome::TornDown { requests } => requests,
        other => panic!("expected a teardown, got {:?}", other),
    };
    // No buffer was ever attached, so only the always-owned objects go.
    assert_eq!(
        requests,
        vec![
            Request::DestroyLayerSurface { layer_surface: 203 },
            Request::DestroyViewport { viewport: 204 },
            Request::DestroySurface { surface: 201 },
        ]
    );
    assert!(st.displays.is_empty());
}

#[test]
fn latest_configure_wins() {
    let mut st = State::new(true);
    let layer = promote_one(&mut st, 5, 100, 200);
    st.handle_event(Event::Configure {
        layer_surface_id: layer,
        serial: 1,
        width: 1920,
        height: 1080,
    });
    st.handle_event(Event::Configure {
        layer_surface_id: layer,
        serial: 2,
        width: 1280,
        height: 720,
    });
    let acks = st.collect_acks();
    // Only the most recent configure is acknowledged and only its size is
    // ever rendered.
    assert_eq!(acks, vec![Request::AckConfigure { layer_surface: layer, serial: 2 }]);
    assert_eq!((st.displays[0].width, st.displays[0].height), (1280, 720));
}

#[test]
fn scenario_zero_size_clamped() {
    let mut st = State::new(true);
    let layer = promote_one(&mut st, 5, 100, 200);
    st.handle_event(Event::Configure { layer_surface_id: layer, serial: 1, width: 0, height: 0 });
    st.collect_acks();
    assert_eq!((st.displays[0].width, st.displays[0].height), (1, 1));
    let src = solid_source(8, 8);
    let buf = render_buffer(&src, st.displays[0].width, st.displays[0].height);
    assert_eq!(buf.bytes.len(), 4);
}

#[test]
fn render_failure_discards_surface() {
    let mut st = State::new(true);
    let layer = promote_one(&mut st, 5, 100, 200);
    st.handle_event(Event::Configure {
        layer_surface_id: layer,
        serial: 1,
        width: 800,
        height: 600,
    });
    st.collect_acks();
    assert_eq!(st.next_dirty(0), Some(0));
    // The buffer for this surface could not be allocated: the output is torn
    // down on its own, and nothing else is tracked any more.
    let requests = st.discard_display(0);
    assert_eq!(
        requests,
        vec![
            Request::DestroyLayerSurface { layer_surface: 203 },
            Request::DestroyViewport { viewport: 204 },
            Request::DestroySurface { surface: 201 },
        ]
    );
    assert!(st.displays.is_empty());
    assert_eq!(st.next_dirty(0), None);
}

#[test]
fn next_dirty_returns_first_dirty() {
    let mut st = State::new(true);
    let layer_a = promote_one(&mut st, 5, 100, 200);
    let layer_b = promote_one(&mut st, 6, 110, 300);
    // Only the second surface receives a configure, so only it is dirty.
    st.handle_event(Event::Configure {
        layer_surface_id: layer_b,
        serial: 1,
        width: 640,
        height: 480,
    });
    st.collect_acks();
    assert_eq!(st.next_dirty(0), Some(1));
    assert_eq!(st.next_dirty(2), None);
    // After the first also becomes dirty, the least dirty index comes first.
    st.handle_event(Event::Configure {
        layer_surface_id: layer_a,
        serial: 2,
        width: 320,
        height: 200,
    });
    st.collect_acks();
    assert_eq!(st.next_dirty(0), Some(0));
}

#[test]
fn viewportless_surface_has_no_viewport_teardown() {
    let mut st = State::new(false);
    assert!(st.register_output(5, 100));
    st.handle_event(Event::Done { output_id: 100 });
    let (d, _setup) = DisplaySurface::create(100, 5, 201, 202, 203, None);
    assert!(st.add_display(d));
    let r = st.handle_event(Event::GlobalRemoved { name: 5 });
    let requests = match r {
        Outcome::TornDown { requests } => requests,
        other => panic!("expected a teardown, got {:?}", other),
    };
    assert_eq!(
        requests,
        vec![
            Request::DestroyLayerSurface { layer_surface: 203 },
            Request::DestroySurface { surface: 201 },
        ]
    );
}
