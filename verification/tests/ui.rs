use maia_sdr::json::{Error, ErrorAction, RecorderState, RecorderStateChange};
use maia_sdr::ui::recorder::{recorder_button_class, recorder_button_click, recorder_button_text};
use maia_sdr::pointer::{PinchPoints, PointerGesture, PointerSample, PointerTracker};
use maia_sdr::render::texture_units::{TextureBinding, TextureUnits};
use maia_sdr::render::uniform::Uniform;
use maia_sdr::render::ProgramSource;
use maia_sdr::ui::{patch, request};
use wasm_bindgen::JsValue;

#[test]
fn uniform_holds_the_last_value() {
    let mut u = Uniform::new("u_zoom".to_string(), 1.5f32);
    assert_eq!(u.name(), "u_zoom");
    assert_eq!(u.get_data(), 1.5);
    u.set_data(2.0);
    assert_eq!(u.get_data(), 2.0);
    assert_eq!(u.name(), "u_zoom");
    let u = Uniform::new("u_size".to_string(), (3u32, 4u32));
    assert_eq!(u.get_data(), (3, 4));
}

#[test]
fn program_source_holds_both_shaders() {
    let p = ProgramSource { vertex_shader: "v", fragment_shader: "f" };
    let q = p;
    assert_eq!(q.vertex_shader, "v");
    assert_eq!(q.fragment_shader, "f");
}

#[test]
fn patch_results() {
    assert!(patch::ignore_request_failed::<u32>(Ok(3)).is_ok());
    assert!(patch::ignore_request_failed::<u32>(Err(patch::PatchError::RequestFailed("x".to_string()))).is_ok());
    assert!(patch::ignore_request_failed::<u32>(Err(patch::PatchError::OtherError(JsValue::NULL))).is_err());
    assert!(matches!(patch::PatchError::from(JsValue::NULL), patch::PatchError::OtherError(_)));
}

#[test]
fn request_results() {
    assert!(matches!(request::ignore_request_failed::<u32>(Ok(3)), Ok(Some(3))));
    let failed = Error {
        http_status_code: 400,
        error_description: "bad".to_string(),
        suggested_action: ErrorAction::Alert,
    };
    assert!(matches!(
        request::ignore_request_failed::<u32>(Err(request::RequestError::RequestFailed(failed))),
        Ok(None)
    ));
    assert!(request::ignore_request_failed::<u32>(Err(request::RequestError::OtherError(JsValue::NULL))).is_err());
    assert!(matches!(request::RequestError::from(JsValue::NULL), request::RequestError::OtherError(_)));
}

#[test]
fn texture_units_round_robin() {
    let mut units = TextureUnits::new(2);
    assert_eq!(units.bind_texture(10), TextureBinding::Load(0));
    assert_eq!(units.bind_texture(10), TextureBinding::Activate(0));
    assert_eq!(units.bind_texture(20), TextureBinding::Load(1));
    assert_eq!(units.bind_texture(30), TextureBinding::Load(0));
    assert_eq!(units.find_texture_unit(10), None);
    assert_eq!(units.find_texture_unit(30), Some(0));
    assert_eq!(units.find_texture_unit(20), Some(1));
    assert_eq!(units.load_texture(40), 1);
    assert_eq!(units.find_texture_unit(20), None);
}

fn sample(pointer_id: i32, client_x: i32, client_y: i32) -> PointerSample {
    PointerSample { pointer_id, client_x, client_y }
}

#[test]
fn pointer_drag_and_pinch() {
    let mut t = PointerTracker::new();
    assert!(!t.has_active_pointers());
    // a move before any pointer down makes no gesture
    assert_eq!(t.on_pointer_move(sample(1, 0, 0)), None);
    t.on_pointer_down(sample(1, 10, 10));
    assert!(t.has_active_pointers());
    assert_eq!(
        t.on_pointer_move(sample(1, 15, 12)),
        Some(PointerGesture::Drag { dx: 5, dy: 2, x0: 10, y0: 10, series_id: 0 })
    );
    assert_eq!(
        t.on_pointer_move(sample(1, 14, 12)),
        Some(PointerGesture::Drag { dx: -1, dy: 0, x0: 15, y0: 12, series_id: 0 })
    );
    // a move of a pointer that is not followed makes no gesture
    assert_eq!(t.on_pointer_move(sample(7, 0, 0)), None);
    t.on_pointer_down(sample(2, 100, 100));
    assert_eq!(
        t.on_pointer_move(sample(2, 110, 100)),
        Some(PointerGesture::Pinch {
            center: (57, 56),
            points: PinchPoints { same: (100, 100), other: (14, 12), new: (110, 100) },
            series_id: 0,
        })
    );
    // a third pointer is not followed
    t.on_pointer_down(sample(3, 0, 0));
    assert_eq!(t.on_pointer_move(sample(3, 1, 1)), None);
    t.on_pointer_up(sample(1, 0, 0));
    assert!(t.has_active_pointers());
    assert_eq!(
        t.on_pointer_move(sample(2, 111, 101)),
        Some(PointerGesture::Drag { dx: 1, dy: 1, x0: 110, y0: 100, series_id: 1 })
    );
    t.on_pointer_up(sample(2, 0, 0));
    assert!(!t.has_active_pointers());
    // a new pointer starts a new series
    t.on_pointer_down(sample(4, 0, 0));
    assert_eq!(
        t.on_pointer_move(sample(4, 0, 3)),
        Some(PointerGesture::Drag { dx: 0, dy: 3, x0: 0, y0: 0, series_id: 2 })
    );
}

#[test]
fn pointer_drag_across_the_whole_range() {
    let mut t = PointerTracker::new();
    t.on_pointer_down(sample(3, i32::MAX, -1));
    let g = t.on_pointer_move(sample(3, 0, i32::MIN));
    assert_eq!(
        g,
        Some(PointerGesture::Drag { dx: -i32::MAX, dy: i32::MIN + 1, x0: i32::MAX, y0: -1, series_id: 0 })
    );
}

#[test]
fn recorder_button_follows_the_state() {
    assert_eq!(recorder_button_text(RecorderState::Stopped), "Record");
    assert_eq!(recorder_button_text(RecorderState::Running), "Stop");
    assert_eq!(recorder_button_text(RecorderState::Stopping), "Stopping");
    assert_eq!(recorder_button_class(RecorderState::Stopped), "record_button");
    assert_eq!(recorder_button_class(RecorderState::Running), "stop_button");
    assert_eq!(recorder_button_class(RecorderState::Stopping), "stopping_button");
    assert_eq!(recorder_button_click("Record"), Ok(Some(RecorderStateChange::Start)));
    assert_eq!(recorder_button_click("Stop"), Ok(Some(RecorderStateChange::Stop)));
    assert_eq!(recorder_button_click("Stopping"), Ok(None));
    assert_eq!(recorder_button_click("record"), Err(()));
}

#[test]
fn pinch_center_is_the_mean_point() {
    let mut t = PointerTracker::new();
    t.on_pointer_down(sample(1, -3, 10));
    t.on_pointer_down(sample(2, 0, 20));
    match t.on_pointer_move(sample(1, -5, 11)) {
        Some(PointerGesture::Pinch { center, .. }) => assert_eq!(center, (-2, 15)),
        g => panic!("expected a pinch, got {g:?}"),
    }
    let mut t = PointerTracker::new();
    t.on_pointer_down(sample(1, i32::MAX, i32::MIN));
    t.on_pointer_down(sample(2, i32::MAX, i32::MIN));
    match t.on_pointer_move(sample(2, 0, 0)) {
        Some(PointerGesture::Pinch { center, .. }) => assert_eq!(center, (i32::MAX, i32::MIN)),
        g => panic!("expected a pinch, got {g:?}"),
    }
}
