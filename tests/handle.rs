use evdi::buffer::{Buffer, BufferID, DirtyRectBounds, Mode, Rect, MAX_RECTS_BUFFER_LEN};
use evdi::handle::{Handle, UpdateAction, UpdateEvent};

fn sample_mode() -> Mode {
    Mode { width: 1024, height: 768, refresh_rate: 60, bits_per_pixel: 32, pixel_format: 0 }
}

fn small_mode() -> Mode {
    Mode { width: 3, height: 2, refresh_rate: 60, bits_per_pixel: 32, pixel_format: 0 }
}

/// A handle that has been told of one mode change, as the driver does after
/// connecting.
fn connect() -> Handle {
    let mut handle = Handle::new();
    handle.mode_changed_handler(sample_mode());
    handle
}

fn one_rect(x1: i32, y1: i32, x2: i32, y2: i32) -> Vec<Rect> {
    let mut rects = vec![Rect { x1: 0, y1: 0, x2: 0, y2: 0 }; MAX_RECTS_BUFFER_LEN];
    rects[0] = Rect { x1, y1, x2, y2 };
    rects
}

/// One update request, with the driver answering "not ready" and then
/// delivering the notification while events are dispatched; the grab writes
/// `fill` into every pixel byte and one rectangle covering the screen.
fn request_update<'a>(handle: &'a mut Handle, id: &BufferID, fill: u8) -> Result<&'a Buffer, ()> {
    handle.request_update(id);
    match handle.update_step(id, UpdateEvent::Answered { ready: false }) {
        UpdateAction::PumpEvents => {},
        _ => return Err(()),
    }
    handle.update_ready_handler(id.0);
    match handle.update_step(id, UpdateEvent::EventsPumped) {
        UpdateAction::Grab => {},
        _ => return Err(()),
    }
    let (w, h, len) = {
        let b = handle.buf_required(id);
        (b.width() as i32, b.height() as i32, b.pixels_len())
    };
    Ok(handle.complete_update(id, &one_rect(0, 0, w, h), 1, &vec![fill; len]))
}

fn get_update(handle: &mut Handle) -> &Buffer {
    let mode = handle.receive_mode().unwrap();
    let buf_id = BufferID::new(1);
    handle.register_buffer(Buffer::new(buf_id, &mode));
    for _ in 0..20 {
        request_update(handle, &buf_id, 0x80).unwrap();
    }
    request_update(handle, &buf_id, 0x80).unwrap()
}

#[test]
fn can_connect() {
    let handle = connect();
    assert!(!handle.is_registered(&BufferID::new(1)));
}

#[test]
fn can_receive_mode() {
    let mut handle = connect();
    let mode = handle.receive_mode().unwrap();
    assert!(mode.height > 100);
}

#[test]
fn can_create_buffer() {
    let mut handle = connect();
    let mode = handle.receive_mode().unwrap();
    let buf = Buffer::new(BufferID(1), &mode);
    assert_eq!(buf.pixels_len(), 1024 * 768 * 4);
    assert_eq!(buf.stride(), 1024 * 4);
    assert_eq!(buf.version(), 0);
    assert_eq!(buf.dirty_rects().len(), 0);
}

#[test]
fn can_register_buffers() {
    let mut handle = connect();
    let mode = handle.receive_mode().unwrap();
    let buf1 = Buffer::new(BufferID(1), &mode);
    let buf2 = Buffer::new(BufferID(2), &mode);
    handle.register_buffer(buf1);
    handle.register_buffer(buf2);
    assert!(handle.is_registered(&BufferID(1)));
    assert!(handle.is_registered(&BufferID(2)));
}

#[test]
fn update_includes_at_least_one_dirty_rect() {
    let mut handle = connect();
    let buf = get_update(&mut handle);
    assert!(buf.dirty_rects().len() > 0);
}

#[test]
fn update_can_be_called_multiple_times() {
    let mut handle = connect();
    let mode = handle.receive_mode().unwrap();
    let buf_id = BufferID::new(1);
    handle.register_buffer(Buffer::new(buf_id, &mode));
    for _ in 0..10 {
        request_update(&mut handle, &buf_id, 0x80).unwrap();
    }
    assert_eq!(handle.buf_required(&buf_id).version(), 10);
}

#[test]
fn bytes_is_non_empty() {
    let mut handle = connect();
    let buf = get_update(&mut handle);
    let rects = buf.dirty_rects();
    let rect = &rects[0];
    let mut total: u32 = 0;
    let mut len: u32 = 0;
    for chunk in rect.bytes().unwrap().into_chunks() {
        for byte in chunk {
            total += byte as u32;
            len += 1;
        }
    }
    let avg = total / len;
    assert!(avg > 10, "avg byte {:?} < 10, suggesting we aren't correctly grabbing the screen", avg);
}

#[test]
fn can_output_debug() {
    let mut handle = connect();
    let buf = get_update(&mut handle);
    let rects = buf.dirty_rects();
    let rect = &rects[0];
    let ppm = rect.debug_ppm().unwrap();
    assert!(ppm.starts_with(b"P6\n1024\n768\n255\n"));
}

#[test]
fn ready_answer_grabs_at_once() {
    let mut handle = Handle::new();
    let id = BufferID::new(4);
    handle.register_buffer(Buffer::new(id, &small_mode()));
    handle.request_update(&id);
    assert_eq!(handle.update_step(&id, UpdateEvent::Answered { ready: true }), UpdateAction::Grab);
}

#[test]
fn no_notification_times_out() {
    let mut handle = Handle::new();
    let id = BufferID::new(4);
    handle.register_buffer(Buffer::new(id, &small_mode()));
    handle.request_update(&id);
    assert_eq!(
        handle.update_step(&id, UpdateEvent::Answered { ready: false }),
        UpdateAction::PumpEvents
    );
    assert_eq!(handle.update_step(&id, UpdateEvent::EventsPumped), UpdateAction::TimedOut);
}

#[test]
fn stale_notification_is_not_reused() {
    let mut handle = Handle::new();
    let id = BufferID::new(4);
    handle.register_buffer(Buffer::new(id, &small_mode()));
    // A late notification from an earlier request.
    assert!(handle.update_ready_handler(4));
    handle.request_update(&id);
    assert_eq!(handle.update_step(&id, UpdateEvent::EventsPumped), UpdateAction::TimedOut);
}

#[test]
fn notification_is_taken_once() {
    let mut handle = Handle::new();
    let id = BufferID::new(4);
    handle.register_buffer(Buffer::new(id, &small_mode()));
    handle.request_update(&id);
    assert!(handle.update_ready_handler(4));
    assert_eq!(handle.update_step(&id, UpdateEvent::EventsPumped), UpdateAction::Grab);
    assert_eq!(handle.update_step(&id, UpdateEvent::EventsPumped), UpdateAction::TimedOut);
}

#[test]
fn notification_for_unknown_buffer_is_dropped() {
    let mut handle = Handle::new();
    handle.register_buffer(Buffer::new(BufferID(1), &small_mode()));
    assert!(!handle.update_ready_handler(9));
    assert!(!handle.is_registered(&BufferID(9)));
}

#[test]
fn request_bumps_version_before_capture_completes() {
    let mut handle = Handle::new();
    let id = BufferID::new(2);
    handle.register_buffer(Buffer::new(id, &small_mode()));
    request_update(&mut handle, &id, 1).unwrap();
    assert_eq!(handle.buf_required(&id).version(), 1);
    handle.request_update(&id);
    assert_eq!(handle.buf_required(&id).version(), 2);
    assert_eq!(handle.update_step(&id, UpdateEvent::EventsPumped), UpdateAction::TimedOut);
    assert_eq!(handle.buf_required(&id).version(), 2);
}

#[test]
fn views_of_current_capture_are_valid() {
    let mut handle = Handle::new();
    let id = BufferID::new(2);
    handle.register_buffer(Buffer::new(id, &small_mode()));
    request_update(&mut handle, &id, 1).unwrap();
    let buf = request_update(&mut handle, &id, 2).unwrap();
    let rects = buf.dirty_rects();
    assert_eq!(rects.len(), 1);
    assert!(rects[0].is_valid());
    assert_eq!(rects[0].bounds(), Some(DirtyRectBounds { x1: 0, y1: 0, x2: 3, y2: 2 }));
}

#[test]
fn bytes_twice_are_identical() {
    let mut handle = Handle::new();
    let id = BufferID::new(2);
    handle.register_buffer(Buffer::new(id, &small_mode()));
    let buf = request_update(&mut handle, &id, 7).unwrap();
    let rects = buf.dirty_rects();
    let a: Vec<Vec<u8>> = rects[0].bytes().unwrap().into_chunks().map(|c| c.to_vec()).collect();
    let b: Vec<Vec<u8>> = rects[0].bytes().unwrap().into_chunks().map(|c| c.to_vec()).collect();
    assert_eq!(a, b);
    assert_eq!(a, vec![vec![7u8; 12], vec![7u8; 12]]);
}

#[test]
fn bytes_span_full_rows_whatever_the_rect() {
    let mut handle = Handle::new();
    let id = BufferID::new(3);
    handle.register_buffer(Buffer::new(id, &small_mode()));
    handle.request_update(&id);
    let pixels: Vec<u8> = (0u8..24).collect();
    let buf = handle.complete_update(&id, &one_rect(1, 1, 2, 2), 1, &pixels);
    let rects = buf.dirty_rects();
    assert_eq!(rects[0].bounds(), Some(DirtyRectBounds { x1: 1, y1: 1, x2: 2, y2: 2 }));
    let chunks: Vec<Vec<u8>> = rects[0].bytes().unwrap().into_chunks().map(|c| c.to_vec()).collect();
    assert_eq!(chunks, vec![(0u8..12).collect::<Vec<u8>>(), (12u8..24).collect::<Vec<u8>>()]);
}

#[test]
fn unregistered_buffer_cannot_be_updated() {
    let mut handle = Handle::new();
    let id = BufferID::new(5);
    handle.register_buffer(Buffer::new(id, &small_mode()));
    assert!(handle.unregister_buffer(id));
    assert!(!handle.is_registered(&id));
    assert!(!handle.unregister_buffer(id));
}

#[test]
fn register_replaces_same_id() {
    let mut handle = Handle::new();
    let id = BufferID::new(5);
    handle.register_buffer(Buffer::new(id, &small_mode()));
    handle.request_update(&id);
    assert_eq!(handle.buf_required(&id).version(), 1);
    handle.register_buffer(Buffer::new(id, &sample_mode()));
    assert_eq!(handle.buf_required(&id).version(), 0);
    assert_eq!(handle.buf_required(&id).width(), 1024);
}

#[test]
fn receive_mode_without_events_times_out() {
    let mut handle = Handle::new();
    assert_eq!(handle.receive_mode(), None);
}

#[test]
fn modes_are_received_in_order() {
    let mut handle = Handle::new();
    handle.mode_changed_handler(small_mode());
    handle.mode_changed_handler(sample_mode());
    assert_eq!(handle.receive_mode(), Some(small_mode()));
    assert_eq!(handle.receive_mode(), Some(sample_mode()));
    assert_eq!(handle.receive_mode(), None);
}

#[test]
fn no_rects_before_first_capture() {
    let buf = Buffer::new(BufferID(1), &small_mode());
    assert_eq!(buf.dirty_rects().len(), 0);
}

#[test]
fn count_of_rects_follows_grab() {
    let mut handle = Handle::new();
    let id = BufferID::new(6);
    handle.register_buffer(Buffer::new(id, &small_mode()));
    handle.request_update(&id);
    let mut rects = one_rect(0, 0, 1, 1);
    rects[1] = Rect { x1: 1, y1: 0, x2: 3, y2: 2 };
    let buf = handle.complete_update(&id, &rects, 2, &vec![0u8; 24]);
    let views = buf.dirty_rects();
    assert_eq!(views.len(), 2);
    let b = views[1].bounds().unwrap();
    assert_eq!((b.width(), b.height()), (2, 2));
}

#[test]
fn bounds_width_and_height() {
    let b = DirtyRectBounds::new(Rect { x1: 10, y1: 20, x2: 110, y2: 70 });
    assert_eq!(b.width(), 100);
    assert_eq!(b.height(), 50);
}

#[test]
fn updated_buffer_has_requested_id() {
    let mut handle = Handle::new();
    handle.register_buffer(Buffer::new(BufferID(7), &small_mode()));
    handle.register_buffer(Buffer::new(BufferID(8), &small_mode()));
    let buf = request_update(&mut handle, &BufferID(8), 3).unwrap();
    assert_eq!(buf.id(), BufferID(8));
    assert_eq!(handle.buf_required(&BufferID(7)).version(), 0);
}

#[test]
fn rows_fit_for_bgra_modes() {
    assert!(Buffer::new(BufferID(1), &small_mode()).rows_fit());
    assert!(Buffer::new(BufferID(1), &sample_mode()).rows_fit());
    let narrow = Mode { width: 3, height: 2, refresh_rate: 60, bits_per_pixel: 16, pixel_format: 0 };
    assert!(!Buffer::new(BufferID(1), &narrow).rows_fit());
}
