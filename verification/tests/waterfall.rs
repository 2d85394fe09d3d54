use maia_sdr::waterfall::{
    frequency_counts, frequency_label_indices, frequency_tick_indices, zoom_counts, LineRange,
    LineUploads, WaterfallLines, ZoomCounts, TEXTURE_HEIGHT,
};

#[test]
fn label_indices_form_two_triangles_per_label() {
    assert_eq!(
        frequency_label_indices(2),
        vec![0, 1, 2, 1, 2, 3, 4, 5, 6, 5, 6, 7]
    );
}

#[test]
fn label_indices_empty() {
    assert!(frequency_label_indices(0).is_empty());
}

#[test]
fn label_indices_reach_last_u16() {
    let indices = frequency_label_indices(16384);
    assert_eq!(indices.len(), 6 * 16384);
    assert_eq!(&indices[indices.len() - 6..], &[65532, 65533, 65534, 65533, 65534, 65535]);
}

#[test]
fn tick_indices_count_up() {
    assert_eq!(frequency_tick_indices(4), vec![0, 1, 2, 3]);
}

#[test]
fn tick_indices_wrap_at_u16() {
    let indices = frequency_tick_indices(65538);
    assert_eq!(indices[65535], 65535);
    assert_eq!(indices[65536], 0);
    assert_eq!(indices[65537], 1);
}

#[test]
fn first_render_uploads_all_but_the_first_line() {
    let mut w = WaterfallLines::new();
    assert_eq!(
        w.render_uploads(),
        LineUploads { tail: None, head: Some(LineRange { start: 1, lines: TEXTURE_HEIGHT - 1 }) }
    );
    assert_eq!(w.render_uploads(), LineUploads { tail: None, head: None });
}

#[test]
fn lines_written_between_renders_are_uploaded() {
    let mut w = WaterfallLines::new();
    w.render_uploads();
    assert_eq!(w.put_line(), 0);
    assert_eq!(w.put_line(), 1);
    assert_eq!(w.put_line(), 2);
    assert_eq!(
        w.render_uploads(),
        LineUploads { tail: None, head: Some(LineRange { start: 0, lines: 3 }) }
    );
}

#[test]
fn uploads_wrap_around_the_texture() {
    let mut w = WaterfallLines::new();
    for _ in 0..TEXTURE_HEIGHT - 2 {
        w.put_line();
    }
    // the last spectrum went to line TEXTURE_HEIGHT - 3
    w.render_uploads();
    let mut written = Vec::new();
    for _ in 0..5 {
        written.push(w.put_line());
    }
    assert_eq!(written, vec![TEXTURE_HEIGHT - 2, TEXTURE_HEIGHT - 1, 0, 1, 2]);
    assert_eq!(
        w.render_uploads(),
        LineUploads {
            tail: Some(LineRange { start: TEXTURE_HEIGHT - 2, lines: 2 }),
            head: Some(LineRange { start: 0, lines: 3 }),
        }
    );
}

#[test]
fn wrap_exactly_at_the_end_has_no_tail() {
    let mut w = WaterfallLines::new();
    // last uploaded line: TEXTURE_HEIGHT - 1
    w.render_uploads();
    w.put_line();
    assert_eq!(
        w.render_uploads(),
        LineUploads { tail: None, head: Some(LineRange { start: 0, lines: 1 }) }
    );
}

#[test]
fn frequency_counts_per_level() {
    let (counts, radixes) = frequency_counts(3, true);
    assert_eq!(counts, vec![3, 15, 31, 155, 311, 1555, 3111]);
    assert_eq!(radixes, vec![5, 2, 5, 2, 5, 2]);
    let (counts, radixes) = frequency_counts(3, false);
    assert_eq!(counts, vec![3, 7, 35, 71, 355, 711, 3555]);
    assert_eq!(radixes, vec![2, 5, 2, 5, 2, 5]);
    let (counts, _) = frequency_counts(0, false);
    assert_eq!(counts, vec![0; 7]);
}

#[test]
fn zoom_counts_per_level() {
    let (counts, radixes) = frequency_counts(3, true);
    assert_eq!(
        zoom_counts(0, &counts, &radixes),
        ZoomCounts { label_indices: 18, tick_indices: 30, major_ticks_end: 6 }
    );
    assert_eq!(
        zoom_counts(1, &counts, &radixes),
        ZoomCounts { label_indices: 90, tick_indices: 310, major_ticks_end: 62 }
    );
}
