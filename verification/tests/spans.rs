use stage2d::{
    draw_ranges, fan_triangles, quad_triangles, BlendMode, DrawCall, DrawRange, RenderPass, Stage,
    TextureInfo, TextureKey,
};

type TestStage = Stage<u32, (i32, i32), ()>;

fn starts(stage: &TestStage) -> Vec<u32> {
    stage.render_passes()[0].draw_calls.iter().map(|call| call.start_instance).collect()
}

fn texture(key: u64) -> TextureInfo {
    TextureInfo::new(TextureKey(key), 64, 32)
}

#[test]
fn new_stage_has_one_default_span() {
    let stage = TestStage::new((0, 0));
    let passes = stage.render_passes();
    assert_eq!(passes.len(), 1);
    assert_eq!(passes[0].start_instance, 0);
    assert_eq!(
        passes[0].draw_calls,
        vec![DrawCall { start_instance: 0, set_blend_mode: None, set_texture: None }]
    );
    assert_eq!(stage.instance_count(), 0);
    assert_eq!(stage.get_blend_mode(), BlendMode::Normal);
    assert_eq!(stage.get_texture(), None);
}

#[test]
fn blend_mode_change_opens_a_span() {
    let mut stage = TestStage::new((0, 0));
    stage.tri(1);
    stage.tri(2);
    stage.set_blend_mode(BlendMode::Additive);
    stage.tri(3);
    let passes = stage.render_passes();
    assert_eq!(passes.len(), 1);
    assert_eq!(passes[0].draw_calls.len(), 2);
    assert_eq!(passes[0].draw_calls[1].start_instance, 2);
    assert_eq!(passes[0].draw_calls[1].set_blend_mode, Some(BlendMode::Additive));
    assert_eq!(passes[0].draw_calls[1].set_texture, None);
    assert_eq!(stage.get_blend_mode(), BlendMode::Additive);
}

#[test]
fn repeated_blend_mode_is_one_transition() {
    let mut stage = TestStage::new((0, 0));
    stage.tri(1);
    stage.set_blend_mode(BlendMode::Additive);
    let once = stage.render_passes()[0].draw_calls.clone();
    stage.set_blend_mode(BlendMode::Additive);
    assert_eq!(stage.render_passes()[0].draw_calls, once);
    assert_eq!(once.len(), 2);
}

#[test]
fn requesting_the_active_blend_mode_changes_nothing() {
    let mut stage = TestStage::new((0, 0));
    stage.tri(1);
    stage.set_blend_mode(BlendMode::Normal);
    assert_eq!(stage.render_passes()[0].draw_calls.len(), 1);
}

#[test]
fn repeated_texture_is_one_transition() {
    let mut stage = TestStage::new((0, 0));
    stage.tri(1);
    stage.set_texture(texture(7));
    stage.set_texture(texture(7));
    let calls = &stage.render_passes()[0].draw_calls;
    assert_eq!(calls.len(), 2);
    assert_eq!(calls[1].start_instance, 1);
    assert_eq!(calls[1].set_texture, Some(TextureKey(7)));
    assert_eq!(calls[1].set_blend_mode, None);
    assert_eq!(stage.get_texture(), Some(texture(7)));
}

#[test]
fn texture_of_other_size_is_another_texture() {
    let mut stage = TestStage::new((0, 0));
    stage.tri(1);
    stage.set_texture(TextureInfo::new(TextureKey(7), 64, 32));
    stage.tri(2);
    stage.set_texture(TextureInfo::new(TextureKey(7), 64, 33));
    assert_eq!(starts(&stage), vec![0, 1, 2]);
}

#[test]
fn span_starts_strictly_increase() {
    let mut stage = TestStage::new((0, 0));
    stage.set_blend_mode(BlendMode::Additive);
    stage.set_texture(texture(1));
    stage.tri(1);
    stage.set_blend_mode(BlendMode::Normal);
    stage.set_texture(texture(2));
    stage.set_blend_mode(BlendMode::Additive);
    stage.tri(2);
    stage.tri(3);
    stage.set_texture(texture(3));
    let seen = starts(&stage);
    assert_eq!(seen, vec![0, 1, 3]);
    assert!(seen.windows(2).all(|pair| pair[0] < pair[1]));
}

#[test]
fn changes_at_one_instance_share_a_span() {
    let mut stage = TestStage::new((0, 0));
    stage.tri(1);
    stage.set_blend_mode(BlendMode::Additive);
    stage.set_texture(texture(9));
    let calls = &stage.render_passes()[0].draw_calls;
    assert_eq!(calls.len(), 2);
    assert_eq!(
        calls[1],
        DrawCall {
            start_instance: 1,
            set_blend_mode: Some(BlendMode::Additive),
            set_texture: Some(TextureKey(9)),
        }
    );
}

#[test]
fn change_before_any_instance_goes_into_the_first_span() {
    let mut stage = TestStage::new((0, 0));
    stage.set_blend_mode(BlendMode::Additive);
    assert_eq!(
        stage.render_passes()[0].draw_calls,
        vec![DrawCall {
            start_instance: 0,
            set_blend_mode: Some(BlendMode::Additive),
            set_texture: None
        }]
    );
}

#[test]
fn later_change_at_one_instance_replaces_the_earlier() {
    let mut stage = TestStage::new((0, 0));
    stage.tri(1);
    stage.set_blend_mode(BlendMode::Additive);
    stage.set_blend_mode(BlendMode::Normal);
    let calls = &stage.render_passes()[0].draw_calls;
    assert_eq!(calls.len(), 2);
    assert_eq!(calls[1].set_blend_mode, Some(BlendMode::Normal));
    assert_eq!(stage.get_blend_mode(), BlendMode::Normal);
}

#[test]
fn tri_appends_exactly_one_instance() {
    let mut stage = TestStage::new((0, 0));
    stage.tri(41);
    assert_eq!(stage.instance_buffer(), &vec![41]);
    stage.tri(42);
    assert_eq!(stage.instance_buffer(), &vec![41, 42]);
    assert_eq!(stage.instance_count(), 2);
}

#[test]
fn tris_appends_in_order() {
    let mut stage = TestStage::new((0, 0));
    stage.tri(1);
    stage.tris(vec![2, 3, 4]);
    stage.tris(vec![]);
    assert_eq!(stage.instance_buffer(), &vec![1, 2, 3, 4]);
}

#[test]
fn rect_then_additive_ellipse() {
    let mut stage = TestStage::new((0, 0));
    for _ in quad_triangles() {
        stage.tri(0);
    }
    stage.set_blend_mode(BlendMode::Additive);
    let point_count = 17;
    for _ in fan_triangles(point_count) {
        stage.tri(1);
    }
    assert_eq!(stage.instance_count() as usize, 2 + point_count - 2);
    let calls = &stage.render_passes()[0].draw_calls;
    assert_eq!(calls.len(), 2);
    assert_eq!(calls[1].start_instance, 2);
    assert_eq!(calls[1].set_blend_mode, Some(BlendMode::Additive));
}

#[test]
fn start_resets_the_spans() {
    let mut stage = TestStage::new((0, 0));
    stage.tri(1);
    stage.set_blend_mode(BlendMode::Additive);
    stage.set_texture(texture(3));
    stage.tri(2);
    stage.start((0, 0), &|_| false);
    assert_eq!(stage.instance_count(), 0);
    assert_eq!(stage.get_blend_mode(), BlendMode::Normal);
    assert_eq!(stage.get_texture(), None);
    assert_eq!(
        stage.render_passes()[0].draw_calls,
        vec![DrawCall { start_instance: 0, set_blend_mode: None, set_texture: None }]
    );
    stage.set_blend_mode(BlendMode::Additive);
    assert_eq!(stage.render_passes()[0].draw_calls.len(), 1);
    assert_eq!(
        stage.render_passes()[0].draw_calls[0].set_blend_mode,
        Some(BlendMode::Additive)
    );
}

fn call(start: u32, blend: Option<BlendMode>, tex: Option<u64>) -> DrawCall {
    DrawCall { start_instance: start, set_blend_mode: blend, set_texture: tex.map(TextureKey) }
}

fn range(pass: usize, start: u32, end: u32, blend: Option<BlendMode>, tex: Option<u64>) -> DrawRange {
    DrawRange { pass, start, end, set_blend_mode: blend, set_texture: tex.map(TextureKey) }
}

#[test]
fn ranges_pair_each_span_with_the_next_start() {
    let passes = vec![RenderPass {
        start_instance: 0,
        draw_calls: vec![
            call(0, None, None),
            call(2, Some(BlendMode::Additive), None),
            call(5, None, Some(4)),
        ],
    }];
    assert_eq!(
        draw_ranges(&passes, 9),
        vec![
            range(0, 0, 2, None, None),
            range(0, 2, 5, Some(BlendMode::Additive), None),
            range(0, 5, 9, None, Some(4)),
        ]
    );
}

#[test]
fn ranges_skip_empty_spans() {
    let passes = vec![RenderPass {
        start_instance: 0,
        draw_calls: vec![call(0, None, None), call(3, Some(BlendMode::Additive), None)],
    }];
    assert_eq!(draw_ranges(&passes, 3), vec![range(0, 0, 3, None, None)]);
    let passes = vec![RenderPass {
        start_instance: 0,
        draw_calls: vec![
            call(0, None, None),
            call(0, Some(BlendMode::Additive), None),
            call(4, None, None),
            call(4, None, Some(1)),
        ],
    }];
    assert_eq!(
        draw_ranges(&passes, 6),
        vec![range(0, 0, 4, Some(BlendMode::Additive), None), range(0, 4, 6, None, Some(1))]
    );
}

#[test]
fn ranges_of_an_empty_frame() {
    let passes =
        vec![RenderPass { start_instance: 0, draw_calls: vec![call(0, None, None)] }];
    assert_eq!(draw_ranges(&passes, 0), vec![]);
    assert_eq!(draw_ranges(&vec![], 5), vec![]);
}

#[test]
fn ranges_end_at_the_next_pass() {
    let passes = vec![
        RenderPass {
            start_instance: 0,
            draw_calls: vec![call(0, None, None), call(2, Some(BlendMode::Additive), None)],
        },
        RenderPass { start_instance: 4, draw_calls: vec![call(4, None, Some(8))] },
        RenderPass { start_instance: 7, draw_calls: vec![call(7, None, None)] },
        RenderPass { start_instance: 7, draw_calls: vec![call(7, None, Some(2))] },
    ];
    assert_eq!(
        draw_ranges(&passes, 10),
        vec![
            range(0, 0, 2, None, None),
            range(0, 2, 4, Some(BlendMode::Additive), None),
            range(1, 4, 7, None, Some(8)),
            range(3, 7, 10, None, Some(2)),
        ]
    );
}

#[test]
fn ranges_of_a_drawn_stage() {
    let mut stage = TestStage::new((0, 0));
    stage.tri(1);
    stage.tri(2);
    stage.set_blend_mode(BlendMode::Additive);
    stage.tri(3);
    stage.set_texture(texture(5));
    assert_eq!(
        draw_ranges(stage.render_passes(), stage.instance_count()),
        vec![range(0, 0, 2, None, None), range(0, 2, 3, Some(BlendMode::Additive), None)]
    );
}

#[test]
fn texture_info_getters() {
    let info = TextureInfo::new(TextureKey(12), 640, 480);
    assert_eq!(info.key(), TextureKey(12));
    assert_eq!(info.width(), 640);
    assert_eq!(info.height(), 480);
}
