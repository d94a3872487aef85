use ddnet_core::render_setup::{
    offscreen_compile_type, onscreen_compile_type, CompileOneByOneType, FrameCanvasIndex,
    RenderSetup,
};
use std::sync::Arc;

#[test]
fn starts_onscreen() {
    let r = RenderSetup::new(Arc::new("onscreen".to_string()));
    assert_eq!(r.cur_canvas(), FrameCanvasIndex::Onscreen);
    assert_eq!(r.get().as_str(), "onscreen");
    assert!(r.offscreens.is_empty());
}

#[test]
fn switch_to_offscreen_and_back_with_new_frame() {
    let mut r = RenderSetup::new(Arc::new("onscreen".to_string()));
    r.create_offscreen_canvas(7, Arc::new("seven".to_string()));
    let mut frame_setups: Vec<Arc<String>> = Vec::new();
    r.switch_canvas(FrameCanvasIndex::Offscreen(7), &mut frame_setups);
    assert_eq!(r.cur_canvas(), FrameCanvasIndex::Offscreen(7));
    assert_eq!(r.get().as_str(), "seven");
    assert_eq!(frame_setups.len(), 1);
    assert!(Arc::ptr_eq(&frame_setups[0], r.get()));

    r.switch_canvas(FrameCanvasIndex::Onscreen, &mut frame_setups);
    assert_eq!(frame_setups.len(), 1);
    assert_eq!(r.get().as_str(), "onscreen");

    r.switch_canvas(FrameCanvasIndex::Offscreen(7), &mut frame_setups);
    r.new_frame();
    assert_eq!(r.cur_canvas(), FrameCanvasIndex::Onscreen);
    assert_eq!(frame_setups.len(), 2);
}

#[test]
fn destroyed_canvas_is_gone() {
    let mut r = RenderSetup::new(Arc::new(0u32));
    r.create_offscreen_canvas(1, Arc::new(1));
    r.create_offscreen_canvas(2, Arc::new(2));
    r.destroy_offscreen_canvas(1);
    assert!(!r.offscreens.contains_key(&1));
    assert_eq!(**r.get_of_frame(FrameCanvasIndex::Offscreen(2)), 2);
    assert_eq!(**r.get_of_frame(FrameCanvasIndex::Onscreen), 0);
}

#[test]
fn compile_modes() {
    assert_eq!(
        onscreen_compile_type(true, true),
        CompileOneByOneType::CompileAndQueueFullCompile
    );
    assert_eq!(onscreen_compile_type(true, false), CompileOneByOneType::Compile);
    assert_eq!(onscreen_compile_type(false, true), CompileOneByOneType::NotOneByOne);
    assert_eq!(onscreen_compile_type(false, false), CompileOneByOneType::NotOneByOne);
    assert_eq!(
        offscreen_compile_type(true),
        CompileOneByOneType::CompileAndQueueFullCompile
    );
    assert_eq!(offscreen_compile_type(false), CompileOneByOneType::Compile);
}
