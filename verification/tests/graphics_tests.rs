use ddnet_core::event::{application_closed, NetworkEventConnectingClosed};
use ddnet_core::errors::{BanType, Banned};
use ddnet_core::graphics::{
    CommandSwitchCanvasModeType, CommandUpdateViewport, GraphicsCanvasHandle, GraphicsCanvasMode,
    GraphicsQuadContainerHandle, GraphicsViewport,
    QuadContainerImpl, QuadContainerRenderCount, WindowSize,
};

#[test]
fn quad_draw_counts() {
    let handle = GraphicsQuadContainerHandle::new("backend", 100u32);
    let c = handle.create_quad_container(
        vec![0u8, 1, 2, 3],
        |q: &u8| vec![*q, *q],
        |_, objects: &u32, bytes: Vec<u8>, n: u64| {
            assert_eq!(bytes, vec![0, 0, 1, 1, 2, 2, 3, 3]);
            objects + bytes.len() as u32 * 10 + n as u32
        },
    );
    assert_eq!(c.quad_buffer_object_index, Some(184));
    assert_eq!(c.render_quad_count(1, &QuadContainerRenderCount::Auto), Some(3));
    assert_eq!(c.render_quad_count(4, &QuadContainerRenderCount::Auto), None);
    assert_eq!(c.render_quad_count(2, &QuadContainerRenderCount::Count(2)), Some(2));
    assert_eq!(c.render_quad_count(3, &QuadContainerRenderCount::Count(2)), None);
    assert!(c.renders_sprite_multiple(5));
    assert!(!c.renders_sprite_multiple(0));
    let empty: QuadContainerImpl<u8, u32> =
        handle.create_quad_container(vec![], |q: &u8| vec![*q], |_, _, _, _| -> u32 {
            panic!("nothing to upload")
        });
    assert_eq!(empty.quad_buffer_object_index, None);
    assert_eq!(empty.render_quad_count(0, &QuadContainerRenderCount::Auto), None);
    assert!(!empty.renders_sprite_multiple(1));
}

#[test]
fn viewport_covering_window_is_dropped() {
    let mut s = GraphicsCanvasHandle::new(WindowSize { window_width: 800, window_height: 600 });
    let cmd = s.update_window_viewport(10, 20, 100, 50);
    assert_eq!(cmd, CommandUpdateViewport { x: 10, y: 20, width: 100, height: 50, by_resize: false });
    assert_eq!(s.dynamic_viewport(), Some(GraphicsViewport { x: 10, y: 20, width: 100, height: 50 }));
    assert_eq!((s.window_width(), s.window_height()), (100, 50));
    s.update_window_viewport(0, 0, 800, 600);
    assert_eq!(s.dynamic_viewport(), None);
    s.update_window_viewport(1, 0, 800, 600);
    let reset = s.reset_window_viewport();
    assert_eq!(reset, CommandUpdateViewport { x: 0, y: 0, width: 800, height: 600, by_resize: false });
    assert_eq!(s.dynamic_viewport(), None);
    let first = s.offscreen_canvas(16, 16);
    assert_eq!(first.get_index_unsafe(), 0);
    let canvas = s.offscreen_canvas(64, 32);
    assert_eq!(canvas.get_index_unsafe(), 1);
    assert_eq!((canvas.width(), canvas.height()), (64, 32));
    let cmd = s.switch_canvas(GraphicsCanvasMode::Offscreen { offscreen_canvas: canvas });
    assert_eq!(cmd, CommandSwitchCanvasModeType::Offscreen { id: 1 });
    assert_eq!((s.window_width(), s.window_height()), (64, 32));
    s.resized(WindowSize { window_width: 1024, window_height: 768 });
    assert_eq!(s.window_props(), WindowSize { window_width: 64, window_height: 32 });
    let cmd = s.switch_canvas(GraphicsCanvasMode::Onscreen);
    assert_eq!(cmd, CommandSwitchCanvasModeType::Onscreen);
    assert_eq!(s.window_props(), WindowSize { window_width: 1024, window_height: 768 });
}

#[test]
fn application_close_codes() {
    assert!(matches!(application_closed(0x400, "afk".into(), None), NetworkEventConnectingClosed::Kicked(r) if r == "afk"));
    assert!(matches!(application_closed(0x402, "bye".into(), None), NetworkEventConnectingClosed::Shutdown(r) if r == "bye"));
    assert!(matches!(application_closed(7, "x".into(), None), NetworkEventConnectingClosed::Other(r) if r == "x"));
    match application_closed(0x401, "garbage".into(), None) {
        NetworkEventConnectingClosed::Banned(Banned { msg: BanType::Custom(m), until: None }) => {
            assert_eq!(m, "unknown reason")
        }
        _ => panic!("expected an unknown ban"),
    }
    match application_closed(0x401, "{}".into(), Some(Banned { msg: BanType::Vpn, until: Some((5, 0)) })) {
        NetworkEventConnectingClosed::Banned(Banned { msg: BanType::Vpn, until: Some((5, 0)) }) => {}
        _ => panic!("expected the parsed ban"),
    }
}

#[test]
fn quads_are_encoded_one_after_another() {
    let quads: Vec<u16> = vec![0x0102, 0x0304, 0x0506];
    let bytes = QuadContainerImpl::<u16, u32>::quads_to_bytes(&quads, |q: &u16| q.to_le_bytes().to_vec());
    assert_eq!(bytes, vec![2, 1, 4, 3, 6, 5]);
    let none: Vec<u16> = vec![];
    assert!(QuadContainerImpl::<u16, u32>::quads_to_bytes(&none, |q: &u16| q.to_le_bytes().to_vec()).is_empty());
}
