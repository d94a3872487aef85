use ddnet_core::client::{DummyControlState, DummyHammerState, LoadingPage, UiRenderPipe};
use ddnet_core::graphics::{ColorWriteMaskType, StencilOpType};
use ddnet_core::scene_handle::SoundSceneHandle;
use ddnet_core::wasm_runtime_types::MemoryLimit;
use std::time::Duration;

#[test]
fn memory_limits() {
    assert_eq!(MemoryLimit::OneMebiByte.limit(), 1024 * 1024);
    assert_eq!(MemoryLimit::TenMebiBytes.limit(), 10 * 1024 * 1024);
    assert_eq!(MemoryLimit::OneGibiByte.limit(), 1024 * 1024 * 1024);
}

#[test]
fn scene_ids_are_consecutive() {
    let mut h = SoundSceneHandle::new("backend");
    let a = h.create(1u8);
    let b = h.create(2u8);
    assert_eq!((a.id, a.props, a.backend_handle), (0, 1, "backend"));
    assert_eq!(b.id, 1);
    assert_eq!(h.next_offair_id(), 0);
    assert_eq!(h.next_offair_id(), 1);
    assert_eq!(h.create(()).id, 2);
}

#[test]
fn pipeline_variants() {
    assert_eq!(StencilOpType::default(), StencilOpType::NoStencil);
    assert_eq!(StencilOpType::from_index(2), Some(StencilOpType::OnlyWhenPassed));
    assert_eq!(StencilOpType::from_index(4), None);
    assert_eq!(ColorWriteMaskType::default(), ColorWriteMaskType::All);
    assert_eq!(ColorWriteMaskType::from_index(3), Some(ColorWriteMaskType::NoChannel));
}

#[test]
fn client_defaults() {
    let d = DummyControlState::default();
    assert!(!d.dummy_copy_moves);
    assert!(matches!(d.dummy_hammer, DummyHammerState::Inactive));
    let _ = LoadingPage::new();
    let mut data = 5u32;
    let pipe = UiRenderPipe::new(Duration::from_secs(1), &mut data);
    *pipe.user_data += 1;
    assert_eq!(pipe.cur_time, Duration::from_secs(1));
    assert_eq!(data, 6);
}
