use ddnet_core::ui_textures::{rgba_bytes, TextureOp, UiTextureId, UiTextures};

#[test]
fn whole_images_create_textures_and_regions_update_them() {
    let mut t = UiTextures::new();
    let font = UiTextureId::Managed(0);
    assert_eq!(t.apply_set(font, true), TextureOp::Create);
    assert!(t.contains(font));
    assert_eq!(t.apply_set(font, false), TextureOp::Update);
    assert_eq!(t.ids.len(), 1);
    // a whole image for an existing id replaces the texture
    assert_eq!(t.apply_set(font, true), TextureOp::Create);
    assert_eq!(t.ids, vec![font]);
    let user = UiTextureId::User(7);
    assert_eq!(t.apply_set(user, true), TextureOp::Create);
    assert_eq!(t.ids.len(), 2);
}

#[test]
fn freed_textures_are_forgotten() {
    let mut t = UiTextures::new();
    t.apply_set(UiTextureId::Managed(1), true);
    t.apply_set(UiTextureId::Managed(2), true);
    t.remove(UiTextureId::Managed(1));
    assert!(!t.contains(UiTextureId::Managed(1)));
    assert!(t.contains(UiTextureId::Managed(2)));
    // freeing an unknown id changes nothing
    t.remove(UiTextureId::User(1));
    assert_eq!(t.ids, vec![UiTextureId::Managed(2)]);
}

#[test]
fn pixels_are_laid_out_four_bytes_each() {
    let px = vec![[1u8, 2, 3, 4], [250, 251, 252, 253]];
    assert_eq!(rgba_bytes(&px), vec![1, 2, 3, 4, 250, 251, 252, 253]);
    assert_eq!(rgba_bytes(&Vec::new()), Vec::<u8>::new());
}
