use turbo_vision::geometry::Rect;
use turbo_vision::views::kitty_image::{ImageIds, KittyImage};

#[test]
fn the_image_data_is_sent_base64_encoded() {
    let mut ids = ImageIds::new();
    let image = KittyImage::from_bytes(Rect::new(0, 0, 10, 5), b"Man".to_vec(), &mut ids);
    assert_eq!(image.image_id(), 1);
    let seq = image.build_transmit_sequence();
    let mut expected = b"\x1b_Ga=t,f=100,t=d,i=1,q=2,m=0;".to_vec();
    expected.extend_from_slice(b"TWFu");
    expected.extend_from_slice(b"\x1b\\");
    assert_eq!(seq, expected);
}

#[test]
fn a_short_last_group_is_padded() {
    let mut ids = ImageIds::new();
    let _ = ids.take();
    let image = KittyImage::from_bytes(Rect::new(0, 0, 10, 5), b"Ma".to_vec(), &mut ids);
    assert_eq!(image.image_id(), 2);
    let seq = image.build_transmit_sequence();
    let mut expected = b"\x1b_Ga=t,f=100,t=d,i=2,q=2,m=0;".to_vec();
    expected.extend_from_slice(b"TWE=");
    expected.extend_from_slice(b"\x1b\\");
    assert_eq!(seq, expected);
}
