use turbo_vision::draw::{Attr, Cell};
use turbo_vision::geometry::Rect;
use turbo_vision::views::ansi_background::{AnsiBackground, AnsiBackgroundBuilder, AnsiImage};

fn img() -> AnsiImage {
    let a = Attr::from_u8(0x1F);
    AnsiImage::from_lines(vec![vec![Cell::new('A', a), Cell::new('B', a)], vec![Cell::new('C', a)]])
}

#[test]
fn the_picture_is_centred_over_the_default_colour() {
    let def = Attr::from_u8(0x07);
    let bg = AnsiBackground::new(Rect::new(0, 0, 6, 4), img(), def);
    let rows = bg.draw();
    assert_eq!(rows.len(), 4);
    assert_eq!(rows[1].buf.data[2].ch, 'A');
    assert_eq!(rows[1].buf.data[3].ch, 'B');
    assert_eq!(rows[2].buf.data[2].ch, 'C');
    assert_eq!(rows[0].buf.data[2], Cell::new(' ', def));
    assert_eq!(rows[2].buf.data[3], Cell::new(' ', def));
}

#[test]
fn without_centring_the_picture_sits_in_the_corner() {
    let def = Attr::from_u8(0x07);
    let bg = AnsiBackgroundBuilder::new()
        .bounds(Rect::new(0, 0, 6, 4))
        .image(img())
        .default_attr(def)
        .centered(false)
        .build();
    let rows = bg.draw();
    assert_eq!(rows[0].buf.data[0].ch, 'A');
    assert_eq!(rows[1].buf.data[0].ch, 'C');
    assert_eq!(bg.image().width, 2);
    assert_eq!(bg.image().height, 2);
}
