use rpeg::pixel_block::{Pixel, PixelBlock};

#[test]
fn unpack_lists_pixels_with_their_coordinates() {
    let tl = Pixel { red: 1, green: 2, blue: 3 };
    let tr = Pixel { red: 4, green: 5, blue: 6 };
    let bl = Pixel { red: 7, green: 8, blue: 9 };
    let br = Pixel { red: 10, green: 11, blue: 12 };
    let block = PixelBlock::pack(6, 2, tl, tr, bl, br);
    assert_eq!(
        block.unpack(),
        vec![(6, 2, tl), (6, 3, tr), (7, 2, bl), (7, 3, br)]
    );
}
