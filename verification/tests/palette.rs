use sonorant::palette::{background, Rgb};
use sonorant::settings::Argb;

#[test]
fn colours_pack_as_opaque_argb() {
    let c = Rgb::new(0x12, 0x34, 0x56);
    assert_eq!(c.to_argb(), 0xFF12_3456);
    assert_eq!(c.to_rgba8(), [0x12, 0x34, 0x56, 255]);
    let a = Argb(c.to_argb());
    assert_eq!((a.a(), a.r(), a.g(), a.b()), (255, 0x12, 0x34, 0x56));
    assert_eq!(Rgb::new(0, 0, 0).to_argb(), 0xFF00_0000);
    assert_eq!(Rgb::new(255, 255, 255).to_argb(), 0xFFFF_FFFF);
}

#[test]
fn the_background_is_the_silent_end_of_the_ramp() {
    let mut lut = [Rgb::default(); 256];
    lut[0] = Rgb::new(1, 2, 3);
    lut[255] = Rgb::new(250, 251, 252);
    assert_eq!(background(&lut), Rgb::new(1, 2, 3));
}
