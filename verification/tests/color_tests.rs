use popalarm::color::{gene_color, Rgba};

fn rgba(r: u8, g: u8, b: u8, a: u8) -> Rgba {
    Rgba { r, g, b, a }
}

#[test]
fn empty_color_setting_gives_default() {
    let d = rgba(1, 2, 3, 4);
    assert_eq!(gene_color(String::new(), d), d);
}

#[test]
fn short_color_setting_gives_opaque_black() {
    assert_eq!(gene_color("10,20".to_string(), rgba(1, 2, 3, 4)), rgba(0, 0, 0, 255));
}

#[test]
fn three_fields_give_an_opaque_colour() {
    assert_eq!(gene_color("10,20,30".to_string(), rgba(1, 2, 3, 4)), rgba(10, 20, 30, 255));
    assert_eq!(gene_color("+10,020,30".to_string(), rgba(1, 2, 3, 4)), rgba(10, 20, 30, 255));
}

#[test]
fn four_fields_are_unmultiplied() {
    assert_eq!(gene_color("10,20,30,255".to_string(), rgba(0, 0, 0, 0)), rgba(10, 20, 30, 255));
    assert_eq!(gene_color("10,20,30,0".to_string(), rgba(9, 9, 9, 9)), rgba(0, 0, 0, 0));
    assert_eq!(gene_color("10,20,30,0,99".to_string(), rgba(9, 9, 9, 9)), rgba(0, 0, 0, 0));
    let c = gene_color("200,100,50,128".to_string(), rgba(0, 0, 0, 0));
    let e = egui::Color32::from_rgba_unmultiplied(200, 100, 50, 128).to_array();
    assert_eq!([c.r, c.g, c.b, c.a], e);
    assert_ne!(c, rgba(200, 100, 50, 128));
    assert_eq!(c.a, 128);
}
