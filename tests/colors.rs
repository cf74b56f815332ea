use mcapi::colors::{chat_color_rgb, minecraft_color_to_hex};

#[test]
fn named_colors_have_hex_values() {
    assert_eq!(minecraft_color_to_hex("gold").as_deref(), Some("#ffaa00"));
    assert_eq!(minecraft_color_to_hex("black").as_deref(), Some("#000000"));
    assert_eq!(minecraft_color_to_hex("white").as_deref(), Some("#ffffff"));
    assert_eq!(minecraft_color_to_hex("dark_gray").as_deref(), Some("#555555"));
    assert_eq!(minecraft_color_to_hex("light_purple").as_deref(), Some("#ff55ff"));
}

#[test]
fn unknown_color_has_none() {
    assert_eq!(minecraft_color_to_hex("Gold"), None);
    assert_eq!(minecraft_color_to_hex(""), None);
    assert_eq!(minecraft_color_to_hex("#ffaa00"), None);
}

#[test]
fn chat_colors_become_rgb() {
    assert_eq!(chat_color_rgb("gold"), Some((255, 170, 0)));
    assert_eq!(chat_color_rgb("#010203"), Some((1, 2, 3)));
    assert_eq!(chat_color_rgb("not a colour at all"), None);
}
