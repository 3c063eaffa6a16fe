use dogky::color::{parse_hex_skia_color, ColorError, Rgb};
use dogky::command::substitute_env_vars;

fn env() -> Vec<(String, String)> {
    vec![
        ("HOME".to_string(), "/home/me".to_string()),
        ("TERM".to_string(), "alacritty".to_string()),
        ("HOME".to_string(), "/ignored".to_string()),
    ]
}

#[test]
fn variables_are_expanded() {
    assert_eq!(substitute_env_vars("$TERM -e btop", &env()), "alacritty -e btop");
    assert_eq!(substitute_env_vars("${HOME}/bin/x", &env()), "/home/me/bin/x");
    assert_eq!(substitute_env_vars("$HOME/$TERM", &env()), "/home/me/alacritty");
}

#[test]
fn unknown_or_malformed_references_stay() {
    assert_eq!(substitute_env_vars("$NOPE and ${NOPE}", &env()), "$NOPE and ${NOPE}");
    assert_eq!(substitute_env_vars("cost $5 ${HOME", &env()), "cost $5 ${HOME");
    assert_eq!(substitute_env_vars("$", &env()), "$");
    assert_eq!(substitute_env_vars("", &env()), "");
    assert_eq!(substitute_env_vars("$HOMEX", &env()), "$HOMEX");
}

#[test]
fn hex_colors() {
    assert_eq!(parse_hex_skia_color("#1e90ff"), Ok(Rgb { r: 0x1e, g: 0x90, b: 0xff }));
    assert_eq!(parse_hex_skia_color("#FFFFFF"), Ok(Rgb { r: 255, g: 255, b: 255 }));
    assert_eq!(parse_hex_skia_color("#+f0a0b"), Ok(Rgb { r: 15, g: 10, b: 11 }));
    assert_eq!(parse_hex_skia_color("#12345"), Err(ColorError::Parse));
    assert_eq!(parse_hex_skia_color("#12345g"), Err(ColorError::Parse));
    assert_eq!(parse_hex_skia_color("#-12345"), Err(ColorError::Parse));
    assert_eq!(parse_hex_skia_color("é123456"), Err(ColorError::Parse));
}
