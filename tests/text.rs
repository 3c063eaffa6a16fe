use dogky::config::{SerdeCommand, SerializableCommand};
use dogky::text::{decimal_string, div_rem, format_duration, format_size, format_speed, format_used, join_str_iter, padded_left};
use dogky::weather::{condition_icon, degrees_to_direction, WeatherDataWeather};

#[test]
fn div_rem_gives_quotient_and_remainder() {
    assert_eq!(div_rem(125, 60), (2, 5));
    assert_eq!(div_rem(0, 7), (0, 0));
}

#[test]
fn durations() {
    assert_eq!(format_duration(0), "0s");
    assert_eq!(format_duration(59), "59s");
    assert_eq!(format_duration(61), "1m 01s");
    assert_eq!(format_duration(3600), "1h 00m 00s");
    assert_eq!(format_duration(3 * 3600 + 4 * 60 + 5), "3h 04m 05s");
    assert_eq!(format_duration(2 * 86400 + 5 * 3600 + 3 * 60 + 4), "2d 05h 03m 04s");
}

#[test]
fn sizes() {
    assert_eq!(format_size(0, 1), "0 B");
    assert_eq!(format_size(1023, 2), "1023 B");
    assert_eq!(format_size(1024, 1), "1.0 KiB");
    assert_eq!(format_size(1536, 2), "1.50 KiB");
    assert_eq!(format_size(5 * 1024 * 1024 + 512 * 1024, 1), "5.5 MiB");
    assert_eq!(format_size(1024 * 1024 * 1024, 0), "1 GiB");
    assert_eq!(format_size(u64::MAX, 1), "16.0 EiB");
    assert_eq!(format_size(1100, 3), "1.074 KiB");
}

#[test]
fn used_shares() {
    assert_eq!(format_used(512, 1024), "     512 B/   1.0 KiB =  50%");
    assert_eq!(format_used(0, 0), "       0 B/       0 B =   0%");
}

#[test]
fn joins() {
    let parts = vec!["a".to_string(), "b".to_string(), "c".to_string()];
    assert_eq!(join_str_iter(parts, ", "), "a, b, c");
    assert_eq!(join_str_iter(vec![], " "), "");
    assert_eq!(join_str_iter(vec!["".to_string(), "x".to_string()], "-"), "x");
}

#[test]
fn numbers_and_padding() {
    assert_eq!(decimal_string(0), "0");
    assert_eq!(decimal_string(1234567890123), "1234567890123");
    assert_eq!(padded_left("7", 3, " "), "  7");
    assert_eq!(padded_left("1234", 3, " "), "1234");
}

#[test]
fn commands_split_like_a_shell() {
    let c = SerdeCommand::parse("alacritty -e 'btop --utf-force'").ok().unwrap();
    assert_eq!(c.parts(), &vec!["alacritty".to_string(), "-e".to_string(), "btop --utf-force".to_string()]);
    assert!(!c.is_empty());
    assert!(SerdeCommand::parse("echo 'unclosed").is_err());
    assert!(SerdeCommand::parse("").ok().unwrap().is_empty());
    let s = SerializableCommand::parse("a \"b c\"").unwrap();
    assert_eq!(s.parts(), &vec!["a".to_string(), "b c".to_string()]);
    assert!(SerializableCommand::parse("\"x").is_none());
}

#[test]
fn weather_icons_and_directions() {
    assert_eq!(condition_icon("10d"), Some("🌦️"));
    assert_eq!(condition_icon("01n"), Some("☀️"));
    assert_eq!(condition_icon("77d"), None);
    assert_eq!(condition_icon("1"), None);
    assert_eq!(degrees_to_direction(0), "N");
    assert_eq!(degrees_to_direction(11), "N");
    assert_eq!(degrees_to_direction(12), "NNE");
    assert_eq!(degrees_to_direction(90), "E");
    assert_eq!(degrees_to_direction(350), "N");
    assert_eq!(degrees_to_direction(225), "SW");
}

#[test]
fn weather_description_in_title_case() {
    let w = WeatherDataWeather {
        id: 500,
        main: "Rain".to_string(),
        description: "light rain".to_string(),
        icon: "10d".to_string(),
    };
    assert_eq!(w.title_description(), "Light Rain");
}

#[test]
fn speeds() {
    assert_eq!(format_speed(0, 2), "0.00 B/s");
    assert_eq!(format_speed(512, 2), "512.00 B/s");
    assert_eq!(format_speed(1536, 2), "1.50 KiB/s");
    assert_eq!(format_speed(3 * 1024 * 1024, 0), "3 MiB/s");
}
