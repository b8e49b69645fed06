use flappy::config::{parse_color, parse_style, process_color_string, RawStyles, Styles};
use flappy::app::Mode;
use flappy::style::{Color, Modifier, Style};

#[test]
fn test_parse_style_default() {
    let style = parse_style("");
    assert_eq!(style, Style::default());
}

#[test]
fn test_parse_style_foreground() {
    let style = parse_style("red");
    assert_eq!(style.fg, Some(Color::Indexed(1)));
}

#[test]
fn test_parse_style_background() {
    let style = parse_style("on blue");
    assert_eq!(style.bg, Some(Color::Indexed(4)));
}

#[test]
fn test_parse_style_modifiers() {
    let style = parse_style("underline red on blue");
    assert_eq!(style.fg, Some(Color::Indexed(1)));
    assert_eq!(style.bg, Some(Color::Indexed(4)));
}

#[test]
fn test_process_color_string() {
    let (color, modifiers) = process_color_string("underline bold inverse gray");
    assert_eq!(color, "gray");
    assert!(modifiers.contains(Modifier::underlined()));
    assert!(modifiers.contains(Modifier::bold()));
    assert!(modifiers.contains(Modifier::reversed()));
}

#[test]
fn test_parse_color_rgb() {
    let color = parse_color("rgb123");
    let expected = 16 + 1 * 36 + 2 * 6 + 3;
    assert_eq!(color, Some(Color::Indexed(expected)));
}

#[test]
fn test_parse_color_unknown() {
    let color = parse_color("unknown");
    assert_eq!(color, None);
}

#[test]
fn named_colors_have_their_numbers() {
    let names = ["black", "red", "green", "yellow", "blue", "magenta", "cyan", "white"];
    for (i, name) in names.iter().enumerate() {
        assert_eq!(parse_color(name), Some(Color::Indexed(i as u8)));
        assert_eq!(parse_color(&format!("bold {}", name)), Some(Color::Indexed(8 + i as u8)));
    }
    assert_eq!(parse_color("  red \t"), Some(Color::Indexed(1)));
    assert_eq!(parse_color("Red"), None);
    assert_eq!(parse_color(""), None);
}

#[test]
fn numbered_colors_are_read_after_their_word() {
    assert_eq!(parse_color("color42"), Some(Color::Indexed(42)));
    assert_eq!(parse_color("color255"), Some(Color::Indexed(255)));
    assert_eq!(parse_color("color256"), Some(Color::Indexed(0)));
    assert_eq!(parse_color("color"), Some(Color::Indexed(0)));
    assert_eq!(parse_color("color+7"), Some(Color::Indexed(7)));
    assert_eq!(parse_color("color-7"), Some(Color::Indexed(0)));
    assert_eq!(parse_color("color007"), Some(Color::Indexed(7)));
    assert_eq!(parse_color("colorcolor9"), Some(Color::Indexed(9)));
    assert_eq!(parse_color("color 9"), Some(Color::Indexed(0)));
    assert_eq!(parse_color("bright color12"), Some(Color::Indexed(12)));
    assert_eq!(parse_color("bright bright color12"), Some(Color::Indexed(12)));
    assert_eq!(parse_color("xcolor12"), Some(Color::Indexed(0)));
}

#[test]
fn greys_count_from_232_and_lose_what_is_above_255() {
    assert_eq!(parse_color("gray0"), Some(Color::Indexed(232)));
    assert_eq!(parse_color("gray"), Some(Color::Indexed(232)));
    assert_eq!(parse_color("gray23"), Some(Color::Indexed(255)));
    assert_eq!(parse_color("gray24"), Some(Color::Indexed(0)));
    assert_eq!(parse_color("gray255"), Some(Color::Indexed(231)));
}

#[test]
fn cube_colors_take_three_digits() {
    assert_eq!(parse_color("rgb000"), Some(Color::Indexed(16)));
    assert_eq!(parse_color("rgb555"), Some(Color::Indexed(231)));
    assert_eq!(parse_color("rgb5x5"), Some(Color::Indexed(16 + 5 * 36 + 5)));
    assert_eq!(parse_color("rgb999"), Some(Color::Indexed(((16 + 9 * 36 + 9 * 6 + 9) % 256) as u8)));
    assert_eq!(parse_color("rgb12"), None);
    assert_eq!(parse_color("rgb"), None);
    assert_eq!(parse_color("rgb1234"), Some(Color::Indexed(16 + 36 + 12 + 3)));
}

#[test]
fn color_text_drops_the_words_of_emphasis() {
    assert_eq!(process_color_string("grey"), ("gray".to_string(), Modifier::empty()));
    assert_eq!(process_color_string("bright bold red").0, "red");
    assert_eq!(process_color_string("underline").0, "underline");
    assert_eq!(process_color_string("underline").1, Modifier::underlined());
    assert_eq!(process_color_string("bold").1, Modifier::bold());
    assert_eq!(process_color_string("inverse x").1, Modifier::reversed());
    assert_eq!(process_color_string("inverse x").0, "x");
    assert_eq!(process_color_string("").0, "");
    assert_eq!(process_color_string("greygrey bold bold ").0, "graygray ");
}

#[test]
fn styles_part_at_the_first_on() {
    let style = parse_style("bold red ON blue");
    assert_eq!(style.fg, Some(Color::Indexed(1)));
    assert_eq!(style.bg, None);
    assert_eq!(style.add_modifier, Modifier::bold());

    let style = parse_style("red on underline green");
    assert_eq!(style.fg, Some(Color::Indexed(1)));
    assert_eq!(style.bg, Some(Color::Indexed(2)));
    assert_eq!(style.add_modifier, Modifier::underlined());
    assert_eq!(style.sub_modifier, Modifier::empty());

    let style = parse_style("inverse on bold blue");
    assert_eq!(style.fg, None);
    assert_eq!(style.bg, Some(Color::Indexed(4)));
    assert_eq!(style.add_modifier, Modifier::bold().union(Modifier::reversed()));

    let style = parse_style("yellow");
    assert_eq!(style, Style::default().fg(Color::Indexed(3)).add_modifier(Modifier::empty()));
}

#[test]
fn styles_are_read_name_for_name() {
    let raw = vec![RawStyles {
        mode: Mode::Home,
        styles: vec![
            ("title".to_string(), "bold red".to_string()),
            ("text".to_string(), "white on black".to_string()),
        ],
    }];
    let styles = Styles::from_raw(&raw);
    assert_eq!(styles.0.len(), 1);
    assert_eq!(styles.0[0].mode, Mode::Home);
    assert_eq!(styles.0[0].styles.len(), 2);
    assert_eq!(styles.0[0].styles[0].0, "title");
    assert_eq!(styles.0[0].styles[0].1.fg, Some(Color::Indexed(1)));
    assert_eq!(styles.0[0].styles[0].1.add_modifier, Modifier::bold());
    assert_eq!(styles.0[0].styles[1].0, "text");
    assert_eq!(styles.0[0].styles[1].1.fg, Some(Color::Indexed(7)));
    assert_eq!(styles.0[0].styles[1].1.bg, Some(Color::Indexed(0)));
}

#[test]
fn style_builders_set_one_thing_each() {
    let style = Style::new().fg(Color::Red).bg(Color::Blue);
    assert_eq!(style.fg, Some(Color::Red));
    assert_eq!(style.bg, Some(Color::Blue));
    let style = style.add_modifier(Modifier::bold());
    assert!(style.add_modifier.contains(Modifier::bold()));
    assert!(!style.add_modifier.contains(Modifier::underlined()));
    assert_eq!(Modifier::bold().union(Modifier::underlined()).difference(Modifier::bold()), Modifier::underlined());
}
