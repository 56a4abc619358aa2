use cherrypie::config::{self, MonitorValue, PositionValue, SizeValue};

fn load(content: &str) -> Result<config::Config, String> {
    config::load_str(content)
}

// BASIC PARSING

#[test]
fn parse_single_rule() {
    let cfg = load(
        r#"
        [[rule]]
        class = "kitty"
        workspace = 1
        maximize = true
        "#,
    )
    .unwrap();
    assert_eq!(cfg.rule.len(), 1);
    assert_eq!(cfg.rule[0].class.as_deref(), Some("kitty"));
    assert_eq!(cfg.rule[0].workspace, Some(1));
    assert_eq!(cfg.rule[0].maximize, Some(true));
    assert!(cfg.rule[0].title.is_none());
    assert!(cfg.rule[0].position.is_none());
}

#[test]
fn parse_multiple_rules() {
    let cfg = load(
        r#"
        [[rule]]
        class = "kitty"
        workspace = 1

        [[rule]]
        class = "chromium"
        workspace = 2
        position = [0, 0]
        size = [1920, 1080]

        [[rule]]
        title = ".*GIMP.*"
        pin = true
        opacity = 0.95
        "#,
    )
    .unwrap();
    assert_eq!(cfg.rule.len(), 3);
}

#[test]
fn empty_rules_array() {
    let cfg = load("rule = []").unwrap();
    assert_eq!(cfg.rule.len(), 0);
}

// NEW MATCHERS

#[test]
fn parse_process_matcher() {
    let cfg = load(
        r#"
        [[rule]]
        process = "montauk"
        monitor = "Z"
        maximize = true
        "#,
    )
    .unwrap();
    assert_eq!(cfg.rule[0].process.as_deref(), Some("montauk"));
}

#[test]
fn parse_type_matcher() {
    let cfg = load(
        r#"
        [[rule]]
        type = "dialog"
        position = "center"
        above = true
        "#,
    )
    .unwrap();
    assert_eq!(cfg.rule[0].window_type.as_deref(), Some("dialog"));
    assert_eq!(cfg.rule[0].above, Some(true));
}

// POSITION VARIANTS

#[test]
fn parse_position_absolute() {
    let cfg = load(
        r#"
        [[rule]]
        class = "test"
        position = [100, 200]
        "#,
    )
    .unwrap();
    match cfg.rule[0].position {
        Some(PositionValue::Absolute(coords)) => {
            assert_eq!(coords, [100, 200]);
        }
        _ => panic!("expected Absolute position"),
    }
}

#[test]
fn parse_position_named() {
    for name in &[
        "center",
        "top-left",
        "top-right",
        "bottom-left",
        "bottom-right",
        "left",
        "right",
        "top",
        "bottom",
    ] {
        let cfg = load(&format!(
            r#"
            [[rule]]
            class = "test"
            position = "{}"
            "#,
            name
        ))
        .unwrap();
        match &cfg.rule[0].position {
            Some(PositionValue::Named(n)) => assert_eq!(n, name),
            _ => panic!("expected Named position for '{}'", name),
        }
    }
}

#[test]
fn parse_position_percentage() {
    let cfg = load(
        r#"
        [[rule]]
        class = "test"
        position = ["25%", "50%"]
        "#,
    )
    .unwrap();
    match &cfg.rule[0].position {
        Some(PositionValue::Flexible(parts)) => {
            assert_eq!(parts[0], "25%");
            assert_eq!(parts[1], "50%");
        }
        _ => panic!("expected Flexible position"),
    }
}

#[test]
fn reject_invalid_position_name() {
    let err = load(
        r#"
        [[rule]]
        class = "test"
        position = "middle-ish"
        "#,
    )
    .unwrap_err();
    assert!(err.contains("invalid position"), "got: {}", err);
}

#[test]
fn reject_invalid_position_percentage() {
    let err = load(
        r#"
        [[rule]]
        class = "test"
        position = ["abc%", "50%"]
        "#,
    )
    .unwrap_err();
    assert!(err.contains("invalid") || err.contains("percentage"), "got: {}", err);
}

// SIZE VARIANTS

#[test]
fn parse_size_absolute() {
    let cfg = load(
        r#"
        [[rule]]
        class = "test"
        size = [1920, 1080]
        "#,
    )
    .unwrap();
    match cfg.rule[0].size {
        Some(SizeValue::Absolute(dims)) => assert_eq!(dims, [1920, 1080]),
        _ => panic!("expected Absolute size"),
    }
}

#[test]
fn parse_size_percentage() {
    let cfg = load(
        r#"
        [[rule]]
        class = "test"
        size = ["50%", "100%"]
        "#,
    )
    .unwrap();
    match &cfg.rule[0].size {
        Some(SizeValue::Flexible(parts)) => {
            assert_eq!(parts[0], "50%");
            assert_eq!(parts[1], "100%");
        }
        _ => panic!("expected Flexible size"),
    }
}

// MONITOR VARIANTS

#[test]
fn parse_monitor_by_index() {
    let cfg = load(
        r#"
        [[rule]]
        class = "test"
        monitor = 2
        "#,
    )
    .unwrap();
    match cfg.rule[0].monitor {
        Some(MonitorValue::Index(i)) => assert_eq!(i, 2),
        _ => panic!("expected Index monitor"),
    }
}

#[test]
fn parse_monitor_by_name() {
    let cfg = load(
        r#"
        [[rule]]
        class = "test"
        monitor = "HDMI-1"
        "#,
    )
    .unwrap();
    match &cfg.rule[0].monitor {
        Some(MonitorValue::Name(n)) => assert_eq!(n, "HDMI-1"),
        _ => panic!("expected Name monitor"),
    }
}

// NEW ACTIONS

#[test]
fn parse_all_new_actions() {
    let cfg = load(
        r#"
        [[rule]]
        class = "test"
        fullscreen = true
        above = true
        below = false
        decorate = false
        focus = true
        minimize = false
        shade = true
        "#,
    )
    .unwrap();
    let r = &cfg.rule[0];
    assert_eq!(r.fullscreen, Some(true));
    assert_eq!(r.above, Some(true));
    assert_eq!(r.below, Some(false));
    assert_eq!(r.decorate, Some(false));
    assert_eq!(r.focus, Some(true));
    assert_eq!(r.minimize, Some(false));
    assert_eq!(r.shade, Some(true));
}

// VALIDATION

#[test]
fn reject_rule_without_matcher() {
    let err = load(
        r#"
        [[rule]]
        workspace = 1
        maximize = true
        "#,
    )
    .unwrap_err();
    assert!(err.contains("no matcher"), "got: {}", err);
}

#[test]
fn process_alone_is_valid_matcher() {
    load(
        r#"
        [[rule]]
        process = "firefox"
        workspace = 2
        "#,
    )
    .unwrap(); // should not error
}

#[test]
fn type_alone_is_valid_matcher() {
    load(
        r#"
        [[rule]]
        type = "dialog"
        above = true
        "#,
    )
    .unwrap(); // should not error
}

#[test]
fn reject_invalid_toml() {
    let err = load("this is not valid toml [[[").unwrap_err();
    assert!(!err.is_empty());
}

// FULL EXAMPLE

#[test]
fn parse_full_example_config() {
    let cfg = load(
        r#"
        [[rule]]
        class = "kitty"
        workspace = 1
        maximize = true

        [[rule]]
        class = "kitty"
        title = ".*montauk.*"
        monitor = "Z"
        workspace = 3
        maximize = true

        [[rule]]
        class = "chromium"
        monitor = "X"
        position = "center"
        size = ["80%", "90%"]

        [[rule]]
        class = "pavucontrol"
        position = "top-right"
        size = [400, 600]

        [[rule]]
        class = "thunar"
        monitor = "Y"
        position = "left"
        size = ["50%", "100%"]

        [[rule]]
        process = "montauk"
        monitor = "Z"
        maximize = true

        [[rule]]
        type = "dialog"
        position = "center"
        above = true

        [[rule]]
        class = "firefox"
        monitor = "X"
        workspace = 2
        position = [0, 0]
        size = [1920, 1080]
        fullscreen = true
        focus = true
        decorate = false
        above = true
        opacity = 0.95
        "#,
    )
    .unwrap();
    assert_eq!(cfg.rule.len(), 8);
}

// PATHS

#[test]
fn with_config_keeps_the_path() {
    let paths = config::Paths::with_config(String::from("/tmp/rules.toml"));
    assert_eq!(paths.config_file, "/tmp/rules.toml");
}
