use cherrypie::actions::{opacity_value, plan_window_rule, ActionAtoms, Request};
use cherrypie::classify::{
    cardinal_of, class_of, decode_window_list, title_of, window_type_name, wm_class_field,
    TypeAtoms,
};
use cherrypie::config;
use cherrypie::decimal::{parse_decimal_str, parse_i32_str, Decimal};
use cherrypie::geometry::{
    resolve_dim, resolve_monitor, resolve_position, resolve_size, select_monitors, CrtcRect,
    MonitorGeometry, OutputCandidate, WindowGeometry,
};
use cherrypie::report::{match_line, rule_report, window_report};
use cherrypie::rules::{
    self, parse_dimension, CompiledRule, DimensionVal, MonitorTarget, NamedPosition,
    PositionTarget, SizeTarget,
};
use cherrypie::session::{
    apply_reload, decide, matching_rule_indices, plan_window, LoopStep, SessionSets, WindowAttrs,
};
use cherrypie::strutil::decimal_to_string;

fn monitor(name: &str, x: i32, y: i32, w: u32, h: u32) -> MonitorGeometry {
    MonitorGeometry { name: String::from(name), x, y, width: w, height: h }
}

fn attrs(class: &str, title: &str, role: &str, process: &str, window_type: &str) -> WindowAttrs {
    WindowAttrs {
        class: String::from(class),
        title: String::from(title),
        role: String::from(role),
        process: String::from(process),
        window_type: String::from(window_type),
    }
}

fn test_atoms() -> ActionAtoms {
    ActionAtoms {
        wm_change_state: 1,
        net_wm_desktop: 2,
        net_wm_state: 3,
        state_maximized_vert: 4,
        state_maximized_horz: 5,
        state_above: 6,
        state_below: 7,
        state_sticky: 8,
        state_fullscreen: 9,
        state_shaded: 10,
        window_opacity: 11,
        active_window: 12,
        motif_hints: 13,
    }
}

// DIMENSION PARSING

#[test]
fn dimension_percent_parses_to_exact_fraction() {
    match parse_dimension("50%") {
        Ok(DimensionVal::Percent(p)) => assert_eq!(p, Decimal { num: 50, scale: 2 }),
        other => panic!("expected percent, got {:?}", other),
    }
}

#[test]
fn dimension_pixels_parse() {
    match parse_dimension("800") {
        Ok(DimensionVal::Pixels(px)) => assert_eq!(px, 800),
        other => panic!("expected pixels, got {:?}", other),
    }
}

#[test]
fn dimension_bad_percent_rejected() {
    assert_eq!(parse_dimension("abc%").unwrap_err(), "invalid percentage 'abc%'");
}

#[test]
fn dimension_non_numeric_rejected() {
    assert_eq!(parse_dimension("abc").unwrap_err(), "invalid dimension 'abc'");
}

#[test]
fn dimension_fractional_percent() {
    match parse_dimension("12.5%") {
        Ok(DimensionVal::Percent(p)) => assert_eq!(p, Decimal { num: 125, scale: 3 }),
        other => panic!("expected percent, got {:?}", other),
    }
}

#[test]
fn dimension_negative_pixels() {
    match parse_dimension("-30") {
        Ok(DimensionVal::Pixels(px)) => assert_eq!(px, -30),
        other => panic!("expected pixels, got {:?}", other),
    }
}

#[test]
fn dimension_pixel_overflow_rejected() {
    assert!(parse_dimension("2147483648").is_err());
    assert!(parse_dimension("2147483647").is_ok());
}

#[test]
fn plain_parsers_accept_signs_and_points() {
    assert_eq!(parse_i32_str("+42"), Some(42));
    assert_eq!(parse_i32_str("-42"), Some(-42));
    assert_eq!(parse_i32_str("4.2"), None);
    assert_eq!(parse_decimal_str("-.5"), Some(Decimal { num: -5, scale: 1 }));
    assert_eq!(parse_decimal_str("5."), Some(Decimal { num: 5, scale: 0 }));
    assert_eq!(parse_decimal_str("."), None);
    assert_eq!(parse_decimal_str("1.2.3"), None);
}

#[test]
fn dimension_percent_accepts_exponent_notation() {
    match parse_dimension("1e2%") {
        Ok(DimensionVal::Percent(p)) => assert_eq!(p, Decimal { num: 100, scale: 2 }),
        other => panic!("expected percent, got {:?}", other),
    }
    match parse_dimension("2.5E-1%") {
        Ok(DimensionVal::Percent(p)) => assert_eq!(p, Decimal { num: 25, scale: 4 }),
        other => panic!("expected percent, got {:?}", other),
    }
    // Exponents belong to the float grammar; pixel counts are plain integers.
    assert!(parse_dimension("1e2").is_err());
}

#[test]
fn decimal_parser_reads_exponents() {
    assert_eq!(parse_decimal_str("1e3"), Some(Decimal { num: 1000, scale: 0 }));
    assert_eq!(parse_decimal_str("1.5e1"), Some(Decimal { num: 15, scale: 0 }));
    assert_eq!(parse_decimal_str("1e-2"), Some(Decimal { num: 1, scale: 2 }));
    assert_eq!(parse_decimal_str("-2.5e+2"), Some(Decimal { num: -250, scale: 0 }));
    assert_eq!(parse_decimal_str("0e999999999999999999999"), Some(Decimal { num: 0, scale: 0 }));
    assert_eq!(parse_decimal_str("1e"), None);
    assert_eq!(parse_decimal_str("e5"), None);
    assert_eq!(parse_decimal_str("inf"), None);
    assert_eq!(parse_decimal_str("NaN"), None);
    assert_eq!(parse_decimal_str("1e-20"), None);
}

#[test]
fn dimension_string_validation_messages() {
    let err = config::validate_dimension_string("abc%", 0, "position", 0).unwrap_err();
    assert_eq!(err, "rule[0]: invalid position x/width percentage 'abc%'");
    let err = config::validate_dimension_string("abc", 3, "size", 1).unwrap_err();
    assert_eq!(err, "rule[3]: invalid size y/height value 'abc'");
    assert!(config::validate_dimension_string("50%", 0, "size", 0).is_ok());
    assert!(config::validate_dimension_string("800", 0, "size", 1).is_ok());
}

// GEOMETRY

#[test]
fn named_positions_resolve() {
    let mon = monitor("X", 0, 0, 1920, 1080);
    let win = Some((800u32, 600u32));
    assert_eq!(
        resolve_position(&PositionTarget::Named(NamedPosition::Center), &mon, win),
        (560, 240)
    );
    assert_eq!(
        resolve_position(&PositionTarget::Named(NamedPosition::TopLeft), &mon, win),
        (0, 0)
    );
    assert_eq!(
        resolve_position(&PositionTarget::Named(NamedPosition::BottomRight), &mon, win),
        (1120, 480)
    );
}

#[test]
fn flexible_size_resolves_against_monitor() {
    let mon = monitor("X", 0, 0, 1920, 1080);
    let sz = SizeTarget::Flexible(
        DimensionVal::Percent(Decimal { num: 50, scale: 2 }),
        DimensionVal::Percent(Decimal { num: 100, scale: 2 }),
    );
    assert_eq!(resolve_size(&sz, &mon), (960, 1080));
}

#[test]
fn absolute_position_is_not_monitor_relative() {
    let mon = monitor("X", 500, 500, 1920, 1080);
    assert_eq!(
        resolve_position(&PositionTarget::Absolute(7, 9), &mon, None),
        (7, 9)
    );
}

#[test]
fn flexible_position_adds_monitor_origin() {
    let mon = monitor("X", 100, 200, 1000, 800);
    let pos = PositionTarget::Flexible(
        DimensionVal::Percent(Decimal { num: 25, scale: 2 }),
        DimensionVal::Percent(Decimal { num: 50, scale: 2 }),
    );
    assert_eq!(resolve_position(&pos, &mon, None), (350, 600));
}

#[test]
fn percent_resolution_truncates_toward_zero() {
    assert_eq!(resolve_dim(DimensionVal::Percent(Decimal { num: 333, scale: 3 }), 100), 33);
    assert_eq!(resolve_dim(DimensionVal::Percent(Decimal { num: -333, scale: 3 }), 100), -33);
    assert_eq!(resolve_dim(DimensionVal::Pixels(640), 1920), 640);
}

#[test]
fn flexible_size_floors_at_one_pixel() {
    let mon = monitor("X", 0, 0, 10, 10);
    let sz = SizeTarget::Flexible(
        DimensionVal::Percent(Decimal { num: 1, scale: 2 }),
        DimensionVal::Pixels(-5),
    );
    assert_eq!(resolve_size(&sz, &mon), (1, 1));
}

// MONITOR RESOLUTION PRECEDENCE

#[test]
fn explicit_index_wins_over_containment() {
    let mons = vec![monitor("A", 0, 0, 100, 100), monitor("B", 100, 0, 100, 100)];
    let win = Some(WindowGeometry { x: 10, y: 10, width: 10, height: 10 });
    let got = resolve_monitor(&Some(MonitorTarget::Index(1)), &mons, &win);
    assert_eq!(got.name, "B");
}

#[test]
fn unmatched_name_falls_through_to_containment() {
    let mons = vec![monitor("A", 0, 0, 100, 100), monitor("B", 100, 0, 100, 100)];
    let win = Some(WindowGeometry { x: 120, y: 10, width: 10, height: 10 });
    let got = resolve_monitor(&Some(MonitorTarget::Name(String::from("nope"))), &mons, &win);
    assert_eq!(got.name, "B");
}

#[test]
fn matching_name_wins() {
    let mons = vec![monitor("A", 0, 0, 100, 100), monitor("B", 100, 0, 100, 100)];
    let got = resolve_monitor(&Some(MonitorTarget::Name(String::from("B"))), &mons, &None);
    assert_eq!(got.name, "B");
}

#[test]
fn no_monitors_yields_synthetic_default() {
    let mons: Vec<MonitorGeometry> = Vec::new();
    let got = resolve_monitor(&None, &mons, &None);
    assert_eq!(got.name, "");
    assert_eq!((got.x, got.y, got.width, got.height), (0, 0, 1920, 1080));
}

#[test]
fn invalid_index_falls_through_to_first() {
    let mons = vec![monitor("A", 0, 0, 100, 100), monitor("B", 100, 0, 100, 100)];
    let got = resolve_monitor(&Some(MonitorTarget::Index(5)), &mons, &None);
    assert_eq!(got.name, "A");
}

// MONITOR DISCOVERY

#[test]
fn discovery_skips_disconnected_outputs() {
    let outputs = vec![
        OutputCandidate {
            crtc: 1,
            connected: true,
            name: String::from("eDP-1"),
            rect: Some(CrtcRect { x: 0, y: 0, width: 1920, height: 1080 }),
        },
        OutputCandidate { crtc: 0, connected: true, name: String::from("HDMI-1"), rect: None },
        OutputCandidate {
            crtc: 2,
            connected: false,
            name: String::from("DP-1"),
            rect: Some(CrtcRect { x: 1920, y: 0, width: 1280, height: 1024 }),
        },
    ];
    let mons = select_monitors(&outputs, 800, 600);
    assert_eq!(mons.len(), 1);
    assert_eq!(mons[0].name, "eDP-1");
    assert_eq!((mons[0].x, mons[0].y, mons[0].width, mons[0].height), (0, 0, 1920, 1080));
}

#[test]
fn discovery_synthesizes_fallback_from_root() {
    let outputs: Vec<OutputCandidate> = Vec::new();
    let mons = select_monitors(&outputs, 1024, 768);
    assert_eq!(mons.len(), 1);
    assert_eq!(mons[0].name, "default");
    assert_eq!((mons[0].width, mons[0].height), (1024, 768));
}

// OPACITY

#[test]
fn opacity_scales_and_rounds() {
    assert_eq!(opacity_value(&Decimal { num: 95, scale: 2 }), 0xF3333332);
    assert_eq!(opacity_value(&Decimal { num: 1, scale: 0 }), 0xFFFFFFFF);
    assert_eq!(opacity_value(&Decimal { num: 0, scale: 0 }), 0);
    assert_eq!(opacity_value(&Decimal { num: 5, scale: 1 }), 0x80000000);
}

#[test]
fn opacity_clamps_out_of_range_inputs() {
    assert_eq!(opacity_value(&Decimal { num: -5, scale: 1 }), 0);
    assert_eq!(opacity_value(&Decimal { num: 15, scale: 1 }), 0xFFFFFFFF);
}

// END-TO-END PLANNING

fn p10_rules() -> Vec<CompiledRule> {
    let cfg = config::load_str(
        r#"
        [[rule]]
        class = "firefox"
        monitor = "X"
        workspace = 2
        position = [0, 0]
        size = [1920, 1080]
        fullscreen = true
        focus = true
        decorate = false
        above = true
        opacity = 0.95
    "#,
    )
    .unwrap();
    rules::compile(&cfg).unwrap()
}

#[test]
fn live_plan_issues_the_writes_in_order() {
    let rules = p10_rules();
    let mons = vec![monitor("X", 0, 0, 1920, 1080)];
    let atoms = test_atoms();
    let a = attrs("firefox", "", "", "", "normal");

    let plan = plan_window(&rules, &a, &mons, None, &atoms);
    let expected = vec![
        Request::Resize { width: 1920, height: 1080 },
        Request::Move { x: 0, y: 0 },
        Request::ClientMessage { message_type: 2, data: (2, 1, 0, 0, 0) },
        Request::ClientMessage { message_type: 3, data: (1, 9, 0, 1, 0) },
        Request::ClientMessage { message_type: 3, data: (1, 6, 0, 1, 0) },
        Request::SetMotifHints { property: 13, hints: (2, 0, 0, 0, 0) },
        Request::ClientMessage { message_type: 12, data: (1, 0, 0, 0, 0) },
        Request::SetCardinal { property: 11, value: 0xF3333332 },
    ];
    assert_eq!(plan, expected);
}

#[test]
fn non_matching_window_plans_nothing() {
    let rules = p10_rules();
    let mons = vec![monitor("X", 0, 0, 1920, 1080)];
    let atoms = test_atoms();
    let a = attrs("kitty", "", "", "", "normal");
    let plan = plan_window(&rules, &a, &mons, None, &atoms);
    assert!(plan.is_empty());
}

#[test]
fn dry_run_reports_instead_of_writing() {
    let rules = p10_rules();
    let a = attrs("firefox", "", "", "", "normal");

    let indices = matching_rule_indices(&rules, &a);
    assert_eq!(indices, vec![0]);

    let report = rule_report(&rules[0]);
    let expected = vec![
        "monitor -> 'X'",
        "position -> (0, 0)",
        "size -> (1920, 1080)",
        "workspace -> 2",
        "fullscreen",
        "above",
        "decorate -> false",
        "focus",
        "opacity -> 0.95",
    ];
    assert_eq!(report, expected);

    // The whole-window report walks the same matching rules.
    assert_eq!(window_report(&rules, &a), expected);
    let other = attrs("kitty", "", "", "", "normal");
    assert!(window_report(&rules, &other).is_empty());
}

#[test]
fn match_line_names_the_window() {
    let a = attrs("kitty", "vim", "", "montauk", "normal");
    assert_eq!(
        match_line(&a),
        "matched 'kitty' (class='kitty', title='vim', process='montauk')"
    );
}

#[test]
fn maximize_adds_both_flags() {
    let cfg = config::load_str(
        r#"
        [[rule]]
        class = "kitty"
        maximize = true
        pin = true
        minimize = true
    "#,
    )
    .unwrap();
    let rules = rules::compile(&cfg).unwrap();
    let mons = vec![monitor("X", 0, 0, 1920, 1080)];
    let atoms = test_atoms();
    let plan = plan_window_rule(&rules[0], &mons, None, &atoms);
    let expected = vec![
        // maximize: vertical and horizontal in one state message
        Request::ClientMessage { message_type: 3, data: (1, 4, 5, 1, 0) },
        // pin: all-workspaces sentinel, then the sticky flag
        Request::ClientMessage { message_type: 2, data: (0xFFFFFFFF, 1, 0, 0, 0) },
        Request::ClientMessage { message_type: 3, data: (1, 8, 0, 1, 0) },
        // minimize: the change-state request with the iconic state
        Request::ClientMessage { message_type: 1, data: (3, 0, 0, 0, 0) },
    ];
    assert_eq!(plan, expected);
}

#[test]
fn later_rules_apply_after_earlier_ones() {
    let cfg = config::load_str(
        r#"
        [[rule]]
        class = "kitty"
        workspace = 1

        [[rule]]
        class = "kitty"
        workspace = 2
    "#,
    )
    .unwrap();
    let rules = rules::compile(&cfg).unwrap();
    let mons = vec![monitor("X", 0, 0, 1920, 1080)];
    let atoms = test_atoms();
    let a = attrs("kitty", "", "", "", "normal");
    let plan = plan_window(&rules, &a, &mons, None, &atoms);
    let expected = vec![
        Request::ClientMessage { message_type: 2, data: (1, 1, 0, 0, 0) },
        Request::ClientMessage { message_type: 2, data: (2, 1, 0, 0, 0) },
    ];
    assert_eq!(plan, expected);
}

// SESSION

#[test]
fn startup_backlog_drains_once() {
    let mut sets = SessionSets::new(vec![7, 8]);
    assert_eq!(sets.take_startup(), vec![7, 8]);
    assert_eq!(sets.take_startup(), Vec::<u32>::new());
    assert_eq!(sets.known_clients, vec![7, 8]);
}

#[test]
fn adoption_finds_only_new_windows_once() {
    let mut sets = SessionSets::new(vec![1, 2]);
    let fresh = sets.adopt_client_list(&vec![2, 3, 3, 4]);
    assert_eq!(fresh, vec![3, 4]);
    assert_eq!(sets.handled, vec![3, 4]);
    assert_eq!(sets.known_clients, vec![2, 3, 3, 4]);

    // A handle that was handled once is never dispatched again.
    let again = sets.adopt_client_list(&vec![3, 4, 5]);
    assert_eq!(again, vec![5]);
    assert_eq!(sets.handled, vec![3, 4, 5]);
}

#[test]
fn shutdown_wins_over_other_sources() {
    assert_eq!(decide(true, true, true), LoopStep::Shutdown);
    assert_eq!(decide(false, true, false), LoopStep::Continue { reload: true, process: false });
    assert_eq!(decide(false, false, true), LoopStep::Continue { reload: false, process: true });
}

#[test]
fn failed_reload_keeps_previous_rules() {
    let good = config::load_str(
        r#"
        [[rule]]
        class = "kitty"
        workspace = 1
    "#,
    )
    .unwrap();
    let mut active = rules::compile(&good).unwrap();

    // A syntactically invalid configuration change is rejected whole.
    let outcome = config::load_str("this is not valid toml [[[").and_then(|c| rules::compile(&c));
    assert!(outcome.is_err());
    let r = apply_reload(&mut active, outcome);
    assert!(r.is_err());
    assert_eq!(active.len(), 1);
    assert!(active[0].matches("kitty", "", "", "", ""));

    // A valid change replaces the active set atomically.
    let newer = config::load_str(
        r#"
        [[rule]]
        class = "firefox"
        workspace = 2
    "#,
    )
    .unwrap();
    let outcome = rules::compile(&newer);
    let r = apply_reload(&mut active, outcome);
    assert_eq!(r, Ok(1));
    assert!(active[0].matches("firefox", "", "", "", ""));
    assert!(!active[0].matches("kitty", "", "", "", ""));
}

// CLASSIFICATION

#[test]
fn client_list_decodes_full_words() {
    let bytes = vec![1, 0, 0, 0, 2, 0, 0, 0, 9];
    assert_eq!(decode_window_list(&bytes), vec![1, 2]);
    assert_eq!(decode_window_list(&vec![1, 2, 3]), Vec::<u32>::new());
}

#[test]
fn cardinal_reads_first_word() {
    assert_eq!(cardinal_of(&Some(vec![0x39, 0x05, 0, 0])), Some(1337));
    assert_eq!(cardinal_of(&Some(vec![1, 2])), None);
    assert_eq!(cardinal_of(&None), None);
}

#[test]
fn class_comes_from_the_second_field() {
    let prop = b"instance\0Firefox\0".to_vec();
    assert_eq!(wm_class_field(&prop), b"Firefox".to_vec());
    assert_eq!(class_of(&Some(prop)), "Firefox");
    assert_eq!(class_of(&None), "");
}

#[test]
fn title_prefers_the_modern_property() {
    assert_eq!(
        title_of(&Some(b"new".to_vec()), &Some(b"old".to_vec())),
        "new"
    );
    assert_eq!(title_of(&Some(Vec::new()), &Some(b"old".to_vec())), "old");
    assert_eq!(title_of(&None, &None), "");
}

#[test]
fn window_types_map_to_the_fixed_vocabulary() {
    let atoms = TypeAtoms {
        normal: 100,
        desktop: 101,
        dock: 102,
        dialog: 103,
        toolbar: 104,
        menu: 105,
        utility: 106,
        splash: 107,
    };
    assert_eq!(window_type_name(None, &atoms), "normal");
    assert_eq!(window_type_name(Some(103), &atoms), "dialog");
    assert_eq!(window_type_name(Some(102), &atoms), "dock");
    assert_eq!(window_type_name(Some(999), &atoms), "unknown");
}

// DECIMAL RENDERING

#[test]
fn decimals_render_plainly() {
    assert_eq!(decimal_to_string(&Decimal { num: 95, scale: 2 }), "0.95");
    assert_eq!(decimal_to_string(&Decimal { num: 5, scale: 1 }), "0.5");
    assert_eq!(decimal_to_string(&Decimal { num: 1, scale: 0 }), "1");
    assert_eq!(decimal_to_string(&Decimal { num: -5, scale: 1 }), "-0.5");
    assert_eq!(decimal_to_string(&Decimal { num: 1050, scale: 2 }), "10.5");
    assert_eq!(decimal_to_string(&Decimal { num: 0, scale: 3 }), "0");
}
