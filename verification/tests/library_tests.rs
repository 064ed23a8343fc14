use cardboard::config::automatic::Align;
use cardboard::config::automatic::Automatic;
use cardboard::config::automatic::CropLineLength;
use cardboard::config::automatic::CropLines;
use cardboard::config::automatic::Gutter;
use cardboard::config::automatic::Margins;
use cardboard::config::manual;
use cardboard::config::sheet::CardPlacement;
use cardboard::config::sheet::CropLineOrientation;
use cardboard::config::sheet::Dimensions;
use cardboard::config::sheets::SheetType;
use cardboard::config::sizes::card_size_from_name;
use cardboard::config::sizes::page_dimensions_from_name;
use cardboard::config::sizes::CardSize;
use cardboard::config::sizes::PageDimensions;
use cardboard::config::sizes::PageSize;
use cardboard::config::units::Units;
use cardboard::config::PlacementError;
use cardboard::data::card::generate_id;
use cardboard::data::card::card_from_record;
use cardboard::data::card::parse_deck_line;
use cardboard::data::card::Card;
use cardboard::data::card::DeckLine;
use cardboard::data::globals;
use cardboard::data::project::Project;
use cardboard::data::project::ProjectConfigurationError;
use cardboard::model::color::Color;
use cardboard::model::color::ColorParseError;
use cardboard::model::color::ColorRef;
use cardboard::model::elements::Frame;
use cardboard::model::elements::Scale;
use cardboard::model::font::Weight;
use cardboard::model::font::Width;
use cardboard::model::only_if::evaluate_resolved;
use cardboard::model::only_if::OnlyIf;
use cardboard::model::only_if::OnlyIfOperator;
use cardboard::model::styles::TextStyle;
use cardboard::model::text::Alignment;
use cardboard::model::text::FlatTextStyle;
use cardboard::model::text::Size;
use cardboard::model::text::Units as TextUnits;
use cardboard::render::image_fit::scaled_image_bounds;
use cardboard::render::paint::resolve_path_paint;
use cardboard::render::sheet_flow::sheet_position;
use cardboard::templates::TemplateAwareString;
use cardboard::config::sheet::CropLine;
use cardboard::render::sheet_flow::crop_line_segments;
use cardboard::render::text_flow::text_runs;
use cardboard::model::geometry::Geometry;
use cardboard::model::geometry::Insets;

#[test]
fn template_classification_spots_markers() {
    match TemplateAwareString::new("no markers here".to_string()) {
        TemplateAwareString::RawString(s) => assert_eq!(s, "no markers here".to_string()),
        _ => panic!("expected a raw string"),
    }
    match TemplateAwareString::new("some {{other}} text".to_string()) {
        TemplateAwareString::Template(s) => assert_eq!(s, "some {{other}} text".to_string()),
        _ => panic!("expected a template"),
    }
}

#[test]
fn template_render_substitutes_fields() {
    // a raw literal returns itself without the engine
    let raw = TemplateAwareString::new("plain".to_string());
    let bindings = vec![("name".to_string(), "Ada".to_string())];
    assert_eq!(raw.render(&bindings).unwrap(), "plain".to_string());

    // a template goes through substitution, so the input cannot come back
    // unchanged
    let tpl = TemplateAwareString::new("hello {{name}}".to_string());
    assert_eq!(tpl.render(&bindings).unwrap(), "hello Ada".to_string());
}

#[test]
fn cascade_empty_list_is_identity() {
    let mut style = FlatTextStyle::default();
    let before = style.clone();
    style.apply(&[]);
    assert_eq!(style, before);
}

#[test]
fn cascade_later_layer_wins() {
    let mut style = FlatTextStyle::default();
    let layers = vec![
        TextStyle::Size(Size { size: 10, units: TextUnits::Pixels }),
        TextStyle::Size(Size { size: 24, units: TextUnits::Points }),
    ];
    style.apply(layers.as_slice());
    assert_eq!(style.size, Some(Size { size: 24, units: TextUnits::Points }));
}

#[test]
fn cascade_untouched_attributes_keep_defaults() {
    let mut style = FlatTextStyle::default();
    let layers = vec![TextStyle::Size(Size { size: 10, units: TextUnits::Pixels })];
    style.apply(layers.as_slice());
    assert_eq!(style.align, Alignment::Left);
    assert_eq!(style.font_weight, Weight::Normal);
    assert_eq!(style.font_width, Width::Normal);
    assert!(style.foreground.is_none());
}

#[test]
fn only_if_without_operator_tests_non_emptiness() {
    assert!(evaluate_resolved(&"x".to_string(), &None, &vec![]));
    assert!(!evaluate_resolved(&"".to_string(), &None, &vec![]));
}

#[test]
fn only_if_in_and_not_in_are_complements() {
    let rights = vec!["a".to_string(), "b".to_string()];
    for left in ["a", "b", "c", ""] {
        let inside = evaluate_resolved(&left.to_string(), &Some(OnlyIfOperator::In), &rights);
        let outside = evaluate_resolved(&left.to_string(), &Some(OnlyIfOperator::NotIn), &rights);
        assert_eq!(inside, !outside);
    }
}

#[test]
fn only_if_equal_compares_first_right_value_only() {
    let rights = vec!["a".to_string(), "b".to_string()];
    assert!(evaluate_resolved(&"a".to_string(), &Some(OnlyIfOperator::Equal), &rights));
    assert!(!evaluate_resolved(&"b".to_string(), &Some(OnlyIfOperator::Equal), &rights));
    // with no right-hand value at all, both comparisons are false
    assert!(!evaluate_resolved(&"a".to_string(), &Some(OnlyIfOperator::Equal), &vec![]));
    assert!(!evaluate_resolved(&"a".to_string(), &Some(OnlyIfOperator::NotEqual), &vec![]));
}

#[test]
fn only_if_evaluates_against_record() {
    let cond = OnlyIf {
        left: TemplateAwareString::new("{{rarity}}".to_string()),
        op: Some(OnlyIfOperator::Equal),
        right: vec![TemplateAwareString::new("rare".to_string())],
    };
    let bindings = vec![("rarity".to_string(), "rare".to_string())];
    assert_eq!(cond.evaluate(&bindings).unwrap(), true);
}

#[test]
fn color_parses_rgb_and_rgba_tuples() {
    assert_eq!(
        ColorRef::from_str("rgb(1, 2, 3)").unwrap(),
        ColorRef::Static(Color::RGB(1, 2, 3))
    );
    assert_eq!(
        ColorRef::from_str("rgba(110, 120, 130, 255)").unwrap(),
        ColorRef::Static(Color::RGBA(110, 120, 130, 255))
    );
}

#[test]
fn color_rejects_bad_component() {
    match ColorRef::from_str("rgb(1, 2, 300)") {
        Err(ColorParseError::InvalidComponent(c)) => assert_eq!(c, " 300".to_string()),
        _ => panic!("expected an invalid-component error"),
    }
}

#[test]
fn color_falls_back_to_named_reference() {
    match ColorRef::from_str("white").unwrap() {
        ColorRef::Named(TemplateAwareString::RawString(s)) => assert_eq!(s, "white".to_string()),
        _ => panic!("expected a named reference"),
    }
}

#[test]
fn project_color_shadows_builtin_palette() {
    let mut project = Project::new();
    // `white` is a builtin name; the project redefines it
    project.add_color("white".to_string(), Color::RGB(250, 250, 250));
    assert_eq!(project.color_named("white").unwrap(), Color::RGB(250, 250, 250));
    // builtin fallback still answers for names the project leaves alone
    assert_eq!(project.color_named("black").unwrap(), Color::RGBA(0, 0, 0, 0xff));
    // and unknown names are errors
    match project.color_named("no such color") {
        Err(ProjectConfigurationError::InvalidColorName(n)) => {
            assert_eq!(n, "no such color".to_string())
        },
        _ => panic!("expected an unknown-color error"),
    }
}

#[test]
fn builtin_palette_and_styles_answer() {
    assert_eq!(globals::color_named("magenta"), Some(Color::RGBA(0xff, 0x00, 0xff, 0xff)));
    assert_eq!(globals::color_named("mauve"), None);
    assert!(globals::style_named("b").is_some());
    assert!(globals::style_named("i").is_some());
    assert!(globals::style_named("dark-gray").is_some());
    assert!(globals::style_named("bold").is_none());
}

#[test]
fn automatic_grid_places_nine_slots_on_a_square_page() {
    // page 100x100 points, item 30x30, zero margins, zero gutter
    let auto = Automatic {
        crop_lines: None,
        margins: Margins { top: 0, right: 0, bottom: 0, left: 0 },
        gutter: Gutter { horizontal: 0, vertical: 0 },
        align: Align::Left,
    };
    let page = Dimensions { width: 100_000, height: 100_000 };
    let card = Dimensions { width: 30_000, height: 30_000 };
    let (slots, lines) = auto.compile(&page, &card, &Units::Points);
    assert_eq!(slots.len(), 9);
    assert!(lines.is_empty());
    // all fully inside the page, none overlapping
    for (k, s) in slots.iter().enumerate() {
        assert!(0 <= s.x && s.x + 30_000 <= 100_000);
        assert!(0 <= s.y && s.y + 30_000 <= 100_000);
        for other in slots.iter().skip(k + 1) {
            let apart_x = s.x + 30_000 <= other.x || other.x + 30_000 <= s.x;
            let apart_y = s.y + 30_000 <= other.y || other.y + 30_000 <= s.y;
            assert!(apart_x || apart_y);
        }
    }
    // reading order: left to right, then top to bottom
    assert_eq!(slots[0], CardPlacement { x: 0, y: 0, rotate: None, reflect: None });
    assert_eq!(slots[1].x, 30_000);
    assert_eq!(slots[3].y, 30_000);
}

#[test]
fn gutter_past_half_the_leftover_collapses_columns() {
    // with gutter g, columns = floor((100 + g) / (30 + g)); g = 40 leaves
    // exactly two columns, g = 71 leaves one
    let card = Dimensions { width: 30_000, height: 30_000 };
    let page = Dimensions { width: 100_000, height: 100_000 };
    for (g, expected) in [(0i64, 9usize), (40_000, 4), (71_000, 1)] {
        let auto = Automatic {
            crop_lines: None,
            margins: Margins { top: 0, right: 0, bottom: 0, left: 0 },
            gutter: Gutter { horizontal: g, vertical: g },
            align: Align::Left,
        };
        let (slots, _) = auto.compile(&page, &card, &Units::Points);
        assert_eq!(slots.len(), expected);
    }
}

#[test]
fn center_alignment_splits_leftover_evenly() {
    // page 100, item 30, no gutter: leftover 10, so the grid starts at 5
    let auto = Automatic {
        crop_lines: None,
        margins: Margins { top: 0, right: 0, bottom: 0, left: 0 },
        gutter: Gutter { horizontal: 0, vertical: 0 },
        align: Align::Center,
    };
    let page = Dimensions { width: 100_000, height: 100_000 };
    let card = Dimensions { width: 30_000, height: 30_000 };
    let (slots, _) = auto.compile(&page, &card, &Units::Points);
    assert_eq!(slots[0].x, 5_000);
    let last = &slots[slots.len() - 1];
    assert_eq!(100_000 - (last.x + 30_000), 5_000);
}

#[test]
fn automatic_crop_lines_mark_every_boundary() {
    let auto = Automatic {
        crop_lines: Some(CropLines { length: CropLineLength::Full }),
        margins: Margins { top: 0, right: 0, bottom: 0, left: 0 },
        gutter: Gutter { horizontal: 0, vertical: 0 },
        align: Align::Left,
    };
    let page = Dimensions { width: 100_000, height: 100_000 };
    let card = Dimensions { width: 50_000, height: 50_000 };
    let (slots, lines) = auto.compile(&page, &card, &Units::Points);
    assert_eq!(slots.len(), 4);
    // zero gutter: one line per row edge (3 horizontal), same vertically
    let horizontal = lines
        .iter()
        .filter(|l| l.orientation == CropLineOrientation::Horizontal)
        .count();
    let vertical = lines.iter().filter(|l| l.orientation == CropLineOrientation::Vertical).count();
    assert_eq!(horizontal, 3);
    assert_eq!(vertical, 3);
    assert!(lines.iter().all(|l| l.length == 100_000));
}

#[test]
fn margins_and_gutter_shorthands_expand() {
    assert_eq!(
        Margins::from_args(&vec![7]).unwrap(),
        Margins { top: 7, right: 7, bottom: 7, left: 7 }
    );
    assert_eq!(
        Margins::from_args(&vec![1, 2]).unwrap(),
        Margins { top: 1, right: 2, bottom: 1, left: 2 }
    );
    assert_eq!(
        Margins::from_args(&vec![1, 2, 3, 4]).unwrap(),
        Margins { top: 1, right: 2, bottom: 3, left: 4 }
    );
    assert_eq!(Margins::from_args(&vec![1, 2, 3]), Err(PlacementError::InvalidMarginArguments));
    assert_eq!(
        Gutter::from_args(&vec![5, 6]).unwrap(),
        Gutter { vertical: 5, horizontal: 6 }
    );
    assert_eq!(Gutter::from_args(&vec![]), Err(PlacementError::InvalidGutterArguments));
}

#[test]
fn unit_conversions_are_exact_for_points_and_inches() {
    assert_eq!(Units::Points.convert_to_points(2_500), 2_500);
    assert_eq!(Units::Inches.convert_to_points(8_500), 612_000);
    assert_eq!(Units::Millimeters.convert_to_points(1_000), 2_835);
    assert!(Units::from_str("PT").is_ok());
    assert!(Units::from_str("furlong").is_err());
}

#[test]
fn size_names_are_canonicalized() {
    assert_eq!(page_dimensions_from_name("US Letter").unwrap(), PageDimensions::Letter);
    assert_eq!(page_dimensions_from_name("a4").unwrap(), PageDimensions::A4);
    assert!(page_dimensions_from_name("a9").is_err());
    assert_eq!(card_size_from_name("Small--Square").unwrap(), CardSize::Square25);
    assert!(card_size_from_name("jumbo").is_err());
}

#[test]
fn page_sizes_compile_to_points() {
    let letter = PageSize { dimensions: PageDimensions::Letter, orientation: None };
    assert_eq!(letter.get_dimensions_in_points(&Units::Points), (612_000, 792_000));
    let wide = PageSize::letter_landscape();
    assert_eq!(wide.get_dimensions_in_points(&Units::Points), (792_000, 612_000));
    let a4 = PageSize { dimensions: PageDimensions::A4, orientation: None };
    assert_eq!(a4.get_dimensions_in_points(&Units::Points), (595_350, 841_995));
}

#[test]
fn sheet_type_without_placement_is_rejected() {
    let sheet_type = SheetType {
        name: "bare".to_string(),
        units: Units::Points,
        page_size: PageSize { dimensions: PageDimensions::Custom(100_000, 100_000), orientation: None },
        card_size: CardSize::Custom(30_000, 30_000),
        automatic: None,
        manual: None,
    };
    assert_eq!(sheet_type.compile(), Err(PlacementError::Missing));
}

#[test]
fn manual_placement_compiles_slots_and_drops_zero_length_lines() {
    let manual = manual::Manual {
        crop_lines: Some(manual::CropLines {
            length: Some(10_000),
            lines: vec![
                manual::Line::Horizontal(5_000, None),
                manual::Line::Vertical(6_000, Some(0)),
            ],
        }),
        cards: vec![manual::Card { x: 1_000, y: 2_000, rotate: None, flip: Some(manual::Axis::Vertical) }],
    };
    let (slots, lines) = manual.compile(&Units::Points);
    assert_eq!(slots.len(), 1);
    assert_eq!(slots[0].x, 1_000);
    assert_eq!(slots[0].y, 2_000);
    // the zero-length vertical line is dropped, the defaulted one stays
    assert_eq!(lines.len(), 1);
    assert_eq!(lines[0].orientation, CropLineOrientation::Horizontal);
    assert_eq!(lines[0].length, 10_000);
}

#[test]
fn image_fit_touches_frame_on_one_axis() {
    let frame = Frame { x: 10, y: 10, w: 100, h: 50 };
    // a square image in a wide frame: height is the limiting axis
    let b = scaled_image_bounds(&Scale::Fit, &frame, 200, 200);
    assert_eq!(b.h, 50);
    assert_eq!(b.w, 50);
    assert!(b.x >= 10 && b.x + b.w <= 110);
    assert!(b.y >= 10 && b.y + b.h <= 60);
}

#[test]
fn image_fill_covers_frame() {
    let frame = Frame { x: 10, y: 10, w: 100, h: 50 };
    let b = scaled_image_bounds(&Scale::Fill, &frame, 200, 200);
    assert_eq!(b.w, 100);
    assert_eq!(b.h, 100);
    assert!(b.x <= 10 && 110 <= b.x + b.w);
    assert!(b.y <= 10 && 60 <= b.y + b.h);
}

#[test]
fn image_stretch_equals_frame_and_unscaled_is_centered() {
    let frame = Frame { x: 10, y: 10, w: 100, h: 50 };
    let stretched = scaled_image_bounds(&Scale::Stretch, &frame, 200, 200);
    assert_eq!((stretched.x, stretched.y, stretched.w, stretched.h), (10, 10, 100, 50));
    let unscaled = scaled_image_bounds(&Scale::NoScale, &frame, 20, 20);
    // centered on (60, 35)
    assert_eq!((unscaled.x, unscaled.y, unscaled.w, unscaled.h), (50, 25, 20, 20));
}

#[test]
fn scale_mode_names_parse() {
    assert_eq!(Scale::from_str("fit").unwrap(), Scale::Fit);
    assert_eq!(Scale::from_str("none").unwrap(), Scale::NoScale);
    assert!(Scale::from_str("zoom").is_err());
}

#[test]
fn path_styles_fold_into_paint() {
    let project = Project::new();
    let bindings: Vec<(String, String)> = vec![];
    let styles = vec![
        cardboard::model::styles::PathStyle::Solid(cardboard::model::styles::Solid {
            color: ColorRef::Static(Color::RGB(1, 2, 3)),
        }),
        cardboard::model::styles::PathStyle::Stroke(cardboard::model::stroke::Stroke {
            width: 3,
            color: ColorRef::Named(TemplateAwareString::new("black".to_string())),
            pattern: cardboard::model::stroke::DashPattern::Solid,
        }),
    ];
    let paint = resolve_path_paint(&styles, &project, &bindings).unwrap();
    assert_eq!(paint.fill, Some(Color::RGB(1, 2, 3)));
    let stroke = paint.stroke.unwrap();
    assert_eq!(stroke.width, 3);
    assert_eq!(stroke.color, Color::RGBA(0, 0, 0, 0xff));
    assert!(paint.visible);
}

#[test]
fn cards_synthesize_ids_and_strip_explicit_id_fields() {
    let with_id = card_from_record(
        0,
        None,
        vec![("id".to_string(), "hero_1".to_string()), ("name".to_string(), "Hero".to_string())],
    );
    assert_eq!(with_id.id, "hero_1".to_string());
    assert_eq!(with_id.fields, vec![("name".to_string(), "Hero".to_string())]);

    let doc = "spells".to_string();
    let without_id = card_from_record(6, Some(&doc), vec![]);
    assert_eq!(without_id.id, "spells_0007".to_string());

    assert_eq!(generate_id(0, None), "0001".to_string());
    assert_eq!(generate_id(12344, None), "12345".to_string());
}

#[test]
fn card_fields_shadow_and_blank_layout_reads_as_none() {
    let mut card = Card::new("c1".to_string());
    card.set_field("layout".to_string(), "hero".to_string());
    card.set_field("layout".to_string(), "".to_string());
    assert_eq!(card.layout_name(), None);
    card.set_field("layout".to_string(), "villain".to_string());
    assert_eq!(card.layout_name(), Some("villain".to_string()));
}

#[test]
fn deck_lines_expand_counts() {
    match parse_deck_line("3 mountain") {
        DeckLine::Counted(n, id) => {
            assert_eq!(n, 3);
            assert_eq!(id, "mountain".to_string());
        },
        _ => panic!("expected a counted line"),
    }
    match parse_deck_line("mountain") {
        DeckLine::Single(id) => assert_eq!(id, "mountain".to_string()),
        _ => panic!("expected a bare identifier"),
    }
    match parse_deck_line("12") {
        DeckLine::Single(id) => assert_eq!(id, "12".to_string()),
        _ => panic!("expected a bare identifier"),
    }
}

#[test]
fn sheet_positions_wrap_by_capacity() {
    assert_eq!(sheet_position(0, 9), (0, 0));
    assert_eq!(sheet_position(8, 9), (0, 8));
    assert_eq!(sheet_position(9, 9), (1, 0));
    assert_eq!(sheet_position(22, 9), (2, 4));
}

#[test]
fn broken_template_surfaces_an_error() {
    let tpl = TemplateAwareString::new("{{#if}}".to_string());
    let bindings: Vec<(String, String)> = vec![];
    assert!(tpl.render(&bindings).is_err());
}

#[test]
fn crop_lines_break_into_segments() {
    let page = Dimensions { width: 100_000, height: 80_000 };
    // longer than half the page: one full-width stroke
    let long = CropLine {
        orientation: CropLineOrientation::Horizontal,
        offset: 7_000,
        length: 60_000,
    };
    let segs = crop_line_segments(&long, &page);
    assert_eq!(segs.len(), 1);
    assert_eq!((segs[0].x1, segs[0].x2), (0, 100_000));
    // short: two edge ticks of its own length
    let short = CropLine { orientation: CropLineOrientation::Horizontal, offset: 7_000, length: 10_000 };
    let segs = crop_line_segments(&short, &page);
    assert_eq!(segs.len(), 2);
    assert_eq!((segs[0].x1, segs[0].x2), (0, 10_000));
    assert_eq!((segs[1].x1, segs[1].x2), (90_000, 100_000));
}

#[test]
fn text_runs_follow_push_and_pop() {
    let project = Project::new();
    let bindings: Vec<(String, String)> = vec![];
    let base = FlatTextStyle::default();
    let instructions = cardboard::format::parse("plain <b>bold</b> after");
    let (runs, warnings) = text_runs(&instructions, &base, &project, &bindings).unwrap();
    assert_eq!(runs.len(), 3);
    assert_eq!(runs[0].text, "plain ".to_string());
    assert_eq!(runs[0].style.font_weight, Weight::Normal);
    assert_eq!(runs[1].text, "bold".to_string());
    assert_eq!(runs[1].style.font_weight, Weight::Bold);
    assert_eq!(runs[2].text, " after".to_string());
    assert_eq!(runs[2].style.font_weight, Weight::Normal);
    assert!(warnings.is_empty());
}

#[test]
fn sythesize_for_picks_page_by_region() {
    let geometry = Geometry {
        width: 825,
        height: 1125,
        cut: Insets { top: 37, right: 37, bottom: 37, left: 37 },
        safe: Insets { top: 75, right: 75, bottom: 75, left: 75 },
        dpi: 300,
    };
    let us = "US".to_string();
    let st = SheetType::sythesize_for(&geometry, Some(&us));
    assert_eq!(st.page_size, PageSize::letter_landscape());
    let de = "DE".to_string();
    let st = SheetType::sythesize_for(&geometry, Some(&de));
    assert_eq!(st.page_size, PageSize::a4_landscape());
    // content 751x1051 px at 300 dpi, in thousandths of an inch
    assert_eq!(st.card_size, CardSize::Custom(2503, 3503));
}
