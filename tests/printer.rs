use facet::peek::{PeekField, PeekKind, PeekNode, ValueGraph};
use facet::printer::PrettyPrinter;
use facet::style::{ColorGenerator, Rgb};

fn scalar(addr: usize, name: &str, display: Option<&str>, debug: Option<&str>) -> PeekNode {
    PeekNode {
        addr,
        type_label: name.to_string(),
        shape_hash: 7,
        kind: PeekKind::Scalar {
            display: display.map(|s| s.to_string()),
            debug: debug.map(|s| s.to_string()),
        },
    }
}

fn field(name: &str, sensitive: bool, value: usize) -> PeekField {
    PeekField { name: name.to_string(), sensitive, value }
}

fn structure(addr: usize, name: &str, fields: Vec<PeekField>) -> PeekNode {
    PeekNode { addr, type_label: name.to_string(), shape_hash: 3, kind: PeekKind::Struct { fields } }
}

/// `Blah { foo: 1u32, bar: "hi" }`, with `bar` optionally sensitive.
fn blah(bar_sensitive: bool) -> ValueGraph {
    let mut g = ValueGraph::new();
    g.add(structure(100, "Blah", vec![field("foo", false, 1), field("bar", bar_sensitive, 2)]));
    g.add(scalar(100, "u32", Some("1"), Some("1")));
    g.add(scalar(104, "String", Some("hi"), Some("\"hi\"")));
    g
}

fn plain() -> PrettyPrinter {
    PrettyPrinter::new().with_colors(false)
}

#[test]
fn test_pretty_printer_default() {
    let printer = PrettyPrinter::default();
    assert_eq!(printer.indent_size, 2);
    assert_eq!(printer.max_depth, None);
    assert!(printer.use_colors);
}

#[test]
fn test_pretty_printer_with_methods() {
    let printer = PrettyPrinter::new()
        .with_indent_size(4)
        .with_max_depth(3)
        .with_colors(false);

    assert_eq!(printer.indent_size, 4);
    assert_eq!(printer.max_depth, Some(3));
    assert!(!printer.use_colors);
}

#[test]
fn simple_struct_renders_every_field() {
    let out = plain().format(&blah(false));
    assert_eq!(out, "Blah {\n  foo: 1,\n  bar: hi,\n}");
}

#[test]
fn sensitive_field_is_redacted() {
    let out = plain().format(&blah(true));
    assert_eq!(out, "Blah {\n  foo: 1,\n  bar: [REDACTED],\n}");
    assert!(!out.contains("hi"));
}

#[test]
fn max_depth_zero_elides_nested_struct() {
    let mut g = ValueGraph::new();
    g.add(structure(10, "Outer", vec![field("inner", false, 1)]));
    g.add(structure(20, "Inner", vec![field("x", false, 2)]));
    g.add(scalar(20, "u8", Some("5"), None));
    let out = plain().with_max_depth(0).format(&g);
    assert_eq!(out, "Outer {\n  inner: [...,\n}");
    assert!(!out.contains("Inner"));
}

#[test]
fn scalar_without_hooks_shows_type_name_and_placeholder() {
    let mut g = ValueGraph::new();
    g.add(scalar(1, "Opaque", None, None));
    assert_eq!(plain().format(&g), "Opaque(⋯)");
}

#[test]
fn scalar_falls_back_to_debug() {
    let mut g = ValueGraph::new();
    g.add(scalar(1, "Thing", None, Some("Thing { a: 1 }")));
    assert_eq!(plain().format(&g), "Thing { a: 1 }");
}

#[test]
fn rendering_twice_is_identical() {
    let g = blah(false);
    let p = PrettyPrinter::new();
    assert_eq!(p.format(&g), p.format(&g));
    let q = plain().with_indent_size(3);
    assert_eq!(q.format(&g), q.format(&g));
}

#[test]
fn self_reference_renders_cycle_marker() {
    let mut g = ValueGraph::new();
    g.add(structure(1000, "Node", vec![field("next", false, 1)]));
    g.add(structure(2000, "Link", vec![field("back", false, 0)]));
    let out = plain().format(&g);
    assert_eq!(
        out,
        "Node {\n  next: Link {\n    back: Node { /* cycle detected at 0x3e8 (first seen at type_depth 0) */ },\n  },\n}"
    );
}

#[test]
fn nested_structs_at_one_address_are_not_a_cycle() {
    let mut g = ValueGraph::new();
    g.add(structure(1, "A", vec![field("b", false, 1)]));
    g.add(structure(1, "B", vec![field("c", false, 2)]));
    g.add(scalar(1, "u32", Some("7"), None));
    let out = plain().format(&g);
    assert_eq!(out, "A {\n  b: B {\n    c: 7,\n  },\n}");
    assert!(!out.contains("cycle"));
}

#[test]
fn back_reference_through_indirection_is_cut_once() {
    let mut g = ValueGraph::new();
    g.add(structure(5, "Loop", vec![field("next", false, 1)]));
    g.add(structure(5, "Inner", vec![field("ptr", false, 2)]));
    g.add(structure(9, "Boxed", vec![field("back", false, 0)]));
    let out = plain().format(&g);
    assert_eq!(
        out,
        "Loop {\n  next: Inner {\n    ptr: Boxed {\n      back: Loop { /* cycle detected at 0x5 (first seen at type_depth 0) */ },\n    },\n  },\n}"
    );
    assert_eq!(out.matches("cycle detected").count(), 1);
}

#[test]
fn opaque_scalar_through_format_value() {
    let node = scalar(1, "Opaque", None, None);
    let mut out = String::from("x=");
    plain().format_value(&node, &mut out);
    assert_eq!(out, "x=Opaque(⋯)");
}

#[test]
fn sensitive_nested_structure_never_appears() {
    let mut g = ValueGraph::new();
    g.add(structure(1, "Config", vec![field("name", false, 1), field("secret", true, 2)]));
    g.add(scalar(2, "String", Some("svc"), None));
    g.add(structure(3, "Credentials", vec![field("token", false, 3)]));
    g.add(structure(4, "Token", vec![field("raw", false, 4)]));
    g.add(scalar(5, "String", Some("hunter2"), None));
    let out = plain().format(&g);
    assert_eq!(out, "Config {\n  name: svc,\n  secret: [REDACTED],\n}");
    assert!(!out.contains("Credentials"));
    assert!(!out.contains("Token"));
    assert!(!out.contains("hunter2"));
}

#[test]
fn list_items_render_with_brackets() {
    let mut g = ValueGraph::new();
    g.add(PeekNode {
        addr: 50,
        type_label: "Vec<u8>".to_string(),
        shape_hash: 9,
        kind: PeekKind::List { items: vec![1, 2] },
    });
    g.add(scalar(60, "u8", Some("7"), None));
    g.add(scalar(61, "u8", Some("8"), None));
    assert_eq!(plain().format(&g), "Vec<u8> [\n  7,\n  8,\n]");
}

#[test]
fn empty_list_and_empty_struct() {
    let mut g = ValueGraph::new();
    g.add(structure(1, "Holder", vec![field("xs", false, 1), field("unit", false, 2)]));
    g.add(PeekNode {
        addr: 2,
        type_label: "Vec<u8>".to_string(),
        shape_hash: 9,
        kind: PeekKind::List { items: vec![] },
    });
    g.add(structure(3, "Unit", vec![]));
    assert_eq!(plain().format(&g), "Holder {\n  xs: Vec<u8> [\n  ],\n  unit: Unit { },\n}");
}

#[test]
fn map_renders_placeholder() {
    let mut g = ValueGraph::new();
    g.add(PeekNode {
        addr: 1,
        type_label: "HashMap<String, u8>".to_string(),
        shape_hash: 4,
        kind: PeekKind::Dict,
    });
    assert_eq!(plain().format(&g), "HashMap<String, u8> {\n  /* Map contents */\n}");
}

#[test]
fn unsupported_variant_is_reported() {
    let mut g = ValueGraph::new();
    g.add(PeekNode { addr: 1, type_label: "Fn".to_string(), shape_hash: 4, kind: PeekKind::Other });
    assert_eq!(plain().format(&g), "unsupported peek variant: Fn\n");
}

#[test]
fn indent_size_scales_indentation() {
    let out = plain().with_indent_size(4).format(&blah(false));
    assert_eq!(out, "Blah {\n    foo: 1,\n    bar: hi,\n}");
}

#[test]
fn colored_output_uses_escape_codes() {
    let mut g = ValueGraph::new();
    g.add(structure(1, "S", vec![field("a", false, 1), field("k", true, 2)]));
    g.add(scalar(2, "u8", Some("9"), None));
    g.add(scalar(3, "u8", Some("0"), None));
    let p = PrettyPrinter::new().with_color_generator(ColorGenerator::new(vec![Rgb { r: 1, g: 2, b: 3 }]));
    let out = p.format(&g);
    let expected = "\x1b[1mS\x1b[0m\x1b[2m {\x1b[0m\n  \x1b[38;2;114;160;193ma\x1b[0m\x1b[2m: \x1b[0m\x1b[38;2;1;2;3m9\x1b[0m\x1b[2m,\x1b[0m\n  \x1b[38;2;114;160;193mk\x1b[0m\x1b[2m: \x1b[0m\x1b[38;2;224;49;49m\x1b[1m[REDACTED]\x1b[0m\x1b[2m,\x1b[0m\n\x1b[2m}\x1b[0m";
    assert_eq!(out, expected);
}

#[test]
fn format_peek_renders_a_subtree() {
    let g = blah(false);
    assert_eq!(plain().format_peek(&g, 2), "hi");
    let mut out = String::from(">");
    plain().format_to(&g, &mut out);
    assert_eq!(out, ">Blah {\n  foo: 1,\n  bar: hi,\n}");
}

#[test]
fn color_generator_is_stable_per_hash() {
    let c = ColorGenerator::new(vec![Rgb { r: 1, g: 1, b: 1 }, Rgb { r: 2, g: 2, b: 2 }]);
    assert_eq!(c.generate_color(5), Rgb { r: 2, g: 2, b: 2 });
    assert_eq!(c.generate_color(4), Rgb { r: 1, g: 1, b: 1 });
    assert_eq!(c.generate_color(5), c.generate_color(5));
    let empty = ColorGenerator::new(vec![]);
    assert_eq!(empty.generate_color(5), Rgb { r: 200, g: 200, b: 200 });
    assert_eq!(ColorGenerator::default().palette.len(), 12);
    assert_eq!(ColorGenerator::default().palette[0], Rgb { r: 230, g: 102, b: 102 });
    assert_eq!(PrettyPrinter::new().color_generator.palette, ColorGenerator::default().palette);
}

#[test]
fn style_helpers_without_colors_return_text() {
    let p = plain();
    assert_eq!(p.style_punctuation("}"), "}");
    assert_eq!(p.style_comment("/* x */"), "/* x */");
    assert_eq!(p.style_redacted("[REDACTED]"), "[REDACTED]");
    assert_eq!(p.style_type_name("T"), "T");
    let c = PrettyPrinter::new();
    assert_eq!(c.style_punctuation(","), "\x1b[2m,\x1b[0m");
    assert_eq!(c.style_type_name("T"), "\x1b[1mT\x1b[0m");
}

#[test]
fn sensitive_target_does_not_change_output() {
    let mut g = ValueGraph::new();
    g.add(structure(1, "Login", vec![field("user", false, 1), field("password", true, 2)]));
    g.add(scalar(2, "String", Some("ann"), None));
    g.add(scalar(3, "String", Some("pw-one"), None));
    g.add(structure(4, "Deep", vec![field("inner", false, 0)]));
    let mut h = ValueGraph::new();
    h.add(structure(1, "Login", vec![field("user", false, 1), field("password", true, 3)]));
    h.add(scalar(2, "String", Some("ann"), None));
    h.add(scalar(3, "String", Some("pw-one"), None));
    h.add(structure(4, "Deep", vec![field("inner", false, 0)]));
    let p = PrettyPrinter::new();
    assert_eq!(p.format(&g), p.format(&h));
    assert!(!p.format(&g).contains("pw-one"));
    assert!(!p.format(&h).contains("Deep"));
}
