use astra_kernel::css::parser::{parse_css, parse_i32, Color, PropertyValue, Stylesheet};
use astra_kernel::css::selector::{matches_selector, matching_rules, parse_selector, ComputedStyle, SelectorType, Specificity};
use astra_kernel::html::{ElementData, Node, NodeType};
use astra_kernel::layout::box_model::{Dimensions, Rect};
use astra_kernel::layout::layout_tree::{calculate_block_width, BoxType, LayoutBox};

fn red() -> Color {
    Color::new(255, 0, 0)
}

#[test]
fn test_color_parsing() {
    assert_eq!(Color::from_hex("#FF0000"), Some(red()));
    assert_eq!(Color::from_hex("#F00"), Some(red()));
    assert_eq!(Color::from_name("white"), Some(Color::new(255, 255, 255)));
}

#[test]
fn color_edge_cases() {
    assert_eq!(Color::from_hex("#1a2B3c"), Some(Color::new(0x1a, 0x2b, 0x3c)));
    assert_eq!(Color::from_hex("FF0000"), None);
    assert_eq!(Color::from_hex("#FF00"), None);
    assert_eq!(Color::from_hex("#GG0000"), None);
    assert_eq!(Color::from_name("MaGeNtA"), Some(Color::new(255, 0, 255)));
    assert_eq!(Color::from_name("purple"), None);
    assert_eq!(parse_i32(&"-2147483648".chars().collect()), Some(i32::MIN));
    assert_eq!(parse_i32(&"2147483648".chars().collect()), None);
    assert_eq!(parse_i32(&"-+1".chars().collect()), None);
    assert_eq!(parse_i32(&"+12".chars().collect()), Some(12));
}

#[test]
fn test_css_parsing() {
    let css = "h1 { color: #FF0000; font-size: 20; }";
    let stylesheet = parse_css(css);
    assert_eq!(stylesheet.rules.len(), 1);
    assert_eq!(stylesheet.rules[0].selectors[0], "h1");
    assert_eq!(stylesheet.rules[0].declarations.len(), 2);
}

#[test]
fn css_values_and_recovery() {
    let sheet = parse_css("p, .note { margin: 5; display: inline; color: blue }  { junk } #x{}");
    assert_eq!(sheet.rules.len(), 2);
    assert_eq!(sheet.rules[0].selectors, vec![String::from("p"), String::from(".note")]);
    let d = &sheet.rules[0].declarations;
    assert!(matches!(d[0].value, PropertyValue::Length(5)));
    assert!(matches!(&d[1].value, PropertyValue::Keyword(k) if k == "inline"));
    assert!(matches!(d[2].value, PropertyValue::Color(c) if c == Color::new(0, 0, 255)));
    assert_eq!(sheet.rules[1].selectors[0], "#x");
    assert_eq!(parse_css("{{{").rules.len(), 0);
    let defaults = Stylesheet::default_styles();
    assert_eq!(defaults.rules.len(), 3);
    assert_eq!(defaults.rules[1].selectors[0], "h1");
}

#[test]
fn test_selector_parsing() {
    assert!(matches!(parse_selector("h1"), SelectorType::Tag(s) if s == "h1"));
    assert!(matches!(parse_selector(".my-class"), SelectorType::Class(s) if s == "my-class"));
    assert!(matches!(parse_selector("#my-id"), SelectorType::Id(s) if s == "my-id"));
}

#[test]
fn test_selector_matching() {
    let element = ElementData { tag_name: String::from("div"), attributes: Vec::new() };
    assert!(matches_selector(&element, &SelectorType::Tag(String::from("div"))));
    assert!(!matches_selector(&element, &SelectorType::Tag(String::from("p"))));
    let mut attrs = Vec::new();
    attrs.push((String::from("class"), String::from("foo bar")));
    let element = ElementData { tag_name: String::from("div"), attributes: attrs };
    assert!(matches_selector(&element, &SelectorType::Class(String::from("foo"))));
    assert!(matches_selector(&element, &SelectorType::Class(String::from("bar"))));
    assert!(!matches_selector(&element, &SelectorType::Class(String::from("baz"))));
}

#[test]
fn rules_ordered_by_specificity() {
    let sheet = parse_css("div { a: 1 } #main { b: 2 } .box { c: 3 } p { d: 4 } div { e: 5 }");
    let element = ElementData {
        tag_name: String::from("div"),
        attributes: vec![(String::from("id"), String::from("main")), (String::from("class"), String::from("box"))],
    };
    let m = matching_rules(&element, &sheet);
    let order: Vec<usize> = m.iter().map(|r| r.rule).collect();
    assert_eq!(order, vec![1, 2, 0, 4]);
    assert_eq!(m[0].specificity, Specificity { id: 1, class: 0, tag: 0 });
    let node = Node::element(String::from("p"), Vec::new(), vec![Node::text(String::from("hi")), Node::comment(String::from("c"))]);
    assert_eq!(node.children.len(), 2);
    assert!(matches!(&node.children[0].node_type, NodeType::Text(t) if t == "hi"));
}

#[test]
fn test_box_type() {
    let style = ComputedStyle::new();
    let layout_box = LayoutBox::new(BoxType::Block, style);
    assert_eq!(layout_box.box_type, BoxType::Block);
}

#[test]
fn test_layout_dimensions() {
    let mut style = ComputedStyle::new();
    style.set(String::from("width"), PropertyValue::Length(100));
    style.set(String::from("margin"), PropertyValue::Length(10));
    let mut layout_box = LayoutBox::new(BoxType::Block, style);
    let containing_block = Dimensions { content: Rect::new(0, 0, 800, 600), ..Dimensions::default() };
    calculate_block_width(&mut layout_box, containing_block);
    assert_eq!(layout_box.dimensions.content.width, 100);
    assert_eq!(layout_box.dimensions.margin.left, 10);
}

#[test]
fn auto_width_fills_container() {
    let mut style = ComputedStyle::new();
    style.set(String::from("padding"), PropertyValue::Length(4));
    style.set(String::from("padding"), PropertyValue::Length(5));
    style.set(String::from("margin-left"), PropertyValue::Length(7));
    assert!(matches!(style.get("padding"), Some(PropertyValue::Length(5))));
    assert!(style.get("width").is_none());
    let mut b = LayoutBox::new(BoxType::Inline, style);
    calculate_block_width(&mut b, Dimensions { content: Rect::new(0, 0, 300, 0), ..Dimensions::default() });
    assert_eq!(b.dimensions.content.width, 300 - 7 - 5 - 5);
    assert_eq!(b.dimensions.margin.right, 0);
}
