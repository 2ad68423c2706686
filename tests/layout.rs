use astra_kernel::layout::box_model::{Dimensions, EdgeSizes, Rect};

#[test]
fn test_rect_contains() {
    let rect = Rect::new(10, 10, 100, 50);
    assert!(rect.contains(50, 30));
    assert!(!rect.contains(5, 30));
    assert!(!rect.contains(50, 5));
}

#[test]
fn test_edge_sizes() {
    let edges = EdgeSizes::uniform(10);
    assert_eq!(edges.horizontal(), 20);
    assert_eq!(edges.vertical(), 20);
}

#[test]
fn test_dimensions() {
    let mut dims = Dimensions::new();
    dims.content = Rect::new(0, 0, 100, 50);
    dims.padding = EdgeSizes::uniform(5);
    dims.border = EdgeSizes::uniform(2);
    dims.margin = EdgeSizes::uniform(10);
    assert_eq!(dims.border_box_width(), 100 + 10 + 4);
    assert_eq!(dims.margin_box_width(), 100 + 10 + 4 + 20);
}

#[test]
fn boxes_grow_outward() {
    let dims = Dimensions {
        content: Rect::new(20, 30, 100, 50),
        padding: EdgeSizes::new(1, 2, 3, 4),
        border: EdgeSizes::uniform(1),
        margin: EdgeSizes::new(5, 5, 5, 5),
    };
    assert_eq!(dims.padding_box(), Rect::new(16, 29, 106, 54));
    assert_eq!(dims.border_box(), Rect::new(15, 28, 108, 56));
    assert_eq!(dims.margin_box(), Rect::new(10, 23, 118, 66));
    assert_eq!(dims.border_box_height(), 56);
    assert_eq!(dims.margin_box_height(), 66);
    assert_eq!(Rect::new(1, 2, 3, 4).bottom_right(), (4, 6));
    assert!(!Rect::new(0, 0, 10, 10).contains(10, 5));
}
