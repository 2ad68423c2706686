//! Layout boxes and the width rule for block boxes.
use vstd::prelude::*;
use crate::css::parser::PropertyValue;
use crate::css::selector::ComputedStyle;
use crate::layout::box_model::{Dimensions, fits_i32};

verus! {

#[derive(Clone, Copy, Debug, PartialEq, Eq, Structural)]
pub enum BoxType {
    Block,
    Inline,
    /// Wraps the inline children of a block.
    Anonymous,
}

#[derive(Debug)]
pub struct LayoutBox {
    pub box_type: BoxType,
    pub dimensions: Dimensions,
    pub style: ComputedStyle,
    pub children: Vec<Box<LayoutBox>>,
    pub element_name: Option<String>,
}

/// A length property of the style, or `default` when it is not a length.
pub open spec fn style_length(style: ComputedStyle, name: Seq<char>, default: i32) -> i32 {
    match style.value_of(name) {
        Some(PropertyValue::Length(n)) => n,
        _ => default,
    }
}

/// A side's own value, or the shorthand when the side's is 0.
pub open spec fn side_or(own: i32, shorthand: i32) -> i32 {
    if own == 0 {
        shorthand
    } else {
        own
    }
}

impl LayoutBox {
    /// A box with zero dimensions and no children.
    pub fn new(box_type: BoxType, style: ComputedStyle) -> (r: Self)
        ensures
            r.box_type == box_type,
            r.style.entries() == style.entries(),
            r.dimensions == Dimensions::new_spec(),
            r.children@.len() == 0,
            r.element_name is None,
    {
        LayoutBox { box_type, dimensions: Dimensions::new(), style, children: Vec::new(), element_name: None }
    }

    fn get_style_length(&self, name: &str, default: i32) -> (r: i32)
        ensures
            r == style_length(self.style, name@, default),
    {
        match self.style.get(name) {
            Some(PropertyValue::Length(n)) => *n,
            _ => default,
        }
    }
}

/// Horizontal margins, borders and paddings as `calculate_block_width`
/// resolves them: left/right margin, border, padding.
pub open spec fn horizontal_edges(style: ComputedStyle) -> (i32, i32, i32, i32, i32, i32) {
    let margin = style_length(style, "margin"@, 0);
    let padding = style_length(style, "padding"@, 0);
    (
        side_or(style_length(style, "margin-left"@, 0), margin),
        side_or(style_length(style, "margin-right"@, 0), margin),
        style_length(style, "border-left-width"@, 0),
        style_length(style, "border-right-width"@, 0),
        side_or(style_length(style, "padding-left"@, 0), padding),
        side_or(style_length(style, "padding-right"@, 0), padding),
    )
}

/// Sets a block box's width and horizontal edges: an explicit `width`
/// length is used as is, otherwise the box fills the containing block.
/// The `margin` and `padding` shorthands apply to a side whose own value
/// is 0.
pub fn calculate_block_width(layout_box: &mut LayoutBox, containing_block: Dimensions)
    requires
        ({
            let e = horizontal_edges(old(layout_box).style);
            let total = e.0 + e.1 + e.2 + e.3 + e.4 + e.5;
            fits_i32(total) && fits_i32(containing_block.content.width - total) && fits_i32(e.0 + e.1)
                && fits_i32(e.0 + e.1 + e.2) && fits_i32(e.0 + e.1 + e.2 + e.3) && fits_i32(e.0 + e.1 + e.2 + e.3 + e.4)
        }),
    ensures
        ({
            let e = horizontal_edges(old(layout_box).style);
            let total = e.0 + e.1 + e.2 + e.3 + e.4 + e.5;
            let d = final(layout_box).dimensions;
            &&& d.content.width == match old(layout_box).style.value_of("width"@) {
                Some(PropertyValue::Length(w)) => w as int,
                _ => containing_block.content.width - total,
            }
            &&& d.margin.left == e.0 && d.margin.right == e.1
            &&& d.border.left == e.2 && d.border.right == e.3
            &&& d.padding.left == e.4 && d.padding.right == e.5
            &&& d.content.x == old(layout_box).dimensions.content.x && d.content.y == old(layout_box).dimensions.content.y
            &&& d.content.height == old(layout_box).dimensions.content.height
            &&& d.margin.top == old(layout_box).dimensions.margin.top
            &&& final(layout_box).box_type == old(layout_box).box_type
        }),
{
    let margin_left = layout_box.get_style_length("margin-left", 0);
    let margin_right = layout_box.get_style_length("margin-right", 0);
    let border_left = layout_box.get_style_length("border-left-width", 0);
    let border_right = layout_box.get_style_length("border-right-width", 0);
    let padding_left = layout_box.get_style_length("padding-left", 0);
    let padding_right = layout_box.get_style_length("padding-right", 0);
    let margin = layout_box.get_style_length("margin", 0);
    let margin_left = if margin_left == 0 { margin } else { margin_left };
    let margin_right = if margin_right == 0 { margin } else { margin_right };
    let padding = layout_box.get_style_length("padding", 0);
    let padding_left = if padding_left == 0 { padding } else { padding_left };
    let padding_right = if padding_right == 0 { padding } else { padding_right };
    let total = margin_left + margin_right + border_left + border_right + padding_left + padding_right;
    let width = match layout_box.style.get("width") {
        Some(PropertyValue::Length(w)) => *w,
        _ => containing_block.content.width - total,
    };
    layout_box.dimensions.content.width = width;
    layout_box.dimensions.padding.left = padding_left;
    layout_box.dimensions.padding.right = padding_right;
    layout_box.dimensions.border.left = border_left;
    layout_box.dimensions.border.right = border_right;
    layout_box.dimensions.margin.left = margin_left;
    layout_box.dimensions.margin.right = margin_right;
}

} // verus!
