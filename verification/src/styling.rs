//! The editor's visual style: the style record with its dimensions (in
//! tenths of a pixel) and color table, the three built-in palettes, and the
//! stack-based temporary overrides for colors, style variables and attribute
//! flags, each guarded by a token that must be popped in last-in-first-out
//! order.

use vstd::prelude::*;

use crate::context::EditorContext;

verus! {

/// How many color settings the style holds.
pub const COLOR_STYLE_COUNT: usize = 29;

/// Identifies a specific color setting within the node editor's style.
#[derive(Debug, Copy, Clone, Eq, PartialEq, Hash, Structural)]
pub enum ColorStyle {
    /// Node background color.
    NodeBackground,
    /// Node background color when hovered.
    NodeBackgroundHovered,
    /// Node background color when selected.
    NodeBackgroundSelected,
    /// Node outline color.
    NodeOutline,
    /// Node title bar color.
    TitleBar,
    /// Node title bar color when hovered.
    TitleBarHovered,
    /// Node title bar color when selected.
    TitleBarSelected,
    /// Link color.
    Link,
    /// Link color when hovered.
    LinkHovered,
    /// Link color when selected.
    LinkSelected,
    /// Pin color.
    Pin,
    /// Pin color when hovered.
    PinHovered,
    /// Box selector background color.
    BoxSelector,
    /// Box selector outline color.
    BoxSelectorOutline,
    /// Editor background grid color.
    GridBackground,
    /// Editor grid line color.
    GridLine,
    /// Editor primary grid line color.
    GridLinePrimary,
    /// Minimap background color.
    MiniMapBackground,
    /// Minimap background color when hovered.
    MiniMapBackgroundHovered,
    /// Minimap outline color.
    MiniMapOutline,
    /// Minimap outline color when hovered.
    MiniMapOutlineHovered,
    /// Minimap node background color.
    MiniMapNodeBackground,
    /// Minimap node background color when hovered.
    MiniMapNodeBackgroundHovered,
    /// Minimap node background color when selected.
    MiniMapNodeBackgroundSelected,
    /// Minimap node outline color.
    MiniMapNodeOutline,
    /// Minimap link color.
    MiniMapLink,
    /// Minimap link color when selected.
    MiniMapLinkSelected,
    /// Minimap canvas background color.
    MiniMapCanvas,
    /// Minimap canvas outline color.
    MiniMapCanvasOutline,
}

/// The position of a color setting within the style's color table.
pub open spec fn color_style_index(c: ColorStyle) -> int {
    match c {
        ColorStyle::NodeBackground => 0,
        ColorStyle::NodeBackgroundHovered => 1,
        ColorStyle::NodeBackgroundSelected => 2,
        ColorStyle::NodeOutline => 3,
        ColorStyle::TitleBar => 4,
        ColorStyle::TitleBarHovered => 5,
        ColorStyle::TitleBarSelected => 6,
        ColorStyle::Link => 7,
        ColorStyle::LinkHovered => 8,
        ColorStyle::LinkSelected => 9,
        ColorStyle::Pin => 10,
        ColorStyle::PinHovered => 11,
        ColorStyle::BoxSelector => 12,
        ColorStyle::BoxSelectorOutline => 13,
        ColorStyle::GridBackground => 14,
        ColorStyle::GridLine => 15,
        ColorStyle::GridLinePrimary => 16,
        ColorStyle::MiniMapBackground => 17,
        ColorStyle::MiniMapBackgroundHovered => 18,
        ColorStyle::MiniMapOutline => 19,
        ColorStyle::MiniMapOutlineHovered => 20,
        ColorStyle::MiniMapNodeBackground => 21,
        ColorStyle::MiniMapNodeBackgroundHovered => 22,
        ColorStyle::MiniMapNodeBackgroundSelected => 23,
        ColorStyle::MiniMapNodeOutline => 24,
        ColorStyle::MiniMapLink => 25,
        ColorStyle::MiniMapLinkSelected => 26,
        ColorStyle::MiniMapCanvas => 27,
        ColorStyle::MiniMapCanvasOutline => 28,
    }
}

impl ColorStyle {
    /// The position of this color setting within the style's color table.
    pub fn index(self) -> (r: usize)
        ensures
            r as int == color_style_index(self),
            r < COLOR_STYLE_COUNT,
    {
        match self {
            ColorStyle::NodeBackground => 0,
            ColorStyle::NodeBackgroundHovered => 1,
            ColorStyle::NodeBackgroundSelected => 2,
            ColorStyle::NodeOutline => 3,
            ColorStyle::TitleBar => 4,
            ColorStyle::TitleBarHovered => 5,
            ColorStyle::TitleBarSelected => 6,
            ColorStyle::Link => 7,
            ColorStyle::LinkHovered => 8,
            ColorStyle::LinkSelected => 9,
            ColorStyle::Pin => 10,
            ColorStyle::PinHovered => 11,
            ColorStyle::BoxSelector => 12,
            ColorStyle::BoxSelectorOutline => 13,
            ColorStyle::GridBackground => 14,
            ColorStyle::GridLine => 15,
            ColorStyle::GridLinePrimary => 16,
            ColorStyle::MiniMapBackground => 17,
            ColorStyle::MiniMapBackgroundHovered => 18,
            ColorStyle::MiniMapOutline => 19,
            ColorStyle::MiniMapOutlineHovered => 20,
            ColorStyle::MiniMapNodeBackground => 21,
            ColorStyle::MiniMapNodeBackgroundHovered => 22,
            ColorStyle::MiniMapNodeBackgroundSelected => 23,
            ColorStyle::MiniMapNodeOutline => 24,
            ColorStyle::MiniMapLink => 25,
            ColorStyle::MiniMapLinkSelected => 26,
            ColorStyle::MiniMapCanvas => 27,
            ColorStyle::MiniMapCanvasOutline => 28,
        }
    }

    /// Pushes a color onto the editor's color stack for this setting. The
    /// change applies until the returned token is popped; tokens must be
    /// popped innermost first.
    #[must_use]
    pub fn push_color(self, color: u32, context: &mut EditorContext) -> (token: ColorToken)
        ensures
            final(context).spec_color_stack() == old(context).spec_color_stack().push(
                (PushedColor { target: self, color }),
            ),
            token.spec_depth() == final(context).spec_color_stack().len(),
            final(context).spec_events() == old(context).spec_events(),
            final(context).spec_style_var_stack() == old(context).spec_style_var_stack(),
            final(context).spec_attribute_flag_stack() == old(
                context,
            ).spec_attribute_flag_stack(),
            final(context).spec_panning() == old(context).spec_panning(),
    {
        proof {
            crate::context::lemma_context_views(*old(context));
        }
        context.color_stack.push(PushedColor { target: self, color });
        proof {
            crate::context::lemma_context_views(*context);
        }
        ColorToken { depth: context.color_stack.len() }
    }
}

/// One entry of the editor's color stack: which setting is overridden, and
/// with which packed color.
#[derive(Debug, Copy, Clone, Eq, PartialEq, Structural)]
pub struct PushedColor {
    /// The overridden color setting.
    pub target: ColorStyle,
    /// The override, as a packed color.
    pub color: u32,
}

/// A token for one pushed color. It must be handed back to [`ColorToken::pop`]
/// while its entry is the innermost one on the stack.
#[derive(Debug)]
pub struct ColorToken {
    depth: usize,
}

impl ColorToken {
    /// The depth of the color stack just after this token's push.
    pub closed spec fn spec_depth(self) -> int {
        self.depth as int
    }

    /// Pops the color change associated with this token, restoring the
    /// previous color.
    pub fn pop(self, context: &mut EditorContext)
        requires
            self.spec_depth() == old(context).spec_color_stack().len(),
            old(context).spec_color_stack().len() > 0,
        ensures
            final(context).spec_color_stack() == old(context).spec_color_stack().drop_last(),
            final(context).spec_events() == old(context).spec_events(),
            final(context).spec_style_var_stack() == old(context).spec_style_var_stack(),
            final(context).spec_attribute_flag_stack() == old(
                context,
            ).spec_attribute_flag_stack(),
            final(context).spec_panning() == old(context).spec_panning(),
    {
        proof {
            crate::context::lemma_context_views(*old(context));
        }
        let _ = context.color_stack.pop();
        proof {
            crate::context::lemma_context_views(*context);
            assert(context.color_stack@ =~= old(context).color_stack@.drop_last());
        }
    }
}

/// Where the minimap overlay sits on the editor canvas.
#[derive(Debug, Copy, Clone, Eq, PartialEq, Hash, Structural)]
pub enum MiniMapLocation {
    /// Bottom-left corner.
    BottomLeft,
    /// Bottom-right corner.
    BottomRight,
    /// Top-left corner.
    TopLeft,
    /// Top-right corner.
    TopRight,
}

/// Identifies a style variable; most take a single scalar, three take a pair.
#[derive(Debug, Copy, Clone, Eq, PartialEq, Hash, Structural)]
pub enum StyleVar {
    /// Scalar: spacing between grid lines.
    GridSpacing,
    /// Scalar: corner rounding radius for nodes.
    NodeCornerRounding,
    /// Pair: padding inside nodes.
    NodePadding,
    /// Scalar: thickness of node borders.
    NodeBorderThickness,
    /// Scalar: thickness of links between pins.
    LinkThickness,
    /// Scalar: line segments used to render links, per unit of length.
    LinkLineSegmentsPerLength,
    /// Scalar: distance threshold for detecting link hovering.
    LinkHoverDistance,
    /// Scalar: the circle radius of circular pins.
    PinCircleRadius,
    /// Scalar: the side length of square pins.
    PinQuadSideLength,
    /// Scalar: the side length of triangular pins.
    PinTriangleSideLength,
    /// Scalar: the line thickness of unfilled pins.
    PinLineThickness,
    /// Scalar: the radius within which a pin counts as hovered.
    PinHoverRadius,
    /// Scalar: how far pins sit from the node's edge.
    PinOffset,
    /// Pair: padding inside the minimap canvas.
    MiniMapPadding,
    /// Pair: offset of the minimap from its corner.
    MiniMapOffset,
}

/// Whether a style variable takes a pair of values rather than one scalar.
pub open spec fn style_var_takes_pair(v: StyleVar) -> bool {
    match v {
        StyleVar::NodePadding => true,
        StyleVar::MiniMapPadding => true,
        StyleVar::MiniMapOffset => true,
        _ => false,
    }
}

/// One entry of the editor's style-variable stack.
#[derive(Debug, Copy, Clone, Eq, PartialEq, Structural)]
pub enum PushedStyleVar {
    /// A scalar override, in tenths of a pixel.
    Scalar(StyleVar, u32),
    /// A pair override, in tenths of a pixel.
    Pair(StyleVar, u32, u32),
}

impl StyleVar {
    /// Pushes a scalar value, in tenths of a pixel, onto the style-variable
    /// stack. Style variables that take a pair are rejected, as the native
    /// editor aborts on them.
    #[must_use]
    pub fn push_scalar(self, tenths: u32, context: &mut EditorContext) -> (token: StyleVarToken)
        requires
            !style_var_takes_pair(self),
        ensures
            final(context).spec_style_var_stack() == old(context).spec_style_var_stack().push(
                PushedStyleVar::Scalar(self, tenths),
            ),
            token.spec_depth() == final(context).spec_style_var_stack().len(),
            final(context).spec_events() == old(context).spec_events(),
            final(context).spec_color_stack() == old(context).spec_color_stack(),
            final(context).spec_attribute_flag_stack() == old(
                context,
            ).spec_attribute_flag_stack(),
            final(context).spec_panning() == old(context).spec_panning(),
    {
        proof {
            crate::context::lemma_context_views(*old(context));
        }
        context.style_var_stack.push(PushedStyleVar::Scalar(self, tenths));
        proof {
            crate::context::lemma_context_views(*context);
        }
        StyleVarToken { depth: context.style_var_stack.len() }
    }

    /// Pushes a pair of values, in tenths of a pixel, onto the
    /// style-variable stack. Style variables that take one scalar are
    /// rejected, as the native editor aborts on them.
    #[must_use]
    pub fn push_pair(self, x_tenths: u32, y_tenths: u32, context: &mut EditorContext) -> (token:
        StyleVarToken)
        requires
            style_var_takes_pair(self),
        ensures
            final(context).spec_style_var_stack() == old(context).spec_style_var_stack().push(
                PushedStyleVar::Pair(self, x_tenths, y_tenths),
            ),
            token.spec_depth() == final(context).spec_style_var_stack().len(),
            final(context).spec_events() == old(context).spec_events(),
            final(context).spec_color_stack() == old(context).spec_color_stack(),
            final(context).spec_attribute_flag_stack() == old(
                context,
            ).spec_attribute_flag_stack(),
            final(context).spec_panning() == old(context).spec_panning(),
    {
        proof {
            crate::context::lemma_context_views(*old(context));
        }
        context.style_var_stack.push(PushedStyleVar::Pair(self, x_tenths, y_tenths));
        proof {
            crate::context::lemma_context_views(*context);
        }
        StyleVarToken { depth: context.style_var_stack.len() }
    }
}

/// A token for one pushed style variable; handed back to
/// [`StyleVarToken::pop`] while its entry is the innermost one.
#[derive(Debug)]
pub struct StyleVarToken {
    depth: usize,
}

impl StyleVarToken {
    /// The depth of the style-variable stack just after this token's push.
    pub closed spec fn spec_depth(self) -> int {
        self.depth as int
    }

    /// Pops the given number of style-variable changes, this token's
    /// innermost. The count must be positive, as the native editor aborts on
    /// zero, and no more than the stack holds.
    pub fn pop(self, count: usize, context: &mut EditorContext)
        requires
            0 < count <= self.spec_depth(),
            self.spec_depth() == old(context).spec_style_var_stack().len(),
        ensures
            final(context).spec_style_var_stack() == old(context).spec_style_var_stack().take(
                old(context).spec_style_var_stack().len() - count,
            ),
            final(context).spec_events() == old(context).spec_events(),
            final(context).spec_color_stack() == old(context).spec_color_stack(),
            final(context).spec_attribute_flag_stack() == old(
                context,
            ).spec_attribute_flag_stack(),
            final(context).spec_panning() == old(context).spec_panning(),
    {
        proof {
            crate::context::lemma_context_views(*old(context));
        }
        let mut k: usize = 0;
        while k < count
            invariant
                k <= count,
                count <= old(context).spec_style_var_stack().len(),
                context.spec_style_var_stack() == old(context).spec_style_var_stack().take(
                    old(context).spec_style_var_stack().len() - k,
                ),
                context.spec_events() == old(context).spec_events(),
                context.spec_color_stack() == old(context).spec_color_stack(),
                context.spec_attribute_flag_stack() == old(context).spec_attribute_flag_stack(),
                context.spec_panning() == old(context).spec_panning(),
            decreases count - k,
        {
            proof {
                crate::context::lemma_context_views(*context);
                assert(context.spec_style_var_stack().len() > 0);
            }
            let _ = context.style_var_stack.pop();
            proof {
                crate::context::lemma_context_views(*context);
                assert(context.spec_style_var_stack() =~= old(context).spec_style_var_stack().take(
                    old(context).spec_style_var_stack().len() - (k + 1),
                ));
            }
            k = k + 1;
        }
    }
}

/// Boolean style options of the editor, combined bitwise in
/// [`Style::flags`].
#[derive(Debug, Copy, Clone, Eq, PartialEq, Hash, Structural)]
pub enum StyleFlags {
    /// No option set.
    NoFlags,
    /// Draw outlines around nodes.
    NodeOutline,
    /// Draw grid lines in the background.
    GridLines,
    /// Draw primary grid lines thicker.
    GridLinesPrimary,
    /// Snap nodes to the grid when dragging.
    GridSnapping,
}

/// The bit a style option occupies in [`Style::flags`].
pub open spec fn style_flag_bits(f: StyleFlags) -> u32 {
    match f {
        StyleFlags::NoFlags => 0u32,
        StyleFlags::NodeOutline => 1u32,
        StyleFlags::GridLines => 4u32,
        StyleFlags::GridLinesPrimary => 8u32,
        StyleFlags::GridSnapping => 16u32,
    }
}

impl StyleFlags {
    /// The bit this option occupies in [`Style::flags`].
    pub fn bits(self) -> (r: u32)
        ensures
            r == style_flag_bits(self),
    {
        match self {
            StyleFlags::NoFlags => 0,
            StyleFlags::NodeOutline => 1,
            StyleFlags::GridLines => 4,
            StyleFlags::GridLinesPrimary => 8,
            StyleFlags::GridSnapping => 16,
        }
    }
}

/// The visual shape of an attribute pin.
#[derive(Debug, Copy, Clone, Eq, PartialEq, Hash, Structural)]
pub enum PinShape {
    /// A circle outline.
    Circle,
    /// A filled circle.
    CircleFilled,
    /// A triangle outline.
    Triangle,
    /// A filled triangle.
    TriangleFilled,
    /// A square outline.
    Quad,
    /// A filled square.
    QuadFilled,
}

/// The small integer the native editor uses for a pin shape.
pub open spec fn pin_shape_index(p: PinShape) -> int {
    match p {
        PinShape::Circle => 0,
        PinShape::CircleFilled => 1,
        PinShape::Triangle => 2,
        PinShape::TriangleFilled => 3,
        PinShape::Quad => 4,
        PinShape::QuadFilled => 5,
    }
}

impl PinShape {
    /// The small integer the native editor uses for this pin shape.
    pub fn index(self) -> (r: i32)
        ensures
            r as int == pin_shape_index(self),
    {
        match self {
            PinShape::Circle => 0,
            PinShape::CircleFilled => 1,
            PinShape::Triangle => 2,
            PinShape::TriangleFilled => 3,
            PinShape::Quad => 4,
            PinShape::QuadFilled => 5,
        }
    }
}

/// Behavior flags for individual attributes, pushed onto a stack and popped
/// through tokens.
#[derive(Debug, Copy, Clone, Eq, PartialEq, Hash, Structural)]
pub enum AttributeFlags {
    /// Default behavior.
    NoFlags,
    /// Allow detaching an existing link by dragging it off its pin.
    EnableLinkDetachWithDragClick,
    /// Allow creating a link by snapping its end onto a compatible pin.
    EnableLinkCreationOnSnap,
}

impl EditorContext {
    /// Pushes an attribute-behavior flag; it applies to attributes created
    /// until the returned token is popped.
    #[must_use]
    pub fn push_attribute_flag(&mut self, flag: AttributeFlags) -> (token: AttributeFlagToken)
        ensures
            final(self).spec_attribute_flag_stack() == old(
                self,
            ).spec_attribute_flag_stack().push(flag),
            token.spec_depth() == final(self).spec_attribute_flag_stack().len(),
            final(self).spec_events() == old(self).spec_events(),
            final(self).spec_color_stack() == old(self).spec_color_stack(),
            final(self).spec_style_var_stack() == old(self).spec_style_var_stack(),
            final(self).spec_panning() == old(self).spec_panning(),
    {
        proof {
            crate::context::lemma_context_views(*old(self));
        }
        self.attribute_flag_stack.push(flag);
        proof {
            crate::context::lemma_context_views(*self);
        }
        AttributeFlagToken { depth: self.attribute_flag_stack.len() }
    }
}

/// A token for one pushed attribute flag; handed back to
/// [`AttributeFlagToken::pop`] while its entry is the innermost one.
#[derive(Debug)]
pub struct AttributeFlagToken {
    depth: usize,
}

impl AttributeFlagToken {
    /// The depth of the attribute-flag stack just after this token's push.
    pub closed spec fn spec_depth(self) -> int {
        self.depth as int
    }

    /// Pops the attribute-flag change associated with this token.
    pub fn pop(self, context: &mut EditorContext)
        requires
            self.spec_depth() == old(context).spec_attribute_flag_stack().len(),
            old(context).spec_attribute_flag_stack().len() > 0,
        ensures
            final(context).spec_attribute_flag_stack() == old(
                context,
            ).spec_attribute_flag_stack().drop_last(),
            final(context).spec_events() == old(context).spec_events(),
            final(context).spec_color_stack() == old(context).spec_color_stack(),
            final(context).spec_style_var_stack() == old(context).spec_style_var_stack(),
            final(context).spec_panning() == old(context).spec_panning(),
    {
        proof {
            crate::context::lemma_context_views(*old(context));
        }
        let _ = context.attribute_flag_stack.pop();
        proof {
            crate::context::lemma_context_views(*context);
            assert(context.attribute_flag_stack@ =~= old(context).attribute_flag_stack@.drop_last());
        }
    }
}


/// The colors of the dark palette, by color-setting index, packed with the
/// red channel in the lowest byte and alpha in the highest.
pub open spec fn dark_colors() -> Seq<u32> {
    seq![
        0xFF323232u32,
        0xFF4B4B4Bu32,
        0xFF4B4B4Bu32,
        0xFF646464u32,
        0xFF7A4A29u32,
        0xFFFA9642u32,
        0xFFFA9642u32,
        0xC8E0853Du32,
        0xFFFA9642u32,
        0xFFFA9642u32,
        0xB4FA9635u32,
        0xFFFA9635u32,
        0x1EE0853Du32,
        0x96E0853Du32,
        0xC8322828u32,
        0x28C8C8C8u32,
        0x3CF0F0F0u32,
        0x96191919u32,
        0xC8191919u32,
        0x64969696u32,
        0xC8969696u32,
        0x64C8C8C8u32,
        0xFFC8C8C8u32,
        0xFFC8C8C8u32,
        0x64C8C8C8u32,
        0xC8E0853Du32,
        0xFFFA9642u32,
        0x19C8C8C8u32,
        0xC8C8C8C8u32,
    ]
}

/// The colors of the classic palette, by color-setting index.
pub open spec fn classic_colors() -> Seq<u32> {
    seq![
        0xFF323232u32,
        0xFF4B4B4Bu32,
        0xFF4B4B4Bu32,
        0xFF646464u32,
        0xFF8A4545u32,
        0xFFA15252u32,
        0xFFA15252u32,
        0x64FFFFFFu32,
        0xFFC8C8C8u32,
        0xFFC8C8C8u32,
        0xC8B4B422u32,
        0xFFB4B422u32,
        0x1EC8C85Au32,
        0x96C8C85Au32,
        0xC8282828u32,
        0x28C8C8C8u32,
        0x3CF0F0F0u32,
        0x96191919u32,
        0xC8191919u32,
        0x64969696u32,
        0xC8969696u32,
        0x64C8C8C8u32,
        0xFFC8C8C8u32,
        0xFFC8C8C8u32,
        0x64C8C8C8u32,
        0x64FFFFFFu32,
        0xFFC8C8C8u32,
        0x19C8C8C8u32,
        0xC8C8C8C8u32,
    ]
}

/// The colors of the light palette, by color-setting index.
pub open spec fn light_colors() -> Seq<u32> {
    seq![
        0xFFF0F0F0u32,
        0xFFDCDCDCu32,
        0xFFDCDCDCu32,
        0xFF828282u32,
        0xFFF5B05Au32,
        0xFFFAC173u32,
        0xFFFAC173u32,
        0x64424242u32,
        0xFF323232u32,
        0xFF323232u32,
        0xC8285ACDu32,
        0xFF285ACDu32,
        0x1E96965Au32,
        0x9696965Au32,
        0xE1F5F5F5u32,
        0x40646464u32,
        0x60424242u32,
        0x96E6E6E6u32,
        0xC8E6E6E6u32,
        0x64505050u32,
        0xC8505050u32,
        0x643C3C3Cu32,
        0xFF3C3C3Cu32,
        0xFF3C3C3Cu32,
        0x643C3C3Cu32,
        0x64424242u32,
        0xFF323232u32,
        0x193C3C3Cu32,
        0xC83C3C3Cu32,
    ]
}

/// The visual style of the node editor: its dimensions, in tenths of a
/// pixel, its option flags, and its color table.
#[derive(Debug, Clone, Copy, PartialEq, Eq)]
pub struct Style {
    /// Spacing between grid lines.
    pub grid_spacing: u32,
    /// Corner rounding radius for nodes.
    pub node_corner_rounding: u32,
    /// Padding inside nodes.
    pub node_padding: (u32, u32),
    /// Thickness of node borders.
    pub node_border_thickness: u32,
    /// Thickness of links between pins.
    pub link_thickness: u32,
    /// Line segments used to render links, per unit of length.
    pub link_line_segments_per_length: u32,
    /// Distance threshold for detecting link hovering.
    pub link_hover_distance: u32,
    /// The circle radius of circular pins.
    pub pin_circle_radius: u32,
    /// The side length of square pins.
    pub pin_quad_side_length: u32,
    /// The side length of triangular pins.
    pub pin_triangle_side_length: u32,
    /// The line thickness of unfilled pins.
    pub pin_line_thickness: u32,
    /// The radius within which a pin counts as hovered.
    pub pin_hover_radius: u32,
    /// How far pins sit from the node's edge.
    pub pin_offset: u32,
    /// Padding inside the minimap canvas.
    pub mini_map_padding: (u32, u32),
    /// Offset of the minimap from its corner.
    pub mini_map_offset: (u32, u32),
    /// The style options, as bits of [`style_flag_bits`].
    pub flags: u32,
    /// The color table, indexed by [`color_style_index`].
    pub colors: [u32; 29],
}

/// Whether a style holds the editor's default dimensions and options, with
/// the dark palette.
pub open spec fn style_is_default(s: Style) -> bool {
    &&& s.grid_spacing == 240
    &&& s.node_corner_rounding == 40
    &&& s.node_padding == (80u32, 80u32)
    &&& s.node_border_thickness == 10
    &&& s.link_thickness == 30
    &&& s.link_line_segments_per_length == 1
    &&& s.link_hover_distance == 100
    &&& s.pin_circle_radius == 40
    &&& s.pin_quad_side_length == 70
    &&& s.pin_triangle_side_length == 95
    &&& s.pin_line_thickness == 10
    &&& s.pin_hover_radius == 100
    &&& s.pin_offset == 0
    &&& s.mini_map_padding == (80u32, 80u32)
    &&& s.mini_map_offset == (40u32, 40u32)
    &&& s.flags == (style_flag_bits(StyleFlags::NodeOutline) | style_flag_bits(
        StyleFlags::GridLines,
    ))
    &&& s.colors@ =~= dark_colors()
}

impl Style {
    /// The default style: the editor's default dimensions and options, with
    /// the dark palette.
    pub fn new_default() -> (r: Style)
        ensures
            style_is_default(r),
    {
        let colors: [u32; 29] = [
            0xFF323232u32,
            0xFF4B4B4Bu32,
            0xFF4B4B4Bu32,
            0xFF646464u32,
            0xFF7A4A29u32,
            0xFFFA9642u32,
            0xFFFA9642u32,
            0xC8E0853Du32,
            0xFFFA9642u32,
            0xFFFA9642u32,
            0xB4FA9635u32,
            0xFFFA9635u32,
            0x1EE0853Du32,
            0x96E0853Du32,
            0xC8322828u32,
            0x28C8C8C8u32,
            0x3CF0F0F0u32,
            0x96191919u32,
            0xC8191919u32,
            0x64969696u32,
            0xC8969696u32,
            0x64C8C8C8u32,
            0xFFC8C8C8u32,
            0xFFC8C8C8u32,
            0x64C8C8C8u32,
            0xC8E0853Du32,
            0xFFFA9642u32,
            0x19C8C8C8u32,
            0xC8C8C8C8u32,
        ];
        proof {
            assert(colors@ =~= dark_colors());
        }
        Style {
            grid_spacing: 240,
            node_corner_rounding: 40,
            node_padding: (80, 80),
            node_border_thickness: 10,
            link_thickness: 30,
            link_line_segments_per_length: 1,
            link_hover_distance: 100,
            pin_circle_radius: 40,
            pin_quad_side_length: 70,
            pin_triangle_side_length: 95,
            pin_line_thickness: 10,
            pin_hover_radius: 100,
            pin_offset: 0,
            mini_map_padding: (80, 80),
            mini_map_offset: (40, 40),
            flags: 1 | 4,
            colors,
        }
    }
}

impl Default for Style {
    /// The default style; see [`Style::new_default`].
    fn default() -> (r: Style)
        ensures
            style_is_default(r),
    {
        Style::new_default()
    }
}

/// The default style as a plain function, for hosts that prefer one.
#[must_use]
pub fn create_imnodes_style() -> (r: Style)
    ensures
        style_is_default(r),
{
    Style::new_default()
}

impl EditorContext {
    /// Applies the dark palette to the given style.
    pub fn set_style_colors_dark(&self, style: &mut Style) -> (r: &Self)
        ensures
            final(style).colors@ =~= dark_colors(),
            *final(style) == (Style { colors: final(style).colors, ..*old(style) }),
    {
        let colors: [u32; 29] = [
            0xFF323232u32,
            0xFF4B4B4Bu32,
            0xFF4B4B4Bu32,
            0xFF646464u32,
            0xFF7A4A29u32,
            0xFFFA9642u32,
            0xFFFA9642u32,
            0xC8E0853Du32,
            0xFFFA9642u32,
            0xFFFA9642u32,
            0xB4FA9635u32,
            0xFFFA9635u32,
            0x1EE0853Du32,
            0x96E0853Du32,
            0xC8322828u32,
            0x28C8C8C8u32,
            0x3CF0F0F0u32,
            0x96191919u32,
            0xC8191919u32,
            0x64969696u32,
            0xC8969696u32,
            0x64C8C8C8u32,
            0xFFC8C8C8u32,
            0xFFC8C8C8u32,
            0x64C8C8C8u32,
            0xC8E0853Du32,
            0xFFFA9642u32,
            0x19C8C8C8u32,
            0xC8C8C8C8u32,
        ];
        proof {
            assert(colors@ =~= dark_colors());
        }
        style.colors = colors;
        self
    }

    /// Applies the classic palette to the given style.
    pub fn set_style_colors_classic(&self, style: &mut Style) -> (r: &Self)
        ensures
            final(style).colors@ =~= classic_colors(),
            *final(style) == (Style { colors: final(style).colors, ..*old(style) }),
    {
        let colors: [u32; 29] = [
            0xFF323232u32,
            0xFF4B4B4Bu32,
            0xFF4B4B4Bu32,
            0xFF646464u32,
            0xFF8A4545u32,
            0xFFA15252u32,
            0xFFA15252u32,
            0x64FFFFFFu32,
            0xFFC8C8C8u32,
            0xFFC8C8C8u32,
            0xC8B4B422u32,
            0xFFB4B422u32,
            0x1EC8C85Au32,
            0x96C8C85Au32,
            0xC8282828u32,
            0x28C8C8C8u32,
            0x3CF0F0F0u32,
            0x96191919u32,
            0xC8191919u32,
            0x64969696u32,
            0xC8969696u32,
            0x64C8C8C8u32,
            0xFFC8C8C8u32,
            0xFFC8C8C8u32,
            0x64C8C8C8u32,
            0x64FFFFFFu32,
            0xFFC8C8C8u32,
            0x19C8C8C8u32,
            0xC8C8C8C8u32,
        ];
        proof {
            assert(colors@ =~= classic_colors());
        }
        style.colors = colors;
        self
    }

    /// Applies the light palette to the given style.
    pub fn set_style_colors_light(&self, style: &mut Style) -> (r: &Self)
        ensures
            final(style).colors@ =~= light_colors(),
            *final(style) == (Style { colors: final(style).colors, ..*old(style) }),
    {
        let colors: [u32; 29] = [
            0xFFF0F0F0u32,
            0xFFDCDCDCu32,
            0xFFDCDCDCu32,
            0xFF828282u32,
            0xFFF5B05Au32,
            0xFFFAC173u32,
            0xFFFAC173u32,
            0x64424242u32,
            0xFF323232u32,
            0xFF323232u32,
            0xC8285ACDu32,
            0xFF285ACDu32,
            0x1E96965Au32,
            0x9696965Au32,
            0xE1F5F5F5u32,
            0x40646464u32,
            0x60424242u32,
            0x96E6E6E6u32,
            0xC8E6E6E6u32,
            0x64505050u32,
            0xC8505050u32,
            0x643C3C3Cu32,
            0xFF3C3C3Cu32,
            0xFF3C3C3Cu32,
            0x643C3C3Cu32,
            0x64424242u32,
            0xFF323232u32,
            0x193C3C3Cu32,
            0xC83C3C3Cu32,
        ];
        proof {
            assert(colors@ =~= light_colors());
        }
        style.colors = colors;
        self
    }
}

} // verus!
