//! The meadow's diagnostic views: what each one means and which colour it
//! paints with.
//!
//! The palette has one owner and travels as exact sRGB bytes, so that an
//! analyser counting pixels finds the very integer that was painted. Every
//! legend is derived from the palette and the enums, never written by hand.

use vstd::prelude::*;

verus! {

/// How many rings the palette can paint.
pub const PALETTE_SLOTS: usize = 8;

/// A slot's colour, as 8-bit sRGB.
pub open spec fn palette(slot: int) -> [u8; 3] {
    if slot == 0 {
        [0xF5u8, 0x8Cu8, 0xA0u8]
    } else if slot == 1 {
        [0x8Cu8, 0xC7u8, 0xF5u8]
    } else if slot == 2 {
        [0xF5u8, 0xDEu8, 0x8Cu8]
    } else if slot == 3 {
        [0x9Eu8, 0xE8u8, 0xA8u8]
    } else if slot == 4 {
        [0xC9u8, 0xA0u8, 0xF5u8]
    } else if slot == 5 {
        [0xF5u8, 0xB9u8, 0x8Cu8]
    } else if slot == 6 {
        [0x8Cu8, 0xF5u8, 0xE4u8]
    } else {
        [0xD5u8, 0xD5u8, 0xD5u8]
    }
}

/// A ring's colour as the analyser finds it in the image. Slots past the end
/// share the last one, the grey of "none of the above".
pub fn slot_srgb(slot: usize) -> (color: [u8; 3])
    ensures
        color == palette(if slot < PALETTE_SLOTS {
            slot as int
        } else {
            PALETTE_SLOTS - 1
        }),
{
    if slot == 0 {
        [0xF5, 0x8C, 0xA0]
    } else if slot == 1 {
        [0x8C, 0xC7, 0xF5]
    } else if slot == 2 {
        [0xF5, 0xDE, 0x8C]
    } else if slot == 3 {
        [0x9E, 0xE8, 0xA8]
    } else if slot == 4 {
        [0xC9, 0xA0, 0xF5]
    } else if slot == 5 {
        [0xF5, 0xB9, 0x8C]
    } else if slot == 6 {
        [0x8C, 0xF5, 0xE4]
    } else {
        [0xD5, 0xD5, 0xD5]
    }
}

/// Two rings painted the same colour would be indistinguishable in the image
/// and in the count: no two palette slots share a colour.
pub proof fn no_two_rings_share_a_colour(a: int, b: int)
    requires
        0 <= a < b < PALETTE_SLOTS,
    ensures
        palette(a) != palette(b),
{
    if palette(a) == palette(b) {
        assert(palette(a)@[0] == palette(b)@[0]);
        assert(palette(a)@[1] == palette(b)@[1]);
        assert(palette(a)@[2] == palette(b)@[2]);
    }
}

/// How a blade is drawn.
#[derive(Clone, Copy, PartialEq, Eq, Debug, Structural)]
pub enum BladeShape {
    /// Four vertices, two triangles joined at the waist: the one that bends.
    Leaf,
    /// Three vertices, one triangle: a blade that no longer resolves a waist.
    Spike,
    /// A clump-sized card opened towards the camera and cut to a silhouette.
    Card,
}

/// The number the shader knows a shape by.
pub open spec fn spec_shape_index(shape: BladeShape) -> u32 {
    match shape {
        BladeShape::Leaf => 0,
        BladeShape::Spike => 1,
        BladeShape::Card => 2,
    }
}

/// A shape's name in the legends.
pub open spec fn shape_name(shape: BladeShape) -> Seq<char> {
    match shape {
        BladeShape::Leaf => "hoja"@,
        BladeShape::Spike => "púa"@,
        BladeShape::Card => "carta"@,
    }
}

/// The three shapes, in the order the legend and the shader number them.
pub open spec fn all_shapes() -> Seq<BladeShape> {
    seq![BladeShape::Leaf, BladeShape::Spike, BladeShape::Card]
}

impl BladeShape {
    /// The number the shader knows the shape by.
    pub fn shader_index(self) -> (index: u32)
        ensures
            index == spec_shape_index(self),
    {
        match self {
            BladeShape::Leaf => 0,
            BladeShape::Spike => 1,
            BladeShape::Card => 2,
        }
    }

    /// The shape's name in the legends.
    pub fn name(self) -> (name: &'static str)
        ensures
            name@ == shape_name(self),
    {
        match self {
            BladeShape::Leaf => "hoja",
            BladeShape::Spike => "púa",
            BladeShape::Card => "carta",
        }
    }

    /// Whether the vertex shader opens the primitive towards the camera.
    pub fn faces_camera(self) -> (faces: bool)
        ensures
            faces == (self == BladeShape::Card),
    {
        match self {
            BladeShape::Card => true,
            _ => false,
        }
    }

    /// The three shapes, in shader order.
    pub fn all() -> (shapes: Vec<BladeShape>)
        ensures
            shapes@ == all_shapes(),
    {
        let shapes = vec![BladeShape::Leaf, BladeShape::Spike, BladeShape::Card];
        assert(shapes@ =~= all_shapes());
        shapes
    }
}

/// The shapes are numbered by their place in the list: the shader index of a
/// shape is its position, and no two shapes share one.
pub proof fn shapes_are_numbered_in_order(i: int)
    requires
        0 <= i < 3,
    ensures
        spec_shape_index(all_shapes()[i]) == i,
{
}

/// What the diagnostic view is looking at.
#[derive(Clone, Copy, PartialEq, Eq, Debug, Structural)]
pub enum GrassDebugView {
    /// The game.
    Off,
    /// A pastel per ring: where the level of detail changes.
    Ring,
    /// A pastel per chunk cell, which is also the meadow's draw-call map.
    Chunk,
    /// A pastel per blade: whether coming closer adds blades or replaces them.
    Blade,
    /// How much of its height each blade has grown.
    Growth,
    /// How many pixels wide a blade is on screen.
    Subpixel,
    /// Flat and exact, one colour per ring, for counting pixels.
    Measure,
    /// Flat and exact, one colour per shape.
    ShapeMeasure,
}

/// The views in knob order.
pub open spec fn all_views() -> Seq<GrassDebugView> {
    seq![
        GrassDebugView::Off,
        GrassDebugView::Ring,
        GrassDebugView::Chunk,
        GrassDebugView::Blade,
        GrassDebugView::Growth,
        GrassDebugView::Subpixel,
        GrassDebugView::Measure,
        GrassDebugView::ShapeMeasure,
    ]
}

/// The index a view sends to the shader.
pub open spec fn spec_view_index(view: GrassDebugView) -> u32 {
    match view {
        GrassDebugView::Off => 0,
        GrassDebugView::Ring => 1,
        GrassDebugView::Chunk => 2,
        GrassDebugView::Blade => 3,
        GrassDebugView::Growth => 4,
        GrassDebugView::Subpixel => 5,
        GrassDebugView::Measure => 6,
        GrassDebugView::ShapeMeasure => 7,
    }
}

impl GrassDebugView {
    /// The view a knob step selects; steps past the end select the last view.
    pub fn from_step(step: usize) -> (view: GrassDebugView)
        ensures
            view == all_views()[if step < 8 {
                step as int
            } else {
                7
            }],
    {
        if step == 0 {
            GrassDebugView::Off
        } else if step == 1 {
            GrassDebugView::Ring
        } else if step == 2 {
            GrassDebugView::Chunk
        } else if step == 3 {
            GrassDebugView::Blade
        } else if step == 4 {
            GrassDebugView::Growth
        } else if step == 5 {
            GrassDebugView::Subpixel
        } else if step == 6 {
            GrassDebugView::Measure
        } else {
            GrassDebugView::ShapeMeasure
        }
    }

    /// The index that travels to the shader.
    pub fn shader_index(self) -> (index: u32)
        ensures
            index == spec_view_index(self),
    {
        match self {
            GrassDebugView::Off => 0,
            GrassDebugView::Ring => 1,
            GrassDebugView::Chunk => 2,
            GrassDebugView::Blade => 3,
            GrassDebugView::Growth => 4,
            GrassDebugView::Subpixel => 5,
            GrassDebugView::Measure => 6,
            GrassDebugView::ShapeMeasure => 7,
        }
    }

    /// Whether the shader's colour is an exact value rather than an image, so
    /// that tonemapping and dithering have to be off.
    pub fn is_flat(self) -> (flat: bool)
        ensures
            flat == (self == GrassDebugView::Measure || self == GrassDebugView::ShapeMeasure
                || self == GrassDebugView::Subpixel),
    {
        match self {
            GrassDebugView::Measure | GrassDebugView::ShapeMeasure | GrassDebugView::Subpixel => true,
            _ => false,
        }
    }

    /// The views in knob order.
    pub fn all() -> (views: Vec<GrassDebugView>)
        ensures
            views@ == all_views(),
    {
        let views = vec![
            GrassDebugView::Off,
            GrassDebugView::Ring,
            GrassDebugView::Chunk,
            GrassDebugView::Blade,
            GrassDebugView::Growth,
            GrassDebugView::Subpixel,
            GrassDebugView::Measure,
            GrassDebugView::ShapeMeasure,
        ];
        assert(views@ =~= all_views());
        views
    }
}

/// The knob and the shader speak of the same view: the view a step selects
/// sends that very step to the shader, and step zero is the game.
pub proof fn the_knob_ladder_and_the_views_are_the_same_list(step: int)
    requires
        0 <= step < all_views().len(),
    ensures
        spec_view_index(all_views()[step]) == step,
        all_views()[0] == GrassDebugView::Off,
{
}

/// One band of a flat legend, with the exact colour that identifies it.
#[derive(Debug)]
pub struct SubpixelBand {
    pub name: String,
    pub color: [u8; 3],
}

/// The names of the three on-screen width bands.
pub open spec fn subpixel_band_names() -> Seq<Seq<char>> {
    seq![
        "menos de 1 px — no se resuelve"@,
        "entre 1 y 2 px — el cuarteto desperdicia"@,
        "2 px o mas — se resuelve entera"@,
    ]
}

/// The palette slots of the three on-screen width bands.
pub open spec fn subpixel_band_slots() -> Seq<int> {
    seq![0int, 5, 3]
}

/// The three on-screen width bands. The boundary comes from the blade's width,
/// the resolution and the field of view, not from the ring system.
pub fn subpixel_legend() -> (bands: Vec<SubpixelBand>)
    ensures
        bands@.len() == 3,
        forall|i: int|
            0 <= i < 3 ==> bands@[i].name@ == subpixel_band_names()[i] && bands@[i].color
                == palette(subpixel_band_slots()[i]),
{
    let mut bands: Vec<SubpixelBand> = Vec::new();
    bands.push(
        SubpixelBand { name: "menos de 1 px — no se resuelve".to_owned(), color: slot_srgb(0) },
    );
    bands.push(
        SubpixelBand {
            name: "entre 1 y 2 px — el cuarteto desperdicia".to_owned(),
            color: slot_srgb(5),
        },
    );
    bands.push(
        SubpixelBand { name: "2 px o mas — se resuelve entera".to_owned(), color: slot_srgb(3) },
    );
    bands
}

/// Flat categories for comparing the shapes that share a strip of the image:
/// one band per shape, in shader order, named after it and painted with the
/// palette slot of its shader index.
pub fn shape_measure_legend() -> (bands: Vec<SubpixelBand>)
    ensures
        bands@.len() == 3,
        forall|i: int|
            0 <= i < 3 ==> bands@[i].name@ == shape_name(all_shapes()[i]) && bands@[i].color
                == palette(spec_shape_index(all_shapes()[i]) as int),
{
    let shapes = BladeShape::all();
    let mut bands: Vec<SubpixelBand> = Vec::new();
    let mut i: usize = 0;
    while i < shapes.len()
        invariant
            i <= shapes.len(),
            shapes@ == all_shapes(),
            bands@.len() == i,
            forall|j: int|
                0 <= j < i ==> bands@[j].name@ == shape_name(all_shapes()[j]) && bands@[j].color
                    == palette(spec_shape_index(all_shapes()[j]) as int),
        decreases shapes.len() - i,
    {
        let shape = shapes[i];
        let index = shape.shader_index();
        let band = SubpixelBand { name: shape.name().to_owned(), color: slot_srgb(index as usize) };
        bands.push(band);
        i = i + 1;
    }
    bands
}

} // verus!
