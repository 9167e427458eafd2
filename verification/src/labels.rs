use vstd::prelude::*;

verus! {

/// The tool that the canvas currently applies.
#[derive(Debug, Clone, Copy, PartialEq, Eq, Structural)]
pub enum Tool {
    Brush,
    Eraser,
    Fill,
    Text,
    Eyedropper,
    Crop,
    Pan,
    Retouch,
}

/// How a layer is composited over the layers below it.
#[derive(Debug, Clone, Copy, PartialEq, Eq, Structural)]
pub enum BlendMode {
    Normal,
    Multiply,
    Screen,
    Overlay,
    SoftLight,
    HardLight,
    Darken,
    Lighten,
    Difference,
    Exclusion,
}

/// The name shown for each blend mode.
pub open spec fn blend_mode_label(m: BlendMode) -> Seq<char> {
    match m {
        BlendMode::Normal => "Normal"@,
        BlendMode::Multiply => "Multiply"@,
        BlendMode::Screen => "Screen"@,
        BlendMode::Overlay => "Overlay"@,
        BlendMode::SoftLight => "Soft Light"@,
        BlendMode::HardLight => "Hard Light"@,
        BlendMode::Darken => "Darken"@,
        BlendMode::Lighten => "Lighten"@,
        BlendMode::Difference => "Difference"@,
        BlendMode::Exclusion => "Exclusion"@,
    }
}

/// Every blend mode, in menu order.
pub open spec fn blend_mode_order() -> Seq<BlendMode> {
    seq![
        BlendMode::Normal,
        BlendMode::Multiply,
        BlendMode::Screen,
        BlendMode::Overlay,
        BlendMode::SoftLight,
        BlendMode::HardLight,
        BlendMode::Darken,
        BlendMode::Lighten,
        BlendMode::Difference,
        BlendMode::Exclusion,
    ]
}

impl BlendMode {
    pub fn label(self) -> (s: &'static str)
        ensures
            s@ == blend_mode_label(self),
    {
        match self {
            BlendMode::Normal => "Normal",
            BlendMode::Multiply => "Multiply",
            BlendMode::Screen => "Screen",
            BlendMode::Overlay => "Overlay",
            BlendMode::SoftLight => "Soft Light",
            BlendMode::HardLight => "Hard Light",
            BlendMode::Darken => "Darken",
            BlendMode::Lighten => "Lighten",
            BlendMode::Difference => "Difference",
            BlendMode::Exclusion => "Exclusion",
        }
    }

    pub fn all() -> (v: &'static [BlendMode])
        ensures
            v@ == blend_mode_order(),
    {
        &[
            BlendMode::Normal,
            BlendMode::Multiply,
            BlendMode::Screen,
            BlendMode::Overlay,
            BlendMode::SoftLight,
            BlendMode::HardLight,
            BlendMode::Darken,
            BlendMode::Lighten,
            BlendMode::Difference,
            BlendMode::Exclusion,
        ]
    }
}

/// What a layer holds.
#[derive(Debug, Clone, Copy, PartialEq, Eq, Structural)]
pub enum LayerKind {
    Background,
    Raster,
    Text,
    Image,
}

/// Which side panel of adjustments is open.
#[derive(Debug, Clone, Copy, PartialEq, Eq, Structural)]
pub enum FilterPanel {
    Closed,
    BrightnessContrast,
    HueSaturation,
    Blur,
    Sharpen,
    Resize,
    Export,
    Brush,
}

/// What the retouch brush does to the pixels under it.
#[derive(Debug, Clone, Copy, PartialEq, Eq, Structural)]
pub enum RetouchMode {
    Blur,
    Sharpen,
    Smudge,
    Vibrance,
    Saturation,
    Temperature,
    Brightness,
    Pixelate,
}

/// The name shown for each retouch mode.
pub open spec fn retouch_mode_label(m: RetouchMode) -> Seq<char> {
    match m {
        RetouchMode::Blur => "Blur"@,
        RetouchMode::Sharpen => "Sharpen"@,
        RetouchMode::Smudge => "Smudge"@,
        RetouchMode::Vibrance => "Vibrance"@,
        RetouchMode::Saturation => "Saturation"@,
        RetouchMode::Temperature => "Temperature"@,
        RetouchMode::Brightness => "Brightness"@,
        RetouchMode::Pixelate => "Pixelate"@,
    }
}

/// The name shown for the strength slider of each retouch mode.
pub open spec fn retouch_strength_label(m: RetouchMode) -> Seq<char> {
    match m {
        RetouchMode::Blur => "Radius"@,
        RetouchMode::Sharpen => "Amount"@,
        RetouchMode::Smudge => "Strength"@,
        RetouchMode::Vibrance => "Boost"@,
        RetouchMode::Saturation => "Amount"@,
        RetouchMode::Temperature => "Shift"@,
        RetouchMode::Brightness => "Amount"@,
        RetouchMode::Pixelate => "Block Size"@,
    }
}

/// Every retouch mode, in menu order.
pub open spec fn retouch_mode_order() -> Seq<RetouchMode> {
    seq![
        RetouchMode::Blur,
        RetouchMode::Sharpen,
        RetouchMode::Smudge,
        RetouchMode::Vibrance,
        RetouchMode::Saturation,
        RetouchMode::Temperature,
        RetouchMode::Brightness,
        RetouchMode::Pixelate,
    ]
}

impl RetouchMode {
    pub fn label(&self) -> (s: &'static str)
        ensures
            s@ == retouch_mode_label(*self),
    {
        match self {
            RetouchMode::Blur => "Blur",
            RetouchMode::Sharpen => "Sharpen",
            RetouchMode::Smudge => "Smudge",
            RetouchMode::Vibrance => "Vibrance",
            RetouchMode::Saturation => "Saturation",
            RetouchMode::Temperature => "Temperature",
            RetouchMode::Brightness => "Brightness",
            RetouchMode::Pixelate => "Pixelate",
        }
    }

    pub fn strength_label(&self) -> (s: &'static str)
        ensures
            s@ == retouch_strength_label(*self),
    {
        match self {
            RetouchMode::Blur => "Radius",
            RetouchMode::Sharpen => "Amount",
            RetouchMode::Smudge => "Strength",
            RetouchMode::Vibrance => "Boost",
            RetouchMode::Saturation => "Amount",
            RetouchMode::Temperature => "Shift",
            RetouchMode::Brightness => "Amount",
            RetouchMode::Pixelate => "Block Size",
        }
    }

    pub fn all() -> (v: &'static [RetouchMode])
        ensures
            v@ == retouch_mode_order(),
    {
        &[
            RetouchMode::Blur,
            RetouchMode::Sharpen,
            RetouchMode::Smudge,
            RetouchMode::Vibrance,
            RetouchMode::Saturation,
            RetouchMode::Temperature,
            RetouchMode::Brightness,
            RetouchMode::Pixelate,
        ]
    }
}

/// The outline of a brush tip.
#[derive(Debug, Clone, Copy, PartialEq, Eq, Structural)]
pub enum BrushShape {
    Circle,
    Square,
    Diamond,
    CalligraphyFlat,
}

/// The name shown for each brush tip.
pub open spec fn brush_shape_label(m: BrushShape) -> Seq<char> {
    match m {
        BrushShape::Circle => "Circle"@,
        BrushShape::Square => "Square"@,
        BrushShape::Diamond => "Diamond"@,
        BrushShape::CalligraphyFlat => "Flat"@,
    }
}

/// Every brush tip, in menu order.
pub open spec fn brush_shape_order() -> Seq<BrushShape> {
    seq![
        BrushShape::Circle,
        BrushShape::Square,
        BrushShape::Diamond,
        BrushShape::CalligraphyFlat,
    ]
}

impl BrushShape {
    pub fn label(&self) -> (s: &'static str)
        ensures
            s@ == brush_shape_label(*self),
    {
        match self {
            BrushShape::Circle => "Circle",
            BrushShape::Square => "Square",
            BrushShape::Diamond => "Diamond",
            BrushShape::CalligraphyFlat => "Flat",
        }
    }

    pub fn all() -> (v: &'static [BrushShape])
        ensures
            v@ == brush_shape_order(),
    {
        &[
            BrushShape::Circle,
            BrushShape::Square,
            BrushShape::Diamond,
            BrushShape::CalligraphyFlat,
        ]
    }
}

/// The grain that modulates a brush stroke.
#[derive(Debug, Clone, Copy, PartialEq, Eq, Structural)]
pub enum BrushTextureMode {
    Plain,
    Rough,
    Canvas,
    Paper,
}

/// The name shown for each brush grain.
pub open spec fn brush_texture_label(m: BrushTextureMode) -> Seq<char> {
    match m {
        BrushTextureMode::Plain => "None"@,
        BrushTextureMode::Rough => "Rough"@,
        BrushTextureMode::Canvas => "Canvas"@,
        BrushTextureMode::Paper => "Paper"@,
    }
}

/// Every brush grain, in menu order.
pub open spec fn brush_texture_order() -> Seq<BrushTextureMode> {
    seq![
        BrushTextureMode::Plain,
        BrushTextureMode::Rough,
        BrushTextureMode::Canvas,
        BrushTextureMode::Paper,
    ]
}

impl BrushTextureMode {
    pub fn label(&self) -> (s: &'static str)
        ensures
            s@ == brush_texture_label(*self),
    {
        match self {
            BrushTextureMode::Plain => "None",
            BrushTextureMode::Rough => "Rough",
            BrushTextureMode::Canvas => "Canvas",
            BrushTextureMode::Paper => "Paper",
        }
    }

    pub fn all() -> (v: &'static [BrushTextureMode])
        ensures
            v@ == brush_texture_order(),
    {
        &[
            BrushTextureMode::Plain,
            BrushTextureMode::Rough,
            BrushTextureMode::Canvas,
            BrushTextureMode::Paper,
        ]
    }
}

/// A ready-made set of brush settings.
#[derive(Debug, Clone, Copy, PartialEq, Eq, Structural)]
pub enum BrushPreset {
    Regular,
    Pencil,
    Pen,
    Crayon,
    Marker,
    Calligraphy,
    SprayPaint,
    Watercolor,
    Charcoal,
    Airbrush,
}

/// The name shown for each brush preset.
pub open spec fn brush_preset_label(m: BrushPreset) -> Seq<char> {
    match m {
        BrushPreset::Regular => "Regular"@,
        BrushPreset::Pencil => "Pencil"@,
        BrushPreset::Pen => "Pen"@,
        BrushPreset::Crayon => "Crayon"@,
        BrushPreset::Marker => "Marker"@,
        BrushPreset::Calligraphy => "Calligraphy"@,
        BrushPreset::SprayPaint => "Spray"@,
        BrushPreset::Watercolor => "Watercolor"@,
        BrushPreset::Charcoal => "Charcoal"@,
        BrushPreset::Airbrush => "Airbrush"@,
    }
}

/// Every brush preset, in menu order.
pub open spec fn brush_preset_order() -> Seq<BrushPreset> {
    seq![
        BrushPreset::Regular,
        BrushPreset::Pencil,
        BrushPreset::Pen,
        BrushPreset::Crayon,
        BrushPreset::Marker,
        BrushPreset::Calligraphy,
        BrushPreset::SprayPaint,
        BrushPreset::Watercolor,
        BrushPreset::Charcoal,
        BrushPreset::Airbrush,
    ]
}

impl BrushPreset {
    pub fn label(&self) -> (s: &'static str)
        ensures
            s@ == brush_preset_label(*self),
    {
        match self {
            BrushPreset::Regular => "Regular",
            BrushPreset::Pencil => "Pencil",
            BrushPreset::Pen => "Pen",
            BrushPreset::Crayon => "Crayon",
            BrushPreset::Marker => "Marker",
            BrushPreset::Calligraphy => "Calligraphy",
            BrushPreset::SprayPaint => "Spray",
            BrushPreset::Watercolor => "Watercolor",
            BrushPreset::Charcoal => "Charcoal",
            BrushPreset::Airbrush => "Airbrush",
        }
    }

    pub fn all() -> (v: &'static [BrushPreset])
        ensures
            v@ == brush_preset_order(),
    {
        &[
            BrushPreset::Regular,
            BrushPreset::Pencil,
            BrushPreset::Pen,
            BrushPreset::Crayon,
            BrushPreset::Marker,
            BrushPreset::Calligraphy,
            BrushPreset::SprayPaint,
            BrushPreset::Watercolor,
            BrushPreset::Charcoal,
            BrushPreset::Airbrush,
        ]
    }
}

} // verus!
