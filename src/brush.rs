use vstd::prelude::*;

verus! {

/// The brush shapes.
#[derive(Clone, Copy, PartialEq, Eq, Debug, Hash, Structural)]
pub enum BrushType {
    Round,
    Flat,
    Bright,
    Filbert,
    Fan,
    Angle,
    Mop,
    Rigger,
}

/// How a stroke's colour combines with what lies below.
#[derive(Clone, Copy, PartialEq, Eq, Debug, Hash, Structural)]
pub enum BlendMode {
    Normal,
    Add,
    Multiply,
    Screen,
    Overlay,
}

pub open spec fn brush_name(t: BrushType) -> Seq<char> {
    match t {
        BrushType::Round => "Round"@,
        BrushType::Flat => "Flat"@,
        BrushType::Bright => "Bright"@,
        BrushType::Filbert => "Filbert"@,
        BrushType::Fan => "Fan"@,
        BrushType::Angle => "Angle"@,
        BrushType::Mop => "Mop"@,
        BrushType::Rigger => "Rigger"@,
    }
}

pub open spec fn brush_index(t: BrushType) -> usize {
    match t {
        BrushType::Round => 0,
        BrushType::Flat => 1,
        BrushType::Bright => 2,
        BrushType::Filbert => 3,
        BrushType::Fan => 4,
        BrushType::Angle => 5,
        BrushType::Mop => 6,
        BrushType::Rigger => 7,
    }
}

pub open spec fn all_brush_types() -> Seq<BrushType> {
    seq![
        BrushType::Round,
        BrushType::Flat,
        BrushType::Bright,
        BrushType::Filbert,
        BrushType::Fan,
        BrushType::Angle,
        BrushType::Mop,
        BrushType::Rigger,
    ]
}

impl BrushType {
    /// The shape's display name.
    pub fn get_name(&self) -> (r: String)
        ensures
            r@ == brush_name(*self),
    {
        match self {
            BrushType::Round => "Round".to_owned(),
            BrushType::Flat => "Flat".to_owned(),
            BrushType::Bright => "Bright".to_owned(),
            BrushType::Filbert => "Filbert".to_owned(),
            BrushType::Fan => "Fan".to_owned(),
            BrushType::Angle => "Angle".to_owned(),
            BrushType::Mop => "Mop".to_owned(),
            BrushType::Rigger => "Rigger".to_owned(),
        }
    }

    /// The shape's position in `all_types`, which is also the index of its
    /// preset in a new `BrushManager`.
    pub fn get_default_index(&self) -> (r: usize)
        ensures
            r == brush_index(*self),
            all_brush_types()[r as int] == *self,
    {
        match self {
            BrushType::Round => 0,
            BrushType::Flat => 1,
            BrushType::Bright => 2,
            BrushType::Filbert => 3,
            BrushType::Fan => 4,
            BrushType::Angle => 5,
            BrushType::Mop => 6,
            BrushType::Rigger => 7,
        }
    }

    /// Every shape, in their fixed order.
    pub fn all_types() -> (r: Vec<BrushType>)
        ensures
            r@ == all_brush_types(),
    {
        let r = vec![
            BrushType::Round,
            BrushType::Flat,
            BrushType::Bright,
            BrushType::Filbert,
            BrushType::Fan,
            BrushType::Angle,
            BrushType::Mop,
            BrushType::Rigger,
        ];
        assert(r@ =~= all_brush_types());
        r
    }
}

/// The tunable properties of one brush. Ratios are in thousandths (1000 is
/// 1.0) and the rotation in milliradians.
#[derive(Clone, Copy, PartialEq, Eq, Debug, Structural)]
pub struct BrushProperties {
    pub brush_type: BrushType,
    /// Base size, in thousandths.
    pub size: u32,
    /// Width over height, in thousandths.
    pub stretch_factor: u32,
    /// How much the stroke angle shapes the brush, in thousandths.
    pub angle_sensitivity: u32,
    /// How much pressure shapes the brush, in thousandths.
    pub pressure_sensitivity: u32,
    pub blend_mode: BlendMode,
    /// Distance between stamps, in thousandths of the radius.
    pub spacing: u32,
    /// Edge hardness, in thousandths (1000 is a hard edge).
    pub hardness: u32,
    /// Rotation added to the stroke angle, in milliradians.
    pub base_rotation: i32,
}

/// The preset of shape `t`: the defaults with the shape's own stretch,
/// angle sensitivity, hardness, spacing and rotation.
pub open spec fn preset_of(t: BrushType) -> BrushProperties {
    let (stretch, sens, hard, spacing, rot): (u32, u32, u32, u32, i32) = match t {
        BrushType::Round => (1000, 0, 1000, 50, 0),
        BrushType::Flat => (4000, 800, 1000, 50, 0),
        BrushType::Bright => (3000, 700, 1000, 50, 0),
        BrushType::Filbert => (2500, 600, 800, 50, 0),
        BrushType::Fan => (3000, 800, 1000, 80, 0),
        BrushType::Angle => (2000, 800, 1000, 50, 785),
        BrushType::Mop => (1200, 100, 500, 30, 0),
        BrushType::Rigger => (500, 200, 1000, 20, 0),
    };
    BrushProperties {
        brush_type: t,
        stretch_factor: stretch,
        angle_sensitivity: sens,
        hardness: hard,
        spacing,
        base_rotation: rot,
        ..default_brush()
    }
}

/// A hard round brush of size 10 with fine spacing.
pub open spec fn default_brush() -> BrushProperties {
    BrushProperties {
        brush_type: BrushType::Round,
        size: 10000,
        stretch_factor: 1000,
        angle_sensitivity: 0,
        pressure_sensitivity: 500,
        blend_mode: BlendMode::Normal,
        spacing: 50,
        hardness: 1000,
        base_rotation: 0,
    }
}

/// The presets offered for shape `t`: the shape's preset, then for round a
/// soft variant, and for flat a flatter and a soft variant.
pub open spec fn presets_of(t: BrushType) -> Seq<BrushProperties> {
    let base = preset_of(t);
    match t {
        BrushType::Round => seq![base, BrushProperties { hardness: 400, ..base }],
        BrushType::Flat => seq![
            base,
            BrushProperties { stretch_factor: 6000, ..base },
            BrushProperties { hardness: 500, ..base },
        ],
        _ => seq![base],
    }
}

impl Default for BrushProperties {
    fn default() -> (r: BrushProperties)
        ensures
            r == default_brush(),
    {
        BrushProperties {
            brush_type: BrushType::Round,
            size: 10000,
            stretch_factor: 1000,
            angle_sensitivity: 0,
            pressure_sensitivity: 500,
            blend_mode: BlendMode::Normal,
            spacing: 50,
            hardness: 1000,
            base_rotation: 0,
        }
    }
}

impl BrushProperties {
    /// The preset of shape `brush_type`.
    pub fn from_type(brush_type: BrushType) -> (r: BrushProperties)
        ensures
            r == preset_of(brush_type),
    {
        let mut p = BrushProperties::default();
        p.brush_type = brush_type;
        match brush_type {
            BrushType::Round => {
                p.stretch_factor = 1000;
                p.angle_sensitivity = 0;
                p.hardness = 1000;
                p.spacing = 50;
            },
            BrushType::Flat => {
                p.stretch_factor = 4000;
                p.angle_sensitivity = 800;
                p.hardness = 1000;
                p.spacing = 50;
            },
            BrushType::Bright => {
                p.stretch_factor = 3000;
                p.angle_sensitivity = 700;
                p.hardness = 1000;
                p.spacing = 50;
            },
            BrushType::Filbert => {
                p.stretch_factor = 2500;
                p.angle_sensitivity = 600;
                p.hardness = 800;
                p.spacing = 50;
            },
            BrushType::Fan => {
                p.stretch_factor = 3000;
                p.angle_sensitivity = 800;
                p.hardness = 1000;
                p.spacing = 80;
            },
            BrushType::Angle => {
                p.stretch_factor = 2000;
                p.angle_sensitivity = 800;
                p.base_rotation = 785;
                p.hardness = 1000;
                p.spacing = 50;
            },
            BrushType::Mop => {
                p.stretch_factor = 1200;
                p.angle_sensitivity = 100;
                p.hardness = 500;
                p.spacing = 30;
            },
            BrushType::Rigger => {
                p.stretch_factor = 500;
                p.angle_sensitivity = 200;
                p.hardness = 1000;
                p.spacing = 20;
            },
        }
        p
    }

    /// The presets offered for shape `brush_type`.
    pub fn get_presets(brush_type: BrushType) -> (r: Vec<BrushProperties>)
        ensures
            r@ == presets_of(brush_type),
    {
        let base = BrushProperties::from_type(brush_type);
        let mut r: Vec<BrushProperties> = Vec::new();
        r.push(base);
        match brush_type {
            BrushType::Round => {
                r.push(BrushProperties { hardness: 400, ..base });
            },
            BrushType::Flat => {
                r.push(BrushProperties { stretch_factor: 6000, ..base });
                r.push(BrushProperties { hardness: 500, ..base });
            },
            _ => {},
        }
        assert(r@ =~= presets_of(brush_type));
        r
    }
}

} // verus!
