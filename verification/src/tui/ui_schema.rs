//! A description of the settings the editor offers.
use vstd::prelude::*;

verus! {

/// The kind of value a setting holds.
#[derive(Debug, Clone, Copy, PartialEq, Eq, Structural)]
pub enum FieldKind {
    Path,
    U64,
    Bool,
}

/// A named setting.
pub struct FieldSpec {
    pub name: &'static str,
    pub kind: FieldKind,
}

/// A modifier and its settings.
pub struct ModifierSpec {
    pub name: &'static str,
    pub fields: Vec<FieldSpec>,
}

/// The settings of the general section and of the modifiers.
pub struct UiSchema;

impl UiSchema {
    /// The general settings: the input and output paths.
    pub fn general() -> (r: Vec<FieldSpec>)
        ensures
            r@.len() == 2,
            r@[0].name@ == "input"@ && r@[0].kind == FieldKind::Path,
            r@[1].name@ == "output"@ && r@[1].kind == FieldKind::Path,
    {
        vec![
            FieldSpec { name: "input", kind: FieldKind::Path },
            FieldSpec { name: "output", kind: FieldKind::Path },
        ]
    }

    /// The modifiers described, each with its numeric settings:
    /// "DropEveryNth" (n), "Delay::Fixed" (millis), "Delay::Jitter" (min_ms,
    /// max_ms), "Delay::PerFlow" (millis) and "Delay::Burst" (active_ms,
    /// pause_ms).
    pub fn modifiers() -> (r: Vec<ModifierSpec>)
        ensures
            r@.len() == 5,
            r@[0].name@ == "DropEveryNth"@ && r@[0].fields@.len() == 1 && r@[0].fields@[0].name@
                == "n"@,
            r@[1].name@ == "Delay::Fixed"@ && r@[1].fields@.len() == 1 && r@[1].fields@[0].name@
                == "millis"@,
            r@[2].name@ == "Delay::Jitter"@ && r@[2].fields@.len() == 2 && r@[2].fields@[0].name@
                == "min_ms"@ && r@[2].fields@[1].name@ == "max_ms"@,
            r@[3].name@ == "Delay::PerFlow"@ && r@[3].fields@.len() == 1 && r@[3].fields@[0].name@
                == "millis"@,
            r@[4].name@ == "Delay::Burst"@ && r@[4].fields@.len() == 2 && r@[4].fields@[0].name@
                == "active_ms"@ && r@[4].fields@[1].name@ == "pause_ms"@,
            forall|i: int, j: int|
                0 <= i < 5 && 0 <= j < r@[i].fields@.len() ==> r@[i].fields@[j].kind
                    == FieldKind::U64,
    {
        vec![
            ModifierSpec {
                name: "DropEveryNth",
                fields: vec![FieldSpec { name: "n", kind: FieldKind::U64 }],
            },
            ModifierSpec {
                name: "Delay::Fixed",
                fields: vec![FieldSpec { name: "millis", kind: FieldKind::U64 }],
            },
            ModifierSpec {
                name: "Delay::Jitter",
                fields: vec![
                    FieldSpec { name: "min_ms", kind: FieldKind::U64 },
                    FieldSpec { name: "max_ms", kind: FieldKind::U64 },
                ],
            },
            ModifierSpec {
                name: "Delay::PerFlow",
                fields: vec![FieldSpec { name: "millis", kind: FieldKind::U64 }],
            },
            ModifierSpec {
                name: "Delay::Burst",
                fields: vec![
                    FieldSpec { name: "active_ms", kind: FieldKind::U64 },
                    FieldSpec { name: "pause_ms", kind: FieldKind::U64 },
                ],
            },
        ]
    }
}

} // verus!
