//! Which camera the scene gets, as the environment asks for it.
//!
//! The host reads the two variables; what their values mean is decided here.

use vstd::prelude::*;
use crate::text::same_text;

verus! {

/// Name of the variable that picks the camera.
pub const CAMERA_VAR: &'static str = "camera";

/// Name of the variable that picks whose pan-orbit camera is used.
pub const REFERENCE_VAR: &'static str = "reference";

/// The kind of camera.
#[derive(Clone, Copy, Debug, PartialEq, Eq, Structural)]
pub enum CameraType {
    Default,
    PanOrbit,
    Orthographic,
}

/// Whether a camera is the scene's own or one that is brought in.
#[derive(Clone, Copy, Debug, PartialEq, Eq, Structural)]
pub enum ReferenceType {
    Internal,
    External,
}

/// What the environment asks for.
#[derive(Clone, Copy, Debug, PartialEq, Eq, Structural)]
pub struct Envs {
    pub camera: CameraType,
    pub reference: ReferenceType,
}

/// A set of plugins that makes up one way of looking at the scene.
#[derive(Clone, Copy, Debug, PartialEq, Eq, Structural)]
pub enum CameraRig {
    /// The plain perspective camera, moved with the keyboard.
    Free,
    /// The orthographic camera, moved with the keyboard.
    Orthographic,
    /// The scene's own pan-orbit camera.
    PanOrbit,
    /// The pan-orbit camera that is brought in.
    PanOrbitExternal,
}

impl Default for CameraType {
    fn default() -> (r: CameraType)
        ensures
            r == CameraType::Default,
    {
        CameraType::Default
    }
}

impl Default for ReferenceType {
    fn default() -> (r: ReferenceType)
        ensures
            r == ReferenceType::Internal,
    {
        ReferenceType::Internal
    }
}

impl Default for Envs {
    fn default() -> (r: Envs)
        ensures
            r == (Envs { camera: CameraType::Default, reference: ReferenceType::Internal }),
    {
        Envs { camera: CameraType::Default, reference: ReferenceType::Internal }
    }
}

/// The camera that a value of the camera variable names.
pub open spec fn camera_named(value: Seq<char>) -> CameraType {
    if value == "pan_orbit"@ {
        CameraType::PanOrbit
    } else if value == "orthographic"@ {
        CameraType::Orthographic
    } else {
        CameraType::Default
    }
}

/// The reference that a value of the reference variable names.
pub open spec fn reference_named(value: Seq<char>) -> ReferenceType {
    if value == "external"@ {
        ReferenceType::External
    } else {
        ReferenceType::Internal
    }
}

/// The rig that the kind of camera picks; the reference counts only for the
/// pan-orbit camera.
pub open spec fn rig_by_camera(envs: Envs) -> CameraRig {
    match envs.camera {
        CameraType::Default => CameraRig::Free,
        CameraType::Orthographic => CameraRig::Orthographic,
        CameraType::PanOrbit => match envs.reference {
            ReferenceType::External => CameraRig::PanOrbitExternal,
            ReferenceType::Internal => CameraRig::PanOrbit,
        },
    }
}

/// The rig that camera and reference pick together; a pair that is not
/// listed gets the plain camera.
pub open spec fn rig_by_pair(envs: Envs) -> CameraRig {
    match (envs.camera, envs.reference) {
        (CameraType::Orthographic, ReferenceType::Internal) => CameraRig::Orthographic,
        (CameraType::PanOrbit, ReferenceType::Internal) => CameraRig::PanOrbit,
        (CameraType::PanOrbit, ReferenceType::External) => CameraRig::PanOrbitExternal,
        (_, _) => CameraRig::Free,
    }
}

/// Reads a value of the camera variable. Anything but the two known names
/// means the default camera.
pub fn parse_camera(value: &str) -> (r: CameraType)
    ensures
        r == camera_named(value@),
{
    if same_text(value, "pan_orbit") {
        CameraType::PanOrbit
    } else if same_text(value, "orthographic") {
        CameraType::Orthographic
    } else {
        CameraType::Default
    }
}

/// Reads a value of the reference variable. Anything but `external` means
/// the scene's own camera.
pub fn parse_reference(value: &str) -> (r: ReferenceType)
    ensures
        r == reference_named(value@),
{
    if same_text(value, "external") {
        ReferenceType::External
    } else {
        ReferenceType::Internal
    }
}

impl Envs {
    /// What the environment asks for, from the values of the two variables.
    /// A variable that is not set leaves its default.
    pub fn from_vars(camera: Option<&str>, reference: Option<&str>) -> (r: Envs)
        ensures
            r.camera == match camera {
                Some(value) => camera_named(value@),
                None => CameraType::Default,
            },
            r.reference == match reference {
                Some(value) => reference_named(value@),
                None => ReferenceType::Internal,
            },
    {
        let mut envs = Envs::default();
        if let Some(value) = camera {
            envs.camera = parse_camera(value);
        }
        if let Some(value) = reference {
            envs.reference = parse_reference(value);
        }
        envs
    }

    /// The rigs that the scene sets up, in their order: first the one that
    /// the kind of camera picks, then the one that camera and reference pick
    /// together.
    pub fn rigs(&self) -> (r: [CameraRig; 2])
        ensures
            r@ == seq![rig_by_camera(*self), rig_by_pair(*self)],
    {
        let first = match self.camera {
            CameraType::Default => CameraRig::Free,
            CameraType::Orthographic => CameraRig::Orthographic,
            CameraType::PanOrbit => match self.reference {
                ReferenceType::External => CameraRig::PanOrbitExternal,
                ReferenceType::Internal => CameraRig::PanOrbit,
            },
        };
        let second = match (self.camera, self.reference) {
            (CameraType::Orthographic, ReferenceType::Internal) => CameraRig::Orthographic,
            (CameraType::PanOrbit, ReferenceType::Internal) => CameraRig::PanOrbit,
            (CameraType::PanOrbit, ReferenceType::External) => CameraRig::PanOrbitExternal,
            (_, _) => CameraRig::Free,
        };
        let r = [first, second];
        assert(r@ =~= seq![rig_by_camera(*self), rig_by_pair(*self)]);
        r
    }
}

/// The two ways of picking a rig agree on every request but one: an
/// orthographic camera with an external reference.
pub proof fn lemma_rigs_agree(envs: Envs)
    ensures
        rig_by_camera(envs) == rig_by_pair(envs) <==> !(envs.camera == CameraType::Orthographic
            && envs.reference == ReferenceType::External),
{
}

} // verus!
