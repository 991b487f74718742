use rollback_core::env::{
    parse_camera, parse_reference, CameraRig, CameraType, Envs, ReferenceType, CAMERA_VAR,
    REFERENCE_VAR,
};
use rollback_core::text::same_text;

#[test]
fn the_names_of_the_two_variables() {
    assert_eq!(CAMERA_VAR, "camera");
    assert_eq!(REFERENCE_VAR, "reference");
}

#[test]
fn defaults() {
    assert_eq!(CameraType::default(), CameraType::Default);
    assert_eq!(ReferenceType::default(), ReferenceType::Internal);
    assert_eq!(
        Envs::default(),
        Envs { camera: CameraType::Default, reference: ReferenceType::Internal }
    );
}

#[test]
fn camera_names() {
    assert_eq!(parse_camera("pan_orbit"), CameraType::PanOrbit);
    assert_eq!(parse_camera("orthographic"), CameraType::Orthographic);
    assert_eq!(parse_camera("default"), CameraType::Default);
    assert_eq!(parse_camera(""), CameraType::Default);
    assert_eq!(parse_camera("Pan_Orbit"), CameraType::Default);
    assert_eq!(parse_camera("pan_orbit "), CameraType::Default);
    assert_eq!(parse_camera("orthographi"), CameraType::Default);
}

#[test]
fn reference_names() {
    assert_eq!(parse_reference("external"), ReferenceType::External);
    assert_eq!(parse_reference("internal"), ReferenceType::Internal);
    assert_eq!(parse_reference(""), ReferenceType::Internal);
    assert_eq!(parse_reference("EXTERNAL"), ReferenceType::Internal);
    assert_eq!(parse_reference("externals"), ReferenceType::Internal);
}

#[test]
fn unset_variables_leave_the_defaults() {
    assert_eq!(Envs::from_vars(None, None), Envs::default());
    assert_eq!(
        Envs::from_vars(Some("orthographic"), None),
        Envs { camera: CameraType::Orthographic, reference: ReferenceType::Internal }
    );
    assert_eq!(
        Envs::from_vars(None, Some("external")),
        Envs { camera: CameraType::Default, reference: ReferenceType::External }
    );
    assert_eq!(
        Envs::from_vars(Some("pan_orbit"), Some("external")),
        Envs { camera: CameraType::PanOrbit, reference: ReferenceType::External }
    );
    assert_eq!(Envs::from_vars(Some("x"), Some("y")), Envs::default());
}

#[test]
fn the_rigs_of_every_request() {
    let rigs = |camera, reference| Envs { camera, reference }.rigs();
    assert_eq!(
        rigs(CameraType::Default, ReferenceType::Internal),
        [CameraRig::Free, CameraRig::Free]
    );
    assert_eq!(
        rigs(CameraType::Default, ReferenceType::External),
        [CameraRig::Free, CameraRig::Free]
    );
    assert_eq!(
        rigs(CameraType::Orthographic, ReferenceType::Internal),
        [CameraRig::Orthographic, CameraRig::Orthographic]
    );
    assert_eq!(
        rigs(CameraType::Orthographic, ReferenceType::External),
        [CameraRig::Orthographic, CameraRig::Free]
    );
    assert_eq!(
        rigs(CameraType::PanOrbit, ReferenceType::Internal),
        [CameraRig::PanOrbit, CameraRig::PanOrbit]
    );
    assert_eq!(
        rigs(CameraType::PanOrbit, ReferenceType::External),
        [CameraRig::PanOrbitExternal, CameraRig::PanOrbitExternal]
    );
}

#[test]
fn text_is_compared_character_by_character() {
    assert!(same_text("", ""));
    assert!(same_text("camera", "camera"));
    assert!(!same_text("camera", "camerA"));
    assert!(!same_text("camera", "camer"));
    assert!(!same_text("", "a"));
    assert!(same_text("grüße", "grüße"));
    assert!(!same_text("grüße", "grusse"));
}
