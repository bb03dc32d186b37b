use debian_bridge::error::{AppError, SystemError};
use debian_bridge::features::FeaturesList;
use debian_bridge::program::Feature;
use debian_bridge::sys::{
    DockerVersion, PrinterDriver, SoundDriver, System, WebCamDriver, WindowManager,
};

#[test]
fn snapshot_lists_display_and_sound_with_probed_availability() {
    let system = System::new(
        Some(WindowManager::Wayland),
        None,
        DockerVersion("1.40".to_string()),
    );
    let features = FeaturesList::new(&system);
    assert_eq!(features.list.len(), 6);
    assert_eq!(features.list[0], (Feature::Display, true));
    assert_eq!(features.list[1], (Feature::Sound, false));
    assert_eq!(features.list[2], (Feature::Devices, true));
    assert_eq!(features.list[3], (Feature::Notification, true));
    assert_eq!(features.list[4], (Feature::Time, true));
    assert_eq!(features.list[5], (Feature::HomePersistent, true));
    assert!(features.is_listed(Feature::Sound));
    assert!(!features.is_listed(Feature::Webcam));
    assert!(!features.is_listed(Feature::Printer));
}

#[test]
fn driver_names_render() {
    assert_eq!(WindowManager::X11.name(), "X11");
    assert_eq!(WindowManager::Wayland.name(), "Wayland");
    assert_eq!(SoundDriver::Alsa.name(), "Alsa");
    assert_eq!(SoundDriver::PulseAudio.name(), "PulseAudio");
    assert_eq!(PrinterDriver::Default.name(), "Default driver installed");
    assert_eq!(WebCamDriver::Default.name(), "Default driver installed");
    assert_eq!(DockerVersion("1.40".to_string()).name(), "1.40");
}

#[test]
fn feature_names_render() {
    assert_eq!(Feature::Display.name(), "Display");
    assert_eq!(Feature::HomePersistent.name(), "HomePersistent");
    assert_eq!(Feature::Devices.name(), "Devices");
}

#[test]
fn errors_render_as_single_lines() {
    assert_eq!(
        AppError::InvalidPackage.message(),
        "Input application doesn't exist or is in incorrect format"
    );
    assert_eq!(
        AppError::ExtractionFailed("broken archive".to_string()).message(),
        "Can not parse a package: broken archive"
    );
    assert_eq!(
        AppError::MissingPackageName.message(),
        "Can not parse an input package"
    );
    assert_eq!(
        AppError::UserResolutionFailed.message(),
        "Can not find a current user"
    );
    assert_eq!(
        AppError::BuildFailed("step 7 failed".to_string()).message(),
        "Failed to build an image: step 7 failed"
    );
    assert_eq!(
        AppError::EngineUnavailable.message(),
        "Cannot connect to docker daemon"
    );
    assert_eq!(AppError::NotFound.message(), "Image or container not found");
    assert_eq!(
        AppError::IOFailure("disk full".to_string()).message(),
        "IO errors occured: disk full"
    );
    assert_eq!(
        AppError::UnsupportedFeature.message(),
        "You have set unavailable feature"
    );
    assert_eq!(
        AppError::DuplicateProgram("vlc".to_string()).message(),
        "Program with such name already exists 'vlc'"
    );
    assert_eq!(
        AppError::ProgramNotFound("vlc".to_string()).message(),
        "Can't find a program 'vlc'"
    );
    assert!(matches!(
        SystemError::DockerConnection,
        SystemError::DockerConnection
    ));
}
