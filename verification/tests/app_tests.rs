use debian_bridge::app::App;
use debian_bridge::config::Config;
use debian_bridge::deb::Deb;
use debian_bridge::docker::{classify_build_event, containers_of, image_tag, BuildAction, BuildEvent};
use debian_bridge::error::AppError;
use debian_bridge::features::FeaturesList;
use debian_bridge::program::{Feature, Program};
use debian_bridge::sys::{DockerVersion, SoundDriver, System, WindowManager};

fn deb(package: &str) -> Deb {
    Deb {
        package: package.to_string(),
        version: None,
        architecture: None,
        maintainer: None,
        installed_size: None,
        dependencies: None,
        section: None,
        priority: None,
        homepage: None,
        description: None,
    }
}

fn full_system() -> System {
    System::new(
        Some(WindowManager::X11),
        Some(SoundDriver::PulseAudio),
        DockerVersion("1.40".to_string()),
    )
}

fn app_with(system: &System) -> App {
    App::new("debian_bridge", "/cache", &Config::new(&vec![]), system)
}

#[test]
fn create_registers_and_plans_the_build() {
    let mut app = app_with(&full_system());
    let plan = app
        .create(
            &deb("vlc"),
            "/tmp/vlc.deb",
            &vec![Feature::Display],
            &None,
            &None,
            &None,
            &Some("user".to_string()),
        )
        .unwrap();
    assert_eq!(plan.program.get_name_short(), "vlc");
    assert_eq!(plan.tag, "debian_bridge_vlc");
    assert!(plan.dockerfile.starts_with("FROM debian:9-slim\n"));
    assert_eq!(app.list(), vec!["vlc".to_string()]);
}

#[test]
fn create_with_unlisted_feature_is_rejected_without_registering() {
    let mut app = app_with(&full_system());
    let r = app.create(
        &deb("cam"),
        "/tmp/cam.deb",
        &vec![Feature::Webcam],
        &None,
        &None,
        &None,
        &Some("user".to_string()),
    );
    assert!(matches!(r, Err(AppError::UnsupportedFeature)));
    assert_eq!(app.list().len(), 0);
}

#[test]
fn create_duplicate_name_is_rejected_without_changes() {
    let mut app = app_with(&full_system());
    app.create(
        &deb("vlc"),
        "/tmp/vlc.deb",
        &vec![],
        &None,
        &None,
        &None,
        &Some("user".to_string()),
    )
    .unwrap();
    let r = app.create(
        &deb("vlc"),
        "/other/vlc.deb",
        &vec![],
        &None,
        &None,
        &None,
        &Some("user".to_string()),
    );
    match r {
        Err(AppError::DuplicateProgram(name)) => assert_eq!(name, "vlc"),
        Err(other) => panic!("expected DuplicateProgram, got {:?}", other),
        Ok(_) => panic!("expected DuplicateProgram, got a plan"),
    }
    assert_eq!(app.list(), vec!["vlc".to_string()]);
}

#[test]
fn create_without_user_is_rejected() {
    let mut app = app_with(&full_system());
    let r = app.create(
        &deb("vlc"),
        "/tmp/vlc.deb",
        &vec![],
        &None,
        &None,
        &None,
        &None,
    );
    assert!(matches!(r, Err(AppError::UserResolutionFailed)));
    assert_eq!(app.list().len(), 0);
}

#[test]
fn remove_hands_back_the_program() {
    let mut app = app_with(&full_system());
    app.create(
        &deb("vlc"),
        "/tmp/vlc.deb",
        &vec![],
        &None,
        &None,
        &None,
        &Some("user".to_string()),
    )
    .unwrap();
    let removed = app.remove("vlc").unwrap();
    assert_eq!(removed.get_name_short(), "vlc");
    assert_eq!(app.list().len(), 0);

    let r = app.remove("vlc");
    assert!(matches!(r, Err(AppError::ProgramNotFound(_))));
}

#[test]
fn validate_only_asks_that_features_are_listed() {
    let offline = System::new(None, None, DockerVersion("1.40".to_string()));
    let features = FeaturesList::new(&offline);
    assert!(features.validate(&vec![Feature::Display, Feature::Sound]));
    assert!(features.validate(&vec![]));
    assert!(!features.validate(&vec![Feature::Webcam]));
    assert!(!features.validate(&vec![Feature::Printer, Feature::Display]));
}

#[test]
fn run_derives_feature_conditional_arguments() {
    let mut app = app_with(&full_system());
    app.create(
        &deb("vlc"),
        "/tmp/vlc.deb",
        &vec![Feature::Display, Feature::HomePersistent],
        &None,
        &None,
        &None,
        &Some("user".to_string()),
    )
    .unwrap();
    let args = app.run("vlc", "/home/user").unwrap();
    assert_eq!(
        args,
        vec![
            "run",
            "-ti",
            "--net=host",
            "--rm",
            "-v",
            "/dev/shm:/dev/shm",
            "-v",
            "/etc/machine-id:/etc/machine-id",
            "-v",
            "/var/lib/dbus:/var/lib/dbus",
            "--privileged",
            "-v",
            "/tmp/.X11-unix:/tmp/.X11-unix",
            "--env",
            "DISPLAY",
            "-v",
            "/home/user:/home/user",
            "debian_bridge_vlc",
        ]
    );
}

#[test]
fn run_unknown_program_is_refused() {
    let app = app_with(&full_system());
    let r = app.run("ghost", "/home/user");
    assert!(matches!(r, Err(AppError::ProgramNotFound(_))));
}

#[test]
fn image_tag_is_namespaced() {
    assert_eq!(image_tag("debian_bridge", "vlc"), "debian_bridge_vlc");
    let p = Program::new("vlc", "/tmp/vlc.deb", &vec![], &None, &None, &None);
    assert_eq!(p.get_name("debian_bridge"), "debian_bridge_vlc");
}

#[test]
fn containers_of_selects_by_image_reference() {
    let containers = vec![
        ("c1".to_string(), "debian_bridge_vlc".to_string()),
        ("c2".to_string(), "other_image".to_string()),
        ("c3".to_string(), "debian_bridge_vlc".to_string()),
    ];
    assert_eq!(
        containers_of(&containers, "debian_bridge_vlc"),
        vec!["c1".to_string(), "c3".to_string()]
    );
    assert_eq!(containers_of(&containers, "missing").len(), 0);
}

#[test]
fn build_events_are_classified() {
    let abort = classify_build_event(&BuildEvent::Error("boom".to_string()));
    assert!(matches!(abort, BuildAction::Abort(m) if m == "boom"));
    let log = classify_build_event(&BuildEvent::Stream("step 1".to_string()));
    assert!(matches!(log, BuildAction::Log(m) if m == "step 1"));
    let ignore = classify_build_event(&BuildEvent::Other);
    assert!(matches!(ignore, BuildAction::Ignore));
}
