use debian_bridge::config::Config;
use debian_bridge::error::AppError;
use debian_bridge::program::{Feature, Icon, Program};

fn program(name: &str) -> Program {
    Program::new(
        name,
        "/pkg/app.deb",
        &vec![Feature::Display, Feature::Sound],
        &Some(Icon::new("/icons/app.ico")),
        &Some("run-app".to_string()),
        &Some("extra-dep".to_string()),
    )
}

fn names(config: &Config) -> Vec<String> {
    config
        .programs
        .iter()
        .map(|p| p.get_name_short())
        .collect()
}

#[test]
fn push_appends_in_order() {
    let mut config = Config::new(&vec![]);
    config.push(&program("a")).unwrap();
    config.push(&program("b")).unwrap();
    assert_eq!(names(&config), vec!["a".to_string(), "b".to_string()]);
}

#[test]
fn push_duplicate_is_refused_and_registry_unchanged() {
    let mut config = Config::new(&vec![]);
    config.push(&program("a")).unwrap();
    config.push(&program("b")).unwrap();
    let before = names(&config);

    let r = config.push(&program("a"));
    match r {
        Err(AppError::DuplicateProgram(name)) => assert_eq!(name, "a"),
        other => panic!("expected DuplicateProgram, got {:?}", other),
    }
    assert_eq!(names(&config), before);
    assert_eq!(config.programs.len(), 2);
    assert_eq!(config.programs[0].command, "run-app");
}

#[test]
fn remove_absent_is_refused_and_registry_unchanged() {
    let mut config = Config::new(&vec![]);
    config.push(&program("a")).unwrap();
    let before = names(&config);

    let r = config.remove(&program("ghost"));
    match r {
        Err(AppError::ProgramNotFound(name)) => assert_eq!(name, "ghost"),
        other => panic!("expected ProgramNotFound, got {:?}", other),
    }
    assert_eq!(names(&config), before);
}

#[test]
fn remove_deletes_the_single_match() {
    let mut config = Config::new(&vec![]);
    config.push(&program("a")).unwrap();
    config.push(&program("b")).unwrap();
    config.push(&program("c")).unwrap();
    config.remove(&program("b")).unwrap();
    assert_eq!(names(&config), vec!["a".to_string(), "c".to_string()]);
}

#[test]
fn find_returns_first_match_with_index() {
    let mut config = Config::new(&vec![]);
    config.push(&program("a")).unwrap();
    config.push(&program("b")).unwrap();
    let (found, idx) = config.find("b").unwrap();
    assert_eq!(found.get_name_short(), "b");
    assert_eq!(idx, 1);
    assert!(config.find("zzz").is_none());
}

#[test]
fn clear_empties_the_registry() {
    let mut config = Config::new(&vec![]);
    config.push(&program("a")).unwrap();
    config.clear();
    assert_eq!(config.programs.len(), 0);
}

#[test]
fn serialize_pins_the_canonical_document() {
    let mut config = Config::new(&vec![]);
    config
        .push(&Program::new(
            "vlc",
            "/tmp/vlc.deb",
            &vec![Feature::Display],
            &None,
            &None,
            &None,
        ))
        .unwrap();
    assert_eq!(
        config.serialize(),
        "{\"programs\":[{\"name\":\"vlc\",\"path\":\"/tmp/vlc.deb\",\
         \"settings\":[\"Display\"],\"icon\":null,\"command\":\"vlc\",\"deps\":null}]}"
    );
}

#[test]
fn serialize_empty_registry() {
    let config = Config::new(&vec![]);
    assert_eq!(config.serialize(), "{\"programs\":[]}");
}

#[test]
fn round_trip_preserves_programs_in_order() {
    let mut config = Config::new(&vec![]);
    config.push(&program("alpha")).unwrap();
    config
        .push(&Program::new(
            "beta",
            "/b/beta.deb",
            &vec![
                Feature::Display,
                Feature::Sound,
                Feature::Notification,
                Feature::Webcam,
                Feature::Printer,
                Feature::HomePersistent,
                Feature::Time,
                Feature::Devices,
            ],
            &None,
            &None,
            &None,
        ))
        .unwrap();

    let text = config.serialize();
    let back = Config::deserialize(&Some(text)).unwrap();

    assert_eq!(back.programs.len(), 2);
    assert_eq!(back.programs[0].get_name_short(), "alpha");
    assert_eq!(back.programs[0].path, "/pkg/app.deb");
    assert_eq!(
        back.programs[0].settings,
        vec![Feature::Display, Feature::Sound]
    );
    assert_eq!(back.programs[0].icon.as_ref().unwrap().path, "/icons/app.ico");
    assert_eq!(back.programs[0].command, "run-app");
    assert_eq!(back.programs[0].deps.as_deref(), Some("extra-dep"));
    assert_eq!(back.programs[1].get_name_short(), "beta");
    assert_eq!(back.programs[1].settings.len(), 8);
    assert_eq!(back.programs[1].command, "beta");
    assert!(back.programs[1].icon.is_none());
    assert!(back.programs[1].deps.is_none());
}

#[test]
fn round_trip_preserves_escaped_characters() {
    let mut config = Config::new(&vec![]);
    config
        .push(&Program::new(
            "odd",
            "/with \"quotes\"\\and\nbreaks\ttabs",
            &vec![],
            &None,
            &None,
            &None,
        ))
        .unwrap();
    let text = config.serialize();
    let back = Config::deserialize(&Some(text)).unwrap();
    assert_eq!(back.programs[0].path, "/with \"quotes\"\\and\nbreaks\ttabs");
}

#[test]
fn deserialize_missing_file_yields_empty_registry() {
    let config = Config::deserialize(&None).unwrap();
    assert_eq!(config.programs.len(), 0);
}

#[test]
fn deserialize_rejects_foreign_text() {
    let r = Config::deserialize(&Some("not a registry".to_string()));
    assert!(matches!(r, Err(AppError::IOFailure(_))));
    let r = Config::deserialize(&Some("{\"programs\":[".to_string()));
    assert!(matches!(r, Err(AppError::IOFailure(_))));
}
