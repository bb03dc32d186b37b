use debian_bridge::buildspec::gen_dockerfile;
use debian_bridge::deb::{Deb, Dependencies};
use debian_bridge::error::AppError;
use debian_bridge::program::Program;

fn get_program() -> Program {
    Program::new(
        "foobar",
        "",
        &vec![],
        &None,
        &None,
        &Some("baz qux".to_string()),
    )
}

fn get_deb() -> Deb {
    Deb {
        package: "".to_string(),
        version: None,
        architecture: None,
        maintainer: None,
        installed_size: None,
        dependencies: Some(Dependencies::new("foo, bar")),
        section: None,
        priority: None,
        homepage: None,
        description: None,
    }
}

#[test]
fn test_gen_dockerfile() {
    let dockerfile = gen_dockerfile(&get_deb(), &get_program(), &Some("user".to_string())).unwrap();

    assert_eq!(
        dockerfile,
        "\
         FROM debian:9-slim\n\
         ENV informuser=user\n\
         WORKDIR /data\n\
         COPY tmp.deb /data/application.deb\n\
         RUN apt-get update\n\
         RUN apt-get install -y foo bar; exit 0\n\
         RUN apt-get install -y baz qux\n\
         RUN dpkg -i /data/application.deb || true\n\
         RUN apt-get install -y -f --no-install-recommends && rm -rf /var/lib/apt/lists/* && \
         useradd $informuser\nUSER $informuser\nENV HOME /home/$informuser\nCMD foobar\n"
    )
}

#[test]
fn gen_dockerfile_is_stable_across_calls() {
    let first = gen_dockerfile(&get_deb(), &get_program(), &Some("user".to_string())).unwrap();
    let second = gen_dockerfile(&get_deb(), &get_program(), &Some("user".to_string())).unwrap();
    assert_eq!(first, second);
}

#[test]
fn gen_dockerfile_without_optional_deps() {
    let deb = Deb {
        package: "app".to_string(),
        version: None,
        architecture: None,
        maintainer: None,
        installed_size: None,
        dependencies: None,
        section: None,
        priority: None,
        homepage: None,
        description: None,
    };
    let program = Program::new("app", "/p/app.deb", &vec![], &None, &None, &None);
    let dockerfile = gen_dockerfile(&deb, &program, &Some("me".to_string())).unwrap();
    assert_eq!(
        dockerfile,
        "FROM debian:9-slim\n\
         ENV informuser=me\n\
         WORKDIR /data\n\
         COPY tmp.deb /data/application.deb\n\
         RUN apt-get update\n\
         RUN dpkg -i /data/application.deb || true\n\
         RUN apt-get install -y -f --no-install-recommends && rm -rf /var/lib/apt/lists/* && \
         useradd $informuser\nUSER $informuser\nENV HOME /home/$informuser\nCMD app\n"
    );
}

#[test]
fn gen_dockerfile_skips_install_of_an_empty_dependency_list() {
    let deb = Deb {
        package: "app".to_string(),
        version: None,
        architecture: None,
        maintainer: None,
        installed_size: None,
        dependencies: Some(Dependencies::new("  ")),
        section: None,
        priority: None,
        homepage: None,
        description: None,
    };
    let program = Program::new("app", "/p/app.deb", &vec![], &None, &None, &None);
    let dockerfile = gen_dockerfile(&deb, &program, &Some("me".to_string())).unwrap();
    assert!(!dockerfile.contains("install -y ;"));
}

#[test]
fn gen_dockerfile_fails_without_user() {
    let r = gen_dockerfile(&get_deb(), &get_program(), &None);
    assert!(matches!(r, Err(AppError::UserResolutionFailed)));
}
