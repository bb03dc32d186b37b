use debian_bridge::deb::{is_deb_path, Deb, Dependencies};
use debian_bridge::error::AppError;

#[test]
fn dep_parses_success() {
    let deps = Dependencies::new(
        "git, libgconf-2-4 (>= 3.2.5) | libgconf2-4, libgtk-3-0 (>= 3.9.10),libgcrypt11 | \
         libgcrypt20, libnotify4, libxtst6, libnss3 (>= 2:3.22), python, gvfs-bin, xdg-utils, \
         libx11-xcb1, libxss1,libasound2 (>= 1.0.16), libxkbfile1, libcurl3 | libcurl4, \
         policykit-1",
    );

    assert_eq!(
        deps.extract(),
        "git libgconf-2-4 libgtk-3-0 libgcrypt11 libnotify4 libxtst6 libnss3 python gvfs-bin \
         xdg-utils libx11-xcb1 libxss1 libasound2 libxkbfile1 libcurl3 policykit-1",
    );

    let deps = Dependencies::new("one_dep");

    assert_eq!(deps.extract(), "one_dep");
}

#[test]
fn dep_strips_constraint_and_keeps_first_alternative() {
    let deps = Dependencies::new("libgconf-2-4 (>= 3.2.5) | libgconf2-4, one_dep");
    assert_eq!(deps.extract(), "libgconf-2-4 one_dep");
    assert_eq!(deps.len(), 2);
}

#[test]
fn dep_excludes_empty_entries() {
    let deps = Dependencies::new("a,,  , b");
    assert_eq!(deps.extract(), "a b");
    assert_eq!(deps.len(), 2);
}

#[test]
fn control_parse_reads_fields() {
    let control = "Package: vlc\nVersion: 3.0.1\nArchitecture: amd64\nMaintainer: someone\n\
                   Installed-Size: 1234\nDepends: libc6 (>= 2.17), libx11-6 | libx12\n\
                   Section: video\nPriority: optional\nHomepage: https://example.org\n\
                   Description: media player\n";
    let deb = Deb::parse(control).unwrap();
    assert_eq!(deb.package, "vlc");
    assert_eq!(deb.version.as_deref(), Some("3.0.1"));
    assert_eq!(deb.architecture.as_deref(), Some("amd64"));
    assert_eq!(deb.maintainer.as_deref(), Some("someone"));
    assert_eq!(deb.installed_size.as_deref(), Some("1234"));
    assert_eq!(deb.dependencies.unwrap().extract(), "libc6 libx11-6");
    assert_eq!(deb.section.as_deref(), Some("video"));
    assert_eq!(deb.priority.as_deref(), Some("optional"));
    assert_eq!(deb.homepage.as_deref(), Some("https://example.org"));
    assert_eq!(deb.description.as_deref(), Some("media player"));
}

#[test]
fn control_parse_optional_fields_absent() {
    let deb = Deb::parse("Package: tiny\n").unwrap();
    assert_eq!(deb.package, "tiny");
    assert!(deb.version.is_none());
    assert!(deb.dependencies.is_none());
    assert!(deb.description.is_none());
}

#[test]
fn control_parse_missing_package_fails() {
    let r = Deb::parse("Version: 1.0\nDescription: no name here\n");
    assert!(matches!(r, Err(AppError::MissingPackageName)));
}

#[test]
fn deb_path_extension_check() {
    assert!(is_deb_path("/tmp/app.deb"));
    assert!(is_deb_path("app.deb"));
    assert!(!is_deb_path("/tmp/app.tar.gz"));
    assert!(!is_deb_path("/tmp/.deb"));
    assert!(!is_deb_path("app"));
    assert!(!is_deb_path(""));
}
