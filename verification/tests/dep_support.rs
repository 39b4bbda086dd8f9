use tectonic_wasi::dep_support::{
    is_system_library, manual_env_prefix, manual_link_lib, parse_backend_setting,
    static_archive_name, Backend, Configuration, DepState, Dependency, EmitAction,
    PkgConfigLibrary, ProbeRequest, Spec,
};

struct HarfbuzzIcu;

impl Spec for HarfbuzzIcu {
    fn get_pkgconfig_spec(&self) -> &str {
        "harfbuzz-icu"
    }

    fn get_vcpkg_spec(&self) -> &[&str] {
        &["harfbuzz", "icu"]
    }
}

struct Freetype2;

impl Spec for Freetype2 {
    fn get_pkgconfig_spec(&self) -> &str {
        "freetype2"
    }

    fn get_vcpkg_spec(&self) -> &[&str] {
        &["freetype"]
    }
}

fn strings(v: &[&str]) -> Vec<String> {
    v.iter().map(|s| s.to_string()).collect()
}

#[test]
fn spec_defaults_derive_manual_names() {
    assert_eq!(Freetype2.get_manual_env_prefix(), "FREETYPE2");
    assert_eq!(HarfbuzzIcu.get_manual_env_prefix(), "HARFBUZZ_ICU");
    assert_eq!(HarfbuzzIcu.get_manual_link_libs(), strings(&["harfbuzzicu"]));
    assert_eq!(manual_env_prefix("lib+x-y"), "LIB_X_Y");
    assert_eq!(manual_link_lib("lib+x-y"), "libxy");
    assert_eq!(manual_link_lib("gtk+-3.0"), "gtk3.0");
}

#[test]
fn backend_settings() {
    assert_eq!(parse_backend_setting("pkg-config"), Some(Backend::PkgConfig));
    assert_eq!(parse_backend_setting("vcpkg"), Some(Backend::Vcpkg));
    assert_eq!(parse_backend_setting("manual"), Some(Backend::Manual));
    assert_eq!(parse_backend_setting("default"), Some(Backend::PkgConfig));
    assert_eq!(parse_backend_setting("cmake"), None);
    assert_eq!(parse_backend_setting("Manual"), None);
    assert_eq!(Backend::default(), Backend::PkgConfig);
}

#[test]
fn configuration_from_settings() {
    let c = Configuration::from_settings(None, Some("wasm32"), true);
    assert_eq!(c.backend, Backend::Manual);
    assert!(c.semi_static_mode());
    let c = Configuration::from_settings(None, Some("x86_64"), false);
    assert_eq!(c.backend, Backend::PkgConfig);
    assert!(!c.semi_static_mode());
    let c = Configuration::from_settings(None, None, false);
    assert_eq!(c.backend, Backend::PkgConfig);
    let c = Configuration::from_settings(Some("vcpkg"), Some("wasm32"), false);
    assert_eq!(c.backend, Backend::Vcpkg);
    let c = Configuration::from_settings(Some("default"), Some("wasm32"), false);
    assert_eq!(c.backend, Backend::PkgConfig);
    assert_eq!(c, Configuration::new(Backend::PkgConfig, false));
}

#[test]
fn probe_requests_by_backend() {
    let pc = Configuration::new(Backend::PkgConfig, true);
    match DepState::probe_request(&HarfbuzzIcu, &pc) {
        ProbeRequest::PkgConfig { spec, statik } => {
            assert_eq!(spec, "harfbuzz-icu");
            assert!(statik);
        }
        _ => panic!("expected a pkg-config probe"),
    }
    let vc = Configuration::new(Backend::Vcpkg, false);
    match DepState::probe_request(&HarfbuzzIcu, &vc) {
        ProbeRequest::Vcpkg { packages } => assert_eq!(packages, strings(&["harfbuzz", "icu"])),
        _ => panic!("expected a vcpkg probe"),
    }
    let mc = Configuration::new(Backend::Manual, false);
    match DepState::probe_request(&HarfbuzzIcu, &mc) {
        ProbeRequest::Manual { include_var, lib_var } => {
            assert_eq!(include_var, "HARFBUZZ_ICU_INCLUDE_PATH");
            assert_eq!(lib_var, "HARFBUZZ_ICU_LIB_DIR");
        }
        _ => panic!("expected a manual probe"),
    }
}

#[test]
fn manual_state_splits_variables() {
    let cfg = Configuration::new(Backend::Manual, false);
    let state = DepState::new_from_manual(&Freetype2, Some("/a/include;;/b/include;"), None);
    let dep = Dependency::probe(Freetype2, &cfg, state);
    assert_eq!(dep.include_paths(), &strings(&["/a/include", "/b/include"]));
    match dep.emit(&vec![]) {
        EmitAction::Lines(lines) => {
            assert_eq!(lines, strings(&["cargo:rustc-link-lib=static=freetype2"]));
        }
        _ => panic!("expected lines"),
    }
    let state = DepState::new_from_manual(&HarfbuzzIcu, Some(""), Some("/x/lib;/y/lib"));
    let dep = Dependency::probe(HarfbuzzIcu, &cfg, state);
    assert!(dep.include_paths().is_empty());
    match dep.emit(&vec![]) {
        EmitAction::Lines(lines) => assert_eq!(
            lines,
            strings(&[
                "cargo:rustc-link-search=native=/x/lib",
                "cargo:rustc-link-search=native=/y/lib",
                "cargo:rustc-link-lib=static=harfbuzzicu",
            ])
        ),
        _ => panic!("expected lines"),
    }
}

#[test]
fn vcpkg_state_concatenates_include_paths() {
    let cfg = Configuration::new(Backend::Vcpkg, false);
    let state = DepState::new_from_vcpkg(vec![strings(&["/v/a", "/v/b"]), vec![], strings(&["/v/c"])]);
    let dep = Dependency::probe(HarfbuzzIcu, &cfg, state);
    assert_eq!(dep.include_paths(), &strings(&["/v/a", "/v/b", "/v/c"]));
    match dep.emit(&vec![]) {
        EmitAction::VcpkgMetadata(p) => assert_eq!(p, strings(&["harfbuzz", "icu"])),
        _ => panic!("expected vcpkg metadata"),
    }
}

fn sample_library() -> PkgConfigLibrary {
    PkgConfigLibrary {
        libs: strings(&["harfbuzz", "m", "graphite2", "pthread"]),
        link_paths: strings(&["/usr/lib"]),
        frameworks: strings(&["CoreText"]),
        framework_paths: strings(&["/Library/Frameworks"]),
        include_paths: strings(&["/usr/include/harfbuzz"]),
    }
}

#[test]
fn pkg_config_semi_static_lines() {
    let cfg = Configuration::new(Backend::PkgConfig, true);
    let dep = Dependency::probe(HarfbuzzIcu, &cfg, DepState::new_from_pkg_config(sample_library()));
    assert_eq!(dep.include_paths(), &strings(&["/usr/include/harfbuzz"]));
    match dep.emit(&vec![true, true, false, true]) {
        EmitAction::Lines(lines) => assert_eq!(
            lines,
            strings(&[
                "cargo:rustc-link-search=native=/usr/lib",
                "cargo:rustc-link-search=framework=/Library/Frameworks",
                "cargo:rustc-link-lib=static=harfbuzz",
                "cargo:rustc-link-lib=m",
                "cargo:rustc-link-lib=graphite2",
                "cargo:rustc-link-lib=pthread",
                "cargo:rustc-link-lib=framework=CoreText",
            ])
        ),
        _ => panic!("expected lines"),
    }
}

#[test]
fn pkg_config_default_lets_pkg_config_emit() {
    let cfg = Configuration::new(Backend::PkgConfig, false);
    let dep = Dependency::probe(HarfbuzzIcu, &cfg, DepState::new_from_pkg_config(sample_library()));
    match dep.emit(&vec![]) {
        EmitAction::PkgConfigMetadata(spec) => assert_eq!(spec, "harfbuzz-icu"),
        _ => panic!("expected pkg-config metadata"),
    }
}

#[test]
fn system_libraries_and_archives() {
    for lib in ["c", "m", "dl", "pthread"] {
        assert!(is_system_library(lib));
    }
    assert!(!is_system_library("harfbuzz"));
    assert!(!is_system_library("mm"));
    assert_eq!(static_archive_name("graphite2"), "libgraphite2.a");
}

#[test]
fn ascii_prefixes_are_upper_cased() {
    assert_eq!(manual_env_prefix("harfbuzz-icu"), "HARFBUZZ_ICU");
    assert_eq!(manual_env_prefix("Graphite2"), "GRAPHITE2");
    assert_eq!(manual_env_prefix("a+b.c"), "A_B.C");
}
