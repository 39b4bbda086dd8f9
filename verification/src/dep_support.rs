//! Locating third-party libraries ("dependencies") from build scripts. Both
//! pkg-config and vcpkg are supported as dep-finding backends, plus a manual
//! mode driven by environment variables for cross-compilation. The probing
//! itself (running pkg-config, searching vcpkg trees, reading the
//! environment) is done by the caller; this module holds the decisions: which
//! backend a configuration selects, what to probe, how the answers become a
//! dependency's state, and which build directives that state emits.
use crate::text::{
    ascii_upper, is_ascii_text, join_text, law_nonempty_fields, law_nonempty_fields_join,
    nonempty_fields, remove_separators,
    replace_separators_with_underscore, same_text, split_nonempty, texts, to_uppercase,
    underscore_separators, unicode_uppercase, without_separators,
};
use vstd::prelude::*;

verus! {

/// Supported dependency-finding backends.
#[derive(Clone, Copy, Debug, PartialEq, Eq, Structural)]
pub enum Backend {
    /// pkg-config
    PkgConfig,
    /// vcpkg
    Vcpkg,
    /// Manual specification via environment variables (used for WASI cross-compilation)
    Manual,
}

impl Default for Backend {
    fn default() -> (b: Backend)
        ensures
            b == Backend::PkgConfig,
    {
        Backend::PkgConfig
    }
}

/// The backend that a `TECTONIC_DEP_BACKEND` setting names, if it names one.
pub open spec fn backend_of_setting(setting: Seq<char>) -> Option<Backend> {
    if setting == "pkg-config"@ {
        Some(Backend::PkgConfig)
    } else if setting == "vcpkg"@ {
        Some(Backend::Vcpkg)
    } else if setting == "manual"@ {
        Some(Backend::Manual)
    } else if setting == "default"@ {
        Some(Backend::PkgConfig)
    } else {
        None
    }
}

/// Reads a `TECTONIC_DEP_BACKEND` setting: `pkg-config`, `vcpkg`, `manual`, or
/// `default` (which means pkg-config). Any other text names no backend.
pub fn parse_backend_setting(setting: &str) -> (r: Option<Backend>)
    ensures
        r == backend_of_setting(setting@),
{
    if same_text(setting, "pkg-config") {
        Some(Backend::PkgConfig)
    } else if same_text(setting, "vcpkg") {
        Some(Backend::Vcpkg)
    } else if same_text(setting, "manual") {
        Some(Backend::Manual)
    } else if same_text(setting, "default") {
        Some(Backend::default())
    } else {
        None
    }
}

/// The backend chosen from the `TECTONIC_DEP_BACKEND` setting (if set) and the
/// `CARGO_CFG_TARGET_ARCH` value (if set): an explicit setting wins, a wasm32
/// target means the manual backend, and pkg-config is the default.
pub open spec fn chosen_backend(dep_backend: Option<Seq<char>>, target_arch: Option<Seq<char>>) -> Backend
    recommends
        dep_backend matches Some(s) ==> backend_of_setting(s) is Some,
{
    match dep_backend {
        Some(s) => backend_of_setting(s).unwrap(),
        None => if target_arch == Some("wasm32"@) {
            Backend::Manual
        } else {
            Backend::PkgConfig
        },
    }
}

/// The characters of an optional string slice.
pub open spec fn opt_text(s: Option<&str>) -> Option<Seq<char>> {
    match s {
        Some(t) => Some(t@),
        None => None,
    }
}

/// Dep-finding configuration.
#[derive(Clone, Debug, PartialEq, Eq, Structural)]
pub struct Configuration {
    /// The dep-finding backend being used.
    pub backend: Backend,
    semi_static_mode: bool,
}

impl Configuration {
    /// Whether pkg-config libraries are linked semi-statically by emitting the
    /// link metadata ourselves.
    pub closed spec fn semi_static(&self) -> bool {
        self.semi_static_mode
    }

    /// The dep-finding backend being used (the `backend` field).
    pub closed spec fn selected_backend(&self) -> Backend {
        self.backend
    }

    /// A configuration with the given backend and semi-static mode.
    pub fn new(backend: Backend, semi_static_mode: bool) -> (c: Configuration)
        ensures
            c.selected_backend() == backend,
            c.semi_static() == semi_static_mode,
    {
        Configuration { backend, semi_static_mode }
    }

    /// Whether semi-static linking was requested.
    pub fn semi_static_mode(&self) -> (b: bool)
        ensures
            b == self.semi_static(),
    {
        self.semi_static_mode
    }

    /// The configuration that the build environment asks for:
    /// `dep_backend` is the value of `TECTONIC_DEP_BACKEND` (if set),
    /// `target_arch` that of `CARGO_CFG_TARGET_ARCH` (if set), and
    /// `force_semi_static` whether `TECTONIC_PKGCONFIG_FORCE_SEMI_STATIC` is set.
    /// A backend setting that names no backend is a configuration error and
    /// is not accepted here (see `parse_backend_setting`).
    pub fn from_settings(
        dep_backend: Option<&str>,
        target_arch: Option<&str>,
        force_semi_static: bool,
    ) -> (c: Configuration)
        requires
            dep_backend matches Some(s) ==> backend_of_setting(s@) is Some,
        ensures
            c.selected_backend() == chosen_backend(opt_text(dep_backend), opt_text(target_arch)),
            c.semi_static() == force_semi_static,
    {
        let backend = match dep_backend {
            Some(s) => match parse_backend_setting(s) {
                Some(b) => b,
                None => Backend::default(),
            },
            None => {
                let is_wasm = match target_arch {
                    Some(a) => same_text(a, "wasm32"),
                    None => false,
                };
                if is_wasm {
                    Backend::Manual
                } else {
                    Backend::default()
                }
            },
        };
        Configuration { backend, semi_static_mode: force_semi_static }
    }
}

/// The environment-variable prefix that the manual backend derives from a
/// pkg-config specification: upper-cased, with `-` and `+` turned into `_`.
pub open spec fn manual_env_prefix_of(pkgconfig_spec: Seq<char>) -> Seq<char> {
    underscore_separators(unicode_uppercase(pkgconfig_spec))
}

/// The static library name that the manual backend derives from a pkg-config
/// specification: the specification without `-` and `+`.
pub open spec fn manual_link_lib_of(pkgconfig_spec: Seq<char>) -> Seq<char> {
    without_separators(pkgconfig_spec)
}

/// Computes `manual_env_prefix_of` (e.g. `harfbuzz-icu` gives `HARFBUZZ_ICU`).
pub fn manual_env_prefix(pkgconfig_spec: &str) -> (r: String)
    ensures
        r@ == manual_env_prefix_of(pkgconfig_spec@),
        is_ascii_text(pkgconfig_spec@) ==> r@ == underscore_separators(
            pkgconfig_spec@.map_values(|c: char| ascii_upper(c)),
        ),
{
    let upper = to_uppercase(pkgconfig_spec);
    replace_separators_with_underscore(upper.as_str())
}

/// Computes `manual_link_lib_of` (e.g. `harfbuzz-icu` gives `harfbuzzicu`).
pub fn manual_link_lib(pkgconfig_spec: &str) -> (r: String)
    ensures
        r@ == manual_link_lib_of(pkgconfig_spec@),
{
    remove_separators(pkgconfig_spec)
}

/// Information specifying a dependency.
pub trait Spec {
    /// Get the pkg-config specification used to check for this dependency.
    fn get_pkgconfig_spec(&self) -> &str;

    /// Get the vcpkg packages used to check for this dependency.
    fn get_vcpkg_spec(&self) -> &[&str];

    /// Get the environment variable name prefix for the manual backend.
    /// For example, "FREETYPE2" would look for FREETYPE2_INCLUDE_PATH and FREETYPE2_LIB_DIR.
    /// Defaults to the uppercased pkg-config spec with hyphens replaced by underscores.
    fn get_manual_env_prefix(&self) -> (prefix: String)
        default_ensures
            exists|s: &str|
                call_ensures(Self::get_pkgconfig_spec, (self,), s) && prefix@
                    == manual_env_prefix_of(s@),
    {
        manual_env_prefix(self.get_pkgconfig_spec())
    }

    /// Get the static library names to link for the manual backend.
    /// Defaults to a single library matching the pkg-config spec.
    fn get_manual_link_libs(&self) -> (libs: Vec<String>)
        default_ensures
            exists|s: &str|
                call_ensures(Self::get_pkgconfig_spec, (self,), s) && texts(libs@) == seq![
                    manual_link_lib_of(s@),
                ],
    {
        let s = self.get_pkgconfig_spec();
        let lib = manual_link_lib(s);
        let mut libs = Vec::new();
        libs.push(lib);
        proof {
            assert(texts(libs@) =~= seq![manual_link_lib_of(s@)]);
        }
        libs
    }
}

/// `text` is a pkg-config specification that `spec` reports.
pub open spec fn reports_pkgconfig_spec<T: Spec>(spec: &T, text: Seq<char>) -> bool {
    exists|s: &str| call_ensures(T::get_pkgconfig_spec, (spec,), s) && s@ == text
}

/// `packages` are vcpkg packages that `spec` reports.
pub open spec fn reports_vcpkg_spec<T: Spec>(spec: &T, packages: Seq<Seq<char>>) -> bool {
    exists|v: &[&str]| call_ensures(T::get_vcpkg_spec, (spec,), v) && str_texts(v@) == packages
}

/// `prefix` is a manual-backend variable prefix that `spec` reports.
pub open spec fn reports_manual_prefix<T: Spec>(spec: &T, prefix: Seq<char>) -> bool {
    exists|p: String| call_ensures(T::get_manual_env_prefix, (spec,), p) && p@ == prefix
}

/// `libs` are manual-backend static libraries that `spec` reports.
pub open spec fn reports_manual_link_libs<T: Spec>(spec: &T, libs: Seq<Seq<char>>) -> bool {
    exists|v: Vec<String>| call_ensures(T::get_manual_link_libs, (spec,), v) && texts(v@) == libs
}

/// The characters of a sequence of string slices.
pub open spec fn str_texts(v: Seq<&str>) -> Seq<Seq<char>> {
    v.map_values(|x: &str| x@)
}

/// Copies a slice of string slices into owned strings.
fn to_strings(v: &[&str]) -> (r: Vec<String>)
    ensures
        texts(r@) == str_texts(v@),
{
    let mut r: Vec<String> = Vec::new();
    let mut i: usize = 0;
    while i < v.len()
        invariant
            i <= v@.len(),
            texts(r@) == str_texts(v@.take(i as int)),
        decreases v@.len() - i,
    {
        r.push(v[i].to_owned());
        proof {
            assert(str_texts(v@.take(i + 1)) =~= str_texts(v@.take(i as int)).push(v@[i as int]@));
            assert(texts(r@) =~= str_texts(v@.take(i as int)).push(v@[i as int]@));
        }
        i = i + 1;
    }
    proof {
        assert(v@.take(v@.len() as int) == v@);
    }
    r
}

/// What a dependency asks the build environment to probe, by backend.
pub enum ProbeRequest {
    /// Run pkg-config on `spec` (statically when `statik`), without letting
    /// it emit build metadata.
    PkgConfig {
        /// The pkg-config specification.
        spec: String,
        /// Whether to ask for static linking.
        statik: bool,
    },
    /// Find each of these packages with vcpkg, without build metadata; a
    /// package that cannot be found is a build failure.
    Vcpkg {
        /// The vcpkg packages, in order.
        packages: Vec<String>,
    },
    /// Read these two environment variables.
    Manual {
        /// The variable listing include directories (`;`-separated).
        include_var: String,
        /// The variable listing library directories (`;`-separated).
        lib_var: String,
    },
}

/// What pkg-config reported for a library.
pub struct PkgConfigLibrary {
    /// Libraries to link (`-l`).
    pub libs: Vec<String>,
    /// Library search paths (`-L`).
    pub link_paths: Vec<String>,
    /// Darwin frameworks (`-framework`).
    pub frameworks: Vec<String>,
    /// Darwin framework search paths (`-F`).
    pub framework_paths: Vec<String>,
    /// C/C++ header include paths (`-I`).
    pub include_paths: Vec<String>,
}

/// Build-script state when using pkg-config as the backend.
pub struct PkgConfigState {
    /// What pkg-config reported.
    pub libs: PkgConfigLibrary,
}

/// Build-script state when using vcpkg as the backend.
pub struct VcPkgState {
    /// The include paths of all packages, in order.
    pub include_paths: Vec<String>,
}

/// Build-script state when using manual env-var specification.
pub struct ManualState {
    /// Include directories.
    pub include_paths: Vec<String>,
    /// Library directories.
    pub lib_dirs: Vec<String>,
    /// Static libraries to link.
    pub link_libs: Vec<String>,
}

/// State for discovering and managing a dependency, which varies with the
/// framework used to discover it.
pub enum DepState {
    /// pkg-config
    PkgConfig(PkgConfigState),
    /// vcpkg
    VcPkg(VcPkgState),
    /// Manual env-var specification
    Manual(ManualState),
}

/// The backend that produced a state.
pub open spec fn state_backend(state: DepState) -> Backend {
    match state {
        DepState::PkgConfig(_) => Backend::PkgConfig,
        DepState::VcPkg(_) => Backend::Vcpkg,
        DepState::Manual(_) => Backend::Manual,
    }
}

/// The directories listed by a manual-backend variable: its non-empty
/// `;`-separated fields, or none where the variable is not set.
pub open spec fn listed_dirs(value: Option<Seq<char>>) -> Seq<Seq<char>> {
    match value {
        Some(v) => nonempty_fields(v, ';'),
        None => Seq::empty(),
    }
}

/// All include paths of the vcpkg packages, package after package.
pub open spec fn concatenated(lists: Seq<Seq<Seq<char>>>) -> Seq<Seq<char>>
    decreases lists.len(),
{
    if lists.len() == 0 {
        Seq::empty()
    } else {
        concatenated(lists.drop_last()) + lists.last()
    }
}

fn dirs_from_var(value: Option<&str>) -> (r: Vec<String>)
    ensures
        texts(r@) == listed_dirs(opt_text(value)),
{
    match value {
        Some(v) => split_nonempty(v, ';'),
        None => {
            let r: Vec<String> = Vec::new();
            proof {
                assert(texts(r@) =~= Seq::<Seq<char>>::empty());
            }
            r
        },
    }
}

impl DepState {
    /// What to probe for `spec` under `config`: pkg-config (statically in
    /// semi-static mode), the spec's vcpkg packages, or the manual backend's
    /// two variables `<PREFIX>_INCLUDE_PATH` and `<PREFIX>_LIB_DIR`.
    pub fn probe_request<T: Spec>(spec: &T, config: &Configuration) -> (r: ProbeRequest)
        ensures
            match config.selected_backend() {
                Backend::PkgConfig => r matches ProbeRequest::PkgConfig { spec: s, statik }
                    && reports_pkgconfig_spec(spec, s@) && statik == config.semi_static(),
                Backend::Vcpkg => r matches ProbeRequest::Vcpkg { packages }
                    && reports_vcpkg_spec(spec, texts(packages@)),
                Backend::Manual => r matches ProbeRequest::Manual { include_var, lib_var }
                    && exists|prefix: Seq<char>|
                    reports_manual_prefix(spec, prefix) && include_var@ == prefix + "_INCLUDE_PATH"@
                        && lib_var@ == prefix + "_LIB_DIR"@,
            },
    {
        match config.backend {
            Backend::PkgConfig => ProbeRequest::PkgConfig {
                spec: spec.get_pkgconfig_spec().to_owned(),
                statik: config.semi_static_mode,
            },
            Backend::Vcpkg => ProbeRequest::Vcpkg { packages: to_strings(spec.get_vcpkg_spec()) },
            Backend::Manual => {
                let prefix = spec.get_manual_env_prefix();
                let include_var = join_text(prefix.as_str(), "_INCLUDE_PATH");
                let lib_var = join_text(prefix.as_str(), "_LIB_DIR");
                ProbeRequest::Manual { include_var, lib_var }
            },
        }
    }

    /// The state from what pkg-config reported.
    pub fn new_from_pkg_config(libs: PkgConfigLibrary) -> (s: DepState)
        ensures
            s == DepState::PkgConfig(PkgConfigState { libs }),
    {
        DepState::PkgConfig(PkgConfigState { libs })
    }

    /// The state from the include paths that vcpkg reported for each package,
    /// in package order.
    pub fn new_from_vcpkg(package_include_paths: Vec<Vec<String>>) -> (s: DepState)
        ensures
            s matches DepState::VcPkg(v) && texts(v.include_paths@) == concatenated(
                package_include_paths@.map_values(|p: Vec<String>| texts(p@)),
            ),
    {
        let ghost lists = package_include_paths@.map_values(|p: Vec<String>| texts(p@));
        let mut include_paths: Vec<String> = Vec::new();
        let mut i: usize = 0;
        while i < package_include_paths.len()
            invariant
                i <= package_include_paths@.len(),
                lists == package_include_paths@.map_values(|p: Vec<String>| texts(p@)),
                texts(include_paths@) == concatenated(lists.take(i as int)),
            decreases package_include_paths@.len() - i,
        {
            let package = &package_include_paths[i];
            let mut j: usize = 0;
            while j < package.len()
                invariant
                    j <= package@.len(),
                    i < package_include_paths@.len(),
                    *package == package_include_paths@[i as int],
                    texts(include_paths@) == concatenated(lists.take(i as int)) + texts(
                        package@.take(j as int),
                    ),
                decreases package@.len() - j,
            {
                let ghost before = include_paths@;
                let item = package[j].clone();
                include_paths.push(item);
                proof {
                    assert(texts(include_paths@) =~= texts(before).push(package@[j as int]@));
                    assert(texts(package@.take(j + 1)) =~= texts(package@.take(j as int)).push(
                        package@[j as int]@,
                    ));
                    assert(texts(include_paths@) =~= concatenated(lists.take(i as int)) + texts(
                        package@.take(j + 1),
                    ));
                }
                j = j + 1;
            }
            proof {
                assert(package@.take(package@.len() as int) == package@);
                assert(lists.take(i + 1).drop_last() == lists.take(i as int));
                assert(lists.take(i + 1).last() == texts(package@));
            }
            i = i + 1;
        }
        proof {
            assert(lists.take(lists.len() as int) == lists);
        }
        DepState::VcPkg(VcPkgState { include_paths })
    }

    /// The state from the manual backend's variables (`None` where one is not
    /// set): the non-empty `;`-separated entries of each, and the spec's
    /// static libraries.
    pub fn new_from_manual<T: Spec>(spec: &T, include_value: Option<&str>, lib_value: Option<&str>) -> (s:
        DepState)
        ensures
            s matches DepState::Manual(m) && texts(m.include_paths@) == listed_dirs(
                opt_text(include_value),
            ) && texts(m.lib_dirs@) == listed_dirs(opt_text(lib_value))
                && reports_manual_link_libs(spec, texts(m.link_libs@)),
    {
        let include_paths = dirs_from_var(include_value);
        let lib_dirs = dirs_from_var(lib_value);
        let link_libs = spec.get_manual_link_libs();
        DepState::Manual(ManualState { include_paths, lib_dirs, link_libs })
    }
}

/// The `cargo:` line linking a library, statically or not.
pub open spec fn link_lib_line(lib: Seq<char>, statik: bool) -> Seq<char> {
    if statik {
        "cargo:rustc-link-lib=static="@ + lib
    } else {
        "cargo:rustc-link-lib="@ + lib
    }
}

/// Libraries that are always linked dynamically in semi-static mode.
pub open spec fn is_system_library_text(lib: Seq<char>) -> bool {
    lib == "c"@ || lib == "m"@ || lib == "dl"@ || lib == "pthread"@
}

/// Whether `lib` is one of the system libraries `c`, `m`, `dl`, `pthread`,
/// which semi-static mode never links statically.
pub fn is_system_library(lib: &str) -> (b: bool)
    ensures
        b == is_system_library_text(lib@),
{
    same_text(lib, "c") || same_text(lib, "m") || same_text(lib, "dl") || same_text(lib, "pthread")
}

/// The file name of a library's static archive: `lib<name>.a`.
pub open spec fn static_archive_text(lib: Seq<char>) -> Seq<char> {
    "lib"@ + lib + ".a"@
}

/// The file name of a library's static archive, which semi-static mode looks
/// for in the library search paths.
pub fn static_archive_name(lib: &str) -> (name: String)
    ensures
        name@ == static_archive_text(lib@),
{
    let head = join_text("lib", lib);
    join_text(head.as_str(), ".a")
}

/// The lines that semi-static mode emits for a pkg-config library, given for
/// each library whether its static archive was found in a search path: the
/// native search paths, the framework search paths, each library (static
/// where it is not a system library and its archive was found), and the
/// frameworks.
pub open spec fn semi_static_lines(libs: PkgConfigLibrary, archive_found: Seq<bool>) -> Seq<Seq<char>> {
    prefixed_all("cargo:rustc-link-search=native="@, texts(libs.link_paths@)) + prefixed_all(
        "cargo:rustc-link-search=framework="@,
        texts(libs.framework_paths@),
    ) + Seq::new(
        libs.libs@.len(),
        |i: int|
            link_lib_line(
                libs.libs@[i]@,
                !is_system_library_text(libs.libs@[i]@) && archive_found[i],
            ),
    ) + prefixed_all("cargo:rustc-link-lib=framework="@, texts(libs.frameworks@))
}

/// The lines that the manual backend emits: the library directories, then
/// each library, linked statically.
pub open spec fn manual_lines(state: ManualState) -> Seq<Seq<char>> {
    prefixed_all("cargo:rustc-link-search=native="@, texts(state.lib_dirs@)) + prefixed_all(
        "cargo:rustc-link-lib=static="@,
        texts(state.link_libs@),
    )
}

/// Each item with `prefix` in front.
pub open spec fn prefixed_all(prefix: Seq<char>, items: Seq<Seq<char>>) -> Seq<Seq<char>> {
    Seq::new(items.len(), |i: int| prefix + items[i])
}

/// Appends `prefix + item` for each item.
fn push_prefixed(out: &mut Vec<String>, prefix: &str, items: &Vec<String>)
    ensures
        texts(final(out)@) == texts(old(out)@) + prefixed_all(prefix@, texts(items@)),
{
    let ghost start = texts(out@);
    let mut i: usize = 0;
    while i < items.len()
        invariant
            i <= items@.len(),
            texts(out@) == start + prefixed_all(prefix@, texts(items@.take(i as int))),
        decreases items@.len() - i,
    {
        let ghost before = out@;
        let line = join_text(prefix, items[i].as_str());
        out.push(line);
        proof {
            assert(texts(items@.take(i + 1)) =~= texts(items@.take(i as int)).push(items@[i as int]@));
            assert(texts(out@) =~= texts(before).push(line@));
            assert(prefixed_all(prefix@, texts(items@.take(i + 1))) =~= prefixed_all(
                prefix@,
                texts(items@.take(i as int)),
            ).push(prefix@ + items@[i as int]@));
            assert(texts(out@) =~= start + prefixed_all(prefix@, texts(items@.take(i + 1))));
        }
        i = i + 1;
    }
    proof {
        assert(items@.take(items@.len() as int) == items@);
    }
}

/// What emitting a dependency's build information comes to.
pub enum EmitAction {
    /// Print these `cargo:` lines, in order.
    Lines(Vec<String>),
    /// Probe pkg-config again for this specification, letting it print its
    /// own build metadata.
    PkgConfigMetadata(String),
    /// Find each of these packages with vcpkg, letting it print its build
    /// metadata; a package that cannot be found is a build failure.
    VcpkgMetadata(Vec<String>),
}

/// A dependency.
pub struct Dependency<'a, T: Spec> {
    config: &'a Configuration,
    spec: T,
    state: DepState,
}

impl<'a, T: Spec> Dependency<'a, T> {
    /// The configuration the dependency was probed under.
    pub closed spec fn configuration(&self) -> Configuration {
        *self.config
    }

    /// The dependency's specification.
    pub closed spec fn specification(&self) -> T {
        self.spec
    }

    /// What probing found.
    pub closed spec fn probed_state(&self) -> DepState {
        self.state
    }

    /// The dependency, from its spec, the configuration, and what probing (as
    /// `DepState::probe_request` asked for it) found.
    pub fn probe(spec: T, config: &'a Configuration, state: DepState) -> (d: Self)
        requires
            state_backend(state) == config.selected_backend(),
        ensures
            d.configuration() == *config,
            d.specification() == spec,
            d.probed_state() == state,
    {
        Dependency { config, spec, state }
    }

    /// What probing found.
    pub fn state(&self) -> (s: &DepState)
        ensures
            *s == self.probed_state(),
    {
        &self.state
    }

    /// The C/C++ include directories injected by the dependency, in order.
    pub fn include_paths(&self) -> (paths: &Vec<String>)
        ensures
            paths@ == match self.probed_state() {
                DepState::PkgConfig(s) => s.libs.include_paths@,
                DepState::VcPkg(s) => s.include_paths@,
                DepState::Manual(s) => s.include_paths@,
            },
    {
        match &self.state {
            DepState::PkgConfig(s) => &s.libs.include_paths,
            DepState::VcPkg(s) => &s.include_paths,
            DepState::Manual(s) => &s.include_paths,
        }
    }

    /// The build information to emit. In semi-static pkg-config mode,
    /// `archive_found[i]` tells whether the static archive of the `i`-th
    /// library (`static_archive_name`) exists in one of its link paths; it is
    /// not consulted otherwise.
    pub fn emit(&self, archive_found: &Vec<bool>) -> (action: EmitAction)
        requires
            self.probed_state() matches DepState::PkgConfig(s) ==> (self.configuration().semi_static()
                ==> archive_found@.len() == s.libs.libs@.len()),
        ensures
            match self.probed_state() {
                DepState::PkgConfig(s) => if self.configuration().semi_static() {
                    action matches EmitAction::Lines(lines) && texts(lines@) == semi_static_lines(
                        s.libs,
                        archive_found@,
                    )
                } else {
                    action matches EmitAction::PkgConfigMetadata(spec) && reports_pkgconfig_spec(
                        &self.specification(),
                        spec@,
                    )
                },
                DepState::VcPkg(_) => action matches EmitAction::VcpkgMetadata(packages)
                    && reports_vcpkg_spec(&self.specification(), texts(packages@)),
                DepState::Manual(m) => action matches EmitAction::Lines(lines) && texts(lines@)
                    == manual_lines(m),
            },
    {
        match &self.state {
            DepState::PkgConfig(state) => {
                if self.config.semi_static_mode {
                    let libs = &state.libs;
                    let mut lines: Vec<String> = Vec::new();
                    push_prefixed(&mut lines, "cargo:rustc-link-search=native=", &libs.link_paths);
                    push_prefixed(&mut lines, "cargo:rustc-link-search=framework=", &libs.framework_paths);
                    let ghost base = texts(lines@);
                    let mut i: usize = 0;
                    while i < libs.libs.len()
                        invariant
                            i <= libs.libs@.len(),
                            archive_found@.len() == libs.libs@.len(),
                            texts(lines@) == base + Seq::new(
                                i as nat,
                                |k: int|
                                    link_lib_line(
                                        libs.libs@[k]@,
                                        !is_system_library_text(libs.libs@[k]@) && archive_found@[k],
                                    ),
                            ),
                        decreases libs.libs@.len() - i,
                    {
                        let lib = libs.libs[i].as_str();
                        let do_static = !is_system_library(lib) && archive_found[i];
                        let line = if do_static {
                            join_text("cargo:rustc-link-lib=static=", lib)
                        } else {
                            join_text("cargo:rustc-link-lib=", lib)
                        };
                        let ghost before = lines@;
                        lines.push(line);
                        proof {
                            assert(texts(lines@) =~= texts(before).push(line@));
                            assert(texts(lines@) =~= base + Seq::new(
                                (i + 1) as nat,
                                |k: int|
                                    link_lib_line(
                                        libs.libs@[k]@,
                                        !is_system_library_text(libs.libs@[k]@) && archive_found@[k],
                                    ),
                            ));
                        }
                        i = i + 1;
                    }
                    push_prefixed(&mut lines, "cargo:rustc-link-lib=framework=", &libs.frameworks);
                    proof {
                        assert(texts(lines@) =~= semi_static_lines(state.libs, archive_found@));
                    }
                    EmitAction::Lines(lines)
                } else {
                    EmitAction::PkgConfigMetadata(self.spec.get_pkgconfig_spec().to_owned())
                }
            },
            DepState::VcPkg(_) => EmitAction::VcpkgMetadata(to_strings(self.spec.get_vcpkg_spec())),
            DepState::Manual(state) => {
                let mut lines: Vec<String> = Vec::new();
                push_prefixed(&mut lines, "cargo:rustc-link-search=native=", &state.lib_dirs);
                push_prefixed(&mut lines, "cargo:rustc-link-lib=static=", &state.link_libs);
                proof {
                    assert(texts(lines@) =~= manual_lines(*state));
                }
                EmitAction::Lines(lines)
            },
        }
    }
}

/// A set manual-backend variable lists its non-empty `;`-separated fields,
/// in order, however many there are: a non-empty value without `;` lists
/// exactly that one directory; two values joined by `;` list the
/// directories of the first, then those of the second; every listed
/// directory is non-empty and holds no `;`; and an unset or empty variable
/// lists none.
pub proof fn law_listed_dirs(v: Seq<char>, w: Seq<char>)
    ensures
        v.len() > 0 && !v.contains(';') ==> listed_dirs(Some(v)) == seq![v],
        listed_dirs(Some(v + seq![';'] + w)) == listed_dirs(Some(v)) + listed_dirs(Some(w)),
        forall|i: int|
            0 <= i < listed_dirs(Some(v)).len() ==> (#[trigger] listed_dirs(Some(v))[i]).len() > 0
                && !listed_dirs(Some(v))[i].contains(';'),
        listed_dirs(None).len() == 0,
        listed_dirs(Some(Seq::<char>::empty())).len() == 0,
{
    law_nonempty_fields_join(v, w, ';');
    law_nonempty_fields(v, ';');
}

} // verus!
