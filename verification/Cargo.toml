[package]
name = "tectonic_wasi"
version = "0.1.0"
edition = "2021"
publish = false

[dependencies]
anyhow = "1"
enrede = "*"
libc = "0.2"
pkg-config = "0.3"
sha2 = "0.10"
tectonic_bridge_core = "*"
tectonic_bridge_freetype2 = "*"
tectonic_bundles = { version = "*", default-features = false }
tectonic_engine_bibtex = "*"
tectonic_engine_xdvipdfmx = "*"
tectonic_engine_xetex = "*"
tectonic_errors = "*"
tectonic_io_base = "*"
tectonic_status_base = "*"
vcpkg = "0.2"
