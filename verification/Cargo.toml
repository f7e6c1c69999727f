[package]
name = "joshuto"
version = "0.1.0"
edition = "2021"
publish = false

[dependencies]
chrono = "0.4"
fs_extra = "1"
lazy_static = "1"
libc = "0.2"
mime-detective = "1"
ncurses = { version = "5", features = ["panel", "wide"] }
open = "1"
serde = "1"
serde_derive = "1"
structopt = "0.3"
toml = "0.5"
unicode-width = "0.1"
whoami = "1"
xdg = "2"
