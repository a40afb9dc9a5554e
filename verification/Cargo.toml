[package]
name = "me3_attach"
version = "0.1.0"
edition = "2021"
publish = false

[dependencies]
eyre = "0.6"
from-singleton = "*"
rdvec = "*"
tracing = "0.1"
tracing-subscriber = "0.3"
windows = { version = "0.62", features = ["Win32_Foundation", "Win32_Security", "Win32_System_Diagnostics_Debug", "Win32_System_LibraryLoader", "Win32_System_Memory", "Win32_System_Threading"] }
