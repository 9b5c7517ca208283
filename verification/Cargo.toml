[package]
name = "scrollshot"
version = "0.1.0"
edition = "2021"
publish = false

[dependencies]
image = { version = "0.25", default-features = false, features = ["png"] }
imageproc = { version = "0.25", default-features = false, features = ["rayon"] }
rayon = "1"
clap = { version = "4", features = ["derive"] }
env_logger = "0.11"
log = "0.4"
thiserror = "2"
enigo = { version = "*", default-features = false }
xcap = "*"
windows = { version = "*", features = ["Win32_Foundation", "Win32_Graphics_Gdi", "Win32_System_LibraryLoader", "Win32_UI_HiDpi", "Win32_UI_Input_KeyboardAndMouse", "Win32_UI_WindowsAndMessaging"] }
