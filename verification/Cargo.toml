[package]
name = "dialog_cursor_mover"
version = "0.1.0"
edition = "2021"
publish = false

[dependencies]
windows-sys = { version = "0.59", features = ["Win32_Foundation", "Win32_Graphics_Gdi", "Win32_System_Threading", "Win32_UI_HiDpi", "Win32_UI_Input_KeyboardAndMouse", "Win32_UI_WindowsAndMessaging", "Win32_System_LibraryLoader", "Win32_UI_Accessibility", "Win32_UI_Shell", "Win32_UI_Controls_Dialogs", "Win32_Media_Audio", "Win32_System_SystemInformation", "Win32_Security"] }
