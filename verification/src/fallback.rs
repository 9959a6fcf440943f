//! The built-in English strings that stand in for missing translations.
use vstd::prelude::*;

verus! {

/// The built-in English strings. Language files may only use these keys.
pub open spec fn fallback_entries() -> Seq<(Seq<char>, Seq<char>)> {
    seq![
        ("menu.enabled"@, "Enabled (watch dialogs)"@),
        ("menu.delay"@, "Delay"@),
        ("menu.delay.current"@, "Current: {0} ms"@),
        ("menu.sound"@, "Play sound"@),
        ("menu.sound.current"@, "  Current sound: {0}"@),
        ("menu.sound.choose"@, "Choose another .wav..."@),
        ("menu.sound.test"@, "Test playback"@),
        ("menu.skip_file_dialogs"@, "Ignore file/folder pickers"@),
        ("menu.move_animation"@, "Run like a mouse"@),
        ("menu.move_speed"@, "Run speed"@),
        ("menu.speed.fast"@, "Fast"@),
        ("menu.speed.normal"@, "Normal"@),
        ("menu.speed.slow"@, "Slow"@),
        ("menu.speed.item"@, "{0} ({1} ms)"@),
        ("menu.cursor_animation"@, "Use mouse cursor while running"@),
        ("menu.autostart"@, "Start at logon as administrator"@),
        ("menu.diagnostics"@, "Diagnostics"@),
        ("menu.test_dialog"@, "Show test dialog"@),
        ("menu.log.off"@, "Log: off"@),
        ("menu.log.normal"@, "Log: normal"@),
        ("menu.log.verbose"@, "Log: verbose"@),
        ("menu.open_log"@, "Open log"@),
        ("menu.open_config"@, "Open config file"@),
        ("menu.reload_config"@, "Reload settings"@),
        ("menu.about"@, "About"@),
        ("menu.exit"@, "Exit"@),
        ("menu.language"@, "Language"@),
        ("msg.already_running"@, "DialogCursorMover is already running."@),
        ("msg.wav_failed"@, "Could not play the selected .wav file. Please check the path."@),
        ("msg.test_dialog"@, "This is a test dialog.\nIf the cursor moves to this OK button after the configured delay, everything works."@),
        ("msg.about"@, "DialogCursorMover {0}\n\nMoves the mouse cursor to the OK button\nwhen a dialog appears.\n\nSettings and logs:\n{1}"@),
        ("msg.task.installed"@, "Registered the autostart task.\n\nTask name: {0}"@),
        ("msg.task.removed"@, "Removed the autostart task.\n\nTask name: {0}"@),
        ("msg.task.install_failed"@, "Failed to register the autostart task.\n\n{0}"@),
        ("msg.task.remove_failed"@, "Failed to remove the autostart task.\n\n{0}"@),
        ("msg.task.denied"@, "Administrator rights were denied, so the operation was cancelled."@),
        ("msg.task.unsafe_location"@, "DialogCursorMover is in a folder that users other than administrators can write to:\n\n{0}\n\nIf you register it to start at logon as administrator, anything placed in that folder later will also run with administrator rights.\n\nMoving it somewhere only administrators can write to is safer.\n\nRegister anyway?"@),
        ("msg.task.elevated"@, "The operation ran with administrator rights.\n\nThe result is shown in a separate dialog.\nThe menu checkmark updates the next time you open the menu."@),
        ("msg.class_failed"@, "Failed to register the window class."@),
        ("msg.window_failed"@, "Failed to create the window."@),
        ("msg.choose_wav"@, "Select a .wav file to play"@),
        ("msg.filter_wav"@, "WAV files (*.wav)"@),
        ("msg.filter_all"@, "All files (*.*)"@),
        ("msg.log_empty"@, "(no log entries yet)"@),
        ("msg.sound_unset"@, "(not set)"@),
        ("tip.status"@, "DialogCursorMover — {0} / delay {1}ms / sound {2}"@),
        ("tip.on"@, "on"@),
        ("tip.off"@, "off"@),
        ("cfg.header"@, "DialogCursorMover settings (UTF-8)\nAfter editing this file by hand, choose \"Reload settings\" from the tray menu."@),
        ("cfg.language"@, "Display language. Matches a file name in the lang directory.\nExample: language = en  ->  lang\\\\en.ini"@),
        ("cfg.enabled"@, "Whether dialog watching is active."@),
        ("cfg.delay_ms"@, "Delay from detecting a dialog until the cursor moves (milliseconds, 0-60000).\nToo small a value may move the cursor before the buttons are laid out.\n200-500 is recommended."@),
        ("cfg.sound_enabled"@, "Whether to play a .wav file when the cursor moves."@),
        ("cfg.wav_path"@, "Full path of the .wav file to play."@),
        ("cfg.standard_dialog_only"@, "true: only standard dialogs (window class #32770) are targeted.\nfalse: popup windows in general are targeted too (more false positives)."@),
        ("cfg.require_foreground"@, "true: only move the cursor while the dialog is actually in the foreground."@),
        ("cfg.skip_if_cursor_inside"@, "true: do nothing when the cursor is already over the button."@),
        ("cfg.move_once_per_dialog"@, "true: react only once per dialog.\n\nSwitching tabs in a settings dialog fires show events for the new page, so\nwithout this the cursor would jump back to OK on every tab change.\nThe record is cleared when the window closes, so reopening it reacts again."@),
        ("cfg.ignore_own_process"@, "true: ignore dialogs raised by this application itself.\nWith false (the default) it also reacts to its own About dialog.\nIn either case it is suppressed while the .wav picker is open."@),
        ("cfg.move_animation"@, "true: glide the cursor to the button instead of jumping."@),
        ("cfg.move_duration_ms"@, "Time taken to run (milliseconds, 0-5000). 0 means jump instantly."@),
        ("cfg.move_wobble"@, "Sideways wobble while running (pixels, 0-40). 0 moves in a straight line."@),
        ("cfg.cursor_animation"@, "true: swap the cursor image for the theme's while moving.\nRequires theme\\<name>\\cursor_right.ani and cursor_left.ani.\nNote: this temporarily changes the cursor for the whole desktop."@),
        ("cfg.abort_on_user_move"@, "true: cancel the movement if the user moves the mouse while it runs."@),
        ("cfg.user_move_threshold"@, "Cursor offset treated as user input (pixels, 2-500).\nIncrease this if movement is cancelled by false detection."@),
        ("cfg.watch_title_changes"@, "true: treat window title changes as a detection trigger.\n\nExplorer's \"Replace or Skip Files\" dialog appears by reusing the copy progress\nwindow, so no show event is fired. Watching title changes catches it."@),
        ("cfg.watch_focus_changes"@, "true: treat focus changes as a detection trigger.\n\nDialogs drawn inside an application's own window create no new window,\nso they cannot be found by watching for windows. Focus moves to the\ndefault button when such a dialog opens, and that is the only clue.\n(only effective when uia_enabled = true)"@),
        ("cfg.follow_dialog_default_button"@, "true: follow the default button even when its label is not registered.\n\nA default button is accepted when a Cancel-like button sits beside it,\nor when it sits in the bottom quarter of the dialog. This reaches\nwizard 'Next' buttons and lone 'Close' buttons without listing labels.\n\nNote: an application window whose layout resembles a dialog can match\ntoo. Use exclude_processes to rule one out."@),
        ("cfg.follow_default_in_browser"@, "true: apply the default-button rule inside browsers as well.\n\nWeb pages can build arbitrary UI, so a \"Block / Cancel\" layout cannot be told\napart from an application dialog. The default is false so that layout-based\ndetection is skipped inside browsers.\n(Labels matching OK / Yes and so on still work regardless of this setting.)"@),
        ("cfg.uia_enabled"@, "true: also use UI Automation so XAML / WinUI dialogs are supported\n(such as the save prompts in newer built-in Windows applications)."@),
        ("cfg.uia_dialog_like_only"@, "true: restrict UI Automation scanning to dialog-shaped windows\n(not resizable, no minimize/maximize box, small relative to the screen).\nSetting this to false also scans browsers and is very slow."@),
        ("cfg.uia_max_elements"@, "Upper limit of elements inspected during a UI Automation scan (20-5000)."@),
        ("cfg.log_level"@, "Diagnostic log: 0 = off, 1 = normal, 2 = verbose (written to log.txt)."@),
        ("cfg.skip_file_dialogs"@, "true: ignore file and folder pickers (Open, Save As, Select Folder).\nTheir confirm buttons use the IDOK control id, so disabling this makes the\napplication react to them."@),
        ("cfg.skip_progress_dialogs"@, "true: ignore \"in progress\" dialogs that contain a progress bar\n(copy and extraction progress windows, for example)."@),
        ("cfg.exclude_processes"@, "Ignore dialogs raised by these executables.\n(comma separated, case insensitive)\nExample: exclude_processes = installer.exe, backup.exe"@),
        ("cfg.exclude_titles"@, "Ignore dialogs whose title contains any of these strings.\n(comma separated, substring match, case insensitive)\nExample: exclude_titles = Print, Update available"@),
        ("cfg.extra_button_labels"@, "Additional button labels treated as an OK button (comma separated).\n\nOnly OK / Yes / Continue and their Japanese equivalents are recognised by\ndefault. Add labels here to move the cursor to other buttons.\n\nExample) React to Explorer's \"Replace or Skip Files\":\n    extra_button_labels = Replace the file in the destination\n\nExample) Separate multiple entries with commas:\n    extra_button_labels = Replace the file in the destination, Install\n\nGeneric words such as \"Run\" or \"Next\" tend to match unintended screens.\nWizard buttons like \"Next\" are usually picked up by\nfollow_dialog_default_button without registering them here.\n\nMnemonics are removed automatically, so parentheses are not needed.\nWrite \"Save\" rather than \"&Save\" or \"Save(S)\".\n\nIf you are unsure of the exact label, set log_level = 2 and open the dialog;\nlog.txt will list the button names that were found.\n\nCaution: the cursor moves to buttons whose labels are listed here. Think\ntwice before registering irreversible actions such as Delete or Overwrite.\n(This application only moves the cursor; it never clicks.)"@),
        ("lang.name"@, "English"@),
        ("menu.ripple"@, "Show a target ring on arrival"@),
        ("cfg.ripple_enabled"@, "Draw shrinking concentric rings where the cursor lands."@),
        ("cfg.ripple_size"@, "Diameter of the rings in pixels (16-600)."@),
        ("cfg.ripple_duration_ms"@, "How long the rings take to close in (0-3000 ms). 0 disables them."@),
        ("cfg.ripple_color"@, "Ring colour as RRGGBB."@),
        ("menu.theme"@, "Theme"@),
        ("menu.theme.default"@, "Default (no theme)"@),
        ("cfg.theme"@, "Theme name, matching a folder under the theme directory.\nA theme may supply icon.ico, cursor_*.ani and sound.wav; anything\nmissing falls back to the built-in icon and the Windows cursor and sound.\nLeave empty to use the defaults."@),
    ]
}

/// The built-in English strings, in the order of [`fallback_entries`].
pub fn fallback_table() -> (t: Vec<(&'static str, &'static str)>)
    ensures
        t@.len() == fallback_entries().len(),
        forall|i: int| 0 <= i < t@.len() ==> (#[trigger] t@[i]).0@ == fallback_entries()[i].0 && t@[i].1@ == fallback_entries()[i].1,
{
    let t = vec![
        ("menu.enabled", "Enabled (watch dialogs)"),
        ("menu.delay", "Delay"),
        ("menu.delay.current", "Current: {0} ms"),
        ("menu.sound", "Play sound"),
        ("menu.sound.current", "  Current sound: {0}"),
        ("menu.sound.choose", "Choose another .wav..."),
        ("menu.sound.test", "Test playback"),
        ("menu.skip_file_dialogs", "Ignore file/folder pickers"),
        ("menu.move_animation", "Run like a mouse"),
        ("menu.move_speed", "Run speed"),
        ("menu.speed.fast", "Fast"),
        ("menu.speed.normal", "Normal"),
        ("menu.speed.slow", "Slow"),
        ("menu.speed.item", "{0} ({1} ms)"),
        ("menu.cursor_animation", "Use mouse cursor while running"),
        ("menu.autostart", "Start at logon as administrator"),
        ("menu.diagnostics", "Diagnostics"),
        ("menu.test_dialog", "Show test dialog"),
        ("menu.log.off", "Log: off"),
        ("menu.log.normal", "Log: normal"),
        ("menu.log.verbose", "Log: verbose"),
        ("menu.open_log", "Open log"),
        ("menu.open_config", "Open config file"),
        ("menu.reload_config", "Reload settings"),
        ("menu.about", "About"),
        ("menu.exit", "Exit"),
        ("menu.language", "Language"),
        ("msg.already_running", "DialogCursorMover is already running."),
        ("msg.wav_failed", "Could not play the selected .wav file. Please check the path."),
        ("msg.test_dialog", "This is a test dialog.\nIf the cursor moves to this OK button after the configured delay, everything works."),
        ("msg.about", "DialogCursorMover {0}\n\nMoves the mouse cursor to the OK button\nwhen a dialog appears.\n\nSettings and logs:\n{1}"),
        ("msg.task.installed", "Registered the autostart task.\n\nTask name: {0}"),
        ("msg.task.removed", "Removed the autostart task.\n\nTask name: {0}"),
        ("msg.task.install_failed", "Failed to register the autostart task.\n\n{0}"),
        ("msg.task.remove_failed", "Failed to remove the autostart task.\n\n{0}"),
        ("msg.task.denied", "Administrator rights were denied, so the operation was cancelled."),
        ("msg.task.unsafe_location", "DialogCursorMover is in a folder that users other than administrators can write to:\n\n{0}\n\nIf you register it to start at logon as administrator, anything placed in that folder later will also run with administrator rights.\n\nMoving it somewhere only administrators can write to is safer.\n\nRegister anyway?"),
        ("msg.task.elevated", "The operation ran with administrator rights.\n\nThe result is shown in a separate dialog.\nThe menu checkmark updates the next time you open the menu."),
        ("msg.class_failed", "Failed to register the window class."),
        ("msg.window_failed", "Failed to create the window."),
        ("msg.choose_wav", "Select a .wav file to play"),
        ("msg.filter_wav", "WAV files (*.wav)"),
        ("msg.filter_all", "All files (*.*)"),
        ("msg.log_empty", "(no log entries yet)"),
        ("msg.sound_unset", "(not set)"),
        ("tip.status", "DialogCursorMover — {0} / delay {1}ms / sound {2}"),
        ("tip.on", "on"),
        ("tip.off", "off"),
        ("cfg.header", "DialogCursorMover settings (UTF-8)\nAfter editing this file by hand, choose \"Reload settings\" from the tray menu."),
        ("cfg.language", "Display language. Matches a file name in the lang directory.\nExample: language = en  ->  lang\\\\en.ini"),
        ("cfg.enabled", "Whether dialog watching is active."),
        ("cfg.delay_ms", "Delay from detecting a dialog until the cursor moves (milliseconds, 0-60000).\nToo small a value may move the cursor before the buttons are laid out.\n200-500 is recommended."),
        ("cfg.sound_enabled", "Whether to play a .wav file when the cursor moves."),
        ("cfg.wav_path", "Full path of the .wav file to play."),
        ("cfg.standard_dialog_only", "true: only standard dialogs (window class #32770) are targeted.\nfalse: popup windows in general are targeted too (more false positives)."),
        ("cfg.require_foreground", "true: only move the cursor while the dialog is actually in the foreground."),
        ("cfg.skip_if_cursor_inside", "true: do nothing when the cursor is already over the button."),
        ("cfg.move_once_per_dialog", "true: react only once per dialog.\n\nSwitching tabs in a settings dialog fires show events for the new page, so\nwithout this the cursor would jump back to OK on every tab change.\nThe record is cleared when the window closes, so reopening it reacts again."),
        ("cfg.ignore_own_process", "true: ignore dialogs raised by this application itself.\nWith false (the default) it also reacts to its own About dialog.\nIn either case it is suppressed while the .wav picker is open."),
        ("cfg.move_animation", "true: glide the cursor to the button instead of jumping."),
        ("cfg.move_duration_ms", "Time taken to run (milliseconds, 0-5000). 0 means jump instantly."),
        ("cfg.move_wobble", "Sideways wobble while running (pixels, 0-40). 0 moves in a straight line."),
        ("cfg.cursor_animation", "true: swap the cursor image for the theme's while moving.\nRequires theme\\<name>\\cursor_right.ani and cursor_left.ani.\nNote: this temporarily changes the cursor for the whole desktop."),
        ("cfg.abort_on_user_move", "true: cancel the movement if the user moves the mouse while it runs."),
        ("cfg.user_move_threshold", "Cursor offset treated as user input (pixels, 2-500).\nIncrease this if movement is cancelled by false detection."),
        ("cfg.watch_title_changes", "true: treat window title changes as a detection trigger.\n\nExplorer's \"Replace or Skip Files\" dialog appears by reusing the copy progress\nwindow, so no show event is fired. Watching title changes catches it."),
        ("cfg.watch_focus_changes", "true: treat focus changes as a detection trigger.\n\nDialogs drawn inside an application's own window create no new window,\nso they cannot be found by watching for windows. Focus moves to the\ndefault button when such a dialog opens, and that is the only clue.\n(only effective when uia_enabled = true)"),
        ("cfg.follow_dialog_default_button", "true: follow the default button even when its label is not registered.\n\nA default button is accepted when a Cancel-like button sits beside it,\nor when it sits in the bottom quarter of the dialog. This reaches\nwizard 'Next' buttons and lone 'Close' buttons without listing labels.\n\nNote: an application window whose layout resembles a dialog can match\ntoo. Use exclude_processes to rule one out."),
        ("cfg.follow_default_in_browser", "true: apply the default-button rule inside browsers as well.\n\nWeb pages can build arbitrary UI, so a \"Block / Cancel\" layout cannot be told\napart from an application dialog. The default is false so that layout-based\ndetection is skipped inside browsers.\n(Labels matching OK / Yes and so on still work regardless of this setting.)"),
        ("cfg.uia_enabled", "true: also use UI Automation so XAML / WinUI dialogs are supported\n(such as the save prompts in newer built-in Windows applications)."),
        ("cfg.uia_dialog_like_only", "true: restrict UI Automation scanning to dialog-shaped windows\n(not resizable, no minimize/maximize box, small relative to the screen).\nSetting this to false also scans browsers and is very slow."),
        ("cfg.uia_max_elements", "Upper limit of elements inspected during a UI Automation scan (20-5000)."),
        ("cfg.log_level", "Diagnostic log: 0 = off, 1 = normal, 2 = verbose (written to log.txt)."),
        ("cfg.skip_file_dialogs", "true: ignore file and folder pickers (Open, Save As, Select Folder).\nTheir confirm buttons use the IDOK control id, so disabling this makes the\napplication react to them."),
        ("cfg.skip_progress_dialogs", "true: ignore \"in progress\" dialogs that contain a progress bar\n(copy and extraction progress windows, for example)."),
        ("cfg.exclude_processes", "Ignore dialogs raised by these executables.\n(comma separated, case insensitive)\nExample: exclude_processes = installer.exe, backup.exe"),
        ("cfg.exclude_titles", "Ignore dialogs whose title contains any of these strings.\n(comma separated, substring match, case insensitive)\nExample: exclude_titles = Print, Update available"),
        ("cfg.extra_button_labels", "Additional button labels treated as an OK button (comma separated).\n\nOnly OK / Yes / Continue and their Japanese equivalents are recognised by\ndefault. Add labels here to move the cursor to other buttons.\n\nExample) React to Explorer's \"Replace or Skip Files\":\n    extra_button_labels = Replace the file in the destination\n\nExample) Separate multiple entries with commas:\n    extra_button_labels = Replace the file in the destination, Install\n\nGeneric words such as \"Run\" or \"Next\" tend to match unintended screens.\nWizard buttons like \"Next\" are usually picked up by\nfollow_dialog_default_button without registering them here.\n\nMnemonics are removed automatically, so parentheses are not needed.\nWrite \"Save\" rather than \"&Save\" or \"Save(S)\".\n\nIf you are unsure of the exact label, set log_level = 2 and open the dialog;\nlog.txt will list the button names that were found.\n\nCaution: the cursor moves to buttons whose labels are listed here. Think\ntwice before registering irreversible actions such as Delete or Overwrite.\n(This application only moves the cursor; it never clicks.)"),
        ("lang.name", "English"),
        ("menu.ripple", "Show a target ring on arrival"),
        ("cfg.ripple_enabled", "Draw shrinking concentric rings where the cursor lands."),
        ("cfg.ripple_size", "Diameter of the rings in pixels (16-600)."),
        ("cfg.ripple_duration_ms", "How long the rings take to close in (0-3000 ms). 0 disables them."),
        ("cfg.ripple_color", "Ring colour as RRGGBB."),
        ("menu.theme", "Theme"),
        ("menu.theme.default", "Default (no theme)"),
        ("cfg.theme", "Theme name, matching a folder under the theme directory.\nA theme may supply icon.ico, cursor_*.ani and sound.wav; anything\nmissing falls back to the built-in icon and the Windows cursor and sound.\nLeave empty to use the defaults."),
    ];
    t
}

} // verus!
