use wirebox::audio::{AudioDevice, AudioDirection};
use wirebox::catalog::{parse_application, Application};
use wirebox::config::Config;
use wirebox::paths::{path_bytes, path_text, show_path};
use wirebox::library::AppState;
use wirebox::presentation::{
    audio_setup_feedback, device_list_placeholder, device_row, launch_feedback, launch_row,
    pipewire_subtitle, product_manager_row, product_manager_setup_feedback, wine_subtitle,
};
use wirebox::text::{
    chars_of, contains_chars, eq_ignore_ascii_case, join_path, to_ascii_lowercase,
    trim,
};

#[test]
fn names_and_slugs() {
    assert_eq!(Application::Tonex.name(), "TONEX");
    assert_eq!(Application::Amplitube5.name(), "AmpliTube 5");
    assert_eq!(Application::Tonex.slug(), "tonex");
    assert_eq!(Application::Amplitube5.slug(), "amplitube5");
}

#[test]
fn executable_names_per_application() {
    assert_eq!(Application::Tonex.executable_names(), &["TONEX.exe", "TONEXApp.exe"]);
    assert_eq!(
        Application::Amplitube5.executable_names(),
        &["AmpliTube 5.exe", "AmpliTube.exe", "AmpliTube5.exe"]
    );
}

#[test]
fn from_slug_round_trips_every_application() {
    for app in Application::ALL {
        assert_eq!(Application::from_slug(app.slug()), Some(app));
    }
    assert_eq!(Application::all(), Application::ALL.to_vec());
}

#[test]
fn from_slug_rejects_unknown_and_differently_cased_slugs() {
    assert_eq!(Application::from_slug("TONEX"), None);
    assert_eq!(Application::from_slug("amplitube"), None);
    assert_eq!(Application::from_slug(""), None);
}

#[test]
fn parse_application_reads_cli_argument() {
    assert_eq!(parse_application(Some(&"amplitube5".to_string())), Some(Application::Amplitube5));
    assert_eq!(parse_application(Some(&"nope".to_string())), None);
    assert_eq!(parse_application(None), None);
}

#[test]
fn config_defaults() {
    let c = Config::default();
    assert_eq!(c.buffer_size, 128);
    assert_eq!(c.sample_rate, 48_000);
    assert_eq!(c.preferred_output_device, None);
    assert_eq!(c.preferred_input_device, None);
}

#[test]
fn config_path_layout() {
    assert_eq!(Config::path_in(Some("/home/u/.config".to_string())), "/home/u/.config/wirebox/config.toml");
    assert_eq!(Config::path_in(None), "./wirebox/config.toml");
    assert!(Config::path().ends_with("wirebox/config.toml"));
}

#[test]
fn preferred_device_is_remembered_per_direction() {
    let c = Config::default().with_preferred(AudioDirection::Output, "alsa_output.usb".to_string());
    assert_eq!(c.preferred_output_device.as_deref(), Some("alsa_output.usb"));
    assert_eq!(c.preferred_input_device, None);
    let c = c.with_preferred(AudioDirection::Input, "alsa_input.usb".to_string());
    assert_eq!(c.preferred_output_device.as_deref(), Some("alsa_output.usb"));
    assert_eq!(c.preferred_input_device.as_deref(), Some("alsa_input.usb"));
    assert_eq!(c.buffer_size, 128);
}

#[test]
fn trim_removes_unicode_white_space_at_both_ends() {
    assert_eq!(trim("  /usr/bin/wine\n"), "/usr/bin/wine");
    assert_eq!(trim("\u{3000}a b\u{a0}\t"), "a b");
    assert_eq!(trim(" \n\t "), "");
    assert_eq!(trim(""), "");
    assert_eq!(trim("x"), "x");
}

#[test]
fn join_path_follows_pathbuf_push() {
    assert_eq!(join_path("/home/u", ".local"), "/home/u/.local");
    assert_eq!(join_path("/home/u/", "x"), "/home/u/x");
    assert_eq!(join_path("", "x"), "x");
    assert_eq!(join_path("/home/u", "/etc"), "/etc");
}

#[test]
fn ascii_case_folding() {
    assert!(eq_ignore_ascii_case("TONEX.exe", "tonex.EXE"));
    assert!(!eq_ignore_ascii_case("TONEX.exe", "TONEX.ex"));
    assert!(!eq_ignore_ascii_case("É", "é"));
    assert_eq!(to_ascii_lowercase("AbC Ü"), chars_of("abc Ü"));
}

#[test]
fn substring_test() {
    assert!(contains_chars(&chars_of("ik product manager.exe"), &chars_of("product manager")));
    assert!(contains_chars(&chars_of("abc"), &chars_of("")));
    assert!(!contains_chars(&chars_of("ab"), &chars_of("abc")));
    assert!(!contains_chars(&chars_of("product-manager"), &chars_of("product manager")));
}

#[test]
fn product_manager_row_texts() {
    let r = product_manager_row(true);
    assert_eq!(r.button_label, "Open IK Product Manager");
    assert_eq!(r.subtitle, "Installed — log in there to install TONEX or AmpliTube 5");
    let r = product_manager_row(false);
    assert_eq!(r.button_label, "Install IK Product Manager");
    assert_eq!(r.subtitle, "Not installed — WireBox downloads this automatically, no file needed");
}

#[test]
fn launch_row_reflects_state() {
    let installed = AppState { application: Application::Tonex, executable: Some("/p/TONEX.exe".to_string()) };
    assert!(installed.is_installed());
    let r = launch_row(&installed);
    assert!(r.launchable);
    assert_eq!(r.subtitle, "Installed — /p/TONEX.exe");
    let missing = AppState { application: Application::Tonex, executable: None };
    assert!(!missing.is_installed());
    let r = launch_row(&missing);
    assert!(!r.launchable);
    assert_eq!(r.subtitle, "Not installed yet — install it from IK Product Manager above");
}

#[test]
fn pipewire_row_subtitle() {
    assert_eq!(pipewire_subtitle(true), "Active — WineASIO audio setup is available");
    assert_eq!(pipewire_subtitle(false), "Not detected — WineASIO audio setup will likely fail");
}

#[test]
fn device_rows_mark_the_preferred_device() {
    let out = AudioDevice {
        name: "alsa_output.usb".to_string(),
        description: "USB Interface".to_string(),
        direction: AudioDirection::Output,
    };
    let mut config = Config::default();
    let r = device_row(&out, &config);
    assert_eq!(r.icon_name, "audio-speakers-symbolic");
    assert_eq!(r.kind_label, "Output");
    assert_eq!(r.subtitle, "Output — alsa_output.usb");
    assert!(!r.is_preferred);
    assert_eq!(r.button_label, "Set as preferred");
    config.preferred_output_device = Some("alsa_output.usb".to_string());
    let r = device_row(&out, &config);
    assert!(r.is_preferred);
    assert_eq!(r.button_label, "Preferred");
    let input = AudioDevice { direction: AudioDirection::Input, ..out };
    let r = device_row(&input, &config);
    assert_eq!(r.icon_name, "audio-input-microphone-symbolic");
    assert_eq!(r.subtitle, "Input — alsa_output.usb");
    assert!(!r.is_preferred);
}


#[test]
fn wine_row_texts() {
    assert_eq!(wine_subtitle(Ok("/usr/bin/wine")), "Available — /usr/bin/wine");
    assert_eq!(wine_subtitle(Err("Wine not found")), "Not available — Wine not found");
}

#[test]
fn action_feedback_texts() {
    let ok = product_manager_setup_feedback(Ok(()));
    assert_eq!(ok.subtitle, None);
    assert_eq!(ok.toast, "IK Product Manager is open");
    let failed = product_manager_setup_feedback(Err("boom"));
    assert_eq!(failed.subtitle.as_deref(), Some("Setup failed — boom"));
    assert_eq!(failed.toast, "Couldn't set up Product Manager: boom");

    let launched = launch_feedback(Application::Amplitube5, Ok(()));
    assert_eq!(launched.subtitle, None);
    assert_eq!(launched.toast, "AmpliTube 5 launched");
    let failed = launch_feedback(Application::Tonex, Err("not installed"));
    assert_eq!(failed.subtitle.as_deref(), Some("Launch failed — not installed"));
    assert_eq!(failed.toast, "Couldn't launch TONEX: not installed");

    let done = audio_setup_feedback(Ok(()));
    assert_eq!(done.subtitle.as_deref(), Some("WineASIO is registered"));
    assert_eq!(done.toast, "Audio set up");
    let failed = audio_setup_feedback(Err("exit status: 1"));
    assert_eq!(failed.subtitle.as_deref(), Some("Registers WineASIO via winetricks, for use once an app is installed"));
    assert_eq!(failed.toast, "Audio setup failed: exit status: 1");
}

#[test]
fn device_list_placeholders() {
    let none = device_list_placeholder(Ok(0)).unwrap();
    assert_eq!(none.title, "No devices found");
    assert_eq!(none.subtitle, "PipeWire returned an empty list");
    assert!(device_list_placeholder(Ok(3)).is_none());
    let failed = device_list_placeholder(Err("no daemon")).unwrap();
    assert_eq!(failed.title, "Couldn't scan for audio devices");
    assert_eq!(failed.subtitle, "no daemon");
}

#[test]
fn path_texts_keep_every_byte() {
    let raw: &[u8] = b"/home/jos\xe9/100%/\xc3\xa9";
    let text = path_text(raw);
    assert_eq!(text, "/home/jos%E9/100%25/%C3%A9");
    assert_eq!(path_bytes(&text), Some(raw.to_vec()));
    assert_eq!(show_path(&text), "/home/jos\u{fffd}/100%/\u{e9}");
    assert_eq!(path_text(b"/usr/bin/wine"), "/usr/bin/wine");
    assert_eq!(path_bytes("/a%2"), None);
    assert_eq!(path_bytes("/a%zz"), None);
    assert_eq!(show_path("/a%zz"), "/a%zz");
}

#[test]
fn launch_row_shows_paths_as_read() {
    let installed = AppState { application: Application::Tonex, executable: Some("/p/caf%C3%A9/TONEX.exe".into()) };
    assert_eq!(launch_row(&installed).subtitle, "Installed — /p/caf\u{e9}/TONEX.exe");
}
