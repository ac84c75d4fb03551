//! What a front end shows for the engine's state: the texts and switches
//! of the Product Manager row, the launch rows, the runtime rows and the
//! audio device rows, and what it shows when an action ends.
use vstd::prelude::*;

use crate::audio::{AudioDevice, AudioDirection};
use crate::catalog::Application;
use crate::config::Config;
use crate::library::AppState;
use crate::paths::{show_path, shown_path};

verus! {

/// The Product Manager row: its button label and subtitle.
pub struct ProductManagerRow {
    pub button_label: String,
    pub subtitle: String,
}

/// What the Product Manager row shows, depending on whether Product
/// Manager is installed.
pub fn product_manager_row(installed: bool) -> (r: ProductManagerRow)
    ensures
        installed ==> r.button_label@ == "Open IK Product Manager"@ && r.subtitle@
            == "Installed — log in there to install TONEX or AmpliTube 5"@,
        !installed ==> r.button_label@ == "Install IK Product Manager"@ && r.subtitle@
            == "Not installed — WireBox downloads this automatically, no file needed"@,
{
    if installed {
        ProductManagerRow {
            button_label: String::from_str("Open IK Product Manager"),
            subtitle: String::from_str("Installed — log in there to install TONEX or AmpliTube 5"),
        }
    } else {
        ProductManagerRow {
            button_label: String::from_str("Install IK Product Manager"),
            subtitle: String::from_str(
                "Not installed — WireBox downloads this automatically, no file needed",
            ),
        }
    }
}

/// An application's launch row: its subtitle, and whether its Launch
/// button is enabled.
pub struct LaunchRow {
    pub subtitle: String,
    pub launchable: bool,
}

/// What an application's launch row shows: where it is installed, as a
/// person reads the path (and a live Launch button), or that it is not
/// installed yet.
pub fn launch_row(state: &AppState) -> (r: LaunchRow)
    ensures
        r.launchable == state.executable is Some,
        state.executable matches Some(e) ==> r.subtitle@ == "Installed — "@ + shown_path(e@),
        state.executable is None ==> r.subtitle@
            == "Not installed yet — install it from IK Product Manager above"@,
{
    match &state.executable {
        Some(e) => LaunchRow {
            subtitle: String::from_str("Installed — ").concat(show_path(e.as_str()).as_str()),
            launchable: true,
        },
        None => LaunchRow {
            subtitle: String::from_str(
                "Not installed yet — install it from IK Product Manager above",
            ),
            launchable: false,
        },
    }
}

/// The subtitle of the PipeWire row.
pub fn pipewire_subtitle(active: bool) -> (r: &'static str)
    ensures
        active ==> r@ == "Active — WineASIO audio setup is available"@,
        !active ==> r@ == "Not detected — WineASIO audio setup will likely fail"@,
{
    if active {
        "Active — WineASIO audio setup is available"
    } else {
        "Not detected — WineASIO audio setup will likely fail"
    }
}

/// An audio device's row: icon, kind, subtitle, and its preference button.
pub struct DeviceRow {
    pub icon_name: String,
    pub kind_label: String,
    pub subtitle: String,
    pub is_preferred: bool,
    pub button_label: String,
}

/// Whether `name` is the preference stored in `preferred`.
pub open spec fn is_preference(preferred: Option<Seq<char>>, name: Seq<char>) -> bool {
    preferred == Some(name)
}

/// Whether two texts are equal.
fn same_text(a: &String, b: &String) -> (r: bool)
    ensures
        r == (a@ == b@),
{
    *a == *b
}

/// What an audio device's row shows: outputs get a speaker icon and inputs
/// a microphone; the device is marked preferred when the configuration
/// names it for its direction; the subtitle is `<kind> — <node name>`.
pub fn device_row(device: &AudioDevice, config: &Config) -> (r: DeviceRow)
    ensures
        device.direction == AudioDirection::Output ==> r.icon_name@ == "audio-speakers-symbolic"@
            && r.kind_label@ == "Output"@ && r.is_preferred == is_preference(
            config.preferred_output_device.deep_view(),
            device.name@,
        ),
        device.direction == AudioDirection::Input ==> r.icon_name@
            == "audio-input-microphone-symbolic"@ && r.kind_label@ == "Input"@ && r.is_preferred
            == is_preference(config.preferred_input_device.deep_view(), device.name@),
        r.subtitle@ == r.kind_label@ + " — "@ + device.name@,
        r.is_preferred ==> r.button_label@ == "Preferred"@,
        !r.is_preferred ==> r.button_label@ == "Set as preferred"@,
{
    let (icon_name, kind_label, preferred) = match device.direction {
        AudioDirection::Output => (
            String::from_str("audio-speakers-symbolic"),
            String::from_str("Output"),
            &config.preferred_output_device,
        ),
        AudioDirection::Input => (
            String::from_str("audio-input-microphone-symbolic"),
            String::from_str("Input"),
            &config.preferred_input_device,
        ),
    };
    let is_preferred = match preferred {
        Some(p) => same_text(p, &device.name),
        None => false,
    };
    let subtitle = kind_label.clone().concat(" — ").concat(device.name.as_str());
    let button_label = if is_preferred {
        String::from_str("Preferred")
    } else {
        String::from_str("Set as preferred")
    };
    DeviceRow { icon_name, kind_label, subtitle, is_preferred, button_label }
}

/// What the Wine row says: where Wine was found, or, given the text of
/// the error that detecting it gave, why it is not available.
pub fn wine_subtitle(wine: Result<&str, &str>) -> (r: String)
    ensures
        wine matches Ok(executable) ==> r@ == "Available — "@ + executable@,
        wine matches Err(error) ==> r@ == "Not available — "@ + error@,
{
    match wine {
        Ok(executable) => String::from_str("Available — ").concat(executable),
        Err(error) => String::from_str("Not available — ").concat(error),
    }
}

/// What a finished action changes on screen: the row's new subtitle, if
/// it gets one, and the notification shown.
pub struct Feedback {
    pub subtitle: Option<String>,
    pub toast: String,
}

/// What setting up Product Manager shows when it ends, given the text of
/// its error if it failed (the row is refreshed first either way).
pub fn product_manager_setup_feedback(outcome: Result<(), &str>) -> (r: Feedback)
    ensures
        outcome is Ok ==> r.subtitle is None && r.toast@ == "IK Product Manager is open"@,
        outcome matches Err(error) ==> (r.subtitle matches Some(s) && s@ == "Setup failed — "@
            + error@ && r.toast@ == "Couldn't set up Product Manager: "@ + error@),
{
    match outcome {
        Ok(()) => Feedback { subtitle: None, toast: String::from_str("IK Product Manager is open") },
        Err(error) => Feedback {
            subtitle: Some(String::from_str("Setup failed — ").concat(error)),
            toast: String::from_str("Couldn't set up Product Manager: ").concat(error),
        },
    }
}

/// What launching `application` shows, given the text of its error if it
/// failed.
pub fn launch_feedback(application: Application, outcome: Result<(), &str>) -> (r: Feedback)
    ensures
        outcome is Ok ==> r.subtitle is None && r.toast@ == application.spec_name()
            + " launched"@,
        outcome matches Err(error) ==> (r.subtitle matches Some(s) && s@ == "Launch failed — "@
            + error@ && r.toast@ == "Couldn't launch "@ + application.spec_name() + ": "@
            + error@),
{
    let name = application.name();
    match outcome {
        Ok(()) => Feedback { subtitle: None, toast: String::from_str(name).concat(" launched") },
        Err(error) => Feedback {
            subtitle: Some(String::from_str("Launch failed — ").concat(error)),
            toast: String::from_str("Couldn't launch ").concat(name).concat(": ").concat(error),
        },
    }
}

/// What setting up audio shows when it ends, given the text of its error
/// if it failed: on failure the row goes back to describing the action.
pub fn audio_setup_feedback(outcome: Result<(), &str>) -> (r: Feedback)
    ensures
        outcome is Ok ==> (r.subtitle matches Some(s) && s@ == "WineASIO is registered"@
            && r.toast@ == "Audio set up"@),
        outcome matches Err(error) ==> (r.subtitle matches Some(s) && s@
            == "Registers WineASIO via winetricks, for use once an app is installed"@ && r.toast@
            == "Audio setup failed: "@ + error@),
{
    match outcome {
        Ok(()) => Feedback {
            subtitle: Some(String::from_str("WineASIO is registered")),
            toast: String::from_str("Audio set up"),
        },
        Err(error) => Feedback {
            subtitle: Some(
                String::from_str(
                    "Registers WineASIO via winetricks, for use once an app is installed",
                ),
            ),
            toast: String::from_str("Audio setup failed: ").concat(error),
        },
    }
}

/// A row standing in for the device list.
pub struct Placeholder {
    pub title: String,
    pub subtitle: String,
}

/// What stands in for the device list once the scan ends, given how many
/// devices it found or the text of its error: nothing when it found some
/// (each gets its [`device_row`]).
pub fn device_list_placeholder(scan: Result<usize, &str>) -> (r: Option<Placeholder>)
    ensures
        scan matches Ok(n) && n > 0 ==> r is None,
        scan == Ok::<usize, &str>(0) ==> (r matches Some(p) && p.title@ == "No devices found"@
            && p.subtitle@ == "PipeWire returned an empty list"@),
        scan matches Err(error) ==> (r matches Some(p) && p.title@
            == "Couldn't scan for audio devices"@ && p.subtitle@ == error@),
{
    match scan {
        Ok(n) => if n == 0 {
            Some(
                Placeholder {
                    title: String::from_str("No devices found"),
                    subtitle: String::from_str("PipeWire returned an empty list"),
                },
            )
        } else {
            None
        },
        Err(error) => Some(
            Placeholder {
                title: String::from_str("Couldn't scan for audio devices"),
                subtitle: String::from_str(error),
            },
        ),
    }
}

} // verus!
