//! User-adjustable settings that aren't tied to any one application,
//! stored as TOML at `~/.config/wirebox/config.toml` (reading and writing
//! the file is the caller's part).
use vstd::prelude::*;

use crate::audio::AudioDirection;
use crate::text::{join_path, path_join};

use crate::paths::{optional_path_text, path_texts};

verus! {

/// User-adjustable settings.
#[derive(Debug, Clone, PartialEq, Eq)]
pub struct Config {
    /// ASIO buffer size, in samples. Lower = less latency, more risk of
    /// audio dropouts on marginal hardware.
    pub buffer_size: u32,
    pub sample_rate: u32,
    /// PipeWire node name (see `audio::AudioDevice::name`) of the user's
    /// chosen output device, if they've picked one.
    pub preferred_output_device: Option<String>,
    /// PipeWire node name of the user's chosen input device, if any.
    pub preferred_input_device: Option<String>,
}

/// The default buffer size, in samples.
pub const DEFAULT_BUFFER_SIZE: u32 = 128;

/// The default sample rate, in Hz.
pub const DEFAULT_SAMPLE_RATE: u32 = 48000;

impl Default for Config {
    fn default() -> (r: Self)
        ensures
            r.buffer_size == DEFAULT_BUFFER_SIZE,
            r.sample_rate == DEFAULT_SAMPLE_RATE,
            r.preferred_output_device is None,
            r.preferred_input_device is None,
    {
        Config {
            buffer_size: DEFAULT_BUFFER_SIZE,
            sample_rate: DEFAULT_SAMPLE_RATE,
            preferred_output_device: None,
            preferred_input_device: None,
        }
    }
}

/// Where the configuration file lives, given the user's configuration
/// directory (the current directory when there is none).
pub open spec fn config_path_in(config_dir: Option<Seq<char>>) -> Seq<char> {
    let base = match config_dir {
        Some(d) => d,
        None => "."@,
    };
    path_join(path_join(base, "wirebox"@), "config.toml"@)
}

/// The user's configuration directory as `dirs::config_dir` reports it
/// (an absolute `$XDG_CONFIG_HOME`, or else `.config` under the home
/// directory), as the bytes of the path (on Unix, the path's own bytes).
/// Assumed: a reported directory is never the empty path. Not stated:
/// which directory is reported; that depends on the environment.
#[verifier::external_body]
fn config_dir() -> (r: Option<Vec<u8>>)
    ensures
        r matches Some(d) ==> d@.len() > 0,
{
    match dirs::config_dir() {
        Some(p) => Some(p.into_os_string().into_encoded_bytes()),
        None => None,
    }
}

impl Config {
    /// Where the configuration file lives under `config_dir`.
    pub fn path_in(config_dir: Option<String>) -> (r: String)
        ensures
            r@ == config_path_in(config_dir.deep_view()),
    {
        let base = match config_dir {
            Some(d) => d,
            None => String::from_str("."),
        };
        proof {
            reveal_strlit(".");
        }
        let dir = join_path(base.as_str(), "wirebox");
        join_path(dir.as_str(), "config.toml")
    }

    /// Where the configuration file lives for this user.
    pub fn path() -> (r: String)
        ensures
            exists|d: Option<Seq<u8>>|
                (d matches Some(c) ==> c.len() > 0) && r@ == config_path_in(path_texts(d)),
    {
        let bytes = config_dir();
        let ghost d = bytes.deep_view();
        let r = Self::path_in(optional_path_text(bytes));
        assert(r@ == config_path_in(path_texts(d)));
        r
    }

    /// The configuration with `name` remembered as the preferred device for
    /// `direction`; the other preference and the audio settings are kept.
    pub fn with_preferred(self, direction: AudioDirection, name: String) -> (r: Config)
        ensures
            r.buffer_size == self.buffer_size,
            r.sample_rate == self.sample_rate,
            direction == AudioDirection::Output ==> r.preferred_output_device == Some(name)
                && r.preferred_input_device == self.preferred_input_device,
            direction == AudioDirection::Input ==> r.preferred_input_device == Some(name)
                && r.preferred_output_device == self.preferred_output_device,
    {
        match direction {
            AudioDirection::Output => Config { preferred_output_device: Some(name), ..self },
            AudioDirection::Input => Config { preferred_input_device: Some(name), ..self },
        }
    }
}

} // verus!
