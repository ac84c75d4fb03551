//! What WireBox makes of the system's audio server: whether it is PipeWire,
//! and which of its nodes are audio devices.
use vstd::prelude::*;

use crate::process::{lossy_utf8, CommandSpec, CommandView, Event, EventView, Op, OpView};
use crate::text::{chars_of, contains_chars, seq_contains};

verus! {

/// Which way audio flows through a device.
#[derive(Debug, Clone, Copy, PartialEq, Eq, Structural)]
pub enum AudioDirection {
    /// A sink - something audio plays out to (speakers, headphones, an
    /// interface's output).
    Output,
    /// A source - something audio comes in from (a mic, an interface's
    /// input).
    Input,
}

/// An audio device the audio server reports.
#[derive(Debug, Clone, PartialEq, Eq)]
pub struct AudioDevice {
    /// PipeWire's internal node name (stable-ish, used as an identifier).
    pub name: String,
    /// The human-readable name PipeWire's UI tools show for this device.
    pub description: String,
    pub direction: AudioDirection,
}

/// The properties of a PipeWire node that WireBox reads.
#[derive(Debug, Clone, PartialEq, Eq)]
pub struct NodeProperties {
    /// `media.class`
    pub media_class: Option<String>,
    /// `node.name`
    pub node_name: Option<String>,
    /// `node.description`
    pub node_description: Option<String>,
}

/// The command whose report tells which audio server runs: `pactl info`.
pub open spec fn pactl_info() -> CommandView {
    CommandView { program: "pactl"@, args: seq!["info"@], env: Seq::empty() }
}

/// Whether the report of `pactl info` names PipeWire. The exit status is
/// not consulted; a command that could not run counts as "no".
pub open spec fn reports_pipewire(ev: EventView) -> bool {
    match ev {
        EventView::Output { success, stdout } => seq_contains(lossy_utf8(stdout), "PipeWire"@),
        _ => false,
    }
}

/// The direction of a node with the given `media.class`, if it is an audio
/// sink or source; sinks are checked first.
pub open spec fn direction_of_class(media_class: Seq<char>) -> Option<AudioDirection> {
    if seq_contains(media_class, "Audio/Sink"@) {
        Some(AudioDirection::Output)
    } else if seq_contains(media_class, "Audio/Source"@) {
        Some(AudioDirection::Input)
    } else {
        None
    }
}

/// The value of an optional text, or `default` when it is absent.
pub open spec fn or_text(v: Option<Seq<char>>, default: Seq<char>) -> Seq<char> {
    match v {
        Some(t) => t,
        None => default,
    }
}

/// A check of whether the system's audio server is PipeWire, waiting for
/// the output of `pactl info`.
pub struct PipewireProbe {}

/// Whether the system's audio server identifies itself as PipeWire, which
/// is what the WineASIO bridge (see `dependencies::ensure_asio_bridge`)
/// actually routes audio through via its JACK compatibility layer.
///
/// This is a best-effort system check via `pactl info`, not a guarantee -
/// it doesn't confirm `pipewire-jack` specifically is installed, just that
/// PipeWire is the active audio server at all. The check is started here
/// and answered by [`PipewireProbe::finish`].
pub fn is_pipewire_active() -> (r: (PipewireProbe, Op))
    ensures
        r.1@ == OpView::Capture(pactl_info()),
{
    let mut args: Vec<String> = Vec::new();
    args.push(String::from_str("info"));
    let cmd = CommandSpec { program: String::from_str("pactl"), args, env: Vec::new() };
    proof {
        reveal_strlit("info");
        reveal_strlit("pactl");
        assert(cmd@.args =~= pactl_info().args);
        assert(cmd@.env =~= pactl_info().env);
    }
    (PipewireProbe {  }, Op::Capture(cmd))
}

/// Whether a report of the audio server names PipeWire.
pub fn names_pipewire(report: &str) -> (r: bool)
    ensures
        r == seq_contains(report@, "PipeWire"@),
{
    let chars = chars_of(report);
    let needle = chars_of("PipeWire");
    contains_chars(&chars, &needle)
}

impl PipewireProbe {
    /// Whether the captured report names PipeWire.
    pub fn finish(self, ev: Event) -> (r: bool)
        ensures
            r == reports_pipewire(ev@),
            ev@ matches EventView::Output { stdout, .. } ==> r == seq_contains(
                lossy_utf8(stdout),
                "PipeWire"@,
            ),
            !(ev@ is Output) ==> !r,
    {
        match ev {
            Event::Output { success: _, stdout } => {
                let text = crate::process::decode_lossy(stdout.as_slice());
                names_pipewire(text.as_str())
            },
            _ => false,
        }
    }
}

/// The audio device a PipeWire global stands for, if it is one: it must be
/// a node with properties whose `media.class` marks an audio sink or
/// source. A missing `node.name` reads as `(unnamed)`, and a missing
/// `node.description` as the name.
pub fn device_from_node(is_node: bool, properties: Option<NodeProperties>) -> (r: Option<
    AudioDevice,
>)
    ensures
        !is_node ==> r is None,
        is_node && properties is None ==> r is None,
        is_node ==> (properties matches Some(p) ==> {
            let class = or_text(p.media_class.deep_view(), Seq::empty());
            let name = or_text(p.node_name.deep_view(), "(unnamed)"@);
            match (direction_of_class(class), r) {
                (None, None) => true,
                (Some(d), Some(dev)) => dev.direction == d && dev.name@ == name
                    && dev.description@ == or_text(p.node_description.deep_view(), name),
                _ => false,
            }
        }),
{
    if !is_node {
        return None;
    }
    let props = match properties {
        Some(p) => p,
        None => return None,
    };
    let class = match &props.media_class {
        Some(c) => chars_of(c.as_str()),
        None => Vec::new(),
    };
    assert(class@ == or_text(props.media_class.deep_view(), Seq::empty()));
    let sink = chars_of("Audio/Sink");
    let source = chars_of("Audio/Source");
    let direction = if contains_chars(&class, &sink) {
        AudioDirection::Output
    } else if contains_chars(&class, &source) {
        AudioDirection::Input
    } else {
        return None;
    };
    let name = match props.node_name {
        Some(n) => n,
        None => String::from_str("(unnamed)"),
    };
    let description = match props.node_description {
        Some(d) => d,
        None => name.clone(),
    };
    Some(AudioDevice { name, description, direction })
}

/// The whole report is searched: whether the check says PipeWire is active
/// is whether "PipeWire" occurs anywhere in the report decoded as text, and
/// text after a mention of it never undoes the mention.
pub proof fn pipewire_report_read_whole(success: bool, stdout: Seq<u8>, more: Seq<char>)
    ensures
        reports_pipewire(EventView::Output { success, stdout }) == seq_contains(
            lossy_utf8(stdout),
            "PipeWire"@,
        ),
        seq_contains(lossy_utf8(stdout), "PipeWire"@) ==> seq_contains(
            lossy_utf8(stdout) + more,
            "PipeWire"@,
        ),
{
    let t = lossy_utf8(stdout);
    let n = "PipeWire"@;
    if seq_contains(t, n) {
        let i = choose|i: int| 0 <= i && i + n.len() <= t.len() && #[trigger] t.subrange(i, i + n.len()) == n;
        assert((t + more).subrange(i, i + n.len()) =~= t.subrange(i, i + n.len()));
    }
}

} // verus!
