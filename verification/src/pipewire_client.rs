//! Session-facing configuration and routing decisions: how the playback
//! endpoint is resolved from a raw target string, which properties the
//! capture and playback streams declare, and how the requested node
//! latency is read.
//!
//! The session layer itself — stream negotiation, the event loop, buffer
//! dequeueing — is an external collaborator; everything it needs decided
//! is computed here on plain strings and numbers.

use vstd::prelude::*;

use vstd::string::StrSliceExecFns;
use vstd::string::StringExecFns;

use crate::text::parse_u32_str;
use crate::text::spec_decimal;
use crate::text::spec_parse_u32;
use crate::text::spec_trim;
use crate::text::trim_str;
use crate::text::usize_to_decimal;

verus! {

/// Default hardware-device latency request, in microseconds, used when the
/// caller passes zero.
pub const DEFAULT_ALSA_LATENCY_US: u32 = 60_000;

/// Immutable per-run settings for the session layer.
#[derive(Debug, Clone)]
pub struct PipewireConfig {
    /// Requested node latency, as a `frames/rate` fraction string.
    pub node_latency: String,
}

impl Default for PipewireConfig {
    fn default() -> (c: PipewireConfig)
        ensures
            c.node_latency@ == "64/48000"@,
    {
        PipewireConfig { node_latency: String::from_str("64/48000") }
    }
}

/// Where the encoded byte stream goes: the session's own playback path, a
/// raw byte stream, or a directly addressed hardware device.
#[derive(Debug, Clone)]
pub enum OutputMode {
    Pipewire,
    Stdout,
    AlsaDirect { device: String, latency_us: u32 },
}

/// Resolved addressing for the playback endpoint: an optional numeric
/// identifier and an optional name.  A numeric target populates both.
#[derive(Debug, Clone, PartialEq, Eq)]
pub struct PlaybackTarget {
    /// Numeric endpoint identifier, when the target string is a number.
    pub connect_target_id: Option<u32>,
    /// Endpoint name, for any non-blank target string.
    pub target_object: Option<String>,
}

/// Resolves the raw playback-target string: surrounding whitespace is
/// removed; a blank or absent string means no explicit target; a numeric
/// string sets both the identifier and the name; any other string sets
/// only the name.
pub fn resolve_playback_target(target_node: Option<&str>) -> (r: PlaybackTarget)
    ensures
        target_node is None ==> r.target_object is None && r.connect_target_id is None,
        target_node is Some ==> ({
            let t = spec_trim(target_node->Some_0@);
            &&& t.len() == 0 ==> r.target_object is None && r.connect_target_id is None
            &&& t.len() > 0 ==> r.target_object is Some && r.target_object->Some_0@ == t
                && r.connect_target_id == spec_parse_u32(t)
        }),
{
    match target_node {
        None => PlaybackTarget { connect_target_id: None, target_object: None },
        Some(raw) => {
            let trimmed = trim_str(raw);
            if trimmed.as_str().is_empty() {
                PlaybackTarget { connect_target_id: None, target_object: None }
            } else {
                let connect_target_id = parse_u32_str(trimmed.as_str());
                PlaybackTarget { connect_target_id, target_object: Some(trimmed) }
            }
        },
    }
}

/// The node latency actually used: the configured fraction string, or the
/// stock `64/48000` when the configured one is blank.
pub open spec fn spec_effective_latency(s: Seq<char>) -> Seq<char> {
    if spec_trim(s).len() == 0 {
        "64/48000"@
    } else {
        s
    }
}

/// Substitutes the stock latency fraction for a blank configuration value.
pub fn effective_node_latency(node_latency: &str) -> (r: String)
    ensures
        r@ == spec_effective_latency(node_latency@),
{
    let trimmed = trim_str(node_latency);
    if trimmed.as_str().is_empty() {
        String::from_str("64/48000")
    } else {
        String::from_str(node_latency)
    }
}

/// Length of the run of characters before the first `/`, or of the whole
/// string when there is none.
pub open spec fn spec_before_slash_len(s: Seq<char>) -> int
    decreases s.len(),
{
    if s.len() == 0 {
        0
    } else if s[0] == '/' {
        0
    } else {
        1 + spec_before_slash_len(s.drop_first())
    }
}

proof fn lemma_before_slash_len(s: Seq<char>, i: int)
    requires
        0 <= i <= s.len(),
        forall|k: int| 0 <= k < i ==> s[k] != '/',
        i == s.len() || s[i] == '/',
    ensures
        spec_before_slash_len(s) == i,
    decreases i,
{
    if s.len() == 0 {
    } else if s[0] == '/' {
    } else {
        assert(i >= 1);
        assert(forall|k: int| 0 <= k < i - 1 ==> s.drop_first()[k] == s[k + 1] && s[k + 1] != '/');
        if i < s.len() {
            assert(s.drop_first()[i - 1] == s[i]);
        }
        lemma_before_slash_len(s.drop_first(), i - 1);
    }
}

/// The frame count a latency fraction requests: the number before the
/// first `/`, when it is a positive 32-bit value.
pub open spec fn spec_latency_frames(s: Seq<char>) -> Option<u32> {
    let head = s.take(spec_before_slash_len(s));
    match spec_parse_u32(head) {
        Some(v) => if v > 0 {
            Some(v)
        } else {
            None
        },
        None => None,
    }
}

/// Reads the requested frame count out of a latency fraction string such
/// as `64/48000`; a missing, zero or malformed frame count requests none.
pub fn requested_latency_frames(node_latency: &str) -> (r: Option<u32>)
    ensures
        r == spec_latency_frames(node_latency@),
{
    let n = node_latency.unicode_len();
    let mut i: usize = 0;
    while i < n && node_latency.get_char(i) != '/'
        invariant
            i <= n,
            n == node_latency@.len(),
            forall|k: int| 0 <= k < i ==> node_latency@[k] != '/',
        decreases n - i,
    {
        i = i + 1;
    }
    proof {
        lemma_before_slash_len(node_latency@, i as int);
    }
    let head = node_latency.substring_char(0, i);
    proof {
        assert(head@ =~= node_latency@.take(i as int));
    }
    match parse_u32_str(head) {
        Some(v) => {
            if v > 0 {
                Some(v)
            } else {
                None
            }
        },
        None => None,
    }
}

/// Whether the resolved target names an explicit endpoint.
pub open spec fn spec_has_explicit_target(t: PlaybackTarget) -> bool {
    t.target_object is Some || t.connect_target_id is Some
}

/// Builds the playback stream's property list, as key/value pairs in
/// declaration order.
///
/// The table fixes a two-channel 16-bit carrier at 48 kHz and switches off
/// every transformation that could touch the encoded bytes (remixing,
/// resampling, dithering).  Automatic routing is enabled exactly when no
/// explicit target was resolved; an explicit target name is passed through
/// as the final `target.object` entry.
pub fn build_playback_properties(target: &PlaybackTarget) -> (props: Vec<(String, String)>)
    ensures
        props@.len() == if target.target_object is Some {
            18int
        } else {
            17int
        },
        props@[0].0@ == "node.name"@ && props@[0].1@ == "pw-ac3-live-output"@,
        props@[1].0@ == "node.description"@ && props@[1].1@ == "AC-3 Live Output"@,
        props@[2].0@ == "application.name"@ && props@[2].1@ == "pw-ac3-live"@,
        props@[3].0@ == "audio.channels"@ && props@[3].1@ == "2"@,
        props@[4].0@ == "audio.position"@ && props@[4].1@ == "FL,FR"@,
        props@[5].0@ == "audio.rate"@ && props@[5].1@ == "48000"@,
        props@[6].0@ == "audio.format"@ && props@[6].1@ == "S16LE"@,
        props@[7].0@ == "media.name"@ && props@[7].1@ == "ac3-encoder-playback"@,
        props@[8].0@ == "stream.is-live"@ && props@[8].1@ == "true"@,
        props@[9].0@ == "node.want-driver"@ && props@[9].1@ == "true"@,
        props@[10].0@ == "node.autoconnect"@ && props@[10].1@ == (
        if spec_has_explicit_target(*target) {
            "false"@
        } else {
            "true"@
        }),
        props@[11].0@ == "stream.dont-remix"@ && props@[11].1@ == "true"@,
        props@[12].0@ == "channelmix.disable"@ && props@[12].1@ == "true"@,
        props@[13].0@ == "channelmix.normalize"@ && props@[13].1@ == "false"@,
        props@[14].0@ == "resample.disable"@ && props@[14].1@ == "true"@,
        props@[15].0@ == "dither.method"@ && props@[15].1@ == "none"@,
        props@[16].0@ == "session.suspend-timeout-seconds"@ && props@[16].1@ == "0"@,
        target.target_object is Some ==> props@[17].0@ == "target.object"@ && props@[17].1@
            == target.target_object->Some_0@,
{
    let has_explicit_target = target.target_object.is_some() || target.connect_target_id.is_some();
    let mut props: Vec<(String, String)> = Vec::new();
    props.push((String::from_str("node.name"), String::from_str("pw-ac3-live-output")));
    props.push((String::from_str("node.description"), String::from_str("AC-3 Live Output")));
    props.push((String::from_str("application.name"), String::from_str("pw-ac3-live")));
    props.push((String::from_str("audio.channels"), String::from_str("2")));
    props.push((String::from_str("audio.position"), String::from_str("FL,FR")));
    props.push((String::from_str("audio.rate"), String::from_str("48000")));
    props.push((String::from_str("audio.format"), String::from_str("S16LE")));
    props.push((String::from_str("media.name"), String::from_str("ac3-encoder-playback")));
    props.push((String::from_str("stream.is-live"), String::from_str("true")));
    props.push((String::from_str("node.want-driver"), String::from_str("true")));
    let autoconnect = if has_explicit_target {
        String::from_str("false")
    } else {
        String::from_str("true")
    };
    props.push((String::from_str("node.autoconnect"), autoconnect));
    props.push((String::from_str("stream.dont-remix"), String::from_str("true")));
    props.push((String::from_str("channelmix.disable"), String::from_str("true")));
    props.push((String::from_str("channelmix.normalize"), String::from_str("false")));
    props.push((String::from_str("resample.disable"), String::from_str("true")));
    props.push((String::from_str("dither.method"), String::from_str("none")));
    props.push((
        String::from_str("session.suspend-timeout-seconds"),
        String::from_str("0"),
    ));
    match &target.target_object {
        Some(target_object) => {
            props.push((String::from_str("target.object"), target_object.clone()));
        },
        None => {},
    }
    props
}

/// Builds the capture stream's property list, as key/value pairs in
/// declaration order.
///
/// The capture side presents itself as a 6-channel 48 kHz float sink under
/// the requested node latency; when the latency fraction carries a
/// positive frame count, the stream additionally asks the session to force
/// and lock that quantum and the fixed rate.
pub fn build_capture_properties(node_latency: &str) -> (props: Vec<(String, String)>)
    ensures
        ({
            let eff = spec_effective_latency(node_latency@);
            let frames = spec_latency_frames(eff);
            &&& props@.len() == if frames is Some {
                13int
            } else {
                9int
            }
            &&& props@[0].0@ == "media.class"@ && props@[0].1@ == "Audio/Sink"@
            &&& props@[1].0@ == "node.name"@ && props@[1].1@ == "pw-ac3-live-input"@
            &&& props@[2].0@ == "node.description"@ && props@[2].1@ == "AC-3 Encoder Input"@
            &&& props@[3].0@ == "application.name"@ && props@[3].1@ == "pw-ac3-live"@
            &&& props@[4].0@ == "audio.channels"@ && props@[4].1@ == "6"@
            &&& props@[5].0@ == "audio.position"@ && props@[5].1@ == "FL,FR,FC,LFE,SL,SR"@
            &&& props@[6].0@ == "audio.rate"@ && props@[6].1@ == "48000"@
            &&& props@[7].0@ == "audio.format"@ && props@[7].1@ == "F32LE"@
            &&& props@[8].0@ == "node.latency"@ && props@[8].1@ == eff
            &&& frames is Some ==> {
                &&& props@[9].0@ == "node.force-quantum"@ && props@[9].1@ == spec_decimal(
                    frames->Some_0 as nat,
                )
                &&& props@[10].0@ == "node.lock-quantum"@ && props@[10].1@ == "true"@
                &&& props@[11].0@ == "node.force-rate"@ && props@[11].1@ == "48000"@
                &&& props@[12].0@ == "node.lock-rate"@ && props@[12].1@ == "true"@
            }
        }),
{
    let eff = effective_node_latency(node_latency);
    let frames = requested_latency_frames(eff.as_str());
    let mut props: Vec<(String, String)> = Vec::new();
    props.push((String::from_str("media.class"), String::from_str("Audio/Sink")));
    props.push((String::from_str("node.name"), String::from_str("pw-ac3-live-input")));
    props.push((String::from_str("node.description"), String::from_str("AC-3 Encoder Input")));
    props.push((String::from_str("application.name"), String::from_str("pw-ac3-live")));
    props.push((String::from_str("audio.channels"), String::from_str("6")));
    props.push((String::from_str("audio.position"), String::from_str("FL,FR,FC,LFE,SL,SR")));
    props.push((String::from_str("audio.rate"), String::from_str("48000")));
    props.push((String::from_str("audio.format"), String::from_str("F32LE")));
    props.push((String::from_str("node.latency"), eff));
    match frames {
        Some(f) => {
            props.push((String::from_str("node.force-quantum"), usize_to_decimal(f as usize)));
            props.push((String::from_str("node.lock-quantum"), String::from_str("true")));
            props.push((String::from_str("node.force-rate"), String::from_str("48000")));
            props.push((String::from_str("node.lock-rate"), String::from_str("true")));
        },
        None => {},
    }
    props
}

/// Substitutes the stock hardware latency for a zero request.
pub fn effective_alsa_latency(latency_us: u32) -> (r: u32)
    ensures
        r == if latency_us == 0 {
            DEFAULT_ALSA_LATENCY_US
        } else {
            latency_us
        },
{
    if latency_us == 0 {
        DEFAULT_ALSA_LATENCY_US
    } else {
        latency_us
    }
}

} // verus!
