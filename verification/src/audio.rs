use vstd::prelude::*;
use vstd::string::*;

use crate::text::{chars_of, contains_chars, contains_seq, owned, push_str, split_on, split_on_char, split_on_chars, split_seq, str_eq, string_of, trim, trim_chars};

verus! {

broadcast use vstd::string::group_string_axioms;

/// The ALSA device used when no HDMI port is connected.
pub const DEFAULT_AUDIO_DEVICE: &'static str = "hdmi:CARD=vc4hdmi1,DEV=0";

/// A DRM connector as read from `/sys/class/drm`: its entry name and the
/// contents of its `status` file, when that could be read.
#[derive(Debug, Clone)]
pub struct DrmConnector {
    pub name: String,
    pub status: Option<String>,
}

/// The HDMI ports in order of preference, each with the ALSA device that
/// plays through it.
pub open spec fn hdmi_audio_ports() -> Seq<(Seq<char>, Seq<char>)> {
    seq![("HDMI-A-2"@, "hdmi:CARD=vc4hdmi1,DEV=0"@), ("HDMI-A-1"@, "hdmi:CARD=vc4hdmi0,DEV=0"@)]
}

/// A connector for `port` (its name contains the port's) whose status is
/// `connected`.
pub open spec fn connector_connected(c: DrmConnector, port: Seq<char>) -> bool {
    contains_seq(c.name@, port) && match c.status {
        Some(s) => trim(s@) == "connected"@,
        None => false,
    }
}

/// Some connector for `port` is connected.
pub open spec fn port_connected(connectors: Seq<DrmConnector>, port: Seq<char>) -> bool {
    exists|i: int| 0 <= i < connectors.len() && connector_connected(#[trigger] connectors[i], port)
}

/// Whether a connector for `port` is connected.
pub fn drm_port_connected(connectors: &Vec<DrmConnector>, port: &str) -> (r: bool)
    ensures
        r == port_connected(connectors@, port@),
{
    let p = chars_of(port);
    let mut i: usize = 0;
    while i < connectors.len()
        invariant
            i <= connectors@.len(),
            p@ == port@,
            forall|k: int| 0 <= k < i ==> !connector_connected(#[trigger] connectors@[k], port@),
        decreases connectors.len() - i,
    {
        let c = &connectors[i];
        if contains_chars(&chars_of(c.name.as_str()), &p) {
            if let Some(s) = &c.status {
                if str_eq(string_of(&trim_chars(&chars_of(s.as_str()))).as_str(), "connected") {
                    return true;
                }
            }
        }
        i = i + 1;
    }
    false
}

/// The audio device to use: that of the first connected HDMI port, else
/// the default one.
pub open spec fn preferred_audio_device(connectors: Seq<DrmConnector>) -> Seq<char> {
    if port_connected(connectors, "HDMI-A-2"@) {
        "hdmi:CARD=vc4hdmi1,DEV=0"@
    } else if port_connected(connectors, "HDMI-A-1"@) {
        "hdmi:CARD=vc4hdmi0,DEV=0"@
    } else {
        DEFAULT_AUDIO_DEVICE@
    }
}

/// The audio device to use for the connectors found.
pub fn detect_preferred_audio_device(connectors: &Vec<DrmConnector>) -> (r: String)
    ensures
        r@ == preferred_audio_device(connectors@),
{
    if drm_port_connected(connectors, "HDMI-A-2") {
        owned("hdmi:CARD=vc4hdmi1,DEV=0")
    } else if drm_port_connected(connectors, "HDMI-A-1") {
        owned("hdmi:CARD=vc4hdmi0,DEV=0")
    } else {
        owned(DEFAULT_AUDIO_DEVICE)
    }
}

/// The sound card of an ALSA device name: what follows `CARD=` up to the
/// next comma, or `vc4hdmi1` when that is missing or empty.
pub open spec fn card_name(device: Seq<char>) -> Seq<char> {
    let parts = split_seq(device, "CARD="@);
    if parts.len() > 1 && split_on(parts[1], ',')[0].len() > 0 {
        split_on(parts[1], ',')[0]
    } else {
        "vc4hdmi1"@
    }
}

/// The sound card of an ALSA device name.
pub fn asound_card_name(audio_device: &str) -> (r: String)
    ensures
        r@ == card_name(audio_device@),
{
    let sep = chars_of("CARD=");
    proof {
        reveal_strlit("CARD=");
    }
    let parts = split_on_chars(&chars_of(audio_device), &sep);
    if parts.len() > 1 {
        let pieces = split_on_char(&parts[1], ',');
        proof {
            crate::text::lemma_split_first(parts@[1]@, ',');
        }
        if pieces[0].len() > 0 {
            return string_of(&pieces[0]);
        }
    }
    owned("vc4hdmi1")
}

/// The `.asoundrc` that sends the default PCM to `device` and the default
/// control to its card.
pub open spec fn asoundrc_spec(device: Seq<char>) -> Seq<char> {
    "pcm.!default {\n    type plug\n    slave.pcm \""@ + device + "\"\n}\n\nctl.!default {\n    type hw\n    card "@ + card_name(device)
        + "\n}\n"@
}

/// The `.asoundrc` for an audio device.
pub fn asoundrc_content(audio_device: &str) -> (r: String)
    ensures
        r@ == asoundrc_spec(audio_device@),
{
    let mut r = owned("pcm.!default {\n    type plug\n    slave.pcm \"");
    push_str(&mut r, audio_device);
    push_str(&mut r, "\"\n}\n\nctl.!default {\n    type hw\n    card ");
    push_str(&mut r, asound_card_name(audio_device).as_str());
    push_str(&mut r, "\n}\n");
    r
}

} // verus!
