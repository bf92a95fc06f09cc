//! Records exchanged with the surrounding application: scan inputs,
//! plugin descriptions and rich-presence payloads. They carry plain
//! values only; the application serializes its own copies of them.

use vstd::prelude::*;
use vstd::string::StringSliceAdditionalSpecFns;

verus! {

/// Input describing an external (streaming) track to add to the library.
pub struct ExternalTrackInput {
    pub title: String,
    pub artist: String,
    pub album: Option<String>,
    pub duration: Option<i32>,
    pub cover_url: Option<String>,
    pub source_type: String,
    pub external_id: String,
    pub format: Option<String>,
    pub bitrate: Option<i32>,
    pub stream_url: Option<String>,
}

/// Input describing an audio download: where it comes from, where it
/// lands, and the tags to write.
pub struct DownloadAudioInput {
    pub url: String,
    pub path: String,
    pub title: Option<String>,
    pub artist: Option<String>,
    pub album: Option<String>,
    pub track_number: Option<u32>,
    pub cover_url: Option<String>,
}

/// A plugin's manifest as its package declares it.
pub struct PluginManifest {
    pub name: String,
    pub version: String,
    pub author: String,
    pub description: Option<String>,
    pub repo: Option<String>,
    pub manifest_url: Option<String>,
    pub plugin_type: String,
    pub entry: String,
    pub permissions: Vec<String>,
    pub ui_slots: Option<Vec<String>>,
    pub icon: Option<String>,
    pub category: Option<String>,
    pub tags: Option<Vec<String>>,
    pub license: Option<String>,
}

/// A plugin's persisted state.
pub struct PluginState {
    pub name: String,
    pub enabled: bool,
    pub granted_permissions: Vec<String>,
    pub version: String,
    pub plugin_type: String,
    pub installed_at: u64,
}

/// A plugin as listed to the caller: manifest plus current state.
pub struct PluginInfo {
    pub name: String,
    pub enabled: bool,
    pub manifest: PluginManifest,
    pub granted_permissions: Vec<String>,
}

/// A now-playing payload for a rich-presence display.
pub struct PresenceData {
    pub song_title: String,
    pub artist: String,
    pub album: Option<String>,
    pub cover_url: Option<String>,
    pub current_time: Option<u64>,
    pub duration: Option<u64>,
    pub is_playing: bool,
    pub listening_text: Option<String>,
}

/// Whether a byte string opens with `http://` or `https://`.
pub open spec fn has_url_scheme(b: Seq<u8>) -> bool {
    ||| (b.len() >= 7 && b.subrange(0, 7) =~= seq![104u8, 116u8, 116u8, 112u8, 58u8, 47u8, 47u8])
    ||| (b.len() >= 8 && b.subrange(0, 8) =~= seq![
        104u8, 116u8, 116u8, 112u8, 115u8, 58u8, 47u8, 47u8,
    ])
}

/// Whether a cover location is a web URL rather than a local path: it
/// must open with `http://` or `https://`.
pub fn is_valid_url(url: &str) -> (r: bool)
    ensures
        r == has_url_scheme(url.spec_bytes()),
{
    let b = url.as_bytes();
    if b.len() >= 8 && b[0] == 104 && b[1] == 116 && b[2] == 116 && b[3] == 112 && b[4] == 115
        && b[5] == 58 && b[6] == 47 && b[7] == 47 {
        proof {
            assert(b@.subrange(0, 8) =~= seq![104u8, 116u8, 116u8, 112u8, 115u8, 58u8, 47u8, 47u8]);
        }
        return true;
    }
    if b.len() >= 7 && b[0] == 104 && b[1] == 116 && b[2] == 116 && b[3] == 112 && b[4] == 58
        && b[5] == 47 && b[6] == 47 {
        proof {
            assert(b@.subrange(0, 7) =~= seq![104u8, 116u8, 116u8, 112u8, 58u8, 47u8, 47u8]);
        }
        return true;
    }
    proof {
        if b@.len() >= 7 && b@.subrange(0, 7) =~= seq![104u8, 116u8, 116u8, 112u8, 58u8, 47u8, 47u8] {
            assert(b@[4] == 58);
        }
        if b@.len() >= 8 && b@.subrange(0, 8) =~= seq![
            104u8, 116u8, 116u8, 112u8, 115u8, 58u8, 47u8, 47u8,
        ] {
            assert(b@[4] == 115);
        }
    }
    false
}

} // verus!
