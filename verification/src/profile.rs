//! Transcoder profiles as the session manager sees them.

use vstd::prelude::*;

verus! {

/// What a profile does to the input stream.
#[derive(Debug, Clone, Copy, PartialEq, Eq, Structural)]
pub enum ProfileType {
    /// The stream is copied into a new container untouched.
    Transmux,
    /// The stream is re-encoded in software.
    Transcode,
    /// The stream is re-encoded by a hardware encoder.
    HardwareTranscode,
}

/// One transcoder configuration of a profile chain.
#[derive(Debug, Clone)]
pub struct Profile {
    pub tag: String,
    pub profile_type: ProfileType,
}

/// Parameters a profile needs to build the transcoder's arguments.
#[derive(Debug, Clone)]
pub struct ProfileContext {
    /// Path of the input file.
    pub file: String,
    /// Index of the input stream.
    pub stream: usize,
    pub width: Option<i64>,
    pub height: Option<i64>,
    pub bitrate: Option<u64>,
    /// Directory the transcoder writes into.
    pub outdir: String,
    /// Path of the transcoder binary.
    pub ffmpeg_bin: String,
}

/// A chain is direct play when its only profile is a pure remux.
pub open spec fn chain_is_direct_play(chain: Seq<Profile>) -> bool {
    chain.len() == 1 && chain[0].profile_type == ProfileType::Transmux
}

/// Decides whether `chain` is served without re-encoding, see
/// [`chain_is_direct_play`].
pub fn is_direct_play(chain: &Vec<Profile>) -> (r: bool)
    ensures
        r == chain_is_direct_play(chain@),
{
    chain.len() == 1 && chain[0].profile_type == ProfileType::Transmux
}

} // verus!
