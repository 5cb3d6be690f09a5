//! The Ui24R session domain: sessions, tracks and channel assignments.
use vstd::prelude::*;
use crate::format::AudioFormat;
use crate::metadata::AudioMetadata;
use crate::text::{decimal, push_decimal};
use vstd::string::*;

verus! {

/// Highest Ui24R input channel index (`i.0` to `i.21`).
pub const MAX_CHANNEL_INDEX: u8 = 21;

/// A Ui24R input channel, `i.0` to `i.21`.
#[derive(Clone, Copy, Debug, PartialEq, Eq, Hash)]
pub struct ChannelAssignment(u8);

impl View for ChannelAssignment {
    type V = u8;

    closed spec fn view(&self) -> u8 {
        self.0
    }
}

impl ChannelAssignment {
    /// Highest Ui24R input channel index.
    pub const MAX_INDEX: u8 = MAX_CHANNEL_INDEX;

    #[verifier::type_invariant]
    spec fn in_range(self) -> bool {
        self.0 <= MAX_CHANNEL_INDEX
    }

    /// The channel with the given index, when it exists on the Ui24R.
    pub fn new(index: u8) -> (res: Option<Self>)
        ensures
            res is Some <==> index <= MAX_CHANNEL_INDEX,
            res matches Some(c) ==> c@ == index,
    {
        if index <= MAX_CHANNEL_INDEX {
            Some(ChannelAssignment(index))
        } else {
            None
        }
    }

    /// The zero-based channel index.
    pub fn index(&self) -> (res: u8)
        ensures
            res == self@,
            res <= MAX_CHANNEL_INDEX,
    {
        proof {
            use_type_invariant(self);
        }
        self.0
    }

    /// The Ui24R routing label of this channel, such as `"i.3"`.
    pub fn label(&self) -> (res: String)
        ensures
            res@ == channel_label(self@),
    {
        let mut out = String::from_str("i.");
        push_decimal(&mut out, self.0 as u64);
        out
    }
}

/// The Ui24R routing label `i.<index>` of a channel index.
pub open spec fn channel_label(index: u8) -> Seq<char> {
    "i."@ + decimal(index as nat)
}

/// The session-wide parameters.
#[derive(Clone, Debug, PartialEq, Eq)]
pub struct SessionMetadata {
    pub name: String,
    pub sample_rate: u32,
    pub duration_samples: u64,
}

/// One audio file of a session and the channel it plays on.
#[derive(Clone, Debug, PartialEq, Eq)]
pub struct AudioTrack {
    pub display_name: String,
    pub file_name: String,
    pub metadata: AudioMetadata,
    pub channel: ChannelAssignment,
}

impl AudioTrack {
    /// The audio format of this track's source.
    pub fn format(&self) -> (res: AudioFormat)
        ensures
            res == self.metadata.format,
    {
        self.metadata.format
    }
}

/// A playback session: its parameters and its tracks in order.
#[derive(Clone, Debug, PartialEq, Eq)]
pub struct Session {
    pub metadata: SessionMetadata,
    pub tracks: Vec<AudioTrack>,
}

} // verus!
