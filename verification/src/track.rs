//! The track entity: one pending item of a playback queue, immutable once
//! constructed, together with the normalization that fills metadata fields
//! the resolver did not supply with a literal placeholder.

use vstd::prelude::*;

verus! {

/// Metadata fields as the external metadata resolver reports them: any
/// string field may be absent, and the two time spans are optional
/// millisecond counts.
pub struct ResolvedFields {
    pub title: Option<String>,
    pub thumbnail: Option<String>,
    pub artist: Option<String>,
    pub channel: Option<String>,
    pub date: Option<String>,
    pub source_url: Option<String>,
    pub duration_ms: Option<u64>,
    pub starttime_ms: Option<u64>,
}

/// One queued track. Ownership passes fully to the queue on enqueue.
pub struct Track {
    pub requester: String,
    pub url: String,
    pub title: String,
    pub thumbnail: String,
    pub artist: String,
    pub channel: String,
    pub date: String,
    pub duration_ms: Option<u64>,
    pub starttime_ms: Option<u64>,
}

/// What an absent metadata field is displayed as.
pub open spec fn spec_placeholder() -> Seq<char> {
    seq!['N', 'o', 'n', 'e']
}

/// The value of an optional field after normalization: the field itself if
/// present, the placeholder otherwise.
pub open spec fn spec_or_placeholder(field: Option<String>) -> Seq<char> {
    match field {
        Some(s) => s@,
        None => spec_placeholder(),
    }
}

/// Returns the string itself when present, the literal placeholder when not.
pub fn match_else_none(input: &Option<String>) -> (r: String)
    ensures
        r@ == spec_or_placeholder(*input),
{
    match input {
        Some(n) => n.clone(),
        None => {
            let r = String::from_str("None");
            proof {
                reveal_strlit("None");
            }
            r
        },
    }
}

/// A track built for `requester` out of `fields` carries each string field
/// normalized and the time spans as given.
pub open spec fn spec_track_of(requester: Seq<char>, fields: ResolvedFields, t: Track) -> bool {
    &&& t.requester@ == requester
    &&& t.url@ == spec_or_placeholder(fields.source_url)
    &&& t.title@ == spec_or_placeholder(fields.title)
    &&& t.thumbnail@ == spec_or_placeholder(fields.thumbnail)
    &&& t.artist@ == spec_or_placeholder(fields.artist)
    &&& t.channel@ == spec_or_placeholder(fields.channel)
    &&& t.date@ == spec_or_placeholder(fields.date)
    &&& t.duration_ms == fields.duration_ms
    &&& t.starttime_ms == fields.starttime_ms
}

impl Track {
    /// Assembles a track from resolver output, substituting the placeholder
    /// for every field the resolver did not supply.
    pub fn from_fields(requester: &String, fields: &ResolvedFields) -> (t: Track)
        ensures
            spec_track_of(requester@, *fields, t),
    {
        Track {
            requester: requester.clone(),
            url: match_else_none(&fields.source_url),
            title: match_else_none(&fields.title),
            thumbnail: match_else_none(&fields.thumbnail),
            artist: match_else_none(&fields.artist),
            channel: match_else_none(&fields.channel),
            date: match_else_none(&fields.date),
            duration_ms: fields.duration_ms,
            starttime_ms: fields.starttime_ms,
        }
    }
}

impl Clone for Track {
    /// A cloned track equals the original.
    fn clone(&self) -> (r: Track)
        ensures
            r == *self,
    {
        Track {
            requester: self.requester.clone(),
            url: self.url.clone(),
            title: self.title.clone(),
            thumbnail: self.thumbnail.clone(),
            artist: self.artist.clone(),
            channel: self.channel.clone(),
            date: self.date.clone(),
            duration_ms: self.duration_ms,
            starttime_ms: self.starttime_ms,
        }
    }
}

} // verus!
