use vstd::prelude::*;

verus! {

/// A playable song as the catalog and the daemon describe it.
#[derive(Debug)]
pub struct Track {
    pub id: String,
    pub title: String,
    pub artist: String,
    pub duration_ms: u64,
    pub thumbnail_url: Option<String>,
}

impl Track {
    /// A track with the given identity and length and no artwork.
    pub fn new(id: &str, title: &str, artist: &str, duration_ms: u64) -> (track: Track)
        ensures
            track.id@ == id@,
            track.title@ == title@,
            track.artist@ == artist@,
            track.duration_ms == duration_ms,
            track.thumbnail_url is None,
    {
        Track {
            id: id.to_owned(),
            title: title.to_owned(),
            artist: artist.to_owned(),
            duration_ms,
            thumbnail_url: None,
        }
    }

    /// The same track with its artwork URL set.
    pub fn with_thumbnail(self, url: String) -> (track: Track)
        ensures
            track == (Track { thumbnail_url: Some(url), ..self }),
    {
        Track { thumbnail_url: Some(url), ..self }
    }
}

impl Clone for Track {
    fn clone(&self) -> (copy: Track)
        ensures
            copy == *self,
    {
        Track {
            id: self.id.clone(),
            title: self.title.clone(),
            artist: self.artist.clone(),
            duration_ms: self.duration_ms,
            thumbnail_url: match &self.thumbnail_url {
                Some(url) => Some(url.clone()),
                None => None,
            },
        }
    }
}

impl PartialEq for Track {
    fn eq(&self, other: &Track) -> (same: bool) {
        self.id.eq(&other.id) && self.title.eq(&other.title) && self.artist.eq(&other.artist)
            && self.duration_ms == other.duration_ms && match (&self.thumbnail_url, &other.thumbnail_url) {
                (Some(a), Some(b)) => a.eq(b),
                (None, None) => true,
                _ => false,
            }
    }
}

impl vstd::std_specs::cmp::PartialEqSpecImpl for Track {
    open spec fn obeys_eq_spec() -> bool {
        true
    }

    open spec fn eq_spec(&self, other: &Track) -> bool {
        self.id@ == other.id@ && self.title@ == other.title@ && self.artist@ == other.artist@
            && self.duration_ms == other.duration_ms && match (self.thumbnail_url, other.thumbnail_url) {
                (Some(a), Some(b)) => a@ == b@,
                (None, None) => true,
                _ => false,
            }
    }
}

impl Eq for Track {}

} // verus!
