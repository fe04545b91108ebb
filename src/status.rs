//! Track metadata snapshots and the title fallback.
use vstd::prelude::*;
use vstd::string::*;

verus! {

/// What a successful metadata query of a player published, as plain values.
///
/// `path` is a file path or URL of the track, when one is published.
#[derive(Clone, Debug)]
pub struct TrackMetadata {
    pub title: Option<String>,
    pub path: Option<String>,
    pub artists: Option<Vec<String>>,
}

/// A full-replacement snapshot of the active player's track.
#[derive(Clone, Debug)]
pub struct PlayerStatus {
    pub artists: Option<Vec<String>>,
    pub title: Option<String>,
}

/// An event on the update stream.
#[derive(Clone, Debug)]
pub enum MprisUpdate {
    Status(PlayerStatus),
    Finished,
}

/// A message to the display that consumes the update stream.
#[derive(Clone, Debug)]
pub enum Message {
    UpdateTrack(MprisUpdate),
}

/// The text that percent-decoding `s` as UTF-8 gives, or none when the
/// decoded bytes are not UTF-8.
pub uninterp spec fn percent_decoded(s: Seq<char>) -> Option<Seq<char>>;

/// Relies on urlencoding::decode: percent-decodes `s`, failing only when the
/// decoded bytes are not valid UTF-8; text without any `%` comes back as is.
#[verifier::external_body]
fn decode_percent(s: &str) -> (r: Option<String>)
    ensures
        opt_view(r) == percent_decoded(s@),
        !s@.contains('%') ==> opt_view(r) == Some(s@),
{
    match urlencoding::decode(s) {
        Ok(d) => Some(d.into_owned()),
        Err(_) => None,
    }
}

pub open spec fn opt_view(o: Option<String>) -> Option<Seq<char>> {
    match o {
        Some(s) => Some(s@),
        None => None,
    }
}

/// Where the final segment of `p` starts: just after its last `/`, or at 0.
pub open spec fn segment_start(p: Seq<char>) -> int
    decreases p.len(),
{
    if p.len() == 0 {
        0
    } else if p.last() == '/' {
        p.len() as int
    } else {
        segment_start(p.drop_last())
    }
}

/// The text of `p` after its last `/` (all of `p` when it has none).
pub open spec fn final_segment(p: Seq<char>) -> Seq<char> {
    p.subrange(segment_start(p), p.len() as int)
}

/// The title derived from a path: its final segment, percent-decoded. None
/// when there is no path, the segment is empty, or it does not decode.
pub open spec fn fallback_title(path: Option<Seq<char>>) -> Option<Seq<char>> {
    match path {
        None => None,
        Some(p) => if final_segment(p).len() == 0 {
            None
        } else {
            percent_decoded(final_segment(p))
        },
    }
}

/// The explicit title when there is one, else the one derived from the path.
pub open spec fn resolved_title(title: Option<Seq<char>>, path: Option<Seq<char>>) -> Option<
    Seq<char>,
> {
    if title is Some {
        title
    } else {
        fallback_title(path)
    }
}

proof fn lemma_segment_start_bounds(p: Seq<char>)
    ensures
        0 <= segment_start(p) <= p.len(),
    decreases p.len(),
{
    if p.len() > 0 && p.last() != '/' {
        lemma_segment_start_bounds(p.drop_last());
    }
}

/// The final segment of `path`, percent-decoded; none when it is empty or
/// does not decode.
pub fn title_from_path(path: &str) -> (r: Option<String>)
    ensures
        opt_view(r) == fallback_title(Some(path@)),
{
    let n = path.unicode_len();
    let mut i: usize = n;
    assert(path@.subrange(0, n as int) =~= path@);
    while i > 0 && path.get_char(i - 1) != '/'
        invariant
            i <= n == path@.len(),
            segment_start(path@) == segment_start(path@.subrange(0, i as int)),
            forall|j: int| i <= j < n ==> path@[j] != '/',
        decreases i,
    {
        assert(path@.subrange(0, i as int).drop_last() =~= path@.subrange(0, i - 1));
        i = i - 1;
    }
    proof {
        if i > 0 {
            assert(path@.subrange(0, i as int).last() == '/');
        }
        assert(path@.subrange(0, 0) =~= Seq::<char>::empty());
        assert(segment_start(path@) == i);
    }
    if i == n {
        return None;
    }
    let segment = path.substring_char(i, n);
    decode_percent(segment)
}

/// `st` is the snapshot of `m`: its title resolved, its artists exactly as
/// published, in the published order.
pub open spec fn is_snapshot_of(st: PlayerStatus, m: TrackMetadata) -> bool {
    &&& opt_view(st.title) == resolved_title(opt_view(m.title), opt_view(m.path))
    &&& st.artists == m.artists
}

/// With no explicit title and no path segment to derive one from, there is
/// no title; an explicit title is taken verbatim, whatever the path says.
pub proof fn lemma_title_fallback(title: Option<Seq<char>>, path: Option<Seq<char>>)
    ensures
        title is None && (path is None || final_segment(path->Some_0).len() == 0) ==> resolved_title(
            title,
            path,
        ) is None,
        title matches Some(t) ==> resolved_title(title, path) == Some(t),
{
}

/// The artists' names run together, in order.
pub open spec fn joined(names: Seq<String>) -> Seq<char>
    decreases names.len(),
{
    if names.len() == 0 {
        Seq::empty()
    } else {
        joined(names.drop_last()) + names.last()@
    }
}

/// The one-line text of a snapshot: the artists run together, ` - `, and
/// the title; a missing part is left empty.
pub open spec fn track_text(st: PlayerStatus) -> Seq<char> {
    let artists = match st.artists {
        Some(a) => joined(a@),
        None => Seq::empty(),
    };
    let title = match st.title {
        Some(t) => t@,
        None => Seq::empty(),
    };
    artists + seq![' ', '-', ' '] + title
}

impl PlayerStatus {
    /// The snapshot of a metadata query: none when the query failed; else
    /// the explicit title (or the one derived from the path) and the artists
    /// exactly as published.
    pub fn new(metadata: Option<TrackMetadata>) -> (r: Option<PlayerStatus>)
        ensures
            metadata is None <==> r is None,
            metadata matches Some(m) ==> r matches Some(st) && is_snapshot_of(st, m),
    {
        let m = match metadata {
            Some(m) => m,
            None => return None,
        };
        let title = match m.title {
            Some(t) => Some(t),
            None => match &m.path {
                Some(p) => title_from_path(p.as_str()),
                None => None,
            },
        };
        Some(PlayerStatus { artists: m.artists, title })
    }

    /// The one-line text that a display shows for this snapshot.
    pub fn formatted(&self) -> (r: String)
        ensures
            r@ == track_text(*self),
    {
        let mut out = String::new();
        match &self.artists {
            Some(a) => {
                let mut k: usize = 0;
                while k < a.len()
                    invariant
                        k <= a@.len(),
                        out@ == joined(a@.subrange(0, k as int)),
                    decreases a@.len() - k,
                {
                    assert(a@.subrange(0, k + 1).drop_last() =~= a@.subrange(0, k as int));
                    out.append(a[k].as_str());
                    k = k + 1;
                }
                assert(a@.subrange(0, a@.len() as int) =~= a@);
            },
            None => {},
        }
        let sep = " - ";
        proof {
            reveal_strlit(" - ");
        }
        out.append(sep);
        match &self.title {
            Some(t) => out.append(t.as_str()),
            None => {},
        }
        assert(out@ =~= track_text(*self));
        out
    }
}

} // verus!
