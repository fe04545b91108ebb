//! Scoring of player handles and choice of the active one.
use vstd::prelude::*;

verus! {

/// Playback state that a remote player reports.
#[derive(Clone, Copy, Debug, PartialEq, Eq, Structural)]
pub enum PlaybackStatus {
    Playing,
    Paused,
    Stopped,
    Unknown,
}

/// What one survey of a handle found out.
///
/// `status` is `None` when the status query failed. `metadata_ok` records
/// whether the metadata query succeeded; it is only consulted for a handle
/// that is playing or paused (the metadata of other handles is never asked).
#[derive(Clone, Copy, Debug, PartialEq, Eq, Structural)]
pub struct HandleReport {
    pub status: Option<PlaybackStatus>,
    pub metadata_ok: bool,
}

pub const PLAYING_SCORE: u32 = 100;

pub const PAUSED_SCORE: u32 = 10;

pub open spec fn is_playing(r: HandleReport) -> bool {
    r.status == Some(PlaybackStatus::Playing)
}

pub open spec fn is_paused(r: HandleReport) -> bool {
    r.status == Some(PlaybackStatus::Paused)
}

/// Playing scores 100, paused 10, anything else (a failed query included) 0;
/// a playing or paused handle whose metadata could be read gets one more.
pub open spec fn score_of(r: HandleReport) -> nat {
    let bonus: nat = if r.metadata_ok { 1 } else { 0 };
    if is_playing(r) {
        100 + bonus
    } else if is_paused(r) {
        10 + bonus
    } else {
        0
    }
}

/// Index `i` holds the first strictly positive maximum score of `s`.
pub open spec fn is_best(s: Seq<HandleReport>, i: int) -> bool {
    &&& 0 <= i < s.len()
    &&& score_of(s[i]) > 0
    &&& forall|j: int| 0 <= j < i ==> #[trigger] score_of(s[j]) < score_of(s[i])
    &&& forall|j: int| 0 <= j < s.len() ==> #[trigger] score_of(s[j]) <= score_of(s[i])
}

/// The active handle among `s`: the first one with the highest positive
/// score, or none when every score is zero.
pub open spec fn active_choice(s: Seq<HandleReport>) -> Option<int> {
    if exists|i: int| is_best(s, i) {
        Some(choose|i: int| is_best(s, i))
    } else {
        None
    }
}

/// Whether the metadata of a handle with this status is worth querying.
pub fn wants_metadata(status: Option<PlaybackStatus>) -> (r: bool)
    ensures
        r == (status == Some(PlaybackStatus::Playing) || status == Some(PlaybackStatus::Paused)),
{
    match status {
        Some(PlaybackStatus::Playing) | Some(PlaybackStatus::Paused) => true,
        _ => false,
    }
}

/// The score of one surveyed handle.
pub fn score(report: &HandleReport) -> (r: u32)
    ensures
        r == score_of(*report),
{
    let base: u32 = match report.status {
        Some(PlaybackStatus::Playing) => PLAYING_SCORE,
        Some(PlaybackStatus::Paused) => PAUSED_SCORE,
        _ => return 0,
    };
    if report.metadata_ok {
        base + 1
    } else {
        base
    }
}

pub proof fn lemma_best_unique(s: Seq<HandleReport>, i: int, j: int)
    requires
        is_best(s, i),
        is_best(s, j),
    ensures
        i == j,
{
    if i < j {
        assert(score_of(s[i]) < score_of(s[j]));
        assert(score_of(s[i]) <= score_of(s[j]));
    } else if j < i {
        assert(score_of(s[j]) < score_of(s[i]));
    }
}

proof fn lemma_choice_is(s: Seq<HandleReport>, i: int)
    requires
        is_best(s, i),
    ensures
        active_choice(s) == Some(i),
{
    let k = choose|k: int| is_best(s, k);
    lemma_best_unique(s, i, k);
}

/// Picks the active handle among the surveyed ones, by index: the first
/// handle with the highest positive score. Later handles with an equal score
/// never displace an earlier one; when no handle scores above zero, none is
/// picked.
pub fn get_active_player(reports: &Vec<HandleReport>) -> (r: Option<usize>)
    ensures
        r matches Some(i) ==> is_best(reports@, i as int),
        r is None <==> forall|j: int| 0 <= j < reports@.len() ==> score_of(#[trigger] reports@[j]) == 0,
        r matches Some(i) ==> active_choice(reports@) == Some(i as int),
        r is None ==> active_choice(reports@) is None,
{
    let mut best_score: u32 = 0;
    let mut best: Option<usize> = None;
    let mut k: usize = 0;
    while k < reports.len()
        invariant
            k <= reports@.len(),
            best is None ==> best_score == 0,
            best is None ==> forall|j: int| 0 <= j < k ==> score_of(#[trigger] reports@[j]) == 0,
            best matches Some(b) ==> {
                &&& b < k
                &&& best_score == score_of(reports@[b as int])
                &&& best_score > 0
                &&& forall|j: int| 0 <= j < b ==> #[trigger] score_of(reports@[j]) < best_score
                &&& forall|j: int| 0 <= j < k ==> #[trigger] score_of(reports@[j]) <= best_score
            },
        decreases reports@.len() - k,
    {
        let v = score(&reports[k]);
        if v > best_score {
            best_score = v;
            best = Some(k);
        }
        k = k + 1;
    }
    match best {
        Some(b) => {
            proof {
                lemma_choice_is(reports@, b as int);
            }
        },
        None => {
            assert(!exists|i: int| is_best(reports@, i));
        },
    }
    best
}

/// When exactly one handle is playing, it is the active one, wherever it
/// stands in the list.
pub proof fn lemma_single_playing_is_chosen(s: Seq<HandleReport>, i: int)
    requires
        0 <= i < s.len(),
        is_playing(s[i]),
        forall|j: int| 0 <= j < s.len() && j != i ==> !is_playing(#[trigger] s[j]),
    ensures
        active_choice(s) == Some(i),
{
    assert forall|j: int| 0 <= j < s.len() && j != i implies #[trigger] score_of(s[j]) < score_of(
        s[i],
    ) by {
        assert(!is_playing(s[j]));
    }
    assert(is_best(s, i));
    lemma_choice_is(s, i);
}

/// When several handles are playing, the first of them in list order is the
/// active one, provided it does not lose the metadata tie-break: that is, it
/// exposes metadata or no playing handle does.
pub proof fn lemma_first_playing_is_chosen(s: Seq<HandleReport>, i: int)
    requires
        0 <= i < s.len(),
        is_playing(s[i]),
        forall|j: int| 0 <= j < i ==> !is_playing(#[trigger] s[j]),
        s[i].metadata_ok || forall|j: int|
            0 <= j < s.len() && is_playing(#[trigger] s[j]) ==> !s[j].metadata_ok,
    ensures
        active_choice(s) == Some(i),
{
    assert forall|j: int| 0 <= j < s.len() implies #[trigger] score_of(s[j]) <= score_of(s[i]) by {
        if is_playing(s[j]) && !s[i].metadata_ok {
            assert(!s[j].metadata_ok);
        }
    }
    assert forall|j: int| 0 <= j < i implies #[trigger] score_of(s[j]) < score_of(s[i]) by {
        assert(!is_playing(s[j]));
    }
    assert(is_best(s, i));
    lemma_choice_is(s, i);
}

/// When no handle is playing or paused (each is stopped, unknown, or failed
/// to answer), no handle is active.
pub proof fn lemma_nothing_playing_chooses_none(s: Seq<HandleReport>)
    requires
        forall|j: int| 0 <= j < s.len() ==> !is_playing(#[trigger] s[j]) && !is_paused(s[j]),
    ensures
        active_choice(s) is None,
{
    assert forall|i: int| !is_best(s, i) by {
        if 0 <= i < s.len() {
            assert(!is_playing(s[i]) && !is_paused(s[i]));
        }
    }
}

/// Choosing again over handles whose state has not changed (every handle
/// scores as before) picks the same handle.
pub proof fn lemma_choice_is_stable(a: Seq<HandleReport>, b: Seq<HandleReport>)
    requires
        a.len() == b.len(),
        forall|j: int| 0 <= j < a.len() ==> score_of(#[trigger] a[j]) == score_of(b[j]),
    ensures
        active_choice(a) == active_choice(b),
{
    assert forall|i: int| is_best(a, i) <==> is_best(b, i) by {
        if 0 <= i < a.len() {
            assert forall|j: int| 0 <= j < a.len() implies #[trigger] score_of(b[j]) == score_of(
                a[j],
            ) by {
                assert(score_of(a[j]) == score_of(b[j]));
            }
        }
    }
    if exists|i: int| is_best(a, i) {
        let i = choose|i: int| is_best(a, i);
        lemma_choice_is(a, i);
        lemma_choice_is(b, i);
    }
}

} // verus!
