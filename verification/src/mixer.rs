//! Mixer channel strips and their two-way sync with the session view's
//! track list: the mixer holds the master strip at 0 and one strip per
//! session track; a mute or solo changed on either side reaches the other
//! side and the engine.
use vstd::prelude::*;
use crate::session::{SessionMatrixState, TrackMeta};
use crate::settings::PanMode;
use crate::names::{numbered_label, spec_decimal};

verus! {

/// A mixer channel strip; `mix` holds its volume and pan.
pub struct MixerStrip<V> {
    pub id: usize,
    pub name: String,
    pub pan_mode: PanMode,
    pub mute: bool,
    pub solo: bool,
    pub is_master: bool,
    pub route_destination_id: usize,
    /// The session track this strip mirrors (`None` for the master).
    pub matrix_idx: Option<usize>,
    pub mix: V,
}

impl<V> MixerStrip<V> {
    /// A strip in stereo, unmuted, not soloed, routed to the master.
    pub fn new(id: usize, name: String, is_master: bool, mix: V) -> (s: MixerStrip<V>)
        ensures
            s.id == id,
            s.name == name,
            s.is_master == is_master,
            s.mix == mix,
            !s.mute && !s.solo,
            s.pan_mode == PanMode::Stereo,
            s.route_destination_id == 0,
            s.matrix_idx is None,
    {
        MixerStrip {
            id,
            name,
            pan_mode: PanMode::Stereo,
            mute: false,
            solo: false,
            is_master,
            route_destination_id: 0,
            matrix_idx: None,
            mix,
        }
    }
}

/// Which side of a two-way sync a value comes from.
#[derive(Clone, Copy, Debug, PartialEq, Eq, Structural)]
pub enum SyncSource {
    /// Neither side changed: both keep what they hold.
    Unchanged,
    /// Only the session side changed: the mixer takes its value.
    Matrix,
    /// The mixer changed (it wins when both did): the session side takes
    /// its value.
    Mixer,
}

pub open spec fn spec_sync_source(matrix_changed: bool, mixer_changed: bool) -> SyncSource {
    if matrix_changed && !mixer_changed {
        SyncSource::Matrix
    } else if mixer_changed {
        SyncSource::Mixer
    } else {
        SyncSource::Unchanged
    }
}

/// The side a value is synced from, given which sides changed since the
/// last sync.
pub fn sync_source(matrix_changed: bool, mixer_changed: bool) -> (s: SyncSource)
    ensures
        s == spec_sync_source(matrix_changed, mixer_changed),
{
    if matrix_changed && !mixer_changed {
        SyncSource::Matrix
    } else if mixer_changed {
        SyncSource::Mixer
    } else {
        SyncSource::Unchanged
    }
}

/// A track flag the engine must be told of (track index of the session).
#[derive(Clone, Copy, Debug, PartialEq, Eq, Structural)]
pub enum TrackCommand {
    SetMute { track_idx: usize, mute: bool },
    SetSolo { track_idx: usize, solo: bool },
}

/// A flag (`solo`, else mute) of a snapshot entry; `false` past its end.
pub open spec fn flag_of(olds: Seq<(bool, bool)>, i: int, solo: bool) -> bool {
    if 0 <= i < olds.len() {
        if solo { olds[i].1 } else { olds[i].0 }
    } else {
        false
    }
}

/// A flag synced both ways: (session value, mixer value, engine told).
pub open spec fn flag_sync(mx_now: bool, mx_old: bool, mix_now: bool, mix_old: bool) -> (bool, bool, bool) {
    match spec_sync_source(mx_now != mx_old, mix_now != mix_old) {
        SyncSource::Matrix => (mx_now, mx_now, true),
        SyncSource::Mixer => (mix_now, mix_now, true),
        SyncSource::Unchanged => (mx_now, mix_now, false),
    }
}

/// Whether the strip list already starts with the master.
pub open spec fn master_kept<V>(live: Seq<MixerStrip<V>>) -> bool {
    live.len() > 0 && live[0].is_master
}

/// How far the strips move when a master has to be put in front.
pub open spec fn master_shift<V>(live: Seq<MixerStrip<V>>) -> int {
    if master_kept(live) { 0 } else { 1 }
}

/// Whether mixer strip `k` (1-based over the session tracks) was there
/// before the sync; otherwise it is created for track `k - 1`.
pub open spec fn strip_existed<V>(live: Seq<MixerStrip<V>>, k: int) -> bool {
    k - master_shift(live) < live.len()
}

/// A flag of mixer strip `k` before the flags are synced.
pub open spec fn pre_flag<V>(live: Seq<MixerStrip<V>>, tracks: Seq<TrackMeta<V>>, k: int, solo: bool) -> bool {
    if strip_existed(live, k) {
        let s = live[k - master_shift(live)];
        if solo { s.solo } else { s.mute }
    } else {
        if solo { tracks[k - 1].soloed } else { tracks[k - 1].muted }
    }
}

/// The synced flag of session track `i` and its mixer strip `i + 1`.
pub open spec fn track_flag_sync<V>(live: Seq<MixerStrip<V>>, tracks: Seq<TrackMeta<V>>,
    old_matrix: Seq<(bool, bool)>, old_mixer: Seq<(bool, bool)>, i: int, solo: bool) -> (bool, bool, bool)
{
    let mx_now = if solo { tracks[i].soloed } else { tracks[i].muted };
    flag_sync(mx_now, flag_of(old_matrix, i, solo), pre_flag(live, tracks, i + 1, solo), flag_of(old_mixer, i + 1, solo))
}

/// What the engine is told for track `i`: its mute, then its solo, each
/// when it was synced from a changed side.
pub open spec fn track_commands<V>(live: Seq<MixerStrip<V>>, tracks: Seq<TrackMeta<V>>,
    old_matrix: Seq<(bool, bool)>, old_mixer: Seq<(bool, bool)>, i: int) -> Seq<TrackCommand>
{
    let m = track_flag_sync(live, tracks, old_matrix, old_mixer, i, false);
    let s = track_flag_sync(live, tracks, old_matrix, old_mixer, i, true);
    (if m.2 { seq![TrackCommand::SetMute { track_idx: i as usize, mute: m.1 }] } else { Seq::empty() })
        + (if s.2 { seq![TrackCommand::SetSolo { track_idx: i as usize, solo: s.1 }] } else { Seq::empty() })
}

/// What the engine is told for the first `n` tracks, in track order.
pub open spec fn sync_commands<V>(live: Seq<MixerStrip<V>>, tracks: Seq<TrackMeta<V>>,
    old_matrix: Seq<(bool, bool)>, old_mixer: Seq<(bool, bool)>, n: int) -> Seq<TrackCommand>
    decreases n,
{
    if n <= 0 {
        Seq::empty()
    } else {
        sync_commands(live, tracks, old_matrix, old_mixer, n - 1) + track_commands(live, tracks, old_matrix, old_mixer, n - 1)
    }
}

/// Strip `q` keeps the identity of strip `p` (all but name, link and flags).
pub open spec fn same_identity<V>(q: MixerStrip<V>, p: MixerStrip<V>) -> bool {
    &&& q.id == p.id
    &&& q.is_master == p.is_master
    &&& q.pan_mode == p.pan_mode
    &&& q.route_destination_id == p.route_destination_id
    &&& q.mix == p.mix
}

/// Strip `q` is a strip created for session track `k - 1`.
pub open spec fn fresh_identity<V>(q: MixerStrip<V>, tracks: Seq<TrackMeta<V>>, k: int) -> bool {
    &&& q.id == k
    &&& !q.is_master
    &&& q.pan_mode == PanMode::Stereo
    &&& q.route_destination_id == 0
    &&& q.mix == tracks[k - 1].mix
}

/// Strip `q` has the identity mixer strip `k` gets from the sync.
pub open spec fn identity_of<V>(q: MixerStrip<V>, live: Seq<MixerStrip<V>>, tracks: Seq<TrackMeta<V>>, k: int) -> bool {
    if strip_existed(live, k) {
        same_identity(q, live[k - master_shift(live)])
    } else {
        fresh_identity(q, tracks, k)
    }
}

/// Strip `q` is mixer strip `k` before its flags are synced.
pub open spec fn pre_strip<V>(q: MixerStrip<V>, live: Seq<MixerStrip<V>>, tracks: Seq<TrackMeta<V>>, k: int) -> bool {
    &&& identity_of(q, live, tracks, k)
    &&& q.mute == pre_flag(live, tracks, k, false)
    &&& q.solo == pre_flag(live, tracks, k, true)
}

/// Strip `q` is mixer strip `k` after the sync.
pub open spec fn synced_strip<V>(q: MixerStrip<V>, live: Seq<MixerStrip<V>>, tracks: Seq<TrackMeta<V>>,
    old_matrix: Seq<(bool, bool)>, old_mixer: Seq<(bool, bool)>, k: int) -> bool
{
    &&& identity_of(q, live, tracks, k)
    &&& q.name@ == tracks[k - 1].name@
    &&& q.matrix_idx == Some((k - 1) as usize)
    &&& q.mute == track_flag_sync(live, tracks, old_matrix, old_mixer, k - 1, false).1
    &&& q.solo == track_flag_sync(live, tracks, old_matrix, old_mixer, k - 1, true).1
}

/// Track `t` is session track `i` after the sync.
pub open spec fn synced_track<V>(t: TrackMeta<V>, live: Seq<MixerStrip<V>>, tracks: Seq<TrackMeta<V>>,
    old_matrix: Seq<(bool, bool)>, old_mixer: Seq<(bool, bool)>, i: int) -> bool
{
    &&& t.name == tracks[i].name
    &&& t.mix == tracks[i].mix
    &&& t.muted == track_flag_sync(live, tracks, old_matrix, old_mixer, i, false).0
    &&& t.soloed == track_flag_sync(live, tracks, old_matrix, old_mixer, i, true).0
}

/// The master strip after the sync: the old one when the list started
/// with it, else a new one named "MASTER" with `master_mix`.
pub open spec fn synced_master<V>(q: MixerStrip<V>, live: Seq<MixerStrip<V>>, master_mix: V) -> bool {
    &&& q.is_master
    &&& q.matrix_idx is None
    &&& master_kept(live) ==> same_identity(q, live[0]) && q.name == live[0].name
        && q.mute == live[0].mute && q.solo == live[0].solo
    &&& !master_kept(live) ==> q.id == 0 && q.name@ == "MASTER"@ && q.mix == master_mix
        && !q.mute && !q.solo && q.pan_mode == PanMode::Stereo && q.route_destination_id == 0
}

/// The flag of a synced pair, read from the side it came from.
fn synced_flag(mx_now: bool, mx_old: bool, mix_now: bool, mix_old: bool) -> (r: (bool, bool, bool))
    ensures
        r == flag_sync(mx_now, mx_old, mix_now, mix_old),
{
    match sync_source(mx_now != mx_old, mix_now != mix_old) {
        SyncSource::Matrix => (mx_now, mx_now, true),
        SyncSource::Mixer => (mix_now, mix_now, true),
        SyncSource::Unchanged => (mx_now, mix_now, false),
    }
}

/// A snapshot flag (`solo`, else mute); `false` past the snapshot's end.
fn snapshot_flag(olds: &Vec<(bool, bool)>, i: usize, solo: bool) -> (f: bool)
    ensures
        f == flag_of(olds@, i as int, solo),
{
    if i < olds.len() {
        if solo { olds[i].1 } else { olds[i].0 }
    } else {
        false
    }
}

/// Two-way sync of the mixer strips with the session tracks, given the
/// flags (mute, solo) both sides held after the previous sync.
///
/// The master strip is put in front when missing; the strip list is then
/// cut or extended to one strip per session track after the master (new
/// strips take the track's flags and mixer values). Each strip takes its
/// track's name and link, and each mute and solo is synced from the side
/// that changed (the mixer when both did). Every synced flag is returned
/// as an engine command, in track order, mute before solo.
pub fn sync_matrix_mixer<D, V: Copy>(
    live: &mut Vec<MixerStrip<V>>,
    matrix: &mut SessionMatrixState<D, V>,
    old_matrix: &Vec<(bool, bool)>,
    old_mixer: &Vec<(bool, bool)>,
    master_mix: V,
) -> (cmds: Vec<TrackCommand>)
    requires
        old(matrix).tracks@.len() < usize::MAX,
    ensures
        final(live)@.len() == old(matrix).tracks@.len() + 1,
        synced_master(final(live)@[0], old(live)@, master_mix),
        forall|k: int| 1 <= k <= old(matrix).tracks@.len() ==>
            #[trigger] synced_strip(final(live)@[k], old(live)@, old(matrix).tracks@, old_matrix@, old_mixer@, k),
        final(matrix).tracks@.len() == old(matrix).tracks@.len(),
        forall|i: int| 0 <= i < old(matrix).tracks@.len() ==>
            #[trigger] synced_track(final(matrix).tracks@[i], old(live)@, old(matrix).tracks@, old_matrix@, old_mixer@, i),
        final(matrix).grid == old(matrix).grid,
        final(matrix).scenes == old(matrix).scenes,
        final(matrix).next_clip_id == old(matrix).next_clip_id,
        final(matrix).selected_slot == old(matrix).selected_slot,
        cmds@ == sync_commands(old(live)@, old(matrix).tracks@, old_matrix@, old_mixer@, old(matrix).tracks@.len() as int),
{
    let ghost l0 = live@;
    let ghost tr = matrix.tracks@;
    let n = matrix.tracks.len();

    // The master strip leads the list.
    if live.len() == 0 || !live[0].is_master {
        live.insert(0, MixerStrip::new(0, "MASTER".to_owned(), true, master_mix));
    }
    live[0].matrix_idx = None;
    let ghost p0 = live@;
    assert(p0.len() == l0.len() + master_shift(l0));
    assert(forall|k: int| 1 <= k < p0.len() ==> #[trigger] p0[k] == l0[k - master_shift(l0)]);

    // One strip per session track after the master.
    live.truncate(n + 1);
    let ghost p1 = live@;
    assert(forall|k: int| 1 <= k < p1.len() ==> #[trigger] p1[k] == l0[k - master_shift(l0)]);
    assert(forall|k: int| 1 <= k <= n ==> (k < p1.len() <==> #[trigger] strip_existed(l0, k)));
    while live.len() < n + 1
        invariant
            n == tr.len(),
            n < usize::MAX,
            matrix.tracks@ == tr,
            p1.len() <= live@.len() <= n + 1,
            live@[0] == p1[0],
            forall|k: int| 1 <= k < p1.len() ==> #[trigger] live@[k] == l0[k - master_shift(l0)],
            forall|k: int| 1 <= k <= n ==> (k < p1.len() <==> #[trigger] strip_existed(l0, k)),
            forall|k: int| p1.len() <= k < live@.len() ==> #[trigger] pre_strip(live@[k], l0, tr, k),
            p1.len() >= 1,
        decreases n + 1 - live@.len(),
    {
        let idx = live.len() - 1;
        let name = matrix.tracks[idx].name.clone();
        let strip = MixerStrip {
            id: idx + 1,
            name,
            pan_mode: PanMode::Stereo,
            mute: matrix.tracks[idx].muted,
            solo: matrix.tracks[idx].soloed,
            is_master: false,
            route_destination_id: 0,
            matrix_idx: Some(idx),
            mix: matrix.tracks[idx].mix,
        };
        live.push(strip);
    }
    let ghost q = live@;
    assert(forall|k: int| 1 <= k <= n ==> #[trigger] pre_strip(q[k], l0, tr, k)) by {
        assert forall|k: int| 1 <= k <= n implies #[trigger] pre_strip(q[k], l0, tr, k) by {
            if k < p1.len() {
                assert(strip_existed(l0, k));
                assert(q[k] == l0[k - master_shift(l0)]);
            }
        }
    }

    // Names, links and flags, track by track.
    let mut cmds: Vec<TrackCommand> = Vec::new();
    let mut i: usize = 0;
    while i < n
        invariant
            n == tr.len(),
            n < usize::MAX,
            i <= n,
            live@.len() == n + 1,
            live@[0] == q[0],
            forall|k: int| i + 1 <= k <= n ==> #[trigger] live@[k] == q[k],
            forall|k: int| 1 <= k <= n ==> #[trigger] pre_strip(q[k], l0, tr, k),
            forall|k: int| 1 <= k <= i ==>
                #[trigger] synced_strip(live@[k], l0, tr, old_matrix@, old_mixer@, k),
            matrix.tracks@.len() == n,
            forall|j: int| i <= j < n ==> #[trigger] matrix.tracks@[j] == tr[j],
            forall|j: int| 0 <= j < i ==>
                #[trigger] synced_track(matrix.tracks@[j], l0, tr, old_matrix@, old_mixer@, j),
            matrix.grid == old(matrix).grid,
            matrix.scenes == old(matrix).scenes,
            matrix.next_clip_id == old(matrix).next_clip_id,
            matrix.selected_slot == old(matrix).selected_slot,
            cmds@ == sync_commands(l0, tr, old_matrix@, old_mixer@, i as int),
        decreases n - i,
    {
        let k = i + 1;
        assert(pre_strip(q[k as int], l0, tr, k as int));
        let mute = synced_flag(matrix.tracks[i].muted, snapshot_flag(old_matrix, i, false),
            live[k].mute, snapshot_flag(old_mixer, k, false));
        let solo = synced_flag(matrix.tracks[i].soloed, snapshot_flag(old_matrix, i, true),
            live[k].solo, snapshot_flag(old_mixer, k, true));
        let name = matrix.tracks[i].name.clone();
        live[k].name = name;
        live[k].matrix_idx = Some(i);
        live[k].mute = mute.1;
        live[k].solo = solo.1;
        matrix.tracks[i].muted = mute.0;
        matrix.tracks[i].soloed = solo.0;
        let ghost before = cmds@;
        if mute.2 {
            cmds.push(TrackCommand::SetMute { track_idx: i, mute: mute.1 });
        }
        if solo.2 {
            cmds.push(TrackCommand::SetSolo { track_idx: i, solo: solo.1 });
        }
        assert(cmds@ =~= before + track_commands(l0, tr, old_matrix@, old_mixer@, i as int));
        assert(synced_strip(live@[k as int], l0, tr, old_matrix@, old_mixer@, k as int));
        assert(synced_track(matrix.tracks@[i as int], l0, tr, old_matrix@, old_mixer@, i as int));
        i += 1;
    }
    cmds
}

/// A flag that changed on either side since the snapshot ends up the same
/// on both sides, and the engine is told that value; a flag unchanged on
/// both sides is left alone and the engine is told nothing.
pub proof fn lemma_changed_flag_reaches_both_sides(mx_now: bool, mx_old: bool, mix_now: bool, mix_old: bool)
    ensures
        (mx_now != mx_old || mix_now != mix_old) ==> ({
            let r = flag_sync(mx_now, mx_old, mix_now, mix_old);
            r.0 == r.1 && r.2
        }),
        (mix_now != mix_old) ==> flag_sync(mx_now, mx_old, mix_now, mix_old).1 == mix_now,
        (mx_now != mx_old && mix_now == mix_old) ==> flag_sync(mx_now, mx_old, mix_now, mix_old).0 == mx_now
            && flag_sync(mx_now, mx_old, mix_now, mix_old).1 == mx_now,
        (mx_now == mx_old && mix_now == mix_old) ==> flag_sync(mx_now, mx_old, mix_now, mix_old) == (mx_now, mix_now, false),
{
}

/// Syncing a settled pair (the master in front, one strip per track, and
/// snapshots equal to what both sides hold) changes no flag and tells the
/// engine nothing: a second sync right after a first one is quiet.
pub proof fn lemma_settled_sync_is_quiet<V>(live: Seq<MixerStrip<V>>, tracks: Seq<TrackMeta<V>>,
    old_matrix: Seq<(bool, bool)>, old_mixer: Seq<(bool, bool)>, n: int)
    requires
        live.len() == tracks.len() + 1,
        live[0].is_master,
        old_matrix.len() == tracks.len(),
        forall|i: int| 0 <= i < tracks.len() ==> #[trigger] old_matrix[i] == (tracks[i].muted, tracks[i].soloed),
        old_mixer.len() == live.len(),
        forall|k: int| 0 <= k < live.len() ==> #[trigger] old_mixer[k] == (live[k].mute, live[k].solo),
        0 <= n <= tracks.len(),
    ensures
        sync_commands(live, tracks, old_matrix, old_mixer, n) == Seq::<TrackCommand>::empty(),
        forall|i: int| 0 <= i < tracks.len() ==>
            #[trigger] track_flag_sync(live, tracks, old_matrix, old_mixer, i, false) == (tracks[i].muted, live[i + 1].mute, false)
            && track_flag_sync(live, tracks, old_matrix, old_mixer, i, true) == (tracks[i].soloed, live[i + 1].solo, false),
    decreases n,
{
    assert forall|i: int| 0 <= i < tracks.len() implies
        #[trigger] track_flag_sync(live, tracks, old_matrix, old_mixer, i, false) == (tracks[i].muted, live[i + 1].mute, false)
        && track_flag_sync(live, tracks, old_matrix, old_mixer, i, true) == (tracks[i].soloed, live[i + 1].solo, false) by {
        assert(master_kept(live));
        assert(strip_existed(live, i + 1));
        assert(old_matrix[i] == (tracks[i].muted, tracks[i].soloed));
        assert(old_mixer[i + 1] == (live[i + 1].mute, live[i + 1].solo));
    }
    if n > 0 {
        lemma_settled_sync_is_quiet(live, tracks, old_matrix, old_mixer, n - 1);
        let m = track_flag_sync(live, tracks, old_matrix, old_mixer, n - 1, false);
        assert(!m.2);
        assert(track_commands(live, tracks, old_matrix, old_mixer, n - 1) =~= Seq::<TrackCommand>::empty());
        assert(sync_commands(live, tracks, old_matrix, old_mixer, n) =~= Seq::<TrackCommand>::empty());
    }
}

/// `s` with the items at `i` and `j` exchanged.
pub open spec fn swapped<T>(s: Seq<T>, i: int, j: int) -> Seq<T> {
    s.update(i, s[j]).update(j, s[i])
}

/// The strips and the selection after Left: with Shift the selected strip
/// moves one place left (never onto the master's place), else the
/// selection moves left.
pub open spec fn after_left<V>(s: Seq<MixerStrip<V>>, sel: int, shift: bool) -> (Seq<MixerStrip<V>>, int) {
    if shift {
        if sel > 1 { (swapped(s, sel, sel - 1), sel - 1) } else { (s, sel) }
    } else if sel > 0 {
        (s, sel - 1)
    } else {
        (s, sel)
    }
}

/// The strips and the selection after Right: with Shift the selected strip
/// (not the master) moves one place right, else the selection moves right.
pub open spec fn after_right<V>(s: Seq<MixerStrip<V>>, sel: int, shift: bool) -> (Seq<MixerStrip<V>>, int) {
    if shift {
        if sel > 0 && sel < s.len() - 1 { (swapped(s, sel, sel + 1), sel + 1) } else { (s, sel) }
    } else if sel < s.len() - 1 {
        (s, sel + 1)
    } else {
        (s, sel)
    }
}

/// The largest strip id (0 without strips).
pub open spec fn max_strip_id<V>(s: Seq<MixerStrip<V>>) -> int
    decreases s.len(),
{
    if s.len() == 0 {
        0
    } else {
        let m = max_strip_id(s.drop_last());
        if s.last().id > m { s.last().id as int } else { m }
    }
}

/// `max_strip_id` is the largest id of the strips: no strip has a larger
/// one, and some strip has exactly it (when there is any strip).
pub proof fn lemma_max_strip_id_is_largest<V>(s: Seq<MixerStrip<V>>)
    ensures
        max_strip_id(s) >= 0,
        forall|i: int| 0 <= i < s.len() ==> #[trigger] s[i].id <= max_strip_id(s),
        s.len() > 0 ==> exists|i: int| 0 <= i < s.len() && #[trigger] s[i].id == max_strip_id(s),
    decreases s.len(),
{
    if s.len() > 0 {
        let p = s.drop_last();
        lemma_max_strip_id_is_largest(p);
        assert forall|i: int| 0 <= i < s.len() implies #[trigger] s[i].id <= max_strip_id(s) by {
            if i < p.len() {
                assert(s[i] == p[i]);
            }
        }
        if s.last().id > max_strip_id(p) {
            assert(s[s.len() - 1].id == max_strip_id(s));
        } else if p.len() > 0 {
            let i = choose|i: int| 0 <= i < p.len() && #[trigger] p[i].id == max_strip_id(p);
            assert(s[i] == p[i]);
        } else {
            assert(s[0].id == max_strip_id(s));
        }
    }
}

/// The label of a new mixer track: "Track " and its number, padded to two
/// digits.
pub open spec fn strip_label(n: nat) -> Seq<char> {
    "Track "@ + (if n < 10 { "0"@ } else { Seq::empty() }) + spec_decimal(n)
}

/// The arrow keys of a frame in the mixer (Left handled before Right).
/// Returns the new selection.
pub fn navigate_strips<V>(strips: &mut Vec<MixerStrip<V>>, selected: usize, left: bool, right: bool, shift: bool)
    -> (sel: usize)
    requires
        right ==> old(strips)@.len() > 0,
        left && shift && selected > 1 ==> selected < old(strips)@.len(),
    ensures
        ({
            let l = if left { after_left(old(strips)@, selected as int, shift) } else { (old(strips)@, selected as int) };
            let r = if right { after_right(l.0, l.1, shift) } else { l };
            final(strips)@ == r.0 && sel == r.1
        }),
{
    let mut sel = selected;
    if left {
        if shift {
            if sel > 1 {
                let moved = strips.remove(sel);
                strips.insert(sel - 1, moved);
                assert(strips@ =~= swapped(old(strips)@, selected as int, selected - 1));
                sel = sel - 1;
            }
        } else if sel > 0 {
            sel = sel - 1;
        }
    }
    let ghost mid = strips@;
    if right {
        let last = strips.len() - 1;
        if shift {
            if sel > 0 && sel < last {
                let moved = strips.remove(sel);
                strips.insert(sel + 1, moved);
                assert(strips@ =~= swapped(mid, sel as int, sel + 1));
                sel = sel + 1;
            }
        } else if sel < last {
            sel = sel + 1;
        }
    }
    sel
}

/// Appends a track strip with the next id (one above the largest) and
/// the label "Track NN". Returns its id.
pub fn add_strip<V>(strips: &mut Vec<MixerStrip<V>>, mix: V) -> (id: usize)
    requires
        max_strip_id(old(strips)@) < usize::MAX,
    ensures
        id == max_strip_id(old(strips)@) + 1,
        forall|i: int| 0 <= i < old(strips)@.len() ==> #[trigger] old(strips)@[i].id < id,
        final(strips)@.len() == old(strips)@.len() + 1,
        final(strips)@.drop_last() == old(strips)@,
        final(strips)@.last().id == id,
        final(strips)@.last().name@ == strip_label(id as nat),
        !final(strips)@.last().is_master,
        !final(strips)@.last().mute && !final(strips)@.last().solo,
        final(strips)@.last().pan_mode == PanMode::Stereo,
        final(strips)@.last().route_destination_id == 0,
        final(strips)@.last().matrix_idx is None,
        final(strips)@.last().mix == mix,
{
    let mut m: usize = 0;
    let mut i: usize = 0;
    assert(strips@.take(0) =~= Seq::<MixerStrip<V>>::empty());
    while i < strips.len()
        invariant
            i <= strips@.len(),
            m == max_strip_id(strips@.take(i as int)),
        decreases strips@.len() - i,
    {
        assert(strips@.take(i + 1).drop_last() =~= strips@.take(i as int));
        assert(strips@.take(i + 1).last() == strips@[i as int]);
        if strips[i].id > m {
            m = strips[i].id;
        }
        i += 1;
    }
    assert(strips@.take(strips@.len() as int) =~= strips@);
    proof {
        lemma_max_strip_id_is_largest(strips@);
    }
    let id = m + 1;
    let name = if id < 10 { numbered_label("Track 0", id) } else { numbered_label("Track ", id) };
    proof {
        reveal_strlit("Track 0");
        reveal_strlit("Track ");
        reveal_strlit("0");
        assert(name@ =~= strip_label(id as nat));
    }
    let ghost before = strips@;
    strips.push(MixerStrip::new(id, name, false, mix));
    assert(strips@.drop_last() =~= before);
    id
}

/// Removes the last strip when more than one is left; the selection is
/// kept on an existing strip. Returns the new selection.
pub fn remove_last_strip<V>(strips: &mut Vec<MixerStrip<V>>, selected: usize) -> (sel: usize)
    ensures
        old(strips)@.len() > 1 ==> final(strips)@ == old(strips)@.drop_last()
            && sel == (if selected >= final(strips)@.len() { (final(strips)@.len() - 1) as usize } else { selected }),
        old(strips)@.len() <= 1 ==> final(strips)@ == old(strips)@ && sel == selected,
{
    if strips.len() > 1 {
        let _ = strips.pop();
        if selected >= strips.len() {
            return strips.len() - 1;
        }
    }
    selected
}

/// Moving strips with Shift and the arrows never displaces the first strip
/// (the master's place), whatever the selection.
pub proof fn lemma_master_stays_first<V>(s: Seq<MixerStrip<V>>, sel: int, shift: bool)
    requires
        s.len() > 0,
        0 <= sel < s.len(),
    ensures
        after_left(s, sel, shift).0.len() == s.len(),
        after_left(s, sel, shift).0[0] == s[0],
        after_right(s, sel, shift).0.len() == s.len(),
        after_right(s, sel, shift).0[0] == s[0],
{
}

} // verus!
