//! File browser logic: which files count as audio, and the back/forward
//! navigation history. Paths are handled as strings; the filesystem checks
//! happen outside.
use vstd::prelude::*;

verus! {

/// What std's `Path::extension` returns for a path, lossily converted to a
/// string.
pub uninterp spec fn spec_path_extension(path: Seq<char>) -> Option<Seq<char>>;

/// What std's `str::to_lowercase` returns (full Unicode lowercasing).
pub uninterp spec fn spec_lowercase(s: Seq<char>) -> Seq<char>;

/// What std's `Path::file_name` returns for a path, lossily converted to a
/// string.
pub uninterp spec fn spec_path_file_name(path: Seq<char>) -> Option<Seq<char>>;

/// The extension of a path. Calls std's `Path::extension` and converts the
/// result with `to_string_lossy`; the contract only names the result.
#[verifier::external_body]
pub(crate) fn path_extension(path: &str) -> (ext: Option<String>)
    ensures
        match ext {
            Some(e) => spec_path_extension(path@) == Some(e@),
            None => spec_path_extension(path@) is None,
        },
{
    std::path::Path::new(path).extension().map(|e| e.to_string_lossy().into_owned())
}

/// The final component of a path. Calls std's `Path::file_name` and
/// converts the result with `to_string_lossy`; the contract only names the
/// result.
#[verifier::external_body]
pub(crate) fn path_file_name(path: &str) -> (name: Option<String>)
    ensures
        match name {
            Some(n) => spec_path_file_name(path@) == Some(n@),
            None => spec_path_file_name(path@) is None,
        },
{
    std::path::Path::new(path).file_name().map(|n| n.to_string_lossy().into_owned())
}

/// Lowercases a string. Calls std's `str::to_lowercase`; the contract
/// only names the result.
#[verifier::external_body]
pub(crate) fn lowercase(s: &str) -> (lower: String)
    ensures
        lower@ == spec_lowercase(s@),
{
    s.to_lowercase()
}

/// String equality. Calls std's `==` on `str`, which compares the
/// characters.
#[verifier::external_body]
pub(crate) fn str_eq(a: &str, b: &str) -> (eq: bool)
    ensures
        eq == (a@ == b@),
{
    a == b
}

/// The lowercase extensions the browser treats as audio.
pub open spec fn is_audio_extension(ext: Seq<char>) -> bool {
    ||| ext == "wav"@
    ||| ext == "flac"@
    ||| ext == "ogg"@
    ||| ext == "mp3"@
    ||| ext == "aiff"@
    ||| ext == "synth"@
}

/// Whether a path names an audio file: its extension, lowercased, is one
/// of wav, flac, ogg, mp3, aiff or synth.
pub fn is_audio_file(path: &str) -> (audio: bool)
    ensures
        audio == match spec_path_extension(path@) {
            Some(e) => is_audio_extension(spec_lowercase(e)),
            None => false,
        },
{
    match path_extension(path) {
        Some(ext) => {
            let lower = lowercase(ext.as_str());
            let l = lower.as_str();
            str_eq(l, "wav") || str_eq(l, "flac") || str_eq(l, "ogg") || str_eq(l, "mp3")
                || str_eq(l, "aiff") || str_eq(l, "synth")
        },
        None => false,
    }
}

/// What std's `char::is_numeric` returns (whether the character is in one
/// of Unicode's number categories).
pub uninterp spec fn spec_is_numeric(c: char) -> bool;

/// Whether a character is numeric. Calls std's `char::is_numeric`; the
/// contract only names the result.
#[verifier::external_body]
pub(crate) fn is_numeric(c: char) -> (numeric: bool)
    ensures
        numeric == spec_is_numeric(c),
{
    c.is_numeric()
}

/// Position of the first "bpm" in `s` at or after `i`.
pub open spec fn first_bpm_from(s: Seq<char>, i: int) -> Option<int>
    decreases s.len() - i,
{
    if i < 0 || i + 3 > s.len() {
        None
    } else if s[i] == 'b' && s[i + 1] == 'p' && s[i + 2] == 'm' {
        Some(i)
    } else {
        first_bpm_from(s, i + 1)
    }
}

/// The numeric characters at the end of `p` (the longest such suffix).
pub open spec fn numeric_suffix(p: Seq<char>) -> Seq<char>
    decreases p.len(),
{
    if p.len() > 0 && spec_is_numeric(p.last()) {
        numeric_suffix(p.drop_last()).push(p.last())
    } else {
        Seq::empty()
    }
}

/// The last maximal run of numeric characters in `p` (empty when there is
/// none).
pub open spec fn last_numeric_run(p: Seq<char>) -> Seq<char>
    decreases p.len(),
{
    if p.len() == 0 {
        Seq::empty()
    } else if spec_is_numeric(p.last()) {
        numeric_suffix(p)
    } else {
        last_numeric_run(p.drop_last())
    }
}

/// The tempo digits of a sample's file name: in the lowercased name, the
/// last run of numeric characters before the first "bpm".
pub open spec fn spec_bpm_digits(name: Seq<char>) -> Option<Seq<char>> {
    let lower = spec_lowercase(name);
    match first_bpm_from(lower, 0) {
        Some(i) => {
            let run = last_numeric_run(lower.take(i));
            if run.len() > 0 { Some(run) } else { None }
        },
        None => None,
    }
}

/// The characters of a string.
fn chars_of(s: &str) -> (v: Vec<char>)
    ensures
        v@ == s@,
{
    broadcast use vstd::string::axiom_spec_iter;
    let mut v: Vec<char> = Vec::new();
    for c in it: s.chars()
        invariant
            v@ == it.seq().take(it.index() as int),
    {
        v.push(c);
        assert(v@ =~= it.seq().take(it.index() + 1));
    }
    assert(v@ =~= s@);
    v
}

/// Position of the first "bpm" in `cs`.
fn find_bpm(cs: &Vec<char>) -> (pos: Option<usize>)
    ensures
        match pos {
            Some(p) => first_bpm_from(cs@, 0) == Some(p as int) && p + 3 <= cs@.len(),
            None => first_bpm_from(cs@, 0) is None,
        },
{
    let mut i: usize = 0;
    while i < cs.len() && cs.len() - i >= 3
        invariant
            i <= cs@.len(),
            first_bpm_from(cs@, 0) == first_bpm_from(cs@, i as int),
        decreases cs@.len() - i,
    {
        if cs[i] == 'b' && cs[i + 1] == 'p' && cs[i + 2] == 'm' {
            return Some(i);
        }
        i += 1;
    }
    None
}

/// The tempo digits of a sample's file name (e.g. "120" in
/// "Drums_120BPM.wav"): the last run of numeric characters before the
/// first "bpm" of the lowercased name; `None` without "bpm" or without
/// digits before it.
pub fn bpm_digits_in_name(name: &str) -> (digits: Option<Vec<char>>)
    ensures
        match spec_bpm_digits(name@) {
            Some(run) => digits is Some && digits->0@ == run,
            None => digits is None,
        },
{
    let lower = lowercase(name);
    let cs = chars_of(lower.as_str());
    let end = match find_bpm(&cs) {
        Some(p) => p,
        None => { return None; },
    };
    let ghost s = cs@;
    // Skip the non-numeric characters right before the match.
    let mut j: usize = end;
    while j > 0 && !is_numeric(cs[j - 1])
        invariant
            j <= end <= s.len(),
            cs@ == s,
            last_numeric_run(s.take(end as int)) == last_numeric_run(s.take(j as int)),
        decreases j,
    {
        assert(s.take(j as int).drop_last() =~= s.take(j - 1));
        j -= 1;
    }
    // Walk back over the numeric run ending at `j`.
    let mut k: usize = j;
    while k > 0 && is_numeric(cs[k - 1])
        invariant
            k <= j <= s.len(),
            cs@ == s,
            numeric_suffix(s.take(j as int)) == numeric_suffix(s.take(k as int)) + s.subrange(k as int, j as int),
        decreases k,
    {
        assert(s.take(k as int).drop_last() =~= s.take(k - 1));
        assert(s.subrange(k - 1, j as int) =~= seq![s[k - 1]] + s.subrange(k as int, j as int));
        assert(numeric_suffix(s.take(k as int)) == numeric_suffix(s.take(k - 1)).push(s[k - 1]));
        assert(numeric_suffix(s.take(k - 1)).push(s[k - 1]) + s.subrange(k as int, j as int)
            =~= numeric_suffix(s.take(k - 1)) + s.subrange(k - 1, j as int));
        k -= 1;
    }
    assert(numeric_suffix(s.take(k as int)) =~= Seq::<char>::empty());
    assert(numeric_suffix(s.take(j as int)) =~= s.subrange(k as int, j as int));
    if j > 0 {
        assert(s.take(j as int).last() == s[j - 1]);
        assert(last_numeric_run(s.take(j as int)) == numeric_suffix(s.take(j as int)));
    } else {
        assert(s.take(0) =~= Seq::<char>::empty());
    }
    assert(s == spec_lowercase(name@));
    assert(first_bpm_from(s, 0) == Some(end as int));
    assert(last_numeric_run(s.take(end as int)) =~= s.subrange(k as int, j as int));
    if k == j {
        return None;
    }
    let mut run: Vec<char> = Vec::new();
    let mut m: usize = k;
    while m < j
        invariant
            k <= m <= j <= s.len(),
            cs@ == s,
            run@ == s.subrange(k as int, m as int),
        decreases j - m,
    {
        run.push(cs[m]);
        assert(run@ =~= s.subrange(k as int, m + 1));
        m += 1;
    }
    Some(run)
}

/// A location and the back/forward stacks of a browser.
pub struct NavigationHistory<P> {
    pub current: P,
    pub history_back: Vec<P>,
    pub history_forward: Vec<P>,
}

impl<P> NavigationHistory<P> {
    /// A history at `start` with nothing behind or ahead.
    pub fn new(start: P) -> (h: NavigationHistory<P>)
        ensures
            h.current == start,
            h.history_back@.len() == 0,
            h.history_forward@.len() == 0,
    {
        NavigationHistory { current: start, history_back: Vec::new(), history_forward: Vec::new() }
    }

    /// Goes to a new location: the current one is pushed on the back stack
    /// and the forward stack is cleared.
    pub fn navigate_to(&mut self, new_location: P)
        ensures
            final(self).current == new_location,
            final(self).history_back@ == old(self).history_back@.push(old(self).current),
            final(self).history_forward@.len() == 0,
    {
        let mut loc = new_location;
        std::mem::swap(&mut self.current, &mut loc);
        self.history_back.push(loc);
        self.history_forward.clear();
    }

    /// Goes back one step (if possible): the current location moves to the
    /// forward stack.
    pub fn go_back(&mut self)
        ensures
            old(self).history_back@.len() == 0 ==> final(self).current == old(self).current
                && final(self).history_back@ == old(self).history_back@
                && final(self).history_forward@ == old(self).history_forward@,
            old(self).history_back@.len() > 0 ==> {
                &&& final(self).current == old(self).history_back@.last()
                &&& final(self).history_back@ == old(self).history_back@.drop_last()
                &&& final(self).history_forward@ == old(self).history_forward@.push(old(self).current)
            },
    {
        if let Some(prev) = self.history_back.pop() {
            let mut loc = prev;
            std::mem::swap(&mut self.current, &mut loc);
            self.history_forward.push(loc);
        }
    }

    /// Goes forward one step (if possible): the current location moves to
    /// the back stack.
    pub fn go_forward(&mut self)
        ensures
            old(self).history_forward@.len() == 0 ==> final(self).current == old(self).current
                && final(self).history_back@ == old(self).history_back@
                && final(self).history_forward@ == old(self).history_forward@,
            old(self).history_forward@.len() > 0 ==> {
                &&& final(self).current == old(self).history_forward@.last()
                &&& final(self).history_forward@ == old(self).history_forward@.drop_last()
                &&& final(self).history_back@ == old(self).history_back@.push(old(self).current)
            },
    {
        if let Some(next) = self.history_forward.pop() {
            let mut loc = next;
            std::mem::swap(&mut self.current, &mut loc);
            self.history_back.push(loc);
        }
    }
}

/// Going back and then forward returns to the same location with the same
/// stacks (when there was somewhere to go back to): the steps below are
/// the ones `go_back` and `go_forward` state.
pub proof fn lemma_back_forward_roundtrip<P>(cur: P, back: Seq<P>, fwd: Seq<P>)
    requires
        back.len() > 0,
    ensures
        ({
            let cur1 = back.last();
            let back1 = back.drop_last();
            let fwd1 = fwd.push(cur);
            let cur2 = fwd1.last();
            let fwd2 = fwd1.drop_last();
            let back2 = back1.push(cur1);
            cur2 == cur && fwd2 == fwd && back2 == back
        }),
{
    assert(back.drop_last().push(back.last()) =~= back);
    assert(fwd.push(cur).drop_last() =~= fwd);
}

} // verus!
