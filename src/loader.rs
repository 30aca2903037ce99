//! The search for the card dataset among ordered candidate paths.
//!
//! The search itself touches no file: it is a scanner that names the next
//! path to look at, is told what was found there, and decides whether the
//! search is over. The caller does the looking, one path at a time, so no
//! path is opened after the search has been decided.
use vstd::prelude::*;
use crate::config::{universe_candidates, universe_paths, FALLBACK, PREFERRED};
use crate::text::{is_blank, is_blank_text};

verus! {

/// What was found at one candidate path.
#[derive(Debug, PartialEq, Eq)]
pub enum Probe {
    /// Nothing exists at the path.
    Missing,
    /// Something exists there but could not be opened; the cause, as text.
    OpenFailed(String),
    /// The file was opened but could not be read in full; the cause, as text.
    ReadFailed(String),
    /// The file was read in full: its text.
    Read(String),
}

/// Why no dataset text could be returned.
#[derive(Debug, PartialEq, Eq)]
pub enum LoadError {
    /// No candidate exists, or every one that exists is blank.
    NotFound,
    /// A candidate exists but could not be opened.
    OpenFailure { path: String, cause: String },
    /// A candidate was opened but could not be read.
    ReadFailure { path: String, cause: String },
}

/// The mathematical value of a [`LoadError`].
pub enum LoadFault {
    NotFound,
    OpenFailure { path: Seq<char>, cause: Seq<char> },
    ReadFailure { path: Seq<char>, cause: Seq<char> },
}

impl View for LoadError {
    type V = LoadFault;

    open spec fn view(&self) -> LoadFault {
        match self {
            LoadError::NotFound => LoadFault::NotFound,
            LoadError::OpenFailure { path, cause } => LoadFault::OpenFailure {
                path: path@,
                cause: cause@,
            },
            LoadError::ReadFailure { path, cause } => LoadFault::ReadFailure {
                path: path@,
                cause: cause@,
            },
        }
    }
}

/// The mathematical value of a search result.
pub open spec fn result_view(r: Result<String, LoadError>) -> Result<Seq<char>, LoadFault> {
    match r {
        Ok(text) => Ok(text@),
        Err(e) => Err(e@),
    }
}

/// What one probe decides: `None` where the search goes on to the next
/// candidate (nothing there, or only blank text), else the search's result.
pub open spec fn verdict(path: Seq<char>, p: Probe) -> Option<Result<Seq<char>, LoadFault>> {
    match p {
        Probe::Missing => None,
        Probe::OpenFailed(cause) => Some(Err(LoadFault::OpenFailure { path, cause: cause@ })),
        Probe::ReadFailed(cause) => Some(Err(LoadFault::ReadFailure { path, cause: cause@ })),
        Probe::Read(text) => if is_blank_text(text@) {
            None
        } else {
            Some(Ok(text@))
        },
    }
}

/// Whether a probe ends the search.
pub open spec fn decisive(path: Seq<char>, p: Probe) -> bool {
    verdict(path, p) is Some
}

/// The result of the search over `paths`, where `probes[i]` is what was
/// found at `paths[i]`: the verdict of the first decisive probe, and
/// `NotFound` where there is none.
pub open spec fn outcome(paths: Seq<Seq<char>>, probes: Seq<Probe>) -> Result<
    Seq<char>,
    LoadFault,
>
    decreases paths.len(),
{
    if paths.len() == 0 || probes.len() == 0 {
        Err(LoadFault::NotFound)
    } else {
        match verdict(paths[0], probes[0]) {
            Some(r) => r,
            None => outcome(paths.drop_first(), probes.drop_first()),
        }
    }
}

/// The text of the error for people to read.
pub open spec fn message_of(e: LoadFault) -> Seq<char> {
    match e {
        LoadFault::NotFound => PREFERRED@ + " or "@ + FALLBACK@ + " not found in expected locations"@,
        LoadFault::OpenFailure { path, cause } => "open error "@ + path + ": "@ + cause,
        LoadFault::ReadFailure { path, cause } => "read error "@ + path + ": "@ + cause,
    }
}

impl LoadError {
    /// The error as text: it names the path and the cause, or, where nothing
    /// was found, both dataset filenames.
    pub fn message(&self) -> (r: String)
        ensures
            r@ == message_of(self@),
    {
        match self {
            LoadError::NotFound => {
                let mut m = String::from_str(PREFERRED);
                m.append(" or ");
                m.append(FALLBACK);
                m.append(" not found in expected locations");
                m
            },
            LoadError::OpenFailure { path, cause } => {
                let mut m = String::from_str("open error ");
                m.append(path.as_str());
                m.append(": ");
                m.append(cause.as_str());
                m
            },
            LoadError::ReadFailure { path, cause } => {
                let mut m = String::from_str("read error ");
                m.append(path.as_str());
                m.append(": ");
                m.append(cause.as_str());
                m
            },
        }
    }
}

/// The decision on one probe: `None` where the search goes on, else the
/// search's result.
pub fn decide(path: &String, probe: Probe) -> (r: Option<Result<String, LoadError>>)
    ensures
        match r {
            None => verdict(path@, probe) is None,
            Some(res) => verdict(path@, probe) == Some(result_view(res)),
        },
{
    match probe {
        Probe::Missing => None,
        Probe::OpenFailed(cause) => Some(Err(LoadError::OpenFailure { path: path.clone(), cause })),
        Probe::ReadFailed(cause) => Some(Err(LoadError::ReadFailure { path: path.clone(), cause })),
        Probe::Read(text) => {
            if is_blank(text.as_str()) {
                None
            } else {
                Some(Ok(text))
            }
        },
    }
}

/// What the caller of a [`Loader`] is to do next.
#[derive(Debug, PartialEq, Eq)]
pub enum Step {
    /// Look at this path and report what was found there.
    Probe(String),
    /// The search is over, with this result.
    Done(Result<String, LoadError>),
}

/// A search in progress: the candidate paths, and what was found at each of
/// those looked at so far.
pub struct Loader {
    candidates: Vec<String>,
    pos: usize,
    seen: Ghost<Seq<Probe>>,
}

impl Loader {
    /// The candidate paths, in priority order.
    pub closed spec fn paths(&self) -> Seq<Seq<char>> {
        self.candidates@.map_values(|s: String| s@)
    }

    /// What was found at the first candidates, one probe per path looked at.
    pub closed spec fn seen(&self) -> Seq<Probe> {
        self.seen@
    }

    /// No more probes were taken than there are candidates.
    pub closed spec fn wf(&self) -> bool {
        self.pos == self.seen@.len() <= self.candidates@.len()
    }

    /// The search is not over: a candidate is left, and none looked at so
    /// far decided it.
    pub open spec fn awaiting(&self) -> bool {
        &&& self.wf()
        &&& self.seen().len() < self.paths().len()
        &&& forall|j: int|
            0 <= j < self.seen().len() ==> !#[trigger] decisive(self.paths()[j], self.seen()[j])
    }

    /// The step matches the state of the search: while it is not over, to
    /// look at the next candidate; after that, the result of the search.
    pub open spec fn step_agrees(&self, s: Step) -> bool {
        if self.awaiting() {
            s is Probe && s->Probe_0@ == self.paths()[self.seen().len() as int]
        } else {
            s is Done && result_view(s->Done_0) == outcome(self.paths(), self.seen())
        }
    }

    /// Starts a search over the candidates, in their order, and says what
    /// to do first.
    pub fn begin(candidates: Vec<String>) -> (r: (Loader, Step))
        ensures
            r.0.wf(),
            r.0.paths() == candidates@.map_values(|s: String| s@),
            r.0.seen() == Seq::<Probe>::empty(),
            r.0.step_agrees(r.1),
    {
        let loader = Loader { candidates, pos: 0, seen: Ghost(Seq::empty()) };
        if loader.candidates.len() == 0 {
            (loader, Step::Done(Err(LoadError::NotFound)))
        } else {
            let first = loader.candidates[0].clone();
            (loader, Step::Probe(first))
        }
    }

    /// Starts the search for the card dataset over its candidate locations.
    pub fn for_universe() -> (r: (Loader, Step))
        ensures
            r.0.wf(),
            r.0.paths() == universe_paths(),
            r.0.seen() == Seq::<Probe>::empty(),
            r.0.step_agrees(r.1),
    {
        Loader::begin(universe_candidates())
    }

    /// Takes what was found at the path last asked for, and says what to do
    /// next.
    pub fn observe(&mut self, probe: Probe) -> (r: Step)
        requires
            old(self).awaiting(),
        ensures
            final(self).wf(),
            final(self).paths() == old(self).paths(),
            final(self).seen() == old(self).seen().push(probe),
            final(self).step_agrees(r),
            decisive(old(self).paths()[old(self).seen().len() as int], probe) ==> r is Done
                && verdict(old(self).paths()[old(self).seen().len() as int], probe) == Some(
                result_view(r->Done_0),
            ),
            !decisive(old(self).paths()[old(self).seen().len() as int], probe) ==> (r is Done
                <==> final(self).seen().len() == final(self).paths().len()) && (r is Done
                ==> result_view(r->Done_0) == Err::<Seq<char>, LoadFault>(LoadFault::NotFound)),
    {
        let ghost paths = self.paths();
        let ghost p = probe;
        let ghost seen = self.seen@.push(p);
        let pos = self.pos;
        let n = self.candidates.len();
        assert(pos < n);
        let d = decide(&self.candidates[pos], probe);
        self.seen = Ghost(seen);
        self.pos = pos + 1;
        assert(self.paths() == paths);
        assert(seen[pos as int] == p);
        match d {
            Some(res) => {
                proof {
                    lemma_outcome_skip(paths, seen, pos as int);
                    assert(paths.skip(pos as int)[0] == paths[pos as int]);
                    assert(seen.skip(pos as int)[0] == p);
                    assert(decisive(paths[pos as int], seen[pos as int]));
                    assert(!self.awaiting());
                }
                Step::Done(res)
            },
            None => {
                assert forall|j: int| 0 <= j < seen.len() implies !#[trigger] decisive(
                    paths[j],
                    seen[j],
                ) by {
                    if j < pos {
                        assert(seen[j] == old(self).seen()[j]);
                    }
                }
                if self.pos < self.candidates.len() {
                    let next = self.candidates[self.pos].clone();
                    Step::Probe(next)
                } else {
                    proof {
                        lemma_outcome_skip(paths, seen, pos + 1);
                    }
                    Step::Done(Err(LoadError::NotFound))
                }
            },
        }
    }
}

/// Past a run of candidates none of which decided the search, the result is
/// that of the rest.
proof fn lemma_outcome_skip(paths: Seq<Seq<char>>, probes: Seq<Probe>, k: int)
    requires
        0 <= k <= paths.len(),
        k <= probes.len(),
        forall|j: int| 0 <= j < k ==> !#[trigger] decisive(paths[j], probes[j]),
    ensures
        outcome(paths, probes) == outcome(paths.skip(k), probes.skip(k)),
    decreases k,
{
    if k == 0 {
        assert(paths.skip(0) =~= paths);
        assert(probes.skip(0) =~= probes);
    } else {
        assert(!decisive(paths[0], probes[0]));
        let ps = paths.drop_first();
        let qs = probes.drop_first();
        assert forall|j: int| 0 <= j < k - 1 implies !#[trigger] decisive(ps[j], qs[j]) by {
            assert(ps[j] == paths[j + 1]);
            assert(qs[j] == probes[j + 1]);
            assert(!decisive(paths[j + 1], probes[j + 1]));
        }
        lemma_outcome_skip(ps, qs, k - 1);
        assert(ps.skip(k - 1) =~= paths.skip(k));
        assert(qs.skip(k - 1) =~= probes.skip(k));
    }
}

/// A search that is over has the result that the whole list of probes has,
/// whatever would have been found at the candidates it did not look at.
pub proof fn finished_search_is_final(l: Loader, probes: Seq<Probe>)
    requires
        l.wf(),
        !l.awaiting(),
        probes.len() >= l.seen().len(),
        forall|j: int| 0 <= j < l.seen().len() ==> #[trigger] probes[j] == l.seen()[j],
    ensures
        outcome(l.paths(), l.seen()) == outcome(l.paths(), probes),
{
    let k = l.seen().len() as int;
    assert(l.paths().len() == l.candidates@.len());
    if k < l.paths().len() {
        let j = choose|j: int| 0 <= j < k && decisive(l.paths()[j], l.seen()[j]);
        assert(decisive(l.paths()[j], l.seen()[j]));
    }
    decided_prefix_settles(l.paths(), l.seen(), probes, k);
}

/// Whether `t` occurs in `s` as a run of consecutive characters.
pub open spec fn contains(s: Seq<char>, t: Seq<char>) -> bool {
    exists|i: int| 0 <= i && i + t.len() <= s.len() && #[trigger] s.subrange(i, i + t.len()) == t
}

/// Where nothing exists at any candidate, the search fails with `NotFound`,
/// and its message names both dataset filenames.
pub proof fn nothing_present_is_not_found(paths: Seq<Seq<char>>, probes: Seq<Probe>)
    requires
        probes.len() == paths.len(),
        forall|j: int| 0 <= j < probes.len() ==> #[trigger] probes[j] is Missing,
    ensures
        outcome(paths, probes) == Err::<Seq<char>, LoadFault>(LoadFault::NotFound),
        contains(message_of(LoadFault::NotFound), PREFERRED@),
        contains(message_of(LoadFault::NotFound), FALLBACK@),
{
    assert forall|j: int| 0 <= j < paths.len() implies !#[trigger] decisive(paths[j], probes[j]) by {
        assert(probes[j] is Missing);
    }
    lemma_outcome_skip(paths, probes, paths.len() as int);
    let m = message_of(LoadFault::NotFound);
    let a = PREFERRED@;
    let b = a + " or "@;
    let c = b + FALLBACK@;
    let z: int = 0;
    assert(m.subrange(z, z + a.len()) =~= a);
    assert(m.subrange(b.len() as int, (b.len() + FALLBACK@.len()) as int) =~= FALLBACK@);
}

/// Where the first candidate was read and its text is not blank, the search
/// returns exactly that text, whatever the other candidates hold.
pub proof fn first_readable_wins(paths: Seq<Seq<char>>, probes: Seq<Probe>)
    requires
        paths.len() > 0,
        probes.len() > 0,
        probes[0] is Read,
        !is_blank_text(probes[0]->Read_0@),
    ensures
        outcome(paths, probes) == Ok::<Seq<char>, LoadFault>(probes[0]->Read_0@),
{
}

/// Once a candidate has decided the search, or every candidate was looked
/// at, what any later probe would find makes no difference: the search needs
/// to look no further.
pub proof fn decided_prefix_settles(
    paths: Seq<Seq<char>>,
    probes: Seq<Probe>,
    others: Seq<Probe>,
    k: int,
)
    requires
        0 <= k <= paths.len(),
        k <= probes.len(),
        k <= others.len(),
        forall|j: int| 0 <= j < k ==> #[trigger] others[j] == probes[j],
        k == paths.len() || exists|j: int| 0 <= j < k && #[trigger] decisive(paths[j], probes[j]),
    ensures
        outcome(paths, probes) == outcome(paths, others),
    decreases k,
{
    if k > 0 && !decisive(paths[0], probes[0]) {
        assert(others[0] == probes[0]);
        let ps = paths.drop_first();
        let qs = probes.drop_first();
        let os = others.drop_first();
        assert forall|j: int| 0 <= j < k - 1 implies #[trigger] os[j] == qs[j] by {
            assert(others[j + 1] == probes[j + 1]);
        }
        if k < paths.len() {
            let j0 = choose|j: int| 0 <= j < k && #[trigger] decisive(paths[j], probes[j]);
            assert(j0 != 0);
            assert(ps[j0 - 1] == paths[j0] && qs[j0 - 1] == probes[j0]);
            assert(decisive(ps[j0 - 1], qs[j0 - 1]));
        }
        decided_prefix_settles(ps, qs, os, k - 1);
    } else if k > 0 {
        assert(others[0] == probes[0]);
    }
}

/// A candidate whose text is blank counts as if nothing were there: the
/// search goes on past it.
pub proof fn blank_is_skipped(paths: Seq<Seq<char>>, probes: Seq<Probe>, i: int)
    requires
        0 <= i < probes.len(),
        probes[i] is Read,
        is_blank_text(probes[i]->Read_0@),
    ensures
        outcome(paths, probes) == outcome(paths, probes.update(i, Probe::Missing)),
    decreases i,
{
    let us = probes.update(i, Probe::Missing);
    if paths.len() > 0 {
        if i == 0 {
            assert(us.drop_first() =~= probes.drop_first());
        } else {
            assert(us[0] == probes[0]);
            assert(us.drop_first() =~= probes.drop_first().update(i - 1, Probe::Missing));
            blank_is_skipped(paths.drop_first(), probes.drop_first(), i - 1);
        }
    }
}

/// The search never returns blank text as its result.
pub proof fn found_text_is_not_blank(paths: Seq<Seq<char>>, probes: Seq<Probe>)
    ensures
        outcome(paths, probes) is Ok ==> !is_blank_text(outcome(paths, probes)->Ok_0),
    decreases paths.len(),
{
    if paths.len() > 0 && probes.len() > 0 && !decisive(paths[0], probes[0]) {
        found_text_is_not_blank(paths.drop_first(), probes.drop_first());
    }
}

/// Where the first candidate that exists cannot be opened, the search fails
/// with an open failure that names that path, and no later candidate counts.
pub proof fn open_failure_stops(paths: Seq<Seq<char>>, probes: Seq<Probe>, i: int)
    requires
        0 <= i < paths.len(),
        i < probes.len(),
        forall|j: int| 0 <= j < i ==> #[trigger] probes[j] is Missing,
        probes[i] is OpenFailed,
    ensures
        outcome(paths, probes) == Err::<Seq<char>, LoadFault>(
            LoadFault::OpenFailure { path: paths[i], cause: probes[i]->OpenFailed_0@ },
        ),
{
    assert forall|j: int| 0 <= j < i implies !#[trigger] decisive(paths[j], probes[j]) by {
        assert(probes[j] is Missing);
    }
    lemma_outcome_skip(paths, probes, i);
    assert(paths.skip(i)[0] == paths[i]);
    assert(probes.skip(i)[0] == probes[i]);
}

} // verus!
