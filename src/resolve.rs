use vstd::prelude::*;

use crate::chart::{entries_view, retain_valid, valid_only, ChartDate, ChartEntry, EntryView};
use crate::text::{decimal, push_decimal};

verus! {

/// How many years on each side of the chart year a search accepts.
pub const YEAR_TOLERANCE: i64 = 2;

/// How many candidates one search asks for.
pub const RESULT_LIMIT: u32 = 3;

/// The search text for an entry: the title, then the artist filter, then the
/// year-range filter.
pub open spec fn query_text(e: EntryView, year: int) -> Seq<char> {
    e.title + " artist:"@ + e.artist + " year:"@ + decimal(year - YEAR_TOLERANCE) + seq!['-']
        + decimal(year + YEAR_TOLERANCE)
}

/// Builds the search text for an entry of the chart of `year`.
pub fn search_query(entry: &ChartEntry, year: i32) -> (r: String)
    ensures
        r@ == query_text(entry@, year as int),
{
    let mut s = String::from_str(entry.title.as_str());
    s.append(" artist:");
    s.append(entry.artist.as_str());
    s.append(" year:");
    push_decimal(&mut s, year as i64 - YEAR_TOLERANCE);
    s.append("-");
    push_decimal(&mut s, year as i64 + YEAR_TOLERANCE);
    proof {
        reveal_strlit(" artist:");
        reveal_strlit(" year:");
        reveal_strlit("-");
    }
    assert(s@ =~= query_text(entry@, year as int));
    s
}

/// What one catalog search answered.
pub enum SearchOutcome {
    /// The candidate tracks, best first, each with its identifier where the
    /// catalog record holds one.
    Tracks(Vec<Option<String>>),
    /// This one query failed; the run goes on.
    QueryFailed,
    /// The search service could not be reached or refused the credential.
    Fatal,
}

/// The identifier that an answer resolves its entry to: that of the first
/// candidate, where there is one and it has an identifier.
pub open spec fn first_id(o: SearchOutcome) -> Option<Seq<char>> {
    match o {
        SearchOutcome::Tracks(v) => if v@.len() > 0 {
            match v@[0] {
                Some(id) => Some(id@),
                None => None,
            }
        } else {
            None
        },
        _ => None,
    }
}

pub open spec fn is_fatal(o: SearchOutcome) -> bool {
    o is Fatal
}

/// Takes the identifier of the first candidate of an answer, if any.
pub fn select_track(outcome: &SearchOutcome) -> (r: Option<String>)
    ensures
        r matches Some(id) ==> first_id(*outcome) == Some(id@),
        r is None ==> first_id(*outcome) is None,
{
    match outcome {
        SearchOutcome::Tracks(v) => {
            if v.len() > 0 {
                match &v[0] {
                    Some(id) => Some(id.clone()),
                    None => None,
                }
            } else {
                None
            }
        },
        _ => None,
    }
}

/// Tells a failed search apart: without an answer from the service (`None`),
/// or with a refused credential (401, 403), the run cannot go on; any other
/// status fails this one query only.
pub fn classify_failure(status: Option<u16>) -> (r: SearchOutcome)
    ensures
        r is Fatal <==> (status is None || status == Some(401u16) || status == Some(403u16)),
        r is QueryFailed <==> !(r is Fatal),
{
    match status {
        None => SearchOutcome::Fatal,
        Some(c) => if c == 401 || c == 403 {
            SearchOutcome::Fatal
        } else {
            SearchOutcome::QueryFailed
        },
    }
}

/// A chart entry resolved to a catalog track.
pub struct ResolvedTrack {
    /// The catalog identifier of the track.
    pub id: String,
    /// The position of the entry among the searched entries.
    pub index: usize,
    pub entry: ChartEntry,
}

pub struct ResolvedView {
    pub id: Seq<char>,
    pub index: int,
    pub entry: EntryView,
}

impl View for ResolvedTrack {
    type V = ResolvedView;

    open spec fn view(&self) -> ResolvedView {
        ResolvedView { id: self.id@, index: self.index as int, entry: self.entry@ }
    }
}

pub open spec fn resolved_view(v: Seq<ResolvedTrack>) -> Seq<ResolvedView> {
    v.map_values(|t: ResolvedTrack| t@)
}

/// The tracks that the answers to the first searches resolve, in search order.
pub open spec fn resolution(entries: Seq<EntryView>, outcomes: Seq<SearchOutcome>) -> Seq<ResolvedView>
    decreases outcomes.len(),
{
    if outcomes.len() == 0 {
        seq![]
    } else {
        let k = outcomes.len() - 1;
        let prev = resolution(entries, outcomes.drop_last());
        match first_id(outcomes.last()) {
            Some(id) => prev.push(ResolvedView { id, index: k, entry: entries[k] }),
            None => prev,
        }
    }
}

/// The entries whose search answered with no usable track, in search order.
pub open spec fn skipped(entries: Seq<EntryView>, outcomes: Seq<SearchOutcome>) -> Seq<EntryView>
    decreases outcomes.len(),
{
    if outcomes.len() == 0 {
        seq![]
    } else {
        let k = outcomes.len() - 1;
        let prev = skipped(entries, outcomes.drop_last());
        if first_id(outcomes.last()) is None && !is_fatal(outcomes.last()) {
            prev.push(entries[k])
        } else {
            prev
        }
    }
}

/// The resolved tracks of a finished pass and the entries it skipped.
pub struct Resolution {
    pub tracks: Vec<ResolvedTrack>,
    pub skipped: Vec<ChartEntry>,
}

/// A search failed in a way that ends the pass.
#[derive(Debug, PartialEq, Eq, Structural, Clone, Copy)]
pub struct SearchTransportError {
    /// The position of the entry whose search failed.
    pub index: usize,
}

/// The decisions of one resolution pass. It hands out the next search to run
/// and takes its answer; entries are searched one at a time, in chart order.
pub struct Resolver {
    entries: Vec<ChartEntry>,
    year: i32,
    next: usize,
    halted: bool,
    tracks: Vec<ResolvedTrack>,
    skipped: Vec<ChartEntry>,
    outcomes: Ghost<Seq<SearchOutcome>>,
}

impl Resolver {
    /// The entries to be searched, in chart order.
    pub closed spec fn entries(&self) -> Seq<EntryView> {
        entries_view(self.entries@)
    }

    pub closed spec fn year(&self) -> int {
        self.year as int
    }

    /// The answers taken so far, one per searched entry.
    pub closed spec fn outcomes(&self) -> Seq<SearchOutcome> {
        self.outcomes@
    }

    pub closed spec fn halted(&self) -> bool {
        self.halted
    }

    pub closed spec fn wf(&self) -> bool {
        &&& self.next as int == self.outcomes@.len()
        &&& self.outcomes@.len() <= self.entries@.len()
        &&& self.halted == (self.outcomes@.len() > 0 && is_fatal(self.outcomes@.last()))
        &&& resolved_view(self.tracks@) == resolution(self.entries(), self.outcomes@)
        &&& entries_view(self.skipped@) == skipped(self.entries(), self.outcomes@)
    }

    /// Whether a search is still to run: the pass has not halted and some
    /// entry has not been searched.
    pub open spec fn pending_spec(&self) -> bool {
        !self.halted() && self.outcomes().len() < self.entries().len()
    }

    /// Starts a pass over the entries of a chart, without those that cannot be
    /// searched for.
    pub fn new(entries: &Vec<ChartEntry>, date: &ChartDate) -> (r: Resolver)
        ensures
            r.wf(),
            r.entries() == valid_only(entries_view(entries@)),
            r.year() == date.year,
            r.outcomes().len() == 0,
            !r.halted(),
            r.outcomes().len() <= r.entries().len(),
    {
        let kept = retain_valid(entries);
        let r = Resolver {
            entries: kept,
            year: date.year,
            next: 0,
            halted: false,
            tracks: Vec::new(),
            skipped: Vec::new(),
            outcomes: Ghost(Seq::empty()),
        };
        assert(resolved_view(r.tracks@) =~= seq![]);
        assert(entries_view(r.skipped@) =~= seq![]);
        r
    }

    /// Whether a search is still to run.
    pub fn pending(&self) -> (r: bool)
        requires
            self.wf(),
        ensures
            r == self.pending_spec(),
    {
        !self.halted && self.next < self.entries.len()
    }

    /// The search to run next: its text, or `None` when the pass is over.
    pub fn next_query(&self) -> (r: Option<String>)
        requires
            self.wf(),
        ensures
            r is Some <==> self.pending_spec(),
            r matches Some(q) ==> q@ == query_text(self.entries()[self.outcomes().len() as int], self.year()),
    {
        if self.pending() {
            Some(search_query(&self.entries[self.next], self.year))
        } else {
            None
        }
    }

    /// Takes the answer to the pending search. Once the pass is over, an
    /// answer changes nothing.
    pub fn record(&mut self, outcome: SearchOutcome)
        requires
            old(self).wf(),
        ensures
            final(self).wf(),
            final(self).outcomes().len() <= final(self).entries().len(),
            final(self).entries() == old(self).entries(),
            final(self).year() == old(self).year(),
            old(self).pending_spec() ==> final(self).outcomes() == old(self).outcomes().push(outcome),
            !old(self).pending_spec() ==> final(self).outcomes() == old(self).outcomes(),
            old(self).pending_spec() ==> final(self).halted() == is_fatal(outcome),
            !old(self).pending_spec() ==> final(self).halted() == old(self).halted(),
    {
        if !self.pending() {
            return;
        }
        let k = self.next;
        assert(self.entries().len() == self.entries@.len());
        assert(k < self.entries.len());
        let ghost before = self.outcomes@;
        let ghost ents = self.entries();
        let picked = select_track(&outcome);
        let fatal = matches!(outcome, SearchOutcome::Fatal);
        match picked {
            Some(id) => {
                let e = &self.entries[k];
                let entry = ChartEntry { title: e.title.clone(), artist: e.artist.clone() };
                let ghost prev = self.tracks@;
                self.tracks.push(ResolvedTrack { id, index: k, entry });
                assert(resolved_view(self.tracks@) =~= resolved_view(prev).push(self.tracks@[prev.len() as int]@));
            },
            None => {
                if !fatal {
                    let e = &self.entries[k];
                    let ghost prev = self.skipped@;
                    self.skipped.push(ChartEntry { title: e.title.clone(), artist: e.artist.clone() });
                    assert(entries_view(self.skipped@) =~= entries_view(prev).push(ents[k as int]));
                }
            },
        }
        self.next = k + 1;
        self.halted = fatal;
        self.outcomes = Ghost(before.push(outcome));
        assert(self.outcomes@.drop_last() =~= before);
    }

    /// Ends the pass: the resolved tracks and the skipped entries, or the
    /// failure that halted it.
    pub fn finish(self) -> (r: Result<Resolution, SearchTransportError>)
        requires
            self.wf(),
        ensures
            r is Err <==> self.halted(),
            r matches Err(e) ==> e.index + 1 == self.outcomes().len(),
            r matches Ok(res) ==> resolved_view(res.tracks@) == resolution(self.entries(), self.outcomes())
                && entries_view(res.skipped@) == skipped(self.entries(), self.outcomes()),
    {
        if self.halted {
            Err(SearchTransportError { index: self.next - 1 })
        } else {
            Ok(Resolution { tracks: self.tracks, skipped: self.skipped })
        }
    }
}

/// Resolution keeps chart order: the resolved tracks come from distinct
/// searched entries in strictly increasing position, each carries the entry it
/// was searched for, and its identifier is the first candidate of that answer.
pub proof fn lemma_resolution_in_chart_order(entries: Seq<EntryView>, outcomes: Seq<SearchOutcome>)
    requires
        outcomes.len() <= entries.len(),
    ensures
        ({
            let r = resolution(entries, outcomes);
            &&& forall|i: int, j: int| 0 <= i < j < r.len() ==> r[i].index < r[j].index
            &&& forall|i: int|
                0 <= i < r.len() ==> {
                    &&& 0 <= #[trigger] r[i].index < outcomes.len()
                    &&& r[i].entry == entries[r[i].index]
                    &&& first_id(outcomes[r[i].index]) == Some(r[i].id)
                }
        }),
    decreases outcomes.len(),
{
    if outcomes.len() > 0 {
        let prev = outcomes.drop_last();
        lemma_resolution_in_chart_order(entries, prev);
        let k = outcomes.len() - 1;
        let r0 = resolution(entries, prev);
        assert(forall|i: int| 0 <= i < prev.len() ==> prev[i] == outcomes[i]);
        assert(forall|i: int| 0 <= i < r0.len() ==> r0[i].index < k);
    }
}

/// A search that finds no usable track adds nothing to the resolved tracks,
/// and the entry is reported as skipped.
pub proof fn lemma_no_match_is_skipped(entries: Seq<EntryView>, outcomes: Seq<SearchOutcome>, o: SearchOutcome)
    requires
        outcomes.len() < entries.len(),
        first_id(o) is None,
        !is_fatal(o),
    ensures
        resolution(entries, outcomes.push(o)) == resolution(entries, outcomes),
        skipped(entries, outcomes.push(o)) == skipped(entries, outcomes).push(entries[outcomes.len() as int]),
{
    assert(outcomes.push(o).drop_last() =~= outcomes);
}

/// A pass that a failed transport halted hands out no further search.
pub proof fn lemma_halted_pass_searches_no_more(r: Resolver)
    requires
        r.wf(),
        r.halted(),
    ensures
        !r.pending_spec(),
{
}

/// A well-formed pass has taken at most one answer per entry, and it is
/// halted exactly when its last answer was a transport failure.
pub proof fn lemma_pass_bounds(r: Resolver)
    requires
        r.wf(),
    ensures
        r.outcomes().len() <= r.entries().len(),
        r.halted() == (r.outcomes().len() > 0 && is_fatal(r.outcomes().last())),
{
}

/// How many answers resolve their entry to a track.
pub open spec fn found_count(outcomes: Seq<SearchOutcome>) -> nat
    decreases outcomes.len(),
{
    if outcomes.len() == 0 {
        0
    } else {
        found_count(outcomes.drop_last()) + if first_id(outcomes.last()) is Some {
            1nat
        } else {
            0nat
        }
    }
}

/// Without a transport failure, every answer either resolves its entry or
/// skips it: the tracks are as many as the answers with a track, the skipped
/// entries as many as the rest.
pub proof fn lemma_resolved_and_skipped_count(entries: Seq<EntryView>, outcomes: Seq<SearchOutcome>)
    requires
        outcomes.len() <= entries.len(),
        forall|i: int| 0 <= i < outcomes.len() ==> !is_fatal(#[trigger] outcomes[i]),
    ensures
        resolution(entries, outcomes).len() == found_count(outcomes),
        skipped(entries, outcomes).len() + found_count(outcomes) == outcomes.len(),
    decreases outcomes.len(),
{
    if outcomes.len() > 0 {
        let p = outcomes.drop_last();
        assert forall|i: int| 0 <= i < p.len() implies !is_fatal(#[trigger] p[i]) by {
            assert(p[i] == outcomes[i]);
        }
        lemma_resolved_and_skipped_count(entries, p);
        assert(!is_fatal(outcomes[outcomes.len() - 1]));
    }
}

} // verus!