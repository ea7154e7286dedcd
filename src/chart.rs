use vstd::prelude::*;

use crate::text::{decimal, lemma_trimmed_twice, push_decimal, trim_text, trimmed};

verus! {

/// The week of a chart: a year and the month and day as they are written.
pub struct ChartDate {
    pub year: i32,
    pub month: String,
    pub day: String,
}

/// One ranked line of a chart; its rank is its position in the sequence.
pub struct ChartEntry {
    pub title: String,
    pub artist: String,
}

/// The title and artist of an entry as text.
pub struct EntryView {
    pub title: Seq<char>,
    pub artist: Seq<char>,
}

impl View for ChartEntry {
    type V = EntryView;

    open spec fn view(&self) -> EntryView {
        EntryView { title: self.title@, artist: self.artist@ }
    }
}

/// The views of a sequence of entries.
pub open spec fn entries_view(v: Seq<ChartEntry>) -> Seq<EntryView> {
    v.map_values(|e: ChartEntry| e@)
}

/// The views of a sequence of strings.
pub open spec fn texts_view(v: Seq<String>) -> Seq<Seq<char>> {
    v.map_values(|s: String| s@)
}

/// Why no entries could be taken from a chart page.
#[derive(Debug, PartialEq, Eq, Structural, Clone, Copy)]
pub enum ChartError {
    /// The page was not served: the HTTP status was not a success.
    Fetch { status: u16 },
    /// A configured selector is not valid CSS.
    Selector,
    /// A selector matched no node: the page is not a chart page.
    Parse,
}

pub open spec fn url_prefix() -> Seq<char> {
    "https://www.billboard.com/charts/hot-100/"@
}

pub open spec fn url_suffix() -> Seq<char> {
    "?rank=1"@
}

/// `year-month-day`, as the chart source names a week.
pub open spec fn date_text(year: int, month: Seq<char>, day: Seq<char>) -> Seq<char> {
    decimal(year) + seq!['-'] + month + seq!['-'] + day
}

/// The address of the full chart of a week.
pub open spec fn chart_url_text(year: int, month: Seq<char>, day: Seq<char>) -> Seq<char> {
    url_prefix() + date_text(year, month, day) + url_suffix()
}

/// Builds the address of the full ranked chart for `date`.
pub fn chart_url(date: &ChartDate) -> (r: String)
    ensures
        r@ == chart_url_text(date.year as int, date.month@, date.day@),
{
    let mut s = String::from_str("https://www.billboard.com/charts/hot-100/");
    push_decimal(&mut s, date.year as i64);
    s.append("-");
    s.append(date.month.as_str());
    s.append("-");
    s.append(date.day.as_str());
    s.append("?rank=1");
    proof {
        reveal_strlit("https://www.billboard.com/charts/hot-100/");
        reveal_strlit("-");
        reveal_strlit("?rank=1");
    }
    assert(s@ =~= chart_url_text(date.year as int, date.month@, date.day@));
    s
}

/// The date stands in every chart address at the same place: right after the
/// fixed prefix, and nothing but the fixed suffix follows it.
pub proof fn lemma_url_holds_date(year: i32, month: Seq<char>, day: Seq<char>)
    ensures
        ({
            let u = chart_url_text(year as int, month, day);
            let d = date_text(year as int, month, day);
            let p = url_prefix().len() as int;
            &&& u.subrange(0, p) == url_prefix()
            &&& u.subrange(p, p + d.len()) == d
            &&& u.subrange(p + d.len(), u.len() as int) == url_suffix()
        }),
{
    let u = chart_url_text(year as int, month, day);
    let d = date_text(year as int, month, day);
    let p = url_prefix().len() as int;
    assert(u.subrange(0, p) =~= url_prefix());
    assert(u.subrange(p, p + d.len()) =~= d);
    assert(u.subrange(p + d.len(), u.len() as int) =~= url_suffix());
}

#[verifier::external_type_specification]
#[verifier::external_body]
pub struct ExHtml(scraper::Html);

#[verifier::external_type_specification]
#[verifier::external_body]
pub struct ExSelector(scraper::Selector);

/// Whether `scraper::Selector::parse` accepts a selector text.
pub uninterp spec fn selector_accepted(s: Seq<char>) -> bool;

/// The inner HTML of each node that a selector matches in a document, in the
/// order in which parsing inserted the nodes into the tree, as `scraper`
/// parses and walks it (with attributes kept in their source order).
pub uninterp spec fn matched_inner_html(markup: Seq<char>, selector: Seq<char>) -> Seq<Seq<char>>;

/// Relies on `scraper::Html::parse_document`, which never fails: errors in the
/// markup are recorded in the tree.
#[verifier::external_body]
fn parse_document(markup: &str) -> (r: scraper::Html) {
    scraper::Html::parse_document(markup)
}

/// Relies on `scraper::Selector::parse`: it accepts a selector text or not,
/// on the text alone.
#[verifier::external_body]
fn parse_selector(text: &str) -> (r: Option<scraper::Selector>)
    ensures
        r.is_some() == selector_accepted(text@),
{
    scraper::Selector::parse(text).ok()
}

/// A parsed chart page, kept with the markup it was parsed from.
pub struct ChartPage {
    markup: String,
    doc: scraper::Html,
}

/// A parsed selector, kept with the text it was parsed from.
pub struct NodeSelector {
    text: String,
    sel: scraper::Selector,
}

impl ChartPage {
    pub closed spec fn markup(&self) -> Seq<char> {
        self.markup@
    }

    /// Parses the markup of a page once.
    pub fn parse(markup: &str) -> (r: ChartPage)
        ensures
            r.markup() == markup@,
    {
        ChartPage { markup: String::from_str(markup), doc: parse_document(markup) }
    }
}

impl NodeSelector {
    pub closed spec fn text(&self) -> Seq<char> {
        self.text@
    }

    /// Parses a selector; `None` where its text is not a valid selector.
    pub fn parse(text: &str) -> (r: Option<NodeSelector>)
        ensures
            r.is_some() == selector_accepted(text@),
            r matches Some(n) ==> n.text() == text@,
    {
        match parse_selector(text) {
            Some(sel) => Some(NodeSelector { text: String::from_str(text), sel }),
            None => None,
        }
    }
}

/// Relies on `scraper::Html::select` and `scraper::ElementRef::inner_html`: the
/// matched nodes in the order the tree holds them, each as its inner HTML,
/// whose attributes are written in source order (scraper's `deterministic`
/// feature). The page's tree was parsed from its markup and the selector from
/// its text, and by nothing else.
#[verifier::external_body]
fn select_inner_html(page: &ChartPage, selector: &NodeSelector) -> (r: Vec<String>)
    ensures
        texts_view(r@) == matched_inner_html(page.markup(), selector.text()),
{
    let mut out = Vec::new();
    for node in page.doc.select(&selector.sel) {
        out.push(node.inner_html());
    }
    out
}

/// The entries that positional pairing gives: the i-th title with the i-th
/// artist, both trimmed, up to the shorter of the two lists.
pub open spec fn paired(titles: Seq<Seq<char>>, artists: Seq<Seq<char>>) -> Seq<EntryView> {
    Seq::new(
        if titles.len() <= artists.len() { titles.len() } else { artists.len() },
        |i: int| EntryView { title: trimmed(titles[i]), artist: trimmed(artists[i]) },
    )
}

/// Pairs the matched title texts with the matched artist texts by position.
pub fn pair_entries(titles: &Vec<String>, artists: &Vec<String>) -> (r: Vec<ChartEntry>)
    ensures
        entries_view(r@) == paired(texts_view(titles@), texts_view(artists@)),
        forall|i: int| 0 <= i < r@.len() ==> trimmed(#[trigger] r@[i].title@) == r@[i].title@,
        forall|i: int| 0 <= i < r@.len() ==> trimmed(#[trigger] r@[i].artist@) == r@[i].artist@,
{
    let n: usize = if titles.len() <= artists.len() { titles.len() } else { artists.len() };
    let mut out: Vec<ChartEntry> = Vec::new();
    let mut i: usize = 0;
    while i < n
        invariant
            n as int == if titles@.len() <= artists@.len() { titles@.len() } else { artists@.len() },
            i <= n,
            entries_view(out@) =~= paired(texts_view(titles@), texts_view(artists@)).take(i as int),
            forall|k: int| 0 <= k < out@.len() ==> trimmed(#[trigger] out@[k].title@) == out@[k].title@,
            forall|k: int| 0 <= k < out@.len() ==> trimmed(#[trigger] out@[k].artist@) == out@[k].artist@,
        decreases n - i,
    {
        let title = trim_text(titles[i].as_str());
        let artist = trim_text(artists[i].as_str());
        proof {
            lemma_trimmed_twice(titles@[i as int]@);
            lemma_trimmed_twice(artists@[i as int]@);
        }
        let ghost prev = out@;
        out.push(ChartEntry { title, artist });
        assert(out@ == prev.push(ChartEntry { title, artist }));
        assert(forall|k: int| 0 <= k < prev.len() ==> out@[k] == prev[k]);
        assert(texts_view(titles@)[i as int] == titles@[i as int]@);
        assert(texts_view(artists@)[i as int] == artists@[i as int]@);
        assert(entries_view(out@) =~= entries_view(prev).push(out@[i as int]@));
        i = i + 1;
        assert(entries_view(out@) =~= paired(texts_view(titles@), texts_view(artists@)).take(i as int));
    }
    assert(paired(texts_view(titles@), texts_view(artists@)).take(n as int)
        =~= paired(texts_view(titles@), texts_view(artists@)));
    out
}

/// Pairing by position gives exactly as many entries as the shorter list
/// holds, and the i-th entry is the i-th title with the i-th artist, trimmed.
pub proof fn lemma_pairing_count(titles: Seq<Seq<char>>, artists: Seq<Seq<char>>)
    ensures
        titles.len() <= artists.len() ==> paired(titles, artists).len() == titles.len(),
        artists.len() <= titles.len() ==> paired(titles, artists).len() == artists.len(),
        forall|i: int|
            0 <= i < paired(titles, artists).len() ==> #[trigger] paired(titles, artists)[i] == (EntryView {
                title: trimmed(titles[i]),
                artist: trimmed(artists[i]),
            }),
{
}

/// An entry can be searched for: neither its title nor its artist is blank.
pub open spec fn entry_valid(e: EntryView) -> bool {
    trimmed(e.title).len() > 0 && trimmed(e.artist).len() > 0
}

/// The entries that can be searched for, in chart order.
pub open spec fn valid_only(s: Seq<EntryView>) -> Seq<EntryView>
    decreases s.len(),
{
    if s.len() == 0 {
        seq![]
    } else if entry_valid(s.last()) {
        valid_only(s.drop_last()).push(s.last())
    } else {
        valid_only(s.drop_last())
    }
}

/// No entry with a blank title or artist is left for resolution, every other
/// entry is kept, and nothing else is added.
pub proof fn lemma_blank_entries_dropped(s: Seq<EntryView>)
    ensures
        forall|i: int| 0 <= i < valid_only(s).len() ==> entry_valid(#[trigger] valid_only(s)[i]),
        forall|i: int| 0 <= i < s.len() && entry_valid(s[i]) ==> valid_only(s).contains(#[trigger] s[i]),
        forall|i: int| 0 <= i < valid_only(s).len() ==> s.contains(#[trigger] valid_only(s)[i]),
    decreases s.len(),
{
    if s.len() > 0 {
        let p = s.drop_last();
        lemma_blank_entries_dropped(p);
        assert forall|i: int| 0 <= i < s.len() && entry_valid(s[i]) implies valid_only(s).contains(#[trigger] s[i]) by {
            if i < s.len() - 1 {
                assert(p[i] == s[i]);
                assert(valid_only(p).contains(p[i]));
                if entry_valid(s.last()) {
                    let j = choose|j: int| 0 <= j < valid_only(p).len() && valid_only(p)[j] == p[i];
                    assert(valid_only(s)[j] == s[i]);
                }
            } else {
                assert(valid_only(s)[valid_only(s).len() - 1] == s[i]);
            }
        }
        assert forall|i: int| 0 <= i < valid_only(s).len() implies s.contains(#[trigger] valid_only(s)[i]) by {
            if i < valid_only(p).len() {
                assert(p.contains(valid_only(p)[i]));
                let j = choose|j: int| 0 <= j < p.len() && p[j] == valid_only(p)[i];
                assert(s[j] == p[j]);
                assert(valid_only(s)[i] == valid_only(p)[i]);
            } else {
                assert(valid_only(s)[i] == s[s.len() - 1]);
            }
        }
    }
}

/// Whether an entry can be searched for.
pub fn is_valid_entry(e: &ChartEntry) -> (r: bool)
    ensures
        r == entry_valid(e@),
{
    let t = trim_text(e.title.as_str());
    let a = trim_text(e.artist.as_str());
    !t.as_str().is_empty() && !a.as_str().is_empty()
}

/// Keeps the entries that can be searched for, in their order.
pub fn retain_valid(entries: &Vec<ChartEntry>) -> (r: Vec<ChartEntry>)
    ensures
        entries_view(r@) == valid_only(entries_view(entries@)),
{
    let ghost all = entries_view(entries@);
    let mut out: Vec<ChartEntry> = Vec::new();
    let mut i: usize = 0;
    while i < entries.len()
        invariant
            i <= entries@.len(),
            all == entries_view(entries@),
            entries_view(out@) == valid_only(all.take(i as int)),
        decreases entries@.len() - i,
    {
        let e = &entries[i];
        assert(all.take(i + 1).drop_last() =~= all.take(i as int));
        assert(all.take(i + 1).last() == e@);
        if is_valid_entry(e) {
            let ghost prev = out@;
            out.push(ChartEntry { title: e.title.clone(), artist: e.artist.clone() });
            assert(entries_view(out@) =~= entries_view(prev).push(e@));
        }
        i = i + 1;
    }
    assert(all.take(entries@.len() as int) =~= all);
    out
}

/// Neither the title nor the artist of an entry is empty.
pub open spec fn entry_nonblank(e: EntryView) -> bool {
    e.title.len() > 0 && e.artist.len() > 0
}

/// The entries whose title and artist are not empty, in their order.
pub open spec fn nonblank_only(s: Seq<EntryView>) -> Seq<EntryView>
    decreases s.len(),
{
    if s.len() == 0 {
        seq![]
    } else if entry_nonblank(s.last()) {
        nonblank_only(s.drop_last()).push(s.last())
    } else {
        nonblank_only(s.drop_last())
    }
}

/// On entries whose fields are already trimmed, dropping the blank ones and
/// dropping the empty ones are the same.
pub proof fn lemma_trimmed_entries_filter(s: Seq<EntryView>)
    requires
        forall|i: int| 0 <= i < s.len() ==> trimmed(#[trigger] s[i].title) == s[i].title,
        forall|i: int| 0 <= i < s.len() ==> trimmed(#[trigger] s[i].artist) == s[i].artist,
    ensures
        valid_only(s) == nonblank_only(s),
    decreases s.len(),
{
    if s.len() > 0 {
        let p = s.drop_last();
        assert forall|i: int| 0 <= i < p.len() implies trimmed(#[trigger] p[i].title) == p[i].title by {
            assert(p[i] == s[i]);
        }
        assert forall|i: int| 0 <= i < p.len() implies trimmed(#[trigger] p[i].artist) == p[i].artist by {
            assert(p[i] == s[i]);
        }
        lemma_trimmed_entries_filter(p);
        assert(trimmed(s[s.len() - 1].title) == s[s.len() - 1].title);
        assert(trimmed(s[s.len() - 1].artist) == s[s.len() - 1].artist);
    }
}

/// Where no entry is blank, dropping the blank ones keeps them all.
pub proof fn lemma_nonblank_keeps_all(s: Seq<EntryView>)
    requires
        forall|i: int| 0 <= i < s.len() ==> entry_nonblank(#[trigger] s[i]),
    ensures
        nonblank_only(s) == s,
    decreases s.len(),
{
    if s.len() > 0 {
        let p = s.drop_last();
        assert forall|i: int| 0 <= i < p.len() implies entry_nonblank(#[trigger] p[i]) by {
            assert(p[i] == s[i]);
        }
        lemma_nonblank_keeps_all(p);
        assert(entry_nonblank(s[s.len() - 1]));
        assert(p.push(s.last()) =~= s);
    }
}

/// Title and artist lists of different lengths, with no blank text among
/// the pairs: the entries are exactly the pairs, as many as the shorter list,
/// and the surplus nodes of the longer one give none.
pub proof fn lemma_unequal_lists_pair_shorter(titles: Seq<Seq<char>>, artists: Seq<Seq<char>>)
    requires
        forall|i: int|
            0 <= i < titles.len() && i < artists.len() ==> trimmed(#[trigger] titles[i]).len() > 0,
        forall|i: int|
            0 <= i < titles.len() && i < artists.len() ==> trimmed(#[trigger] artists[i]).len() > 0,
    ensures
        nonblank_only(paired(titles, artists)) == paired(titles, artists),
        nonblank_only(paired(titles, artists)).len() == if titles.len() <= artists.len() {
            titles.len()
        } else {
            artists.len()
        },
{
    let s = paired(titles, artists);
    assert forall|i: int| 0 <= i < s.len() implies entry_nonblank(#[trigger] s[i]) by {
        assert(trimmed(titles[i]).len() > 0);
        assert(trimmed(artists[i]).len() > 0);
    }
    lemma_nonblank_keeps_all(s);
}

/// The entries that a page gives for two selector texts: the pairs by
/// position, without those whose title or artist is blank.
pub open spec fn page_entries(markup: Seq<char>, title_selector: Seq<char>, artist_selector: Seq<char>) -> Seq<
    EntryView,
> {
    nonblank_only(paired(matched_inner_html(markup, title_selector), matched_inner_html(markup, artist_selector)))
}

/// Whether the selectors find a chart on the page: both are valid, each
/// matches at least one node, and at least one pair is not blank.
pub open spec fn chart_found(markup: Seq<char>, title_selector: Seq<char>, artist_selector: Seq<char>) -> bool {
    &&& selector_accepted(title_selector)
    &&& selector_accepted(artist_selector)
    &&& matched_inner_html(markup, title_selector).len() > 0
    &&& matched_inner_html(markup, artist_selector).len() > 0
    &&& page_entries(markup, title_selector, artist_selector).len() > 0
}

/// An entry as extraction leaves it: title and artist are not empty, and
/// trimming them changes nothing.
pub open spec fn entry_clean(e: EntryView) -> bool {
    &&& e.title.len() > 0
    &&& e.artist.len() > 0
    &&& trimmed(e.title) == e.title
    &&& trimmed(e.artist) == e.artist
}

/// The two structural selectors of a chart page: one for title nodes, one for
/// artist nodes.
pub struct SelectorConfig {
    pub title: String,
    pub artist: String,
}

/// What extraction gives for a page and two selector texts.
pub open spec fn extraction(markup: Seq<char>, title_selector: Seq<char>, artist_selector: Seq<char>) -> Result<
    Seq<EntryView>,
    ChartError,
> {
    if !selector_accepted(title_selector) || !selector_accepted(artist_selector) {
        Err(ChartError::Selector)
    } else if !chart_found(markup, title_selector, artist_selector) {
        Err(ChartError::Parse)
    } else {
        Ok(page_entries(markup, title_selector, artist_selector))
    }
}

/// The view of an extraction result.
pub open spec fn result_view(r: Result<Vec<ChartEntry>, ChartError>) -> Result<Seq<EntryView>, ChartError> {
    match r {
        Ok(v) => Ok(entries_view(v@)),
        Err(e) => Err(e),
    }
}

/// Takes the ranked entries from the markup of a chart page.
pub fn extract_entries(markup: &str, config: &SelectorConfig) -> (r: Result<Vec<ChartEntry>, ChartError>)
    ensures
        result_view(r) == extraction(markup@, config.title@, config.artist@),
        r matches Ok(v) ==> forall|i: int| 0 <= i < v@.len() ==> entry_clean(#[trigger] v@[i]@),
{
    let title_sel = match NodeSelector::parse(config.title.as_str()) {
        Some(s) => s,
        None => return Err(ChartError::Selector),
    };
    let artist_sel = match NodeSelector::parse(config.artist.as_str()) {
        Some(s) => s,
        None => return Err(ChartError::Selector),
    };
    let page = ChartPage::parse(markup);
    let titles = select_inner_html(&page, &title_sel);
    let artists = select_inner_html(&page, &artist_sel);
    if titles.len() == 0 || artists.len() == 0 {
        return Err(ChartError::Parse);
    }
    let pairs = pair_entries(&titles, &artists);
    let kept = retain_valid(&pairs);
    proof {
        let pv = entries_view(pairs@);
        lemma_blank_entries_dropped(pv);
        assert forall|i: int| 0 <= i < pv.len() implies trimmed(#[trigger] pv[i].title) == pv[i].title by {
            assert(pv[i] == pairs@[i]@);
        }
        assert forall|i: int| 0 <= i < pv.len() implies trimmed(#[trigger] pv[i].artist) == pv[i].artist by {
            assert(pv[i] == pairs@[i]@);
        }
        lemma_trimmed_entries_filter(pv);
        assert forall|i: int| 0 <= i < kept@.len() implies entry_clean(#[trigger] kept@[i]@) by {
            assert(entries_view(kept@)[i] == kept@[i]@);
            assert(pv.contains(valid_only(pv)[i]));
            let j = choose|j: int| 0 <= j < pv.len() && pv[j] == valid_only(pv)[i];
            assert(pv[j] == pairs@[j]@);
        }
    }
    if kept.len() == 0 {
        return Err(ChartError::Parse);
    }
    Ok(kept)
}

/// Whether an HTTP status is a success (2xx).
pub open spec fn status_ok(status: u16) -> bool {
    200 <= status < 300
}

/// Takes the entries from the answer to a chart request: the status decides
/// whether there is a page at all, the selectors what is on it.
pub fn entries_from_response(status: u16, body: &str, config: &SelectorConfig) -> (r: Result<
    Vec<ChartEntry>,
    ChartError,
>)
    ensures
        !status_ok(status) ==> r == Err::<Vec<ChartEntry>, ChartError>(ChartError::Fetch { status }),
        status_ok(status) ==> result_view(r) == extraction(body@, config.title@, config.artist@),
        r matches Ok(v) ==> forall|i: int| 0 <= i < v@.len() ==> entry_clean(#[trigger] v@[i]@),
{
    if status < 200 || status >= 300 {
        return Err(ChartError::Fetch { status });
    }
    extract_entries(body, config)
}

} // verus!