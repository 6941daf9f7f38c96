//! The ranked movie chart: each row of the chart's table becomes a movie.
//!
//! A row is read in two steps. The markup is queried for the few texts that the row holds (the
//! identifier attribute, the title, the rating and vote markers, the year span), which gives a
//! [`RowFragment`] of plain strings. The fragment is then turned into a [`Movie`]. A row whose
//! numbers do not parse, or that lacks a field, is skipped and reported; the other rows are kept.

use vstd::prelude::*;

use crate::parser::dom::{
    attribute, attribute_at, first_text, first_text_at, matched_in_document, matched_under,
    parse_document, parse_selector, select_in_document, select_in_element, selector_parses, Css,
    Node,
};
use crate::models::{
    empty_slots, rating_number, title_id_number, Field, Movie, MovieBuilder, MovieView, Rating,
    TitleID,
};
use crate::text::{
    chars_of, parse_unsigned, string_from_chars, text_of, trim_chars, trimmed, unsigned_number,
};

verus! {

/// A marker of a row: its `name` attribute and its `data-value` attribute.
#[derive(Clone, Debug)]
pub struct Marker {
    pub name: Option<String>,
    pub value: Option<String>,
}

/// The texts that one row of the chart holds, each `None` where the row lacks it.
#[derive(Clone, Debug)]
pub struct RowFragment {
    /// The `data-tconst` attribute of the row's ribbon marker, such as `tt0111161`.
    pub tconst: Option<String>,
    /// The first text of the row's title link.
    pub title: Option<String>,
    /// The markers of the row's poster column, in the row's order.
    pub markers: Vec<Marker>,
    /// The first text of the span beside the title, such as `(1994)`.
    pub secondary_info: Option<String>,
}

/// A marker as the texts it holds.
pub struct MarkerView {
    pub name: Option<Seq<char>>,
    pub value: Option<Seq<char>>,
}

/// A row as the texts it holds.
pub struct RowView {
    pub tconst: Option<Seq<char>>,
    pub title: Option<Seq<char>>,
    pub markers: Seq<MarkerView>,
    pub secondary_info: Option<Seq<char>>,
}

impl View for Marker {
    type V = MarkerView;

    open spec fn view(&self) -> MarkerView {
        MarkerView { name: text_of(self.name), value: text_of(self.value) }
    }
}

impl View for RowFragment {
    type V = RowView;

    open spec fn view(&self) -> RowView {
        RowView {
            tconst: text_of(self.tconst),
            title: text_of(self.title),
            markers: self.markers@.map_values(|m: Marker| m@),
            secondary_info: text_of(self.secondary_info),
        }
    }
}

/// The texts of each of `rows`.
pub open spec fn texts_of(rows: Seq<RowFragment>) -> Seq<RowView> {
    rows.map_values(|f: RowFragment| f@)
}

/// Why a row gave no movie.
#[derive(Clone, Debug, PartialEq, Eq)]
pub enum RowError {
    /// The text of this field was found but does not write a value of it.
    Unparsable(Field),
    /// These fields were not found in the row.
    Missing(Vec<Field>),
}

/// What one row gives, as a value of models.
pub enum RowOutcome {
    Movie(MovieView),
    Unparsable(Field),
    Missing(Seq<Field>),
}

pub open spec fn is_text(o: Option<Seq<char>>, t: Seq<char>) -> bool {
    o == Some(t)
}

/// The identifier slot after the identifier attribute: `Err` where it names no identifier.
pub open spec fn row_id(row: RowView) -> Result<Option<TitleID>, Field> {
    match row.tconst {
        None => Ok(None),
        Some(t) => match title_id_number(t) {
            Some(n) => Ok(Some(TitleID(n as u32))),
            None => Err(Field::Id),
        },
    }
}

/// The title: the title link's text without surrounding whitespace.
pub open spec fn row_title(row: RowView) -> Option<Seq<char>> {
    match row.title {
        None => None,
        Some(t) => Some(trimmed(t)),
    }
}

/// The rating and vote slots after one marker: a rating marker (`ir`) sets the rating, a vote
/// marker (`nv`) sets the vote count, where each has a value; any other marker changes nothing.
pub open spec fn marker_step(m: MarkerView, rating: Option<Rating>, votes: Option<u32>) -> Result<
    (Option<Rating>, Option<u32>),
    Field,
> {
    if is_text(m.name, seq!['i', 'r']) && m.value is Some {
        match rating_number(m.value->0) {
            Some(r) => Ok((Some(r), votes)),
            None => Err(Field::Rating),
        }
    } else if is_text(m.name, seq!['n', 'v']) && m.value is Some {
        match unsigned_number(m.value->0, u32::MAX as nat) {
            Some(v) => Ok((rating, Some(v as u32))),
            None => Err(Field::Votes),
        }
    } else {
        Ok((rating, votes))
    }
}

/// The rating and vote slots after the markers `ms`, taken in order.
pub open spec fn scan_markers(ms: Seq<MarkerView>) -> Result<(Option<Rating>, Option<u32>), Field>
    decreases ms.len(),
{
    if ms.len() == 0 {
        Ok((None, None))
    } else {
        match scan_markers(ms.drop_last()) {
            Err(f) => Err(f),
            Ok((r, v)) => marker_step(ms.last(), r, v),
        }
    }
}

/// The year that a year span's text writes: four characters that follow the first one, once the
/// text is trimmed, as in `(1994)`.
pub open spec fn year_number(t: Seq<char>) -> Option<nat> {
    let s = trimmed(t);
    if s.len() >= 5 {
        unsigned_number(s.subrange(1, 5), u16::MAX as nat)
    } else {
        None
    }
}

/// The year slot after the year span: `Err` where its text writes no year.
pub open spec fn row_year(row: RowView) -> Result<Option<u16>, Field> {
    match row.secondary_info {
        None => Ok(None),
        Some(t) => match year_number(t) {
            Some(y) => Ok(Some(y as u16)),
            None => Err(Field::Year),
        },
    }
}

/// What a row gives: the first field, in the order identifier, markers, year, whose text does not
/// parse; else the fields that were not found; else the movie.
pub open spec fn row_outcome(row: RowView) -> RowOutcome {
    match row_id(row) {
        Err(f) => RowOutcome::Unparsable(f),
        Ok(id) => match scan_markers(row.markers) {
            Err(f) => RowOutcome::Unparsable(f),
            Ok((rating, votes)) => match row_year(row) {
                Err(f) => RowOutcome::Unparsable(f),
                Ok(year) => {
                    let title = row_title(row);
                    let missing = empty_slots(
                        id is None,
                        title is None,
                        year is None,
                        rating is None,
                        votes is None,
                    );
                    if missing.len() == 0 {
                        RowOutcome::Movie(
                            MovieView {
                                id: id->0,
                                title: title->0,
                                year: year->0,
                                rating: rating->0,
                                votes: votes->0,
                            },
                        )
                    } else {
                        RowOutcome::Missing(missing)
                    }
                },
            },
        },
    }
}

/// A row's result as a value of models.
pub open spec fn outcome_of(r: Result<Movie, RowError>) -> RowOutcome {
    match r {
        Ok(m) => RowOutcome::Movie(m@),
        Err(e) => error_outcome(e),
    }
}

pub open spec fn error_outcome(e: RowError) -> RowOutcome {
    match e {
        RowError::Unparsable(f) => RowOutcome::Unparsable(f),
        RowError::Missing(fs) => RowOutcome::Missing(fs@),
    }
}

/// Whether `s` is the two characters `a` and `b`.
fn is_tag(s: &String, a: char, b: char) -> (r: bool)
    ensures
        r == (s@ == seq![a, b]),
{
    let c = chars_of(s.as_str());
    if c.len() == 2 && c[0] == a && c[1] == b {
        assert(c@ =~= seq![a, b]);
        true
    } else {
        false
    }
}

/// The year that a year span's text writes, as [`year_number`] says.
pub fn parse_year(t: &str) -> (r: Option<u16>)
    ensures
        r matches Some(y) ==> year_number(t@) == Some(y as nat),
        r is None ==> year_number(t@) is None,
{
    let c = trim_chars(&chars_of(t));
    if c.len() < 5 {
        return None;
    }
    let mut digits: Vec<char> = Vec::new();
    let mut i: usize = 1;
    while i < 5
        invariant
            1 <= i <= 5 <= c.len(),
            digits@ == c@.subrange(1, i as int),
        decreases 5 - i,
    {
        digits.push(c[i]);
        i = i + 1;
    }
    match parse_unsigned(&digits, u16::MAX as u64) {
        Some(y) => Some(y as u16),
        None => None,
    }
}

/// Turns the texts of one row into a movie, or says why the row gives none.
pub fn parse_row_fragment(row: &RowFragment) -> (r: Result<Movie, RowError>)
    ensures
        outcome_of(r) == row_outcome(row@),
{
    let mut movie = MovieBuilder::new();
    if let Some(t) = &row.tconst {
        match TitleID::from_text(t.as_str()) {
            Some(id) => movie.id(id),
            None => {
                return Err(RowError::Unparsable(Field::Id));
            },
        }
    }
    if let Some(t) = &row.title {
        let title = string_from_chars(trim_chars(&chars_of(t.as_str())));
        movie.title(title);
    }
    let mut i: usize = 0;
    while i < row.markers.len()
        invariant
            i <= row.markers.len(),
            row_id(row@) == Ok::<Option<TitleID>, Field>(movie.id),
            text_of(movie.title) == row_title(row@),
            movie.year is None,
            scan_markers(row@.markers.take(i as int)) == Ok::<
                (Option<Rating>, Option<u32>),
                Field,
            >((movie.rating, movie.votes)),
        decreases row.markers.len() - i,
    {
        let m = &row.markers[i];
        assert(row@.markers.take(i + 1).drop_last() =~= row@.markers.take(i as int));
        assert(row@.markers.take(i + 1).last() == m@);
        if let (Some(name), Some(value)) = (&m.name, &m.value) {
            if is_tag(name, 'i', 'r') {
                match Rating::from_text(value.as_str()) {
                    Some(x) => movie.rating(x),
                    None => {
                        proof {
                            lemma_scan_error_stays(row@.markers, i as int + 1);
                        }
                        return Err(RowError::Unparsable(Field::Rating));
                    },
                }
            } else if is_tag(name, 'n', 'v') {
                match parse_unsigned(&chars_of(value.as_str()), u32::MAX as u64) {
                    Some(v) => movie.votes(v as u32),
                    None => {
                        proof {
                            lemma_scan_error_stays(row@.markers, i as int + 1);
                        }
                        return Err(RowError::Unparsable(Field::Votes));
                    },
                }
            }
        }
        i = i + 1;
    }
    assert(row@.markers.take(i as int) =~= row@.markers);
    if let Some(t) = &row.secondary_info {
        match parse_year(t.as_str()) {
            Some(y) => movie.year(y),
            None => {
                return Err(RowError::Unparsable(Field::Year));
            },
        }
    }
    match movie.build() {
        Ok(m) => Ok(m),
        Err(fields) => Err(RowError::Missing(fields)),
    }
}

proof fn lemma_scan_error_stays(ms: Seq<MarkerView>, i: int)
    requires
        0 <= i <= ms.len(),
        scan_markers(ms.take(i)) is Err,
    ensures
        scan_markers(ms) == scan_markers(ms.take(i)),
    decreases ms.len() - i,
{
    if i < ms.len() {
        assert(ms.take(i + 1).drop_last() =~= ms.take(i));
        lemma_scan_error_stays(ms, i + 1);
    } else {
        assert(ms.take(i) =~= ms);
    }
}

/// A row that gave no movie: its place among the rows, from 0, and why.
#[derive(Clone, Debug, PartialEq, Eq)]
pub struct SkippedRow {
    pub row: usize,
    pub error: RowError,
}

/// The movies of the rows that gave one, in the rows' order, and the rows that gave none.
#[derive(Clone, Debug, PartialEq)]
pub struct Extraction {
    pub movies: Vec<Movie>,
    pub skipped: Vec<SkippedRow>,
}

/// The movies that `rows` give, in their order.
pub open spec fn kept_movies(rows: Seq<RowView>) -> Seq<MovieView>
    decreases rows.len(),
{
    if rows.len() == 0 {
        Seq::empty()
    } else {
        match row_outcome(rows.last()) {
            RowOutcome::Movie(m) => kept_movies(rows.drop_last()).push(m),
            _ => kept_movies(rows.drop_last()),
        }
    }
}

/// The rows of `rows` that give no movie: each one's place and outcome, in their order.
pub open spec fn skipped_rows(rows: Seq<RowView>) -> Seq<(nat, RowOutcome)>
    decreases rows.len(),
{
    if rows.len() == 0 {
        Seq::empty()
    } else {
        match row_outcome(rows.last()) {
            RowOutcome::Movie(_) => skipped_rows(rows.drop_last()),
            o => skipped_rows(rows.drop_last()).push(((rows.len() - 1) as nat, o)),
        }
    }
}

pub open spec fn movie_views(ms: Seq<Movie>) -> Seq<MovieView> {
    ms.map_values(|m: Movie| m@)
}

pub open spec fn skipped_views(ss: Seq<SkippedRow>) -> Seq<(nat, RowOutcome)> {
    ss.map_values(|s: SkippedRow| (s.row as nat, error_outcome(s.error)))
}

/// Whether `e` is what `rows` give.
pub open spec fn extraction_of(e: Extraction, rows: Seq<RowView>) -> bool {
    &&& movie_views(e.movies@) == kept_movies(rows)
    &&& skipped_views(e.skipped@) == skipped_rows(rows)
}

/// Turns each row into a movie, keeping the rows' order; the rows that give none are reported.
pub fn extract_rows(rows: &Vec<RowFragment>) -> (r: Extraction)
    ensures
        extraction_of(r, texts_of(rows@)),
{
    let mut movies: Vec<Movie> = Vec::new();
    let mut skipped: Vec<SkippedRow> = Vec::new();
    let mut i: usize = 0;
    while i < rows.len()
        invariant
            i <= rows.len(),
            movie_views(movies@) == kept_movies(texts_of(rows@).take(i as int)),
            skipped_views(skipped@) == skipped_rows(texts_of(rows@).take(i as int)),
        decreases rows.len() - i,
    {
        let ghost rs = texts_of(rows@);
        assert(rs.take(i + 1).drop_last() =~= rs.take(i as int));
        assert(rs.take(i + 1).last() == rows@[i as int]@);
        match parse_row_fragment(&rows[i]) {
            Ok(m) => {
                movies.push(m);
                assert(movie_views(movies@) =~= kept_movies(texts_of(rows@).take(i + 1)));
                assert(skipped_views(skipped@) =~= skipped_rows(texts_of(rows@).take(i + 1)));
            },
            Err(e) => {
                skipped.push(SkippedRow { row: i, error: e });
                assert(movie_views(movies@) =~= kept_movies(texts_of(rows@).take(i + 1)));
                assert(skipped_views(skipped@) =~= skipped_rows(texts_of(rows@).take(i + 1)));
            },
        }
        i = i + 1;
    }
    assert(texts_of(rows@).take(i as int) =~= texts_of(rows@));
    Extraction { movies, skipped }
}

/// The selector of the chart's rows.
pub open spec fn row_path() -> Seq<char> {
    "#main > div > span > div > div > div.lister > table > tbody > tr"@
}

/// The selector of a row's ribbon marker, which holds the identifier.
pub open spec fn ribbon_path() -> Seq<char> {
    "tr > td.watchlistColumn > div.wlb_ribbon"@
}

/// The selector of a row's title link.
pub open spec fn title_path() -> Seq<char> {
    "tr > td.titleColumn > a"@
}

/// The selector of a row's markers.
pub open spec fn marker_path() -> Seq<char> {
    "tr > td.posterColumn > span"@
}

/// The selector of the span beside a row's title, which holds the year.
pub open spec fn secondary_info_path() -> Seq<char> {
    "tr > td.titleColumn > span.secondaryInfo"@
}

/// The first element under the element `at` of the page `html` that the selector `css` matches.
pub open spec fn first_under(html: Seq<char>, at: nat, css: Seq<char>) -> Option<nat> {
    if selector_parses(css) && matched_under(html, at, css).len() > 0 {
        Some(matched_under(html, at, css)[0])
    } else {
        None
    }
}

/// The texts of a marker: its `name` and `data-value` attributes.
pub open spec fn marker_at(html: Seq<char>, at: nat) -> MarkerView {
    MarkerView { name: attribute_at(html, at, "name"@), value: attribute_at(html, at, "data-value"@) }
}

/// The texts of the row `at` of the page `html`: the ribbon's `data-tconst` attribute, the title
/// link's first text, the markers, and the year span's first text.
pub open spec fn row_at(html: Seq<char>, at: nat) -> RowView {
    RowView {
        tconst: match first_under(html, at, ribbon_path()) {
            Some(e) => attribute_at(html, e, "data-tconst"@),
            None => None,
        },
        title: match first_under(html, at, title_path()) {
            Some(e) => first_text_at(html, e),
            None => None,
        },
        markers: if selector_parses(marker_path()) {
            matched_under(html, at, marker_path()).map_values(|e: nat| marker_at(html, e))
        } else {
            Seq::empty()
        },
        secondary_info: match first_under(html, at, secondary_info_path()) {
            Some(e) => first_text_at(html, e),
            None => None,
        },
    }
}

/// The texts of each row of the chart's table in the page `html`, in the page's order.
pub open spec fn chart_rows(html: Seq<char>) -> Seq<RowView> {
    if selector_parses(row_path()) {
        matched_in_document(html, row_path()).map_values(|at: nat| row_at(html, at))
    } else {
        Seq::empty()
    }
}

/// Whether `css` is the parsed selector `path`, where that parses.
spec fn selector_for(css: Option<Css>, path: Seq<char>) -> bool {
    &&& css is Some == selector_parses(path)
    &&& css matches Some(c) ==> c.text@ == path
}

/// The selectors that find a row's texts.
struct RowSelectors {
    ribbon: Option<Css>,
    title: Option<Css>,
    markers: Option<Css>,
    secondary_info: Option<Css>,
}

spec fn row_selectors(sels: RowSelectors) -> bool {
    &&& selector_for(sels.ribbon, ribbon_path())
    &&& selector_for(sels.title, title_path())
    &&& selector_for(sels.markers, marker_path())
    &&& selector_for(sels.secondary_info, secondary_info_path())
}

/// The element that an optional node stands for.
spec fn place_of(n: Option<Node>) -> Option<nat> {
    match n {
        Some(n) => Some(n.at@),
        None => None,
    }
}

/// The first element under `node` that the selector `path` matches.
fn first_match<'a>(node: &Node<'a>, css: &Option<Css>, Ghost(path): Ghost<Seq<char>>) -> (r: Option<
    Node<'a>,
>)
    requires
        selector_for(*css, path),
    ensures
        place_of(r) == first_under(node.source@, node.at@, path),
        r matches Some(n) ==> n.source == node.source,
{
    match css {
        Some(sel) => {
            let found = select_in_element(node, sel);
            if found.len() > 0 {
                Some(found[0])
            } else {
                None
            }
        },
        None => None,
    }
}

/// Reads the texts of one row of the chart's table.
fn read_row(row: &Node, sels: &RowSelectors) -> (r: RowFragment)
    requires
        row_selectors(*sels),
    ensures
        r@ == row_at(row.source@, row.at@),
{
    let ghost html = row.source@;
    let tconst = match first_match(row, &sels.ribbon, Ghost(ribbon_path())) {
        Some(div) => attribute(&div, "data-tconst"),
        None => None,
    };
    let title = match first_match(row, &sels.title, Ghost(title_path())) {
        Some(a) => first_text(&a),
        None => None,
    };
    let mut markers: Vec<Marker> = Vec::new();
    if let Some(sel) = &sels.markers {
        let spans = select_in_element(row, sel);
        let ghost places = matched_under(html, row.at@, marker_path());
        let mut i: usize = 0;
        while i < spans.len()
            invariant
                i <= spans.len() == places.len(),
                forall|k: int|
                    #![trigger spans@[k]]
                    0 <= k < spans.len() ==> spans@[k].source@ == html && spans@[k].at@
                        == places[k],
                markers@.map_values(|m: Marker| m@) == places.take(i as int).map_values(
                    |e: nat| marker_at(html, e),
                ),
            decreases spans.len() - i,
        {
            let span = &spans[i];
            let m = Marker { name: attribute(span, "name"), value: attribute(span, "data-value") };
            let ghost before = markers@;
            assert(m@ == marker_at(html, places[i as int]));
            markers.push(m);
            proof {
                assert(markers@.map_values(|m: Marker| m@) =~= before.map_values(|m: Marker| m@).push(
                    m@,
                ));
                assert(places.take(i + 1).map_values(|e: nat| marker_at(html, e)) =~= places.take(
                    i as int,
                ).map_values(|e: nat| marker_at(html, e)).push(marker_at(html, places[i as int])));
            }
            i = i + 1;
        }
        assert(places.take(i as int) =~= places);
    } else {
        assert(markers@.map_values(|m: Marker| m@) =~= Seq::<MarkerView>::empty());
    }
    let secondary_info = match first_match(row, &sels.secondary_info, Ghost(secondary_info_path())) {
        Some(span) => first_text(&span),
        None => None,
    };
    let r = RowFragment { tconst, title, markers, secondary_info };
    assert(r@.markers =~= row_at(html, row.at@).markers);
    r
}

/// The texts of each row of the chart's table in a chart page, in the page's order; none where
/// the page holds no such table.
pub fn row_fragments(html: &str) -> (r: Vec<RowFragment>)
    ensures
        texts_of(r@) == chart_rows(html@),
{
    let document = parse_document(html);
    let sels = RowSelectors {
        ribbon: parse_selector("tr > td.watchlistColumn > div.wlb_ribbon"),
        title: parse_selector("tr > td.titleColumn > a"),
        markers: parse_selector("tr > td.posterColumn > span"),
        secondary_info: parse_selector("tr > td.titleColumn > span.secondaryInfo"),
    };
    let mut rows: Vec<RowFragment> = Vec::new();
    match parse_selector("#main > div > span > div > div > div.lister > table > tbody > tr") {
        Some(sel) => {
            let found = select_in_document(&document, &sel);
            let ghost places = matched_in_document(html@, row_path());
            let mut i: usize = 0;
            while i < found.len()
                invariant
                    row_selectors(sels),
                    i <= found.len() == places.len(),
                    forall|k: int|
                        #![trigger found@[k]]
                        0 <= k < found.len() ==> found@[k].source@ == html@ && found@[k].at@
                            == places[k],
                    texts_of(rows@) == places.take(i as int).map_values(
                        |at: nat| row_at(html@, at),
                    ),
                decreases found.len() - i,
            {
                let row = read_row(&found[i], &sels);
                let ghost before = rows@;
                assert(row@ == row_at(html@, places[i as int]));
                rows.push(row);
                proof {
                    assert(texts_of(rows@) =~= texts_of(before).push(row@));
                    assert(places.take(i + 1).map_values(|at: nat| row_at(html@, at)) =~= places.take(
                        i as int,
                    ).map_values(|at: nat| row_at(html@, at)).push(row_at(html@, places[i as int])));
                }
                i = i + 1;
            }
            assert(places.take(i as int) =~= places);
        },
        None => {
            assert(texts_of(rows@) =~= chart_rows(html@));
        },
    }
    rows
}

/// The movies of a chart page, in the page's order, and the rows that gave none.
pub fn extract(html: &str) -> (r: Extraction)
    ensures
        extraction_of(r, chart_rows(html@)),
{
    let rows = row_fragments(html);
    extract_rows(&rows)
}

/// The movies of a chart page, in the page's order; rows that give no movie are left out.
pub fn parse_top250_movies_html(html: &str) -> (r: Vec<Movie>)
    ensures
        movie_views(r@) == kept_movies(chart_rows(html@)),
{
    extract(html).movies
}

/// Whether `m` is a marker of kind `name` whose value writes `value`.
pub open spec fn marker_with_value(m: MarkerView, name: Seq<char>, value: Seq<char>) -> bool {
    is_text(m.name, name) && is_text(m.value, value)
}

/// A row with an identifier, a title, a rating marker then a vote marker, and a year span, each
/// readable, gives the movie that those texts write: the identifier's number, the trimmed title,
/// the year, the rating and the vote count.
pub proof fn lemma_complete_row_gives_its_movie(
    row: RowView,
    id: Seq<char>,
    title: Seq<char>,
    rating: Seq<char>,
    votes: Seq<char>,
    year: Seq<char>,
)
    requires
        is_text(row.tconst, id),
        title_id_number(id) is Some,
        is_text(row.title, title),
        row.markers.len() == 2,
        marker_with_value(row.markers[0], seq!['i', 'r'], rating),
        rating_number(rating) is Some,
        marker_with_value(row.markers[1], seq!['n', 'v'], votes),
        unsigned_number(votes, u32::MAX as nat) is Some,
        is_text(row.secondary_info, year),
        year_number(year) is Some,
    ensures
        row_outcome(row) == RowOutcome::Movie(
            MovieView {
                id: TitleID(title_id_number(id)->0 as u32),
                title: trimmed(title),
                year: year_number(year)->0 as u16,
                rating: rating_number(rating)->0,
                votes: unsigned_number(votes, u32::MAX as nat)->0 as u32,
            },
        ),
{
    let ms = row.markers;
    let r = rating_number(rating)->0;
    let v = unsigned_number(votes, u32::MAX as nat)->0 as u32;
    assert(ms.drop_last().drop_last() =~= Seq::<MarkerView>::empty());
    assert(ms.drop_last().last() == ms[0]);
    assert(scan_markers(ms.drop_last().drop_last()) == Ok::<(Option<Rating>, Option<u32>), Field>(
        (None, None),
    ));
    assert(scan_markers(ms.drop_last()) == Ok::<(Option<Rating>, Option<u32>), Field>(
        (Some(r), None),
    ));
    assert(ms[1].name->0 != seq!['i', 'r']) by {
        assert(ms[1].name->0[0] == 'n');
    }
    assert(scan_markers(ms) == Ok::<(Option<Rating>, Option<u32>), Field>((Some(r), Some(v))));
    assert(empty_slots(false, false, false, false, false) =~= Seq::<Field>::empty());
}

/// A row like a complete one but without its rating marker gives no movie: the rating alone is
/// reported missing.
pub proof fn lemma_row_without_rating_is_skipped(
    row: RowView,
    id: Seq<char>,
    title: Seq<char>,
    votes: Seq<char>,
    year: Seq<char>,
)
    requires
        is_text(row.tconst, id),
        title_id_number(id) is Some,
        is_text(row.title, title),
        row.markers.len() == 1,
        marker_with_value(row.markers[0], seq!['n', 'v'], votes),
        unsigned_number(votes, u32::MAX as nat) is Some,
        is_text(row.secondary_info, year),
        year_number(year) is Some,
    ensures
        row_outcome(row) == RowOutcome::Missing(seq![Field::Rating]),
{
    let ms = row.markers;
    let v = unsigned_number(votes, u32::MAX as nat)->0 as u32;
    assert(ms.drop_last() =~= Seq::<MarkerView>::empty());
    assert(scan_markers(ms.drop_last()) == Ok::<(Option<Rating>, Option<u32>), Field>(
        (None, None),
    ));
    assert(ms[0].name->0 != seq!['i', 'r']) by {
        assert(ms[0].name->0[0] == 'n');
    }
    assert(scan_markers(ms) == Ok::<(Option<Rating>, Option<u32>), Field>((None, Some(v))));
    assert(empty_slots(false, false, false, true, false) =~= seq![Field::Rating]);
}

/// When every row gives a movie, the movies are one per row, in the rows' order, and no row is
/// skipped.
pub proof fn lemma_complete_rows_all_kept(rows: Seq<RowView>)
    requires
        forall|i: int| 0 <= i < rows.len() ==> #[trigger] row_outcome(rows[i]) is Movie,
    ensures
        kept_movies(rows).len() == rows.len(),
        forall|i: int|
            0 <= i < rows.len() ==> RowOutcome::Movie(#[trigger] kept_movies(rows)[i])
                == row_outcome(rows[i]),
        skipped_rows(rows).len() == 0,
    decreases rows.len(),
{
    if rows.len() > 0 {
        let front = rows.drop_last();
        assert forall|i: int| 0 <= i < front.len() implies #[trigger] row_outcome(front[i]) is Movie by {
            assert(front[i] == rows[i]);
        }
        lemma_complete_rows_all_kept(front);
        assert(row_outcome(rows[rows.len() - 1]) is Movie);
    }
}

/// No rows give no movies and no skipped rows.
pub proof fn lemma_no_rows_no_movies()
    ensures
        kept_movies(Seq::empty()).len() == 0,
        skipped_rows(Seq::empty()).len() == 0,
{
}

proof fn lemma_kept_movies_concat(a: Seq<RowView>, b: Seq<RowView>)
    ensures
        kept_movies(a + b) == kept_movies(a) + kept_movies(b),
    decreases b.len(),
{
    if b.len() == 0 {
        assert(a + b =~= a);
        assert(kept_movies(a) + kept_movies(b) =~= kept_movies(a));
    } else {
        assert((a + b).drop_last() =~= a + b.drop_last());
        assert((a + b).last() == b.last());
        lemma_kept_movies_concat(a, b.drop_last());
        match row_outcome(b.last()) {
            RowOutcome::Movie(m) => {
                assert(kept_movies(a) + kept_movies(b.drop_last()).push(m) =~= (kept_movies(a)
                    + kept_movies(b.drop_last())).push(m));
            },
            _ => {},
        }
    }
}

/// A row that gives no movie takes nothing from the others: the movies are those of the rows
/// before it followed by those of the rows after it.
pub proof fn lemma_skipped_row_leaves_others(
    before: Seq<RowView>,
    row: RowView,
    after: Seq<RowView>,
)
    requires
        !(row_outcome(row) is Movie),
    ensures
        kept_movies(before + seq![row] + after) == kept_movies(before) + kept_movies(after),
{
    lemma_kept_movies_concat(before + seq![row], after);
    assert((before + seq![row]).drop_last() =~= before);
}

/// On a page whose chart rows all give a movie, the movies are one per row, in the page's order,
/// each the movie of its row, and no row is skipped.
pub proof fn lemma_page_complete_rows_all_kept(html: Seq<char>)
    requires
        forall|i: int|
            0 <= i < chart_rows(html).len() ==> #[trigger] row_outcome(chart_rows(html)[i]) is Movie,
    ensures
        kept_movies(chart_rows(html)).len() == chart_rows(html).len(),
        forall|i: int|
            0 <= i < chart_rows(html).len() ==> RowOutcome::Movie(
                #[trigger] kept_movies(chart_rows(html))[i],
            ) == row_outcome(chart_rows(html)[i]),
        skipped_rows(chart_rows(html)).len() == 0,
{
    lemma_complete_rows_all_kept(chart_rows(html));
}

/// A page on which the chart's row path matches nothing gives no movies and no skipped rows.
pub proof fn lemma_page_without_rows(html: Seq<char>)
    requires
        matched_in_document(html, row_path()).len() == 0,
    ensures
        chart_rows(html).len() == 0,
        kept_movies(chart_rows(html)).len() == 0,
        skipped_rows(chart_rows(html)).len() == 0,
{
}

/// On a page, a chart row that gives no movie is skipped and reported, and the movies are those of
/// the rows before it followed by those of the rows after it.
pub proof fn lemma_page_row_skipped(
    html: Seq<char>,
    before: Seq<RowView>,
    row: RowView,
    after: Seq<RowView>,
)
    requires
        chart_rows(html) == before + seq![row] + after,
        !(row_outcome(row) is Movie),
    ensures
        kept_movies(chart_rows(html)) == kept_movies(before) + kept_movies(after),
        skipped_rows(before + seq![row]) == skipped_rows(before).push(
            (before.len() as nat, row_outcome(row)),
        ),
{
    lemma_skipped_row_leaves_others(before, row, after);
    assert((before + seq![row]).drop_last() =~= before);
}

/// Extraction is a function of the page: two results for the same page hold the same movies and
/// the same skipped rows.
pub proof fn lemma_page_extraction_deterministic(e1: Extraction, e2: Extraction, html: Seq<char>)
    requires
        extraction_of(e1, chart_rows(html)),
        extraction_of(e2, chart_rows(html)),
    ensures
        movie_views(e1.movies@) == movie_views(e2.movies@),
        skipped_views(e1.skipped@) == skipped_views(e2.skipped@),
{
}

} // verus!
