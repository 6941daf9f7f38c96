use imdb::models::{Field, Movie, Rating, TitleID};
use imdb::parser::top250::{
    extract, extract_rows, parse_row_fragment, parse_top250_movies_html, parse_year, row_fragments,
    Marker, RowError, RowFragment, SkippedRow,
};

fn marker(name: &str, value: &str) -> Marker {
    Marker { name: Some(name.to_string()), value: Some(value.to_string()) }
}

fn fragment(tconst: &str, title: &str, markers: Vec<Marker>, info: &str) -> RowFragment {
    RowFragment {
        tconst: Some(tconst.to_string()),
        title: Some(title.to_string()),
        markers,
        secondary_info: Some(info.to_string()),
    }
}

fn shawshank() -> Movie {
    Movie {
        id: TitleID(111161),
        title: "The Shawshank Redemption".to_string(),
        year: 1994,
        rating: Rating { negative: false, mantissa: 93, scale: 1 },
        votes: 2500000,
    }
}

fn godfather() -> Movie {
    Movie {
        id: TitleID(68646),
        title: "The Godfather".to_string(),
        year: 1972,
        rating: Rating { negative: false, mantissa: 92, scale: 1 },
        votes: 1800000,
    }
}

fn row_html(tconst: &str, title: &str, year: &str, markers: &[(&str, &str)]) -> String {
    let mut spans = String::new();
    for (name, value) in markers {
        spans.push_str(&format!("<span name=\"{}\" data-value=\"{}\"></span>", name, value));
    }
    format!(
        "<tr><td class=\"posterColumn\">{}<a href=\"/title/{}/\"><img src=\"p.jpg\"></a></td>\
         <td class=\"titleColumn\">\n 1.\n <a href=\"/title/{}/\" title=\"Director\">{}</a>\n \
         <span class=\"secondaryInfo\">{}</span></td>\
         <td class=\"ratingColumn imdbRating\"><strong>9.2</strong></td>\
         <td class=\"watchlistColumn\"><div class=\"wlb_ribbon\" data-tconst=\"{}\"></div></td></tr>",
        spans, tconst, tconst, title, year, tconst
    )
}

fn page(rows: &[String]) -> String {
    format!(
        "<!DOCTYPE html><html><head><title>Top 250</title></head><body><div id=\"wrapper\">\
         <div id=\"root\"></div><div id=\"main\"><div><span><div><div>\
         <div class=\"lister\"><table class=\"chart full-width\"><thead><tr><th>Rank</th></tr>\
         </thead><tbody class=\"lister-list\">{}</tbody></table></div></div></div></span></div>\
         </div></div></body></html>",
        rows.concat()
    )
}

fn two_row_page() -> String {
    page(&[
        row_html(
            "tt0111161",
            "The Shawshank Redemption",
            "(1994)",
            &[("rk", "1"), ("ir", "9.3"), ("us", "1.4"), ("nv", "2500000"), ("ur", "-1.7")],
        ),
        row_html(
            "tt0068646",
            "The Godfather",
            "(1972)",
            &[("rk", "2"), ("ir", "9.2"), ("us", "6.6"), ("nv", "1800000"), ("ur", "-1.8")],
        ),
    ])
}

#[test]
fn complete_row_gives_its_fields() {
    let row = fragment(
        "tt0111161",
        "  The Shawshank Redemption\n",
        vec![marker("ir", "9.3"), marker("nv", "2500000")],
        "(1994)",
    );
    assert_eq!(parse_row_fragment(&row), Ok(shawshank()));
}

#[test]
fn unknown_markers_are_ignored() {
    let row = fragment(
        "tt0068646",
        "The Godfather",
        vec![
            marker("rk", "2"),
            marker("ir", "9.2"),
            marker("us", "x"),
            marker("nv", "1800000"),
            Marker { name: None, value: Some("?".to_string()) },
            marker("ur", "-1.8"),
        ],
        "(1972)",
    );
    assert_eq!(parse_row_fragment(&row), Ok(godfather()));
}

#[test]
fn later_marker_of_a_kind_wins() {
    let row = fragment(
        "tt0068646",
        "The Godfather",
        vec![marker("ir", "1.0"), marker("nv", "1800000"), marker("ir", "9.2")],
        "(1972)",
    );
    assert_eq!(parse_row_fragment(&row), Ok(godfather()));
}

#[test]
fn row_without_rating_marker_reports_rating() {
    let row = fragment("tt0111161", "The Shawshank Redemption", vec![marker("nv", "2500000")], "(1994)");
    assert_eq!(parse_row_fragment(&row), Err(RowError::Missing(vec![Field::Rating])));
    let no_value = fragment(
        "tt0111161",
        "The Shawshank Redemption",
        vec![Marker { name: Some("ir".to_string()), value: None }, marker("nv", "2500000")],
        "(1994)",
    );
    assert_eq!(parse_row_fragment(&no_value), Err(RowError::Missing(vec![Field::Rating])));
}

#[test]
fn empty_row_reports_every_field() {
    let row = RowFragment { tconst: None, title: None, markers: vec![], secondary_info: None };
    assert_eq!(
        parse_row_fragment(&row),
        Err(RowError::Missing(vec![Field::Id, Field::Title, Field::Year, Field::Rating, Field::Votes]))
    );
}

#[test]
fn unparsable_fields_are_reported() {
    let good = || vec![marker("ir", "9.3"), marker("nv", "2500000")];
    let bad_id = fragment("t", "A", good(), "(1994)");
    assert_eq!(parse_row_fragment(&bad_id), Err(RowError::Unparsable(Field::Id)));
    let bad_rating = fragment("tt1", "A", vec![marker("ir", "9,3"), marker("nv", "2")], "(1994)");
    assert_eq!(parse_row_fragment(&bad_rating), Err(RowError::Unparsable(Field::Rating)));
    let bad_votes = fragment("tt1", "A", vec![marker("ir", "9.3"), marker("nv", "2,500")], "(1994)");
    assert_eq!(parse_row_fragment(&bad_votes), Err(RowError::Unparsable(Field::Votes)));
    let bad_year = fragment("tt1", "A", good(), "(19)");
    assert_eq!(parse_row_fragment(&bad_year), Err(RowError::Unparsable(Field::Year)));
    let both = fragment("xx", "A", vec![marker("ir", "bad")], "bad");
    assert_eq!(parse_row_fragment(&both), Err(RowError::Unparsable(Field::Id)));
}

#[test]
fn year_from_secondary_info() {
    assert_eq!(parse_year(" (1994) "), Some(1994));
    assert_eq!(parse_year("(1972)"), Some(1972));
    assert_eq!(parse_year("(2019)extra"), Some(2019));
    assert_eq!(parse_year("(19a4)"), None);
    assert_eq!(parse_year("(199"), None);
    assert_eq!(parse_year(""), None);
}

#[test]
fn skipped_row_leaves_the_others() {
    let rows = vec![
        fragment("tt0111161", "The Shawshank Redemption", vec![marker("ir", "9.3"), marker("nv", "2500000")], "(1994)"),
        fragment("tt0000001", "No Rating", vec![marker("nv", "10")], "(2001)"),
        fragment("tt0068646", "The Godfather", vec![marker("ir", "9.2"), marker("nv", "1800000")], "(1972)"),
    ];
    let e = extract_rows(&rows);
    assert_eq!(e.movies, vec![shawshank(), godfather()]);
    assert_eq!(e.skipped, vec![SkippedRow { row: 1, error: RowError::Missing(vec![Field::Rating]) }]);
}

#[test]
fn no_rows_no_movies() {
    let e = extract_rows(&vec![]);
    assert!(e.movies.is_empty());
    assert!(e.skipped.is_empty());
}

#[test]
fn two_row_fixture_extracts_in_order() {
    let html = two_row_page();
    assert_eq!(parse_top250_movies_html(&html), vec![shawshank(), godfather()]);
    let e = extract(&html);
    assert_eq!(e.movies, vec![shawshank(), godfather()]);
    assert!(e.skipped.is_empty());
}

#[test]
fn fixture_rows_hold_the_page_texts() {
    let rows = row_fragments(&two_row_page());
    assert_eq!(rows.len(), 2);
    assert_eq!(rows[0].tconst.as_deref(), Some("tt0111161"));
    assert_eq!(rows[0].title.as_deref(), Some("The Shawshank Redemption"));
    assert_eq!(rows[0].secondary_info.as_deref(), Some("(1994)"));
    assert_eq!(rows[0].markers.len(), 5);
    assert_eq!(rows[0].markers[1].name.as_deref(), Some("ir"));
    assert_eq!(rows[0].markers[1].value.as_deref(), Some("9.3"));
    assert_eq!(rows[1].tconst.as_deref(), Some("tt0068646"));
}

#[test]
fn page_without_chart_gives_nothing() {
    let html = "<html><body><div id=\"main\"><p>Nothing here</p></div></body></html>";
    let e = extract(html);
    assert!(e.movies.is_empty());
    assert!(e.skipped.is_empty());
    assert!(parse_top250_movies_html("").is_empty());
    let off_path = "<html><body><table><tbody><tr><td>x</td></tr></tbody></table></body></html>";
    assert!(parse_top250_movies_html(off_path).is_empty());
    assert!(extract(off_path).skipped.is_empty());
}

#[test]
fn page_row_with_malformed_votes_is_skipped() {
    let html = page(&[
        row_html("tt0111161", "The Shawshank Redemption", "(1994)", &[("ir", "9.3"), ("nv", "2,500,000")]),
        row_html("tt0068646", "The Godfather", "(1972)", &[("ir", "9.2"), ("nv", "1800000")]),
    ]);
    let e = extract(&html);
    assert_eq!(e.movies, vec![godfather()]);
    assert_eq!(e.skipped, vec![SkippedRow { row: 0, error: RowError::Unparsable(Field::Votes) }]);
}

#[test]
fn page_row_without_rating_is_skipped() {
    let html = page(&[
        row_html("tt0111161", "The Shawshank Redemption", "(1994)", &[("ir", "9.3"), ("nv", "2500000")]),
        row_html("tt0000001", "No Rating", "(2001)", &[("rk", "2"), ("nv", "10")]),
        row_html("tt0068646", "The Godfather", "(1972)", &[("ir", "9.2"), ("nv", "1800000")]),
    ]);
    let e = extract(&html);
    assert_eq!(e.movies, vec![shawshank(), godfather()]);
    assert_eq!(e.skipped, vec![SkippedRow { row: 1, error: RowError::Missing(vec![Field::Rating]) }]);
}

#[test]
fn extracting_twice_gives_equal_results() {
    let html = two_row_page();
    assert_eq!(extract(&html), extract(&html));
    assert_eq!(parse_top250_movies_html(&html), parse_top250_movies_html(&html));
}
