use imdb::models::{Field, Movie, MovieBuilder, Rating, TitleID};

#[test]
fn title_id_text_is_zero_padded() {
    assert_eq!(TitleID(27205).to_text(), "tt00027205");
    assert_eq!(TitleID(0).to_text(), "tt00000000");
    assert_eq!(TitleID(111161).to_text(), "tt00111161");
    assert_eq!(TitleID(12345678).to_text(), "tt12345678");
    assert_eq!(TitleID(4294967295).to_text(), "tt4294967295");
}

#[test]
fn title_id_round_trip() {
    assert_eq!(TitleID::from_text("tt00027205"), Some(TitleID(27205)));
    for n in [0u32, 7, 27205, 111161, 99999999, 100000000, 4294967295] {
        assert_eq!(TitleID::from_text(&TitleID(n).to_text()), Some(TitleID(n)));
    }
}

#[test]
fn title_id_from_text_edges() {
    assert_eq!(TitleID::from_text("tt0111161"), Some(TitleID(111161)));
    assert_eq!(TitleID::from_text("nm0000151"), Some(TitleID(151)));
    assert_eq!(TitleID::from_text("tt+12"), Some(TitleID(12)));
    assert_eq!(TitleID::from_text(""), None);
    assert_eq!(TitleID::from_text("t"), None);
    assert_eq!(TitleID::from_text("tt"), None);
    assert_eq!(TitleID::from_text("tt+"), None);
    assert_eq!(TitleID::from_text("tt12x4"), None);
    assert_eq!(TitleID::from_text("tt-12"), None);
    assert_eq!(TitleID::from_text("tt4294967296"), None);
}

#[test]
fn rating_from_text() {
    assert_eq!(Rating::from_text("9.3"), Some(Rating { negative: false, mantissa: 93, scale: 1 }));
    assert_eq!(Rating::from_text("10"), Some(Rating { negative: false, mantissa: 10, scale: 0 }));
    assert_eq!(Rating::from_text("8.25"), Some(Rating { negative: false, mantissa: 825, scale: 2 }));
    assert_eq!(Rating::from_text(".5"), Some(Rating { negative: false, mantissa: 5, scale: 1 }));
    assert_eq!(Rating::from_text("7."), Some(Rating { negative: false, mantissa: 7, scale: 0 }));
    assert_eq!(Rating::from_text("+9.0"), Some(Rating { negative: false, mantissa: 90, scale: 1 }));
    assert_eq!(Rating::from_text(""), None);
    assert_eq!(Rating::from_text("."), None);
    assert_eq!(Rating::from_text("1.2.3"), None);
    assert_eq!(Rating::from_text("nine"), None);
    assert_eq!(Rating::from_text("-1.0"), Some(Rating { negative: true, mantissa: 10, scale: 1 }));
    assert_eq!(Rating::from_text("-"), None);
    assert_eq!(Rating::from_text("1e1"), None);
    assert_eq!(Rating::from_text("NaN"), None);
    assert_eq!(Rating::from_text("inf"), None);
    assert_eq!(Rating::from_text("99999999999999999999"), None);
}

#[test]
fn movie_text_is_title_and_year() {
    let m = Movie {
        id: TitleID(68646),
        title: "The Godfather".to_string(),
        year: 1972,
        rating: Rating { negative: false, mantissa: 92, scale: 1 },
        votes: 1800000,
    };
    assert_eq!(m.to_text(), "The Godfather (1972)");
    let old = Movie { title: "Intolerance".to_string(), year: 916, ..m };
    assert_eq!(old.to_text(), "Intolerance (916)");
}

#[test]
fn builder_reports_missing_fields() {
    let mut b = MovieBuilder::new();
    assert_eq!(
        b.build(),
        Err(vec![Field::Id, Field::Title, Field::Year, Field::Rating, Field::Votes])
    );
    b.id(TitleID(1));
    b.title("A".to_string());
    b.votes(3);
    assert_eq!(b.build(), Err(vec![Field::Year, Field::Rating]));
    b.year(2000);
    b.rating(Rating { negative: false, mantissa: 5, scale: 0 });
    assert_eq!(
        b.build(),
        Ok(Movie {
            id: TitleID(1),
            title: "A".to_string(),
            year: 2000,
            rating: Rating { negative: false, mantissa: 5, scale: 0 },
            votes: 3,
        })
    );
}
