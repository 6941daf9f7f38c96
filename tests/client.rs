use imdb::imdb::Header;
use imdb::{IMDb, Language};

#[test]
fn language_headers_and_descriptions() {
    let all = [
        (Language::en_US, "en-US", "American English"),
        (Language::en_GB, "en-GB", "British English"),
        (Language::it_IT, "it-IT", "Italian (Italy)"),
        (Language::fr_FR, "fr-FR", "French (France)"),
        (Language::de_DE, "de-DE", "German (Germany)"),
        (Language::da_DK, "da-DK", "Danish (Denmark)"),
    ];
    for (lang, tag, name) in all {
        assert_eq!(lang.accept_language_header(), tag);
        assert_eq!(lang.to_text(), tag);
        assert_eq!(lang.description(), name);
    }
}

#[test]
fn request_headers_follow_settings() {
    let mut c = IMDb::new();
    assert!(c.request_headers().is_empty());
    c.user_agent("agent/1.0".to_string());
    assert_eq!(c.request_headers(), vec![(Header::UserAgent, "agent/1.0".to_string())]);
    c.accept_language(Language::fr_FR);
    assert_eq!(
        c.request_headers(),
        vec![
            (Header::AcceptLanguage, "fr-FR".to_string()),
            (Header::UserAgent, "agent/1.0".to_string()),
        ]
    );
    assert_eq!(IMDb::top250_path(), "chart/top");
}
