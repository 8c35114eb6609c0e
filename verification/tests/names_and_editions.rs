use ra_db::{CrateName, Edition};

#[test]
fn name_without_dash_is_kept() {
    let name = CrateName::new("serde_json").unwrap();
    assert_eq!(name.to_string(), "serde_json");
    assert_eq!(name.as_str(), "serde_json");
    assert_eq!(CrateName::new("").unwrap().to_string(), "");
}

#[test]
fn name_with_dash_is_handed_back() {
    assert_eq!(CrateName::new("serde-json"), Err("serde-json"));
    assert_eq!(CrateName::new("-"), Err("-"));
    assert_eq!(CrateName::new("trailing-"), Err("trailing-"));
}

#[test]
fn normalize_replaces_every_dash() {
    assert_eq!(CrateName::normalize_dashes("a-b-c").to_string(), "a_b_c");
    assert_eq!(CrateName::normalize_dashes("--").to_string(), "__");
    assert_eq!(CrateName::normalize_dashes("plain").to_string(), "plain");
    assert_eq!(CrateName::normalize_dashes("").to_string(), "");
    assert_eq!(CrateName::normalize_dashes("é-ü").to_string(), "é_ü");
}

#[test]
fn normalize_is_idempotent() {
    let once = CrateName::normalize_dashes("my-crate-name").to_string();
    let twice = CrateName::normalize_dashes(&once).to_string();
    assert_eq!(once, twice);
    assert_eq!(CrateName::new(&once).unwrap().into_string(), "my_crate_name");
}

#[test]
fn edition_round_trip() {
    for edition in [Edition::Edition2015, Edition::Edition2018] {
        let text = edition.to_string();
        assert_eq!(Edition::from_str(&text).unwrap(), edition);
    }
    assert_eq!(Edition::Edition2015.to_string(), "2015");
    assert_eq!(Edition::Edition2018.to_string(), "2018");
}

#[test]
fn edition_rejects_other_text() {
    for text in ["", "2021", "2015 ", " 2018", "edition2018", "02015", "２０１８"] {
        let error = Edition::from_str(text).unwrap_err();
        assert_eq!(error.invalid_input(), text);
    }
}

#[test]
fn edition_error_quotes_the_input() {
    let error = Edition::from_str("20\"21").unwrap_err();
    assert_eq!(error.to_string(), "invalid edition: \"20\\\"21\"");
    let error = Edition::from_str("next").unwrap_err();
    assert_eq!(error.to_string(), "invalid edition: \"next\"");
}

#[test]
fn edition_parses_through_from_str() {
    assert_eq!("2018".parse::<Edition>().unwrap(), Edition::Edition2018);
    assert_eq!("2015".parse::<Edition>().unwrap(), Edition::Edition2015);
    assert!("2019".parse::<Edition>().is_err());
}
