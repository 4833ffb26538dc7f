use townfeed::currency::parse_currency;
use townfeed::dates::parse_date;
use townfeed::extract::{
    extract_nation, extract_peaceful, extract_residents, extract_resources,
    extract_trusted_players, extract_value,
};
use townfeed::town::{build_town, tier_title};

fn sample_desc() -> String {
    [
        "<div class=\"infowindow\">",
        "<span style=\"font-size:150%\">Member of Arcadia</span><br />",
        "<span style=\"font-weight:bold\">Mayor</span>: Alice<br />",
        "<span style=\"font-weight:bold\">Peaceful?</span> true<br />",
        "<span style=\"font-weight:bold\">Culture</span>: Norse<br />",
        "<span style=\"font-weight:bold\">Board</span>: Welcome travellers<br />",
        "<span style=\"font-weight:bold\">Bank</span>: $1,234.50<br />",
        "<span style=\"font-weight:bold\">Upkeep</span>: $20.00<br />",
        "<span style=\"font-weight:bold\">Founded</span>: Dec 1 2024<br />",
        "<span style=\"font-weight:bold\">Resources</span>: Iron, ,Gold,<br />",
        "<span style=\"font-weight:bold\">Residents (3)</span>: Alice, Bob , ,Carol<br />",
        "<span style=\"font-weight:bold\">Trusted Players</span>: Dave, Erin</div>",
    ]
    .concat()
}

#[test]
fn scalar_value_is_extracted_and_trimmed() {
    let desc = sample_desc();
    assert_eq!(extract_value(&desc, "Mayor"), "Alice");
    assert_eq!(extract_value(&desc, "Bank"), "$1,234.50");
    assert_eq!(extract_value(&desc, "Board"), "Welcome travellers");
}

#[test]
fn missing_labels_yield_documented_defaults() {
    let desc = "<span style=\"font-weight:bold\">Unrelated</span>: x<br />";
    assert_eq!(extract_value(desc, "Bank"), "0");
    assert_eq!(extract_value("", "Bank"), "0");
    assert_eq!(extract_residents(desc), Vec::<String>::new());
    assert_eq!(extract_resources(desc), Vec::<String>::new());
    assert_eq!(extract_trusted_players(desc), Vec::<String>::new());
    assert_eq!(extract_nation(desc), "");
    assert!(!extract_peaceful(desc));
}

#[test]
fn only_first_occurrence_is_honored() {
    let desc = "<span style=\"font-weight:bold\">Bank</span>: $5<br />\
                <span style=\"font-weight:bold\">Bank</span>: $9<br />";
    assert_eq!(extract_value(desc, "Bank"), "$5");
}

#[test]
fn label_may_be_preceded_inside_the_bold_span() {
    let desc = "<span style=\"font-weight:bold\">⚔ Bank </span>: 5<br />";
    assert_eq!(extract_value(desc, "Bank"), "5");
}

#[test]
fn value_without_line_break_is_not_a_match() {
    let desc = "<span style=\"font-weight:bold\">Bank</span>: 5";
    assert_eq!(extract_value(desc, "Bank"), "0");
}

#[test]
fn residents_are_trimmed_and_empties_dropped() {
    let desc = sample_desc();
    assert_eq!(extract_residents(&desc), vec!["Alice", "Bob", "Carol"]);
}

#[test]
fn resources_keep_empty_entries() {
    let desc = sample_desc();
    assert_eq!(extract_resources(&desc), vec!["Iron", "", "Gold", ""]);
}

#[test]
fn trusted_players_end_at_block_close() {
    let desc = sample_desc();
    assert_eq!(extract_trusted_players(&desc), vec!["Dave", "Erin"]);
    let with_br = "<span style=\"font-weight:bold\">Trusted Players</span>: X, Y<br />";
    assert_eq!(extract_trusted_players(with_br), vec!["X", "Y"]);
}

#[test]
fn nation_comes_from_the_membership_span() {
    assert_eq!(extract_nation(&sample_desc()), "Arcadia");
    assert_eq!(extract_nation("no membership here"), "");
}

#[test]
fn peaceful_accepts_the_token_case_insensitively() {
    assert!(extract_peaceful(&sample_desc()));
    let upper = "<span style=\"font-weight:bold\">Peaceful?</span> True<br />";
    assert!(extract_peaceful(upper));
    let falsy = "<span style=\"font-weight:bold\">Peaceful?</span> false<br />";
    assert!(!extract_peaceful(falsy));
    let junk = "<span style=\"font-weight:bold\">Peaceful?</span> maybe<br />";
    assert!(!extract_peaceful(junk));
}

#[test]
fn currency_parses_to_hundredths() {
    assert_eq!(parse_currency("$1,234.50"), 123450);
    assert_eq!((parse_currency("$1,234.50") as f64) / 100.0, 1234.50);
    assert_eq!(parse_currency(""), 0);
    assert_eq!(parse_currency("abc"), 0);
    assert_eq!(parse_currency("20"), 2000);
    assert_eq!(parse_currency("-5.25"), -525);
    assert_eq!(parse_currency("+7"), 700);
    assert_eq!(parse_currency("$5"), 500);
    assert_eq!(parse_currency("$$5"), 0);
    assert_eq!(parse_currency("1e3"), 0);
    assert_eq!(parse_currency("5."), 500);
    assert_eq!(parse_currency(".5"), 50);
    assert_eq!(parse_currency("."), 0);
    assert_eq!(parse_currency("1.239"), 123);
    assert_eq!(parse_currency("99999999999999999999999999"), 0);
}

#[test]
fn dates_parse_to_epoch_seconds() {
    assert_eq!(parse_date("Dec 1 2024"), 1733011200);
    assert_eq!(parse_date("Jan 1 1970"), 0);
    assert_eq!(parse_date("Feb 29 2024"), 1709164800);
    assert_eq!(parse_date("not a date"), 0);
    assert_eq!(parse_date(""), 0);
}

#[test]
fn tiers_follow_resident_counts() {
    assert_eq!(tier_title(0), "Eperopolis");
    assert_eq!(tier_title(1), "Homestead");
    assert_eq!(tier_title(5), "Hamlet");
    assert_eq!(tier_title(9), "Village");
    assert_eq!(tier_title(15), "Town");
    assert_eq!(tier_title(21), "Large Town");
    assert_eq!(tier_title(27), "City");
    assert_eq!(tier_title(35), "Large City");
    assert_eq!(tier_title(53), "Metropolis");
    assert_eq!(tier_title(77), "Conurbation");
    assert_eq!(tier_title(99), "Megalopolis");
    assert_eq!(tier_title(100), "Eperopolis");
}

#[test]
fn built_record_is_normalized() {
    let desc = sample_desc();
    let t = build_town("Astarte", &desc, 1700000000);
    assert_eq!(t.town_name, "Astarte");
    assert_eq!(t.town_name_lower, "astarte");
    assert_eq!(t.nation.as_deref(), Some("Arcadia"));
    assert_eq!(t.mayor, "Alice");
    assert!(t.peaceful);
    assert_eq!(t.culture, "Norse");
    assert_eq!(t.board, "Welcome travellers");
    assert_eq!(t.bank, 123450);
    assert_eq!(t.upkeep, 2000);
    assert_eq!(t.founded, 1733011200);
    assert_eq!(t.residents, vec!["Alice", "Bob", "Carol"]);
    assert_eq!(t.resources, vec!["Iron", "", "Gold", ""]);
    assert_eq!(t.trusted_players, vec!["Dave", "Erin"]);
    assert_eq!(t.area, 0);
    assert_eq!(t.coords, (0, 0));
    assert_eq!(t.last_updated, 1700000000);
}

#[test]
fn unaffiliated_towns_have_no_nation() {
    let desc = "<span style=\"font-weight:bold\">Mayor</span>: Bob<br />";
    let t = build_town("Plain", desc, 1);
    assert!(t.nation.is_none());
    assert_eq!(t.town_name_lower, "plain");
    assert_eq!(t.bank, 0);
    assert_eq!(t.founded, 0);
}
