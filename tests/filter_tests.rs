use news_digest::keywords::{
    bannedfilter, category, filter_stage, keyword_variants, mentions_any_keyword, FilterStage,
};
use news_digest::types::FilterConfig;

fn config(categories: &[&str], banned: &[&str]) -> FilterConfig {
    FilterConfig {
        categories: categories.iter().map(|s| s.to_string()).collect(),
        banned: banned.iter().map(|s| s.to_string()).collect(),
    }
}

#[test]
fn variants_follow_plural_rule() {
    assert_eq!(keyword_variants("sport"), vec!["sport".to_string(), "sports".to_string()]);
    assert_eq!(keyword_variants("games"), vec!["games".to_string(), "game".to_string()]);
    assert_eq!(keyword_variants("bass"), vec!["bass".to_string(), "ba".to_string()]);
    assert_eq!(keyword_variants(""), vec!["".to_string(), "s".to_string()]);
}

#[test]
fn ban_rejects_sport_in_any_case() {
    let cfg = config(&[], &["sport"]);
    assert!(!bannedfilter("Sports roundup", "scores", &cfg));
    assert!(!bannedfilter("Local sport club", "", &cfg));
    assert!(!bannedfilter("Weekend", "All about SPORTS", &cfg));
    assert!(bannedfilter("Markets rally", "stocks climb", &cfg));
}

#[test]
fn ban_plural_keyword_matches_singular() {
    let cfg = config(&[], &["Elections"]);
    assert!(!bannedfilter("Election day", "", &cfg));
    assert!(bannedfilter("Electoral map", "", &cfg));
}

#[test]
fn ban_with_empty_list_accepts() {
    let cfg = config(&["tech"], &[]);
    assert!(bannedfilter("Anything at all", "really", &cfg));
}

#[test]
fn category_tech_variants() {
    let cfg = config(&["tech"], &[]);
    assert!(category("New techs arrive", "", &cfg));
    assert!(category("Big Tech", "", &cfg));
    // substring matching: a longer word holding the keyword matches as well
    assert!(category("Gadgets", "technology news", &cfg));
    assert!(!category("Gardening", "roses and tulips", &cfg));
}

#[test]
fn mentions_any_keyword_on_lowered_text() {
    let ks = vec!["rain".to_string(), "snows".to_string()];
    assert!(mentions_any_keyword("heavy snow expected", "", &ks));
    assert!(mentions_any_keyword("", "rains again", &ks));
    assert!(!mentions_any_keyword("sunny", "dry", &ks));
}

#[test]
fn chain_short_circuits_on_ban() {
    let cfg = config(&["football"], &["sport"]);
    let stage = filter_stage("Sports: football final", "", &cfg);
    assert_eq!(stage, FilterStage::Banned);
    assert!(!stage.needs_classifier());
    assert!(!stage.survives(true));
}

#[test]
fn chain_category_bypasses_classifier() {
    let cfg = config(&["science"], &["gossip"]);
    let stage = filter_stage("Science week", "", &cfg);
    assert_eq!(stage, FilterStage::CategoryMatch);
    assert!(!stage.needs_classifier());
    assert!(stage.survives(false));
}

#[test]
fn chain_otherwise_asks_classifier() {
    let cfg = config(&["science"], &["gossip"]);
    let stage = filter_stage("City budget", "council vote", &cfg);
    assert_eq!(stage, FilterStage::NeedsClassifier);
    assert!(stage.needs_classifier());
    assert!(stage.survives(true));
    assert!(!stage.survives(false));
}
