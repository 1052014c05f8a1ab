use sparko_embedded_std::tz::TimeZone;

#[test]
fn every_zone_name_reads_back_as_the_zone() {
    for tz in TimeZone::iter() {
        assert_eq!(TimeZone::from_str(tz.to_str()), Some(tz));
    }
}

#[test]
fn zone_list_has_every_zone_once() {
    let zones = TimeZone::iter();
    assert_eq!(zones.len(), 22);
    assert_eq!(zones[0], TimeZone::EuropeLondon);
    assert_eq!(zones[21], TimeZone::Utc);
}

#[test]
fn utc_has_an_alternative_name() {
    assert_eq!(TimeZone::from_str("Etc/UTC"), Some(TimeZone::Utc));
    assert_eq!(TimeZone::from_str("UTC"), Some(TimeZone::Utc));
}

#[test]
fn unknown_zone_names_are_refused() {
    assert_eq!(TimeZone::from_str("Mars/Olympus"), None);
    assert_eq!(TimeZone::from_str("europe/london"), None);
    assert_eq!(TimeZone::from_str(""), None);
}

#[test]
fn posix_rules() {
    assert_eq!(TimeZone::EuropeLondon.to_posix_tz(), "GMT0BST,M3.5.0/1,M10.5.0/2");
    assert_eq!(TimeZone::EuropeRome.to_posix_tz(), "CET-1CEST,M3.5.0/2,M10.5.0/3");
    assert_eq!(TimeZone::AsiaKolkata.to_posix_tz(), "IST-5:30");
    assert_eq!(TimeZone::Utc.to_posix_tz(), "UTC0");
    assert_eq!(TimeZone::AmericaSaoPaulo.to_str(), "America/Sao_Paulo");
}
