use footui::domain::{Confederation, Group, QualificationState, Stage, TeamId};
use footui::storage::migration_versions;

#[test]
fn ids_display_underlying_source_value() {
    let id = TeamId::from("43922");

    assert_eq!(id.as_str(), "43922");
    assert_eq!(id.to_text(), "43922");
}

#[test]
fn maps_fifa_qualification_status_to_single_state() {
    assert_eq!(QualificationState::from_fifa_status(Some("ConfirmedQualified")), QualificationState::Qualified);
    assert_eq!(
        QualificationState::from_fifa_status(Some("ConfirmedDisqualified")),
        QualificationState::Disqualified
    );
    assert_eq!(QualificationState::from_fifa_status(Some("CouldQualify")), QualificationState::Open);
    assert_eq!(QualificationState::from_fifa_status(None), QualificationState::Open);
}

#[test]
fn enum_values_match_sqlite_constraints() {
    assert_eq!(Confederation::all().map(Confederation::code), ["AFC", "CAF", "CONCACAF", "CONMEBOL", "OFC", "UEFA"]);
    assert_eq!(
        Stage::all().map(|stage| stage.id().to_text()),
        ["289273", "289287", "289288", "289289", "289290", "289291", "289292"]
    );
    assert_eq!(
        Group::all().map(|group| group.id().to_text()),
        [
            "289275", "289276", "289277", "289278", "289279", "289280", "289281", "289282", "289283", "289284",
            "289285", "289286"
        ]
    );
}

#[test]
fn rejects_unknown_fixed_tournament_values() {
    assert!(Confederation::from_code("XYZ").is_err());
    assert!(Stage::from_id("0").is_err());
    assert!(Group::from_id("0").is_err());
}

#[test]
fn migrations_are_sorted_and_unique() {
    let mut previous = "";

    for version in migration_versions() {
        assert!(version > previous);
        previous = version;
    }
}
