use bmw_finder::config::{Condition, Configuration, OutputMode};
use bmw_finder::vehicle::{
    any_name_contains, has_equipment_name_like, has_equipment_names, vehicle_link,
    vehicle_matches_equipment,
};

fn vss_id() -> u128 {
    uuid::Uuid::parse_str("67e55044-10b1-426f-9247-bb680e5fe0c8")
        .unwrap()
        .as_u128()
}

/// The equipment names of the vehicle in the tests: every name of
/// equipments TEST42, TEST43 and TEST44, in all their locales.
fn three_equipments() -> Vec<String> {
    vec![
        String::from("Test asdasdasd"),
        String::from("Another name"),
        String::from("My equipment"),
        String::from("Another name2"),
        String::from("My second equipment"),
        String::from("Another name3"),
    ]
}

#[test]
fn get_new_link_when_usage_state_is_new() {
    let link = vehicle_link("NEW", vss_id());
    assert_eq!(
        link,
        "https://www.bmw.fr/fr-fr/sl/stocklocator#/details/67e55044-10b1-426f-9247-bb680e5fe0c8"
    )
}

#[test]
fn get_used_link_when_usage_state_is_used() {
    let link = vehicle_link("USED", vss_id());
    assert_eq!(
        link,
        "https://www.bmw.fr/fr-fr/sl/stocklocator_uc#/details/67e55044-10b1-426f-9247-bb680e5fe0c8"
    )
}

#[test]
fn get_used_link_when_state_is_not_new() {
    let link = vehicle_link("DEALER_YOUNG_USED", vss_id());
    assert_eq!(
        link,
        "https://www.bmw.fr/fr-fr/sl/stocklocator_uc#/details/67e55044-10b1-426f-9247-bb680e5fe0c8"
    )
}

#[test]
fn should_return_true_if_name_exists() {
    let names = vec![String::from("Test asdasdasd"), String::from("Another name")];
    let result = has_equipment_name_like(&names, "Test");
    assert_eq!(result, true);
}

#[test]
fn should_return_false_if_name_doesnt_exist() {
    let names: Vec<String> = vec![];
    assert_eq!(has_equipment_name_like(&names, "Test"), false);
}

#[test]
fn should_return_false_if_name_is_empty() {
    let names: Vec<String> = vec![];
    assert_eq!(has_equipment_name_like(&names, ""), false);
}

#[test]
fn should_return_true_when_equipment_names_exist() {
    let result = has_equipment_names(
        &three_equipments(),
        &[String::from("Test"), String::from("My equipment")],
    );
    assert_eq!(result, true);
}

#[test]
fn should_return_false_if_equipment_list_is_empty() {
    let names: Vec<String> = vec![];
    let result = has_equipment_names(&names, &[String::from("Test")]);
    assert_eq!(result, false);
}

#[test]
fn should_return_false_if_equipment_names_is_empty() {
    let result = has_equipment_names(&three_equipments(), &[]);
    assert_eq!(result, true);
}

#[test]
fn should_return_false_if_one_or_many_equipment_names_not_be_found() {
    let result = has_equipment_names(
        &three_equipments(),
        &[String::from("Test"), String::from("Not found")],
    );
    assert_eq!(result, false);
}

#[test]
fn equipment_name_matches_ignoring_case() {
    assert!(has_equipment_name_like(&three_equipments(), "MY SECOND"));
    assert!(has_equipment_name_like(&three_equipments(), "name3"));
    assert!(!has_equipment_name_like(&three_equipments(), "name4"));
}

#[test]
fn empty_name_matches_nothing_even_with_equipment() {
    assert!(!has_equipment_name_like(&three_equipments(), ""));
}

#[test]
fn lowered_names_are_compared_as_given() {
    let names = vec![String::from("pack innovation")];
    assert!(any_name_contains(&names, "innov"));
    assert!(!any_name_contains(&names, "Innov"));
    assert!(any_name_contains(&names, ""));
    assert!(!any_name_contains(&vec![], "a"));
}

fn configuration(equipment_names: Option<Vec<String>>) -> Configuration {
    Configuration {
        condition: Condition::New,
        limit: None,
        output: OutputMode::Text,
        models: vec![String::from("iX2_U10E")],
        equipment_names,
    }
}

#[test]
fn every_vehicle_matches_without_equipment_filter() {
    let names: Vec<String> = vec![];
    assert!(vehicle_matches_equipment(&names, &configuration(None)));
}

#[test]
fn equipment_filter_selects_vehicles() {
    let filter = configuration(Some(vec![String::from("pack m")]));
    assert!(!vehicle_matches_equipment(&three_equipments(), &filter));
    let names = vec![String::from("Pack M Sport")];
    assert!(vehicle_matches_equipment(&names, &filter));
}
