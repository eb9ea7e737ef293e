use bmw_finder::config::Condition;
use bmw_finder::request::{build_search_url, NEW_CAR_URL, USED_CAR_URL};

#[test]
fn mod_test_build_search_url_with_defaults() {
    let url = build_search_url(Condition::New, 42, None).expect("Failed to build default URL");
    assert_eq!(
        url.as_str(),
        "https://stolo-data-service.prod.stolo.eu-central-1.aws.bmw.cloud/vehiclesearch/search/fr-fr/stocklocator?brand=BMW&maxResults=42&startIndex=0"
    );
}

#[test]
fn mod_test_build_search_url_for_new_cars() {
    let url =
        build_search_url(Condition::New, 42, None).expect("Failed to build URL for new cars");
    assert!(url.as_str().starts_with(NEW_CAR_URL));
}

#[test]
fn mod_test_build_search_url_for_used_cars() {
    let url =
        build_search_url(Condition::Used, 42, None).expect("Failed to build URL for used cars");
    assert!(url.as_str().starts_with(USED_CAR_URL));
}

#[test]
fn mod_test_build_search_url_with_max_results() {
    let url = build_search_url(Condition::New, 109, None)
        .expect("Failed to build URL with max_result");
    assert_eq!(
        url.as_str(),
        "https://stolo-data-service.prod.stolo.eu-central-1.aws.bmw.cloud/vehiclesearch/search/fr-fr/stocklocator?brand=BMW&maxResults=50&startIndex=0"
    );
}

#[test]
fn mod_test_build_search_url_with_start_index() {
    let url = build_search_url(Condition::New, 42, Some(42000))
        .expect("Failed to build URL with start index 42000");
    assert_eq!(
        url.as_str(),
        "https://stolo-data-service.prod.stolo.eu-central-1.aws.bmw.cloud/vehiclesearch/search/fr-fr/stocklocator?brand=BMW&maxResults=42&startIndex=42000"
    );
}

#[test]
fn search_test_build_search_url_with_defaults() {
    let url = build_search_url(Condition::New, 42, None).expect("Failed to build default URL");
    assert_eq!(
        url.as_str(),
        "https://stolo-data-service.prod.stolo.eu-central-1.aws.bmw.cloud/vehiclesearch/search/fr-fr/stocklocator?brand=BMW&maxResults=42&startIndex=0"
    );
}

#[test]
fn search_test_build_search_url_for_new_cars() {
    let url =
        build_search_url(Condition::New, 42, None).expect("Failed to build URL for new cars");
    assert!(url.as_str().starts_with(NEW_CAR_URL));
}

#[test]
fn search_test_build_search_url_for_used_cars() {
    let url =
        build_search_url(Condition::Used, 42, None).expect("Failed to build URL for used cars");
    assert!(url.as_str().starts_with(USED_CAR_URL));
}

#[test]
fn search_test_build_search_url_with_max_results() {
    let url = build_search_url(Condition::New, 109, None)
        .expect("Failed to build URL with max_result");
    assert_eq!(
        url.as_str(),
        "https://stolo-data-service.prod.stolo.eu-central-1.aws.bmw.cloud/vehiclesearch/search/fr-fr/stocklocator?brand=BMW&maxResults=50&startIndex=0"
    );
}

#[test]
fn search_test_build_search_url_with_start_index() {
    let url = build_search_url(Condition::New, 42, Some(42000))
        .expect("Failed to build URL with start index 42000");
    assert_eq!(
        url.as_str(),
        "https://stolo-data-service.prod.stolo.eu-central-1.aws.bmw.cloud/vehiclesearch/search/fr-fr/stocklocator?brand=BMW&maxResults=42&startIndex=42000"
    );
}

#[test]
fn used_url_with_page_size_exactly_at_cap() {
    let url = build_search_url(Condition::Used, 50, Some(100)).expect("url");
    assert_eq!(
        url,
        "https://stolo-data-service.prod.stolo.eu-central-1.aws.bmw.cloud/vehiclesearch/search/fr-fr/stocklocator_uc?brand=BMW&maxResults=50&startIndex=100"
    );
}

#[test]
fn url_with_largest_offset() {
    let url = build_search_url(Condition::New, 1, Some(u32::MAX)).expect("url");
    assert!(url.ends_with("?brand=BMW&maxResults=1&startIndex=4294967295"));
}
