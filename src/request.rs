//! The outbound request of one page: its URL and its body.
use vstd::prelude::*;
use vstd::arithmetic::power2::pow2;
use crate::config::{Condition, Configuration};
use crate::dto::{FilterWithValues, ResultsContext, SearchContext, SearchModel, SearchRequest, Sort, SortBy, SortOrder};
use crate::plan::MAX_RESULT;
use vstd::string::*;

verus! {

/// The endpoint that searches new vehicles.
pub const NEW_CAR_URL: &'static str = "https://stolo-data-service.prod.stolo.eu-central-1.aws.bmw.cloud/vehiclesearch/search/fr-fr/stocklocator";

/// The endpoint that searches used vehicles.
pub const USED_CAR_URL: &'static str = "https://stolo-data-service.prod.stolo.eu-central-1.aws.bmw.cloud/vehiclesearch/search/fr-fr/stocklocator_uc";

/// url's `ParseError`, the error of `Url::parse_with_params`; it is only
/// carried out of the wrapper below and mapped to `InvalidUrl`.
#[verifier::external_type_specification]
#[verifier::external_body]
pub struct ExParseError(url::ParseError);

/// The decimal digit for `d < 10`.
pub open spec fn digit_char(d: nat) -> char {
    (48 + d) as char
}

/// The decimal notation of `n`, without sign or leading zeros.
pub open spec fn decimal(n: nat) -> Seq<char>
    decreases n,
{
    if n < 10 {
        seq![digit_char(n)]
    } else {
        decimal(n / 10) + seq![digit_char(n % 10)]
    }
}

/// The lower-case hexadecimal digit for `v < 16`.
pub open spec fn hex_char(v: nat) -> char {
    if v < 10 {
        (48 + v) as char
    } else {
        (87 + v) as char
    }
}

/// The `k`-th of the 32 hexadecimal digits of `id`, most significant first.
pub open spec fn uuid_nibble(id: u128, k: int) -> nat {
    ((id as nat / pow2((4 * (31 - k)) as nat)) % 16) as nat
}

/// The hyphenated lower-case text of the identifier `id`, read big-endian:
/// 32 hexadecimal digits in groups of 8, 4, 4, 4 and 12, joined by '-'.
pub open spec fn uuid_text(id: u128) -> Seq<char> {
    Seq::new(
        36,
        |i: int|
            if i == 8 || i == 13 || i == 18 || i == 23 {
                '-'
            } else {
                let hyphens_before: int = if i < 8 {
                    0
                } else if i < 13 {
                    1
                } else if i < 18 {
                    2
                } else if i < 23 {
                    3
                } else {
                    4
                };
                hex_char(uuid_nibble(id, i - hyphens_before))
            },
    )
}

/// The URL that `url` builds from a base URL and query pairs, or `None`
/// where `url` refuses the base URL.
pub uninterp spec fn url_with_params(base: Seq<char>, params: Seq<(Seq<char>, Seq<char>)>) -> Option<
    Seq<char>,
>;

/// The text of query pairs.
pub open spec fn pairs_view(params: Seq<(String, String)>) -> Seq<(Seq<char>, Seq<char>)> {
    params.map_values(|p: (String, String)| (p.0@, p.1@))
}

/// Relies on the `Display` of `u32` in std: decimal digits, no sign, no
/// leading zeros.
#[verifier::external_body]
fn decimal_string(n: u32) -> (r: String)
    ensures
        r@ == decimal(n as nat),
{
    n.to_string()
}

/// Relies on uuid's `Uuid::from_u128`, which reads the value big-endian, and
/// on its `Display`, which writes the lower-case hyphenated form.
#[verifier::external_body]
pub(crate) fn uuid_string(id: u128) -> (r: String)
    ensures
        r@ == uuid_text(id),
{
    uuid::Uuid::from_u128(id).to_string()
}

/// Relies on url's `Url::parse_with_params`: parses the base URL and
/// appends the pairs, in order, to its query. It fails exactly where the
/// base URL does not parse, which depends on the arguments alone.
#[verifier::external_body]
fn parse_with_params(base: &str, params: &Vec<(String, String)>) -> (r: Result<String, url::ParseError>)
    ensures
        r is Ok <==> url_with_params(base@, pairs_view(params@)) is Some,
        r is Ok ==> r->Ok_0@ == url_with_params(base@, pairs_view(params@))->Some_0,
{
    reqwest::Url::parse_with_params(base, params.iter()).map(String::from)
}

/// The search URL could not be built.
#[derive(Clone, Copy, Debug, PartialEq, Eq, Structural)]
pub struct InvalidUrl;

/// The endpoint for vehicles of the given condition.
pub open spec fn base_url(condition: Condition) -> Seq<char> {
    match condition {
        Condition::New => NEW_CAR_URL@,
        Condition::Used => USED_CAR_URL@,
    }
}

/// The query of a page request: the brand, the page size capped at
/// `MAX_RESULT`, and the offset (0 when absent).
pub open spec fn search_params(max_result: u32, start_index: Option<u32>) -> Seq<
    (Seq<char>, Seq<char>),
> {
    let size = if max_result > MAX_RESULT { MAX_RESULT } else { max_result };
    let start = match start_index {
        Some(s) => s,
        None => 0,
    };
    seq![
        ("brand"@, "BMW"@),
        ("maxResults"@, decimal(size as nat)),
        ("startIndex"@, decimal(start as nat)),
    ]
}

/// Builds the URL of one page request.
pub fn build_search_url(condition: Condition, max_result: u32, start_index: Option<u32>) -> (r: Result<
    String,
    InvalidUrl,
>)
    ensures
        r is Ok <==> url_with_params(base_url(condition), search_params(max_result, start_index)) is Some,
        r is Ok ==> r->Ok_0@ == url_with_params(
            base_url(condition),
            search_params(max_result, start_index),
        )->Some_0,
{
    let base_url: &str = match condition {
        Condition::New => NEW_CAR_URL,
        Condition::Used => USED_CAR_URL,
    };
    let size: u32 = if max_result > MAX_RESULT { MAX_RESULT } else { max_result };
    let start: u32 = match start_index {
        Some(s) => s,
        None => 0,
    };
    let mut params: Vec<(String, String)> = Vec::new();
    params.push((String::from_str("brand"), String::from_str("BMW")));
    params.push((String::from_str("maxResults"), decimal_string(size)));
    params.push((String::from_str("startIndex"), decimal_string(start)));
    proof {
        assert(pairs_view(params@) =~= search_params(max_result, start_index));
    }
    match parse_with_params(base_url, &params) {
        Ok(url) => Ok(url),
        Err(_) => Err(InvalidUrl),
    }
}

impl SearchRequest {
    /// The body of a category search: the given model ranges, sorted by
    /// price in the given order.
    pub fn by_models(models: Vec<String>, order: SortOrder) -> (r: SearchRequest)
        ensures
            r.search_context@.len() == 1,
            r.search_context@[0].model == Some(
                SearchModel { marketing_model_range: FilterWithValues { value: models } },
            ),
            r.search_context@[0].vss_ids is None,
            r.results_context is Some,
            r.results_context->Some_0.sort@ == seq![Sort { by: SortBy::Price, order }],
    {
        let mut sort: Vec<Sort> = Vec::new();
        sort.push(Sort { by: SortBy::Price, order });
        let mut search_context: Vec<SearchContext> = Vec::new();
        search_context.push(
            SearchContext {
                model: Some(SearchModel { marketing_model_range: FilterWithValues { value: models } }),
                vss_ids: None,
            },
        );
        proof {
            assert(sort@ =~= seq![Sort { by: SortBy::Price, order }]);
        }
        SearchRequest { search_context, results_context: Some(ResultsContext { sort }) }
    }

    /// The body of a search for the models of a configuration, cheapest first.
    pub fn for_configuration(configuration: &Configuration) -> (r: SearchRequest)
        ensures
            r.search_context@.len() == 1,
            r.search_context@[0].model is Some,
            r.search_context@[0].model->Some_0.marketing_model_range.value@
                == configuration.models@,
            r.search_context@[0].vss_ids is None,
            r.results_context is Some,
            r.results_context->Some_0.sort@ == seq![Sort { by: SortBy::Price, order: SortOrder::Asc }],
    {
        let models = configuration.models.clone();
        proof {
            assert(models@ =~= configuration.models@);
        }
        SearchRequest::by_models(models, SortOrder::Asc)
    }

    /// The body of a lookup of one vehicle by the text of its identifier:
    /// no model filter and no sort.
    pub fn by_vss_id_text(vss_id: String) -> (r: SearchRequest)
        ensures
            r.search_context@.len() == 1,
            r.search_context@[0].model is None,
            r.search_context@[0].vss_ids is Some,
            r.search_context@[0].vss_ids->Some_0.value@ == seq![vss_id],
            r.results_context is None,
    {
        let mut value: Vec<String> = Vec::new();
        value.push(vss_id);
        let mut search_context: Vec<SearchContext> = Vec::new();
        search_context.push(SearchContext { model: None, vss_ids: Some(FilterWithValues { value }) });
        proof {
            assert(search_context@[0].vss_ids->Some_0.value@ =~= seq![vss_id]);
        }
        SearchRequest { search_context, results_context: None }
    }

    /// The body of a lookup of one vehicle by its identifier, written in
    /// hyphenated form.
    pub fn by_vss_id(vss_id: u128) -> (r: SearchRequest)
        ensures
            r.search_context@.len() == 1,
            r.search_context@[0].model is None,
            r.search_context@[0].vss_ids is Some,
            r.search_context@[0].vss_ids->Some_0.value@.len() == 1,
            r.search_context@[0].vss_ids->Some_0.value@[0]@ == uuid_text(vss_id),
            r.results_context is None,
    {
        SearchRequest::by_vss_id_text(uuid_string(vss_id))
    }
}

} // verus!
