use yul_lsp::dune_apis::{
    contract_name_query_body, execution_id_of, first_row_column, format_execution_url, format_query_url, function_name_query_body, readable_text,
    QUERY_CONTRACT_NAME, QUERY_FUNCTION_NAME_SIGNATURE,
};

#[test]
fn query_url_holds_the_query_id() {
    assert_eq!(
        format_query_url(QUERY_FUNCTION_NAME_SIGNATURE),
        "https://api.dune.com/api/v1/query/1279121/execute"
    );
    assert_eq!(
        format_query_url(QUERY_CONTRACT_NAME),
        "https://api.dune.com/api/v1/query/1279874/execute"
    );
}

#[test]
fn query_url_of_edge_ids() {
    assert_eq!(format_query_url(0), "https://api.dune.com/api/v1/query/0/execute");
    assert_eq!(format_query_url(-45), "https://api.dune.com/api/v1/query/-45/execute");
    assert_eq!(
        format_query_url(i32::MIN),
        "https://api.dune.com/api/v1/query/-2147483648/execute"
    );
    assert_eq!(
        format_query_url(i32::MAX),
        "https://api.dune.com/api/v1/query/2147483647/execute"
    );
}

#[test]
fn execution_url_drops_the_quotes() {
    assert_eq!(
        format_execution_url("\"01HK3X\""),
        "https://api.dune.com/api/v1/execution/01HK3X/results"
    );
    assert_eq!(
        format_execution_url("42"),
        "https://api.dune.com/api/v1/execution/42/results"
    );
}

#[test]
fn query_bodies_carry_the_parameter() {
    assert_eq!(
        function_name_query_body("0x70a08231"),
        "{\n        \"query_parameters\": {\n            \"query_id\":\"0x70a08231\"\n        }\n      }"
    );
    assert_eq!(
        contract_name_query_body("0xe592427a0aece92de3edee1f18e0157c05861564"),
        "{\n        \"query_parameters\": {\n            \"contract_address\":\"0xe592427a0aece92de3edee1f18e0157c05861564\"\n        }\n      }"
    );
}

#[test]
fn execution_id_is_read_from_the_reply() {
    let reply = "{\"execution_id\":\"01HK3X\",\"state\":\"QUERY_STATE_PENDING\"}";
    assert_eq!(execution_id_of(reply), Ok("\"01HK3X\"".to_string()));
    let url = format_execution_url(&execution_id_of(reply).unwrap());
    assert_eq!(url, "https://api.dune.com/api/v1/execution/01HK3X/results");
}

#[test]
fn missing_execution_id_reads_as_null() {
    assert_eq!(execution_id_of("{\"state\":\"x\"}"), Ok("null".to_string()));
    assert_eq!(execution_id_of("[1, 2]"), Ok("null".to_string()));
}

fn parse_error_of(text: &str) -> String {
    serde_json::from_str::<serde_json::Value>(text).unwrap_err().to_string()
}

#[test]
fn reply_that_is_not_json_gives_the_parse_error() {
    let reply = "<html>busy</html>";
    assert_eq!(execution_id_of(reply), Err(parse_error_of(reply)));
    assert_eq!(first_row_column("", "signature"), Err(parse_error_of("")));
    assert!(!parse_error_of("").is_empty());
}

#[test]
fn first_row_column_is_read_from_results() {
    let results = "{\"result\":{\"rows\":[{\"signature\":\"balanceOf(address)\",\"name\":\"SwapRouter\"},{\"signature\":\"other()\"}]}}";
    assert_eq!(first_row_column(results, "signature"), Ok("balanceOf(address)".to_string()));
    assert_eq!(first_row_column(results, "name"), Ok("SwapRouter".to_string()));
    assert_eq!(first_row_column("{\"result\":{\"rows\":[]}}", "name"), Ok("null".to_string()));
}

#[test]
fn non_string_cells_keep_their_json_text() {
    let results = "{\"result\":{\"rows\":[{\"count\":42,\"tags\":[\"a\",\"b\"]}]}}";
    assert_eq!(first_row_column(results, "count"), Ok("42".to_string()));
    assert_eq!(first_row_column(results, "tags"), Ok("[\"a\",\"b\"]".to_string()));
}

#[test]
fn readable_text_unquotes_strings_only() {
    assert_eq!(readable_text("\"a \\\"b\\\"\"".to_string()), "a \"b\"");
    assert_eq!(readable_text("null".to_string()), "null");
    assert_eq!(readable_text("not json".to_string()), "not json");
}
