use vstd::prelude::*;

verus! {

/// Id of the saved query that maps a function selector to its signature.
pub const QUERY_FUNCTION_NAME_SIGNATURE: i32 = 1279121;

/// Id of the saved query that maps a contract address to its name.
pub const QUERY_CONTRACT_NAME: i32 = 1279874;

/// The character of a decimal digit.
pub open spec fn digit_char(d: nat) -> char {
    if d == 0 {
        '0'
    } else if d == 1 {
        '1'
    } else if d == 2 {
        '2'
    } else if d == 3 {
        '3'
    } else if d == 4 {
        '4'
    } else if d == 5 {
        '5'
    } else if d == 6 {
        '6'
    } else if d == 7 {
        '7'
    } else if d == 8 {
        '8'
    } else {
        '9'
    }
}

/// The decimal digits of `n`, most significant first, without leading zeros.
pub open spec fn digits_of(n: nat) -> Seq<char>
    decreases n,
{
    if n < 10 {
        seq![digit_char(n)]
    } else {
        digits_of(n / 10).push(digit_char(n % 10))
    }
}

/// The decimal text of `n`, with a leading `-` when it is negative.
pub open spec fn decimal_of(n: int) -> Seq<char> {
    if n < 0 {
        seq!['-'] + digits_of((-n) as nat)
    } else {
        digits_of(n as nat)
    }
}

/// `s` with every double quote taken out.
pub open spec fn without_quotes(s: Seq<char>) -> Seq<char>
    decreases s.len(),
{
    if s.len() == 0 {
        seq![]
    } else if s.last() == '"' {
        without_quotes(s.drop_last())
    } else {
        without_quotes(s.drop_last()).push(s.last())
    }
}

/// The text of one decimal digit.
fn digit_text(d: u32) -> (r: &'static str)
    requires
        d < 10,
    ensures
        r@ == seq![digit_char(d as nat)],
{
    proof {
        reveal_strlit("0");
        reveal_strlit("1");
        reveal_strlit("2");
        reveal_strlit("3");
        reveal_strlit("4");
        reveal_strlit("5");
        reveal_strlit("6");
        reveal_strlit("7");
        reveal_strlit("8");
        reveal_strlit("9");
    }
    match d {
        0 => "0",
        1 => "1",
        2 => "2",
        3 => "3",
        4 => "4",
        5 => "5",
        6 => "6",
        7 => "7",
        8 => "8",
        _ => "9",
    }
}

/// Appends the decimal digits of `n`.
fn append_digits(n: u32, out: &mut String)
    ensures
        final(out)@ == old(out)@ + digits_of(n as nat),
    decreases n,
{
    if n >= 10 {
        append_digits(n / 10, out);
    }
    out.append(digit_text(n % 10));
}

/// Appends the decimal text of `n`.
fn append_decimal(n: i32, out: &mut String)
    ensures
        final(out)@ == old(out)@ + decimal_of(n as int),
{
    if n < 0 {
        proof {
            reveal_strlit("-");
        }
        out.append("-");
        let magnitude = (-(n as i64)) as u32;
        append_digits(magnitude, out);
    } else {
        append_digits(n as u32, out);
    }
}

/// The endpoint that starts an execution of the saved query `query_id`.
pub fn format_query_url(query_id: i32) -> (r: String)
    ensures
        r@ == "https://api.dune.com/api/v1/query/"@ + decimal_of(query_id as int) + "/execute"@,
{
    let mut url = "https://api.dune.com/api/v1/query/".to_owned();
    append_decimal(query_id, &mut url);
    url.append("/execute");
    url
}

/// The endpoint that serves the results of an execution. `execution_id` is the
/// id as JSON text; its quotes are taken out.
pub fn format_execution_url(execution_id: &str) -> (r: String)
    ensures
        r@ == "https://api.dune.com/api/v1/execution/"@ + without_quotes(execution_id@)
            + "/results"@,
{
    let mut url = "https://api.dune.com/api/v1/execution/".to_owned();
    let ghost start = url@;
    let n = execution_id.unicode_len();
    let mut i: usize = 0;
    while i < n
        invariant
            i <= n,
            n == execution_id@.len(),
            url@ == start + without_quotes(execution_id@.take(i as int)),
        decreases n - i,
    {
        let c = execution_id.get_char(i);
        proof {
            assert(execution_id@.take(i + 1).drop_last() =~= execution_id@.take(i as int));
        }
        if c != '"' {
            let piece = execution_id.substring_char(i, i + 1);
            assert(piece@ =~= seq![c]);
            url.append(piece);
        }
        i = i + 1;
    }
    assert(execution_id@.take(n as int) =~= execution_id@);
    url.append("/results");
    url
}

/// Body of the request that runs the selector query for `function_signature`.
pub fn function_name_query_body(function_signature: &str) -> (r: String)
    ensures
        r@ == "{\n        \"query_parameters\": {\n            \"query_id\":\""@
            + function_signature@ + "\"\n        }\n      }"@,
{
    let mut body = "{\n        \"query_parameters\": {\n            \"query_id\":\"".to_owned();
    body.append(function_signature);
    body.append("\"\n        }\n      }");
    body
}

/// Body of the request that runs the contract query for `contract_address`.
pub fn contract_name_query_body(contract_address: &str) -> (r: String)
    ensures
        r@ == "{\n        \"query_parameters\": {\n            \"contract_address\":\""@
            + contract_address@ + "\"\n        }\n      }"@,
{
    let mut body = "{\n        \"query_parameters\": {\n            \"contract_address\":\"".to_owned();
    body.append(contract_address);
    body.append("\"\n        }\n      }");
    body
}

/// Whether serde_json reads `text` as one JSON value.
pub uninterp spec fn is_json(text: Seq<char>) -> bool;

/// The message of the error serde_json gives on `text`, where it is not JSON.
pub uninterp spec fn json_error_of(text: Seq<char>) -> Seq<char>;

/// The compact JSON text of the member `key` of the JSON value `text`; `null`
/// where there is no such member.
pub uninterp spec fn json_member_text(text: Seq<char>, key: Seq<char>) -> Seq<char>;

/// The compact JSON text of the element `index` of the JSON value `text`;
/// `null` where there is no such element.
pub uninterp spec fn json_element_text(text: Seq<char>, index: int) -> Seq<char>;

/// The content of the JSON value `text` where it is a string.
pub uninterp spec fn json_string_content(text: Seq<char>) -> Option<Seq<char>>;

/// Relies on serde_json::from_str for `Value`, then `value[key]` and its
/// `Display`: the member under `key` as compact JSON text (null where there is
/// none; indexing never panics), or the parse error's message.
#[verifier::external_body]
fn member_text(text: &str, key: &str) -> (r: Result<String, String>)
    ensures
        r is Ok <==> is_json(text@),
        r matches Ok(t) ==> t@ == json_member_text(text@, key@) && is_json(t@),
        r matches Err(m) ==> m@ == json_error_of(text@),
{
    match serde_json::from_str::<serde_json::Value>(text) {
        Ok(value) => Ok(value[key].to_string()),
        Err(error) => Err(error.to_string()),
    }
}

/// Relies on serde_json::from_str for `Value`, then `value[index]` and its
/// `Display`: the element at `index` as compact JSON text (null where there is
/// none; indexing never panics), or the parse error's message.
#[verifier::external_body]
fn element_text(text: &str, index: usize) -> (r: Result<String, String>)
    ensures
        r is Ok <==> is_json(text@),
        r matches Ok(t) ==> t@ == json_element_text(text@, index as int) && is_json(t@),
        r matches Err(m) ==> m@ == json_error_of(text@),
{
    match serde_json::from_str::<serde_json::Value>(text) {
        Ok(value) => Ok(value[index].to_string()),
        Err(error) => Err(error.to_string()),
    }
}

/// Relies on serde_json::from_str for `Value`, then `Value::as_str`: the
/// content of a JSON string, and `None` for any other text.
#[verifier::external_body]
fn string_content(text: &str) -> (r: Option<String>)
    ensures
        r matches Some(s) ==> json_string_content(text@) == Some(s@),
        r is None ==> json_string_content(text@) is None,
{
    match serde_json::from_str::<serde_json::Value>(text) {
        Ok(value) => value.as_str().map(String::from),
        Err(_) => None,
    }
}

/// How a JSON value reads to a person: a string's content, any other value's
/// JSON text.
pub open spec fn readable_of(json: Seq<char>) -> Seq<char> {
    match json_string_content(json) {
        Some(content) => content,
        None => json,
    }
}

/// How the JSON value `json` reads to a person.
pub fn readable_text(json: String) -> (r: String)
    ensures
        r@ == readable_of(json@),
{
    match string_content(json.as_str()) {
        Some(content) => content,
        None => json,
    }
}

/// The JSON text of the member `column` of the first result row of `results`.
pub open spec fn first_row_text(results: Seq<char>, column: Seq<char>) -> Seq<char> {
    json_member_text(
        json_element_text(json_member_text(json_member_text(results, "result"@), "rows"@), 0),
        column,
    )
}

/// The execution id, as JSON text, in the reply that started a query
/// execution; the parse error's message where the reply is not JSON.
pub fn execution_id_of(reply: &str) -> (r: Result<String, String>)
    ensures
        r is Ok <==> is_json(reply@),
        r matches Ok(t) ==> t@ == json_member_text(reply@, "execution_id"@),
        r matches Err(m) ==> m@ == json_error_of(reply@),
{
    member_text(reply, "execution_id")
}

/// The member `column` of the first result row in the reply with an
/// execution's results, as a person reads it (a string's content); the parse
/// error's message where the reply is not JSON.
pub fn first_row_column(results: &str, column: &str) -> (r: Result<String, String>)
    ensures
        r is Ok <==> is_json(results@),
        r matches Ok(t) ==> t@ == readable_of(first_row_text(results@, column@)),
        r matches Err(m) ==> m@ == json_error_of(results@),
{
    let result = member_text(results, "result")?;
    let rows = member_text(result.as_str(), "rows")?;
    let first = element_text(rows.as_str(), 0)?;
    let cell = member_text(first.as_str(), column)?;
    Ok(readable_text(cell))
}

} // verus!
