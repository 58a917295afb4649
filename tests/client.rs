use openapi_gen::client::{
    encode_path, query_string, AccountCustomFields, Client, ImChat, Phone, QueryArg, QueryValue,
};
use openapi_gen::naming::identifier;

fn client() -> Client {
    Client::new("https://api.example.com".to_string(), "SECRET-REDACTED".to_string())
}

#[test]
fn constructors_keep_the_client() {
    let p = Phone::new(client());
    assert_eq!(p.client.host, "https://api.example.com");
    let c = ImChat::new(client());
    assert_eq!(c.client.token, "SECRET-REDACTED");
    let a = AccountCustomFields::new(client());
    assert_eq!(a.client.host, "https://api.example.com");
}

#[test]
fn path_values_are_escaped() {
    assert_eq!(encode_path("abc-1.2_~"), "abc-1.2_~");
    assert_eq!(encode_path("a b/c?d#e"), "a%20b%2Fc%3Fd%23e");
    assert_eq!(encode_path("é"), "%C3%A9");
    assert_eq!(encode_path(""), "");
}

#[test]
fn query_leaves_out_unset_optional_values() {
    let args = vec![
        QueryArg { name: "from".to_string(), value: QueryValue::Always("2021-01-01".to_string()) },
        QueryArg { name: "next_page_token".to_string(), value: QueryValue::Text(String::new()) },
        QueryArg { name: "page_size".to_string(), value: QueryValue::Number(30) },
        QueryArg { name: "pending".to_string(), value: QueryValue::Flag(false) },
        QueryArg { name: "zero".to_string(), value: QueryValue::Number(0) },
        QueryArg { name: "active".to_string(), value: QueryValue::Flag(true) },
    ];
    assert_eq!(query_string(&args), "from=2021-01-01&page_size=30&active=true");
    assert_eq!(query_string(&Vec::new()), "");
}

#[test]
fn identifiers_are_snake_case_and_escaped() {
    assert_eq!(identifier("itemId"), "item_id");
    assert_eq!(identifier("type"), "type_");
    assert_eq!(identifier("Ref"), "ref_");
    assert_eq!(identifier(""), "");
    assert_eq!(identifier("Match"), "match_");
    assert_eq!(identifier("loop"), "loop_");
}
