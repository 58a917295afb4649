use openapi_gen::model::{
    Combine, Component, Document, ErrorKind, Field, Location, MediaType, Operation, ParamData, ParamRef,
    PathItem, RequestBody, Response, SchemaNode, Shape, SharedParam, Verb,
};
use openapi_gen::params::{classify, get_fn_params, query_bindings};
use openapi_gen::registry::{is_well_formed, TypeSpace};
use openapi_gen::table::Table;
use openapi_gen::synth::{describe_operation, generate_files, render_function};
use openapi_gen::template::{parse, Segment};

fn node(shape: Shape, desc: &str) -> SchemaNode {
    SchemaNode { shape, description: desc.to_string() }
}

fn object(fields: &[(&str, usize)]) -> Shape {
    Shape::Object {
        fields: fields.iter().map(|(n, i)| Field { name: n.to_string(), node: *i }).collect(),
    }
}

fn operation(id: &str, tags: &[&str]) -> Operation {
    Operation {
        operation_id: id.to_string(),
        tags: tags.iter().map(|t| t.to_string()).collect(),
        summary: None,
        description: None,
        external_docs: None,
        parameters: Vec::new(),
        request_body: None,
        responses: vec![Response { content: Vec::new() }],
    }
}

fn media(ct: &str, schema: Option<usize>) -> MediaType {
    MediaType { content_type: ct.to_string(), schema, has_encoding: false }
}

fn item(path: &str) -> PathItem {
    PathItem {
        path: path.to_string(),
        get: None,
        put: None,
        post: None,
        delete: None,
        options: None,
        head: None,
        patch: None,
        trace: None,
    }
}

fn param(name: &str, location: Location, schema: usize) -> ParamData {
    ParamData {
        name: name.to_string(),
        location,
        description: None,
        schema,
        required: false,
        form_style: location == Location::Query,
        allow_empty_value: None,
    }
}

fn doc(paths: Vec<PathItem>, nodes: Vec<SchemaNode>) -> Document {
    Document { paths, nodes, components: Vec::new(), parameters: Vec::new() }
}

fn items_doc() -> Document {
    let nodes = vec![
        node(Shape::Text, ""),
        node(object(&[("name", 0)]), "An item."),
    ];
    let mut get = operation("items_get_item", &["items"]);
    get.parameters = vec![ParamRef::Inline(ParamData {
        required: true,
        ..param("itemId", Location::Path, 0)
    })];
    get.responses = vec![Response { content: vec![media("application/json", Some(1))] }];
    let mut p = item("/items/{itemId}");
    p.get = Some(get);
    doc(vec![p], nodes)
}

#[test]
fn end_to_end_items() {
    let d = items_doc();
    let mut ts = TypeSpace::new();
    let groups = generate_files(&d, &mut ts).unwrap();
    assert_eq!(groups.len(), 1);
    assert_eq!(groups[0].tag, "items");
    let expected = "/**\n\
* This function performs a `GET` to the `/items/{itemId}` endpoint.\n\
*\n\
* **Parameters:**\n\
*\n\
* * `item_id: &str`\n\
*/\n\
pub async fn get_item(\n\
&self,\n\
item_id: &str,\n\
) -> Result<crate::types::ItemsGetItemResponse> {\n\
let url = format!(\"/items/{}\", crate::progenitor_support::encode_path(&item_id.to_string()));\n\
self.client.get(&url).await\n\
}\n\
\n";
    assert_eq!(groups[0].text, expected);
}

#[test]
fn generation_is_deterministic() {
    let d = items_doc();
    let mut a = TypeSpace::new();
    let mut b = TypeSpace::new();
    let first = generate_files(&d, &mut a).unwrap();
    let second = generate_files(&d, &mut b).unwrap();
    assert_eq!(first, second);
}

#[test]
fn anonymous_identical_schemas_share_an_identifier() {
    let d = doc(
        Vec::new(),
        vec![
            node(Shape::Text, ""),
            node(object(&[("id", 0)]), "first"),
            node(Shape::Text, ""),
            node(object(&[("id", 2)]), "second"),
        ],
    );
    let mut ts = TypeSpace::new();
    let a = ts.select(&d, None, 1, false, "").unwrap();
    let b = ts.select(&d, None, 3, false, "").unwrap();
    assert_eq!(a, b);
    let s1 = ts.select(&d, None, 0, false, "").unwrap();
    let s2 = ts.select(&d, None, 2, false, "").unwrap();
    assert_eq!(s1, s2);
    assert_eq!(ts.render_type(s1, false), "String");
    assert_eq!(ts.render_type(s1, true), "&str");
}

#[test]
fn named_schemas_never_share_an_identifier() {
    let d = doc(Vec::new(), vec![node(Shape::Text, ""), node(object(&[("id", 0)]), "")]);
    let mut ts = TypeSpace::new();
    let a = ts.select(&d, Some("pet"), 1, false, "").unwrap();
    let b = ts.select(&d, Some("owner"), 1, false, "").unwrap();
    let c = ts.select(&d, Some("pet"), 1, false, "").unwrap();
    assert_ne!(a, b);
    assert_ne!(a, c);
    assert_eq!(ts.render_type(a, false), "crate::types::Pet");
    assert_eq!(ts.render_type(b, false), "crate::types::Owner");
    assert_eq!(ts.render_type(c, false), "crate::types::Pet2");
}

#[test]
fn lists_render_owned_and_borrowed() {
    let d = doc(Vec::new(), vec![node(Shape::Text, ""), node(Shape::List { item: 0 }, "")]);
    let mut ts = TypeSpace::new();
    let id = ts.select(&d, None, 1, false, "").unwrap();
    assert_eq!(ts.render_type(id, false), "Vec<String>");
    assert_eq!(ts.render_type(id, true), "&[String]");
    let n = ts.select(&d, None, 0, true, "").unwrap();
    assert_eq!(ts.render_type(n, false), "Option<String>");
}

#[test]
fn render_docs_gives_description() {
    let d = doc(Vec::new(), vec![node(Shape::Integer, "How many.")]);
    let mut ts = TypeSpace::new();
    let id = ts.select(&d, None, 0, false, "").unwrap();
    assert_eq!(ts.render_docs(id), "How many.");
    assert_eq!(ts.render_type(id, false), "i64");
}

#[test]
fn references_resolve_to_components() {
    let mut d = doc(
        Vec::new(),
        vec![
            node(object(&[]), ""),
            node(Shape::Ref { target: "#/components/schemas/pet_owner".to_string() }, ""),
            node(Shape::Ref { target: "#/components/schemas/Missing".to_string() }, ""),
        ],
    );
    d.components = vec![Component { name: "pet_owner".to_string(), node: 0 }];
    let mut ts = TypeSpace::new();
    let id = ts.select(&d, None, 1, false, "").unwrap();
    assert_eq!(ts.render_type(id, false), "crate::types::PetOwner");
    let err = ts.select(&d, None, 2, false, "").unwrap_err();
    assert_eq!(err.kind(), ErrorKind::DanglingSchemaReference);
}

#[test]
fn tag_cardinality_is_enforced() {
    for tags in [vec![], vec!["a", "b"]] {
        let mut p = item("/things");
        p.get = Some(operation("list_things", &tags));
        let d = doc(vec![p], Vec::new());
        let mut ts = TypeSpace::new();
        let err = generate_files(&d, &mut ts).unwrap_err();
        assert_eq!(err.error.kind(), ErrorKind::TagCardinality);
        assert_eq!(err.path, "/things");
        assert_eq!(err.verb, Verb::Get);
        assert_eq!(err.operation_id, "list_things");
    }
    let mut p = item("/things");
    p.get = Some(operation("list_things", &["things"]));
    let d = doc(vec![p], Vec::new());
    let mut ts = TypeSpace::new();
    let groups = generate_files(&d, &mut ts).unwrap();
    assert_eq!(groups[0].tag, "things");
}

#[test]
fn query_parameters_are_sorted() {
    let nodes = vec![node(Shape::Text, "")];
    let mut op = operation("list_things", &["things"]);
    op.parameters = ["b", "a", "c"]
        .iter()
        .map(|n| ParamRef::Inline(param(n, Location::Query, 0)))
        .collect();
    let mut p = item("/things");
    p.get = Some(op.clone());
    let d = doc(vec![p], nodes);
    let mut ts = TypeSpace::new();
    let descs = get_fn_params(&mut ts, &d, &op.parameters).unwrap();
    let table = query_bindings(&descs);
    let keys: Vec<String> = table.entries.iter().map(|e| e.key.iter().collect()).collect();
    assert_eq!(keys, vec!["a", "b", "c"]);
    let text = parse("/things").unwrap().compile(&table);
    let a = text.find("query_args.push(format!(\"a=").unwrap();
    let b = text.find("query_args.push(format!(\"b=").unwrap();
    let c = text.find("query_args.push(format!(\"c=").unwrap();
    assert!(a < b && b < c);
    assert!(text.ends_with("let url = format!(\"/things?{}\", query);"));
}

#[test]
fn reserved_words_are_escaped() {
    let nodes = vec![node(Shape::Text, "")];
    let mut op = operation("list_things", &["things"]);
    op.parameters = vec![
        ParamRef::Inline(param("type", Location::Query, 0)),
        ParamRef::Inline(param("ref", Location::Query, 0)),
    ];
    let mut p = item("/things");
    p.get = Some(op.clone());
    let d = doc(vec![p], nodes);
    let mut ts = TypeSpace::new();
    let descs = get_fn_params(&mut ts, &d, &op.parameters).unwrap();
    assert_eq!(descs[0].ident, "type_");
    assert_eq!(descs[1].ident, "ref_");
    let b = descs[0].binding.as_ref().unwrap();
    assert_eq!(b.var, "type_");
    assert_eq!(b.expr, "type_");
    let mut ts = TypeSpace::new();
    let groups = generate_files(&d, &mut ts).unwrap();
    let text = &groups[0].text;
    assert!(text.contains("type_: &str, ref_: &str,"));
    assert!(text.contains("* * `type_: &str`"));
    assert!(text.contains("* * `ref_: &str`"));
    assert!(text.contains("if !type_.is_empty() {"));
    assert!(text.contains("query_args.push(format!(\"type={}\", type_));"));
}

#[test]
fn json_response_gets_a_named_type() {
    let nodes = vec![node(Shape::Text, ""), node(object(&[("id", 0)]), "")];
    let mut op = operation("get_thing", &["things"]);
    op.responses = vec![Response { content: vec![media("application/json", Some(1))] }];
    let mut p = item("/thing");
    p.get = Some(op);
    let d = doc(vec![p], nodes);
    let mut ts = TypeSpace::new();
    let groups = generate_files(&d, &mut ts).unwrap();
    assert!(groups[0].text.contains(") -> Result<crate::types::GetThingResponse> {"));
}

#[test]
fn plain_text_response_gets_an_anonymous_type() {
    let nodes = vec![node(Shape::Text, "")];
    let mut op = operation("get_thing", &["things"]);
    op.responses = vec![Response { content: vec![media("text/plain", Some(0))] }];
    let mut p = item("/thing");
    p.get = Some(op);
    let d = doc(vec![p], nodes);
    let mut ts = TypeSpace::new();
    let groups = generate_files(&d, &mut ts).unwrap();
    assert!(groups[0].text.contains(") -> Result<String> {"));
}

#[test]
fn empty_response_gives_unit() {
    let mut p = item("/thing");
    p.delete = Some(operation("delete_thing", &["things"]));
    let d = doc(vec![p], Vec::new());
    let mut ts = TypeSpace::new();
    let groups = generate_files(&d, &mut ts).unwrap();
    assert!(groups[0].text.contains(") -> Result<()> {"));
    assert!(groups[0].text.contains("self.client.delete(&url, None).await"));
}

fn single_error(op: Operation, nodes: Vec<SchemaNode>) -> ErrorKind {
    let mut p = item("/thing");
    p.get = Some(op);
    let d = doc(vec![p], nodes);
    let mut ts = TypeSpace::new();
    generate_files(&d, &mut ts).unwrap_err().error.kind()
}

#[test]
fn unknown_response_content_is_unrepresentable() {
    let mut op = operation("get_thing", &["things"]);
    op.responses = vec![Response { content: vec![media("application/xml", Some(0))] }];
    assert_eq!(single_error(op, vec![node(Shape::Text, "")]), ErrorKind::UnrepresentableResponse);
}

#[test]
fn json_encoding_is_refused() {
    let mut op = operation("get_thing", &["things"]);
    let mut m = media("application/json", Some(0));
    m.has_encoding = true;
    op.responses = vec![Response { content: vec![m] }];
    assert_eq!(single_error(op, vec![node(Shape::Text, "")]), ErrorKind::UnsupportedQuerySemantics);
}

#[test]
fn allow_empty_value_is_refused() {
    let mut op = operation("get_thing", &["things"]);
    op.parameters = vec![ParamRef::Inline(ParamData {
        allow_empty_value: Some(true),
        ..param("q", Location::Query, 0)
    })];
    assert_eq!(single_error(op, vec![node(Shape::Text, "")]), ErrorKind::UnsupportedQuerySemantics);
}

#[test]
fn unknown_parameter_reference_is_refused() {
    let mut op = operation("get_thing", &["things"]);
    op.parameters = vec![ParamRef::Named("#/components/parameters/Nope".to_string())];
    assert_eq!(single_error(op, vec![node(Shape::Text, "")]), ErrorKind::UnknownParameterReference);
}

#[test]
fn shared_parameters_resolve() {
    let mut d = doc(Vec::new(), vec![node(Shape::Integer, "")]);
    d.parameters = vec![SharedParam { name: "PageSize".to_string(), param: param("page_size", Location::Query, 0) }];
    let mut ts = TypeSpace::new();
    let r = ParamRef::Named("#/components/parameters/PageSize".to_string());
    let desc = classify(&mut ts, &d, &r).unwrap();
    assert_eq!(desc.ident, "page_size");
    assert_eq!(desc.type_text, "i64");
    let b = desc.binding.unwrap();
    assert_eq!(b.expr, "format!(\"{}\", page_size)");
}

#[test]
fn malformed_paths_are_refused() {
    for p in ["/a/{b", "/a/{}", "/a/}", "/a/{{b}}"] {
        assert_eq!(parse(p).unwrap_err().kind(), ErrorKind::MalformedTemplate);
    }
    let t = parse("/a/{b}/c").unwrap();
    assert_eq!(
        t.segments,
        vec![
            Segment::Literal("/a/".to_string()),
            Segment::Param("b".to_string()),
            Segment::Literal("/c".to_string()),
        ]
    );
    let mut op = operation("get_thing", &["things"]);
    op.responses = vec![Response { content: Vec::new() }];
    let mut p = item("/a/{b");
    p.get = Some(op);
    let d = doc(vec![p], Vec::new());
    let mut ts = TypeSpace::new();
    assert_eq!(generate_files(&d, &mut ts).unwrap_err().error.kind(), ErrorKind::MalformedTemplate);
}

#[test]
fn unauthenticated_methods_are_refused() {
    let mut p = item("/thing");
    p.options = Some(operation("probe_thing", &["things"]));
    let d = doc(vec![p], Vec::new());
    let mut ts = TypeSpace::new();
    assert_eq!(generate_files(&d, &mut ts).unwrap_err().error.kind(), ErrorKind::MissingAuthenticationContext);
}

#[test]
fn token_fetch_is_the_one_exception() {
    let mut p = item("/app/installations/{installation_id}/access_tokens");
    let mut op = operation("apps/create-installation-access-token", &["apps"]);
    op.parameters = vec![ParamRef::Inline(ParamData {
        required: true,
        ..param("installation_id", Location::Path, 0)
    })];
    p.post = Some(op);
    let d = doc(vec![p], vec![node(Shape::Integer, "")]);
    let mut ts = TypeSpace::new();
    let groups = generate_files(&d, &mut ts).unwrap();
    let text = &groups[0].text;
    assert!(text.contains("#[async_recursion::async_recursion]\npub async fn create_installation_access_token(\n"));
    assert!(text.contains("self.client.post_media("));
}

#[test]
fn methods_follow_the_fixed_order() {
    let mut p = item("/thing");
    p.post = Some(operation("things_create", &["things"]));
    p.get = Some(operation("things_read", &["things"]));
    let d = doc(vec![p], Vec::new());
    let mut ts = TypeSpace::new();
    let groups = generate_files(&d, &mut ts).unwrap();
    let text = &groups[0].text;
    assert!(text.find("pub async fn read(").unwrap() < text.find("pub async fn create(").unwrap());
}

#[test]
fn groups_are_keyed_by_tag_in_order() {
    let mut p = item("/thing");
    p.get = Some(operation("zebras_list", &["Zebras"]));
    p.put = Some(operation("apes_list", &["Apes"]));
    let d = doc(vec![p], Vec::new());
    let mut ts = TypeSpace::new();
    let groups = generate_files(&d, &mut ts).unwrap();
    let tags: Vec<&str> = groups.iter().map(|g| g.tag.as_str()).collect();
    assert_eq!(tags, vec!["apes", "zebras"]);
}

#[test]
fn request_bodies_pick_a_strategy() {
    let nodes = vec![node(Shape::Text, ""), node(object(&[("id", 0)]), "")];
    let mut json = operation("things_create", &["things"]);
    json.request_body = Some(RequestBody { content: vec![media("application/json", Some(1))] });
    let mut raw = operation("things_upload", &["things"]);
    raw.request_body = Some(RequestBody { content: vec![media("application/octet-stream", None)] });
    let mut text = operation("things_note", &["things"]);
    text.request_body = Some(RequestBody { content: vec![media("text/plain", Some(0))] });
    let mut p = item("/thing");
    p.post = Some(json);
    p.put = Some(raw);
    p.patch = Some(text);
    let d = doc(vec![p], nodes);
    let mut ts = TypeSpace::new();
    let groups = generate_files(&d, &mut ts).unwrap();
    let t = &groups[0].text;
    assert!(t.contains("body: &crate::types::ThingsCreateRequest\n"));
    assert!(t.contains("self.client.post(&url, Some(reqwest::Body::from(serde_json::to_vec(body).unwrap()))).await"));
    assert!(t.contains("pub async fn upload<B: Into<reqwest::Body>>(\n"));
    assert!(t.contains("self.client.put(&url, Some(body.into())).await"));
    assert!(t.contains("pub async fn note<T: Into<reqwest::Body>>(\n"));
    assert!(t.contains("body: T\n"));
}

#[test]
fn docs_carry_summary_description_and_link() {
    let mut op = operation("things_read", &["things"]);
    op.summary = Some("Read a thing.".to_string());
    op.description = Some("Line one\nline two".to_string());
    op.external_docs = Some("https://example.com/docs".to_string());
    op.parameters = vec![
        ParamRef::Inline(ParamData {
            description: Some("The filter.\nSecond line".to_string()),
            ..param("filter", Location::Query, 0)
        }),
        ParamRef::Inline(param("pageSize", Location::Query, 1)),
    ];
    let mut p = item("/thing");
    p.get = Some(op);
    let d = doc(vec![p], vec![node(Shape::Text, ""), node(Shape::Integer, "** Spaced out")]);
    let mut ts = TypeSpace::new();
    let groups = generate_files(&d, &mut ts).unwrap();
    let t = &groups[0].text;
    assert!(t.starts_with("/**\n* Read a thing.\n*\n* This function performs a `GET` to the `/thing` endpoint.\n*\n* Line one\n* line two\n*\n* FROM: <https://example.com/docs>\n*\n* **Parameters:**\n*\n"));
    assert!(t.contains("* * `filter: &str` -- The filter.\n*   Second line.\n"));
    assert!(t.contains("* * `page_size: i64` -- Spaced out.\n"));
    assert!(t.contains("if page_size > 0 {\n"));
}

#[test]
fn table_keeps_keys_ordered_and_unique() {
    let mut t: Table<u32> = Table::new();
    for (k, v) in [("b", 1), ("ab", 2), ("a", 3), ("b", 4)] {
        t.insert(k.chars().collect(), v);
    }
    let keys: Vec<String> = t.entries.iter().map(|e| e.key.iter().collect()).collect();
    assert_eq!(keys, vec!["a", "ab", "b"]);
    assert_eq!(t.get(&"b".chars().collect()), Some(&4));
    assert_eq!(t.get(&"c".chars().collect()), None);
    assert_eq!(t.len(), 3);
}

#[test]
fn well_formedness_is_checked() {
    let good = doc(Vec::new(), vec![node(Shape::Text, ""), node(Shape::List { item: 0 }, "")]);
    assert!(is_well_formed(&good));
    let bad = doc(Vec::new(), vec![node(Shape::List { item: 1 }, ""), node(Shape::Text, "")]);
    assert!(!is_well_formed(&bad));
    let bad_field = doc(Vec::new(), vec![node(object(&[("x", 0)]), "")]);
    assert!(!is_well_formed(&bad_field));
}

#[test]
fn scim_response_gets_a_named_type() {
    let nodes = vec![node(Shape::Text, ""), node(object(&[("id", 0)]), "")];
    let mut op = operation("users_get", &["users"]);
    op.responses = vec![Response { content: vec![media("application/scim+json", Some(1))] }];
    let mut p = item("/scim/users");
    p.get = Some(op);
    let d = doc(vec![p], nodes);
    let mut ts = TypeSpace::new();
    let groups = generate_files(&d, &mut ts).unwrap();
    assert!(groups[0].text.contains(") -> Result<crate::types::UsersGetResponse> {"));
}

#[test]
fn dangling_schema_stops_generation() {
    let mut op = operation("get_thing", &["things"]);
    op.responses = vec![Response { content: vec![media("application/json", Some(0))] }];
    let nodes = vec![node(Shape::Ref { target: "#/components/schemas/Gone".to_string() }, "")];
    assert_eq!(single_error(op, nodes), ErrorKind::DanglingSchemaReference);
}

#[test]
fn query_serialization_follows_the_type() {
    let nodes = vec![
        node(Shape::DateTime, ""),
        node(Shape::Boolean, ""),
        node(Shape::Text, ""),
        node(Shape::List { item: 2 }, ""),
    ];
    let mut op = operation("things_list", &["things"]);
    op.parameters = vec![
        ParamRef::Inline(param("since", Location::Query, 0)),
        ParamRef::Inline(param("active", Location::Query, 1)),
        ParamRef::Inline(param("labels", Location::Query, 3)),
        ParamRef::Inline(ParamData { required: true, ..param("name", Location::Query, 2) }),
    ];
    let d = doc(Vec::new(), nodes);
    let mut ts = TypeSpace::new();
    let descs = openapi_gen::params::get_fn_params(&mut ts, &d, &op.parameters).unwrap();
    let exprs: Vec<String> = descs.iter().map(|x| x.binding.as_ref().unwrap().expr.clone()).collect();
    // Joining list values by a space is this generator's chosen policy; the
    // description format does not fix a separator.
    assert_eq!(exprs, vec!["since.to_rfc3339()", "format!(\"{}\", active)", "labels.join(\" \")", "name.to_string()"]);
    assert_eq!(descs[0].type_text, "DateTime<Utc>");
    assert_eq!(descs[2].type_text, "&[String]");
    let table = query_bindings(&descs);
    let text = parse("/things").unwrap().compile(&table);
    assert!(text.contains("if active {\nquery_args.push(format!(\"active={}\", format!(\"{}\", active)));\n}\n"));
    assert!(text.contains("query_args.push(format!(\"name={}\", name.to_string()));\n"));
    assert!(!text.contains("if !name.is_empty()"));
}

#[test]
fn header_parameters_have_no_query_binding() {
    let d = doc(Vec::new(), vec![node(Shape::Text, "")]);
    let mut ts = TypeSpace::new();
    let r = ParamRef::Inline(param("X-Trace", Location::Header, 0));
    let desc = classify(&mut ts, &d, &r).unwrap();
    assert!(desc.binding.is_none());
    assert_eq!(desc.ident, "x_trace");
}

#[test]
fn descriptor_of_the_items_operation() {
    let d = items_doc();
    let op = d.paths[0].get.clone().unwrap();
    let mut ts = TypeSpace::new();
    let f = describe_operation(&mut ts, &d, "/items/{itemId}", Verb::Get, &op).unwrap();
    assert_eq!(f.tag, "items");
    assert_eq!(f.operation_id, "items_get_item");
    assert_eq!(f.name, "get_item");
    assert_eq!(f.params, vec!["item_id: &str,".to_string()]);
    assert_eq!(f.body_param, None);
    assert!(f.bounds.is_empty());
    assert_eq!(f.response_type, "crate::types::ItemsGetItemResponse");
    assert_eq!(
        f.url,
        "let url = format!(\"/items/{}\", crate::progenitor_support::encode_path(&item_id.to_string()));"
    );
    assert_eq!(f.call, "self.client.get(&url).await");
    let mut ts2 = TypeSpace::new();
    let groups = generate_files(&d, &mut ts2).unwrap();
    assert_eq!(render_function(&f), groups[0].text);
}

#[test]
fn response_precedence_cases() {
    let nodes = vec![node(Shape::Text, ""), node(object(&[("id", 0)]), "")];
    let d = doc(Vec::new(), nodes);
    let mut json = operation("get_thing", &["things"]);
    json.responses = vec![Response { content: vec![media("application/json", Some(1))] }];
    let mut ts = TypeSpace::new();
    let f = describe_operation(&mut ts, &d, "/thing", Verb::Get, &json).unwrap();
    assert_eq!(f.response_type, "crate::types::GetThingResponse");
    let mut text = operation("get_thing", &["things"]);
    text.responses = vec![Response { content: vec![media("text/plain", Some(0))] }];
    let f = describe_operation(&mut ts, &d, "/thing", Verb::Get, &text).unwrap();
    assert_eq!(f.response_type, "String");
    let mut both = operation("get_thing", &["things"]);
    both.responses = vec![Response {
        content: vec![media("text/plain", Some(0)), media("application/json", Some(1))],
    }];
    let f = describe_operation(&mut ts, &d, "/thing", Verb::Get, &both).unwrap();
    assert_eq!(f.response_type, "crate::types::GetThingResponse2");
}

#[test]
fn every_keyword_is_escaped() {
    let nodes = vec![node(Shape::Text, "")];
    let mut op = operation("list_things", &["things"]);
    op.parameters = ["match", "self", "async", "fn", "where", "matches"]
        .iter()
        .map(|n| ParamRef::Inline(param(n, Location::Query, 0)))
        .collect();
    let d = doc(Vec::new(), nodes);
    let mut ts = TypeSpace::new();
    let descs = openapi_gen::params::get_fn_params(&mut ts, &d, &op.parameters).unwrap();
    let idents: Vec<&str> = descs.iter().map(|x| x.ident.as_str()).collect();
    assert_eq!(idents, vec!["match_", "self_", "async_", "fn_", "where_", "matches"]);
    assert_eq!(descs[0].binding.as_ref().unwrap().expr, "match_");
    assert_eq!(descs[0].key, "match");
}

#[test]
fn run_error_names_the_failing_operation() {
    let mut ok = item("/first");
    ok.get = Some(operation("first_get", &["first"]));
    let mut bad = item("/second");
    bad.post = Some(operation("second_create", &[]));
    let d = doc(vec![ok, bad], Vec::new());
    let mut ts = TypeSpace::new();
    let err = generate_files(&d, &mut ts).unwrap_err();
    assert_eq!(err.error.kind(), ErrorKind::TagCardinality);
    assert_eq!(err.path, "/second");
    assert_eq!(err.verb, Verb::Post);
    assert_eq!(err.operation_id, "second_create");
}

#[test]
fn preferred_names_stay_distinct_past_many_collisions() {
    let d = doc(Vec::new(), vec![node(Shape::Text, ""), node(object(&[("id", 0)]), "")]);
    let mut ts = TypeSpace::new();
    let mut seen = std::collections::BTreeSet::new();
    for _ in 0..30 {
        let id = ts.select(&d, Some("pet"), 1, false, "").unwrap();
        assert!(seen.insert(ts.render_type(id, false)));
    }
    assert!(seen.contains("crate::types::Pet30"));
}

#[test]
fn composite_schemas_are_declared_and_deduplicated() {
    let d = doc(
        Vec::new(),
        vec![
            node(Shape::Text, ""),
            node(Shape::Integer, ""),
            node(Shape::Composite { combine: Combine::OneOf, parts: vec![0, 1] }, ""),
            node(Shape::Composite { combine: Combine::OneOf, parts: vec![0, 1] }, ""),
            node(Shape::Composite { combine: Combine::AllOf, parts: vec![0, 1] }, ""),
        ],
    );
    let mut ts = TypeSpace::new();
    let a = ts.select(&d, None, 2, false, "id or count").unwrap();
    let b = ts.select(&d, None, 3, false, "other").unwrap();
    let c = ts.select(&d, None, 4, false, "id or count").unwrap();
    assert_eq!(a, b);
    assert_ne!(a, c);
    assert_eq!(ts.render_type(a, false), "crate::types::IdOrCount");
    assert_eq!(ts.render_type(c, false), "crate::types::IdOrCount2");
    let bad = doc(Vec::new(), vec![node(Shape::Composite { combine: Combine::AnyOf, parts: vec![0] }, "")]);
    assert!(!is_well_formed(&bad));
}
