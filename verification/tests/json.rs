use gossip_glomers::common::json::parse;
use gossip_glomers::common::json::parse_line;
use gossip_glomers::common::json::to_text;
use gossip_glomers::common::json::Json;

#[test]
fn parses_a_line_into_its_members() {
    let tree = parse_line(r#"{"src":"c0","n":[1,-2,"x\n"],"o":{"k":null,"f":1.5}}"#).unwrap();
    assert_eq!(
        tree,
        Json::Object(vec![
            (
                "n".to_string(),
                Json::List(vec![Json::Int(1), Json::Int(-2), Json::Text("x\n".to_string())])
            ),
            (
                "o".to_string(),
                Json::Object(vec![
                    ("f".to_string(), Json::Other),
                    ("k".to_string(), Json::Other)
                ])
            ),
            ("src".to_string(), Json::Text("c0".to_string())),
        ])
    );
}

#[test]
fn rejects_a_line_that_is_no_object() {
    assert!(parse_line("[1,2]").is_err());
    assert!(parse_line("{\"a\":").is_err());
    assert!(parse_line("").is_err());
}

#[test]
fn reads_the_largest_and_smallest_numbers() {
    assert_eq!(parse("18446744073709551615", 1), Json::Int(18446744073709551615));
    assert_eq!(parse("-9223372036854775808", 1), Json::Int(-9223372036854775808));
    assert_eq!(parse("18446744073709551616", 1), Json::Other);
    assert_eq!(parse("1.0", 1), Json::Other);
}

#[test]
fn does_not_look_deeper_than_asked() {
    assert_eq!(parse("[[1]]", 1), Json::List(vec![Json::Other]));
    assert_eq!(parse("[[1]]", 2), Json::List(vec![Json::List(vec![Json::Int(1)])]));
}

#[test]
fn writes_members_in_their_order() {
    let tree = Json::Object(vec![
        ("src".to_string(), Json::Text("n\"0".to_string())),
        ("a".to_string(), Json::List(vec![Json::Int(-7), Json::Int(0), Json::Other])),
        ("e".to_string(), Json::List(vec![])),
        ("o".to_string(), Json::Object(vec![])),
    ]);
    assert_eq!(to_text(&tree), r#"{"src":"n\"0","a":[-7,0,null],"e":[],"o":{}}"#);
}

#[test]
fn writes_the_widest_numbers() {
    assert_eq!(
        to_text(&Json::Int(i128::MIN)),
        "-170141183460469231731687303715884105728"
    );
    assert_eq!(
        to_text(&Json::Int(i128::MAX)),
        "170141183460469231731687303715884105727"
    );
}
