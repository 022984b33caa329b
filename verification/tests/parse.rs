use order_by::{Order, OrderBy, ParseQueryError};
use proptest::string::string_regex;
use proptest::test_runner::{Config, TestCaseError::Fail, TestRunner};

const ORDER_BY_QUERY_REGEX: &str = r"[_a-z][_a-z0-9]*(\.[_a-z][_a-z0-9]*)*( +(asc|desc))?( *, *[_a-z][_a-z0-9]*(\.[_a-z][_a-z0-9]*)*( +(asc|desc))?)*";

fn rendered(query: &str) -> String {
    OrderBy::new(query).unwrap().to_string()
}

fn refused(query: &str) -> String {
    let e: ParseQueryError = OrderBy::new(query).unwrap_err();
    e.to_string()
}

#[test]
fn arbitrary_queries_are_accepted() {
    let result = TestRunner::new(Config::with_cases(100)).run(
        &string_regex(ORDER_BY_QUERY_REGEX).unwrap(),
        |query| {
            OrderBy::new(&query)
                .map(|_| ())
                .map_err(|e| Fail(e.to_string().into()))
        },
    );
    assert!(result.is_ok());
}

#[test]
fn combined_clauses_render_in_canonical_form() {
    let fields = ["a", "_", "a1.b_2", "order_by", "asc", "desc.asc"];
    let directions = [("", "asc"), ("asc", "asc"), ("ASC", "asc"), ("desc", "desc"), ("DESC", "desc")];
    let paddings = ["", " ", "   "];
    let mut clauses: Vec<(String, String)> = Vec::new();
    for field in fields {
        for (direction, canonical) in directions {
            for lead in paddings {
                for trail in paddings {
                    let gap = if direction.is_empty() { "" } else { " " };
                    clauses.push((
                        format!("{lead}{field}{gap}{lead}{direction}{trail}"),
                        format!("{field} {canonical}"),
                    ));
                }
            }
        }
    }
    assert_eq!(clauses.len(), 270);
    for (i, (first, first_text)) in clauses.iter().enumerate() {
        assert_eq!(rendered(first), format!("order_by {first_text}"), "{:?}", first);
        let (second, second_text) = &clauses[(i * 7 + 3) % clauses.len()];
        let (third, third_text) = &clauses[(i * 11 + 5) % clauses.len()];
        let query = format!("{first},{second},{third}");
        let order_by = OrderBy::new(&query).unwrap();
        assert_eq!(order_by.len(), 3, "{:?}", query);
        assert_eq!(
            order_by.to_string(),
            format!("order_by {first_text},{second_text},{third_text}"),
            "{:?}",
            query
        );
    }
}

#[test]
fn directives_can_be_read() {
    let order_by = OrderBy::new("a desc, b.c, d ASC").unwrap();
    let orders = order_by.as_slice();
    assert_eq!(orders.len(), 3);
    assert!(matches!(&orders[0], Order::Desc(field) if field.as_str() == "a"));
    assert!(matches!(&orders[1], Order::Asc(field) if field.as_str() == "b.c"));
    assert!(matches!(&orders[2], Order::Asc(field) if field.as_str() == "d"));
    assert_eq!(orders[0].to_string(), "a desc");
    assert_eq!(orders[1].clone().to_string(), "b.c asc");
}

#[test]
fn copies_hold_the_same() {
    let order_by = OrderBy::new("a desc, b.c").unwrap();
    let copy = order_by.clone();
    assert_eq!(copy.len(), 2);
    assert_eq!(copy.to_string(), "order_by a desc,b.c asc");
    assert_eq!(order_by.to_string(), "order_by a desc,b.c asc");
    let e = OrderBy::new("A").unwrap_err();
    assert_eq!(e.clone().to_string(), e.to_string());
    assert_eq!(format!("{:?}", copy), format!("{:?}", order_by));
}

#[test]
fn test_parse_empty() {
    let order_by = OrderBy::new("");
    assert!(order_by.is_ok());
    let order_by = order_by.unwrap();
    assert!(order_by.is_empty());
    assert_eq!(order_by.to_string(), "".to_string());
}

#[test]
fn empty_query_has_no_directive() {
    let order_by = OrderBy::new("").unwrap();
    assert_eq!(order_by.len(), 0);
    assert_eq!(order_by.to_string(), "");
}

#[test]
fn malformed_field_names_are_refused() {
    assert!(OrderBy::new("Foo").is_err());
    assert!(OrderBy::new("1abc").is_err());
    assert!(OrderBy::new("a..b").is_err());
}

#[test]
fn malformed_field_name_message_shows_the_token() {
    assert_eq!(refused("Foo"), "failed to parse field_name: Foo");
    assert_eq!(refused("1abc"), "failed to parse field_name: 1abc");
    assert_eq!(refused("a..b"), "failed to parse field_name: a..b");
    assert_eq!(refused("ok, fOO desc"), "failed to parse field_name: fOO");
}

#[test]
fn direction_defaults_to_ascending() {
    assert_eq!(rendered("name"), "order_by name asc");
}

#[test]
fn direction_is_taken_in_both_cases() {
    assert_eq!(rendered("name DESC"), "order_by name desc");
    assert_eq!(rendered("name desc"), "order_by name desc");
    assert_eq!(rendered("name ASC"), "order_by name asc");
    assert_eq!(rendered("name asc"), "order_by name asc");
}

#[test]
fn direction_in_mixed_case_is_refused() {
    assert!(OrderBy::new("name Asc").is_err());
    assert!(OrderBy::new("name Desc").is_err());
    assert!(OrderBy::new("name dESC").is_err());
}

#[test]
fn clauses_keep_their_order() {
    assert_eq!(
        rendered("a, b desc, c.d asc"),
        "order_by a asc,b desc,c.d asc"
    );
    let order_by = OrderBy::new("a, b desc, c.d asc").unwrap();
    assert_eq!(order_by.len(), 3);
    assert!(!order_by.is_empty());
    assert_eq!(rendered("z desc,a,m"), "order_by z desc,a asc,m asc");
}

#[test]
fn unknown_direction_is_refused() {
    assert!(OrderBy::new("name up").is_err());
    assert_eq!(
        refused("name up"),
        "failed to parse (Some(\"name\"), Some(\"up\")): field(Some(\"name\"), order(Some(\"up\"))"
    );
}

#[test]
fn unknown_direction_is_reported_before_the_field() {
    assert_eq!(
        refused("Foo up"),
        "failed to parse (Some(\"Foo\"), Some(\"up\")): field(Some(\"Foo\"), order(Some(\"up\"))"
    );
    assert_eq!(refused("Foo desc"), "failed to parse field_name: Foo");
}

#[test]
fn clause_message_quotes_its_tokens() {
    assert_eq!(
        refused("a \"b\\"),
        "failed to parse (Some(\"a\"), Some(\"\\\"b\\\\\")): field(Some(\"a\"), order(Some(\"\\\"b\\\\\"))"
    );
    assert_eq!(
        refused("a b\tc"),
        "failed to parse (Some(\"a\"), Some(\"b\\tc\")): field(Some(\"a\"), order(Some(\"b\\tc\"))"
    );
}

#[test]
fn blank_clause_is_refused() {
    assert_eq!(
        refused(" "),
        "failed to parse (None, None): field(None, order(None)"
    );
    assert_eq!(
        refused("a, ,b"),
        "failed to parse (None, None): field(None, order(None)"
    );
    assert!(OrderBy::new("\t").is_err());
}

#[test]
fn empty_clauses_are_dropped() {
    assert_eq!(rendered("a,,b"), "order_by a asc,b asc");
    assert_eq!(rendered(",a"), "order_by a asc");
    assert_eq!(rendered("a,"), "order_by a asc");
    assert_eq!(rendered(",,a desc,,,b,,"), "order_by a desc,b asc");
    assert_eq!(rendered(","), "");
    assert_eq!(rendered(",,,"), "");
    assert!(OrderBy::new(",").unwrap().is_empty());
}

#[test]
fn first_refused_clause_decides() {
    assert_eq!(refused("a, B, c up"), "failed to parse field_name: B");
    assert_eq!(
        refused("a, c up, B"),
        "failed to parse (Some(\"c\"), Some(\"up\")): field(Some(\"c\"), order(Some(\"up\"))"
    );
    assert!(OrderBy::new("a, b, c, D").is_err());
}

#[test]
fn repeated_spaces_are_one_boundary() {
    assert_eq!(rendered("   name     desc   "), "order_by name desc");
    assert_eq!(rendered("  a  ,  b    ASC,c   "), "order_by a asc,b asc,c asc");
}

#[test]
fn tokens_after_the_second_are_not_read() {
    assert_eq!(rendered("name desc extra"), "order_by name desc");
    assert_eq!(rendered("name asc desc"), "order_by name asc");
    assert_eq!(rendered("name desc Not A Field !"), "order_by name desc");
    assert_eq!(
        refused("name   extra   tokens  here"),
        "failed to parse (Some(\"name\"), Some(\"extra\")): field(Some(\"name\"), order(Some(\"extra\"))"
    );
}

#[test]
fn white_space_around_a_clause_is_trimmed() {
    assert_eq!(rendered("\tname\n"), "order_by name asc");
    assert_eq!(rendered("\u{a0}name desc\u{3000}"), "order_by name desc");
    assert_eq!(rendered("a,\r\n b desc"), "order_by a asc,b desc");
}

#[test]
fn only_spaces_part_the_tokens() {
    assert_eq!(refused("name\tdesc"), "failed to parse field_name: name\tdesc");
    assert_eq!(
        refused("name \tdesc"),
        "failed to parse (Some(\"name\"), Some(\"\\tdesc\")): field(Some(\"name\"), order(Some(\"\\tdesc\"))"
    );
}

#[test]
fn field_must_match_as_a_whole() {
    assert!(OrderBy::new("name!").is_err());
    assert!(OrderBy::new("!name").is_err());
    assert!(OrderBy::new("na-me").is_err());
    assert!(OrderBy::new("name.").is_err());
    assert!(OrderBy::new(".name").is_err());
    assert!(OrderBy::new("nAme").is_err());
    assert!(OrderBy::new("n\u{e9}e").is_err());
}

#[test]
fn strings_of_the_grammar_are_accepted() {
    for query in [
        "a",
        "_",
        "_a1._b2.c_3",
        " a",
        "a ",
        "  a.b   ",
        "a asc",
        "a ASC",
        "a desc",
        "a DESC",
        "   a    desc   ",
        "a,b",
        "a , b",
        "a desc,b asc , c.d   DESC,   e",
        "x9.y8.z7 ASC,_ desc",
    ] {
        assert!(OrderBy::new(query).is_ok(), "{:?}", query);
    }
}

#[test]
fn canonical_text_parses_to_itself() {
    for query in [
        "",
        "name",
        "name DESC",
        "a, b desc, c.d asc",
        "  a  ,,  b    ASC,c  desc ignored ",
        "_x.y_1 DESC,_",
    ] {
        let text = rendered(query);
        let body = text.strip_prefix("order_by ").unwrap_or(&text);
        assert_eq!(rendered(body), text, "{:?}", query);
    }
    assert_eq!(rendered("a asc,b desc,c.d asc"), "order_by a asc,b desc,c.d asc");
}
