use grc20::filters::{self, AttributeFilter, PropFilter, VersionFilter};
use grc20::query::{ParamValue, QueryPart};

#[test]
fn prop_filter_compiles_to_named_clauses() {
    let f: PropFilter<String> = filters::value("x".to_string()).value_gt("a".to_string());
    let qp = f.into_query_part("n", "name");
    assert_eq!(
        qp.where_clauses,
        vec![
            "n.`name` = $n_name_value".to_string(),
            "n.`name` > $n_name_value_gt".to_string(),
        ],
    );
    assert_eq!(qp.params.len(), 2);
    assert_eq!(qp.params[0].key, "n_name_value");
    match &qp.params[0].value {
        ParamValue::Str(s) => assert_eq!(s, "x"),
        other => panic!("unexpected parameter value {other:?}"),
    }
    assert_eq!(qp.params[1].key, "n_name_value_gt");
}

#[test]
fn prop_filter_list_operations() {
    let f: PropFilter<String> =
        filters::value_in(vec!["a".to_string(), "b".to_string()]);
    let qp = f.into_query_part("e", "id");
    assert_eq!(qp.where_clauses, vec!["e.`id` IN $e_id_value_in".to_string()]);
    match &qp.params[0].value {
        ParamValue::StrList(l) => assert_eq!(l, &vec!["a".to_string(), "b".to_string()]),
        other => panic!("unexpected parameter value {other:?}"),
    }
}

#[test]
fn prop_filter_evaluation() {
    let f: PropFilter<String> = filters::value_gt("b".to_string()).value_lt("d".to_string());
    assert!(f.matches("c"));
    assert!(!f.matches("b"));
    assert!(!f.matches("d"));
    let f: PropFilter<String> = filters::value_not_in(vec!["x".to_string()]);
    assert!(f.matches("y"));
    assert!(!f.matches("x"));
}

#[test]
fn version_filter_clauses() {
    let live = VersionFilter::new(None).into_query_part("r");
    assert_eq!(live.where_clauses, vec!["r.max_version IS null".to_string()]);
    assert!(live.params.is_empty());

    let at = VersionFilter::new(Some("3".to_string())).into_query_part("r");
    assert_eq!(
        at.where_clauses,
        vec![
            "r.min_version <= $r_version".to_string(),
            "(r.max_version IS null OR r.max_version > $r_version)".to_string(),
        ],
    );
    assert_eq!(at.params[0].key, "r_version");
}

#[test]
fn merge_rejects_parameter_collisions() {
    let a = QueryPart::new().params("k".to_string(), ParamValue::Int(1));
    let b = QueryPart::new().params("k".to_string(), ParamValue::Int(2));
    assert!(a.clone().merge(b).is_err());
    let c = QueryPart::new().params("other".to_string(), ParamValue::Int(2));
    let merged = a.merge(c).expect("distinct keys merge");
    assert_eq!(merged.params.len(), 2);
}

#[test]
fn query_part_segments_compose() {
    let qp = QueryPart::new()
        .match_clause("(e:Entity)".to_string())
        .where_clause("e.id = $id".to_string())
        .return_clause("e".to_string())
        .order_by_clause("e.id".to_string())
        .skip(10)
        .limit(100);
    assert_eq!(qp.match_clauses, vec!["(e:Entity)".to_string()]);
    assert_eq!(qp.where_clauses, vec!["e.id = $id".to_string()]);
    assert_eq!(qp.return_clause, Some("e".to_string()));
    assert_eq!(qp.order_by_clause, Some("e.id".to_string()));
    assert_eq!(qp.skip, Some(10));
    assert_eq!(qp.limit, Some(100));
}

#[test]
fn attribute_filter_builds_without_collisions() {
    let af = AttributeFilter::new("name")
        .value(filters::value("Alice".to_string()))
        .space_id(filters::value("S1".to_string()))
        .version("2".to_string());
    let qp = af.into_query_part("e").expect("fresh variables cannot collide");
    assert_eq!(qp.match_clauses.len(), 1);
    assert!(qp.match_clauses[0].contains("ATTRIBUTE"));
    // One value clause, one space clause, two version clauses.
    assert_eq!(qp.where_clauses.len(), 4);
}
