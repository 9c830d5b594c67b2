use bi::postgres::{exec_autocomp, exec_fulltext, get_by_pk, AutoComp, FullText, GetByPK, QueryError, WhoWhatWhere};
use bi::ui::{DisplayUI, Identifier, PK, PK32};

#[test]
fn it_works() {
    let result = 2 + 2;
    assert_eq!(result, 4);
}

// This is a demo for implementing the ui::DisplayUI trait
struct DemoThingy {
    id: i32,
    name: String,
}

impl DisplayUI for DemoThingy {
    fn name(&self) -> String {
        self.name.to_string()
    }
    fn pk(&self) -> PK {
        PK::Int32(self.id)
    }
    fn data_type() -> &'static str {
        "demo_thingy"
    }
}

impl PK32 for DemoThingy {
    fn pk_32(&self) -> i32 {
        self.id
    }
}

#[test]
fn display_ui_demo() {
    let d = DemoThingy { id: 3, name: "Chicago".to_string() };
    assert_eq!(d.name(), "Chicago");
    assert!(matches!(d.pk(), PK::Int32(3)));
    assert_eq!(d.pk_32(), 3);
    assert_eq!(DemoThingy::data_type(), "demo_thingy");
    assert!(d.sub_type().is_none());
}

// A fake row, shaped like what a database client hands back.
#[derive(Clone)]
struct FakeRow {
    id: i32,
    name: String,
}

fn row(id: i32, name: &str) -> FakeRow {
    FakeRow { id, name: name.to_string() }
}

#[derive(Debug, PartialEq)]
struct Widget {
    id: i32,
    name: String,
}

impl GetByPK for Widget {
    type Row = FakeRow;

    fn query_get_by_pk() -> &'static str {
        "SELECT id, name FROM widget WHERE id = $1"
    }
    fn rowfunc_get_by_pk(r: &FakeRow) -> Widget {
        Widget { id: r.id, name: r.name.clone() }
    }
}

impl DisplayUI for Widget {
    fn name(&self) -> String {
        self.name.clone()
    }
    fn pk(&self) -> PK {
        PK::Int32(self.id)
    }
    fn data_type() -> &'static str {
        "widget"
    }
}

// A fake client for the widget lookup: one row for key 42, none otherwise.
fn widget_client(params: &[i32]) -> Vec<FakeRow> {
    if params == [42] {
        vec![row(42, "Blue Widget")]
    } else {
        vec![]
    }
}

#[test]
fn get_by_pk_one_row() {
    let outcome = Ok(widget_client(&[42]));
    let w: Widget = get_by_pk::<Widget>(outcome).expect("one matching row");
    assert_eq!(w, Widget { id: 42, name: "Blue Widget".to_string() });
    assert!(matches!(w.pk(), PK::Int32(42)));
}

#[test]
fn get_by_pk_zero_rows_is_not_found() {
    let outcome = Ok(widget_client(&[999]));
    match get_by_pk::<Widget>(outcome) {
        Err(QueryError::NotFound(m)) => assert_eq!(m, "could not get by PK"),
        other => panic!("expected NotFound, got {:?}", other.map(|w| w.name)),
    }
}

#[test]
fn get_by_pk_uses_first_row_only() {
    let rows = vec![row(1, "first"), row(2, "second")];
    let w: Widget = get_by_pk::<Widget>(Ok(rows)).expect("rows were returned");
    assert_eq!(w, Widget { id: 1, name: "first".to_string() });
}

#[test]
fn get_by_pk_propagates_execution_error() {
    match get_by_pk::<Widget>(Err("connection reset".to_string())) {
        Err(QueryError::Execution(m)) => assert_eq!(m, "connection reset"),
        _ => panic!("expected Execution"),
    }
}

#[test]
fn get_by_pk_is_idempotent() {
    let first = get_by_pk::<Widget>(Ok(widget_client(&[42]))).expect("row");
    let second = get_by_pk::<Widget>(Ok(widget_client(&[42]))).expect("row");
    assert_eq!(first, second);
}

impl FullText for Widget {
    type Row = FakeRow;

    fn query_fulltext() -> &'static str {
        "SELECT id, name FROM widget WHERE ts @@ to_tsquery($1)"
    }
    fn rowfunc_fulltext(r: &FakeRow) -> Widget {
        Widget { id: r.id, name: r.name.clone() }
    }
}

#[test]
fn fulltext_zero_rows_is_empty_not_error() {
    let hits: Vec<Widget> = exec_fulltext::<Widget>(Ok(vec![])).expect("no error");
    assert!(hits.is_empty());
}

#[test]
fn fulltext_keeps_client_row_order() {
    let rows = vec![row(9, "third"), row(4, "first"), row(7, "second")];
    let hits: Vec<Widget> = exec_fulltext::<Widget>(Ok(rows)).expect("no error");
    assert_eq!(
        hits,
        vec![
            Widget { id: 9, name: "third".to_string() },
            Widget { id: 4, name: "first".to_string() },
            Widget { id: 7, name: "second".to_string() },
        ]
    );
}

#[test]
fn fulltext_propagates_execution_error() {
    match exec_fulltext::<Widget>(Err("syntax error".to_string())) {
        Err(QueryError::Execution(m)) => assert_eq!(m, "syntax error"),
        _ => panic!("expected Execution"),
    }
}

#[test]
fn fulltext_is_idempotent() {
    let rows = vec![row(1, "a"), row(2, "b")];
    let first: Vec<Widget> = exec_fulltext::<Widget>(Ok(rows.clone())).expect("no error");
    let second: Vec<Widget> = exec_fulltext::<Widget>(Ok(rows)).expect("no error");
    assert_eq!(first, second);
}

struct City;

impl AutoComp<PK> for City {
    type Row = FakeRow;

    fn query_autocomp() -> &'static str {
        "SELECT id, name FROM city WHERE ts @@ to_tsquery($1) LIMIT 10"
    }
    fn rowfunc_autocomp(r: &FakeRow) -> WhoWhatWhere<PK> {
        WhoWhatWhere { data_type: "city", pk: PK::Int32(r.id), name: r.name.clone() }
    }
}

// A fake client for the autocomplete search on the phrase "chi".
fn city_client(phrase: &str) -> Vec<FakeRow> {
    if phrase == "chi" {
        vec![row(1, "Chicago"), row(2, "Chico")]
    } else {
        vec![]
    }
}

#[test]
fn autocomp_two_rows_in_client_order() {
    let hits = exec_autocomp::<PK, City>(Ok(city_client("chi"))).expect("no error");
    assert_eq!(hits.len(), 2);
    assert_eq!(hits[0].data_type, "city");
    assert_eq!(hits[0].name, "Chicago");
    assert!(matches!(hits[0].pk, PK::Int32(1)));
    assert_eq!(hits[1].data_type, "city");
    assert_eq!(hits[1].name, "Chico");
    assert!(matches!(hits[1].pk, PK::Int32(2)));
}

#[test]
fn autocomp_zero_rows_is_empty_not_error() {
    let hits = exec_autocomp::<PK, City>(Ok(city_client("zzz"))).expect("no error");
    assert!(hits.is_empty());
}

#[test]
fn identifier_built_from_autocomp_hit() {
    let hits = exec_autocomp::<PK, City>(Ok(city_client("chi"))).expect("no error");
    let first = &hits[0];
    let ident = Identifier {
        data_type: first.data_type,
        name: first.name.clone(),
        pk: PK::Int32(1),
    };
    assert_eq!(ident.data_type, "city");
    assert_eq!(ident.name, "Chicago");
    assert!(matches!(ident.pk, PK::Int32(1)));
}
