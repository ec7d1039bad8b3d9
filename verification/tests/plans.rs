//! The SQLite statement builders and bind plans, and the worked example
//! record.

use tymigrawr::{
    CrudField, Error, FieldMap, HasCrudFields, IsCrudField, Player, Sqlite, Value, ValueType,
};

fn player_fields() -> Vec<CrudField> {
    Player::crud_fields()
}

#[test]
fn create_field_clauses_are_exact() {
    let fields = player_fields();
    assert_eq!(fields[0].sqlite_create_field(), "id INTEGER PRIMARY KEY  NOT NULL");
    assert_eq!(fields[1].sqlite_create_field(), "name TEXT   NOT NULL");

    let mut nullable = <i64 as IsCrudField>::field();
    nullable.name = "score".to_string();
    nullable.nullable = true;
    assert_eq!(nullable.sqlite_create_field(), "score INTEGER   ");

    let mut auto = <i64 as IsCrudField>::field();
    auto.name = "id".to_string();
    auto.primary_key = true;
    auto.auto_increment = true;
    assert_eq!(auto.sqlite_create_field(), "id INTEGER PRIMARY KEY AUTOINCREMENT NOT NULL");
}

#[test]
fn create_table_statement_lists_fields_in_order() {
    let statement = Sqlite::create_table_statement(&Player::table_name(), &player_fields());
    assert_eq!(
        statement,
        "CREATE TABLE IF NOT EXISTS player (id INTEGER PRIMARY KEY  NOT NULL, name TEXT   NOT NULL);"
    );
}

#[test]
fn select_statements_are_exact() {
    assert_eq!(
        Sqlite::select_all_statement(&"player".to_string()),
        "SELECT * FROM player;"
    );
    assert_eq!(
        Sqlite::select_where_statement(
            &"player".to_string(),
            &"id".to_string(),
            &"=".to_string()
        ),
        "SELECT * FROM player WHERE id = :key_value"
    );
    assert_eq!(
        Sqlite::delete_all_statement(&"player".to_string()),
        "DELETE FROM player;"
    );
}

#[test]
fn insert_plan_binds_every_column() {
    let player = Player { id: 3, name: "tymigrawr".to_string() };
    let plan = Sqlite::insert_plan(&Player::table_name(), &player.as_crud_fields());
    assert_eq!(plan.columns.len(), 2);
    assert_eq!(plan.binds.len(), 2);
    for (column, (param, value)) in plan.columns.iter().zip(plan.binds.iter()) {
        assert_eq!(param, &format!(":{column}"));
        match column.as_str() {
            "id" => assert_eq!(value, &Value::Integer(3)),
            "name" => assert_eq!(value, &Value::Text("tymigrawr".to_string())),
            other => panic!("unexpected column {other}"),
        }
    }
    let columns = plan.columns.join(", ");
    let params = plan
        .columns
        .iter()
        .map(|c| format!(":{c}"))
        .collect::<Vec<_>>()
        .join(", ");
    assert_eq!(
        plan.statement,
        format!("INSERT INTO player ({columns}) VALUES ({params});")
    );
}

#[test]
fn update_plan_sets_non_key_columns_and_matches_the_key() {
    let player = Player { id: 9, name: "developer".to_string() };
    let plan = Sqlite::update_plan(
        &Player::table_name(),
        &player_fields(),
        &player.as_crud_fields(),
    )
    .unwrap();
    assert_eq!(plan.statement, "UPDATE player SET name = :name WHERE id = :key_value");
    assert_eq!(plan.key_value, Value::Integer(9));
    assert_eq!(plan.columns, vec!["name".to_string()]);
    assert_eq!(
        plan.binds,
        vec![(":name".to_string(), Value::Text("developer".to_string()))]
    );
}

#[test]
fn delete_plan_matches_the_key() {
    let player = Player { id: 4, name: "gone".to_string() };
    let plan = Sqlite::delete_plan(
        &Player::table_name(),
        &player_fields(),
        &player.as_crud_fields(),
    )
    .unwrap();
    assert_eq!(
        plan.statement,
        "DELETE FROM player WHERE id = :key_value RETURNING *"
    );
    assert_eq!(plan.key_value, Value::Integer(4));
}

#[test]
fn plans_default_to_the_first_field_when_none_is_marked() {
    let mut unmarked = player_fields();
    unmarked[0].primary_key = false;
    let player = Player { id: 1, name: "x".to_string() };
    let map = player.as_crud_fields();

    let update = Sqlite::update_plan(&Player::table_name(), &unmarked, &map).unwrap();
    assert_eq!(update.statement, "UPDATE player SET name = :name WHERE id = :key_value");
    assert_eq!(update.key_value, Value::Integer(1));
    let delete = Sqlite::delete_plan(&Player::table_name(), &unmarked, &map).unwrap();
    assert_eq!(delete.statement, "DELETE FROM player WHERE id = :key_value RETURNING *");
    assert_eq!(delete.key_value, Value::Integer(1));
}

#[test]
fn plans_need_at_least_one_field() {
    let empty_fields: Vec<CrudField> = vec![];
    let map = FieldMap::new();

    let update = Sqlite::update_plan(&Player::table_name(), &empty_fields, &map);
    assert!(matches!(update, Err(Error::MissingPrimaryKey)));
    let delete = Sqlite::delete_plan(&Player::table_name(), &empty_fields, &map);
    assert!(matches!(delete, Err(Error::MissingPrimaryKey)));
}

#[test]
fn plans_need_a_value_for_the_key() {
    let mut map = FieldMap::new();
    map.insert("name".to_string(), Value::Text("x".to_string()));
    let update = Sqlite::update_plan(&Player::table_name(), &player_fields(), &map);
    assert!(matches!(update, Err(Error::MissingField(_))));
    let delete = Sqlite::delete_plan(&Player::table_name(), &player_fields(), &map);
    assert!(matches!(delete, Err(Error::MissingField(_))));
}

#[test]
fn example_record_round_trips() {
    let player = Player { id: 12, name: "tymigrawr".to_string() };
    let restored = Player::try_from_crud_fields(&player.as_crud_fields()).unwrap();
    assert_eq!(restored, player);

    assert_eq!(Player::table_name(), "player");
    assert_eq!(Player::primary_key_name(), "id");
    assert_eq!(player.primary_key_val(), Value::Integer(12));
    assert_eq!(player_fields()[0].ty, ValueType::Integer);

    let mut missing = player.as_crud_fields();
    missing.insert("id".to_string(), Value::Text("not a number".to_string()));
    assert!(matches!(
        Player::try_from_crud_fields(&missing),
        Err(Error::FieldConversion(_))
    ));
    let empty = FieldMap::new();
    assert!(matches!(
        Player::try_from_crud_fields(&empty),
        Err(Error::MissingField(_))
    ));
}

/// A record with no field marked as primary: its first declared field acts
/// as the key.
#[derive(Debug, Clone, PartialEq)]
struct Plain {
    a: i64,
    b: String,
}

impl HasCrudFields for Plain {
    type Model = ();

    fn table_name() -> String {
        "plain".to_string()
    }

    fn crud_fields() -> Vec<CrudField> {
        let mut a = <i64 as IsCrudField>::field();
        a.name = "a".to_string();
        let mut b = <String as IsCrudField>::field();
        b.name = "b".to_string();
        vec![a, b]
    }

    fn as_crud_fields(&self) -> FieldMap {
        let mut m = FieldMap::new();
        m.insert("a".to_string(), IsCrudField::into_value(&self.a));
        m.insert("b".to_string(), IsCrudField::into_value(&self.b));
        m
    }

    fn try_from_crud_fields(fields: &FieldMap) -> Result<Self, Error> {
        let a = fields
            .get("a")
            .and_then(|v| v.as_i64())
            .ok_or_else(|| Error::MissingField("a".to_string()))?;
        let b = fields
            .get("b")
            .and_then(|v| v.as_string())
            .cloned()
            .ok_or_else(|| Error::MissingField("b".to_string()))?;
        Ok(Plain { a, b })
    }
}

#[test]
fn unmarked_records_are_keyed_by_their_first_field() {
    let record = Plain { a: 5, b: "five".to_string() };
    assert_eq!(Plain::primary_key_name(), "a");
    assert_eq!(record.primary_key_val(), Value::Integer(5));
}
