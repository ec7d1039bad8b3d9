//! Whole-record CRUD and the migration chain over a real SQLite database,
//! driven by the verified statement builders and plans.

use tymigrawr::{
    advance_record, CrudField, Error, FieldMap, FloatBits, HasCrudFields, IsCrudField,
    MigrateEntireTable, MigrationDriver, Migrations, Sqlite, Value,
};

fn to_sqlite_value(v: &Value) -> sqlite::Value {
    match v {
        Value::Integer(i) => sqlite::Value::Integer(*i),
        Value::Float(b) => sqlite::Value::Float(f64::from_bits(*b)),
        Value::Text(s) => sqlite::Value::String(s.clone()),
        Value::Bytes(b) => sqlite::Value::Binary(b.clone()),
        Value::Null => sqlite::Value::Null,
    }
}

fn from_sqlite_value(v: &sqlite::Value) -> Value {
    match v {
        sqlite::Value::Integer(i) => Value::Integer(*i),
        sqlite::Value::Float(f) => Value::Float(f.to_bits()),
        sqlite::Value::String(s) => Value::Text(s.clone()),
        sqlite::Value::Binary(b) => Value::Bytes(b.clone()),
        sqlite::Value::Null => Value::Null,
    }
}

fn backend_err(e: sqlite::Error) -> Error {
    Error::Backend(e.to_string())
}

fn create<T: HasCrudFields>(conn: &sqlite::Connection) -> Result<(), Error> {
    let statement = Sqlite::create_table_statement(&T::table_name(), &T::crud_fields());
    conn.execute(statement).map_err(backend_err)
}

fn insert<T: HasCrudFields>(record: &T, conn: &sqlite::Connection) -> Result<(), Error> {
    let plan = Sqlite::insert_plan(&T::table_name(), &record.as_crud_fields());
    let mut query = conn.prepare(plan.statement.as_str()).map_err(backend_err)?;
    for (name, value) in plan.binds.iter() {
        query
            .bind((name.as_str(), to_sqlite_value(value)))
            .map_err(backend_err)?;
    }
    match query.next() {
        Ok(sqlite::State::Done) => Ok(()),
        Ok(_) => Err(Error::Backend("insert query not done".to_string())),
        Err(e) => Err(backend_err(e)),
    }
}

fn decode_row<T: HasCrudFields>(row: &sqlite::Row) -> Result<T, Error> {
    let mut fields = FieldMap::new();
    for field in T::crud_fields() {
        if !row.contains(field.name.as_str()) {
            return Err(Error::RowDecode(format!("missing column {}", field.name)));
        }
        let value = &row[field.name.as_str()];
        fields.insert(field.name, from_sqlite_value(value));
    }
    T::try_from_crud_fields(&fields)
}

fn read_where<T: HasCrudFields>(
    conn: &sqlite::Connection,
    key_name: &str,
    comparison: &str,
    key_value: Value,
) -> Result<Vec<Result<T, Error>>, Error> {
    let statement = Sqlite::select_where_statement(
        &T::table_name(),
        &key_name.to_string(),
        &comparison.to_string(),
    );
    let mut query = conn.prepare(statement.as_str()).map_err(backend_err)?;
    query
        .bind((":key_value", to_sqlite_value(&key_value)))
        .map_err(backend_err)?;
    let mut out = Vec::new();
    for row in query.into_iter() {
        match row {
            Ok(row) => out.push(decode_row::<T>(&row)),
            Err(e) => out.push(Err(Error::RowDecode(e.to_string()))),
        }
    }
    Ok(out)
}

fn read<T: HasCrudFields, K: IsCrudField>(
    conn: &sqlite::Connection,
    key: K,
) -> Result<Vec<Result<T, Error>>, Error> {
    read_where::<T>(conn, T::primary_key_name().as_str(), "=", IsCrudField::into_value(&key))
}

fn read_all<T: HasCrudFields>(conn: &sqlite::Connection) -> Result<Vec<Result<T, Error>>, Error> {
    let statement = Sqlite::select_all_statement(&T::table_name());
    let query = conn.prepare(statement.as_str()).map_err(backend_err)?;
    let mut out = Vec::new();
    for row in query.into_iter() {
        match row {
            Ok(row) => out.push(decode_row::<T>(&row)),
            Err(e) => out.push(Err(Error::RowDecode(e.to_string()))),
        }
    }
    Ok(out)
}

fn update<T: HasCrudFields>(record: &T, conn: &sqlite::Connection) -> Result<(), Error> {
    let plan = Sqlite::update_plan(
        &T::table_name(),
        &T::crud_fields(),
        &record.as_crud_fields(),
    )?;
    let mut query = conn.prepare(plan.statement.as_str()).map_err(backend_err)?;
    for (name, value) in plan.binds.iter() {
        query
            .bind((name.as_str(), to_sqlite_value(value)))
            .map_err(backend_err)?;
    }
    query
        .bind((":key_value", to_sqlite_value(&plan.key_value)))
        .map_err(backend_err)?;
    match query.next() {
        Ok(sqlite::State::Done) => Ok(()),
        Ok(_) => Err(Error::Backend("update query not done".to_string())),
        Err(e) => Err(backend_err(e)),
    }
}

fn delete<T: HasCrudFields>(record: T, conn: &sqlite::Connection) -> Result<(), Error> {
    let plan = Sqlite::delete_plan(
        &T::table_name(),
        &T::crud_fields(),
        &record.as_crud_fields(),
    )?;
    let mut query = conn.prepare(plan.statement.as_str()).map_err(backend_err)?;
    query
        .bind((":key_value", to_sqlite_value(&plan.key_value)))
        .map_err(backend_err)?;
    while let Ok(sqlite::State::Row) = query.next() {}
    Ok(())
}

/// A bulk backend over one or more SQLite connections, routing each table to
/// the connection registered for it.
struct SqliteBackend {
    default_conn: sqlite::Connection,
    routes: Vec<(String, sqlite::Connection)>,
}

impl SqliteBackend {
    fn conn_for(&self, table: &str) -> &sqlite::Connection {
        for (name, conn) in self.routes.iter() {
            if name == table {
                return conn;
            }
        }
        &self.default_conn
    }
}

impl MigrateEntireTable for SqliteBackend {
    fn read_all_values(
        &mut self,
        table_name: &String,
        column_names: &Vec<String>,
    ) -> Result<Vec<Result<FieldMap, Error>>, Error> {
        let conn = self.conn_for(table_name.as_str());
        let statement = Sqlite::select_all_statement(table_name);
        let query = conn.prepare(statement.as_str()).map_err(backend_err)?;
        let mut out = Vec::new();
        for row in query.into_iter() {
            match row {
                Ok(row) => {
                    let mut fields = FieldMap::new();
                    let mut failed = None;
                    for name in column_names.iter() {
                        if row.contains(name.as_str()) {
                            fields.insert(name.clone(), from_sqlite_value(&row[name.as_str()]));
                        } else {
                            failed = Some(Error::RowDecode(format!("missing column {name}")));
                            break;
                        }
                    }
                    match failed {
                        None => out.push(Ok(fields)),
                        Some(e) => out.push(Err(e)),
                    }
                }
                Err(e) => out.push(Err(Error::RowDecode(e.to_string()))),
            }
        }
        Ok(out)
    }

    fn insert_fields(&mut self, table_name: &String, fields: &FieldMap) -> Result<(), Error> {
        let conn = self.conn_for(table_name.as_str());
        let plan = Sqlite::insert_plan(table_name, fields);
        let mut query = conn.prepare(plan.statement.as_str()).map_err(backend_err)?;
        for (name, value) in plan.binds.iter() {
            query
                .bind((name.as_str(), to_sqlite_value(value)))
                .map_err(backend_err)?;
        }
        match query.next() {
            Ok(sqlite::State::Done) => Ok(()),
            Ok(_) => Err(Error::Backend("insert query not done".to_string())),
            Err(e) => Err(backend_err(e)),
        }
    }

    fn delete_all(&mut self, table_name: &String) -> Result<(), Error> {
        let conn = self.conn_for(table_name.as_str());
        let statement = Sqlite::delete_all_statement(table_name);
        let mut query = conn.prepare(statement.as_str()).map_err(backend_err)?;
        while let Ok(sqlite::State::Row) = query.next() {}
        Ok(())
    }
}

#[derive(Debug, Clone, PartialEq)]
pub struct PlayerV1 {
    pub id: i64,
    pub name: String,
}

#[derive(Debug, Clone, PartialEq)]
pub struct PlayerV2 {
    pub id: i64,
    pub name: String,
    pub age: f32,
}

#[derive(Debug, Clone, PartialEq)]
pub struct PlayerV3 {
    pub id: i64,
    pub name: String,
    pub description: String,
}

fn get_i64(fields: &FieldMap, name: &str) -> Result<i64, Error> {
    let v = fields
        .get(name)
        .ok_or_else(|| Error::MissingField(name.to_string()))?;
    <i64 as IsCrudField>::maybe_from_value(v).ok_or_else(|| Error::FieldConversion(name.to_string()))
}

fn get_string(fields: &FieldMap, name: &str) -> Result<String, Error> {
    let v = fields
        .get(name)
        .ok_or_else(|| Error::MissingField(name.to_string()))?;
    <String as IsCrudField>::maybe_from_value(v)
        .ok_or_else(|| Error::FieldConversion(name.to_string()))
}

fn get_f32(fields: &FieldMap, name: &str) -> Result<f32, Error> {
    let v = fields
        .get(name)
        .ok_or_else(|| Error::MissingField(name.to_string()))?;
    let bits = v
        .as_float_bits()
        .ok_or_else(|| Error::FieldConversion(name.to_string()))?;
    Ok(f64::from_bits(bits) as f32)
}

impl HasCrudFields for PlayerV1 {
    type Model = ();

    fn table_name() -> String {
        "playerv1".to_string()
    }

    fn crud_fields() -> Vec<CrudField> {
        let mut id = <i64 as IsCrudField>::field();
        id.name = "id".to_string();
        id.primary_key = true;
        let mut name = <String as IsCrudField>::field();
        name.name = "name".to_string();
        vec![id, name]
    }

    fn as_crud_fields(&self) -> FieldMap {
        let mut m = FieldMap::new();
        m.insert("id".to_string(), IsCrudField::into_value(&self.id));
        m.insert("name".to_string(), IsCrudField::into_value(&self.name));
        m
    }

    fn try_from_crud_fields(fields: &FieldMap) -> Result<Self, Error> {
        Ok(PlayerV1 { id: get_i64(fields, "id")?, name: get_string(fields, "name")? })
    }
}

impl HasCrudFields for PlayerV2 {
    type Model = ();

    fn table_name() -> String {
        "playerv2".to_string()
    }

    fn crud_fields() -> Vec<CrudField> {
        let mut id = <i64 as IsCrudField>::field();
        id.name = "id".to_string();
        id.primary_key = true;
        let mut name = <String as IsCrudField>::field();
        name.name = "name".to_string();
        let mut age = <FloatBits as IsCrudField>::field();
        age.name = "age".to_string();
        vec![id, name, age]
    }

    fn as_crud_fields(&self) -> FieldMap {
        let mut m = FieldMap::new();
        m.insert("id".to_string(), IsCrudField::into_value(&self.id));
        m.insert("name".to_string(), IsCrudField::into_value(&self.name));
        m.insert("age".to_string(), Value::Float((self.age as f64).to_bits()));
        m
    }

    fn try_from_crud_fields(fields: &FieldMap) -> Result<Self, Error> {
        Ok(PlayerV2 {
            id: get_i64(fields, "id")?,
            name: get_string(fields, "name")?,
            age: get_f32(fields, "age")?,
        })
    }
}

impl HasCrudFields for PlayerV3 {
    type Model = ();

    fn table_name() -> String {
        "playerv3".to_string()
    }

    fn crud_fields() -> Vec<CrudField> {
        let mut id = <i64 as IsCrudField>::field();
        id.name = "id".to_string();
        id.primary_key = true;
        let mut name = <String as IsCrudField>::field();
        name.name = "name".to_string();
        let mut description = <String as IsCrudField>::field();
        description.name = "description".to_string();
        vec![id, name, description]
    }

    fn as_crud_fields(&self) -> FieldMap {
        let mut m = FieldMap::new();
        m.insert("id".to_string(), IsCrudField::into_value(&self.id));
        m.insert("name".to_string(), IsCrudField::into_value(&self.name));
        m.insert("description".to_string(), IsCrudField::into_value(&self.description));
        m
    }

    fn try_from_crud_fields(fields: &FieldMap) -> Result<Self, Error> {
        Ok(PlayerV3 {
            id: get_i64(fields, "id")?,
            name: get_string(fields, "name")?,
            description: get_string(fields, "description")?,
        })
    }
}

impl From<PlayerV2> for PlayerV1 {
    fn from(value: PlayerV2) -> PlayerV1 {
        PlayerV1 { id: value.id, name: value.name }
    }
}

impl From<PlayerV1> for PlayerV2 {
    fn from(value: PlayerV1) -> PlayerV2 {
        PlayerV2 { id: value.id, name: value.name, age: 0.0 }
    }
}

impl From<PlayerV2> for PlayerV3 {
    fn from(value: PlayerV2) -> Self {
        let PlayerV2 { id, name, age } = value;
        PlayerV3 { id, name, description: format!("{age} years old") }
    }
}

impl From<PlayerV3> for PlayerV2 {
    fn from(value: PlayerV3) -> Self {
        let PlayerV3 { id, name, description: _ } = value;
        PlayerV2 { id, name, age: 0.0 }
    }
}

pub type Player = PlayerV3;

struct Forward;

impl MigrationDriver for Forward {
    fn advance(&self, i: usize, m: &FieldMap) -> Result<FieldMap, Error> {
        match i {
            0 => advance_record::<PlayerV1, PlayerV2>(m),
            _ => advance_record::<PlayerV2, PlayerV3>(m),
        }
    }
}

struct Backward;

impl MigrationDriver for Backward {
    fn advance(&self, i: usize, m: &FieldMap) -> Result<FieldMap, Error> {
        match i {
            0 => advance_record::<PlayerV3, PlayerV2>(m),
            _ => advance_record::<PlayerV2, PlayerV1>(m),
        }
    }
}

#[test]
fn p1_crud() {
    let connection = sqlite::open(":memory:").unwrap();
    create::<PlayerV1>(&connection).unwrap();
    let first_player = PlayerV1 { id: 0, name: "tymigrawr".to_string() };
    insert(&first_player, &connection).unwrap();
    let player = read::<PlayerV1, i64>(&connection, 0)
        .unwrap()
        .remove(0)
        .unwrap();
    assert_eq!(first_player, player);
    let mut second_player = PlayerV1 { id: 1, name: "developer".to_string() };
    insert(&second_player, &connection).unwrap();
    let player = read::<PlayerV1, i64>(&connection, 1)
        .unwrap()
        .remove(0)
        .unwrap();
    assert_eq!(second_player, player);

    let p1 = read::<PlayerV1, i64>(&connection, first_player.id).unwrap();
    assert_eq!(first_player, p1.into_iter().next().unwrap().unwrap());
    let p2 = read::<PlayerV1, i64>(&connection, second_player.id).unwrap();
    assert_eq!(second_player, p2.into_iter().next().unwrap().unwrap());

    second_player.name = "software engineer".to_string();
    update(&second_player, &connection).unwrap();
    let p2 = read::<PlayerV1, i64>(&connection, second_player.id)
        .unwrap()
        .remove(0)
        .unwrap();
    assert_eq!(second_player, p2);

    let p2_id = p2.id;
    delete(second_player, &connection).unwrap();
    let players = read::<PlayerV1, i64>(&connection, p2_id)
        .unwrap()
        .into_iter()
        .map(|p| p.unwrap())
        .collect::<Vec<_>>();
    assert!(players.is_empty());
}

#[test]
fn p2_crud() {
    let connection = sqlite::open(":memory:").unwrap();
    create::<PlayerV2>(&connection).unwrap();
    let mut first_player = PlayerV2 { id: 0, name: "tymigrawr".to_string(), age: 0.1 };
    insert(&first_player, &connection).unwrap();
    let p1 = read::<PlayerV2, i64>(&connection, first_player.id).unwrap();
    assert_eq!(first_player, p1.into_iter().next().unwrap().unwrap());

    first_player.name = "software engineer".to_string();
    update(&first_player, &connection).unwrap();
    let p2 = read::<PlayerV2, i64>(&connection, first_player.id)
        .unwrap()
        .remove(0)
        .unwrap();
    assert_eq!(first_player, p2);

    let p2_id = p2.id;
    delete(first_player, &connection).unwrap();
    let players = read::<PlayerV2, i64>(&connection, p2_id)
        .unwrap()
        .into_iter()
        .map(|p| p.unwrap())
        .collect::<Vec<_>>();
    assert!(players.is_empty());
}

#[test]
fn migrate() {
    let tempdir = tempfile::tempdir().unwrap();
    let path = tempdir.path().join("data.db");
    let connection = sqlite::open(path).unwrap();
    let path = tempdir.path().join("data_v3.db");
    let connection_v3 = sqlite::open(path).unwrap();
    create::<PlayerV1>(&connection).unwrap();
    create::<PlayerV2>(&connection).unwrap();
    create::<PlayerV3>(&connection_v3).unwrap();

    let players_v1 = (0..100)
        .map(|i| PlayerV1 { id: i, name: format!("tymigrawr_{i}") })
        .collect::<Vec<_>>();
    for player in players_v1.iter() {
        insert(player, &connection).unwrap();
    }
    let players_v3 = players_v1
        .iter()
        .cloned()
        .map(PlayerV2::from)
        .map(Player::from)
        .collect::<Vec<_>>();

    let mut backend = SqliteBackend {
        default_conn: connection,
        routes: vec![("playerv3".to_string(), connection_v3)],
    };

    let migrations = Migrations::<PlayerV1>::default()
        .with_version::<PlayerV2>()
        .with_version::<Player>();
    migrations.run(&mut backend, &Forward).unwrap();

    let players_v1_from_db = read_all::<PlayerV1>(&backend.default_conn)
        .unwrap()
        .into_iter()
        .map(|r| r.unwrap())
        .collect::<Vec<_>>();
    assert_eq!(Vec::<PlayerV1>::new(), players_v1_from_db);

    let players_v3_from_db = read_all::<PlayerV3>(backend.conn_for("playerv3"))
        .unwrap()
        .into_iter()
        .filter_map(Result::ok)
        .collect::<Vec<_>>();
    assert_eq!(players_v3, players_v3_from_db);

    let migrations = Migrations::<Player>::default()
        .with_version::<PlayerV2>()
        .with_version::<PlayerV1>();
    migrations.run(&mut backend, &Backward).unwrap();
    let players_v1_from_db = read_all::<PlayerV1>(&backend.default_conn)
        .unwrap()
        .into_iter()
        .map(|r| r.unwrap())
        .collect::<Vec<_>>();
    assert_eq!(players_v1, players_v1_from_db);
}

#[derive(Debug, Clone, PartialEq)]
pub struct Attachment {
    pub id: i64,
    pub data: Vec<u8>,
    pub note: Option<String>,
}

impl HasCrudFields for Attachment {
    type Model = ();

    fn table_name() -> String {
        "attachment".to_string()
    }

    fn crud_fields() -> Vec<CrudField> {
        let mut id = <i64 as IsCrudField>::field();
        id.name = "id".to_string();
        id.primary_key = true;
        let mut data = <Vec<u8> as IsCrudField>::field();
        data.name = "data".to_string();
        let mut note = <Option<String> as IsCrudField>::field();
        note.name = "note".to_string();
        vec![id, data, note]
    }

    fn as_crud_fields(&self) -> FieldMap {
        let mut m = FieldMap::new();
        m.insert("id".to_string(), IsCrudField::into_value(&self.id));
        m.insert("data".to_string(), IsCrudField::into_value(&self.data));
        m.insert("note".to_string(), IsCrudField::into_value(&self.note));
        m
    }

    fn try_from_crud_fields(fields: &FieldMap) -> Result<Self, Error> {
        let id = get_i64(fields, "id")?;
        let data_value = fields
            .get("data")
            .ok_or_else(|| Error::MissingField("data".to_string()))?;
        let data = <Vec<u8> as IsCrudField>::maybe_from_value(data_value)
            .ok_or_else(|| Error::FieldConversion("data".to_string()))?;
        let note_value = fields
            .get("note")
            .ok_or_else(|| Error::MissingField("note".to_string()))?;
        let note = <Option<String> as IsCrudField>::maybe_from_value(note_value)
            .ok_or_else(|| Error::FieldConversion("note".to_string()))?;
        Ok(Attachment { id, data, note })
    }
}

#[test]
fn bytes_and_nullable_fields_round_trip_through_sqlite() {
    let connection = sqlite::open(":memory:").unwrap();
    create::<Attachment>(&connection).unwrap();

    let with_note = Attachment {
        id: 1,
        data: vec![0, 1, 2, 255],
        note: Some("raw".to_string()),
    };
    let without_note = Attachment { id: 2, data: vec![], note: None };
    insert(&with_note, &connection).unwrap();
    insert(&without_note, &connection).unwrap();

    let first = read::<Attachment, i64>(&connection, 1).unwrap().remove(0).unwrap();
    assert_eq!(first, with_note);
    let second = read::<Attachment, i64>(&connection, 2).unwrap().remove(0).unwrap();
    assert_eq!(second, without_note);
}
