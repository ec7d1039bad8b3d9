//! A worked record version, verified against the whole record contract: it
//! is what a hand-written (or mechanically produced) implementation of
//! [`HasCrudFields`] looks like when its spec functions are given exactly
//! and the record laws are proven rather than assumed.

use vstd::prelude::*;

use crate::codec::IsCrudField;
use crate::error::{string_from, Error};
use crate::field::{CrudField, CrudFieldModel};
use crate::fieldmap::FieldMap;
use crate::migrations::{
    spec_restrict_row, MigrationDriver, MigrationModel, RowModel, StoreModel,
};
use crate::record::{HasCrudFields, LawfulRecord};
use crate::value::{Value, ValueModel, ValueType};

verus! {

/// A minimal record version: an integer key and a name, stored in the
/// `player` table.
#[derive(Debug)]
pub struct Player {
    pub id: i64,
    pub name: String,
}

/// The mathematical shape of a [`Player`], written `p.model()`.
#[verifier::ext_equal]
pub struct PlayerModel {
    pub id: i64,
    pub name: Seq<char>,
}

impl Clone for Player {
    fn clone(&self) -> (r: Self)
        ensures
            r.model() == self.model(),
    {
        Player { id: self.id, name: self.name.clone() }
    }
}

impl PartialEq for Player {
    fn eq(&self, other: &Self) -> (r: bool) {
        self.id == other.id && self.name == other.name
    }
}

impl vstd::std_specs::cmp::PartialEqSpecImpl for Player {
    open spec fn obeys_eq_spec() -> bool {
        true
    }

    open spec fn eq_spec(&self, other: &Self) -> bool {
        self.model() == other.model()
    }
}

impl HasCrudFields for Player {
    type Model = PlayerModel;

    open spec fn model(&self) -> PlayerModel {
        PlayerModel { id: self.id, name: self.name@ }
    }

    open spec fn table_name_spec() -> Seq<char> {
        "player"@
    }

    open spec fn fields_spec() -> Seq<CrudFieldModel> {
        seq![
            CrudFieldModel {
                name: "id"@,
                ty: ValueType::Integer,
                nullable: false,
                primary_key: true,
                auto_increment: false,
            },
            CrudFieldModel {
                name: "name"@,
                ty: ValueType::Text,
                nullable: false,
                primary_key: false,
                auto_increment: false,
            },
        ]
    }

    open spec fn fields_of(m: PlayerModel) -> Map<Seq<char>, ValueModel> {
        map!["id"@ => ValueModel::Integer(m.id), "name"@ => ValueModel::Text(m.name)]
    }

    open spec fn from_fields_spec(f: Map<Seq<char>, ValueModel>) -> Option<PlayerModel> {
        if f.contains_key("id"@) && f.contains_key("name"@) {
            match (f["id"@], f["name"@]) {
                (ValueModel::Integer(id), ValueModel::Text(name)) => Some(
                    PlayerModel { id, name },
                ),
                _ => None,
            }
        } else {
            None
        }
    }

    fn table_name() -> (r: String) {
        string_from("player")
    }

    fn crud_fields() -> (r: Vec<CrudField>) {
        let mut id = <i64 as IsCrudField>::field();
        id.name = string_from("id");
        id.primary_key = true;
        let mut name = <String as IsCrudField>::field();
        name.name = string_from("name");
        let mut out: Vec<CrudField> = Vec::new();
        out.push(id);
        out.push(name);
        proof {
            assert(out@.map_values(|f: CrudField| f@) =~= Self::fields_spec());
        }
        out
    }

    fn as_crud_fields(&self) -> (r: FieldMap) {
        let mut m = FieldMap::new();
        m.insert(string_from("id"), Value::Integer(self.id));
        m.insert(string_from("name"), Value::Text(self.name.clone()));
        proof {
            reveal_strlit("id");
            reveal_strlit("name");
            assert(m@ =~= Self::fields_of(self.model()));
        }
        m
    }

    /// Each failure names its field: a missing declared field is reported
    /// before a mis-shaped one, in declaration order.
    fn try_from_crud_fields(fields: &FieldMap) -> (r: Result<Self, Error>)
        ensures
            !fields@.contains_key("id"@) ==> (r matches Err(e) && e matches Error::MissingField(s)
                && s@ == "id"@),
            fields@.contains_key("id"@) && !(fields@["id"@] is Integer) ==> (r matches Err(e)
                && e matches Error::FieldConversion(s) && s@ == "id"@),
            fields@.contains_key("id"@) && fields@["id"@] is Integer && !fields@.contains_key(
                "name"@,
            ) ==> (r matches Err(e) && e matches Error::MissingField(s) && s@ == "name"@),
            fields@.contains_key("id"@) && fields@["id"@] is Integer && fields@.contains_key(
                "name"@,
            ) && !(fields@["name"@] is Text) ==> (r matches Err(e) && e matches Error::FieldConversion(
                s,
            ) && s@ == "name"@),
    {
        let id_value = match fields.get("id") {
            Some(v) => v,
            None => {
                return Err(Error::MissingField(string_from("id")));
            },
        };
        let id = match id_value.as_i64() {
            Some(i) => i,
            None => {
                return Err(Error::FieldConversion(string_from("id")));
            },
        };
        let name_value = match fields.get("name") {
            Some(v) => v,
            None => {
                return Err(Error::MissingField(string_from("name")));
            },
        };
        let name = match name_value.as_string() {
            Some(s) => s.clone(),
            None => {
                return Err(Error::FieldConversion(string_from("name")));
            },
        };
        Ok(Player { id, name })
    }
}

impl LawfulRecord for Player {
    proof fn lemma_fields_nonempty() {
    }

    proof fn lemma_fields_dom(m: PlayerModel) {
        let fs = Self::fields_spec();
        let names = crate::field::spec_field_names(fs);
        assert(names[0] == "id"@);
        assert(names[1] == "name"@);
        assert forall|k: Seq<char>| Self::fields_of(m).contains_key(k) <==> names.contains(
            k,
        ) by {
            if Self::fields_of(m).contains_key(k) {
                assert(k == "id"@ || k == "name"@);
                if k == "id"@ {
                    assert(names[0] == k);
                } else {
                    assert(names[1] == k);
                }
            }
            if names.contains(k) {
                let i = choose|i: int| 0 <= i < names.len() && names[i] == k;
                assert(k == "id"@ || k == "name"@);
            }
        }
    }

    proof fn lemma_fields_roundtrip(m: PlayerModel) {
        reveal_strlit("id");
        reveal_strlit("name");
        assert("id"@.len() == 2 && "name"@.len() == 4);
        assert("id"@ != "name"@);
        let f = Self::fields_of(m);
        assert(f.contains_key("id"@) && f.contains_key("name"@));
        assert(f["id"@] == ValueModel::Integer(m.id));
        assert(f["name"@] == ValueModel::Text(m.name));
        assert(Self::from_fields_spec(f) == Some(PlayerModel { id: m.id, name: m.name }));
        assert(PlayerModel { id: m.id, name: m.name } =~= m);
    }
}


/// The next version of [`Player`]: the same key and name plus a rank,
/// stored in the `rankedplayer` table. Converting a `Player` forward gives
/// it rank zero; converting back drops the rank.
#[derive(Debug)]
pub struct RankedPlayer {
    pub id: i64,
    pub name: String,
    pub rank: i64,
}

/// The mathematical shape of a [`RankedPlayer`].
#[verifier::ext_equal]
pub struct RankedPlayerModel {
    pub id: i64,
    pub name: Seq<char>,
    pub rank: i64,
}

impl HasCrudFields for RankedPlayer {
    type Model = RankedPlayerModel;

    open spec fn model(&self) -> RankedPlayerModel {
        RankedPlayerModel { id: self.id, name: self.name@, rank: self.rank }
    }

    open spec fn table_name_spec() -> Seq<char> {
        "rankedplayer"@
    }

    open spec fn fields_spec() -> Seq<CrudFieldModel> {
        seq![
            CrudFieldModel {
                name: "id"@,
                ty: ValueType::Integer,
                nullable: false,
                primary_key: true,
                auto_increment: false,
            },
            CrudFieldModel {
                name: "name"@,
                ty: ValueType::Text,
                nullable: false,
                primary_key: false,
                auto_increment: false,
            },
            CrudFieldModel {
                name: "rank"@,
                ty: ValueType::Integer,
                nullable: false,
                primary_key: false,
                auto_increment: false,
            },
        ]
    }

    open spec fn fields_of(m: RankedPlayerModel) -> Map<Seq<char>, ValueModel> {
        map![
            "id"@ => ValueModel::Integer(m.id),
            "name"@ => ValueModel::Text(m.name),
            "rank"@ => ValueModel::Integer(m.rank),
        ]
    }

    open spec fn from_fields_spec(f: Map<Seq<char>, ValueModel>) -> Option<RankedPlayerModel> {
        if f.contains_key("id"@) && f.contains_key("name"@) && f.contains_key("rank"@) {
            match (f["id"@], f["name"@], f["rank"@]) {
                (
                    ValueModel::Integer(id),
                    ValueModel::Text(name),
                    ValueModel::Integer(rank),
                ) => Some(RankedPlayerModel { id, name, rank }),
                _ => None,
            }
        } else {
            None
        }
    }

    fn table_name() -> (r: String) {
        string_from("rankedplayer")
    }

    fn crud_fields() -> (r: Vec<CrudField>) {
        let mut id = <i64 as IsCrudField>::field();
        id.name = string_from("id");
        id.primary_key = true;
        let mut name = <String as IsCrudField>::field();
        name.name = string_from("name");
        let mut rank = <i64 as IsCrudField>::field();
        rank.name = string_from("rank");
        let mut out: Vec<CrudField> = Vec::new();
        out.push(id);
        out.push(name);
        out.push(rank);
        proof {
            assert(out@.map_values(|f: CrudField| f@) =~= Self::fields_spec());
        }
        out
    }

    fn as_crud_fields(&self) -> (r: FieldMap) {
        let mut m = FieldMap::new();
        m.insert(string_from("id"), Value::Integer(self.id));
        m.insert(string_from("name"), Value::Text(self.name.clone()));
        m.insert(string_from("rank"), Value::Integer(self.rank));
        proof {
            reveal_strlit("id");
            reveal_strlit("name");
            reveal_strlit("rank");
            assert(m@ =~= Self::fields_of(self.model()));
        }
        m
    }

    /// Each failure names its field: a missing declared field is reported
    /// before a mis-shaped one, in declaration order.
    fn try_from_crud_fields(fields: &FieldMap) -> (r: Result<Self, Error>)
        ensures
            !fields@.contains_key("id"@) ==> (r matches Err(e) && e matches Error::MissingField(s)
                && s@ == "id"@),
            fields@.contains_key("id"@) && !(fields@["id"@] is Integer) ==> (r matches Err(e)
                && e matches Error::FieldConversion(s) && s@ == "id"@),
            fields@.contains_key("id"@) && fields@["id"@] is Integer && !fields@.contains_key(
                "name"@,
            ) ==> (r matches Err(e) && e matches Error::MissingField(s) && s@ == "name"@),
            fields@.contains_key("id"@) && fields@["id"@] is Integer && fields@.contains_key(
                "name"@,
            ) && !(fields@["name"@] is Text) ==> (r matches Err(e) && e matches Error::FieldConversion(
                s,
            ) && s@ == "name"@),
    {
        let id_value = match fields.get("id") {
            Some(v) => v,
            None => {
                return Err(Error::MissingField(string_from("id")));
            },
        };
        let id = match id_value.as_i64() {
            Some(i) => i,
            None => {
                return Err(Error::FieldConversion(string_from("id")));
            },
        };
        let name_value = match fields.get("name") {
            Some(v) => v,
            None => {
                return Err(Error::MissingField(string_from("name")));
            },
        };
        let name = match name_value.as_string() {
            Some(s) => s.clone(),
            None => {
                return Err(Error::FieldConversion(string_from("name")));
            },
        };
        let rank_value = match fields.get("rank") {
            Some(v) => v,
            None => {
                return Err(Error::MissingField(string_from("rank")));
            },
        };
        let rank = match rank_value.as_i64() {
            Some(i) => i,
            None => {
                return Err(Error::FieldConversion(string_from("rank")));
            },
        };
        Ok(RankedPlayer { id, name, rank })
    }
}

impl LawfulRecord for RankedPlayer {
    proof fn lemma_fields_nonempty() {
    }

    proof fn lemma_fields_dom(m: RankedPlayerModel) {
        let fs = Self::fields_spec();
        let names = crate::field::spec_field_names(fs);
        assert(names[0] == "id"@);
        assert(names[1] == "name"@);
        assert(names[2] == "rank"@);
        assert forall|k: Seq<char>| Self::fields_of(m).contains_key(k) <==> names.contains(
            k,
        ) by {
            if Self::fields_of(m).contains_key(k) {
                assert(k == "id"@ || k == "name"@ || k == "rank"@);
                if k == "id"@ {
                    assert(names[0] == k);
                } else if k == "name"@ {
                    assert(names[1] == k);
                } else {
                    assert(names[2] == k);
                }
            }
            if names.contains(k) {
                let i = choose|i: int| 0 <= i < names.len() && names[i] == k;
                assert(k == "id"@ || k == "name"@ || k == "rank"@);
            }
        }
    }

    proof fn lemma_fields_roundtrip(m: RankedPlayerModel) {
        lemma_player_field_names_distinct();
        let f = Self::fields_of(m);
        assert(f.contains_key("id"@) && f.contains_key("name"@) && f.contains_key("rank"@));
        assert(f["id"@] == ValueModel::Integer(m.id));
        assert(f["name"@] == ValueModel::Text(m.name));
        assert(f["rank"@] == ValueModel::Integer(m.rank));
        assert(Self::from_fields_spec(f) == Some(
            RankedPlayerModel { id: m.id, name: m.name, rank: m.rank },
        ));
        assert(RankedPlayerModel { id: m.id, name: m.name, rank: m.rank } =~= m);
    }
}

/// The field names of the example records are pairwise distinct.
proof fn lemma_player_field_names_distinct()
    ensures
        "id"@ != "name"@,
        "id"@ != "rank"@,
        "name"@ != "rank"@,
{
    reveal_strlit("id");
    reveal_strlit("name");
    reveal_strlit("rank");
    assert("id"@.len() == 2 && "name"@.len() == 4 && "rank"@.len() == 4);
    assert("name"@[0] == 'n' && "rank"@[0] == 'r');
}

impl From<Player> for RankedPlayer {
    /// A freshly promoted player starts at rank zero.
    fn from(v: Player) -> (r: RankedPlayer) {
        RankedPlayer { id: v.id, name: v.name, rank: 0 }
    }
}

impl vstd::std_specs::convert::FromSpecImpl<Player> for RankedPlayer {
    open spec fn obeys_from_spec() -> bool {
        true
    }

    open spec fn from_spec(v: Player) -> RankedPlayer {
        RankedPlayer { id: v.id, name: v.name, rank: 0 }
    }
}

impl From<RankedPlayer> for Player {
    /// Converting back drops the rank.
    fn from(v: RankedPlayer) -> (r: Player) {
        Player { id: v.id, name: v.name }
    }
}

impl vstd::std_specs::convert::FromSpecImpl<RankedPlayer> for Player {
    open spec fn obeys_from_spec() -> bool {
        true
    }

    open spec fn from_spec(v: RankedPlayer) -> Player {
        Player { id: v.id, name: v.name }
    }
}

/// The driver of the two-version example chain, verified: its spec says
/// exactly which row each hop produces, and the executable hop is proven to
/// match it.
pub struct PlayerDriver;

/// What the one forward hop does to a row model: read it back as a
/// [`Player`], promote, and write the [`RankedPlayer`] out.
pub open spec fn spec_promote_row(m: Map<Seq<char>, ValueModel>) -> Option<
    Map<Seq<char>, ValueModel>,
> {
    match Player::from_fields_spec(m) {
        Some(pm) => Some(
            RankedPlayer::fields_of(
                RankedPlayerModel { id: pm.id, name: pm.name, rank: 0 },
            ),
        ),
        None => None,
    }
}

impl MigrationDriver for PlayerDriver {
    open spec fn advance_spec(&self, i: int, m: Map<Seq<char>, ValueModel>) -> Option<
        Map<Seq<char>, ValueModel>,
    > {
        spec_promote_row(m)
    }

    fn advance(&self, i: usize, m: &FieldMap) -> (r: Result<FieldMap, Error>) {
        let prev = match Player::try_from_crud_fields(m) {
            Ok(p) => p,
            Err(e) => {
                return Err(e);
            },
        };
        let ghost pm = prev.model();
        let next = RankedPlayer::from(prev);
        proof {
            assert(next.model() =~= RankedPlayerModel { id: pm.id, name: pm.name, rank: 0 });
        }
        let out = next.as_crud_fields();
        Ok(out)
    }
}


/// The driver of the example chain run in reverse, verified like the
/// forward one: each hop reads a [`RankedPlayer`] back, drops its rank, and
/// writes the [`Player`] out.
pub struct PlayerReverseDriver;

/// What the one backward hop does to a row model: read it back as a
/// [`RankedPlayer`], demote, and write the [`Player`] out.
pub open spec fn spec_demote_row(m: Map<Seq<char>, ValueModel>) -> Option<
    Map<Seq<char>, ValueModel>,
> {
    match RankedPlayer::from_fields_spec(m) {
        Some(rm) => Some(Player::fields_of(PlayerModel { id: rm.id, name: rm.name })),
        None => None,
    }
}

impl MigrationDriver for PlayerReverseDriver {
    open spec fn advance_spec(&self, i: int, m: Map<Seq<char>, ValueModel>) -> Option<
        Map<Seq<char>, ValueModel>,
    > {
        spec_demote_row(m)
    }

    fn advance(&self, i: usize, m: &FieldMap) -> (r: Result<FieldMap, Error>) {
        let prev = match RankedPlayer::try_from_crud_fields(m) {
            Ok(p) => p,
            Err(e) => {
                return Err(e);
            },
        };
        let ghost rm = prev.model();
        let next = Player::from(prev);
        proof {
            assert(next.model() =~= PlayerModel { id: rm.id, name: rm.name });
        }
        let out = next.as_crud_fields();
        Ok(out)
    }
}

/// The models of the two-step example chain, oldest first: exactly what
/// `Migrations::<Player>::default().with_version::<RankedPlayer>()` builds.
pub open spec fn spec_player_chain() -> Seq<MigrationModel> {
    seq![
        MigrationModel {
            table_name: Player::table_name_spec(),
            fields: Player::fields_spec(),
        },
        MigrationModel {
            table_name: RankedPlayer::table_name_spec(),
            fields: RankedPlayer::fields_spec(),
        },
    ]
}

/// What promoting one stored player row yields: the same key and name, at
/// rank zero.
pub open spec fn spec_promoted_rows(rows: Seq<RowModel>) -> Seq<RowModel> {
    Seq::new(
        rows.len(),
        |i: int|
            map![
                "id"@ => rows[i]["id"@],
                "name"@ => rows[i]["name"@],
                "rank"@ => ValueModel::Integer(0),
            ],
    )
}

/// Forward migration of the example chain, concretely: when every stored
/// player row carries an integer `id` and a text `name`, one run moves each
/// row to the ranked table with rank zero, in order, and clears the player
/// table; nothing else changes.
pub proof fn lemma_player_chain_forward(d: &PlayerDriver, store: StoreModel)
    requires
        store.contains_key("player"@),
        store.contains_key("rankedplayer"@),
        store["player"@].len() > 0,
        forall|i: int| 0 <= i < store["player"@].len() ==> {
            let row = #[trigger] store["player"@][i];
            row.contains_key("id"@) && row.contains_key("name"@) && row["id"@] is Integer
                && row["name"@] is Text
        },
    ensures
        crate::migrations::spec_run(d, spec_player_chain(), store, 0) == Some(
            store.insert(
                "rankedplayer"@,
                store["rankedplayer"@] + spec_promoted_rows(store["player"@]),
            ).insert("player"@, Seq::empty()),
        ),
{
    lemma_player_field_names_distinct();
    lemma_player_table_names_distinct();
    let steps = spec_player_chain();
    let rows = store["player"@];
    let cols = crate::field::spec_field_names(Player::fields_spec());
    assert(cols[0] == "id"@ && cols[1] == "name"@ && cols.len() == 2);
    assert(steps[0].table_name == "player"@);
    assert(steps[1].table_name == "rankedplayer"@);

    assert forall|i: int| 0 <= i < rows.len() implies crate::migrations::spec_row_out(
        d,
        0,
        2,
        cols,
        #[trigger] rows[i],
    ) == Some(spec_promoted_rows(rows)[i]) by {
        let row = rows[i];
        assert(forall|a: int| 0 <= a < cols.len() ==> row.contains_key(#[trigger] cols[a]));
        let restricted = spec_restrict_row(row, cols);
        let r = restricted->Some_0;
        assert(cols.contains("id"@) && cols.contains("name"@));
        assert(r.contains_key("id"@) && r["id"@] == row["id"@]);
        assert(r.contains_key("name"@) && r["name"@] == row["name"@]);
        let pm = Player::from_fields_spec(r)->Some_0;
        assert(Player::from_fields_spec(r) == Some(pm));
        assert(row["id"@] == ValueModel::Integer(pm.id));
        assert(row["name"@] == ValueModel::Text(pm.name));
        let out = RankedPlayer::fields_of(RankedPlayerModel { id: pm.id, name: pm.name, rank: 0 });
        assert(spec_promote_row(r) == Some(out));
        assert(d.advance_spec(0, r) == Some(out));
        assert(crate::migrations::spec_fold_row(d, 1, 2, out) == Some(out));
        assert(crate::migrations::spec_fold_row(d, 0, 2, r) == Some(out));
        assert(out =~= spec_promoted_rows(rows)[i]);
    }

    crate::migrations::lemma_forward_migration(d, steps, store);
    assert(crate::migrations::spec_outs(d, 0, 2, cols, rows) =~= spec_promoted_rows(rows));
}

/// The two tables of the example chain are different tables.
proof fn lemma_player_table_names_distinct()
    ensures
        "player"@ != "rankedplayer"@,
{
    reveal_strlit("player");
    reveal_strlit("rankedplayer");
    assert("player"@.len() == 6 && "rankedplayer"@.len() == 12);
}


/// The models of the example chain run in reverse, newest first: exactly
/// what `Migrations::<RankedPlayer>::default().with_version::<Player>()`
/// builds.
pub open spec fn spec_reverse_player_chain() -> Seq<MigrationModel> {
    seq![
        MigrationModel {
            table_name: RankedPlayer::table_name_spec(),
            fields: RankedPlayer::fields_spec(),
        },
        MigrationModel {
            table_name: Player::table_name_spec(),
            fields: Player::fields_spec(),
        },
    ]
}

/// What demoting one stored ranked row yields: the same key and name, the
/// rank dropped.
pub open spec fn spec_demoted_rows(rows: Seq<RowModel>) -> Seq<RowModel> {
    Seq::new(
        rows.len(),
        |i: int| map!["id"@ => rows[i]["id"@], "name"@ => rows[i]["name"@]],
    )
}

/// Backward migration of the example chain, concretely: when every stored
/// ranked row carries an integer `id`, a text `name` and an integer `rank`,
/// one reverse run moves each row to the player table without its rank, in
/// order, and clears the ranked table; nothing else changes.
pub proof fn lemma_player_chain_backward(d: &PlayerReverseDriver, store: StoreModel)
    requires
        store.contains_key("player"@),
        store.contains_key("rankedplayer"@),
        store["rankedplayer"@].len() > 0,
        forall|i: int| 0 <= i < store["rankedplayer"@].len() ==> {
            let row = #[trigger] store["rankedplayer"@][i];
            row.contains_key("id"@) && row.contains_key("name"@) && row.contains_key("rank"@)
                && row["id"@] is Integer && row["name"@] is Text && row["rank"@] is Integer
        },
    ensures
        crate::migrations::spec_run(d, spec_reverse_player_chain(), store, 0) == Some(
            store.insert(
                "player"@,
                store["player"@] + spec_demoted_rows(store["rankedplayer"@]),
            ).insert("rankedplayer"@, Seq::empty()),
        ),
{
    lemma_player_field_names_distinct();
    lemma_player_table_names_distinct();
    let steps = spec_reverse_player_chain();
    let rows = store["rankedplayer"@];
    let cols = crate::field::spec_field_names(RankedPlayer::fields_spec());
    assert(cols[0] == "id"@ && cols[1] == "name"@ && cols[2] == "rank"@ && cols.len() == 3);
    assert(steps[0].table_name == "rankedplayer"@);
    assert(steps[1].table_name == "player"@);

    assert forall|i: int| 0 <= i < rows.len() implies crate::migrations::spec_row_out(
        d,
        0,
        2,
        cols,
        #[trigger] rows[i],
    ) == Some(spec_demoted_rows(rows)[i]) by {
        let row = rows[i];
        assert(forall|a: int| 0 <= a < cols.len() ==> row.contains_key(#[trigger] cols[a]));
        let restricted = spec_restrict_row(row, cols);
        let r = restricted->Some_0;
        assert(cols.contains("id"@) && cols.contains("name"@) && cols.contains("rank"@));
        assert(r.contains_key("id"@) && r["id"@] == row["id"@]);
        assert(r.contains_key("name"@) && r["name"@] == row["name"@]);
        assert(r.contains_key("rank"@) && r["rank"@] == row["rank"@]);
        let rm = RankedPlayer::from_fields_spec(r)->Some_0;
        assert(RankedPlayer::from_fields_spec(r) == Some(rm));
        assert(row["id"@] == ValueModel::Integer(rm.id));
        assert(row["name"@] == ValueModel::Text(rm.name));
        let out = Player::fields_of(PlayerModel { id: rm.id, name: rm.name });
        assert(spec_demote_row(r) == Some(out));
        assert(d.advance_spec(0, r) == Some(out));
        assert(crate::migrations::spec_fold_row(d, 1, 2, out) == Some(out));
        assert(crate::migrations::spec_fold_row(d, 0, 2, r) == Some(out));
        assert(out =~= spec_demoted_rows(rows)[i]);
    }

    crate::migrations::lemma_forward_migration(d, steps, store);
    assert(crate::migrations::spec_outs(d, 0, 2, cols, rows) =~= spec_demoted_rows(rows));
}

/// The reverse chain is the inverse of the forward run: starting from
/// well-shaped player rows and an empty ranked table, promoting every row
/// and then demoting every result restores the store exactly.
pub proof fn lemma_player_chain_roundtrip(
    d_f: &PlayerDriver,
    d_r: &PlayerReverseDriver,
    store: StoreModel,
)
    requires
        store.contains_key("player"@),
        store.contains_key("rankedplayer"@),
        store["rankedplayer"@].len() == 0,
        store["player"@].len() > 0,
        forall|i: int| 0 <= i < store["player"@].len() ==> {
            let row = #[trigger] store["player"@][i];
            &&& row.contains_key("id"@) && row.contains_key("name"@)
            &&& row["id"@] is Integer && row["name"@] is Text
            &&& forall|k: Seq<char>| row.contains_key(k) ==> k == "id"@ || k == "name"@
        },
    ensures
        ({
            let forward = crate::migrations::spec_run(d_f, spec_player_chain(), store, 0);
            &&& forward is Some
            &&& crate::migrations::spec_run(
                d_r,
                spec_reverse_player_chain(),
                forward->Some_0,
                0,
            ) == Some(store)
        }),
{
    lemma_player_field_names_distinct();
    lemma_player_table_names_distinct();
    lemma_player_chain_forward(d_f, store);
    let rows = store["player"@];
    let promoted = spec_promoted_rows(rows);
    let mid = store.insert("rankedplayer"@, store["rankedplayer"@] + promoted).insert(
        "player"@,
        Seq::empty(),
    );
    assert(store["rankedplayer"@] + promoted =~= promoted);
    assert(mid["rankedplayer"@] == store["rankedplayer"@] + promoted);
    assert(mid["rankedplayer"@] =~= promoted);
    assert(mid["player"@] =~= Seq::<RowModel>::empty());

    assert forall|i: int| 0 <= i < mid["rankedplayer"@].len() implies {
        let row = #[trigger] mid["rankedplayer"@][i];
        row.contains_key("id"@) && row.contains_key("name"@) && row.contains_key("rank"@)
            && row["id"@] is Integer && row["name"@] is Text && row["rank"@] is Integer
    } by {
        assert(mid["rankedplayer"@][i] == promoted[i]);
        assert(rows[i]["id"@] is Integer && rows[i]["name"@] is Text);
    }
    lemma_player_chain_backward(d_r, mid);

    let demoted = spec_demoted_rows(mid["rankedplayer"@]);
    assert forall|i: int| 0 <= i < rows.len() implies #[trigger] demoted[i] == rows[i] by {
        assert(mid["rankedplayer"@][i] == promoted[i]);
        assert(promoted[i]["id"@] == rows[i]["id"@]);
        assert(promoted[i]["name"@] == rows[i]["name"@]);
        assert(demoted[i] =~= rows[i]);
    }
    assert(demoted =~= rows);
    assert(mid["player"@] + demoted =~= rows);

    let back = mid.insert("player"@, mid["player"@] + demoted).insert(
        "rankedplayer"@,
        Seq::empty(),
    );
    assert(store["rankedplayer"@] =~= Seq::<RowModel>::empty());
    assert(back =~= store);
}

} // verus!
