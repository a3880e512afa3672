//! What statements mean: a model of the part of SQL in which they are written.
//!
//! A statement is given by its parts. One function writes the parts as the text
//! that a database is handed, others say what they do to rows.
use vstd::prelude::*;

use crate::store::sql::ValueText;
use crate::text;

verus! {

// ---------------------------------------------------------------------------
// Rows
// ---------------------------------------------------------------------------

/// A row of a table: what stands in each column.
pub type Row = Map<Seq<char>, ValueText>;

/// What a query found: a row of each table that it reads, by the name that the
/// query gives the table. A table that is read alone has no name.
pub type Found = Map<Seq<char>, Row>;

/// What is found in a table that is read alone.
pub open spec fn alone(r: Row) -> Found {
    map![Seq::<char>::empty() => r]
}

/// A column, and the name of its table where it has one.
pub struct Column {
    pub of: Seq<char>,
    pub name: Seq<char>,
}

/// A column of a table that is read alone.
pub open spec fn column(name: Seq<char>) -> Column {
    Column { of: Seq::empty(), name }
}

/// A column of a table with a name.
pub open spec fn column_of(of: Seq<char>, name: Seq<char>) -> Column {
    Column { of, name }
}

/// What stands in a column.
pub open spec fn value_of(found: Found, c: Column) -> ValueText {
    found[c.of][c.name]
}

/// A database, as far as statements depend on it.
pub struct Database {
    pub tables: Map<Seq<char>, Set<Row>>,
    /// The strings of the array that a JSON text writes.
    pub json_items: spec_fn(Seq<char>) -> Seq<Seq<char>>,
    /// Whether the index on a column finds a thing by a value.
    pub index_finds: spec_fn(Found, Column, ValueText) -> bool,
    /// Whether one number, given by its bits, is below another.
    pub real_less: spec_fn(u64, u64) -> bool,
}

// ---------------------------------------------------------------------------
// Values
// ---------------------------------------------------------------------------

/// A value of a statement: the one of a parameter, or a number.
pub enum Operand {
    Parameter(nat),
    Number(nat),
}

/// The value among those of the statement. Parameters are counted from one.
pub open spec fn operand_value(o: Operand, params: Seq<ValueText>) -> ValueText {
    match o {
        Operand::Parameter(n) => params[n - 1],
        Operand::Number(n) => ValueText::Integer(n as int),
    }
}

/// `a` comes before `b` by the code points of their characters.
pub open spec fn text_less(a: Seq<char>, b: Seq<char>) -> bool
    decreases a.len(),
{
    if b.len() == 0 {
        false
    } else if a.len() == 0 {
        true
    } else if a[0] != b[0] {
        (a[0] as u32) < (b[0] as u32)
    } else {
        text_less(a.drop_first(), b.drop_first())
    }
}

/// The place of a value's type among those of others.
pub open spec fn type_rank(v: ValueText) -> int {
    match v {
        ValueText::Null => 0,
        ValueText::Integer(_) => 1,
        ValueText::Real(_) => 1,
        ValueText::Text(_) => 2,
        ValueText::Blob(_) => 3,
    }
}

/// `a` is sorted before `b`.
pub open spec fn value_less(db: Database, a: ValueText, b: ValueText) -> bool {
    match (a, b) {
        (ValueText::Integer(x), ValueText::Integer(y)) => x < y,
        (ValueText::Real(x), ValueText::Real(y)) => (db.real_less)(x, y),
        (ValueText::Text(x), ValueText::Text(y)) => text_less(x, y),
        _ => type_rank(a) < type_rank(b),
    }
}

// ---------------------------------------------------------------------------
// Conditions
// ---------------------------------------------------------------------------

/// A condition on what is found.
pub enum Condition {
    /// The value stands in the column.
    Equal(Column, Operand),
    /// A number stands in the column that is no less than the value.
    AtLeast(Column, Operand),
    /// Something stands in the column.
    Present(Column),
    /// One of the strings of a JSON array stands in the column.
    Among(Column, nat),
    /// The index on the column finds it by the value.
    Matching(Column, nat),
}

/// What is found meets the condition.
pub open spec fn meets(db: Database, c: Condition, params: Seq<ValueText>, found: Found) -> bool {
    match c {
        Condition::Equal(c, o) => value_of(found, c) == operand_value(o, params) && !(value_of(
            found,
            c,
        ) is Null),
        Condition::AtLeast(c, o) => match (value_of(found, c), operand_value(o, params)) {
            (ValueText::Integer(x), ValueText::Integer(y)) => x >= y,
            _ => false,
        },
        Condition::Present(c) => !(value_of(found, c) is Null),
        Condition::Among(c, n) => match (value_of(found, c), params[n - 1]) {
            (ValueText::Text(t), ValueText::Text(json)) => (db.json_items)(json).contains(t),
            _ => false,
        },
        Condition::Matching(c, n) => (db.index_finds)(found, c, params[n - 1]),
    }
}

/// What is found meets all of the conditions.
pub open spec fn meets_all(
    db: Database,
    conditions: Seq<Condition>,
    params: Seq<ValueText>,
    found: Found,
) -> bool {
    forall|i: int|
        0 <= i < conditions.len() ==> meets(db, #[trigger] conditions[i], params, found)
}

// ---------------------------------------------------------------------------
// Queries
// ---------------------------------------------------------------------------

/// What a query reads.
pub enum Source {
    Table(Seq<char>),
    /// Two tables under two names, where what stands in two columns is the same.
    Join {
        left: Seq<char>,
        left_as: Seq<char>,
        right: Seq<char>,
        right_as: Seq<char>,
        on: (Column, Column),
    },
}

/// Whether what a query sorts by goes up or down.
pub enum Direction {
    /// Up, without a word for it.
    Plain,
    Up,
    Down,
}

/// What a query gives.
pub enum Selected {
    Columns(Seq<Column>),
    Count,
}

/// A query.
pub struct Query {
    pub selected: Selected,
    pub source: Source,
    pub conditions: Seq<Condition>,
    pub order: Seq<(Column, Direction)>,
    pub limit: Option<Operand>,
    pub offset: Option<Operand>,
    /// The white space between the clauses.
    pub gap: Seq<char>,
}

/// The tables hold it.
pub open spec fn is_there(db: Database, s: Source, found: Found) -> bool {
    match s {
        Source::Table(t) => exists|r: Row| #[trigger]
            db.tables[t].contains(r) && found == alone(r),
        Source::Join { left, left_as, right, right_as, on } => {
            &&& db.tables[left].contains(found[left_as])
            &&& db.tables[right].contains(found[right_as])
            &&& found == map![left_as => found[left_as], right_as => found[right_as]]
            &&& value_of(found, on.0) == value_of(found, on.1)
            &&& !(value_of(found, on.0) is Null)
        },
    }
}

/// The query is about it.
pub open spec fn admits(db: Database, q: Query, params: Seq<ValueText>, found: Found) -> bool {
    is_there(db, q.source, found) && meets_all(db, q.conditions, params, found)
}

/// `a` may stand before `b`.
pub open spec fn sorted_so(
    db: Database,
    order: Seq<(Column, Direction)>,
    a: Found,
    b: Found,
) -> bool
    decreases order.len(),
{
    if order.len() == 0 {
        true
    } else {
        let x = value_of(a, order[0].0);
        let y = value_of(b, order[0].0);
        if value_less(db, x, y) {
            !(order[0].1 is Down)
        } else if value_less(db, y, x) {
            order[0].1 is Down
        } else {
            sorted_so(db, order.drop_first(), a, b)
        }
    }
}

/// `all` is everything that the query is about, each thing once, in the order
/// that it asks for.
pub open spec fn lists(db: Database, q: Query, params: Seq<ValueText>, all: Seq<Found>) -> bool {
    &&& all.no_duplicates()
    &&& forall|x: Found| #[trigger] all.contains(x) <==> admits(db, q, params, x)
    &&& forall|i: int, j: int|
        0 <= i < j < all.len() ==> sorted_so(db, q.order, #[trigger] all[i], #[trigger] all[j])
}

/// The number that an operand stands for.
pub open spec fn count_of(o: Operand, params: Seq<ValueText>) -> nat {
    match operand_value(o, params) {
        ValueText::Integer(n) => if n > 0 {
            n as nat
        } else {
            0
        },
        _ => 0,
    }
}

/// What is left of a list after the first `n`.
pub open spec fn past(all: Seq<Found>, n: nat) -> Seq<Found> {
    if n < all.len() {
        all.skip(n as int)
    } else {
        Seq::empty()
    }
}

/// The first `n` of a list.
pub open spec fn at_most(all: Seq<Found>, n: nat) -> Seq<Found> {
    if n < all.len() {
        all.take(n as int)
    } else {
        all
    }
}

/// What the query gives of all that it is about.
pub open spec fn given(q: Query, params: Seq<ValueText>, all: Seq<Found>) -> Seq<Found> {
    let rest = match q.offset {
        Some(o) => past(all, count_of(o, params)),
        None => all,
    };
    match q.limit {
        Some(o) => at_most(rest, count_of(o, params)),
        None => rest,
    }
}

// ---------------------------------------------------------------------------
// Changes
// ---------------------------------------------------------------------------

/// What a statement sets a column to: the value of a parameter, or the time at
/// which it is run.
pub enum Written {
    Parameter(nat),
    Now,
}

/// What an `INSERT` does where there is a row like the new one.
pub enum Conflict {
    Fail,
    /// The new row is dropped where the table does not allow it.
    Ignore,
    /// A row with the same values in the columns, none of which stands for
    /// nothing in the last of them, stays in place of the new one.
    KeepOld(Seq<Seq<char>>),
    /// The row with the same key takes over the columns.
    Replace { key: Seq<char>, columns: Seq<Seq<char>> },
}

/// A statement that adds a row.
pub struct Insert {
    pub table: Seq<char>,
    pub columns: Seq<Seq<char>>,
    pub values: Seq<Written>,
    pub conflict: Conflict,
    pub gap: Seq<char>,
}

/// A statement that changes rows.
pub struct Update {
    pub table: Seq<char>,
    pub sets: Seq<(Seq<char>, nat)>,
    pub conditions: Seq<Condition>,
}

/// A statement that takes rows away.
pub struct Delete {
    pub table: Seq<char>,
    pub conditions: Seq<Condition>,
}

/// What is written.
pub open spec fn written_value(w: Written, params: Seq<ValueText>, now: ValueText) -> ValueText {
    match w {
        Written::Parameter(n) => params[n - 1],
        Written::Now => now,
    }
}

/// The row with these columns set.
pub open spec fn filled(
    columns: Seq<Seq<char>>,
    values: Seq<Written>,
    params: Seq<ValueText>,
    now: ValueText,
) -> Row
    decreases columns.len(),
{
    if columns.len() == 0 {
        Map::empty()
    } else {
        let n = columns.len() - 1;
        filled(columns.drop_last(), values, params, now).insert(
            columns[n],
            written_value(values[n], params, now),
        )
    }
}

/// The row that the statement adds.
pub open spec fn new_row(i: Insert, params: Seq<ValueText>, now: ValueText) -> Row {
    filled(i.columns, i.values, params, now)
}

/// The row `r` stands in the way of the row `w`.
pub open spec fn in_the_way(c: Conflict, r: Row, w: Row) -> bool {
    match c {
        Conflict::KeepOld(columns) => forall|k: int|
            0 <= k < columns.len() ==> r[#[trigger] columns[k]] == w[columns[k]] && !(
            w[columns[k]] is Null),
        Conflict::Replace { key, .. } => r[key] == w[key],
        _ => false,
    }
}

/// The row `r` with the columns of `w`.
pub open spec fn taken_over(r: Row, w: Row, columns: Seq<Seq<char>>) -> Row
    decreases columns.len(),
{
    if columns.len() == 0 {
        r
    } else {
        taken_over(r, w, columns.drop_last()).insert(columns.last(), w[columns.last()])
    }
}

/// What becomes of a row that stands in the way of the row `w`.
pub open spec fn kept_of(c: Conflict, r: Row, w: Row) -> Row {
    match c {
        Conflict::Replace { columns, .. } => taken_over(r, w, columns),
        _ => r,
    }
}

/// The rows of a table after a row was added to them.
pub open spec fn after_insert(
    rows: Set<Row>,
    i: Insert,
    params: Seq<ValueText>,
    now: ValueText,
) -> Set<Row> {
    let w = new_row(i, params, now);
    if exists|r: Row| rows.contains(r) && #[trigger] in_the_way(i.conflict, r, w) {
        rows.map(
            |r: Row|
                if in_the_way(i.conflict, r, w) {
                    kept_of(i.conflict, r, w)
                } else {
                    r
                },
        )
    } else {
        rows.insert(w)
    }
}

/// The row with columns set to the values of parameters.
pub open spec fn with_set(r: Row, sets: Seq<(Seq<char>, nat)>, params: Seq<ValueText>) -> Row
    decreases sets.len(),
{
    if sets.len() == 0 {
        r
    } else {
        with_set(r, sets.drop_last(), params).insert(sets.last().0, params[sets.last().1 - 1])
    }
}

/// What an `UPDATE` makes of a row.
pub open spec fn updated(db: Database, u: Update, params: Seq<ValueText>, r: Row) -> Row {
    if meets_all(db, u.conditions, params, alone(r)) {
        with_set(r, u.sets, params)
    } else {
        r
    }
}

/// A `DELETE` leaves the row.
pub open spec fn survives(db: Database, d: Delete, params: Seq<ValueText>, r: Row) -> bool {
    !meets_all(db, d.conditions, params, alone(r))
}

// ---------------------------------------------------------------------------
// The texts of statements
// ---------------------------------------------------------------------------

/// The texts, with `between` between each two.
pub open spec fn listed(items: Seq<Seq<char>>, between: Seq<char>) -> Seq<char>
    decreases items.len(),
{
    if items.len() == 0 {
        Seq::empty()
    } else if items.len() == 1 {
        items[0]
    } else {
        listed(items.drop_last(), between) + between + items.last()
    }
}

pub open spec fn column_text(c: Column) -> Seq<char> {
    if c.of.len() == 0 {
        c.name
    } else {
        c.of + "."@ + c.name
    }
}

pub open spec fn parameter_text(n: nat) -> Seq<char> {
    "?"@ + text::decimal(n)
}

pub open spec fn operand_text(o: Operand) -> Seq<char> {
    match o {
        Operand::Parameter(n) => parameter_text(n),
        Operand::Number(n) => text::decimal(n),
    }
}

pub open spec fn condition_text(c: Condition) -> Seq<char> {
    match c {
        Condition::Equal(c, o) => column_text(c) + " = "@ + operand_text(o),
        Condition::AtLeast(c, o) => column_text(c) + " >= "@ + operand_text(o),
        Condition::Present(c) => column_text(c) + " IS NOT NULL"@,
        Condition::Among(c, n) => column_text(c) + " IN (SELECT value FROM json_each("@
            + parameter_text(n) + "))"@,
        Condition::Matching(c, n) => column_text(c) + " MATCH "@ + parameter_text(n),
    }
}

pub open spec fn conditions_text(conditions: Seq<Condition>) -> Seq<char> {
    listed(conditions.map_values(|c: Condition| condition_text(c)), " AND "@)
}

pub open spec fn source_text(s: Source, gap: Seq<char>) -> Seq<char> {
    match s {
        Source::Table(t) => t,
        Source::Join { left, left_as, right, right_as, on } => left + " "@ + left_as + gap
            + "JOIN "@ + right + " "@ + right_as + " ON "@ + column_text(on.0) + " = "@
            + column_text(on.1),
    }
}

pub open spec fn term_text(t: (Column, Direction)) -> Seq<char> {
    match t.1 {
        Direction::Plain => column_text(t.0),
        Direction::Up => column_text(t.0) + " ASC"@,
        Direction::Down => column_text(t.0) + " DESC"@,
    }
}

pub open spec fn selected_text(s: Selected) -> Seq<char> {
    match s {
        Selected::Columns(columns) => listed(
            columns.map_values(|c: Column| column_text(c)),
            ", "@,
        ),
        Selected::Count => "COUNT(*)"@,
    }
}

/// The text of a query.
pub open spec fn query_text(q: Query) -> Seq<char> {
    "SELECT "@ + selected_text(q.selected) + q.gap + "FROM "@ + source_text(q.source, q.gap)
        + tail_text(q)
}

/// The text of a query from its conditions on.
pub open spec fn tail_text(q: Query) -> Seq<char> {
    (if q.conditions.len() == 0 {
        Seq::empty()
    } else {
        q.gap + "WHERE "@ + conditions_text(q.conditions)
    }) + (if q.order.len() == 0 {
        Seq::empty()
    } else {
        q.gap + "ORDER BY "@ + listed(
            q.order.map_values(|t: (Column, Direction)| term_text(t)),
            ", "@,
        )
    }) + (match q.limit {
        Some(o) => q.gap + "LIMIT "@ + operand_text(o),
        None => Seq::empty(),
    }) + (match q.offset {
        Some(o) => q.gap + "OFFSET "@ + operand_text(o),
        None => Seq::empty(),
    })
}

pub open spec fn written_text(w: Written) -> Seq<char> {
    match w {
        Written::Parameter(n) => parameter_text(n),
        Written::Now => "strftime('%Y-%m-%dT%H:%M:%SZ', 'now')"@,
    }
}

pub open spec fn conflict_text(c: Conflict, gap: Seq<char>) -> Seq<char> {
    match c {
        Conflict::Fail => Seq::empty(),
        Conflict::Ignore => Seq::empty(),
        Conflict::KeepOld(columns) => gap + "ON CONFLICT("@ + listed(columns, ", "@) + ") WHERE "@
            + columns.last() + " IS NOT NULL DO NOTHING"@,
        Conflict::Replace { key, columns } => gap + "ON CONFLICT("@ + key
            + ") DO UPDATE SET "@ + listed(
            columns.map_values(|c: Seq<char>| c + " = excluded."@ + c),
            ", "@,
        ),
    }
}

/// The text of a statement that adds a row.
pub open spec fn insert_text(i: Insert) -> Seq<char> {
    (if i.conflict is Ignore {
        "INSERT OR IGNORE INTO "@
    } else {
        "INSERT INTO "@
    }) + i.table + " ("@ + listed(i.columns, ", "@) + ")"@ + i.gap + "VALUES ("@ + listed(
        i.values.map_values(|w: Written| written_text(w)),
        ", "@,
    ) + ")"@ + conflict_text(i.conflict, i.gap)
}

/// The text of a statement that changes rows.
pub open spec fn update_text(u: Update) -> Seq<char> {
    "UPDATE "@ + u.table + " SET "@ + listed(
        u.sets.map_values(|s: (Seq<char>, nat)| s.0 + " = "@ + parameter_text(s.1)),
        ", "@,
    ) + " WHERE "@ + conditions_text(u.conditions)
}

/// The text of a statement that takes rows away.
pub open spec fn delete_text(d: Delete) -> Seq<char> {
    "DELETE FROM "@ + d.table + " WHERE "@ + conditions_text(d.conditions)
}

/// The parameters from the first to the `n`th, each written to a column.
pub open spec fn parameters(n: nat) -> Seq<Written> {
    Seq::new(n, |i: int| Written::Parameter((i + 1) as nat))
}

// ---------------------------------------------------------------------------
// Lists
// ---------------------------------------------------------------------------

/// A list with one more text.
pub proof fn lemma_listed_push(items: Seq<Seq<char>>, between: Seq<char>, last: Seq<char>)
    requires
        items.len() > 0,
    ensures
        listed(items.push(last), between) == listed(items, between) + between + last,
{
    assert(items.push(last).drop_last() =~= items);
}

/// The digits of small numbers.
pub proof fn lemma_small_numbers()
    ensures
        text::decimal(0) == "0"@,
        text::decimal(1) == "1"@,
        text::decimal(2) == "2"@,
        text::decimal(3) == "3"@,
        text::decimal(4) == "4"@,
        text::decimal(5) == "5"@,
        text::decimal(6) == "6"@,
        text::decimal(7) == "7"@,
        text::decimal(8) == "8"@,
        text::decimal(9) == "9"@,
        text::decimal(10) == "10"@,
        text::decimal(11) == "11"@,
        text::decimal(12) == "12"@,
        text::decimal(13) == "13"@,
        text::decimal(14) == "14"@,
        text::decimal(15) == "15"@,
        text::decimal(16) == "16"@,
{
    reveal_strlit("0");
    reveal_strlit("1");
    reveal_strlit("2");
    reveal_strlit("3");
    reveal_strlit("4");
    reveal_strlit("5");
    reveal_strlit("6");
    reveal_strlit("7");
    reveal_strlit("8");
    reveal_strlit("9");
    reveal_strlit("10");
    reveal_strlit("11");
    reveal_strlit("12");
    reveal_strlit("13");
    reveal_strlit("14");
    reveal_strlit("15");
    reveal_strlit("16");
    reveal_with_fuel(text::decimal, 3);
    assert(text::decimal(0) =~= "0"@);
    assert(text::decimal(1) =~= "1"@);
    assert(text::decimal(2) =~= "2"@);
    assert(text::decimal(3) =~= "3"@);
    assert(text::decimal(4) =~= "4"@);
    assert(text::decimal(5) =~= "5"@);
    assert(text::decimal(6) =~= "6"@);
    assert(text::decimal(7) =~= "7"@);
    assert(text::decimal(8) =~= "8"@);
    assert(text::decimal(9) =~= "9"@);
    assert(text::decimal(10) =~= "10"@);
    assert(text::decimal(11) =~= "11"@);
    assert(text::decimal(12) =~= "12"@);
    assert(text::decimal(13) =~= "13"@);
    assert(text::decimal(14) =~= "14"@);
    assert(text::decimal(15) =~= "15"@);
    assert(text::decimal(16) =~= "16"@);
}

/// No two texts come before each other.
pub proof fn text_order_is_strict(a: Seq<char>, b: Seq<char>)
    ensures
        !(text_less(a, b) && text_less(b, a)),
    decreases a.len(),
{
    if a.len() > 0 && b.len() > 0 && a[0] == b[0] {
        text_order_is_strict(a.drop_first(), b.drop_first());
    }
}

/// One condition, met by a row that is read alone.
pub proof fn lemma_one_condition(db: Database, c: Condition, params: Seq<ValueText>, found: Found)
    ensures
        meets_all(db, seq![c], params, found) <==> meets(db, c, params, found),
{
    let conditions = seq![c];
    if meets_all(db, conditions, params, found) {
        assert(meets(db, conditions[0], params, found));
    }
}

/// Two conditions.
pub proof fn lemma_two_conditions(
    db: Database,
    c: Condition,
    d: Condition,
    params: Seq<ValueText>,
    found: Found,
)
    ensures
        meets_all(db, seq![c, d], params, found) <==> meets(db, c, params, found) && meets(
            db,
            d,
            params,
            found,
        ),
{
    let conditions = seq![c, d];
    if meets_all(db, conditions, params, found) {
        assert(meets(db, conditions[0], params, found));
        assert(meets(db, conditions[1], params, found));
    }
}

/// What stands in a column of a row that is read alone.
pub proof fn lemma_alone(r: Row, name: Seq<char>)
    ensures
        value_of(alone(r), column(name)) == r[name],
{
    assert(alone(r)[Seq::<char>::empty()] == r);
}

} // verus!
