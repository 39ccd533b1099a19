//! The text of a schema-change script in SQL, as the database engine takes
//! it.
//!
//! Every field is declared as `TEXT`. The key of a table is declared
//! `PRIMARY KEY`, a required field `NOT NULL`, and a reference as a
//! `FOREIGN KEY` to the key of the table it names.

use vstd::prelude::*;
use vstd::string::StringExecFns;
use crate::catalog::{
    script_view,
    ColumnView,
    Index,
    IndexView,
    SchemaChange,
    SchemaChangeView,
    Table,
    TableView,
};
use crate::text::same;

verus! {

/// The declaration of one field of a table with this key.
pub open spec fn column_sql(column: ColumnView, key: Seq<char>) -> Seq<char> {
    column.name + " TEXT"@ + if column.name == key {
        " PRIMARY KEY"@
    } else if column.required {
        " NOT NULL"@
    } else {
        Seq::<char>::empty()
    }
}

/// The declarations of the first `n` fields of a table, separated by
/// commas.
pub open spec fn columns_sql(table: TableView, n: int) -> Seq<char>
    decreases n,
{
    if n <= 0 {
        Seq::<char>::empty()
    } else {
        columns_sql(table, n - 1) + if n > 1 {
            ", "@
        } else {
            Seq::<char>::empty()
        } + column_sql(table.columns[n - 1], table.key)
    }
}

/// The foreign-key clause of a field, which is empty for a field that is no
/// reference.
pub open spec fn foreign_key_sql(column: ColumnView) -> Seq<char> {
    match column.references {
        Some(target) => ", FOREIGN KEY ("@ + column.name + ") REFERENCES "@ + target,
        None => Seq::<char>::empty(),
    }
}

/// The foreign-key clauses of the first `n` fields of a table.
pub open spec fn foreign_keys_sql(table: TableView, n: int) -> Seq<char>
    decreases n,
{
    if n <= 0 {
        Seq::<char>::empty()
    } else {
        foreign_keys_sql(table, n - 1) + foreign_key_sql(table.columns[n - 1])
    }
}

/// The statement that creates a table.
pub open spec fn table_sql(table: TableView) -> Seq<char> {
    "CREATE TABLE "@ + table.name + " ("@ + columns_sql(table, table.columns.len() as int)
        + foreign_keys_sql(table, table.columns.len() as int) + ");"@
}

/// The statement that creates an index.
pub open spec fn index_sql(index: IndexView) -> Seq<char> {
    "CREATE INDEX "@ + index.name + " ON "@ + index.table + "("@ + index.column + ");"@
}

/// The statement of one change.
pub open spec fn change_sql(change: SchemaChangeView) -> Seq<char> {
    match change {
        SchemaChangeView::CreateTable(table) => table_sql(table),
        SchemaChangeView::CreateIndex(index) => index_sql(index),
    }
}

/// The statements of the first `n` changes of a script, one to a line.
pub open spec fn script_sql(script: Seq<SchemaChangeView>, n: int) -> Seq<char>
    decreases n,
{
    if n <= 0 {
        Seq::<char>::empty()
    } else {
        script_sql(script, n - 1) + change_sql(script[n - 1]) + "\n"@
    }
}

/// Writes the statement that creates a table.
pub fn render_table(table: &Table) -> (sql: String)
    ensures
        sql@ == table_sql(table@),
{
    let mut sql = String::new();
    sql.append("CREATE TABLE ");
    sql.append(table.name.as_str());
    sql.append(" (");
    let ghost head = "CREATE TABLE "@ + table@.name + " ("@;
    assert(sql@ =~= head + columns_sql(table@, 0));
    let mut i: usize = 0;
    while i < table.columns.len()
        invariant
            i <= table.columns.len(),
            head == "CREATE TABLE "@ + table@.name + " ("@,
            sql@ == head + columns_sql(table@, i as int),
        decreases table.columns.len() - i,
    {
        let column = &table.columns[i];
        assert(table@.columns[i as int] == column@);
        let ghost before = sql@;
        if i > 0 {
            sql.append(", ");
        }
        sql.append(column.name.as_str());
        sql.append(" TEXT");
        if same(column.name.as_str(), table.key.as_str()) {
            sql.append(" PRIMARY KEY");
        } else if column.required {
            sql.append(" NOT NULL");
        }
        assert(sql@ =~= before + (if i > 0 {
            ", "@
        } else {
            Seq::<char>::empty()
        } + column_sql(column@, table@.key)));
        assert(sql@ =~= head + columns_sql(table@, i + 1));
        i += 1;
    }
    let ghost fields = sql@;
    assert(sql@ =~= fields + foreign_keys_sql(table@, 0));
    let mut j: usize = 0;
    while j < table.columns.len()
        invariant
            j <= table.columns.len(),
            fields == head + columns_sql(table@, table@.columns.len() as int),
            sql@ == fields + foreign_keys_sql(table@, j as int),
        decreases table.columns.len() - j,
    {
        let column = &table.columns[j];
        assert(table@.columns[j as int] == column@);
        let ghost before = sql@;
        match &column.references {
            Some(target) => {
                sql.append(", FOREIGN KEY (");
                sql.append(column.name.as_str());
                sql.append(") REFERENCES ");
                sql.append(target.as_str());
            },
            None => {},
        }
        assert(sql@ =~= before + foreign_key_sql(column@));
        assert(sql@ =~= fields + foreign_keys_sql(table@, j + 1));
        j += 1;
    }
    sql.append(");");
    assert(sql@ =~= table_sql(table@));
    sql
}

/// Writes the statement that creates an index.
pub fn render_index(index: &Index) -> (sql: String)
    ensures
        sql@ == index_sql(index@),
{
    let mut sql = String::new();
    sql.append("CREATE INDEX ");
    sql.append(index.name.as_str());
    sql.append(" ON ");
    sql.append(index.table.as_str());
    sql.append("(");
    sql.append(index.column.as_str());
    sql.append(");");
    assert(sql@ =~= index_sql(index@));
    sql
}

/// Writes a script: the statement of each change, one to a line, in the
/// order of the script.
pub fn render_script(script: &Vec<SchemaChange>) -> (sql: String)
    ensures
        sql@ == script_sql(script_view(script@), script@.len() as int),
{
    let ghost changes = script_view(script@);
    let mut sql = String::new();
    let mut k: usize = 0;
    while k < script.len()
        invariant
            k <= script.len(),
            changes == script_view(script@),
            sql@ == script_sql(changes, k as int),
        decreases script.len() - k,
    {
        assert(changes[k as int] == script[k as int]@);
        let statement = match &script[k] {
            SchemaChange::CreateTable(table) => render_table(table),
            SchemaChange::CreateIndex(index) => render_index(index),
        };
        sql.append(statement.as_str());
        sql.append("\n");
        k += 1;
    }
    sql
}

} // verus!
