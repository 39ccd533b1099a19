//! The schema catalog: which tables and secondary indexes a database has.
//!
//! A catalog only grows. Tables and indexes are created by the scripts of
//! migrations; a script is a list of changes that is run as a whole or not
//! at all.

use vstd::prelude::*;
use crate::text::{optional_text, same};

verus! {

/// One field of a table. Every field holds text.
#[derive(Debug, PartialEq, Eq)]
pub struct Column {
    pub name: String,
    /// A required field must be given with every row.
    pub required: bool,
    /// The table whose key this field refers to, if it is a reference.
    pub references: Option<String>,
}

/// A table: its name, the name of its key field and all its fields.
#[derive(Debug, PartialEq, Eq)]
pub struct Table {
    pub name: String,
    pub key: String,
    pub columns: Vec<Column>,
}

/// A secondary index on one field of one table.
#[derive(Debug, PartialEq, Eq)]
pub struct Index {
    pub name: String,
    pub table: String,
    pub column: String,
}

/// One forward step of a schema-change script.
#[derive(Debug, PartialEq, Eq)]
pub enum SchemaChange {
    CreateTable(Table),
    CreateIndex(Index),
}

pub struct ColumnView {
    pub name: Seq<char>,
    pub required: bool,
    pub references: Option<Seq<char>>,
}

pub struct TableView {
    pub name: Seq<char>,
    pub key: Seq<char>,
    pub columns: Seq<ColumnView>,
}

pub struct IndexView {
    pub name: Seq<char>,
    pub table: Seq<char>,
    pub column: Seq<char>,
}

pub enum SchemaChangeView {
    CreateTable(TableView),
    CreateIndex(IndexView),
}

/// The catalog as mathematics: tables and indexes in the order of creation.
pub struct CatalogView {
    pub tables: Seq<TableView>,
    pub indexes: Seq<IndexView>,
}

impl View for Column {
    type V = ColumnView;

    open spec fn view(&self) -> ColumnView {
        ColumnView {
            name: self.name@,
            required: self.required,
            references: optional_text(self.references),
        }
    }
}

impl View for Table {
    type V = TableView;

    open spec fn view(&self) -> TableView {
        TableView {
            name: self.name@,
            key: self.key@,
            columns: self.columns@.map_values(|c: Column| c@),
        }
    }
}

impl View for Index {
    type V = IndexView;

    open spec fn view(&self) -> IndexView {
        IndexView { name: self.name@, table: self.table@, column: self.column@ }
    }
}

impl View for SchemaChange {
    type V = SchemaChangeView;

    open spec fn view(&self) -> SchemaChangeView {
        match self {
            SchemaChange::CreateTable(table) => SchemaChangeView::CreateTable(table@),
            SchemaChange::CreateIndex(index) => SchemaChangeView::CreateIndex(index@),
        }
    }
}

/// The views of a script's changes, in order.
pub open spec fn script_view(script: Seq<SchemaChange>) -> Seq<SchemaChangeView> {
    script.map_values(|change: SchemaChange| change@)
}

impl TableView {
    /// The table has a field of this name.
    pub open spec fn has_column(self, column: Seq<char>) -> bool {
        exists|j: int| 0 <= j < self.columns.len() && (#[trigger] self.columns[j]).name == column
    }

    /// The key is one of the fields, and no two fields share a name.
    pub open spec fn well_formed(self) -> bool {
        &&& self.has_column(self.key)
        &&& forall|i: int, j: int|
            0 <= i < j < self.columns.len() ==> (#[trigger] self.columns[i]).name != (
            #[trigger] self.columns[j]).name
    }
}

impl CatalogView {
    /// The catalog of a database that has never been initialised.
    pub open spec fn empty() -> CatalogView {
        CatalogView { tables: Seq::empty(), indexes: Seq::empty() }
    }

    pub open spec fn has_table(self, name: Seq<char>) -> bool {
        exists|i: int| 0 <= i < self.tables.len() && (#[trigger] self.tables[i]).name == name
    }

    pub open spec fn has_column(self, table: Seq<char>, column: Seq<char>) -> bool {
        exists|i: int|
            0 <= i < self.tables.len() && (#[trigger] self.tables[i]).name == table
                && self.tables[i].has_column(column)
    }

    pub open spec fn has_index(self, name: Seq<char>) -> bool {
        exists|i: int| 0 <= i < self.indexes.len() && (#[trigger] self.indexes[i]).name == name
    }

    /// Every reference of `table` names a table of this catalog or `table`
    /// itself.
    pub open spec fn resolves(self, table: TableView) -> bool {
        forall|j: int|
            0 <= j < table.columns.len() ==> match (#[trigger] table.columns[j]).references {
                Some(target) => target == table.name || self.has_table(target),
                None => true,
            }
    }

    /// Whether `change` can be applied: a new table needs an unused name, a
    /// sound definition and references that resolve; a new index needs an
    /// unused name and an existing field to stand on.
    pub open spec fn accepts(self, change: SchemaChangeView) -> bool {
        match change {
            SchemaChangeView::CreateTable(table) => {
                &&& !self.has_table(table.name)
                &&& table.well_formed()
                &&& self.resolves(table)
            },
            SchemaChangeView::CreateIndex(index) => {
                &&& !self.has_index(index.name)
                &&& self.has_column(index.table, index.column)
            },
        }
    }

    /// The catalog after `change`.
    pub open spec fn apply(self, change: SchemaChangeView) -> CatalogView {
        match change {
            SchemaChangeView::CreateTable(table) => CatalogView {
                tables: self.tables.push(table),
                indexes: self.indexes,
            },
            SchemaChangeView::CreateIndex(index) => CatalogView {
                tables: self.tables,
                indexes: self.indexes.push(index),
            },
        }
    }

    /// Runs the changes of `script` from position `from` on, in order. The
    /// result is the catalog after the last of them, or `None` as soon as
    /// one is not accepted.
    pub open spec fn run_from(self, script: Seq<SchemaChangeView>, from: int) -> Option<
        CatalogView,
    >
        decreases script.len() - from,
    {
        if from < 0 || from >= script.len() {
            Some(self)
        } else if !self.accepts(script[from]) {
            None
        } else {
            self.apply(script[from]).run_from(script, from + 1)
        }
    }

    /// Runs a whole script.
    pub open spec fn run(self, script: Seq<SchemaChangeView>) -> Option<CatalogView> {
        self.run_from(script, 0)
    }

    /// No name is used twice, every table is sound, every reference and
    /// every index stands on something that exists.
    pub open spec fn wf(self) -> bool {
        &&& forall|i: int, j: int|
            0 <= i < j < self.tables.len() ==> (#[trigger] self.tables[i]).name != (
            #[trigger] self.tables[j]).name
        &&& forall|i: int|
            0 <= i < self.tables.len() ==> (#[trigger] self.tables[i]).well_formed()
                && self.resolves(self.tables[i])
        &&& forall|i: int, j: int|
            0 <= i < j < self.indexes.len() ==> (#[trigger] self.indexes[i]).name != (
            #[trigger] self.indexes[j]).name
        &&& forall|i: int|
            0 <= i < self.indexes.len() ==> self.has_column(
                (#[trigger] self.indexes[i]).table,
                self.indexes[i].column,
            )
    }

    /// What was in the catalog before a change is in it afterwards.
    pub proof fn lemma_apply_keeps(self, change: SchemaChangeView)
        ensures
            forall|name: Seq<char>| self.has_table(name) ==> self.apply(change).has_table(name),
            forall|table: Seq<char>, column: Seq<char>|
                self.has_column(table, column) ==> self.apply(change).has_column(table, column),
            forall|name: Seq<char>| self.has_index(name) ==> self.apply(change).has_index(name),
    {
        let next = self.apply(change);
        assert forall|name: Seq<char>| self.has_table(name) implies next.has_table(name) by {
            let i = choose|i: int| 0 <= i < self.tables.len() && self.tables[i].name == name;
            assert(next.tables[i] == self.tables[i]);
        }
        assert forall|table: Seq<char>, column: Seq<char>|
            self.has_column(table, column) implies next.has_column(table, column) by {
            let i = choose|i: int|
                0 <= i < self.tables.len() && self.tables[i].name == table
                    && self.tables[i].has_column(column);
            assert(next.tables[i] == self.tables[i]);
        }
        assert forall|name: Seq<char>| self.has_index(name) implies next.has_index(name) by {
            let i = choose|i: int| 0 <= i < self.indexes.len() && self.indexes[i].name == name;
            assert(next.indexes[i] == self.indexes[i]);
        }
    }

    /// An accepted change leaves a well-formed catalog well-formed.
    pub proof fn lemma_apply_wf(self, change: SchemaChangeView)
        requires
            self.wf(),
            self.accepts(change),
        ensures
            self.apply(change).wf(),
    {
        let next = self.apply(change);
        self.lemma_apply_keeps(change);
        match change {
            SchemaChangeView::CreateTable(table) => {
                let n = self.tables.len() as int;
                assert(next.tables[n] == table);
                assert forall|i: int| 0 <= i < next.tables.len() implies (
                #[trigger] next.tables[i]).well_formed() && next.resolves(next.tables[i]) by {
                    let t = next.tables[i];
                    if i < n {
                        assert(t == self.tables[i]);
                        assert(self.resolves(t));
                    } else {
                        assert(self.resolves(t));
                    }
                    assert forall|j: int| 0 <= j < t.columns.len() implies match (
                    #[trigger] t.columns[j]).references {
                        Some(target) => target == t.name || next.has_table(target),
                        None => true,
                    } by {}
                }
                assert forall|i: int, j: int| 0 <= i < j < next.tables.len() implies (
                #[trigger] next.tables[i]).name != (#[trigger] next.tables[j]).name by {
                    if j == n {
                        assert(next.tables[i] == self.tables[i]);
                    }
                }
                assert forall|i: int| 0 <= i < next.indexes.len() implies next.has_column(
                    (#[trigger] next.indexes[i]).table,
                    next.indexes[i].column,
                ) by {
                    assert(self.has_column(self.indexes[i].table, self.indexes[i].column));
                }
            },
            SchemaChangeView::CreateIndex(index) => {
                let n = self.indexes.len() as int;
                assert(next.indexes[n] == index);
                assert forall|i: int, j: int| 0 <= i < j < next.indexes.len() implies (
                #[trigger] next.indexes[i]).name != (#[trigger] next.indexes[j]).name by {
                    if j == n {
                        assert(next.indexes[i] == self.indexes[i]);
                    }
                }
                assert forall|i: int| 0 <= i < next.indexes.len() implies next.has_column(
                    (#[trigger] next.indexes[i]).table,
                    next.indexes[i].column,
                ) by {
                    if i < n {
                        assert(next.indexes[i] == self.indexes[i]);
                        assert(self.has_column(self.indexes[i].table, self.indexes[i].column));
                    }
                }
            },
        }
    }
}

impl CatalogView {
    /// A script that runs leaves a well-formed catalog well-formed.
    pub proof fn lemma_run_wf(self, script: Seq<SchemaChangeView>, from: int)
        requires
            self.wf(),
            0 <= from,
            self.run_from(script, from) is Some,
        ensures
            self.run_from(script, from)->Some_0.wf(),
        decreases script.len() - from,
    {
        if from < script.len() {
            self.lemma_apply_wf(script[from]);
            self.apply(script[from]).lemma_run_wf(script, from + 1);
        }
    }
}

impl Clone for Column {
    fn clone(&self) -> (r: Column)
        ensures
            r@ == self@,
    {
        Column {
            name: self.name.clone(),
            required: self.required,
            references: match &self.references {
                Some(target) => Some(target.clone()),
                None => None,
            },
        }
    }
}

impl Clone for Table {
    fn clone(&self) -> (r: Table)
        ensures
            r@ == self@,
    {
        let mut columns: Vec<Column> = Vec::new();
        let mut i: usize = 0;
        while i < self.columns.len()
            invariant
                i <= self.columns.len(),
                columns.len() == i,
                forall|j: int| 0 <= j < i ==> columns[j]@ == self.columns[j]@,
            decreases self.columns.len() - i,
        {
            columns.push(self.columns[i].clone());
            i += 1;
        }
        let r = Table { name: self.name.clone(), key: self.key.clone(), columns };
        assert(r@.columns =~= self@.columns);
        r
    }
}

impl Clone for Index {
    fn clone(&self) -> (r: Index)
        ensures
            r@ == self@,
    {
        Index {
            name: self.name.clone(),
            table: self.table.clone(),
            column: self.column.clone(),
        }
    }
}

impl Clone for SchemaChange {
    fn clone(&self) -> (r: SchemaChange)
        ensures
            r@ == self@,
    {
        match self {
            SchemaChange::CreateTable(table) => SchemaChange::CreateTable(table.clone()),
            SchemaChange::CreateIndex(index) => SchemaChange::CreateIndex(index.clone()),
        }
    }
}

impl Table {
    /// Decides whether the table has a field of this name.
    pub fn has_column(&self, column: &str) -> (r: bool)
        ensures
            r == self@.has_column(column@),
    {
        let mut j: usize = 0;
        while j < self.columns.len()
            invariant
                j <= self.columns.len(),
                forall|k: int| 0 <= k < j ==> (#[trigger] self@.columns[k]).name != column@,
            decreases self.columns.len() - j,
        {
            if same(self.columns[j].name.as_str(), column) {
                assert(self@.columns[j as int].name == column@);
                return true;
            }
            j += 1;
        }
        false
    }

    /// Decides whether the definition is sound.
    pub fn is_well_formed(&self) -> (r: bool)
        ensures
            r == self@.well_formed(),
    {
        if !self.has_column(self.key.as_str()) {
            return false;
        }
        let mut j: usize = 0;
        while j < self.columns.len()
            invariant
                j <= self.columns.len(),
                forall|a: int, b: int|
                    0 <= a < b < j ==> (#[trigger] self@.columns[a]).name != (
                    #[trigger] self@.columns[b]).name,
            decreases self.columns.len() - j,
        {
            let mut i: usize = 0;
            while i < j
                invariant
                    i <= j,
                    j < self.columns.len(),
                    forall|a: int| 0 <= a < i ==> (#[trigger] self@.columns[a]).name
                        != self@.columns[j as int].name,
                decreases j - i,
            {
                if same(self.columns[i].name.as_str(), self.columns[j].name.as_str()) {
                    assert(self@.columns[i as int].name == self@.columns[j as int].name);
                    return false;
                }
                i += 1;
            }
            j += 1;
        }
        true
    }
}

/// The tables and indexes of one database.
#[derive(Debug)]
pub struct Catalog {
    tables: Vec<Table>,
    indexes: Vec<Index>,
}

impl View for Catalog {
    type V = CatalogView;

    closed spec fn view(&self) -> CatalogView {
        CatalogView {
            tables: self.tables@.map_values(|t: Table| t@),
            indexes: self.indexes@.map_values(|x: Index| x@),
        }
    }
}

impl Catalog {
    pub open spec fn wf(&self) -> bool {
        self@.wf()
    }

    /// A catalog with nothing in it.
    pub fn new() -> (c: Catalog)
        ensures
            c@ == CatalogView::empty(),
            c.wf(),
    {
        let c = Catalog { tables: Vec::new(), indexes: Vec::new() };
        assert(c@.tables =~= Seq::empty());
        assert(c@.indexes =~= Seq::empty());
        c
    }

    pub fn table_count(&self) -> (n: usize)
        ensures
            n == self@.tables.len(),
    {
        self.tables.len()
    }

    pub fn index_count(&self) -> (n: usize)
        ensures
            n == self@.indexes.len(),
    {
        self.indexes.len()
    }

    /// The table at a position, positions counting in the order of creation.
    pub fn table_at(&self, position: usize) -> (t: &Table)
        requires
            position < self@.tables.len(),
        ensures
            t@ == self@.tables[position as int],
    {
        &self.tables[position]
    }

    /// The index at a position, positions counting in the order of creation.
    pub fn index_at(&self, position: usize) -> (x: &Index)
        requires
            position < self@.indexes.len(),
        ensures
            x@ == self@.indexes[position as int],
    {
        &self.indexes[position]
    }

    pub fn has_table(&self, name: &str) -> (r: bool)
        ensures
            r == self@.has_table(name@),
    {
        let mut i: usize = 0;
        while i < self.tables.len()
            invariant
                i <= self.tables.len(),
                forall|k: int| 0 <= k < i ==> (#[trigger] self@.tables[k]).name != name@,
            decreases self.tables.len() - i,
        {
            if same(self.tables[i].name.as_str(), name) {
                assert(self@.tables[i as int].name == name@);
                return true;
            }
            i += 1;
        }
        false
    }

    pub fn has_column(&self, table: &str, column: &str) -> (r: bool)
        ensures
            r == self@.has_column(table@, column@),
    {
        let mut i: usize = 0;
        while i < self.tables.len()
            invariant
                i <= self.tables.len(),
                forall|k: int|
                    0 <= k < i ==> !((#[trigger] self@.tables[k]).name == table@
                        && self@.tables[k].has_column(column@)),
            decreases self.tables.len() - i,
        {
            if same(self.tables[i].name.as_str(), table) && self.tables[i].has_column(column) {
                assert(self@.tables[i as int].name == table@ && self@.tables[i as int].has_column(
                    column@,
                ));
                return true;
            }
            i += 1;
        }
        false
    }

    pub fn has_index(&self, name: &str) -> (r: bool)
        ensures
            r == self@.has_index(name@),
    {
        let mut i: usize = 0;
        while i < self.indexes.len()
            invariant
                i <= self.indexes.len(),
                forall|k: int| 0 <= k < i ==> (#[trigger] self@.indexes[k]).name != name@,
            decreases self.indexes.len() - i,
        {
            if same(self.indexes[i].name.as_str(), name) {
                assert(self@.indexes[i as int].name == name@);
                return true;
            }
            i += 1;
        }
        false
    }

    fn resolves(&self, table: &Table) -> (r: bool)
        ensures
            r == self@.resolves(table@),
    {
        let mut j: usize = 0;
        while j < table.columns.len()
            invariant
                j <= table.columns.len(),
                forall|k: int|
                    0 <= k < j ==> match (#[trigger] table@.columns[k]).references {
                        Some(target) => target == table@.name || self@.has_table(target),
                        None => true,
                    },
            decreases table.columns.len() - j,
        {
            match &table.columns[j].references {
                Some(target) => {
                    if !same(target.as_str(), table.name.as_str()) && !self.has_table(
                        target.as_str(),
                    ) {
                        assert(table@.columns[j as int].references == Some(target@));
                        return false;
                    }
                },
                None => {},
            }
            j += 1;
        }
        true
    }

    /// Decides whether `change` can be applied to this catalog.
    pub fn accepts(&self, change: &SchemaChange) -> (r: bool)
        ensures
            r == self@.accepts(change@),
    {
        match change {
            SchemaChange::CreateTable(table) => {
                !self.has_table(table.name.as_str()) && table.is_well_formed() && self.resolves(
                    table,
                )
            },
            SchemaChange::CreateIndex(index) => {
                !self.has_index(index.name.as_str()) && self.has_column(
                    index.table.as_str(),
                    index.column.as_str(),
                )
            },
        }
    }

    fn record(&mut self, change: &SchemaChange)
        ensures
            final(self)@ == old(self)@.apply(change@),
    {
        match change {
            SchemaChange::CreateTable(table) => {
                self.tables.push(table.clone());
                assert(self@.tables =~= old(self)@.tables.push(table@));
            },
            SchemaChange::CreateIndex(index) => {
                self.indexes.push(index.clone());
                assert(self@.indexes =~= old(self)@.indexes.push(index@));
            },
        }
    }

    /// Runs a script as a whole: either every change is applied, in order,
    /// or the catalog is left as it was.
    pub fn run(&mut self, script: &Vec<SchemaChange>) -> (done: bool)
        requires
            old(self).wf(),
        ensures
            final(self).wf(),
            match old(self)@.run(script_view(script@)) {
                Some(next) => done && final(self)@ == next,
                None => !done && final(self)@ == old(self)@,
            },
    {
        let tables_before = self.tables.len();
        let indexes_before = self.indexes.len();
        let ghost changes = script_view(script@);
        let mut k: usize = 0;
        while k < script.len()
            invariant
                k <= script.len(),
                changes == script_view(script@),
                old(self).wf(),
                self.wf(),
                tables_before <= self.tables.len(),
                indexes_before <= self.indexes.len(),
                self@.tables.subrange(0, tables_before as int) == old(self)@.tables,
                self@.indexes.subrange(0, indexes_before as int) == old(self)@.indexes,
                old(self)@.run(changes) == self@.run_from(changes, k as int),
            decreases script.len() - k,
        {
            if !self.accepts(&script[k]) {
                self.tables.truncate(tables_before);
                self.indexes.truncate(indexes_before);
                assert(self@.tables =~= old(self)@.tables);
                assert(self@.indexes =~= old(self)@.indexes);
                return false;
            }
            proof {
                self@.lemma_apply_wf(changes[k as int]);
            }
            self.record(&script[k]);
            assert(self@.tables.subrange(0, tables_before as int) =~= old(self)@.tables);
            assert(self@.indexes.subrange(0, indexes_before as int) =~= old(self)@.indexes);
            k += 1;
        }
        true
    }
}

} // verus!
