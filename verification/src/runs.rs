//! Operations on the database from their first request to their last reply.

use crate::db;
use crate::db::{DbCall, DbOp, DbValue};
use crate::progress;
use crate::rows;
use crate::sql;
use crate::statements;
use crate::store;
use crate::tables;
use crate::tables::Database;
use vstd::prelude::*;

verus! {

/// A request with the reply to it.
pub struct Exchange {
    pub task: db::TaskView,
    pub reply: sql::DbReplyView,
}

/// Where an operation has got after the replies.
pub open spec fn played(step: db::StepView, replies: Seq<sql::DbReplyView>) -> db::StepView
    decreases replies.len(),
{
    match step {
        db::StepView::Ask(task) => if replies.len() == 0 {
            step
        } else {
            played(progress::resumed(task.op, replies[0]), replies.skip(1))
        },
        db::StepView::Done(_) => step,
    }
}

/// The requests that were answered by the replies, one after the other.
pub open spec fn exchanges(step: db::StepView, replies: Seq<sql::DbReplyView>) -> Seq<Exchange>
    decreases replies.len(),
{
    match step {
        db::StepView::Ask(task) => if replies.len() == 0 {
            Seq::empty()
        } else {
            seq![Exchange { task, reply: replies[0] }] + exchanges(
                progress::resumed(task.op, replies[0]),
                replies.skip(1),
            )
        },
        db::StepView::Done(_) => Seq::empty(),
    }
}

/// Whether each reply is one that its request can get.
pub open spec fn answerable(step: db::StepView, replies: Seq<sql::DbReplyView>) -> bool
    decreases replies.len(),
{
    match step {
        db::StepView::Ask(task) => replies.len() == 0 || {
            &&& sql::fits(task.request, replies[0])
            &&& answerable(progress::resumed(task.op, replies[0]), replies.skip(1))
        },
        db::StepView::Done(_) => true,
    }
}

/// Whether the operation sets the database up.
pub open spec fn sets_up(call: DbCall<Seq<char>>) -> bool {
    call is Migrate || call is Init
}

/// The first step of an operation that sets the database up.
pub open spec fn set_up(call: DbCall<Seq<char>>) -> db::StepView {
    db::StepView::Ask(store::plain_task(call))
}

/// Whether the exchange is a statement. Setting the database up has those that make
/// tables, those that bring them up to date and those that make indexes.
pub open spec fn executes(x: Exchange) -> bool {
    !(x.task.request is Query)
}

/// Whether the exchange asks about the table.
pub open spec fn checks(x: Exchange, table: usize) -> bool {
    x.task.op matches DbOp::CheckTable { table: t, .. } && t == table
}

/// Whether the exchange shows that the table has its newest column.
pub open spec fn finds_current(x: Exchange, table: usize) -> bool {
    checks(x, table) && rows::column_of(x.reply, statements::newest_of(table)) == Ok::<
        bool,
        Seq<char>,
    >(true)
}

/// Whether the exchange at `k` adds the newest column to a table with rows, and gives
/// the rows a value.
pub open spec fn adds(x: Seq<Exchange>, k: int, table: usize) -> bool {
    &&& 0 <= k < x.len()
    &&& table < statements::FILLED_TABLES
    &&& x[k].task.request == (sql::DbRequestView::Batch { sql: statements::add_of(table) })
    &&& x[k].reply is Done
}

/// Whether the exchange at `k` settles the table: the table has its newest column, or
/// it gets it in the next exchange, or in the one behind where it has rows.
pub open spec fn settles(x: Seq<Exchange>, k: int, table: usize) -> bool {
    &&& 0 <= k < x.len()
    &&& checks(x[k], table)
    &&& finds_current(x[k], table) || {
        &&& k + 1 < x.len()
        &&& x[k + 1].task.request == (sql::DbRequestView::Execute {
            sql: statements::fix_of(table),
            params: Seq::empty(),
        })
        &&& x[k + 1].reply is Done || adds(x, k + 2, table)
    }
}

/// Whether the statement at `k` was carried out, or was the plain way to add a column
/// and the next one did it.
pub open spec fn carried_out(x: Seq<Exchange>, k: int) -> bool {
    ||| x[k].reply is Done
    ||| x[k].task.op matches DbOp::FixTable { table, .. } && adds(x, k + 1, table)
}

/// Whether the exchange at `k` makes the index.
pub open spec fn makes(x: Seq<Exchange>, k: int, index: usize) -> bool {
    &&& 0 <= k < x.len()
    &&& x[k].task.request == (sql::DbRequestView::Execute {
        sql: statements::index_of(index),
        params: Seq::empty(),
    })
    &&& x[k].reply is Done
}

/// Whether one of the exchanges settles the table.
pub open spec fn settled(x: Seq<Exchange>, table: usize) -> bool {
    exists|k: int| #[trigger] settles(x, k, table)
}

/// Whether one of the exchanges makes the index.
pub open spec fn made(x: Seq<Exchange>, index: usize) -> bool {
    exists|k: int| #[trigger] makes(x, k, index)
}

/// The table from which on an operation that sets the database up still asks.
spec fn tables_from(op: db::OpView) -> int {
    match op {
        DbOp::CheckTable { table, .. } => table as int,
        DbOp::FixTable { table, .. } => table + 1,
        DbOp::AddColumn { table, .. } => table + 1,
        DbOp::MakeIndex { .. } => statements::TABLES as int,
        _ => 0,
    }
}

/// The index from which on such an operation still makes them.
spec fn indexes_from(op: db::OpView) -> int {
    match op {
        DbOp::MakeIndex { index, .. } => index as int,
        _ => 0,
    }
}

/// Whether the task is one of an operation that sets the database up.
spec fn is_set_up(task: db::TaskView) -> bool {
    match task.op {
        DbOp::InitTables => task == store::plain_task(DbCall::Init),
        DbOp::CheckTable { table, again } => table < statements::TABLES
            && task == store::check_table_of(table, again),
        DbOp::FixTable { table, again } => table < statements::TABLES
            && task == progress::fix_table_of(table, again),
        DbOp::AddColumn { table, again, why } => table < statements::FILLED_TABLES
            && task == progress::add_column_of(table, again, why),
        DbOp::UndoColumn { why } => task == progress::undo_column_of(why),
        DbOp::MakeIndex { index, again } => index < statements::INDEXES
            && task == progress::make_index_of(index, again),
        _ => false,
    }
}

proof fn lemma_shift(first: Exchange, rest: Seq<Exchange>)
    ensures
        forall|table: usize|
            settled(rest, table) ==> #[trigger] settled(seq![first] + rest, table),
        forall|index: usize| made(rest, index) ==> #[trigger] made(seq![first] + rest, index),
{
    let x = seq![first] + rest;
    assert forall|table: usize| settled(rest, table) implies #[trigger] settled(x, table) by {
        let k = choose|k: int| #[trigger] settles(rest, k, table);
        assert(x[k + 1] == rest[k]);
        if k + 1 < rest.len() {
            assert(x[k + 2] == rest[k + 1]);
        }
        if k + 2 < rest.len() {
            assert(x[k + 3] == rest[k + 2]);
        }
        assert(settles(x, k + 1, table));
    }
    assert forall|index: usize| made(rest, index) implies #[trigger] made(x, index) by {
        let k = choose|k: int| #[trigger] makes(rest, k, index);
        assert(x[k + 1] == rest[k]);
        assert(makes(x, k + 1, index));
    }
}

proof fn lemma_set_up(task: db::TaskView, replies: Seq<sql::DbReplyView>)
    requires
        is_set_up(task),
        answerable(db::StepView::Ask(task), replies),
        played(db::StepView::Ask(task), replies) matches db::StepView::Done(Ok(_)),
    ensures
        ({
            let x = exchanges(db::StepView::Ask(task), replies);
            &&& !(task.op is UndoColumn)
            &&& x.len() > 0
            &&& x[0] == (Exchange { task, reply: replies[0] })
            &&& forall|k: int|
                0 <= k < x.len() && executes(#[trigger] x[k]) ==> carried_out(x, k)
            &&& forall|table: usize|
                tables_from(task.op) <= table < statements::TABLES ==> #[trigger] settled(x, table)
            &&& forall|index: usize|
                indexes_from(task.op) <= index < statements::INDEXES ==> #[trigger] made(x, index)
        }),
    decreases replies.len(),
{
    let step = db::StepView::Ask(task);
    let x = exchanges(step, replies);
    assert(replies.len() > 0);
    let reply = replies[0];
    let first = Exchange { task, reply };
    let next = progress::resumed(task.op, reply);
    let later = replies.skip(1);
    let rest = exchanges(next, later);
    assert(x =~= seq![first] + rest);
    assert(x[0] == first);
    lemma_shift(first, rest);
    assert forall|k: int| 0 <= k < rest.len() implies #[trigger] x[k + 1] == rest[k] by {
    }
    match next {
        db::StepView::Done(r) => {
            assert(rest =~= Seq::<Exchange>::empty());
            assert(played(next, later) == next);
        },
        db::StepView::Ask(n) => {
            assert(is_set_up(n));
            lemma_set_up(n, later);
            assert(rest[0] == (Exchange { task: n, reply: later[0] }));
            assert(x[1] == rest[0]);
            assert(executes(rest[0]) ==> carried_out(rest, 0));
            if rest.len() > 1 {
                assert(x[2] == rest[1]);
            }
        },
    }
    assert forall|k: int| 0 <= k < x.len() && executes(#[trigger] x[k]) implies carried_out(
        x,
        k,
    ) by {
        if k > 0 {
            assert(x[k] == rest[k - 1]);
            assert(carried_out(rest, k - 1));
            if k < rest.len() {
                assert(x[k + 1] == rest[k]);
            }
        }
    }
    if let DbOp::CheckTable { table, .. } = task.op {
        assert(settles(x, 0, table));
        assert(settled(x, table));
    }
    if let DbOp::MakeIndex { index, .. } = task.op {
        assert(makes(x, 0, index));
        assert(made(x, index));
    }
}

/// A database that has been set up without an error is up to date: each statement was
/// carried out, or the one that stands in for it, each table has its newest column or
/// has got it, with a value for the rows that it had, and each index has been made.
pub proof fn law_set_up(call: DbCall<Seq<char>>, replies: Seq<sql::DbReplyView>)
    requires
        sets_up(call),
        answerable(set_up(call), replies),
        played(set_up(call), replies) matches db::StepView::Done(Ok(_)),
    ensures
        ({
            let x = exchanges(set_up(call), replies);
            &&& forall|k: int|
                0 <= k < x.len() && executes(#[trigger] x[k]) ==> carried_out(x, k)
            &&& forall|table: usize| table < statements::TABLES ==> #[trigger] settled(x, table)
            &&& forall|index: usize| index < statements::INDEXES ==> #[trigger] made(x, index)
        }),
{
    lemma_set_up(store::plain_task(call), replies);
}

/// Whether every reply says that nothing is missing: each table has its newest column,
/// and each statement was carried out.
pub open spec fn all_current(x: Seq<Exchange>) -> bool {
    forall|k: int|
        0 <= k < x.len() ==> match (#[trigger] x[k]).task.op {
            DbOp::CheckTable { table, .. } => finds_current(x[k], table),
            _ => x[k].reply is Done,
        }
}

/// The requests that a database which is up to date gets, from the one for `op` on.
pub open spec fn requests_left(op: db::OpView) -> nat {
    match op {
        DbOp::InitTables => 1 + 4 + 6 + 6,
        DbOp::CheckTable { table, again } => (statements::TABLES - table + 6 + if again {
            6int
        } else {
            0
        }) as nat,
        DbOp::MakeIndex { index, again } => (statements::INDEXES - index + if again {
            6int
        } else {
            0
        }) as nat,
        _ => 0,
    }
}

/// Whether the request changes nothing where everything is there already: it asks about
/// a table, or makes what is missing of the tables or of the indexes.
pub open spec fn is_harmless(request: sql::DbRequestView) -> bool {
    ||| exists|table: usize|
        table < statements::TABLES && request == (#[trigger] store::check_table_of(
            table,
            true,
        )).request
    ||| request == (sql::DbRequestView::Batch { sql: statements::CREATE_TABLES@ })
    ||| exists|index: usize|
        index < statements::INDEXES && request == (sql::DbRequestView::Execute {
            sql: #[trigger] statements::index_of(index),
            params: Seq::empty(),
        })
}

proof fn lemma_current(task: db::TaskView, replies: Seq<sql::DbReplyView>)
    requires
        is_set_up(task),
        !(task.op is FixTable),
        !(task.op is AddColumn),
        !(task.op is UndoColumn),
        all_current(exchanges(db::StepView::Ask(task), replies)),
        replies.len() == requests_left(task.op),
    ensures
        played(db::StepView::Ask(task), replies) == progress::done(DbValue::Unit),
        ({
            let x = exchanges(db::StepView::Ask(task), replies);
            &&& x.len() == replies.len()
            &&& forall|k: int| 0 <= k < x.len() ==> is_harmless((#[trigger] x[k]).task.request)
        }),
    decreases replies.len(),
{
    let step = db::StepView::Ask(task);
    let x = exchanges(step, replies);
    assert(replies.len() > 0);
    let first = Exchange { task, reply: replies[0] };
    let next = progress::resumed(task.op, replies[0]);
    let later = replies.skip(1);
    let rest = exchanges(next, later);
    assert(x =~= seq![first] + rest);
    assert(x[0] == first);
    assert forall|k: int| 0 <= k < rest.len() implies match (#[trigger] rest[k]).task.op {
        DbOp::CheckTable { table, .. } => finds_current(rest[k], table),
        _ => rest[k].reply is Done,
    } by {
        assert(x[k + 1] == rest[k]);
    }
    match next {
        db::StepView::Done(r) => {
            assert(later =~= Seq::<sql::DbReplyView>::empty());
            assert(rest =~= Seq::<Exchange>::empty());
            assert(played(next, later) == next);
        },
        db::StepView::Ask(n) => {
            assert(is_set_up(n));
            lemma_current(n, later);
        },
    }
    assert forall|k: int| 0 <= k < x.len() implies is_harmless((#[trigger] x[k]).task.request) by {
        if k > 0 {
            assert(x[k] == rest[k - 1]);
        } else if let DbOp::CheckTable { table, .. } = task.op {
            assert(task.request == store::check_table_of(table, true).request);
        } else if let DbOp::MakeIndex { index, .. } = task.op {
            assert(task.request == (sql::DbRequestView::Execute {
                sql: statements::index_of(index),
                params: Seq::empty(),
            }));
        }
    }
}

/// Setting a database up that is up to date succeeds and alters no table: it asks about
/// the tables, and otherwise makes only what does not exist.
pub proof fn law_set_up_again(call: DbCall<Seq<char>>, replies: Seq<sql::DbReplyView>)
    requires
        sets_up(call),
        all_current(exchanges(set_up(call), replies)),
        replies.len() == requests_left(store::plain_task(call).op),
    ensures
        played(set_up(call), replies) == progress::done(DbValue::Unit),
        exchanges(set_up(call), replies).len() == replies.len(),
        forall|k: int|
            0 <= k < replies.len() ==> is_harmless(
                (#[trigger] exchanges(set_up(call), replies)[k]).task.request,
            ),
{
    lemma_current(store::plain_task(call), replies);
}

/// What a database has of what setting it up makes: whether the tables exist, which of
/// them have their newest column, and which indexes there are. `rest` is everything else
/// in it, each row of each table too.
pub struct Schema<R> {
    pub tables: bool,
    pub current: Set<usize>,
    pub indexes: Set<usize>,
    pub rest: R,
}

/// Whether nothing that setting up makes has gone.
pub open spec fn kept<R>(before: Schema<R>, after: Schema<R>) -> bool {
    &&& before.tables ==> after.tables
    &&& before.current.subset_of(after.current)
    &&& before.indexes.subset_of(after.indexes)
}

/// Whether nothing is missing.
pub open spec fn up_to_date<R>(t: Schema<R>) -> bool {
    &&& forall|table: usize| table < statements::TABLES ==> #[trigger] t.current.contains(table)
    &&& forall|index: usize| index < statements::INDEXES ==> #[trigger] t.indexes.contains(index)
}

/// What the database does to its tables and indexes: it says which columns there are; a
/// statement that was carried out has made what it is to make and taken nothing away, and
/// a column that was not added in the plain way leaves everything as it was; what is there
/// already is not made once more.
pub open spec fn keeps_schema<R>(database: Database<Schema<R>>) -> bool {
    &&& forall|t: Schema<R>, request: sql::DbRequestView|
        sql::fits(request, (#[trigger] database(t, request)).1)
    &&& forall|t: Schema<R>, table: usize, again: bool|
        #![trigger database(t, store::check_table_of(table, again).request)]
        table < statements::TABLES ==> {
            let (after, reply) = database(t, store::check_table_of(table, again).request);
            after == t && rows::column_of(reply, statements::newest_of(table)) == Ok::<
                bool,
                Seq<char>,
            >(t.current.contains(table))
        }
    &&& forall|t: Schema<R>|
        #![trigger database(t, store::plain_task(DbCall::Init).request)]
        {
            let (after, reply) = database(t, store::plain_task(DbCall::Init).request);
            &&& reply is Done ==> after.tables && kept(t, after)
            &&& t.tables ==> after == t && reply is Done
        }
    &&& forall|t: Schema<R>, table: usize, again: bool|
        #![trigger database(t, progress::fix_table_of(table, again).request)]
        table < statements::TABLES ==> {
            let (after, reply) = database(t, progress::fix_table_of(table, again).request);
            &&& reply is Done ==> after.current.contains(table) && kept(t, after)
            &&& reply is Failed ==> after == t
        }
    &&& forall|t: Schema<R>, table: usize, again: bool, why: Seq<char>|
        #![trigger database(t, progress::add_column_of(table, again, why).request)]
        table < statements::FILLED_TABLES ==> {
            let (after, reply) = database(t, progress::add_column_of(table, again, why).request);
            reply is Done ==> after.current.contains(table) && kept(t, after)
        }
    &&& forall|t: Schema<R>, index: usize, again: bool|
        #![trigger database(t, progress::make_index_of(index, again).request)]
        index < statements::INDEXES ==> {
            let (after, reply) = database(t, progress::make_index_of(index, again).request);
            &&& reply is Done ==> after.indexes.contains(index) && kept(t, after)
            &&& t.indexes.contains(index) ==> after == t && reply is Done
        }
}

proof fn lemma_makes<R>(
    database: Database<Schema<R>>,
    task: db::TaskView,
    t: Schema<R>,
    requests: nat,
)
    requires
        is_set_up(task),
        keeps_schema(database),
        tables::run(database, db::StepView::Ask(task), t, requests).1 matches db::StepView::Done(
            Ok(_),
        ),
    ensures
        ({
            let after = tables::run(database, db::StepView::Ask(task), t, requests).0;
            &&& !(task.op is UndoColumn)
            &&& kept(t, after)
            &&& task.op is InitTables ==> after.tables
            &&& task.op matches DbOp::FixTable { table, .. } ==> after.current.contains(table)
            &&& task.op matches DbOp::AddColumn { table, .. } ==> after.current.contains(table)
            &&& forall|table: usize|
                tables_from(task.op) <= table < statements::TABLES ==> #[trigger]
                    after.current.contains(table)
            &&& forall|index: usize|
                indexes_from(task.op) <= index < statements::INDEXES ==> #[trigger]
                    after.indexes.contains(index)
        }),
    decreases requests,
{
    assert(requests > 0);
    let (next, reply) = database(t, task.request);
    let step = progress::resumed(task.op, reply);
    let left = (requests - 1) as nat;
    assert(sql::fits(task.request, reply));
    match step {
        db::StepView::Done(r) => {
            assert(tables::run(database, step, next, left) == (next, step));
        },
        db::StepView::Ask(n) => {
            assert(is_set_up(n));
            lemma_makes(database, n, next, left);
        },
    }
}

proof fn lemma_stays<R>(
    database: Database<Schema<R>>,
    task: db::TaskView,
    t: Schema<R>,
    requests: nat,
)
    requires
        is_set_up(task),
        !(task.op is FixTable),
        !(task.op is AddColumn),
        !(task.op is UndoColumn),
        keeps_schema(database),
        up_to_date(t),
        task.op is InitTables ==> t.tables,
        requests >= requests_left(task.op),
    ensures
        tables::run(database, db::StepView::Ask(task), t, requests) == (
            t,
            progress::done(DbValue::Unit),
        ),
    decreases requests,
{
    let (next, reply) = database(t, task.request);
    let step = progress::resumed(task.op, reply);
    let left = (requests - 1) as nat;
    assert(next == t);
    match step {
        db::StepView::Done(r) => {
            assert(tables::run(database, step, next, left) == (next, step));
        },
        db::StepView::Ask(n) => {
            assert(is_set_up(n));
            lemma_stays(database, n, next, left);
        },
    }
}

/// Once a database has been set up without an error, nothing is missing, and setting it up
/// once more succeeds and changes nothing, neither the tables nor the rows, whatever was
/// stored since.
pub proof fn law_set_up_lasts<R>(
    database: Database<Schema<R>>,
    first: DbCall<Seq<char>>,
    t: Schema<R>,
    requests: nat,
    second: DbCall<Seq<char>>,
    later: Schema<R>,
)
    requires
        keeps_schema(database),
        sets_up(first),
        sets_up(second),
        second is Init ==> first is Init,
        tables::run(database, set_up(first), t, requests).1 matches db::StepView::Done(Ok(_)),
        kept(tables::run(database, set_up(first), t, requests).0, later),
    ensures
        up_to_date(tables::run(database, set_up(first), t, requests).0),
        forall|more: nat|
            more >= requests_left(store::plain_task(second).op) ==> #[trigger] tables::run(
                database,
                set_up(second),
                later,
                more,
            ) == (later, progress::done(DbValue::Unit)),
{
    lemma_makes(database, store::plain_task(first), t, requests);
    let after = tables::run(database, set_up(first), t, requests).0;
    assert(up_to_date(later)) by {
        assert forall|table: usize| table < statements::TABLES implies #[trigger]
            later.current.contains(table) by {
            assert(after.current.contains(table));
        }
        assert forall|index: usize| index < statements::INDEXES implies #[trigger]
            later.indexes.contains(index) by {
            assert(after.indexes.contains(index));
        }
    }
    assert forall|more: nat|
        more >= requests_left(store::plain_task(second).op) implies #[trigger] tables::run(
        database,
        set_up(second),
        later,
        more,
    ) == (later, progress::done(DbValue::Unit)) by {
        lemma_stays(database, store::plain_task(second), later, more);
    }
}

} // verus!
