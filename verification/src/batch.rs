//! Several statements in one request, which is how D1 is given a set of writes
//! to commit together.

use vstd::prelude::*;

use crate::connection::{
    batch_return, batch_sql_return, bind_params, bound_params, returning, types_view,
    values_are_bound_in_order, values_view, Connection, Op,
};
use crate::error::{DriverError, DriverErrorView};
use crate::json::{FloatView, JsonView, NumberView};
use crate::literal::{
    digits_are_positional, digits_value, inline_params, inlined, question_mark_takes_its_digits,
    scalar_literals, text_without_placeholders_is_kept,
};
use crate::response::{rets_view, SqlReturn, SqlReturnView};
use crate::sql::{
    kind_of, serialize, sqlite_text, statement_kind, strings_view, StatementKind,
};
use crate::text::{chars_of, concatenated, ends_in_semicolon, trim_end, trimmed_end};
use crate::transport::Batch;
use crate::value::{
    bound_json, doubles_and_texts_are_bound_as_they_are, ColumnType, SqlValue, SqlValueView,
};

verus! {

/// A batch to be run, and what its outcomes are to become.
pub struct BatchPlan {
    pub batch: Batch,
    pub rets: Vec<SqlReturn>,
}

/// What a [`BatchPlan`] stands for.
#[verifier::ext_equal]
pub struct BatchPlanView {
    pub statements: Seq<Seq<char>>,
    pub rets: Seq<SqlReturnView>,
}

impl View for BatchPlan {
    type V = BatchPlanView;

    open spec fn view(&self) -> BatchPlanView {
        BatchPlanView {
            statements: strings_view(self.batch.statements@),
            rets: rets_view(self.rets@),
        }
    }
}

/// `text` with a semicolon at its end. A second one would leave an empty
/// statement, which D1 rejects.
pub open spec fn terminated(text: Seq<char>) -> Seq<char> {
    let trimmed = trimmed_end(text);
    if ends_in_semicolon(trimmed) {
        trimmed
    } else {
        trimmed.push(';')
    }
}

/// The text of a statement that shares its request with others: its values are
/// written into it.
pub open spec fn batch_text(text: Seq<char>, params: Seq<SqlValueView>) -> Result<
    Seq<char>,
    DriverErrorView,
> {
    match bound_params(params, params.len()) {
        Err(message) => Err(DriverErrorView::DriverOperationFailed(message)),
        Ok(bound) => Ok(terminated(inlined(text, bound))),
    }
}

/// The statement of an operation in a batch, and what it is to give back.
pub open spec fn batch_step(schema: toasty_core::schema::db::Schema, op: Op) -> Result<
    (Seq<char>, SqlReturnView),
    DriverErrorView,
> {
    match op {
        Op::QuerySql(query) => {
            match batch_text(sqlite_text(schema, query.statement)->0, values_view(query.params@)) {
                Err(err) => Err(err),
                Ok(text) => Ok(
                    (text, batch_return(kind_of(query.statement), types_view(query.ret))),
                ),
            }
        },
        _ => Err(DriverErrorView::UnsupportedFeature("the D1 driver batches SQL statements only"@)),
    }
}

/// A batch with one more statement.
pub open spec fn extended(
    plan: BatchPlanView,
    statement: Seq<char>,
    ret: SqlReturnView,
) -> BatchPlanView {
    BatchPlanView { statements: plan.statements.push(statement), rets: plan.rets.push(ret) }
}

/// The statements of the first `n` operations, or the error of the first that
/// cannot be batched.
pub open spec fn batched(
    schema: toasty_core::schema::db::Schema,
    ops: Seq<Op>,
    n: nat,
) -> Result<BatchPlanView, DriverErrorView>
    decreases n,
{
    if n == 0 {
        Ok(BatchPlanView { statements: Seq::empty(), rets: Seq::empty() })
    } else {
        match batched(schema, ops, (n - 1) as nat) {
            Err(err) => Err(err),
            Ok(plan) => match batch_step(schema, ops[n - 1]) {
                Err(err) => Err(err),
                Ok((text, ret)) => Ok(extended(plan, text, ret)),
            },
        }
    }
}

/// Whether an operation is one that the engine puts in a batch: what returns
/// rows declares their columns, and the serializer has a text for it.
pub open spec fn batchable(schema: toasty_core::schema::db::Schema, op: Op) -> bool {
    op matches Op::QuerySql(query) ==> {
        &&& returning(kind_of(query.statement)) ==> query.ret is Some
        &&& sqlite_text(schema, query.statement) is Some
    }
}

proof fn lemma_batched_fails(
    schema: toasty_core::schema::db::Schema,
    ops: Seq<Op>,
    n: nat,
    m: nat,
)
    requires
        n <= m,
        batched(schema, ops, n) is Err,
    ensures
        batched(schema, ops, m) == batched(schema, ops, n),
    decreases m,
{
    if n < m {
        lemma_batched_fails(schema, ops, n, (m - 1) as nat);
    }
}

/// Writes a statement that shares its request with others.
pub fn batch_statement(text: &str, params: &Vec<SqlValue>) -> (r: Result<String, DriverError>)
    ensures
        match r {
            Ok(statement) => batch_text(text@, values_view(params@)) == Ok::<
                Seq<char>,
                DriverErrorView,
            >(statement@),
            Err(err) => batch_text(text@, values_view(params@)) == Err::<
                Seq<char>,
                DriverErrorView,
            >(err@),
        },
{
    match bind_params(params) {
        Err(err) => Err(DriverError::DriverOperationFailed(err)),
        Ok(bound) => {
            let mut statement = trim_end(inline_params(text, &bound).as_str());
            if !ends_with_semicolon(statement.as_str()) {
                statement.push(';');
            }
            Ok(statement)
        },
    }
}

/// Whether the last character is a semicolon.
fn ends_with_semicolon(text: &str) -> (r: bool)
    ensures
        r == ends_in_semicolon(text@),
{
    let chars = chars_of(text);
    let len: usize = chars.len();
    len > 0 && chars[len - 1] == ';'
}

impl BatchPlan {
    /// The one text holds the statements, one after the other.
    pub open spec fn well_formed(self) -> bool {
        self.batch.sql@ == concatenated(self@.statements)
    }

    /// A batch of nothing.
    pub fn new() -> (r: BatchPlan)
        ensures
            r.well_formed(),
            r@ == (BatchPlanView { statements: Seq::empty(), rets: Seq::empty() }),
    {
        let batch = Batch { statements: Vec::new(), sql: String::new() };
        let r = BatchPlan { batch, rets: Vec::new() };
        assert(r@.statements =~= Seq::<Seq<char>>::empty());
        assert(r@.rets =~= Seq::<SqlReturnView>::empty());
        r
    }

    /// Adds a statement. One whose values cannot be bound leaves the batch as
    /// it was.
    pub fn add_statement(
        &mut self,
        kind: StatementKind,
        text: &str,
        params: &Vec<SqlValue>,
        ret: Option<Vec<ColumnType>>,
    ) -> (r: Result<(), DriverError>)
        requires
            old(self).well_formed(),
            returning(kind) ==> ret is Some,
        ensures
            final(self).well_formed(),
            match batch_text(text@, values_view(params@)) {
                Ok(statement) => {
                    &&& r is Ok
                    &&& final(self)@ == extended(
                        old(self)@,
                        statement,
                        batch_return(kind, types_view(ret)),
                    )
                },
                Err(err) => {
                    &&& r matches Err(e) && e@ == err
                    &&& final(self)@ == old(self)@
                },
            },
    {
        let ret = batch_sql_return(kind, ret);
        match batch_statement(text, params) {
            Err(err) => Err(err),
            Ok(statement) => {
                let ghost statements = self@.statements;
                let ghost rets = self@.rets;
                self.batch.sql.append(statement.as_str());
                self.batch.statements.push(statement);
                self.rets.push(ret);
                proof {
                    assert(self@.statements =~= statements.push(statement@));
                    assert(self@.statements.drop_last() =~= statements);
                    assert(self@.rets =~= rets.push(ret@));
                }
                Ok(())
            },
        }
    }
}

impl Connection {
    /// Plans a batch. Nothing is planned unless every operation can be batched.
    pub fn exec_batch(&self, schema: &toasty_core::schema::db::Schema, ops: Vec<Op>) -> (r: Result<
        BatchPlan,
        DriverError,
    >)
        requires
            forall|i: int|
                #![trigger ops@[i]]
                0 <= i < ops@.len() && batched(*schema, ops@, i as nat) is Ok ==> batchable(
                    *schema,
                    ops@[i],
                ),
        ensures
            match r {
                Ok(plan) => {
                    &&& plan.well_formed()
                    &&& batched(*schema, ops@, ops@.len()) == Ok::<BatchPlanView, DriverErrorView>(
                        plan@,
                    )
                },
                Err(err) => batched(*schema, ops@, ops@.len()) == Err::<
                    BatchPlanView,
                    DriverErrorView,
                >(err@),
            },
    {
        let ghost all = ops@;
        let mut plan = BatchPlan::new();
        for op in it: ops
            invariant
                it.seq() == all,
                all == ops@,
                forall|i: int|
                    #![trigger all[i]]
                    0 <= i < all.len() && batched(*schema, all, i as nat) is Ok ==> batchable(
                        *schema,
                        all[i],
                    ),
                plan.well_formed(),
                batched(*schema, all, it.index() as nat) == Ok::<BatchPlanView, DriverErrorView>(
                    plan@,
                ),
        {
            let ghost at = it.index();
            assert(op == all[at]);
            match op {
                Op::QuerySql(query) => {
                    let kind = statement_kind(&query.statement);
                    let text = serialize(schema, &query.statement);
                    match plan.add_statement(kind, text.as_str(), &query.params, query.ret) {
                        Err(err) => {
                            proof {
                                lemma_batched_fails(*schema, all, (at + 1) as nat, all.len());
                            }
                            return Err(err);
                        },
                        Ok(()) => {},
                    }
                },
                _ => {
                    proof {
                        lemma_batched_fails(*schema, all, (at + 1) as nat, all.len());
                    }
                    return Err(
                        DriverError::UnsupportedFeature(
                            "the D1 driver batches SQL statements only".to_string(),
                        ),
                    );
                },
            }
        }
        Ok(plan)
    }
}

/// A statement in a batch ends in a semicolon, and one that already did is
/// given no second one.
pub proof fn statements_end_once(text: Seq<char>)
    ensures
        ends_in_semicolon(terminated(text)),
        terminated(terminated(text)) == terminated(text),
        ends_in_semicolon(text) ==> terminated(text) == text,
{
}

proof fn lemma_batched(schema: toasty_core::schema::db::Schema, ops: Seq<Op>, n: nat)
    ensures
        batched(schema, ops, n) is Ok <==> forall|i: int|
            0 <= i < n ==> batch_step(schema, #[trigger] ops[i]) is Ok,
        batched(schema, ops, n) is Ok ==> {
            let plan = batched(schema, ops, n)->Ok_0;
            &&& plan.statements.len() == n
            &&& plan.rets.len() == n
            &&& forall|i: int|
                0 <= i < n ==> batch_step(schema, #[trigger] ops[i]) == Ok::<
                    (Seq<char>, SqlReturnView),
                    DriverErrorView,
                >((plan.statements[i], plan.rets[i]))
        },
    decreases n,
{
    if n > 0 {
        lemma_batched(schema, ops, (n - 1) as nat);
    }
}

/// A batch is planned exactly if every operation can be batched, and then it
/// holds the statement of each operation in its place, ended by a semicolon.
pub proof fn batch_is_all_or_nothing(schema: toasty_core::schema::db::Schema, ops: Seq<Op>)
    ensures
        batched(schema, ops, ops.len()) is Ok <==> forall|i: int|
            0 <= i < ops.len() ==> batch_step(schema, #[trigger] ops[i]) is Ok,
        batched(schema, ops, ops.len()) is Ok ==> {
            let plan = batched(schema, ops, ops.len())->Ok_0;
            &&& plan.statements.len() == ops.len()
            &&& plan.rets.len() == ops.len()
            &&& forall|i: int|
                0 <= i < ops.len() ==> {
                    &&& batch_step(schema, #[trigger] ops[i]) == Ok::<
                        (Seq<char>, SqlReturnView),
                        DriverErrorView,
                    >((plan.statements[i], plan.rets[i]))
                    &&& ends_in_semicolon(plan.statements[i])
                }
        },
{
    lemma_batched(schema, ops, ops.len());
}

/// A transaction is refused in a batch as well.
pub proof fn batch_refuses_transactions(schema: toasty_core::schema::db::Schema, ops: Seq<Op>)
    requires
        ops.contains(Op::Transaction),
    ensures
        batched(schema, ops, ops.len()) is Err,
{
    batch_is_all_or_nothing(schema, ops);
    let i = choose|i: int| 0 <= i < ops.len() && ops[i] == Op::Transaction;
    assert(batch_step(schema, ops[i]) is Err);
}

/// A batch stands for itself: statements and what they give back keep their
/// number and their places, and the one text holds the statements.
pub proof fn batch_stands_for_itself(plan: BatchPlan, i: int)
    ensures
        plan@.statements.len() == plan.batch.statements@.len(),
        0 <= i < plan.batch.statements@.len() ==> plan@.statements[i]
            == plan.batch.statements@[i]@,
        plan@.rets.len() == plan.rets@.len(),
        0 <= i < plan.rets@.len() ==> plan@.rets[i] == plan.rets@[i]@,
        plan.well_formed() <==> plan.batch.sql@ == concatenated(plan@.statements),
{
}

/// A statement that shares its request is its text with what its values bind
/// written into it, without white space at its end, and with a semicolon there
/// if it had none. It is refused as its first value that cannot be bound is.
pub proof fn shared_statement_holds_its_values(text: Seq<char>, params: Seq<SqlValueView>)
    ensures
        match bound_params(params, params.len()) {
            Ok(bound) => {
                let written = trimmed_end(inlined(text, bound));
                batch_text(text, params) == Ok::<Seq<char>, DriverErrorView>(
                    if written.len() > 0 && written.last() == ';' {
                        written
                    } else {
                        written.push(';')
                    },
                )
            },
            Err(message) => batch_text(text, params) == Err::<Seq<char>, DriverErrorView>(
                DriverErrorView::DriverOperationFailed(message),
            ),
        },
{
}

/// A double is written into a statement with its whole text, sign and all, in
/// the place of its placeholder.
pub proof fn shared_statement_holds_the_whole_double(
    before: Seq<char>,
    after: Seq<char>,
    f: FloatView,
)
    requires
        !before.contains('?'),
        !after.contains('?'),
        after.len() == 0 || !('0' <= after[0] <= '9'),
        (f.bits >> 52u64) & 0x7ff != 0x7ff,
    ensures
        batch_text(before + seq!['?', '1'] + after, seq![SqlValueView::F64(f)]) == Ok::<
            Seq<char>,
            DriverErrorView,
        >(terminated(before + f.text + after)),
{
    let params = seq![SqlValueView::F64(f)];
    doubles_and_texts_are_bound_as_they_are(f, Seq::empty());
    values_are_bound_in_order(params);
    assert(bound_json(params[0]) is Ok);
    let json = JsonView::Number(NumberView::Float(f));
    reveal_with_fuel(bound_params, 2);
    let bound = bound_params(params, params.len())->Ok_0;
    assert(bound_params(params, params.len()) is Ok);
    assert(bound =~= seq![json]);
    let digits = seq!['1'];
    assert(before + seq!['?', '1'] + after =~= before + (seq!['?'] + digits) + after);
    question_mark_takes_its_digits(before, digits, after, bound);
    digits_are_positional(Seq::empty(), '1');
    assert(Seq::<char>::empty().push('1') =~= digits);
    assert(digits_value(digits) == 1);
    scalar_literals(f, 0, Seq::empty(), Seq::empty());
    text_without_placeholders_is_kept(before, bound);
    text_without_placeholders_is_kept(after, bound);
}

/// An operation's part of a batch is its statement, written with its values,
/// and what the kind of the statement gives back. Anything but a statement of
/// the engine is refused.
pub proof fn operation_decides_its_part(schema: toasty_core::schema::db::Schema, op: Op)
    ensures
        match op {
            Op::QuerySql(query) => match batch_text(
                sqlite_text(schema, query.statement)->0,
                values_view(query.params@),
            ) {
                Ok(text) => batch_step(schema, op) == Ok::<
                    (Seq<char>, SqlReturnView),
                    DriverErrorView,
                >((text, batch_return(kind_of(query.statement), types_view(query.ret)))),
                Err(err) => batch_step(schema, op) == Err::<
                    (Seq<char>, SqlReturnView),
                    DriverErrorView,
                >(err),
            },
            _ => batch_step(schema, op) == Err::<(Seq<char>, SqlReturnView), DriverErrorView>(
                DriverErrorView::UnsupportedFeature("the D1 driver batches SQL statements only"@),
            ),
        },
{
}

proof fn lemma_batched_error(schema: toasty_core::schema::db::Schema, ops: Seq<Op>, n: nat)
    ensures
        match batched(schema, ops, n) {
            Ok(_) => true,
            Err(err) => exists|i: int|
                {
                    &&& 0 <= i < n
                    &&& batch_step(schema, #[trigger] ops[i]) == Err::<
                        (Seq<char>, SqlReturnView),
                        DriverErrorView,
                    >(err)
                    &&& forall|k: int| 0 <= k < i ==> batch_step(schema, #[trigger] ops[k]) is Ok
                },
        },
    decreases n,
{
    if n > 0 {
        lemma_batched_error(schema, ops, (n - 1) as nat);
        lemma_batched(schema, ops, (n - 1) as nat);
    }
}

/// A batch that is refused is refused as its first operation that cannot be
/// batched is.
pub proof fn batch_is_refused_as_its_first_failure(
    schema: toasty_core::schema::db::Schema,
    ops: Seq<Op>,
)
    requires
        batched(schema, ops, ops.len()) is Err,
    ensures
        exists|i: int|
            {
                &&& 0 <= i < ops.len()
                &&& batch_step(schema, #[trigger] ops[i]) == Err::<
                    (Seq<char>, SqlReturnView),
                    DriverErrorView,
                >(batched(schema, ops, ops.len())->Err_0)
                &&& forall|k: int| 0 <= k < i ==> batch_step(schema, #[trigger] ops[k]) is Ok
            },
{
    lemma_batched_error(schema, ops, ops.len());
}

/// One more statement stands behind those before it, and so does what it gives
/// back.
pub proof fn extended_keeps_what_was_there(
    plan: BatchPlanView,
    statement: Seq<char>,
    ret: SqlReturnView,
)
    ensures
        extended(plan, statement, ret).statements == plan.statements + seq![statement],
        extended(plan, statement, ret).rets == plan.rets + seq![ret],
{
}

} // verus!
