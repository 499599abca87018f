//! A small engine of its own: tables of one integer column, in which a row
//! is kept under the number it holds.

use vstd::prelude::*;
use num_bigint::BigInt;
use crate::bytes::byte_strings;
use crate::expr::{expr_text, value_text, write_expr, write_value};
use crate::ordered::{ascending, bindings, OrderedKey, OrderedMap, Plain};
use crate::registry::Registry;
use crate::scalar::{spell, spelled, Spelled};
use crate::sql_ast::{
    Assignment, BinaryOperator, Expr, ObjectName, Query, Select, SetExpr, Statement, TableFactor,
    Value,
};
use crate::sql_model::{dotted, dotted_name};

verus! {

pub type ExecutionResult = Result<EngineEvent, ErrorEvent>;

#[derive(Debug, PartialEq)]
pub enum EngineEvent {
    TableCreated(String),
    RecordInserted,
    RecordsSelected(Vec<Vec<u8>>),
    RecordsUpdated,
    RecordsDeleted,
}

#[derive(Debug, PartialEq)]
pub enum ErrorEvent {
    TableAlreadyExists(String),
    UnimplementedBranch(String),
    TableDoesNotExist(String),
}

impl ErrorEvent {
    /// What the error names: the table, or what is not implemented.
    pub fn message(&self) -> (text: String)
        ensures
            text@ == match self {
                ErrorEvent::TableAlreadyExists(name) => name@,
                ErrorEvent::UnimplementedBranch(what) => what@,
                ErrorEvent::TableDoesNotExist(name) => name@,
            },
    {
        match self {
            ErrorEvent::TableAlreadyExists(name) => name.clone(),
            ErrorEvent::UnimplementedBranch(what) => what.clone(),
            ErrorEvent::TableDoesNotExist(name) => name.clone(),
        }
    }
}

/// What an event holds, as plain values.
pub enum EventModel {
    TableCreated(Seq<char>),
    RecordInserted,
    RecordsSelected(Seq<Seq<u8>>),
    RecordsUpdated,
    RecordsDeleted,
    TableAlreadyExists(Seq<char>),
    UnimplementedBranch(Seq<char>),
    TableDoesNotExist(Seq<char>),
}

/// The result as plain values.
pub open spec fn event_model(result: ExecutionResult) -> EventModel {
    match result {
        Ok(EngineEvent::TableCreated(name)) => EventModel::TableCreated(name@),
        Ok(EngineEvent::RecordInserted) => EventModel::RecordInserted,
        Ok(EngineEvent::RecordsSelected(records)) => EventModel::RecordsSelected(
            byte_strings(records@),
        ),
        Ok(EngineEvent::RecordsUpdated) => EventModel::RecordsUpdated,
        Ok(EngineEvent::RecordsDeleted) => EventModel::RecordsDeleted,
        Err(ErrorEvent::TableAlreadyExists(name)) => EventModel::TableAlreadyExists(name@),
        Err(ErrorEvent::UnimplementedBranch(what)) => EventModel::UnimplementedBranch(what@),
        Err(ErrorEvent::TableDoesNotExist(name)) => EventModel::TableDoesNotExist(name@),
    }
}

impl Plain for i64 {
    type Model = i64;

    open spec fn model(&self) -> i64 {
        *self
    }

    fn duplicate(&self) -> (copy: Self) {
        *self
    }
}

impl OrderedKey for i64 {
    open spec fn precedes(a: i64, b: i64) -> bool {
        a < b
    }

    proof fn lemma_irreflexive(a: i64) {
    }

    proof fn lemma_transitive(a: i64, b: i64, c: i64) {
    }

    proof fn lemma_total(a: i64, b: i64) {
    }

    fn is_before(&self, other: &Self) -> (before: bool) {
        *self < *other
    }
}

/// The bytes that an integer is stored as.
pub uninterp spec fn serialized_int(value: int) -> Seq<u8>;

/// `bincode::serialize` of the `BigInt` that `BigInt::from` makes of the
/// number: the sign and the digits of the number, laid out by `bincode`
/// with its default options. Serializing into memory does not fail.
#[verifier::external_body]
fn serialize_int(value: i64) -> (bytes: Vec<u8>)
    ensures
        bytes@ == serialized_int(value as int),
{
    bincode::serialize(&BigInt::from(value)).unwrap()
}

/// A row of a table: the number it holds, then the bytes it is stored as.
pub type Row = (i64, Seq<u8>);

/// The rows of a table, ascending by number.
pub type Rows = Seq<Row>;

/// The integer that a literal stands for, or why it stands for none.
pub open spec fn int_of(value: Value) -> Result<i64, Seq<char>> {
    match value {
        Value::Number(digits) => match spelled(digits@) {
            Spelled::Number(number) => if number <= i64::MAX {
                Ok(number as i64)
            } else {
                Err(value_text(value) + " is not supported yet"@)
            },
            _ => Err(value_text(value) + " is not supported yet"@),
        },
        _ => Err(value_text(value) + " is not supported yet"@),
    }
}

/// The integer that the right side of a condition stands for.
pub open spec fn operand_of(expr: Expr) -> Result<i64, Seq<char>> {
    match expr {
        Expr::Value(value) => int_of(value),
        _ => Err("Non value RHS type "@ + expr_text(expr) + " is not supported"@),
    }
}

pub open spec fn unimplemented_where(selection: Expr) -> Seq<char> {
    "UNIMPLEMENTED HANDLING OF \n"@ + expr_text(selection) + "\n WHERE CLAUSE!"@
}

/// The numbers of all rows.
pub open spec fn numbers(rows: Rows) -> Seq<i64> {
    Seq::new(rows.len(), |i: int| rows[i].0)
}

/// The numbers that the condition of an update or a delete selects: the
/// number on the right side of a comparison, whatever is compared, or the
/// numbers of all rows where there is no condition.
pub open spec fn targets(rows: Rows, selection: Option<Expr>) -> Result<Seq<i64>, Seq<char>> {
    match selection {
        Some(Expr::BinaryOp { right, .. }) => match operand_of(*right) {
            Ok(number) => Ok(seq![number]),
            Err(why) => Err(why),
        },
        None => Ok(numbers(rows)),
        Some(other) => Err(unimplemented_where(other)),
    }
}

/// The stored bytes of the rows whose number `keep` holds of, in the
/// order of the rows.
pub open spec fn kept(rows: Rows, keep: spec_fn(i64) -> bool) -> Seq<Seq<u8>>
    decreases rows.len(),
{
    if rows.len() == 0 {
        Seq::empty()
    } else if keep(rows.last().0) {
        kept(rows.drop_last(), keep).push(rows.last().1)
    } else {
        kept(rows.drop_last(), keep)
    }
}

/// The integers that the items of a list stand for; the first item that
/// stands for none decides the error.
pub open spec fn list_of(list: Seq<Expr>) -> Result<Seq<i64>, Seq<char>>
    decreases list.len(),
{
    if list.len() == 0 {
        Ok(Seq::empty())
    } else {
        match list_of(list.drop_last()) {
            Ok(before) => match list.last() {
                Expr::Value(value) => match int_of(value) {
                    Ok(number) => Ok(before.push(number)),
                    Err(_) => Err(
                        "UNIMPLEMENTED HANDLING OF STRING PARSING IN WHERE 'IN (x, y, z)' for "@
                            + value_text(value),
                    ),
                },
                other => Err(
                    "UNIMPLEMENTED HANDLING OF VALUES PARSING IN WHERE 'IN (x, y, z)' for "@
                        + expr_text(other),
                ),
            },
            Err(why) => Err(why),
        }
    }
}

/// What is left of the records when the first is passed over.
pub open spec fn rest(records: Seq<Seq<u8>>) -> Seq<Seq<u8>> {
    if records.len() == 0 {
        records
    } else {
        records.drop_first()
    }
}

/// The stored bytes of the rows that a query selects, in the order of the
/// rows.
///
/// `= n` selects the row of the number `n`, which must exist; `BETWEEN low
/// AND high` the rows from `low` to `high`; `NOT BETWEEN low AND high` the
/// rows below `low`, and of the rows from `high` on all but the first;
/// `IN (..)` the rows of the listed numbers, `NOT IN (..)` all others; no
/// condition selects all rows.
pub open spec fn selected(rows: Rows, selection: Option<Expr>) -> Result<Seq<Seq<u8>>, Seq<char>> {
    match selection {
        Some(Expr::BinaryOp { left, op, right }) => if op == BinaryOperator::Eq {
            match *right {
                Expr::Value(value) => match int_of(value) {
                    Ok(number) => if kept(rows, |n: i64| n == number).len() > 0 {
                        Ok(kept(rows, |n: i64| n == number))
                    } else {
                        Err("UNIMPLEMENTED HANDLING OF NO INSERTED VALUE"@)
                    },
                    Err(_) => Err(
                        "UNIMPLEMENTED HANDLING OF STRING PARSING \n"@ + expr_text(*right)
                            + "\n IN WHERE X = RIGHT!"@,
                    ),
                },
                _ => Err(
                    "UNIMPLEMENTED HANDLING OF \n"@ + expr_text(*right) + "\n IN WHERE X = RIGHT!"@,
                ),
            }
        } else {
            Err("UNIMPLEMENTED HANDLING OF OPERATOR \n"@ + op.spec_text() + "\n IN WHERE CLAUSE"@)
        },
        Some(Expr::Between { expr, negated, low, high }) => match (*low, *high) {
            (Expr::Value(low_value), Expr::Value(high_value)) => match (
                int_of(low_value),
                int_of(high_value),
            ) {
                (Ok(low), Ok(high)) => if negated {
                    Ok(kept(rows, |n: i64| n < low) + rest(kept(rows, |n: i64| n >= high)))
                } else {
                    Ok(kept(rows, |n: i64| low <= n <= high))
                },
                _ => Err(
                    "UNIMPLEMENTED HANDLING OF STRING PARSING \n IN WHERE BETWEEN "@ + value_text(
                        low_value,
                    ) + " AND "@ + value_text(high_value),
                ),
            },
            _ => Err(
                "UNIMPLEMENTED HANDLING OF \n IN WHERE BETWEEN "@ + expr_text(*low) + " AND "@
                    + expr_text(*high),
            ),
        },
        Some(Expr::InList { expr, list, negated }) => match list_of(list@) {
            Ok(listed) => Ok(kept(rows, |n: i64| listed.contains(n) != negated)),
            Err(why) => Err(why),
        },
        None => Ok(kept(rows, |n: i64| true)),
        Some(other) => Err(unimplemented_where(other)),
    }
}

/// Three texts one after the other.
fn three(first: &str, second: &str, third: &str) -> (text: String)
    ensures
        text@ == first@ + second@ + third@,
{
    let mut text = String::from_str(first);
    text.append(second);
    text.append(third);
    text
}

/// The integer that a literal stands for.
pub fn read_int(value: &Value) -> (number: Result<i64, String>)
    ensures
        match number {
            Ok(number) => int_of(*value) == Ok::<i64, Seq<char>>(number),
            Err(why) => int_of(*value) == Err::<i64, Seq<char>>(why@),
        },
{
    match value {
        Value::Number(digits) => match spell(digits.as_str()) {
            Spelled::Number(number) => if number <= 0x7fff_ffff_ffff_ffff {
                return Ok(number as i64);
            },
            _ => {},
        },
        _ => {},
    }
    let mut why = write_value(value);
    why.append(" is not supported yet");
    Err(why)
}

fn read_operand(expr: &Expr) -> (number: Result<i64, String>)
    ensures
        match number {
            Ok(number) => operand_of(*expr) == Ok::<i64, Seq<char>>(number),
            Err(why) => operand_of(*expr) == Err::<i64, Seq<char>>(why@),
        },
{
    match expr {
        Expr::Value(value) => read_int(value),
        _ => {
            let written = write_expr(expr);
            Err(three("Non value RHS type ", written.as_str(), " is not supported"))
        },
    }
}

/// The rows of one table.
pub type Table = OrderedMap<i64, Vec<u8>>;

fn all_numbers(table: &Table) -> (numbers: Vec<i64>)
    ensures
        numbers@ == crate::engine::numbers(table.listing()),
{
    let mut numbers: Vec<i64> = Vec::new();
    let mut i: usize = 0;
    while i < table.len()
        invariant
            i <= table.listing().len(),
            numbers@ == crate::engine::numbers(table.listing()).take(i as int),
        decreases table.listing().len() - i,
    {
        numbers.push(*table.key_at(i));
        assert(numbers@ =~= crate::engine::numbers(table.listing()).take(i + 1));
        i += 1;
    }
    assert(crate::engine::numbers(table.listing()).take(table.listing().len() as int)
        =~= crate::engine::numbers(table.listing()));
    numbers
}

fn read_targets(table: &Table, selection: &Option<Expr>) -> (keys: Result<Vec<i64>, String>)
    ensures
        match keys {
            Ok(keys) => targets(table.listing(), *selection) == Ok::<Seq<i64>, Seq<char>>(keys@),
            Err(why) => targets(table.listing(), *selection) == Err::<Seq<i64>, Seq<char>>(why@),
        },
{
    match selection {
        Some(Expr::BinaryOp { right, .. }) => match read_operand(right) {
            Ok(number) => {
                let mut keys: Vec<i64> = Vec::new();
                keys.push(number);
                assert(keys@ =~= seq![number]);
                Ok(keys)
            },
            Err(why) => Err(why),
        },
        None => Ok(all_numbers(table)),
        Some(other) => {
            let written = write_expr(other);
            Err(three("UNIMPLEMENTED HANDLING OF \n", written.as_str(), "\n WHERE CLAUSE!"))
        },
    }
}

/// Whether `number` is one of `numbers`.
fn contains(numbers: &Vec<i64>, number: i64) -> (found: bool)
    ensures
        found == numbers@.contains(number),
{
    let mut i: usize = 0;
    while i < numbers.len()
        invariant
            i <= numbers@.len(),
            forall|j: int| 0 <= j < i ==> numbers@[j] != number,
        decreases numbers.len() - i,
    {
        if numbers[i] == number {
            return true;
        }
        i += 1;
    }
    false
}

/// The kinds of conditions on the number of a row.
enum Condition {
    Equal(i64),
    Below(i64),
    From(i64),
    Within(i64, i64),
    Listed(Vec<i64>, bool),
    All,
}

impl Condition {
    spec fn holds(self, number: i64) -> bool {
        match self {
            Condition::Equal(wanted) => number == wanted,
            Condition::Below(bound) => number < bound,
            Condition::From(bound) => number >= bound,
            Condition::Within(low, high) => low <= number <= high,
            Condition::Listed(listed, negated) => listed@.contains(number) != negated,
            Condition::All => true,
        }
    }

    fn check(&self, number: i64) -> (holds: bool)
        ensures
            holds == self.holds(number),
    {
        match self {
            Condition::Equal(wanted) => number == *wanted,
            Condition::Below(bound) => number < *bound,
            Condition::From(bound) => number >= *bound,
            Condition::Within(low, high) => *low <= number && number <= *high,
            Condition::Listed(listed, negated) => contains(listed, number) != *negated,
            Condition::All => true,
        }
    }
}

/// The stored bytes of the rows that the condition holds of.
fn keep(table: &Table, condition: &Condition) -> (records: Vec<Vec<u8>>)
    ensures
        byte_strings(records@) == kept(table.listing(), |n: i64| condition.holds(n)),
{
    let ghost rows = table.listing();
    let ghost wanted = |n: i64| condition.holds(n);
    let mut records: Vec<Vec<u8>> = Vec::new();
    let mut i: usize = 0;
    proof {
        assert(byte_strings(records@) =~= kept(rows.take(0), wanted));
    }
    while i < table.len()
        invariant
            i <= rows.len(),
            rows == table.listing(),
            wanted == (|n: i64| condition.holds(n)),
            byte_strings(records@) == kept(rows.take(i as int), wanted),
        decreases rows.len() - i,
    {
        proof {
            assert(rows.take(i + 1).drop_last() =~= rows.take(i as int));
            assert(rows.take(i + 1).last() == rows[i as int]);
        }
        if condition.check(*table.key_at(i)) {
            let ghost before = byte_strings(records@);
            records.push(table.value_at(i).duplicate());
            assert(byte_strings(records@) =~= before.push(rows[i as int].1));
        }
        i += 1;
    }
    proof {
        assert(rows.take(rows.len() as int) =~= rows);
    }
    records
}

/// What is kept does not depend on how the condition is written down.
proof fn lemma_kept_same(rows: Rows, a: spec_fn(i64) -> bool, b: spec_fn(i64) -> bool)
    requires
        forall|n: i64| #[trigger] a(n) == b(n),
    ensures
        kept(rows, a) == kept(rows, b),
    decreases rows.len(),
{
    if rows.len() > 0 {
        lemma_kept_same(rows.drop_last(), a, b);
    }
}

fn read_list(list: &Vec<Expr>) -> (numbers: Result<Vec<i64>, String>)
    ensures
        match numbers {
            Ok(numbers) => list_of(list@) == Ok::<Seq<i64>, Seq<char>>(numbers@),
            Err(why) => list_of(list@) == Err::<Seq<i64>, Seq<char>>(why@),
        },
{
    let mut numbers: Vec<i64> = Vec::new();
    let mut i: usize = 0;
    while i < list.len()
        invariant
            i <= list@.len(),
            list_of(list@.take(i as int)) == Ok::<Seq<i64>, Seq<char>>(numbers@),
        decreases list.len() - i,
    {
        proof {
            assert(list@.take(i + 1).drop_last() =~= list@.take(i as int));
            assert(list@.take(i + 1).last() == list@[i as int]);
        }
        match &list[i] {
            Expr::Value(value) => match read_int(value) {
                Ok(number) => {
                    numbers.push(number);
                },
                Err(_) => {
                    proof {
                        lemma_list_fails(list@, i + 1);
                    }
                    let mut why = String::from_str(
                        "UNIMPLEMENTED HANDLING OF STRING PARSING IN WHERE 'IN (x, y, z)' for ",
                    );
                    let written = write_value(value);
                    why.append(written.as_str());
                    return Err(why);
                },
            },
            other => {
                proof {
                    lemma_list_fails(list@, i + 1);
                }
                let mut why = String::from_str(
                    "UNIMPLEMENTED HANDLING OF VALUES PARSING IN WHERE 'IN (x, y, z)' for ",
                );
                let written = write_expr(other);
                why.append(written.as_str());
                return Err(why);
            },
        }
        i += 1;
    }
    proof {
        assert(list@.take(list@.len() as int) =~= list@);
    }
    Ok(numbers)
}

proof fn lemma_list_fails(list: Seq<Expr>, upto: int)
    requires
        0 <= upto <= list.len(),
        list_of(list.take(upto)) is Err,
    ensures
        list_of(list) == list_of(list.take(upto)),
    decreases list.len() - upto,
{
    if upto < list.len() {
        assert(list.take(upto + 1).drop_last() =~= list.take(upto));
        lemma_list_fails(list, upto + 1);
    } else {
        assert(list.take(upto) =~= list);
    }
}

/// The stored bytes of the rows that the query selects.
fn select(table: &Table, selection: &Option<Expr>) -> (records: Result<Vec<Vec<u8>>, String>)
    ensures
        match records {
            Ok(records) => selected(table.listing(), *selection) == Ok::<Seq<Seq<u8>>, Seq<char>>(
                byte_strings(records@),
            ),
            Err(why) => selected(table.listing(), *selection) == Err::<Seq<Seq<u8>>, Seq<char>>(
                why@,
            ),
        },
{
    let ghost rows = table.listing();
    match selection {
        Some(Expr::BinaryOp { left: _, op, right }) => {
            if *op != BinaryOperator::Eq {
                return Err(
                    three(
                        "UNIMPLEMENTED HANDLING OF OPERATOR \n",
                        op.text(),
                        "\n IN WHERE CLAUSE",
                    ),
                );
            }
            let right: &Expr = &**right;
            match right {
                Expr::Value(value) => match read_int(value) {
                    Ok(number) => {
                        let condition = Condition::Equal(number);
                        let records = keep(table, &condition);
                        proof {
                            lemma_kept_same(
                                rows,
                                |n: i64| condition.holds(n),
                                |n: i64| n == number,
                            );
                        }
                        if records.len() > 0 {
                            Ok(records)
                        } else {
                            Err(String::from_str("UNIMPLEMENTED HANDLING OF NO INSERTED VALUE"))
                        }
                    },
                    Err(_) => {
                        let written = write_expr(right);
                        Err(
                            three(
                                "UNIMPLEMENTED HANDLING OF STRING PARSING \n",
                                written.as_str(),
                                "\n IN WHERE X = RIGHT!",
                            ),
                        )
                    },
                },
                _ => {
                    let written = write_expr(right);
                    Err(
                        three(
                            "UNIMPLEMENTED HANDLING OF \n",
                            written.as_str(),
                            "\n IN WHERE X = RIGHT!",
                        ),
                    )
                },
            }
        },
        Some(Expr::Between { expr: _, negated, low, high }) => {
            let low: &Expr = &**low;
            let high: &Expr = &**high;
            match (low, high) {
                (Expr::Value(low_value), Expr::Value(high_value)) => {
                    match (read_int(low_value), read_int(high_value)) {
                        (Ok(low), Ok(high)) => {
                            if *negated {
                                let below = Condition::Below(low);
                                let from = Condition::From(high);
                                let mut records = keep(table, &below);
                                let mut above = keep(table, &from);
                                proof {
                                    lemma_kept_same(
                                        rows,
                                        |n: i64| below.holds(n),
                                        |n: i64| n < low,
                                    );
                                    lemma_kept_same(
                                        rows,
                                        |n: i64| from.holds(n),
                                        |n: i64| n >= high,
                                    );
                                }
                                let ghost kept_below = byte_strings(records@);
                                let ghost kept_above = byte_strings(above@);
                                if above.len() > 0 {
                                    above.remove(0);
                                }
                                assert(byte_strings(above@) =~= rest(kept_above));
                                records.append(&mut above);
                                assert(byte_strings(records@) =~= kept_below + rest(kept_above));
                                Ok(records)
                            } else {
                                let within = Condition::Within(low, high);
                                let records = keep(table, &within);
                                proof {
                                    lemma_kept_same(
                                        rows,
                                        |n: i64| within.holds(n),
                                        |n: i64| low <= n <= high,
                                    );
                                }
                                Ok(records)
                            }
                        },
                        _ => {
                            let mut why = String::from_str(
                                "UNIMPLEMENTED HANDLING OF STRING PARSING \n IN WHERE BETWEEN ",
                            );
                            let low_text = write_value(low_value);
                            why.append(low_text.as_str());
                            why.append(" AND ");
                            let high_text = write_value(high_value);
                            why.append(high_text.as_str());
                            Err(why)
                        },
                    }
                },
                _ => {
                    let mut why = String::from_str("UNIMPLEMENTED HANDLING OF \n IN WHERE BETWEEN ");
                    let low_text = write_expr(low);
                    why.append(low_text.as_str());
                    why.append(" AND ");
                    let high_text = write_expr(high);
                    why.append(high_text.as_str());
                    Err(why)
                },
            }
        },
        Some(Expr::InList { expr: _, list, negated }) => match read_list(list) {
            Ok(listed) => {
                let ghost numbers = listed@;
                let condition = Condition::Listed(listed, *negated);
                let records = keep(table, &condition);
                proof {
                    lemma_kept_same(
                        rows,
                        |n: i64| condition.holds(n),
                        |n: i64| numbers.contains(n) != *negated,
                    );
                }
                Ok(records)
            },
            Err(why) => Err(why),
        },
        None => {
            let condition = Condition::All;
            let records = keep(table, &condition);
            proof {
                lemma_kept_same(rows, |n: i64| condition.holds(n), |n: i64| true);
            }
            Ok(records)
        },
        Some(other) => {
            let written = write_expr(other);
            Err(three("UNIMPLEMENTED HANDLING OF \n", written.as_str(), "\n WHERE CLAUSE!"))
        },
    }
}

/// The number that an insert puts into the table: the first value of the
/// first row.
pub open spec fn inserted_value(source: Query) -> Result<i64, Seq<char>> {
    match source.body {
        SetExpr::Values(rows) => if rows@.len() == 0 || rows@[0]@.len() == 0 {
            Err("UNIMPLEMENTED HANDLING OF EMPTY VALUES"@)
        } else {
            match rows@[0]@[0] {
                Expr::Value(value) => match int_of(value) {
                    Ok(number) => Ok(number),
                    Err(_) => Err(
                        "UNIMPLEMENTED HANDLING OF STRING PARSING \n"@ + value_text(value)
                            + "\n IN \"INSERT INTO <table> VALUES (v)\""@,
                    ),
                },
                other => Err(
                    "UNIMPLEMENTED HANDLING OF PARSING \n"@ + expr_text(other)
                        + "\n IN \"INSERT INTO <table> VALUES (v)\""@,
                ),
            }
        },
        other => Err(
            "UNIMPLEMENTED HANDLING OF VALUES INSERTION \n"@ + crate::planner::source_text(other)
                + "\n"@,
        ),
    }
}

/// The number that an update assigns: the value of its first assignment.
pub open spec fn assigned_value(assignments: Seq<Assignment>) -> Result<i64, Seq<char>> {
    if assignments.len() == 0 {
        Err("UNIMPLEMENTED HANDLING OF EMPTY ASSIGNMENTS"@)
    } else {
        operand_of(assignments[0].value)
    }
}

/// The name of the table that a query selects from: that of its first
/// source.
pub open spec fn queried_table(query: Query) -> Result<ObjectName, Seq<char>> {
    match query.body {
        SetExpr::Select(select) => if select.from@.len() == 0 {
            Err("UNIMPLEMENTED SELECTION FROM MULTIPLE TABLES \n\n"@)
        } else {
            match select.from@[0].relation {
                TableFactor::Table { name } => Ok(name),
                TableFactor::Other(text) => Err(
                    "UNIMPLEMENTED SELECTION FROM MULTIPLE TABLES \n"@ + text@ + "\n"@,
                ),
            }
        },
        other => Err(
            "UNIMPLEMENTED HANDLING OF \n"@ + crate::planner::source_text(other)
                + "\n SELECT QUERY!"@,
        ),
    }
}

/// The kind of a statement that the engine does not handle, in words.
pub open spec fn statement_text(statement: Statement) -> Seq<char> {
    match statement {
        Statement::CreateSchema { .. } => "CREATE SCHEMA"@,
        Statement::Drop { .. } => "DROP"@,
        Statement::StartTransaction => "START TRANSACTION"@,
        Statement::SetVariable => "SET"@,
        Statement::Other(text) => text@,
        _ => ""@,
    }
}

/// The bindings after the rows of the numbers `keys` were given the stored
/// bytes of `value`.
pub open spec fn updated(before: Map<i64, Seq<u8>>, keys: Seq<i64>, value: i64) -> Map<
    i64,
    Seq<u8>,
> {
    Map::new(
        |number: i64| before.dom().contains(number),
        |number: i64|
            if keys.contains(number) {
                serialized_int(value as int)
            } else {
                before[number]
            },
    )
}

/// The bindings after the rows of the numbers `keys` were removed.
pub open spec fn removed(before: Map<i64, Seq<u8>>, keys: Seq<i64>) -> Map<i64, Seq<u8>> {
    Map::new(
        |number: i64| before.dom().contains(number) && !keys.contains(number),
        |number: i64| before[number],
    )
}

/// Whether the two states differ at most in the rows of the one table,
/// which both have.
pub open spec fn one_table_changed(
    before: Map<Seq<char>, Rows>,
    after: Map<Seq<char>, Rows>,
    name: Seq<char>,
) -> bool {
    before.dom().contains(name) && after == before.insert(name, after[name])
}

/// What a statement does to the tables of the engine, and what it answers.
///
/// A table is created unless it exists. An insert puts its number into the
/// table, under the number itself; a row that holds the number already is
/// replaced. An update gives the selected rows the stored bytes of the
/// number it assigns, a delete removes the selected rows, a query answers
/// with the stored bytes of the selected rows. Whatever the engine cannot
/// do leaves the tables as they are and is answered by an error that says
/// what is not implemented.
pub open spec fn outcome(
    before: Map<Seq<char>, Rows>,
    statement: Statement,
    after: Map<Seq<char>, Rows>,
    event: EventModel,
) -> bool {
    match statement {
        Statement::CreateTable { name, .. } => if before.dom().contains(dotted(name)) {
            after == before && event == EventModel::TableAlreadyExists(dotted(name))
        } else {
            after == before.insert(dotted(name), Seq::empty()) && event
                == EventModel::TableCreated(dotted(name))
        },
        Statement::Insert { table_name, source, .. } => if !before.dom().contains(
            dotted(table_name),
        ) {
            after == before && event == EventModel::TableDoesNotExist(dotted(table_name))
        } else {
            match inserted_value(*source) {
                Ok(number) => one_table_changed(before, after, dotted(table_name)) && bindings(
                    after[dotted(table_name)],
                ) == bindings(before[dotted(table_name)]).insert(
                    number,
                    serialized_int(number as int),
                ) && event == EventModel::RecordInserted,
                Err(why) => after == before && event == EventModel::UnimplementedBranch(why),
            }
        },
        Statement::Update { table_name, assignments, selection } => if !before.dom().contains(
            dotted(table_name),
        ) {
            after == before && event == EventModel::TableDoesNotExist(dotted(table_name))
        } else {
            match targets(before[dotted(table_name)], selection) {
                Ok(keys) => match assigned_value(assignments@) {
                    Ok(value) => one_table_changed(before, after, dotted(table_name)) && bindings(
                        after[dotted(table_name)],
                    ) == updated(bindings(before[dotted(table_name)]), keys, value) && event
                        == EventModel::RecordsUpdated,
                    Err(why) => after == before && event == EventModel::UnimplementedBranch(why),
                },
                Err(why) => after == before && event == EventModel::UnimplementedBranch(why),
            }
        },
        Statement::Delete { table_name, selection } => if !before.dom().contains(
            dotted(table_name),
        ) {
            after == before && event == EventModel::TableDoesNotExist(dotted(table_name))
        } else {
            match targets(before[dotted(table_name)], selection) {
                Ok(keys) => one_table_changed(before, after, dotted(table_name)) && bindings(
                    after[dotted(table_name)],
                ) == removed(bindings(before[dotted(table_name)]), keys) && event
                    == EventModel::RecordsDeleted,
                Err(why) => after == before && event == EventModel::UnimplementedBranch(why),
            }
        },
        Statement::Query(query) => after == before && match queried_table(*query) {
            Ok(name) => if !before.dom().contains(dotted(name)) {
                event == EventModel::TableDoesNotExist(dotted(name))
            } else {
                match selected(before[dotted(name)], query.body->Select_0.selection) {
                    Ok(records) => event == EventModel::RecordsSelected(records),
                    Err(why) => event == EventModel::UnimplementedBranch(why),
                }
            },
            Err(why) => event == EventModel::UnimplementedBranch(why),
        },
        other => after == before && event == EventModel::UnimplementedBranch(
            "UNIMPLEMENTED HANDLING OF \n"@ + statement_text(other) + "\n STATEMENT!"@,
        ),
    }
}

fn source_name(source: &SetExpr) -> (text: String)
    ensures
        text@ == crate::planner::source_text(*source),
{
    match source {
        SetExpr::Select(_) => String::from_str("SELECT"),
        SetExpr::Values(_) => String::from_str("VALUES"),
        SetExpr::Other(text) => text.clone(),
    }
}

fn read_inserted(source: &Query) -> (number: Result<i64, String>)
    ensures
        match number {
            Ok(number) => inserted_value(*source) == Ok::<i64, Seq<char>>(number),
            Err(why) => inserted_value(*source) == Err::<i64, Seq<char>>(why@),
        },
{
    match &source.body {
        SetExpr::Values(rows) => {
            if rows.len() == 0 || rows[0].len() == 0 {
                return Err(String::from_str("UNIMPLEMENTED HANDLING OF EMPTY VALUES"));
            }
            match &rows[0][0] {
                Expr::Value(value) => match read_int(value) {
                    Ok(number) => Ok(number),
                    Err(_) => {
                        let written = write_value(value);
                        Err(
                            three(
                                "UNIMPLEMENTED HANDLING OF STRING PARSING \n",
                                written.as_str(),
                                "\n IN \"INSERT INTO <table> VALUES (v)\"",
                            ),
                        )
                    },
                },
                other => {
                    let written = write_expr(other);
                    Err(
                        three(
                            "UNIMPLEMENTED HANDLING OF PARSING \n",
                            written.as_str(),
                            "\n IN \"INSERT INTO <table> VALUES (v)\"",
                        ),
                    )
                },
            }
        },
        other => {
            let written = source_name(other);
            Err(three("UNIMPLEMENTED HANDLING OF VALUES INSERTION \n", written.as_str(), "\n"))
        },
    }
}

fn read_assigned(assignments: &Vec<Assignment>) -> (number: Result<i64, String>)
    ensures
        match number {
            Ok(number) => assigned_value(assignments@) == Ok::<i64, Seq<char>>(number),
            Err(why) => assigned_value(assignments@) == Err::<i64, Seq<char>>(why@),
        },
{
    if assignments.len() == 0 {
        return Err(String::from_str("UNIMPLEMENTED HANDLING OF EMPTY ASSIGNMENTS"));
    }
    read_operand(&assignments[0].value)
}

/// The rows of the numbers `keys` are given the stored bytes of `value`.
fn update_rows(table: &mut Table, keys: &Vec<i64>, value: i64)
    requires
        old(table).wf(),
    ensures
        final(table).wf(),
        final(table)@ == updated(old(table)@, keys@, value),
{
    let ghost start = table@;
    let mut i: usize = 0;
    proof {
        assert(table@ =~= updated(start, keys@.take(0), value));
    }
    while i < keys.len()
        invariant
            i <= keys@.len(),
            table.wf(),
            table@ == updated(start, keys@.take(i as int), value),
        decreases keys.len() - i,
    {
        let key = keys[i];
        let ghost before = table@;
        if table.contains_key(&key) {
            table.insert(key, serialize_int(value));
        }
        proof {
            let upto = keys@.take(i as int);
            let next = keys@.take(i + 1);
            assert forall|number: i64| next.contains(number) <==> upto.contains(number) || number
                == key by {
                if upto.contains(number) {
                    let at = choose|at: int| 0 <= at < upto.len() && upto[at] == number;
                    assert(next[at] == number);
                }
                if number == key {
                    assert(next[i as int] == number);
                }
                if next.contains(number) {
                    let at = choose|at: int| 0 <= at < next.len() && next[at] == number;
                    if at < i {
                        assert(upto[at] == number);
                    }
                }
            }
            assert(table@ =~= updated(start, next, value));
        }
        i += 1;
    }
    proof {
        assert(keys@.take(keys@.len() as int) =~= keys@);
    }
}

/// The rows of the numbers `keys` are removed.
fn remove_rows(table: &mut Table, keys: &Vec<i64>)
    requires
        old(table).wf(),
    ensures
        final(table).wf(),
        final(table)@ == removed(old(table)@, keys@),
{
    let ghost start = table@;
    let mut i: usize = 0;
    proof {
        assert(table@ =~= removed(start, keys@.take(0)));
    }
    while i < keys.len()
        invariant
            i <= keys@.len(),
            table.wf(),
            table@ == removed(start, keys@.take(i as int)),
        decreases keys.len() - i,
    {
        let key = keys[i];
        table.remove(&key);
        proof {
            let upto = keys@.take(i as int);
            let next = keys@.take(i + 1);
            assert forall|number: i64| next.contains(number) <==> upto.contains(number) || number
                == key by {
                if upto.contains(number) {
                    let at = choose|at: int| 0 <= at < upto.len() && upto[at] == number;
                    assert(next[at] == number);
                }
                if number == key {
                    assert(next[i as int] == number);
                }
                if next.contains(number) {
                    let at = choose|at: int| 0 <= at < next.len() && next[at] == number;
                    if at < i {
                        assert(upto[at] == number);
                    }
                }
            }
            assert(table@ =~= removed(start, next));
        }
        i += 1;
    }
    proof {
        assert(keys@.take(keys@.len() as int) =~= keys@);
    }
}

pub struct Engine {
    tables: Registry<Table>,
}

impl Engine {
    /// The rows of each table, ascending by number.
    pub closed spec fn view(&self) -> Map<Seq<char>, Rows> {
        Map::new(
            |name: Seq<char>| self.tables@.dom().contains(name),
            |name: Seq<char>| self.tables@[name].listing(),
        )
    }

    /// The registry of tables is well-formed, and the rows of every table
    /// ascend by number.
    pub closed spec fn wf(&self) -> bool {
        &&& self.tables.wf()
        &&& forall|name: Seq<char>| #[trigger]
            self.tables@.dom().contains(name) ==> self.tables@[name].wf()
    }

    /// In a well-formed engine the rows of every table ascend by number.
    pub proof fn lemma_rows_ascend(&self, name: Seq<char>)
        requires
            self.wf(),
            self@.dom().contains(name),
        ensures
            ascending::<i64, Seq<u8>>(self@[name]),
    {
        assert(self.tables@.dom().contains(name));
    }

    /// After a change to the one table, the state differs in that table
    /// only.
    proof fn lemma_changed(&self, before: &Engine, name: Seq<char>)
        requires
            before.tables@.dom().contains(name),
            self.tables@ == before.tables@.insert(name, self.tables@[name]),
        ensures
            one_table_changed(before@, self@, name),
            self@[name] == self.tables@[name].listing(),
    {
        assert(self@ =~= before@.insert(name, self@[name]));
    }

    /// What the statement does to the tables, and what it answers.
    pub fn execute(&mut self, statement: Statement) -> (result: ExecutionResult)
        requires
            old(self).wf(),
        ensures
            final(self).wf(),
            outcome(old(self)@, statement, final(self)@, event_model(result)),
    {
        match &statement {
            Statement::CreateTable { name, .. } => {
                let table_name = dotted_name(name);
                if self.tables.insert(table_name.as_str(), OrderedMap::new()) {
                    assert(self@ =~= old(self)@.insert(dotted(*name), Seq::empty()));
                    Ok(EngineEvent::TableCreated(table_name))
                } else {
                    assert(self@ =~= old(self)@);
                    Err(ErrorEvent::TableAlreadyExists(table_name))
                }
            },
            Statement::Insert { table_name, source, .. } => {
                let name = dotted_name(table_name);
                let result = match self.tables.get_mut(name.as_str()) {
                    None => Err(ErrorEvent::TableDoesNotExist(name)),
                    Some(table) => match read_inserted(source) {
                        Ok(number) => {
                            table.insert(number, serialize_int(number));
                            Ok(EngineEvent::RecordInserted)
                        },
                        Err(why) => Err(ErrorEvent::UnimplementedBranch(why)),
                    },
                };
                proof {
                    if old(self).tables.view().dom().contains(dotted(*table_name)) {
                        self.lemma_changed(old(self), dotted(*table_name));
                        if inserted_value(**source) is Err {
                            assert(self@ =~= old(self)@);
                        }
                    } else {
                        assert(self@ =~= old(self)@);
                    }
                }
                result
            },
            Statement::Update { table_name, assignments, selection } => {
                let name = dotted_name(table_name);
                let result = match self.tables.get_mut(name.as_str()) {
                    None => Err(ErrorEvent::TableDoesNotExist(name)),
                    Some(table) => match read_targets(table, selection) {
                        Ok(keys) => match read_assigned(assignments) {
                            Ok(value) => {
                                update_rows(table, &keys, value);
                                Ok(EngineEvent::RecordsUpdated)
                            },
                            Err(why) => Err(ErrorEvent::UnimplementedBranch(why)),
                        },
                        Err(why) => Err(ErrorEvent::UnimplementedBranch(why)),
                    },
                };
                proof {
                    if old(self).tables.view().dom().contains(dotted(*table_name)) {
                        self.lemma_changed(old(self), dotted(*table_name));
                        if !(result is Ok) {
                            assert(self@ =~= old(self)@);
                        }
                    } else {
                        assert(self@ =~= old(self)@);
                    }
                }
                result
            },
            Statement::Delete { table_name, selection } => {
                let name = dotted_name(table_name);
                let result = match self.tables.get_mut(name.as_str()) {
                    None => Err(ErrorEvent::TableDoesNotExist(name)),
                    Some(table) => match read_targets(table, selection) {
                        Ok(keys) => {
                            remove_rows(table, &keys);
                            Ok(EngineEvent::RecordsDeleted)
                        },
                        Err(why) => Err(ErrorEvent::UnimplementedBranch(why)),
                    },
                };
                proof {
                    if old(self).tables.view().dom().contains(dotted(*table_name)) {
                        self.lemma_changed(old(self), dotted(*table_name));
                        if !(result is Ok) {
                            assert(self@ =~= old(self)@);
                        }
                    } else {
                        assert(self@ =~= old(self)@);
                    }
                }
                result
            },
            Statement::Query(query) => {
                let select_from = match &query.body {
                    SetExpr::Select(select_from) => select_from,
                    other => {
                        let written = source_name(other);
                        return Err(
                            ErrorEvent::UnimplementedBranch(
                                three(
                                    "UNIMPLEMENTED HANDLING OF \n",
                                    written.as_str(),
                                    "\n SELECT QUERY!",
                                ),
                            ),
                        );
                    },
                };
                if select_from.from.len() == 0 {
                    return Err(
                        ErrorEvent::UnimplementedBranch(
                            String::from_str("UNIMPLEMENTED SELECTION FROM MULTIPLE TABLES \n\n"),
                        ),
                    );
                }
                let name = match &select_from.from[0].relation {
                    TableFactor::Table { name } => dotted_name(name),
                    TableFactor::Other(text) => {
                        return Err(
                            ErrorEvent::UnimplementedBranch(
                                three(
                                    "UNIMPLEMENTED SELECTION FROM MULTIPLE TABLES \n",
                                    text.as_str(),
                                    "\n",
                                ),
                            ),
                        );
                    },
                };
                match self.tables.get(name.as_str()) {
                    None => Err(ErrorEvent::TableDoesNotExist(name)),
                    Some(table) => match select(table, &select_from.selection) {
                        Ok(records) => Ok(EngineEvent::RecordsSelected(records)),
                        Err(why) => Err(ErrorEvent::UnimplementedBranch(why)),
                    },
                }
            },
            other => {
                let what = match other {
                    Statement::CreateSchema { .. } => String::from_str("CREATE SCHEMA"),
                    Statement::Drop { .. } => String::from_str("DROP"),
                    Statement::StartTransaction => String::from_str("START TRANSACTION"),
                    Statement::SetVariable => String::from_str("SET"),
                    Statement::Other(text) => text.clone(),
                    _ => String::new(),
                };
                proof {
                    reveal_strlit("");
                    assert(""@ =~= Seq::<char>::empty());
                }
                Err(
                    ErrorEvent::UnimplementedBranch(
                        three("UNIMPLEMENTED HANDLING OF \n", what.as_str(), "\n STATEMENT!"),
                    ),
                )
            },
        }
    }
}

impl Default for Engine {
    fn default() -> (engine: Self)
        ensures
            engine.wf(),
            engine@ == Map::<Seq<char>, Rows>::empty(),
    {
        let engine = Engine { tables: Registry::new() };
        assert(engine@ =~= Map::<Seq<char>, Rows>::empty());
        engine
    }
}

} // verus!
