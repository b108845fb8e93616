//! The typed row codec: values of the storage engine, statements, and the
//! capabilities by which an entity type is written to and read from a row.

pub mod account;
pub mod budget;
pub mod category;
pub mod category_group;
pub mod enums;
pub mod scan;
pub mod transaction;

use vstd::prelude::*;
use crate::data_layer::text::same_text;
use crate::data_layer::models::enums::AccountTypeString;

verus! {

/// A value of the storage engine.
#[derive(Debug, PartialEq, Eq)]
pub enum SqlValue {
    /// Binary data.
    Binary(Vec<u8>),
    /// A floating-point number, as the bits of its IEEE 754 double.
    Float(u64),
    /// An integer number.
    Integer(i64),
    /// A string.
    String(String),
    /// A null value.
    Null,
}

/// A [`SqlValue`] as a mathematical value.
pub enum ValueView {
    Binary(Seq<u8>),
    Float(u64),
    Integer(i64),
    String(Seq<char>),
    Null,
}

impl View for SqlValue {
    type V = ValueView;

    open spec fn view(&self) -> ValueView {
        match self {
            SqlValue::Binary(b) => ValueView::Binary(b@),
            SqlValue::Float(bits) => ValueView::Float(*bits),
            SqlValue::Integer(i) => ValueView::Integer(*i),
            SqlValue::String(s) => ValueView::String(s@),
            SqlValue::Null => ValueView::Null,
        }
    }
}

/// Why a value could not be bound to a statement.
#[derive(Debug, Clone, Copy, PartialEq, Eq, Structural)]
pub enum BindError {
    /// The statement has no parameter of that name.
    UnknownParameter,
}

/// Why a row or a payload could not be read into a value.
#[derive(Debug, Clone, Copy, PartialEq, Eq, Structural)]
pub enum DecodeError {
    /// The payload is not JSON.
    NotJson,
    /// The payload does not hold the listing where it is expected.
    NoListing,
    /// A required column or member is missing.
    Missing,
    /// A column or member holds a value of the wrong kind.
    WrongKind,
}

/// A named value: a parameter with what is bound to it, or a column with
/// what it holds.
pub type Named = (String, SqlValue);

/// A list of named values as a mathematical value.
pub open spec fn named_views(list: Seq<Named>) -> Seq<(Seq<char>, ValueView)> {
    list.map_values(|n: Named| (n.0@, n.1@))
}

/// What the first entry called `name` holds, if there is one.
pub open spec fn value_of(list: Seq<(Seq<char>, ValueView)>, name: Seq<char>) -> Option<ValueView>
    decreases list.len(),
{
    if list.len() == 0 {
        None
    } else if list[0].0 == name {
        Some(list[0].1)
    } else {
        value_of(list.drop_first(), name)
    }
}

/// A column that no earlier column shares its name with is found by name.
pub proof fn lemma_value_of_at(list: Seq<(Seq<char>, ValueView)>, i: int)
    requires
        0 <= i < list.len(),
        forall|j: int| 0 <= j < i ==> (#[trigger] list[j]).0 != list[i].0,
    ensures
        value_of(list, list[i].0) == Some(list[i].1),
    decreases i,
{
    if i > 0 {
        let rest = list.drop_first();
        assert(rest[i - 1] == list[i]);
        assert forall|j: int| 0 <= j < i - 1 implies (#[trigger] rest[j]).0 != rest[i - 1].0 by {
            assert(rest[j] == list[j + 1]);
        }
        lemma_value_of_at(rest, i - 1);
    }
}

/// A required string: the column must be there and hold a string.
pub open spec fn text_in(
    row: Seq<(Seq<char>, ValueView)>,
    column: Seq<char>,
) -> Result<Seq<char>, DecodeError> {
    match value_of(row, column) {
        None => Err(DecodeError::Missing),
        Some(ValueView::String(s)) => Ok(s),
        Some(_) => Err(DecodeError::WrongKind),
    }
}

/// An optional string: the column must be there; null reads as absent.
pub open spec fn opt_text_in(
    row: Seq<(Seq<char>, ValueView)>,
    column: Seq<char>,
) -> Result<Option<Seq<char>>, DecodeError> {
    match value_of(row, column) {
        None => Err(DecodeError::Missing),
        Some(ValueView::Null) => Ok(None),
        Some(ValueView::String(s)) => Ok(Some(s)),
        Some(_) => Err(DecodeError::WrongKind),
    }
}

/// A required integer: the column must be there and hold an integer.
pub open spec fn integer_in(
    row: Seq<(Seq<char>, ValueView)>,
    column: Seq<char>,
) -> Result<i64, DecodeError> {
    match value_of(row, column) {
        None => Err(DecodeError::Missing),
        Some(ValueView::Integer(i)) => Ok(i),
        Some(_) => Err(DecodeError::WrongKind),
    }
}

/// A required truth value, kept as an integer: zero is false, anything else
/// is true.
pub open spec fn flag_in(
    row: Seq<(Seq<char>, ValueView)>,
    column: Seq<char>,
) -> Result<bool, DecodeError> {
    match integer_in(row, column) {
        Ok(i) => Ok(i != 0),
        Err(e) => Err(e),
    }
}

/// The value of the storage engine that stands for an optional string:
/// absent is null.
pub open spec fn opt_value(o: Option<Seq<char>>) -> ValueView {
    match o {
        None => ValueView::Null,
        Some(s) => ValueView::String(s),
    }
}

/// The row that a list of bindings makes: each parameter is a column, called
/// by the parameter's name without its first character, the colon.
pub open spec fn row_of(bound: Seq<(Seq<char>, ValueView)>) -> Seq<(Seq<char>, ValueView)> {
    bound.map_values(|n: (Seq<char>, ValueView)| (n.0.drop_first(), n.1))
}

/// A record of the local mirror: it has an identity, and two records can
/// be compared and copied field for field.
pub trait Record: View + Sized {
    /// The identity of a record: its `id`.
    spec fn key(v: Self::V) -> Seq<char>;

    /// The `id` of the record.
    fn id(&self) -> (id: &str)
        ensures
            id@ == Self::key(self@),
    ;

    /// Whether two records agree in every field.
    fn same(&self, other: &Self) -> (same: bool)
        ensures
            same == (self@ == other@),
    ;

    /// A copy that agrees with the record in every field.
    fn copy(&self) -> (copy: Self)
        ensures
            copy@ == self@,
    ;
}

/// An entity type with a statement that inserts one value of it.
pub trait Insertable {
    /// The text of the inserting statement.
    spec fn insert_text() -> Seq<char>;

    fn query(&self) -> (q: &'static str)
        ensures
            q@ == Self::insert_text(),
    ;
}

/// An entity type with a statement that overwrites one value of it.
pub trait Updateable {
    /// The text of the updating statement.
    spec fn update_text() -> Seq<char>;

    fn query(&self) -> (q: &'static str)
        ensures
            q@ == Self::update_text(),
    ;
}

/// An entity type with a statement that selects one value by its `id`.
pub trait IdSelectable {
    /// The text of the selecting statement.
    spec fn select_by_id_text() -> Seq<char>;

    fn query() -> (q: &'static str)
        ensures
            q@ == Self::select_by_id_text(),
    ;
}

/// An entity type with a statement that selects every value.
pub trait AllSelectable {
    /// The text of the selecting statement.
    spec fn select_all_text() -> Seq<char>;

    fn query() -> (q: &'static str)
        ensures
            q@ == Self::select_all_text(),
    ;
}

/// An entity type that can supply the parameters of a statement.
pub trait BindToStatement: View + Sized {
    /// The parameters that a value supplies, in order.
    spec fn bindings(v: Self::V) -> Seq<(Seq<char>, ValueView)>;

    /// Binds every parameter of the value, in order, and stops at the first
    /// that the statement does not expect.
    fn bind(self, s: &mut Statement) -> (r: Result<(), BindError>)
        ensures
            final(s)@ == old(s)@.binding(Self::bindings(self@)),
            old(s)@.takes(Self::bindings(self@)) ==> r is Ok,
            !old(s)@.takes(Self::bindings(self@)) ==> r == Err::<(), BindError>(
                BindError::UnknownParameter,
            ),
    ;
}

/// An entity type that can be read from the row of a statement.
pub trait ReadFromStatement: View + Sized {
    /// The value that a row holds, or why it holds none: the error of the
    /// first column, in the order of the fields, that cannot be read.
    spec fn decoded(row: Seq<(Seq<char>, ValueView)>) -> Result<Self::V, DecodeError>;

    /// Reads the row that the statement stands on.
    fn read(s: &Statement) -> (r: Result<Self, DecodeError>)
        ensures
            match r {
                Ok(v) => Self::decoded(s@.row) == Ok::<Self::V, DecodeError>(v@),
                Err(e) => Self::decoded(s@.row) == Err::<Self::V, DecodeError>(e),
            },
    ;
}

/// A value that has a form in the storage engine.
pub trait IntoValue {
    /// The value of the storage engine that stands for a value.
    spec fn as_value(self) -> ValueView;

    fn into_value(self) -> (v: SqlValue)
        ensures
            v@ == self.as_value(),
    ;
}

impl IntoValue for Option<String> {
    /// Absent is null.
    open spec fn as_value(self) -> ValueView {
        match self {
            None => ValueView::Null,
            Some(s) => ValueView::String(s@),
        }
    }

    fn into_value(self) -> (v: SqlValue) {
        match self {
            None => SqlValue::Null,
            Some(s) => SqlValue::String(s),
        }
    }
}

impl IntoValue for bool {
    /// True is the integer 1, false the integer 0.
    open spec fn as_value(self) -> ValueView {
        if self {
            ValueView::Integer(1)
        } else {
            ValueView::Integer(0)
        }
    }

    fn into_value(self) -> (v: SqlValue) {
        if self {
            SqlValue::Integer(1)
        } else {
            SqlValue::Integer(0)
        }
    }
}

impl IntoValue for String {
    open spec fn as_value(self) -> ValueView {
        ValueView::String(self@)
    }

    fn into_value(self) -> (v: SqlValue) {
        SqlValue::String(self)
    }
}

impl IntoValue for i64 {
    open spec fn as_value(self) -> ValueView {
        ValueView::Integer(self)
    }

    fn into_value(self) -> (v: SqlValue) {
        SqlValue::Integer(self)
    }
}

impl IntoValue for AccountTypeString {
    /// A kind is kept as its name.
    open spec fn as_value(self) -> ValueView {
        ValueView::String(self.name_text())
    }

    fn into_value(self) -> (v: SqlValue) {
        SqlValue::String(self.name().to_owned())
    }
}

/// A required account kind, kept as its name: the column must be there and
/// hold the name of a kind.
pub open spec fn kind_in(
    row: Seq<(Seq<char>, ValueView)>,
    column: Seq<char>,
) -> Result<AccountTypeString, DecodeError> {
    match text_in(row, column) {
        Err(e) => Err(e),
        Ok(name) => match AccountTypeString::named(name) {
            Some(kind) => Ok(kind),
            None => Err(DecodeError::WrongKind),
        },
    }
}

/// Reads a required account kind, kept as its name.
pub fn read_kind(s: &Statement, column: &str) -> (r: Result<AccountTypeString, DecodeError>)
    ensures
        r == kind_in(s@.row, column@),
{
    match s.read_text(column) {
        Err(e) => Err(e),
        Ok(name) => match AccountTypeString::from_name(name.as_str()) {
            Some(kind) => Ok(kind),
            None => Err(DecodeError::WrongKind),
        },
    }
}

/// A statement as a mathematical value.
pub struct StatementView {
    pub query: Seq<char>,
    pub parameters: Seq<Seq<char>>,
    pub bound: Seq<(Seq<char>, ValueView)>,
    pub row: Seq<(Seq<char>, ValueView)>,
}

impl StatementView {
    /// Whether the statement has a parameter called `name`.
    pub open spec fn expects(self, name: Seq<char>) -> bool {
        self.parameters.contains(name)
    }

    /// How many of `values`, from the front, the statement takes before it
    /// meets a name that it does not expect.
    pub open spec fn accepted(self, values: Seq<(Seq<char>, ValueView)>) -> nat
        decreases values.len(),
    {
        if values.len() == 0 || !self.expects(values[0].0) {
            0
        } else {
            1 + self.accepted(values.drop_first())
        }
    }

    /// The statement after `values` were bound in order, up to the first
    /// name that the statement does not expect.
    pub open spec fn binding(self, values: Seq<(Seq<char>, ValueView)>) -> StatementView {
        StatementView { bound: self.bound + values.take(self.accepted(values) as int), ..self }
    }

    /// Whether the statement expects every name in `values`.
    pub open spec fn takes(self, values: Seq<(Seq<char>, ValueView)>) -> bool {
        self.accepted(values) == values.len()
    }
}

/// A statement of the storage engine as the codec sees it: its text, the
/// named parameters that the text declares, what has been bound to them so
/// far, and the columns of the row that the statement currently stands on.
#[derive(Debug, PartialEq, Eq)]
pub struct Statement {
    query: String,
    parameters: Vec<String>,
    bound: Vec<Named>,
    row: Vec<Named>,
}

impl View for Statement {
    type V = StatementView;

    closed spec fn view(&self) -> StatementView {
        StatementView {
            query: self.query@,
            parameters: self.parameters@.map_values(|p: String| p@),
            bound: named_views(self.bound@),
            row: named_views(self.row@),
        }
    }
}

impl Statement {
    /// A statement with the text `query` that declares `parameters`. Nothing
    /// is bound, and the statement stands on no row.
    pub fn new(query: &str, parameters: Vec<String>) -> (s: Statement)
        ensures
            s@.query == query@,
            s@.parameters == parameters@.map_values(|p: String| p@),
            s@.bound.len() == 0,
            s@.row.len() == 0,
    {
        Statement { query: query.to_owned(), parameters, bound: Vec::new(), row: Vec::new() }
    }

    /// A statement with the text `query`, which declares the named
    /// parameters that stand in the text.
    pub fn prepare(query: &str) -> (s: Statement)
        ensures
            s@.query == query@,
            s@.parameters == scan::named_parameters(query@),
            s@.bound.len() == 0,
            s@.row.len() == 0,
    {
        Statement::new(query, scan::scan_parameters(query))
    }

    /// Takes back everything that was bound, and steps off the row.
    pub fn reset(&mut self)
        ensures
            final(self)@ == (StatementView { bound: Seq::empty(), row: Seq::empty(), ..old(self)@ }),
    {
        self.bound = Vec::new();
        self.row = Vec::new();
        proof {
            assert(named_views(self.bound@) =~= Seq::empty());
            assert(named_views(self.row@) =~= Seq::empty());
        }
    }

    /// The text of the statement.
    pub fn query(&self) -> (q: &str)
        ensures
            q@ == self@.query,
    {
        self.query.as_str()
    }

    /// What has been bound so far, in the order of binding.
    pub fn bound(&self) -> (b: &Vec<Named>)
        ensures
            named_views(b@) == self@.bound,
    {
        &self.bound
    }

    /// Puts the statement on a row with the given columns.
    pub fn set_row(&mut self, columns: Vec<Named>)
        ensures
            final(self)@ == (StatementView { row: named_views(columns@), ..old(self)@ }),
    {
        self.row = columns;
    }

    /// The value in the column called `name` of the current row.
    pub fn column(&self, name: &str) -> (v: Option<&SqlValue>)
        ensures
            match v {
                Some(value) => value_of(self@.row, name@) == Some(value@),
                None => value_of(self@.row, name@) is None,
            },
    {
        let ghost row = named_views(self.row@);
        let mut i: usize = 0;
        proof {
            assert(row.skip(0) =~= row);
        }
        while i < self.row.len()
            invariant
                i <= self.row.len(),
                row == named_views(self.row@),
                row == self@.row,
                value_of(row, name@) == value_of(row.skip(i as int), name@),
            decreases self.row.len() - i,
        {
            proof {
                let rest = row.skip(i as int);
                assert(rest[0] == row[i as int]);
                assert(rest.drop_first() =~= row.skip(i as int + 1));
            }
            if same_text(self.row[i].0.as_str(), name) {
                return Some(&self.row[i].1);
            }
            i += 1;
        }
        None
    }

    /// Reads a required string column.
    pub fn read_text(&self, column: &str) -> (r: Result<String, DecodeError>)
        ensures
            match r {
                Ok(s) => text_in(self@.row, column@) == Ok::<Seq<char>, DecodeError>(s@),
                Err(e) => text_in(self@.row, column@) == Err::<Seq<char>, DecodeError>(e),
            },
    {
        match self.column(column) {
            None => Err(DecodeError::Missing),
            Some(SqlValue::String(s)) => Ok(s.clone()),
            Some(_) => Err(DecodeError::WrongKind),
        }
    }

    /// Reads an optional string column.
    pub fn read_opt_text(&self, column: &str) -> (r: Result<Option<String>, DecodeError>)
        ensures
            match r {
                Ok(s) => opt_text_in(self@.row, column@) == Ok::<Option<Seq<char>>, DecodeError>(
                    crate::data_layer::text::opt_text(s),
                ),
                Err(e) => opt_text_in(self@.row, column@) == Err::<Option<Seq<char>>, DecodeError>(e),
            },
    {
        match self.column(column) {
            None => Err(DecodeError::Missing),
            Some(SqlValue::Null) => Ok(None),
            Some(SqlValue::String(s)) => Ok(Some(s.clone())),
            Some(_) => Err(DecodeError::WrongKind),
        }
    }

    /// Reads a required integer column.
    pub fn read_integer(&self, column: &str) -> (r: Result<i64, DecodeError>)
        ensures
            r == integer_in(self@.row, column@),
    {
        match self.column(column) {
            None => Err(DecodeError::Missing),
            Some(SqlValue::Integer(i)) => Ok(*i),
            Some(_) => Err(DecodeError::WrongKind),
        }
    }

    /// Reads a required truth value, kept as an integer.
    pub fn read_flag(&self, column: &str) -> (r: Result<bool, DecodeError>)
        ensures
            r == flag_in(self@.row, column@),
    {
        match self.read_integer(column) {
            Ok(i) => Ok(i != 0),
            Err(e) => Err(e),
        }
    }

    /// Whether the statement declares a parameter called `name`.
    pub fn has_parameter(&self, name: &str) -> (b: bool)
        ensures
            b == self@.expects(name@),
    {
        let mut i: usize = 0;
        while i < self.parameters.len()
            invariant
                i <= self.parameters.len(),
                forall|k: int| 0 <= k < i ==> self.parameters@[k]@ != name@,
            decreases self.parameters.len() - i,
        {
            if same_text(self.parameters[i].as_str(), name) {
                proof {
                    assert(self@.parameters[i as int] == name@);
                }
                return true;
            }
            i += 1;
        }
        proof {
            assert forall|k: int| 0 <= k < self@.parameters.len() implies self@.parameters[k]
                != name@ by {
                assert(self@.parameters[k] == self.parameters@[k]@);
            }
        }
        false
    }

    /// Binds one value to the parameter called `name`. Fails, and binds
    /// nothing, where the statement has no such parameter.
    pub fn bind(&mut self, name: &str, value: SqlValue) -> (r: Result<(), BindError>)
        ensures
            old(self)@.expects(name@) ==> r is Ok && final(self)@ == (StatementView {
                bound: old(self)@.bound.push((name@, value@)),
                ..old(self)@
            }),
            !old(self)@.expects(name@) ==> r == Err::<(), BindError>(BindError::UnknownParameter)
                && final(self)@ == old(self)@,
    {
        if self.has_parameter(name) {
            self.bound.push((name.to_owned(), value));
            proof {
                assert(named_views(self.bound@) =~= named_views(old(self).bound@).push(
                    (name@, value@),
                ));
            }
            Ok(())
        } else {
            Err(BindError::UnknownParameter)
        }
    }

    /// Binds the values in order, and stops at the first name that the
    /// statement does not expect: what came before it stays bound.
    #[verifier::loop_isolation(false)]
    pub fn bind_iter(&mut self, values: Vec<Named>) -> (r: Result<(), BindError>)
        ensures
            final(self)@ == old(self)@.binding(named_views(values@)),
            old(self)@.takes(named_views(values@)) ==> r is Ok,
            !old(self)@.takes(named_views(values@)) ==> r == Err::<(), BindError>(
                BindError::UnknownParameter,
            ),
    {
        let ghost all = named_views(values@);
        let ghost start = self@;
        proof {
            assert(all.skip(0) =~= all);
            assert(start.bound + all.take(0) =~= start.bound);
        }
        for item in it: values
            invariant
                all == named_views(it.seq()),
                start.accepted(all) == it.index() + start.accepted(all.skip(it.index() as int)),
                self@ == (StatementView { bound: start.bound + all.take(it.index() as int), ..start }),
        {
            let ghost i = it.index() as int;
            proof {
                assert(all.skip(i)[0] == all[i]);
                assert(all.skip(i).drop_first() =~= all.skip(i + 1));
                assert(all.take(i + 1) =~= all.take(i).push(all[i]));
                assert(all[i] == (item.0@, item.1@));
            }
            let (name, value) = item;
            match self.bind(name.as_str(), value) {
                Ok(()) => {
                    proof {
                        assert((start.bound + all.take(i)).push(all[i]) =~= start.bound + all.take(
                            i + 1,
                        ));
                    }
                },
                Err(e) => {
                    return Err(e);
                },
            }
        }
        proof {
            assert(all.skip(all.len() as int) =~= Seq::empty());
        }
        Ok(())
    }
}

} // verus!
