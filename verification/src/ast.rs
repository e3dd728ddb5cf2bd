use vstd::prelude::*;

verus! {

// ---------------------------------------------------------------------------
// Value domain
// ---------------------------------------------------------------------------

/// Fixed-point decimal value: `mantissa * 10^(-scale)`.
/// Held as plain integers so that plans and values can be reasoned about;
/// the wire layer converts it to a floating-point number at the edge.
#[derive(Debug, PartialEq)]
pub struct Dec {
    pub mantissa: i128,
    pub scale: u32,
}

/// The mantissa/scale pairs the decimal arithmetic library can hold: at
/// most 96 bits of magnitude, scale at most 28. The wire layer sends a
/// zero float for a pair outside this range.
pub open spec fn dec_in_range(mantissa: int, scale: nat) -> bool {
    scale <= 28 && -0xFFFFFFFFFFFFFFFFFFFFFFFF <= mantissa <= 0xFFFFFFFFFFFFFFFFFFFFFFFF
}

impl Dec {
    /// Well-formedness: the value is one the decimal library could hold.
    pub open spec fn wf(&self) -> bool {
        dec_in_range(self.mantissa as int, self.scale as nat)
    }
}

/// The value domain exchanged over the wire and carried inside plans.
/// An `Object` keeps its entries in insertion order.
#[derive(Debug, PartialEq)]
pub enum Datum {
    String(String),
    Parameter(String),
    Integer(i64),
    Decimal(Dec),
    Bool(bool),
    Null,
    Array(Vec<Datum>),
    Object(Vec<(String, Datum)>),
}

/// Mathematical model of a `Datum`.
#[verifier::ext_equal]
pub enum DatumV {
    Str(Seq<char>),
    Param(Seq<char>),
    Int(int),
    Decimal { mantissa: int, scale: nat },
    Bool(bool),
    Null,
    Arr(Seq<DatumV>),
    Obj(Seq<(Seq<char>, DatumV)>),
}

pub open spec fn view_datum(d: Datum) -> DatumV
    decreases d,
    via view_datum_decreases
{
    match d {
        Datum::String(s) => DatumV::Str(s@),
        Datum::Parameter(s) => DatumV::Param(s@),
        Datum::Integer(i) => DatumV::Int(i as int),
        Datum::Decimal(x) => DatumV::Decimal { mantissa: x.mantissa as int, scale: x.scale as nat },
        Datum::Bool(b) => DatumV::Bool(b),
        Datum::Null => DatumV::Null,
        Datum::Array(a) => DatumV::Arr(view_datum_seq(a@)),
        Datum::Object(o) => DatumV::Obj(view_entry_seq(o@)),
    }
}

pub open spec fn view_datum_seq(s: Seq<Datum>) -> Seq<DatumV>
    decreases s,
{
    if s.len() == 0 {
        Seq::empty()
    } else {
        seq![view_datum(s[0])] + view_datum_seq(s.drop_first())
    }
}

pub open spec fn view_entry_seq(s: Seq<(String, Datum)>) -> Seq<(Seq<char>, DatumV)>
    decreases s,
    via view_entry_seq_decreases
{
    if s.len() == 0 {
        Seq::empty()
    } else {
        seq![(s[0].0@, view_datum(s[0].1))] + view_entry_seq(s.drop_first())
    }
}

#[via_fn]
proof fn view_datum_decreases(d: Datum) {
    if let Datum::Array(a) = d {
        assert(decreases_to!(d => a));
        assert(decreases_to!(a => a@));
    }
    if let Datum::Object(o) = d {
        assert(decreases_to!(d => o));
        assert(decreases_to!(o => o@));
    }
}

#[via_fn]
proof fn view_entry_seq_decreases(s: Seq<(String, Datum)>) {
    if s.len() != 0 {
        assert(decreases_to!(s => s[0]));
        assert(decreases_to!(s[0] => s[0].1));
    }
}

impl View for Datum {
    type V = DatumV;

    open spec fn view(&self) -> DatumV {
        view_datum(*self)
    }
}

/// The element views of a sequence of values, read off pointwise.
pub proof fn lemma_view_datum_seq(s: Seq<Datum>)
    ensures
        view_datum_seq(s).len() == s.len(),
        forall|i: int| 0 <= i < s.len() ==> view_datum_seq(s)[i] == view_datum(s[i]),
    decreases s,
{
    if s.len() != 0 {
        lemma_view_datum_seq(s.drop_first());
    }
}

/// The entry views of a sequence of keyed values, read off pointwise.
pub proof fn lemma_view_entry_seq(s: Seq<(String, Datum)>)
    ensures
        view_entry_seq(s).len() == s.len(),
        forall|i: int| 0 <= i < s.len() ==> view_entry_seq(s)[i] == (s[i].0@, view_datum(s[i].1)),
    decreases s,
{
    if s.len() != 0 {
        lemma_view_entry_seq(s.drop_first());
    }
}

// ---------------------------------------------------------------------------
// Scalar expressions
// ---------------------------------------------------------------------------

/// Binary operators. Only `And` and `Or` take part in simplification;
/// the rest pass through untouched.
#[derive(Debug, Clone, Copy, PartialEq, Eq, Structural)]
pub enum BinOp {
    And,
    Or,
    Eq,
    Ne,
    Lt,
    Le,
    Gt,
    Ge,
}

/// Unary operators. Only `Not` takes part in simplification.
#[derive(Debug, Clone, Copy, PartialEq, Eq, Structural)]
pub enum UnOp {
    Not,
}

/// Scalar expression over document fields, used in predicates and evaluations.
#[derive(Debug, PartialEq)]
pub enum Expr {
    Constant(Datum),
    Field { name: String },
    BinaryOp { op: BinOp, left: Box<Expr>, right: Box<Expr> },
    UnaryOp { op: UnOp, expr: Box<Expr> },
}

/// Mathematical model of an `Expr`.
#[verifier::ext_equal]
pub enum ExprV {
    Constant(DatumV),
    Field { name: Seq<char> },
    BinaryOp { op: BinOp, left: Box<ExprV>, right: Box<ExprV> },
    UnaryOp { op: UnOp, expr: Box<ExprV> },
}

pub open spec fn view_expr(e: Expr) -> ExprV
    decreases e,
{
    match e {
        Expr::Constant(d) => ExprV::Constant(view_datum(d)),
        Expr::Field { name } => ExprV::Field { name: name@ },
        Expr::BinaryOp { op, left, right } => ExprV::BinaryOp {
            op,
            left: Box::new(view_expr(*left)),
            right: Box::new(view_expr(*right)),
        },
        Expr::UnaryOp { op, expr } => ExprV::UnaryOp { op, expr: Box::new(view_expr(*expr)) },
    }
}

impl View for Expr {
    type V = ExprV;

    open spec fn view(&self) -> ExprV {
        view_expr(*self)
    }
}

// ---------------------------------------------------------------------------
// Named options
// ---------------------------------------------------------------------------

/// Opaque bag of named options attached to an operation; passed through
/// unchanged, never interpreted by this core. Entries keep insertion order.
#[derive(Debug, PartialEq)]
pub struct OptArgs(pub Vec<(String, Datum)>);

impl View for OptArgs {
    type V = Seq<(Seq<char>, DatumV)>;

    open spec fn view(&self) -> Seq<(Seq<char>, DatumV)> {
        view_entry_seq(self.0@)
    }
}

// ---------------------------------------------------------------------------
// Query terms
// ---------------------------------------------------------------------------

/// The parsed query AST handed in by the external parser. A `db` of `None`
/// means the current default database.
#[derive(Debug, PartialEq)]
pub enum Term {
    Expr(Expr),
    Database { name: String },
    DatabaseCreate { name: String },
    DatabaseDrop { name: String },
    DatabaseList,
    Table { db: Option<String>, name: String },
    TableCreate { db: Option<String>, name: String },
    TableDrop { db: Option<String>, name: String },
    TableList { db: Option<String> },
    Get { table: Box<Term>, key: Datum, opt_args: OptArgs },
    Filter { source: Box<Term>, predicate: Box<Term>, opt_args: OptArgs },
    Insert { table: Box<Term>, documents: Vec<Datum>, opt_args: OptArgs },
    Delete { source: Box<Term>, opt_args: OptArgs },
    Datum(Datum),
}

/// Mathematical model of a `Term`.
#[verifier::ext_equal]
pub enum TermV {
    Expr(ExprV),
    Database { name: Seq<char> },
    DatabaseCreate { name: Seq<char> },
    DatabaseDrop { name: Seq<char> },
    DatabaseList,
    Table { db: Option<Seq<char>>, name: Seq<char> },
    TableCreate { db: Option<Seq<char>>, name: Seq<char> },
    TableDrop { db: Option<Seq<char>>, name: Seq<char> },
    TableList { db: Option<Seq<char>> },
    Get { table: Box<TermV>, key: DatumV, opt_args: Seq<(Seq<char>, DatumV)> },
    Filter { source: Box<TermV>, predicate: Box<TermV>, opt_args: Seq<(Seq<char>, DatumV)> },
    Insert { table: Box<TermV>, documents: Seq<DatumV>, opt_args: Seq<(Seq<char>, DatumV)> },
    Delete { source: Box<TermV>, opt_args: Seq<(Seq<char>, DatumV)> },
    Datum(DatumV),
}

pub open spec fn view_opt_name(db: Option<String>) -> Option<Seq<char>> {
    match db {
        Option::Some(s) => Option::Some(s@),
        Option::None => Option::None,
    }
}

pub open spec fn view_term(t: Term) -> TermV
    decreases t,
{
    match t {
        Term::Expr(e) => TermV::Expr(view_expr(e)),
        Term::Database { name } => TermV::Database { name: name@ },
        Term::DatabaseCreate { name } => TermV::DatabaseCreate { name: name@ },
        Term::DatabaseDrop { name } => TermV::DatabaseDrop { name: name@ },
        Term::DatabaseList => TermV::DatabaseList,
        Term::Table { db, name } => TermV::Table { db: view_opt_name(db), name: name@ },
        Term::TableCreate { db, name } => TermV::TableCreate { db: view_opt_name(db), name: name@ },
        Term::TableDrop { db, name } => TermV::TableDrop { db: view_opt_name(db), name: name@ },
        Term::TableList { db } => TermV::TableList { db: view_opt_name(db) },
        Term::Get { table, key, opt_args } => TermV::Get {
            table: Box::new(view_term(*table)),
            key: view_datum(key),
            opt_args: opt_args@,
        },
        Term::Filter { source, predicate, opt_args } => TermV::Filter {
            source: Box::new(view_term(*source)),
            predicate: Box::new(view_term(*predicate)),
            opt_args: opt_args@,
        },
        Term::Insert { table, documents, opt_args } => TermV::Insert {
            table: Box::new(view_term(*table)),
            documents: view_datum_seq(documents@),
            opt_args: opt_args@,
        },
        Term::Delete { source, opt_args } => TermV::Delete {
            source: Box::new(view_term(*source)),
            opt_args: opt_args@,
        },
        Term::Datum(d) => TermV::Datum(view_datum(d)),
    }
}

impl View for Term {
    type V = TermV;

    open spec fn view(&self) -> TermV {
        view_term(*self)
    }
}

// ---------------------------------------------------------------------------
// Structural copies
// ---------------------------------------------------------------------------

/// Returns a value with the same model as the argument.
pub fn clone_datum(d: &Datum) -> (r: Datum)
    ensures
        r@ == d@,
    decreases *d,
{
    match d {
        Datum::String(s) => Datum::String(s.clone()),
        Datum::Parameter(s) => Datum::Parameter(s.clone()),
        Datum::Integer(i) => Datum::Integer(*i),
        Datum::Decimal(x) => Datum::Decimal(Dec { mantissa: x.mantissa, scale: x.scale }),
        Datum::Bool(b) => Datum::Bool(*b),
        Datum::Null => Datum::Null,
        Datum::Array(a) => {
            let out = clone_datum_vec(a);
            proof {
                lemma_view_datum_seq(out@);
                lemma_view_datum_seq(a@);
                assert(view_datum_seq(out@) =~= view_datum_seq(a@));
            }
            Datum::Array(out)
        },
        Datum::Object(o) => {
            let out = clone_entry_vec(o);
            proof {
                lemma_view_entry_seq(out@);
                lemma_view_entry_seq(o@);
                assert(view_entry_seq(out@) =~= view_entry_seq(o@));
            }
            Datum::Object(out)
        },
    }
}

/// Returns a vector whose elements have the same models as the argument's.
pub fn clone_datum_vec(a: &Vec<Datum>) -> (r: Vec<Datum>)
    ensures
        r@.len() == a@.len(),
        forall|j: int| 0 <= j < a@.len() ==> r@[j]@ == a@[j]@,
    decreases a@,
{
    let mut out: Vec<Datum> = Vec::new();
    let mut i: usize = 0;
    while i < a.len()
        invariant
            i <= a.len(),
            out@.len() == i as nat,
            forall|j: int| 0 <= j < i as int ==> out@[j]@ == a@[j]@,
        decreases a.len() - i,
    {
        proof {
            assert(decreases_to!(a@ => a@[i as int]));
        }
        let e = clone_datum(&a[i]);
        out.push(e);
        i = i + 1;
    }
    out
}

/// Returns a vector whose entries have the same keys and value models as the
/// argument's.
pub fn clone_entry_vec(o: &Vec<(String, Datum)>) -> (r: Vec<(String, Datum)>)
    ensures
        r@.len() == o@.len(),
        forall|j: int| 0 <= j < o@.len() ==> r@[j].0@ == o@[j].0@ && r@[j].1@ == o@[j].1@,
    decreases o@,
{
    let mut out: Vec<(String, Datum)> = Vec::new();
    let mut i: usize = 0;
    while i < o.len()
        invariant
            i <= o.len(),
            out@.len() == i as nat,
            forall|j: int| 0 <= j < i as int ==> out@[j].0@ == o@[j].0@ && out@[j].1@ == o@[j].1@,
        decreases o.len() - i,
    {
        proof {
            assert(decreases_to!(o@ => o@[i as int]));
            assert(decreases_to!(o@[i as int] => o@[i as int].1));
        }
        let k = o[i].0.clone();
        let v = clone_datum(&o[i].1);
        out.push((k, v));
        i = i + 1;
    }
    out
}

/// Returns an expression with the same model as the argument.
pub fn clone_expr(e: &Expr) -> (r: Expr)
    ensures
        r@ == e@,
    decreases *e,
{
    match e {
        Expr::Constant(d) => Expr::Constant(clone_datum(d)),
        Expr::Field { name } => Expr::Field { name: name.clone() },
        Expr::BinaryOp { op, left, right } => Expr::BinaryOp {
            op: *op,
            left: Box::new(clone_expr(left)),
            right: Box::new(clone_expr(right)),
        },
        Expr::UnaryOp { op, expr } => Expr::UnaryOp {
            op: *op,
            expr: Box::new(clone_expr(expr)),
        },
    }
}

/// Returns an option bag with the same model as the argument.
pub fn clone_opt_args(o: &OptArgs) -> (r: OptArgs)
    ensures
        r@ == o@,
{
    let out = clone_entry_vec(&o.0);
    proof {
        lemma_view_entry_seq(out@);
        lemma_view_entry_seq(o.0@);
        assert(view_entry_seq(out@) =~= view_entry_seq(o.0@));
    }
    OptArgs(out)
}

/// Returns an optional name with the same model as the argument.
pub fn clone_opt_name(db: &Option<String>) -> (r: Option<String>)
    ensures
        view_opt_name(r) == view_opt_name(*db),
{
    match db {
        Option::Some(s) => Option::Some(s.clone()),
        Option::None => Option::None,
    }
}

/// Returns a term with the same model as the argument.
pub fn clone_term(t: &Term) -> (r: Term)
    ensures
        r@ == t@,
    decreases *t,
{
    match t {
        Term::Expr(e) => Term::Expr(clone_expr(e)),
        Term::Database { name } => Term::Database { name: name.clone() },
        Term::DatabaseCreate { name } => Term::DatabaseCreate { name: name.clone() },
        Term::DatabaseDrop { name } => Term::DatabaseDrop { name: name.clone() },
        Term::DatabaseList => Term::DatabaseList,
        Term::Table { db, name } => Term::Table { db: clone_opt_name(db), name: name.clone() },
        Term::TableCreate { db, name } => Term::TableCreate {
            db: clone_opt_name(db),
            name: name.clone(),
        },
        Term::TableDrop { db, name } => Term::TableDrop {
            db: clone_opt_name(db),
            name: name.clone(),
        },
        Term::TableList { db } => Term::TableList { db: clone_opt_name(db) },
        Term::Get { table, key, opt_args } => Term::Get {
            table: Box::new(clone_term(table)),
            key: clone_datum(key),
            opt_args: clone_opt_args(opt_args),
        },
        Term::Filter { source, predicate, opt_args } => Term::Filter {
            source: Box::new(clone_term(source)),
            predicate: Box::new(clone_term(predicate)),
            opt_args: clone_opt_args(opt_args),
        },
        Term::Insert { table, documents, opt_args } => {
            let docs = clone_datum_vec(documents);
            proof {
                lemma_view_datum_seq(docs@);
                lemma_view_datum_seq(documents@);
                assert(view_datum_seq(docs@) =~= view_datum_seq(documents@));
            }
            Term::Insert {
                table: Box::new(clone_term(table)),
                documents: docs,
                opt_args: clone_opt_args(opt_args),
            }
        },
        Term::Delete { source, opt_args } => Term::Delete {
            source: Box::new(clone_term(source)),
            opt_args: clone_opt_args(opt_args),
        },
        Term::Datum(d) => Term::Datum(clone_datum(d)),
    }
}

} // verus!
