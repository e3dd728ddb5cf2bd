use vstd::prelude::*;
use crate::ast::{BinOp, Datum, DatumV, Expr, ExprV, OptArgs, Term, TermV, UnOp, clone_datum,
    clone_datum_vec, clone_expr, clone_opt_args, clone_opt_name, clone_term, lemma_view_datum_seq,
    view_datum_seq, view_opt_name};
use crate::render::{datum_list_text, datum_text, expr_text, nat_digits, opt_name_text,
    render_datum, render_datum_list, render_expr, render_term, render_u128, term_text};

verus! {

// ---------------------------------------------------------------------------
// Plan nodes
// ---------------------------------------------------------------------------

/// Compiled, optimizable execution-plan tree. Every child is owned by exactly
/// one parent; the tree is built per request and discarded after it.
#[derive(Debug, PartialEq)]
pub enum PlanNode {
    SelectDatabase { name: String },
    CreateDatabase { name: String },
    DropDatabase { name: String },
    ListDatabases,
    ScanTable { db: Option<String>, name: String },
    CreateTable { db: Option<String>, name: String },
    DropTable { db: Option<String>, name: String },
    ListTables { db: Option<String> },
    GetByKey { db: Option<String>, table: String, key: Datum, opt_args: OptArgs },
    Filter { source: Box<PlanNode>, predicate: Expr, opt_args: OptArgs },
    Insert { table: Box<PlanNode>, documents: Vec<Datum>, opt_args: OptArgs },
    Delete { source: Box<PlanNode>, opt_args: OptArgs },
    Eval { expr: Expr },
    Constant(Datum),
}

/// Mathematical model of a `PlanNode`.
#[verifier::ext_equal]
pub enum PlanV {
    SelectDatabase { name: Seq<char> },
    CreateDatabase { name: Seq<char> },
    DropDatabase { name: Seq<char> },
    ListDatabases,
    ScanTable { db: Option<Seq<char>>, name: Seq<char> },
    CreateTable { db: Option<Seq<char>>, name: Seq<char> },
    DropTable { db: Option<Seq<char>>, name: Seq<char> },
    ListTables { db: Option<Seq<char>> },
    GetByKey { db: Option<Seq<char>>, table: Seq<char>, key: DatumV, opt_args: Seq<(Seq<char>, DatumV)> },
    Filter { source: Box<PlanV>, predicate: ExprV, opt_args: Seq<(Seq<char>, DatumV)> },
    Insert { table: Box<PlanV>, documents: Seq<DatumV>, opt_args: Seq<(Seq<char>, DatumV)> },
    Delete { source: Box<PlanV>, opt_args: Seq<(Seq<char>, DatumV)> },
    Eval { expr: ExprV },
    Constant(DatumV),
}

pub open spec fn view_plan(p: PlanNode) -> PlanV
    decreases p,
{
    match p {
        PlanNode::SelectDatabase { name } => PlanV::SelectDatabase { name: name@ },
        PlanNode::CreateDatabase { name } => PlanV::CreateDatabase { name: name@ },
        PlanNode::DropDatabase { name } => PlanV::DropDatabase { name: name@ },
        PlanNode::ListDatabases => PlanV::ListDatabases,
        PlanNode::ScanTable { db, name } => PlanV::ScanTable { db: view_opt_name(db), name: name@ },
        PlanNode::CreateTable { db, name } => PlanV::CreateTable {
            db: view_opt_name(db),
            name: name@,
        },
        PlanNode::DropTable { db, name } => PlanV::DropTable { db: view_opt_name(db), name: name@ },
        PlanNode::ListTables { db } => PlanV::ListTables { db: view_opt_name(db) },
        PlanNode::GetByKey { db, table, key, opt_args } => PlanV::GetByKey {
            db: view_opt_name(db),
            table: table@,
            key: key@,
            opt_args: opt_args@,
        },
        PlanNode::Filter { source, predicate, opt_args } => PlanV::Filter {
            source: Box::new(view_plan(*source)),
            predicate: predicate@,
            opt_args: opt_args@,
        },
        PlanNode::Insert { table, documents, opt_args } => PlanV::Insert {
            table: Box::new(view_plan(*table)),
            documents: view_datum_seq(documents@),
            opt_args: opt_args@,
        },
        PlanNode::Delete { source, opt_args } => PlanV::Delete {
            source: Box::new(view_plan(*source)),
            opt_args: opt_args@,
        },
        PlanNode::Eval { expr } => PlanV::Eval { expr: expr@ },
        PlanNode::Constant(d) => PlanV::Constant(d@),
    }
}

impl View for PlanNode {
    type V = PlanV;

    open spec fn view(&self) -> PlanV {
        view_plan(*self)
    }
}

// ---------------------------------------------------------------------------
// Compile errors
// ---------------------------------------------------------------------------

/// Why a term could not be compiled; each variant carries the offending term.
#[derive(Debug, PartialEq)]
pub enum PlanError {
    UnsupportedTerm(Term),
    InvalidPredicate(Term),
    InvalidGetTerm(Term),
}

/// Mathematical model of a `PlanError`.
#[verifier::ext_equal]
pub enum PlanErrorV {
    UnsupportedTerm(TermV),
    InvalidPredicate(TermV),
    InvalidGetTerm(TermV),
}

impl View for PlanError {
    type V = PlanErrorV;

    open spec fn view(&self) -> PlanErrorV {
        match self {
            PlanError::UnsupportedTerm(t) => PlanErrorV::UnsupportedTerm(t@),
            PlanError::InvalidPredicate(t) => PlanErrorV::InvalidPredicate(t@),
            PlanError::InvalidGetTerm(t) => PlanErrorV::InvalidGetTerm(t@),
        }
    }
}

/// The diagnostic text of an error: what went wrong, then the offending
/// term.
pub open spec fn plan_error_text(e: PlanErrorV) -> Seq<char> {
    match e {
        PlanErrorV::UnsupportedTerm(t) => "Unsupported term encountered during planning: "@
            + term_text(t),
        PlanErrorV::InvalidPredicate(t) => "Filter predicate is not a boolean expression: "@
            + term_text(t),
        PlanErrorV::InvalidGetTerm(t) => "Get term missing table or key: "@ + term_text(t),
    }
}

impl PlanError {
    /// Diagnostic text for this error, naming the offending term.
    pub fn message(&self) -> (s: String)
        ensures
            s@ == plan_error_text(self@),
    {
        match self {
            PlanError::UnsupportedTerm(t) => {
                let mut s = String::from_str("Unsupported term encountered during planning: ");
                let body = render_term(t);
                s.append(body.as_str());
                s
            },
            PlanError::InvalidPredicate(t) => {
                let mut s = String::from_str("Filter predicate is not a boolean expression: ");
                let body = render_term(t);
                s.append(body.as_str());
                s
            },
            PlanError::InvalidGetTerm(t) => {
                let mut s = String::from_str("Get term missing table or key: ");
                let body = render_term(t);
                s.append(body.as_str());
                s
            },
        }
    }
}

// ---------------------------------------------------------------------------
// Compact plan rendering
// ---------------------------------------------------------------------------

/// One-line rendering of a plan node, used as the table name when a `Get`
/// names its table by a computed sub-plan rather than a literal table term.
/// This deliberately fixes the library's own form for that name, in place
/// of the text a std-derived `Debug` would print: a derived `Debug`
/// rendering cannot be specified here, and a client-visible name must be
/// pinned by the contract.
pub open spec fn plan_text(p: PlanV) -> Seq<char>
    decreases p,
{
    match p {
        PlanV::SelectDatabase { name } => "SelectDatabase("@ + name + ")"@,
        PlanV::CreateDatabase { name } => "CreateDatabase("@ + name + ")"@,
        PlanV::DropDatabase { name } => "DropDatabase("@ + name + ")"@,
        PlanV::ListDatabases => "ListDatabases"@,
        PlanV::ScanTable { db, name } => "ScanTable("@ + opt_name_text(db) + ","@ + name + ")"@,
        PlanV::CreateTable { db, name } => "CreateTable("@ + opt_name_text(db) + ","@ + name
            + ")"@,
        PlanV::DropTable { db, name } => "DropTable("@ + opt_name_text(db) + ","@ + name + ")"@,
        PlanV::ListTables { db } => "ListTables("@ + opt_name_text(db) + ")"@,
        PlanV::GetByKey { db, table, key, .. } => "GetByKey("@ + opt_name_text(db) + ","@ + table
            + ","@ + datum_text(key) + ")"@,
        PlanV::Filter { source, predicate, .. } => "Filter("@ + plan_text(*source) + ","@
            + expr_text(predicate) + ")"@,
        PlanV::Insert { table, documents, .. } => "Insert("@ + plan_text(*table) + ",["@
            + datum_list_text(documents, 0) + "])"@,
        PlanV::Delete { source, .. } => "Delete("@ + plan_text(*source) + ")"@,
        PlanV::Eval { expr } => "Eval("@ + expr_text(expr) + ")"@,
        PlanV::Constant(d) => "Constant("@ + datum_text(d) + ")"@,
    }
}

fn opt_name_str(db: &Option<String>) -> (s: String)
    ensures
        s@ == opt_name_text(view_opt_name(*db)),
{
    match db {
        Option::Some(name) => name.clone(),
        Option::None => String::new(),
    }
}

/// Renders a plan node as a single line of text.
pub fn render_plan(p: &PlanNode) -> (s: String)
    ensures
        s@ == plan_text(p@),
    decreases *p,
{
    match p {
        PlanNode::SelectDatabase { name } => {
            let mut s = String::from_str("SelectDatabase(");
            s.append(name.as_str());
            s.append(")");
            s
        },
        PlanNode::CreateDatabase { name } => {
            let mut s = String::from_str("CreateDatabase(");
            s.append(name.as_str());
            s.append(")");
            s
        },
        PlanNode::DropDatabase { name } => {
            let mut s = String::from_str("DropDatabase(");
            s.append(name.as_str());
            s.append(")");
            s
        },
        PlanNode::ListDatabases => String::from_str("ListDatabases"),
        PlanNode::ScanTable { db, name } => {
            let mut s = String::from_str("ScanTable(");
            let d = opt_name_str(db);
            s.append(d.as_str());
            s.append(",");
            s.append(name.as_str());
            s.append(")");
            s
        },
        PlanNode::CreateTable { db, name } => {
            let mut s = String::from_str("CreateTable(");
            let d = opt_name_str(db);
            s.append(d.as_str());
            s.append(",");
            s.append(name.as_str());
            s.append(")");
            s
        },
        PlanNode::DropTable { db, name } => {
            let mut s = String::from_str("DropTable(");
            let d = opt_name_str(db);
            s.append(d.as_str());
            s.append(",");
            s.append(name.as_str());
            s.append(")");
            s
        },
        PlanNode::ListTables { db } => {
            let mut s = String::from_str("ListTables(");
            let d = opt_name_str(db);
            s.append(d.as_str());
            s.append(")");
            s
        },
        PlanNode::GetByKey { db, table, key, .. } => {
            let mut s = String::from_str("GetByKey(");
            let d = opt_name_str(db);
            s.append(d.as_str());
            s.append(",");
            s.append(table.as_str());
            s.append(",");
            let k = render_datum(key);
            s.append(k.as_str());
            s.append(")");
            s
        },
        PlanNode::Filter { source, predicate, .. } => {
            let mut s = String::from_str("Filter(");
            let src = render_plan(source);
            s.append(src.as_str());
            s.append(",");
            let pred = render_expr(predicate);
            s.append(pred.as_str());
            s.append(")");
            s
        },
        PlanNode::Insert { table, documents, .. } => {
            let mut s = String::from_str("Insert(");
            let tbl = render_plan(table);
            s.append(tbl.as_str());
            s.append(",[");
            let docs = render_datum_list(documents, 0);
            s.append(docs.as_str());
            s.append("])");
            s
        },
        PlanNode::Delete { source, .. } => {
            let mut s = String::from_str("Delete(");
            let src = render_plan(source);
            s.append(src.as_str());
            s.append(")");
            s
        },
        PlanNode::Eval { expr } => {
            let mut s = String::from_str("Eval(");
            let e = render_expr(expr);
            s.append(e.as_str());
            s.append(")");
            s
        },
        PlanNode::Constant(d) => {
            let mut s = String::from_str("Constant(");
            let v = render_datum(d);
            s.append(v.as_str());
            s.append(")");
            s
        },
    }
}

// ---------------------------------------------------------------------------
// Expression simplification
// ---------------------------------------------------------------------------

/// Bottom-up rewrite of a scalar expression: boolean identity and absorption
/// rules for `And`/`Or`, constant folding for `Not`; all other operators are
/// rebuilt with simplified children, never folded.
pub open spec fn spec_simplify(e: ExprV) -> ExprV
    decreases e,
{
    match e {
        ExprV::Constant(_) => e,
        ExprV::Field { .. } => e,
        ExprV::BinaryOp { op, left, right } => {
            let l = spec_simplify(*left);
            let r = spec_simplify(*right);
            match op {
                BinOp::And => if l == ExprV::Constant(DatumV::Bool(true)) {
                    r
                } else if r == ExprV::Constant(DatumV::Bool(true)) {
                    l
                } else if l == ExprV::Constant(DatumV::Bool(false)) || r == ExprV::Constant(
                    DatumV::Bool(false),
                ) {
                    ExprV::Constant(DatumV::Bool(false))
                } else {
                    ExprV::BinaryOp { op, left: Box::new(l), right: Box::new(r) }
                },
                BinOp::Or => if l == ExprV::Constant(DatumV::Bool(false)) {
                    r
                } else if r == ExprV::Constant(DatumV::Bool(false)) {
                    l
                } else if l == ExprV::Constant(DatumV::Bool(true)) || r == ExprV::Constant(
                    DatumV::Bool(true),
                ) {
                    ExprV::Constant(DatumV::Bool(true))
                } else {
                    ExprV::BinaryOp { op, left: Box::new(l), right: Box::new(r) }
                },
                _ => ExprV::BinaryOp { op, left: Box::new(l), right: Box::new(r) },
            }
        },
        ExprV::UnaryOp { op, expr } => {
            let s = spec_simplify(*expr);
            match op {
                UnOp::Not => match s {
                    ExprV::Constant(DatumV::Bool(b)) => ExprV::Constant(DatumV::Bool(!b)),
                    _ => ExprV::UnaryOp { op, expr: Box::new(s) },
                },
            }
        },
    }
}

/// True exactly when the expression is the boolean constant `b`.
fn is_const_bool(e: &Expr, b: bool) -> (r: bool)
    ensures
        r == (e@ == ExprV::Constant(DatumV::Bool(b))),
{
    match e {
        Expr::Constant(d) => match d {
            Datum::Bool(x) => *x == b,
            _ => false,
        },
        _ => false,
    }
}

// ---------------------------------------------------------------------------
// Plan-level optimization
// ---------------------------------------------------------------------------

/// Tree rewrite of a plan: filters get simplified predicates, a trivially
/// true filter disappears, a trivially false one short-circuits to an empty
/// constant result without its source being optimized; evaluations get
/// simplified expressions; everything else passes through. Total: it cannot
/// fail.
pub open spec fn spec_optimize(p: PlanV) -> PlanV
    decreases p,
{
    match p {
        PlanV::Filter { source, predicate, opt_args } => {
            let pred = spec_simplify(predicate);
            if pred == ExprV::Constant(DatumV::Bool(true)) {
                spec_optimize(*source)
            } else if pred == ExprV::Constant(DatumV::Bool(false)) {
                PlanV::Constant(DatumV::Arr(Seq::empty()))
            } else {
                PlanV::Filter { source: Box::new(spec_optimize(*source)), predicate: pred, opt_args }
            }
        },
        PlanV::Insert { table, documents, opt_args } => PlanV::Insert {
            table: Box::new(spec_optimize(*table)),
            documents,
            opt_args,
        },
        PlanV::Delete { source, opt_args } => PlanV::Delete {
            source: Box::new(spec_optimize(*source)),
            opt_args,
        },
        PlanV::Eval { expr } => PlanV::Eval { expr: spec_simplify(expr) },
        _ => p,
    }
}

// ---------------------------------------------------------------------------
// Term-to-plan compilation
// ---------------------------------------------------------------------------

/// Resolves the table reference of a get: a literal table term gives its
/// database and name directly; any other term is compiled and its one-line
/// rendering stands in as the table name, with no database. Then the key must
/// be a string value.
pub open spec fn spec_plan_get(
    table: TermV,
    key: DatumV,
    opt_args: Seq<(Seq<char>, DatumV)>,
) -> Result<PlanV, PlanErrorV>
    decreases table, 1nat,
{
    let resolved: Result<(Option<Seq<char>>, Seq<char>), PlanErrorV> = match table {
        TermV::Table { db, name } => Ok((db, name)),
        _ => match spec_plan(table) {
            Ok(p) => Ok((Option::None, plan_text(p))),
            Err(e) => Err(e),
        },
    };
    match resolved {
        Ok(pair) => match key {
            DatumV::Str(s) => Ok(
                PlanV::GetByKey { db: pair.0, table: pair.1, key: DatumV::Str(s), opt_args },
            ),
            _ => Err(PlanErrorV::InvalidGetTerm(TermV::Datum(key))),
        },
        Err(e) => Err(e),
    }
}

/// Structure-preserving translation of a term into a plan, with validation:
/// a filter's predicate must be a scalar expression, a get's key must be a
/// string, and a bare value is not a query.
pub open spec fn spec_plan(t: TermV) -> Result<PlanV, PlanErrorV>
    decreases t, 0nat,
{
    match t {
        TermV::Expr(e) => Ok(PlanV::Eval { expr: e }),
        TermV::Database { name } => Ok(PlanV::SelectDatabase { name }),
        TermV::DatabaseCreate { name } => Ok(PlanV::CreateDatabase { name }),
        TermV::DatabaseDrop { name } => Ok(PlanV::DropDatabase { name }),
        TermV::DatabaseList => Ok(PlanV::ListDatabases),
        TermV::Table { db, name } => Ok(PlanV::ScanTable { db, name }),
        TermV::TableCreate { db, name } => Ok(PlanV::CreateTable { db, name }),
        TermV::TableDrop { db, name } => Ok(PlanV::DropTable { db, name }),
        TermV::TableList { db } => Ok(PlanV::ListTables { db }),
        TermV::Get { table, key, opt_args } => spec_plan_get(*table, key, opt_args),
        TermV::Filter { source, predicate, opt_args } => match *predicate {
            TermV::Expr(e) => match spec_plan(*source) {
                Ok(p) => Ok(PlanV::Filter { source: Box::new(p), predicate: e, opt_args }),
                Err(err) => Err(err),
            },
            _ => Err(PlanErrorV::InvalidPredicate(*predicate)),
        },
        TermV::Insert { table, documents, opt_args } => match spec_plan(*table) {
            Ok(p) => Ok(PlanV::Insert { table: Box::new(p), documents, opt_args }),
            Err(err) => Err(err),
        },
        TermV::Delete { source, opt_args } => match spec_plan(*source) {
            Ok(p) => Ok(PlanV::Delete { source: Box::new(p), opt_args }),
            Err(err) => Err(err),
        },
        TermV::Datum(_) => Err(PlanErrorV::UnsupportedTerm(t)),
    }
}

// ---------------------------------------------------------------------------
// Plan explanation
// ---------------------------------------------------------------------------

/// Two spaces of padding per indent level.
pub open spec fn pad_text(indent: nat) -> Seq<char>
    decreases indent,
{
    if indent == 0 {
        Seq::empty()
    } else {
        pad_text((indent - 1) as nat) + "  "@
    }
}

/// The indent one level deeper. It is pinned at the top of `usize`, a depth
/// no plan held in memory can reach.
pub open spec fn next_indent(indent: nat) -> nat {
    if indent < usize::MAX as nat {
        indent + 1
    } else {
        indent
    }
}

/// Multi-line rendering of a plan for diagnostics: one line per operator with
/// its key scalar fields, children indented one level deeper. A table scan
/// renders its database as a synthetic select-database line below it.
pub open spec fn explain_text(p: PlanV, indent: nat) -> Seq<char>
    decreases p,
{
    match p {
        PlanV::SelectDatabase { name } => pad_text(indent) + "SelectDatabase: "@ + name,
        PlanV::CreateDatabase { name } => pad_text(indent) + "CreateDatabase: "@ + name,
        PlanV::DropDatabase { name } => pad_text(indent) + "DropDatabase: "@ + name,
        PlanV::ListDatabases => pad_text(indent) + "ListDatabases"@,
        PlanV::ScanTable { db, name } => pad_text(indent) + "ScanTable: "@ + name + "\n"@
            + pad_text(next_indent(indent)) + "SelectDatabase: "@ + opt_name_text(db),
        PlanV::CreateTable { name, .. } => pad_text(indent) + "CreateTable: "@ + name,
        PlanV::DropTable { name, .. } => pad_text(indent) + "DropTable: "@ + name,
        PlanV::ListTables { .. } => pad_text(indent) + "ListTables"@,
        PlanV::GetByKey { table, key, .. } => pad_text(indent) + "GetByKey: table="@ + table
            + ", key="@ + datum_text(key),
        PlanV::Filter { source, predicate, .. } => pad_text(indent) + "Filter: "@ + expr_text(
            predicate,
        ) + "\n"@ + explain_text(*source, next_indent(indent)),
        PlanV::Insert { table, documents, .. } => pad_text(indent) + "Insert "@ + nat_digits(
            documents.len(),
        ) + " docs\n"@ + explain_text(*table, next_indent(indent)),
        PlanV::Delete { source, .. } => pad_text(indent) + "Delete\n"@ + explain_text(
            *source,
            next_indent(indent),
        ),
        PlanV::Eval { expr } => pad_text(indent) + "Eval: "@ + expr_text(expr),
        PlanV::Constant(d) => pad_text(indent) + "Constant: "@ + datum_text(d),
    }
}

fn make_pad(indent: usize) -> (s: String)
    ensures
        s@ == pad_text(indent as nat),
{
    let mut s = String::new();
    let mut i: usize = 0;
    while i < indent
        invariant
            i <= indent,
            s@ == pad_text(i as nat),
        decreases indent - i,
    {
        s.append("  ");
        i = i + 1;
    }
    s
}

// ---------------------------------------------------------------------------
// The planner
// ---------------------------------------------------------------------------

/// Compiles terms into plans, optimizes plans, and renders them.
pub struct Planner;

impl Planner {
    pub fn new() -> (r: Self) {
        Planner
    }

    /// Compiles a term into a plan, or reports which part of it is invalid.
    #[verifier::rlimit(60)]
    pub fn plan(&self, term: &Term) -> (r: Result<PlanNode, PlanError>)
        ensures
            (match r {
                Ok(p) => spec_plan(term@) == Ok::<PlanV, PlanErrorV>(p@),
                Err(e) => spec_plan(term@) == Err::<PlanV, PlanErrorV>(e@),
            }),
        decreases *term,
    {
        proof {
            reveal_with_fuel(spec_plan, 3);
            reveal_with_fuel(spec_plan_get, 2);
        }
        match term {
            Term::Expr(e) => Ok(PlanNode::Eval { expr: clone_expr(e) }),
            Term::Database { name } => Ok(PlanNode::SelectDatabase { name: name.clone() }),
            Term::DatabaseCreate { name } => Ok(PlanNode::CreateDatabase { name: name.clone() }),
            Term::DatabaseDrop { name } => Ok(PlanNode::DropDatabase { name: name.clone() }),
            Term::DatabaseList => Ok(PlanNode::ListDatabases),
            Term::Table { db, name } => Ok(
                PlanNode::ScanTable { db: clone_opt_name(db), name: name.clone() },
            ),
            Term::TableCreate { db, name } => Ok(
                PlanNode::CreateTable { db: clone_opt_name(db), name: name.clone() },
            ),
            Term::TableDrop { db, name } => Ok(
                PlanNode::DropTable { db: clone_opt_name(db), name: name.clone() },
            ),
            Term::TableList { db } => Ok(PlanNode::ListTables { db: clone_opt_name(db) }),
            Term::Get { table, key, opt_args } => {
                let ghost tv: TermV = (**table)@;
                let ghost kv: DatumV = key@;
                let ghost ov: Seq<(Seq<char>, DatumV)> = opt_args@;
                proof {
                    assert(spec_plan(term@) == spec_plan_get(tv, kv, ov));
                }
                let resolved: (Option<String>, String);
                match &**table {
                    Term::Table { db, name } => {
                        resolved = (clone_opt_name(db), name.clone());
                        proof {
                            assert(tv matches TermV::Table { db: dv, name: nv }
                                && view_opt_name(resolved.0) == dv && resolved.1@ == nv);
                        }
                    },
                    _ => {
                        proof {
                            assert(!(tv is Table));
                        }
                        match self.plan(table) {
                            Ok(p) => {
                                resolved = (Option::None, render_plan(&p));
                                proof {
                                    assert(spec_plan(tv) == Ok::<PlanV, PlanErrorV>(p@));
                                    assert(resolved.1@ == plan_text(p@));
                                }
                            },
                            Err(e) => {
                                return Err(e);
                            },
                        }
                    },
                }
                match key {
                    Datum::String(s) => Ok(PlanNode::GetByKey {
                        db: resolved.0,
                        table: resolved.1,
                        key: Datum::String(s.clone()),
                        opt_args: clone_opt_args(opt_args),
                    }),
                    _ => Err(PlanError::InvalidGetTerm(Term::Datum(clone_datum(key)))),
                }
            },
            Term::Filter { source, predicate, opt_args } => {
                let ghost sv: TermV = (**source)@;
                let ghost pv: TermV = (**predicate)@;
                proof {
                    assert(term@ matches TermV::Filter { source: s2, predicate: p2, opt_args: o2 }
                        && *s2 == sv && *p2 == pv && o2 == opt_args@);
                }
                match &**predicate {
                    Term::Expr(e) => {
                        proof {
                            assert(pv == TermV::Expr(e@));
                        }
                        match self.plan(source) {
                            Ok(p) => {
                                proof {
                                    assert(spec_plan(sv) == Ok::<PlanV, PlanErrorV>(p@));
                                    assert(spec_plan(term@) == Ok::<PlanV, PlanErrorV>(
                                        PlanV::Filter {
                                            source: Box::new(p@),
                                            predicate: e@,
                                            opt_args: opt_args@,
                                        },
                                    ));
                                }
                                Ok(PlanNode::Filter {
                                    source: Box::new(p),
                                    predicate: clone_expr(e),
                                    opt_args: clone_opt_args(opt_args),
                                })
                            },
                            Err(err) => Err(err),
                        }
                    },
                    _ => Err(PlanError::InvalidPredicate(clone_term(predicate))),
                }
            },
            Term::Insert { table, documents, opt_args } => match self.plan(table) {
                Ok(p) => {
                    let docs = clone_datum_vec(documents);
                    proof {
                        lemma_view_datum_seq(docs@);
                        lemma_view_datum_seq(documents@);
                        assert(view_datum_seq(docs@) =~= view_datum_seq(documents@));
                    }
                    Ok(PlanNode::Insert {
                        table: Box::new(p),
                        documents: docs,
                        opt_args: clone_opt_args(opt_args),
                    })
                },
                Err(err) => Err(err),
            },
            Term::Delete { source, opt_args } => match self.plan(source) {
                Ok(p) => Ok(
                    PlanNode::Delete { source: Box::new(p), opt_args: clone_opt_args(opt_args) },
                ),
                Err(err) => Err(err),
            },
            Term::Datum(_) => Err(PlanError::UnsupportedTerm(clone_term(term))),
        }
    }

    /// Simplifies a scalar expression bottom-up.
    pub fn simplify_expr(expr: Expr) -> (r: Expr)
        ensures
            r@ == spec_simplify(expr@),
        decreases expr,
    {
        match expr {
            Expr::Constant(d) => Expr::Constant(d),
            Expr::Field { name } => Expr::Field { name },
            Expr::BinaryOp { op, left, right } => {
                let l = Self::simplify_expr(*left);
                let r = Self::simplify_expr(*right);
                match op {
                    BinOp::And => {
                        if is_const_bool(&l, true) {
                            r
                        } else if is_const_bool(&r, true) {
                            l
                        } else if is_const_bool(&l, false) || is_const_bool(&r, false) {
                            Expr::Constant(Datum::Bool(false))
                        } else {
                            Expr::BinaryOp { op, left: Box::new(l), right: Box::new(r) }
                        }
                    },
                    BinOp::Or => {
                        if is_const_bool(&l, false) {
                            r
                        } else if is_const_bool(&r, false) {
                            l
                        } else if is_const_bool(&l, true) || is_const_bool(&r, true) {
                            Expr::Constant(Datum::Bool(true))
                        } else {
                            Expr::BinaryOp { op, left: Box::new(l), right: Box::new(r) }
                        }
                    },
                    _ => Expr::BinaryOp { op, left: Box::new(l), right: Box::new(r) },
                }
            },
            Expr::UnaryOp { op, expr } => {
                let s = Self::simplify_expr(*expr);
                match op {
                    UnOp::Not => match s {
                        Expr::Constant(Datum::Bool(b)) => Expr::Constant(Datum::Bool(!b)),
                        other => Expr::UnaryOp { op, expr: Box::new(other) },
                    },
                }
            },
        }
    }

    /// Rewrites a plan into an equivalent, simpler plan. Total: never fails.
    /// A filter whose predicate simplifies to a false constant short-circuits
    /// to an empty constant result, and its source is not optimized.
    pub fn optimize(&self, plan: PlanNode) -> (r: PlanNode)
        ensures
            r@ == spec_optimize(plan@),
        decreases plan,
    {
        match plan {
            PlanNode::Filter { source, predicate, opt_args } => {
                let pred = Self::simplify_expr(predicate);
                if is_const_bool(&pred, true) {
                    self.optimize(*source)
                } else if is_const_bool(&pred, false) {
                    PlanNode::Constant(Datum::Array(Vec::new()))
                } else {
                    PlanNode::Filter {
                        source: Box::new(self.optimize(*source)),
                        predicate: pred,
                        opt_args,
                    }
                }
            },
            PlanNode::Insert { table, documents, opt_args } => PlanNode::Insert {
                table: Box::new(self.optimize(*table)),
                documents,
                opt_args,
            },
            PlanNode::Delete { source, opt_args } => PlanNode::Delete {
                source: Box::new(self.optimize(*source)),
                opt_args,
            },
            PlanNode::Eval { expr } => PlanNode::Eval { expr: Self::simplify_expr(expr) },
            other => other,
        }
    }

    /// Renders a plan as indented lines of text for diagnostics.
    pub fn explain(&self, plan: &PlanNode, indent: usize) -> (s: String)
        ensures
            s@ == explain_text(plan@, indent as nat),
        decreases *plan,
    {
        let next: usize = if indent < usize::MAX {
            indent + 1
        } else {
            indent
        };
        match plan {
            PlanNode::SelectDatabase { name } => {
                let mut s = make_pad(indent);
                s.append("SelectDatabase: ");
                s.append(name.as_str());
                s
            },
            PlanNode::CreateDatabase { name } => {
                let mut s = make_pad(indent);
                s.append("CreateDatabase: ");
                s.append(name.as_str());
                s
            },
            PlanNode::DropDatabase { name } => {
                let mut s = make_pad(indent);
                s.append("DropDatabase: ");
                s.append(name.as_str());
                s
            },
            PlanNode::ListDatabases => {
                let mut s = make_pad(indent);
                s.append("ListDatabases");
                s
            },
            PlanNode::ScanTable { db, name } => {
                let mut s = make_pad(indent);
                s.append("ScanTable: ");
                s.append(name.as_str());
                s.append("\n");
                let pad2 = make_pad(next);
                s.append(pad2.as_str());
                s.append("SelectDatabase: ");
                let d = opt_name_str(db);
                s.append(d.as_str());
                s
            },
            PlanNode::CreateTable { name, .. } => {
                let mut s = make_pad(indent);
                s.append("CreateTable: ");
                s.append(name.as_str());
                s
            },
            PlanNode::DropTable { name, .. } => {
                let mut s = make_pad(indent);
                s.append("DropTable: ");
                s.append(name.as_str());
                s
            },
            PlanNode::ListTables { .. } => {
                let mut s = make_pad(indent);
                s.append("ListTables");
                s
            },
            PlanNode::GetByKey { table, key, .. } => {
                let mut s = make_pad(indent);
                s.append("GetByKey: table=");
                s.append(table.as_str());
                s.append(", key=");
                let k = render_datum(key);
                s.append(k.as_str());
                s
            },
            PlanNode::Filter { source, predicate, .. } => {
                let mut s = make_pad(indent);
                s.append("Filter: ");
                let pred = render_expr(predicate);
                s.append(pred.as_str());
                s.append("\n");
                let sub = self.explain(source, next);
                s.append(sub.as_str());
                s
            },
            PlanNode::Insert { table, documents, .. } => {
                let mut s = make_pad(indent);
                s.append("Insert ");
                let count = render_u128(documents.len() as u128);
                s.append(count.as_str());
                s.append(" docs\n");
                let sub = self.explain(table, next);
                s.append(sub.as_str());
                proof {
                    lemma_view_datum_seq(documents@);
                }
                s
            },
            PlanNode::Delete { source, .. } => {
                let mut s = make_pad(indent);
                s.append("Delete\n");
                let sub = self.explain(source, next);
                s.append(sub.as_str());
                s
            },
            PlanNode::Eval { expr } => {
                let mut s = make_pad(indent);
                s.append("Eval: ");
                let e = render_expr(expr);
                s.append(e.as_str());
                s
            },
            PlanNode::Constant(d) => {
                let mut s = make_pad(indent);
                s.append("Constant: ");
                let v = render_datum(d);
                s.append(v.as_str());
                s
            },
        }
    }
}

// ---------------------------------------------------------------------------
// Laws of simplification and optimization
// ---------------------------------------------------------------------------

/// A conjunction with a true constant on either side simplifies to the
/// simplified other operand.
pub proof fn lemma_and_true_identity(e: ExprV)
    ensures
        spec_simplify(
            ExprV::BinaryOp {
                op: BinOp::And,
                left: Box::new(ExprV::Constant(DatumV::Bool(true))),
                right: Box::new(e),
            },
        ) == spec_simplify(e),
        spec_simplify(
            ExprV::BinaryOp {
                op: BinOp::And,
                left: Box::new(e),
                right: Box::new(ExprV::Constant(DatumV::Bool(true))),
            },
        ) == spec_simplify(e),
{
    reveal_with_fuel(spec_simplify, 3);
}

/// A disjunction with a false constant on either side simplifies to the
/// simplified other operand.
pub proof fn lemma_or_false_identity(e: ExprV)
    ensures
        spec_simplify(
            ExprV::BinaryOp {
                op: BinOp::Or,
                left: Box::new(ExprV::Constant(DatumV::Bool(false))),
                right: Box::new(e),
            },
        ) == spec_simplify(e),
        spec_simplify(
            ExprV::BinaryOp {
                op: BinOp::Or,
                left: Box::new(e),
                right: Box::new(ExprV::Constant(DatumV::Bool(false))),
            },
        ) == spec_simplify(e),
{
    reveal_with_fuel(spec_simplify, 3);
}

/// A conjunction with a false constant on either side simplifies to the
/// false constant.
pub proof fn lemma_and_false_annihilates(e: ExprV)
    ensures
        spec_simplify(
            ExprV::BinaryOp {
                op: BinOp::And,
                left: Box::new(e),
                right: Box::new(ExprV::Constant(DatumV::Bool(false))),
            },
        ) == ExprV::Constant(DatumV::Bool(false)),
        spec_simplify(
            ExprV::BinaryOp {
                op: BinOp::And,
                left: Box::new(ExprV::Constant(DatumV::Bool(false))),
                right: Box::new(e),
            },
        ) == ExprV::Constant(DatumV::Bool(false)),
{
    reveal_with_fuel(spec_simplify, 3);
}

/// A disjunction with a true constant on either side simplifies to the true
/// constant.
pub proof fn lemma_or_true_annihilates(e: ExprV)
    ensures
        spec_simplify(
            ExprV::BinaryOp {
                op: BinOp::Or,
                left: Box::new(e),
                right: Box::new(ExprV::Constant(DatumV::Bool(true))),
            },
        ) == ExprV::Constant(DatumV::Bool(true)),
        spec_simplify(
            ExprV::BinaryOp {
                op: BinOp::Or,
                left: Box::new(ExprV::Constant(DatumV::Bool(true))),
                right: Box::new(e),
            },
        ) == ExprV::Constant(DatumV::Bool(true)),
{
    reveal_with_fuel(spec_simplify, 3);
}

/// Negation of a boolean constant folds to the opposite constant.
pub proof fn lemma_not_constant_folds(b: bool)
    ensures
        spec_simplify(
            ExprV::UnaryOp {
                op: UnOp::Not,
                expr: Box::new(ExprV::Constant(DatumV::Bool(b))),
            },
        ) == ExprV::Constant(DatumV::Bool(!b)),
{
    reveal_with_fuel(spec_simplify, 3);
}

/// A filter whose predicate is the true constant optimizes to whatever its
/// source optimizes to, for any source.
pub proof fn lemma_optimize_filter_true(source: PlanV, opt_args: Seq<(Seq<char>, DatumV)>)
    ensures
        spec_optimize(
            PlanV::Filter {
                source: Box::new(source),
                predicate: ExprV::Constant(DatumV::Bool(true)),
                opt_args,
            },
        ) == spec_optimize(source),
{
    reveal_with_fuel(spec_optimize, 2);
    reveal_with_fuel(spec_simplify, 2);
}

/// A filter whose predicate is the false constant optimizes to an empty
/// constant array, whatever its source; the result does not depend on the
/// source at all.
pub proof fn lemma_optimize_filter_false(source: PlanV, opt_args: Seq<(Seq<char>, DatumV)>)
    ensures
        spec_optimize(
            PlanV::Filter {
                source: Box::new(source),
                predicate: ExprV::Constant(DatumV::Bool(false)),
                opt_args,
            },
        ) == PlanV::Constant(DatumV::Arr(Seq::empty())),
{
    reveal_with_fuel(spec_optimize, 2);
    reveal_with_fuel(spec_simplify, 2);
}

} // verus!
