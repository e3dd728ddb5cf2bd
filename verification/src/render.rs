use vstd::prelude::*;
use crate::ast::{BinOp, Datum, DatumV, Expr, ExprV, Term, TermV, UnOp, lemma_view_datum_seq,
    lemma_view_entry_seq, view_datum_seq, view_entry_seq};

verus! {

// ---------------------------------------------------------------------------
// Decimal digits
// ---------------------------------------------------------------------------

pub open spec fn digit_chars(d: nat) -> Seq<char> {
    if d == 0 {
        "0"@
    } else if d == 1 {
        "1"@
    } else if d == 2 {
        "2"@
    } else if d == 3 {
        "3"@
    } else if d == 4 {
        "4"@
    } else if d == 5 {
        "5"@
    } else if d == 6 {
        "6"@
    } else if d == 7 {
        "7"@
    } else if d == 8 {
        "8"@
    } else {
        "9"@
    }
}

/// The usual base-ten rendering of a natural number, most significant digit
/// first, with no leading zeroes (except for zero itself).
pub open spec fn nat_digits(n: nat) -> Seq<char>
    decreases n,
{
    if n < 10 {
        digit_chars(n)
    } else {
        nat_digits(n / 10) + digit_chars(n % 10)
    }
}

/// Base-ten rendering of an integer, with a leading minus sign if negative.
pub open spec fn int_digits(i: int) -> Seq<char> {
    if i < 0 {
        "-"@ + nat_digits((-i) as nat)
    } else {
        nat_digits(i as nat)
    }
}

fn digit_str(d: u128) -> (r: &'static str)
    requires
        d < 10,
    ensures
        r@ == digit_chars(d as nat),
{
    if d == 0 {
        "0"
    } else if d == 1 {
        "1"
    } else if d == 2 {
        "2"
    } else if d == 3 {
        "3"
    } else if d == 4 {
        "4"
    } else if d == 5 {
        "5"
    } else if d == 6 {
        "6"
    } else if d == 7 {
        "7"
    } else if d == 8 {
        "8"
    } else {
        "9"
    }
}

/// Renders a natural number in base ten.
pub fn render_u128(n: u128) -> (s: String)
    ensures
        s@ == nat_digits(n as nat),
    decreases n,
{
    if n < 10 {
        String::from_str(digit_str(n))
    } else {
        let mut s = render_u128(n / 10);
        s.append(digit_str(n % 10));
        s
    }
}

/// Renders an integer in base ten, with a leading minus sign if negative.
pub fn render_i128(i: i128) -> (s: String)
    ensures
        s@ == int_digits(i as int),
{
    if i < 0 {
        let mag: u128 = ((-(i + 1)) as u128) + 1;
        let mut s = String::from_str("-");
        let digits = render_u128(mag);
        s.append(digits.as_str());
        s
    } else {
        render_u128(i as u128)
    }
}

/// Renders a machine integer in base ten.
pub fn render_i64(i: i64) -> (s: String)
    ensures
        s@ == int_digits(i as int),
{
    render_i128(i as i128)
}

// ---------------------------------------------------------------------------
// Values
// ---------------------------------------------------------------------------

pub open spec fn opt_name_text(db: Option<Seq<char>>) -> Seq<char> {
    match db {
        Option::Some(s) => s,
        Option::None => Seq::empty(),
    }
}

/// One-line rendering of a value: strings quoted, parameters marked `$`,
/// arrays bracketed, objects braced, entries in order.
pub open spec fn datum_text(d: DatumV) -> Seq<char>
    decreases d, 0nat, 0nat,
{
    match d {
        DatumV::Str(s) => "\""@ + s + "\""@,
        DatumV::Param(s) => "$"@ + s,
        DatumV::Int(i) => int_digits(i),
        DatumV::Decimal { mantissa, scale } => "dec("@ + int_digits(mantissa) + ","@ + nat_digits(
            scale,
        ) + ")"@,
        DatumV::Bool(b) => if b {
            "true"@
        } else {
            "false"@
        },
        DatumV::Null => "null"@,
        DatumV::Arr(items) => "["@ + datum_list_text(items, 0) + "]"@,
        DatumV::Obj(entries) => "{"@ + entry_list_text(entries, 0) + "}"@,
    }
}

/// Comma-separated rendering of the items of a list, from position `i` on.
pub open spec fn datum_list_text(items: Seq<DatumV>, i: int) -> Seq<char>
    decreases items, 1nat, items.len() - i,
{
    if i < 0 || i >= items.len() {
        Seq::empty()
    } else if i == items.len() - 1 {
        datum_text(items[i])
    } else {
        datum_text(items[i]) + ","@ + datum_list_text(items, i + 1)
    }
}

/// Comma-separated rendering of keyed entries, from position `i` on.
pub open spec fn entry_list_text(entries: Seq<(Seq<char>, DatumV)>, i: int) -> Seq<char>
    decreases entries, 1nat, entries.len() - i,
{
    if i < 0 || i >= entries.len() {
        Seq::empty()
    } else if i == entries.len() - 1 {
        "\""@ + entries[i].0 + "\":"@ + datum_text(entries[i].1)
    } else {
        "\""@ + entries[i].0 + "\":"@ + datum_text(entries[i].1) + ","@ + entry_list_text(
            entries,
            i + 1,
        )
    }
}

/// Renders a value as a single line of text.
pub fn render_datum(d: &Datum) -> (s: String)
    ensures
        s@ == datum_text(d@),
    decreases *d, 0nat, 0nat,
{
    match d {
        Datum::String(text) => {
            let mut s = String::from_str("\"");
            s.append(text.as_str());
            s.append("\"");
            s
        },
        Datum::Parameter(text) => {
            let mut s = String::from_str("$");
            s.append(text.as_str());
            s
        },
        Datum::Integer(i) => render_i64(*i),
        Datum::Decimal(x) => {
            let mut s = String::from_str("dec(");
            let m = render_i128(x.mantissa);
            s.append(m.as_str());
            s.append(",");
            let sc = render_u128(x.scale as u128);
            s.append(sc.as_str());
            s.append(")");
            s
        },
        Datum::Bool(b) => {
            if *b {
                String::from_str("true")
            } else {
                String::from_str("false")
            }
        },
        Datum::Null => String::from_str("null"),
        Datum::Array(items) => {
            let mut s = String::from_str("[");
            let body = render_datum_list(items, 0);
            s.append(body.as_str());
            s.append("]");
            proof {
                lemma_view_datum_seq(items@);
            }
            s
        },
        Datum::Object(entries) => {
            let mut s = String::from_str("{");
            let body = render_entry_list(entries, 0);
            s.append(body.as_str());
            s.append("}");
            proof {
                lemma_view_entry_seq(entries@);
            }
            s
        },
    }
}

/// Renders the items of a list from position `i` on, separated by commas.
pub fn render_datum_list(items: &Vec<Datum>, i: usize) -> (s: String)
    ensures
        s@ == datum_list_text(view_datum_seq(items@), i as int),
    decreases *items, 1nat, items@.len() - i,
{
    proof {
        lemma_view_datum_seq(items@);
        assert(decreases_to!(*items => items@));
    }
    if i >= items.len() {
        String::new()
    } else {
        proof {
            assert(decreases_to!(items@ => items@[i as int]));
        }
        let mut s = render_datum(&items[i]);
        if i < items.len() - 1 {
            s.append(",");
            let rest = render_datum_list(items, i + 1);
            s.append(rest.as_str());
        }
        s
    }
}

/// Renders keyed entries from position `i` on, separated by commas.
pub fn render_entry_list(entries: &Vec<(String, Datum)>, i: usize) -> (s: String)
    ensures
        s@ == entry_list_text(view_entry_seq(entries@), i as int),
    decreases *entries, 1nat, entries@.len() - i,
{
    proof {
        lemma_view_entry_seq(entries@);
        assert(decreases_to!(*entries => entries@));
    }
    if i >= entries.len() {
        String::new()
    } else {
        proof {
            assert(decreases_to!(entries@ => entries@[i as int]));
            assert(decreases_to!(entries@[i as int] => entries@[i as int].1));
        }
        let mut s = String::from_str("\"");
        s.append(entries[i].0.as_str());
        s.append("\":");
        let val = render_datum(&entries[i].1);
        s.append(val.as_str());
        if i < entries.len() - 1 {
            s.append(",");
            let rest = render_entry_list(entries, i + 1);
            s.append(rest.as_str());
        }
        s
    }
}

// ---------------------------------------------------------------------------
// Expressions
// ---------------------------------------------------------------------------

pub open spec fn bin_op_text(op: BinOp) -> Seq<char> {
    match op {
        BinOp::And => "and"@,
        BinOp::Or => "or"@,
        BinOp::Eq => "eq"@,
        BinOp::Ne => "ne"@,
        BinOp::Lt => "lt"@,
        BinOp::Le => "le"@,
        BinOp::Gt => "gt"@,
        BinOp::Ge => "ge"@,
    }
}

pub open spec fn un_op_text(op: UnOp) -> Seq<char> {
    match op {
        UnOp::Not => "not"@,
    }
}

/// One-line rendering of a scalar expression, fully parenthesised.
pub open spec fn expr_text(e: ExprV) -> Seq<char>
    decreases e,
{
    match e {
        ExprV::Constant(d) => datum_text(d),
        ExprV::Field { name } => "field("@ + name + ")"@,
        ExprV::BinaryOp { op, left, right } => "("@ + expr_text(*left) + " "@ + bin_op_text(op)
            + " "@ + expr_text(*right) + ")"@,
        ExprV::UnaryOp { op, expr } => "("@ + un_op_text(op) + " "@ + expr_text(*expr) + ")"@,
    }
}

fn bin_op_str(op: BinOp) -> (r: &'static str)
    ensures
        r@ == bin_op_text(op),
{
    match op {
        BinOp::And => "and",
        BinOp::Or => "or",
        BinOp::Eq => "eq",
        BinOp::Ne => "ne",
        BinOp::Lt => "lt",
        BinOp::Le => "le",
        BinOp::Gt => "gt",
        BinOp::Ge => "ge",
    }
}

fn un_op_str(op: UnOp) -> (r: &'static str)
    ensures
        r@ == un_op_text(op),
{
    match op {
        UnOp::Not => "not",
    }
}

/// Renders a scalar expression as a single line of text.
pub fn render_expr(e: &Expr) -> (s: String)
    ensures
        s@ == expr_text(e@),
    decreases *e,
{
    match e {
        Expr::Constant(d) => render_datum(d),
        Expr::Field { name } => {
            let mut s = String::from_str("field(");
            s.append(name.as_str());
            s.append(")");
            s
        },
        Expr::BinaryOp { op, left, right } => {
            let mut s = String::from_str("(");
            let l = render_expr(left);
            s.append(l.as_str());
            s.append(" ");
            s.append(bin_op_str(*op));
            s.append(" ");
            let r = render_expr(right);
            s.append(r.as_str());
            s.append(")");
            s
        },
        Expr::UnaryOp { op, expr } => {
            let mut s = String::from_str("(");
            s.append(un_op_str(*op));
            s.append(" ");
            let inner = render_expr(expr);
            s.append(inner.as_str());
            s.append(")");
            s
        },
    }
}

// ---------------------------------------------------------------------------
// Terms
// ---------------------------------------------------------------------------

/// One-line rendering of a query term, used in diagnostics to show the
/// offending term beside an error.
pub open spec fn term_text(t: TermV) -> Seq<char>
    decreases t,
{
    match t {
        TermV::Expr(e) => "Expr("@ + expr_text(e) + ")"@,
        TermV::Database { name } => "Database("@ + name + ")"@,
        TermV::DatabaseCreate { name } => "DatabaseCreate("@ + name + ")"@,
        TermV::DatabaseDrop { name } => "DatabaseDrop("@ + name + ")"@,
        TermV::DatabaseList => "DatabaseList"@,
        TermV::Table { db, name } => "Table("@ + opt_name_text(db) + ","@ + name + ")"@,
        TermV::TableCreate { db, name } => "TableCreate("@ + opt_name_text(db) + ","@ + name
            + ")"@,
        TermV::TableDrop { db, name } => "TableDrop("@ + opt_name_text(db) + ","@ + name + ")"@,
        TermV::TableList { db } => "TableList("@ + opt_name_text(db) + ")"@,
        TermV::Get { table, key, opt_args } => "Get("@ + term_text(*table) + ","@ + datum_text(
            key,
        ) + ",{"@ + entry_list_text(opt_args, 0) + "})"@,
        TermV::Filter { source, predicate, opt_args } => "Filter("@ + term_text(*source) + ","@
            + term_text(*predicate) + ",{"@ + entry_list_text(opt_args, 0) + "})"@,
        TermV::Insert { table, documents, opt_args } => "Insert("@ + term_text(*table) + ",["@
            + datum_list_text(documents, 0) + "],{"@ + entry_list_text(opt_args, 0) + "})"@,
        TermV::Delete { source, opt_args } => "Delete("@ + term_text(*source) + ",{"@
            + entry_list_text(opt_args, 0) + "})"@,
        TermV::Datum(d) => "Datum("@ + datum_text(d) + ")"@,
    }
}

fn opt_name_string(db: &Option<String>) -> (s: String)
    ensures
        s@ == opt_name_text(crate::ast::view_opt_name(*db)),
{
    match db {
        Option::Some(name) => name.clone(),
        Option::None => String::new(),
    }
}

/// Renders a query term as a single line of text.
pub fn render_term(t: &Term) -> (s: String)
    ensures
        s@ == term_text(t@),
    decreases *t,
{
    match t {
        Term::Expr(e) => {
            let mut s = String::from_str("Expr(");
            let body = render_expr(e);
            s.append(body.as_str());
            s.append(")");
            s
        },
        Term::Database { name } => {
            let mut s = String::from_str("Database(");
            s.append(name.as_str());
            s.append(")");
            s
        },
        Term::DatabaseCreate { name } => {
            let mut s = String::from_str("DatabaseCreate(");
            s.append(name.as_str());
            s.append(")");
            s
        },
        Term::DatabaseDrop { name } => {
            let mut s = String::from_str("DatabaseDrop(");
            s.append(name.as_str());
            s.append(")");
            s
        },
        Term::DatabaseList => String::from_str("DatabaseList"),
        Term::Table { db, name } => {
            let mut s = String::from_str("Table(");
            let d = opt_name_string(db);
            s.append(d.as_str());
            s.append(",");
            s.append(name.as_str());
            s.append(")");
            s
        },
        Term::TableCreate { db, name } => {
            let mut s = String::from_str("TableCreate(");
            let d = opt_name_string(db);
            s.append(d.as_str());
            s.append(",");
            s.append(name.as_str());
            s.append(")");
            s
        },
        Term::TableDrop { db, name } => {
            let mut s = String::from_str("TableDrop(");
            let d = opt_name_string(db);
            s.append(d.as_str());
            s.append(",");
            s.append(name.as_str());
            s.append(")");
            s
        },
        Term::TableList { db } => {
            let mut s = String::from_str("TableList(");
            let d = opt_name_string(db);
            s.append(d.as_str());
            s.append(")");
            s
        },
        Term::Get { table, key, opt_args } => {
            let mut s = String::from_str("Get(");
            let sub = render_term(table);
            s.append(sub.as_str());
            s.append(",");
            let k = render_datum(key);
            s.append(k.as_str());
            s.append(",{");
            let opts = render_entry_list(&opt_args.0, 0);
            s.append(opts.as_str());
            s.append("})");
            s
        },
        Term::Filter { source, predicate, opt_args } => {
            let mut s = String::from_str("Filter(");
            let src = render_term(source);
            s.append(src.as_str());
            s.append(",");
            let pred = render_term(predicate);
            s.append(pred.as_str());
            s.append(",{");
            let opts = render_entry_list(&opt_args.0, 0);
            s.append(opts.as_str());
            s.append("})");
            s
        },
        Term::Insert { table, documents, opt_args } => {
            let mut s = String::from_str("Insert(");
            let tbl = render_term(table);
            s.append(tbl.as_str());
            s.append(",[");
            let docs = render_datum_list(documents, 0);
            s.append(docs.as_str());
            s.append("],{");
            let opts = render_entry_list(&opt_args.0, 0);
            s.append(opts.as_str());
            s.append("})");
            s
        },
        Term::Delete { source, opt_args } => {
            let mut s = String::from_str("Delete(");
            let src = render_term(source);
            s.append(src.as_str());
            s.append(",{");
            let opts = render_entry_list(&opt_args.0, 0);
            s.append(opts.as_str());
            s.append("})");
            s
        },
        Term::Datum(d) => {
            let mut s = String::from_str("Datum(");
            let body = render_datum(d);
            s.append(body.as_str());
            s.append(")");
            s
        },
    }
}

} // verus!
