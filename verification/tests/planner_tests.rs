use rulodb::ast::{BinOp, Datum, Dec, Expr, OptArgs, Term, UnOp};
use rulodb::planner::{PlanError, PlanNode, Planner};
use rulodb::render::{render_datum, render_expr, render_i128, render_term, render_u128};

fn field(name: &str) -> Expr {
    Expr::Field { name: name.to_string() }
}

fn c_bool(b: bool) -> Expr {
    Expr::Constant(Datum::Bool(b))
}

fn bin(op: BinOp, l: Expr, r: Expr) -> Expr {
    Expr::BinaryOp { op, left: Box::new(l), right: Box::new(r) }
}

fn not(e: Expr) -> Expr {
    Expr::UnaryOp { op: UnOp::Not, expr: Box::new(e) }
}

fn no_opts() -> OptArgs {
    OptArgs(Vec::new())
}

#[test]
fn and_true_left_simplifies_to_right() {
    let e = bin(BinOp::And, c_bool(true), field("x"));
    assert_eq!(Planner::simplify_expr(e), field("x"));
}

#[test]
fn or_false_left_simplifies_to_right() {
    let e = bin(BinOp::Or, c_bool(false), field("x"));
    assert_eq!(Planner::simplify_expr(e), field("x"));
}

#[test]
fn and_true_right_simplifies_to_left() {
    let e = bin(BinOp::And, field("x"), c_bool(true));
    assert_eq!(Planner::simplify_expr(e), field("x"));
}

#[test]
fn or_false_right_simplifies_to_left() {
    let e = bin(BinOp::Or, field("x"), c_bool(false));
    assert_eq!(Planner::simplify_expr(e), field("x"));
}

#[test]
fn and_false_right_annihilates() {
    let e = bin(BinOp::And, field("x"), c_bool(false));
    assert_eq!(Planner::simplify_expr(e), c_bool(false));
}

#[test]
fn and_false_left_annihilates() {
    let e = bin(BinOp::And, c_bool(false), field("x"));
    assert_eq!(Planner::simplify_expr(e), c_bool(false));
}

#[test]
fn or_true_annihilates_both_orders() {
    let l = bin(BinOp::Or, c_bool(true), field("x"));
    let r = bin(BinOp::Or, field("x"), c_bool(true));
    assert_eq!(Planner::simplify_expr(l), c_bool(true));
    assert_eq!(Planner::simplify_expr(r), c_bool(true));
}

#[test]
fn not_true_folds_to_false() {
    assert_eq!(Planner::simplify_expr(not(c_bool(true))), c_bool(false));
}

#[test]
fn not_false_folds_to_true() {
    assert_eq!(Planner::simplify_expr(not(c_bool(false))), c_bool(true));
}

#[test]
fn simplification_is_bottom_up() {
    // Not(true) folds to false first, then And(false, x) annihilates.
    let e = bin(BinOp::And, not(c_bool(true)), field("x"));
    assert_eq!(Planner::simplify_expr(e), c_bool(false));
}

#[test]
fn comparison_operators_are_not_folded() {
    let one = || Expr::Constant(Datum::Integer(1));
    let e = bin(BinOp::Eq, one(), one());
    let expected = bin(BinOp::Eq, one(), one());
    assert_eq!(Planner::simplify_expr(e), expected);
}

#[test]
fn field_and_constant_are_fixed_points() {
    assert_eq!(Planner::simplify_expr(field("f")), field("f"));
    assert_eq!(Planner::simplify_expr(c_bool(true)), c_bool(true));
}

fn scan(name: &str) -> PlanNode {
    PlanNode::ScanTable { db: None, name: name.to_string() }
}

#[test]
fn optimize_removes_true_filter() {
    let planner = Planner::new();
    let plan = PlanNode::Filter {
        source: Box::new(scan("t")),
        predicate: c_bool(true),
        opt_args: no_opts(),
    };
    assert_eq!(planner.optimize(plan), scan("t"));
}

#[test]
fn optimize_short_circuits_false_filter() {
    let planner = Planner::new();
    let plan = PlanNode::Filter {
        source: Box::new(scan("t")),
        predicate: c_bool(false),
        opt_args: no_opts(),
    };
    assert_eq!(planner.optimize(plan), PlanNode::Constant(Datum::Array(Vec::new())));
}

#[test]
fn optimize_simplifies_kept_filter_predicate() {
    let planner = Planner::new();
    let plan = PlanNode::Filter {
        source: Box::new(scan("t")),
        predicate: bin(BinOp::And, c_bool(true), field("x")),
        opt_args: no_opts(),
    };
    let expected = PlanNode::Filter {
        source: Box::new(scan("t")),
        predicate: field("x"),
        opt_args: no_opts(),
    };
    assert_eq!(planner.optimize(plan), expected);
}

#[test]
fn optimize_recurses_into_insert_and_delete() {
    let planner = Planner::new();
    let inner = PlanNode::Filter {
        source: Box::new(scan("t")),
        predicate: c_bool(true),
        opt_args: no_opts(),
    };
    let plan = PlanNode::Delete { source: Box::new(inner), opt_args: no_opts() };
    let expected = PlanNode::Delete { source: Box::new(scan("t")), opt_args: no_opts() };
    assert_eq!(planner.optimize(plan), expected);
}

#[test]
fn optimize_simplifies_eval_expression() {
    let planner = Planner::new();
    let plan = PlanNode::Eval { expr: not(c_bool(true)) };
    assert_eq!(planner.optimize(plan), PlanNode::Eval { expr: c_bool(false) });
}

#[test]
fn optimize_leaves_get_by_key_unchanged() {
    let planner = Planner::new();
    let plan = PlanNode::GetByKey {
        db: Some("d".to_string()),
        table: "t".to_string(),
        key: Datum::String("k".to_string()),
        opt_args: no_opts(),
    };
    let expected = PlanNode::GetByKey {
        db: Some("d".to_string()),
        table: "t".to_string(),
        key: Datum::String("k".to_string()),
        opt_args: no_opts(),
    };
    assert_eq!(planner.optimize(plan), expected);
}

#[test]
fn plan_maps_admin_terms_one_to_one() {
    let planner = Planner::new();
    let plan = planner.plan(&Term::DatabaseCreate { name: "d".to_string() }).unwrap();
    assert_eq!(plan, PlanNode::CreateDatabase { name: "d".to_string() });
    let plan = planner.plan(&Term::TableList { db: Some("d".to_string()) }).unwrap();
    assert_eq!(plan, PlanNode::ListTables { db: Some("d".to_string()) });
    let plan = planner.plan(&Term::DatabaseList).unwrap();
    assert_eq!(plan, PlanNode::ListDatabases);
}

#[test]
fn plan_compiles_expr_to_eval() {
    let planner = Planner::new();
    let plan = planner.plan(&Term::Expr(field("x"))).unwrap();
    assert_eq!(plan, PlanNode::Eval { expr: field("x") });
}

#[test]
fn plan_get_with_literal_table() {
    let planner = Planner::new();
    let term = Term::Get {
        table: Box::new(Term::Table { db: Some("d".to_string()), name: "t".to_string() }),
        key: Datum::String("k".to_string()),
        opt_args: no_opts(),
    };
    let expected = PlanNode::GetByKey {
        db: Some("d".to_string()),
        table: "t".to_string(),
        key: Datum::String("k".to_string()),
        opt_args: no_opts(),
    };
    assert_eq!(planner.plan(&term).unwrap(), expected);
}

#[test]
fn plan_get_with_non_string_key_is_invalid() {
    let planner = Planner::new();
    let term = Term::Get {
        table: Box::new(Term::Table { db: None, name: "t".to_string() }),
        key: Datum::Integer(5),
        opt_args: no_opts(),
    };
    let err = planner.plan(&term).unwrap_err();
    assert_eq!(err, PlanError::InvalidGetTerm(Term::Datum(Datum::Integer(5))));
}

#[test]
fn plan_get_with_bare_datum_table_is_unsupported() {
    // The table reference is compiled first; a bare value is no query, so
    // its own compile error comes back.
    let planner = Planner::new();
    let term = Term::Get {
        table: Box::new(Term::Datum(Datum::Integer(5))),
        key: Datum::String("k".to_string()),
        opt_args: no_opts(),
    };
    let err = planner.plan(&term).unwrap_err();
    assert_eq!(err, PlanError::UnsupportedTerm(Term::Datum(Datum::Integer(5))));
}

#[test]
fn plan_get_with_computed_table_uses_rendered_plan_as_name() {
    let planner = Planner::new();
    let term = Term::Get {
        table: Box::new(Term::DatabaseList),
        key: Datum::String("k".to_string()),
        opt_args: no_opts(),
    };
    let expected = PlanNode::GetByKey {
        db: None,
        table: "ListDatabases".to_string(),
        key: Datum::String("k".to_string()),
        opt_args: no_opts(),
    };
    assert_eq!(planner.plan(&term).unwrap(), expected);
}

#[test]
fn plan_bare_datum_is_unsupported() {
    let planner = Planner::new();
    let err = planner.plan(&Term::Datum(Datum::Integer(1))).unwrap_err();
    assert_eq!(err, PlanError::UnsupportedTerm(Term::Datum(Datum::Integer(1))));
}

#[test]
fn plan_filter_predicate_must_be_expression() {
    let planner = Planner::new();
    let bad_predicate = Term::Table { db: None, name: "t".to_string() };
    let term = Term::Filter {
        source: Box::new(Term::Table { db: None, name: "s".to_string() }),
        predicate: Box::new(Term::Table { db: None, name: "t".to_string() }),
        opt_args: no_opts(),
    };
    let err = planner.plan(&term).unwrap_err();
    assert_eq!(err, PlanError::InvalidPredicate(bad_predicate));
}

#[test]
fn plan_filter_carries_predicate_unsimplified() {
    let planner = Planner::new();
    let term = Term::Filter {
        source: Box::new(Term::Table { db: None, name: "s".to_string() }),
        predicate: Box::new(Term::Expr(bin(BinOp::And, c_bool(true), field("x")))),
        opt_args: no_opts(),
    };
    let expected = PlanNode::Filter {
        source: Box::new(scan("s")),
        predicate: bin(BinOp::And, c_bool(true), field("x")),
        opt_args: no_opts(),
    };
    assert_eq!(planner.plan(&term).unwrap(), expected);
}

#[test]
fn plan_insert_compiles_nested_table() {
    let planner = Planner::new();
    let term = Term::Insert {
        table: Box::new(Term::Table { db: None, name: "t".to_string() }),
        documents: vec![Datum::Null],
        opt_args: no_opts(),
    };
    let expected = PlanNode::Insert {
        table: Box::new(scan("t")),
        documents: vec![Datum::Null],
        opt_args: no_opts(),
    };
    assert_eq!(planner.plan(&term).unwrap(), expected);
}

#[test]
fn explain_scan_table_adds_synthetic_database_line() {
    let planner = Planner::new();
    let plan = PlanNode::ScanTable { db: Some("d1".to_string()), name: "t".to_string() };
    assert_eq!(planner.explain(&plan, 0), "ScanTable: t\n  SelectDatabase: d1");
}

#[test]
fn explain_filter_indents_its_source() {
    let planner = Planner::new();
    let plan = PlanNode::Filter {
        source: Box::new(PlanNode::ListDatabases),
        predicate: field("x"),
        opt_args: no_opts(),
    };
    assert_eq!(planner.explain(&plan, 0), "Filter: field(x)\n  ListDatabases");
}

#[test]
fn explain_insert_counts_documents() {
    let planner = Planner::new();
    let plan = PlanNode::Insert {
        table: Box::new(PlanNode::ListDatabases),
        documents: vec![Datum::Null, Datum::Null],
        opt_args: no_opts(),
    };
    assert_eq!(planner.explain(&plan, 0), "Insert 2 docs\n  ListDatabases");
}

#[test]
fn explain_constant_renders_value() {
    let planner = Planner::new();
    let plan = PlanNode::Constant(Datum::Integer(-42));
    assert_eq!(planner.explain(&plan, 1), "  Constant: -42");
}

#[test]
fn explain_get_by_key_shows_table_and_key() {
    let planner = Planner::new();
    let plan = PlanNode::GetByKey {
        db: None,
        table: "t".to_string(),
        key: Datum::String("k".to_string()),
        opt_args: no_opts(),
    };
    assert_eq!(planner.explain(&plan, 0), "GetByKey: table=t, key=\"k\"");
}

#[test]
fn error_messages_name_the_failure_and_the_term() {
    let e = PlanError::UnsupportedTerm(Term::DatabaseList);
    assert_eq!(
        e.message(),
        "Unsupported term encountered during planning: DatabaseList"
    );
    let e = PlanError::InvalidPredicate(Term::Table { db: None, name: "t".to_string() });
    assert_eq!(
        e.message(),
        "Filter predicate is not a boolean expression: Table(,t)"
    );
    let e = PlanError::InvalidGetTerm(Term::Datum(Datum::Integer(5)));
    assert_eq!(e.message(), "Get term missing table or key: Datum(5)");
}

#[test]
fn term_rendering_is_exact() {
    let term = Term::Get {
        table: Box::new(Term::Table { db: Some("d".to_string()), name: "t".to_string() }),
        key: Datum::String("k".to_string()),
        opt_args: OptArgs(vec![("limit".to_string(), Datum::Integer(1))]),
    };
    assert_eq!(render_term(&term), "Get(Table(d,t),\"k\",{\"limit\":1})");
}

#[test]
fn datum_rendering_is_exact() {
    let d = Datum::Array(vec![
        Datum::Integer(-5),
        Datum::Bool(true),
        Datum::Null,
        Datum::String("a".to_string()),
        Datum::Parameter("p".to_string()),
    ]);
    assert_eq!(render_datum(&d), "[-5,true,null,\"a\",$p]");
}

#[test]
fn object_rendering_keeps_entry_order() {
    let d = Datum::Object(vec![
        ("b".to_string(), Datum::Integer(2)),
        ("a".to_string(), Datum::Integer(1)),
    ]);
    assert_eq!(render_datum(&d), "{\"b\":2,\"a\":1}");
}

#[test]
fn decimal_rendering_shows_mantissa_and_scale() {
    let d = Datum::Decimal(Dec { mantissa: 314, scale: 2 });
    assert_eq!(render_datum(&d), "dec(314,2)");
}

#[test]
fn expression_rendering_is_exact() {
    let e = bin(BinOp::And, field("x"), not(c_bool(false)));
    assert_eq!(render_expr(&e), "(field(x) and (not false))");
}

#[test]
fn integer_rendering_handles_extremes() {
    assert_eq!(render_u128(0), "0");
    assert_eq!(render_u128(90210), "90210");
    assert_eq!(render_i128(i128::MIN), "-170141183460469231731687303715884105728");
    assert_eq!(render_i128(-1), "-1");
}
