use aquascope::facts::{AquascopeFacts, PlaceFacts, PlacePointFacts, PointFacts};
use aquascope::permission_stepper::{compute_permission_steps, domain_step};
use aquascope::permissions::{BoolStep, PermsDiff, PermissionsData, PermissionsDomain};
use aquascope::boundaries::permission_diffs;
use aquascope::tree::{SyntaxNode, SyntaxTree};
use aquascope::{AquascopeError, Range};

fn range(id: usize) -> Range {
    Range {
        char_start: id * 10,
        char_end: id * 10 + 5,
        byte_start: id * 10,
        byte_end: id * 10 + 5,
        filename: String::from("main.rs"),
    }
}

fn node(parent: usize, is_statement: bool, children: Vec<usize>, id: usize) -> SyntaxNode {
    SyntaxNode { parent, is_statement, children, range: range(id) }
}

fn place(name: &str, is_user_variable: bool, droppable: bool, writeable: bool, copyable: bool) -> PlaceFacts {
    PlaceFacts {
        name: String::from(name),
        is_user_variable,
        type_droppable: droppable,
        type_writeable: writeable,
        type_copyable: copyable,
    }
}

fn pp(is_live: bool, path_moved: bool) -> PlacePointFacts {
    PlacePointFacts {
        is_live,
        path_moved,
        loan_read_refined: None,
        loan_write_refined: None,
        loan_drop_refined: None,
    }
}

fn point(node: usize, is_cleanup: bool, places: Vec<PlacePointFacts>) -> PointFacts {
    PointFacts { is_cleanup, node: Some(node), places }
}

fn all(step: BoolStep) -> PermsDiff {
    PermsDiff { read: step, write: step, drop: step }
}

#[test]
fn move_revokes_source_and_entitles_target() {
    // `x` starts owned with full permissions; a statement moves it into `y`.
    let facts = AquascopeFacts {
        places: vec![place("x", true, true, true, false), place("y", true, true, true, false)],
        points: vec![point(1, false, vec![pp(true, true), pp(true, false)])],
        entry: vec![pp(true, false), pp(false, false)],
    };
    let tree = SyntaxTree {
        nodes: vec![node(0, false, vec![1], 0), node(0, true, vec![], 1)],
    };
    assert!(facts.is_wf());
    assert!(tree.is_wf());

    let out = permission_diffs(&facts, &tree).unwrap();
    assert_eq!(out.0.len(), 1);
    let step = &out.0[0];
    assert_eq!(step.location, range(1));
    assert_eq!(step.state.len(), 2);
    assert_eq!(step.state[0].0, "x");
    assert_eq!(step.state[0].1, all(BoolStep::Lost));
    assert_eq!(step.state[1].0, "y");
    assert_eq!(step.state[1].1, all(BoolStep::Gained));
}

#[test]
fn shared_borrow_suspends_write_and_drop_until_loan_ends() {
    // `x` is mutable and droppable; a statement stores a shared borrow of it
    // in `r`, and a later statement runs after `r` is dead again.
    let borrow = PlacePointFacts {
        is_live: true,
        path_moved: false,
        loan_read_refined: None,
        loan_write_refined: Some(1),
        loan_drop_refined: Some(1),
    };
    let facts = AquascopeFacts {
        places: vec![place("x", true, true, true, false), place("r", true, false, false, true)],
        points: vec![
            point(1, false, vec![borrow, pp(true, false)]),
            point(2, false, vec![pp(true, false), pp(false, false)]),
        ],
        entry: vec![pp(true, false), pp(false, false)],
    };
    let tree = SyntaxTree {
        nodes: vec![
            node(0, false, vec![1, 2], 0),
            node(0, true, vec![], 1),
            node(0, true, vec![], 2),
        ],
    };
    assert!(facts.is_wf());
    assert!(tree.is_wf());

    let out = permission_diffs(&facts, &tree).unwrap();
    assert_eq!(out.0.len(), 2);

    let during = &out.0[0];
    assert_eq!(during.location, range(1));
    assert_eq!(during.state[0].0, "x");
    assert_eq!(
        during.state[0].1,
        PermsDiff { read: BoolStep::Unchanged, write: BoolStep::Lost, drop: BoolStep::Lost }
    );
    assert_eq!(during.state[1].0, "r");
    assert_eq!(
        during.state[1].1,
        PermsDiff { read: BoolStep::Gained, write: BoolStep::Unchanged, drop: BoolStep::Unchanged }
    );

    let after = &out.0[1];
    assert_eq!(after.location, range(2));
    assert_eq!(after.state[0].0, "x");
    assert_eq!(
        after.state[0].1,
        PermsDiff { read: BoolStep::Unchanged, write: BoolStep::Gained, drop: BoolStep::Gained }
    );
    assert_eq!(after.state[1].0, "r");
    assert_eq!(
        after.state[1].1,
        PermsDiff { read: BoolStep::Lost, write: BoolStep::Unchanged, drop: BoolStep::Unchanged }
    );
}

#[test]
fn unwind_only_point_never_changes_the_report() {
    // A cleanup-only point that would revoke everything bins to the same
    // statement as a harmless point; the report must not change at all.
    let facts = AquascopeFacts {
        places: vec![place("x", true, true, true, false)],
        points: vec![
            point(1, false, vec![pp(true, false)]),
            point(1, true, vec![pp(false, true)]),
        ],
        entry: vec![pp(true, false)],
    };
    let tree = SyntaxTree {
        nodes: vec![node(0, false, vec![1], 0), node(0, true, vec![], 1)],
    };
    let out = permission_diffs(&facts, &tree).unwrap();
    assert!(out.0.is_empty());
}

#[test]
fn same_point_not_on_unwind_path_does_change_the_report() {
    // The same facts as above, except that the revoking point is ordinary
    // control flow: now the join makes the statement revoke `x`.
    let facts = AquascopeFacts {
        places: vec![place("x", true, true, true, false)],
        points: vec![
            point(1, false, vec![pp(true, false)]),
            point(1, false, vec![pp(false, true)]),
        ],
        entry: vec![pp(true, false)],
    };
    let tree = SyntaxTree {
        nodes: vec![node(0, false, vec![1], 0), node(0, true, vec![], 1)],
    };
    let out = permission_diffs(&facts, &tree).unwrap();
    assert_eq!(out.0.len(), 1);
    assert_eq!(out.0[0].state[0].0, "x");
    assert_eq!(out.0[0].state[0].1, all(BoolStep::Lost));
}

#[test]
fn statements_with_no_visible_change_are_omitted() {
    // The statement's domain equals the entry domain, so its diff is empty
    // and the statement disappears from the report.
    let facts = AquascopeFacts {
        places: vec![place("x", true, true, true, false)],
        points: vec![point(1, false, vec![pp(true, false)])],
        entry: vec![pp(true, false)],
    };
    let tree = SyntaxTree {
        nodes: vec![node(0, false, vec![1], 0), node(0, true, vec![], 1)],
    };
    let out = permission_diffs(&facts, &tree).unwrap();
    assert!(out.0.is_empty());
}

#[test]
fn compiler_temporaries_are_never_shown() {
    let facts = AquascopeFacts {
        places: vec![place("x", true, true, true, false), place("tmp0", false, true, true, false)],
        points: vec![point(1, false, vec![pp(false, true), pp(true, false)])],
        entry: vec![pp(true, false), pp(false, false)],
    };
    let tree = SyntaxTree {
        nodes: vec![node(0, false, vec![1], 0), node(0, true, vec![], 1)],
    };
    let out = permission_diffs(&facts, &tree).unwrap();
    assert_eq!(out.0.len(), 1);
    let step = &out.0[0];
    assert_eq!(step.state.len(), 1);
    assert_eq!(step.state[0].0, "x");
}

#[test]
fn statements_are_reported_in_depth_first_source_order() {
    // Root encloses statement 1 (with nested statement 2) and statement 3.
    let facts = AquascopeFacts {
        places: vec![place("x", true, true, true, false)],
        points: vec![
            point(3, false, vec![pp(false, false)]),
            point(2, false, vec![pp(true, false)]),
            point(1, false, vec![pp(false, false)]),
        ],
        entry: vec![pp(true, false)],
    };
    let tree = SyntaxTree {
        nodes: vec![
            node(0, false, vec![1, 3], 0),
            node(0, true, vec![2], 1),
            node(1, true, vec![], 2),
            node(0, true, vec![], 3),
        ],
    };
    let out = permission_diffs(&facts, &tree).unwrap();
    assert_eq!(out.0.len(), 3);
    assert_eq!(out.0[0].location, range(1));
    assert_eq!(out.0[1].location, range(2));
    assert_eq!(out.0[2].location, range(3));
    assert_eq!(out.0[0].state[0].1.read, BoolStep::Lost);
    assert_eq!(out.0[1].state[0].1.read, BoolStep::Gained);
    assert_eq!(out.0[2].state[0].1.read, BoolStep::Lost);
}

#[test]
fn point_on_inner_expression_binds_to_enclosing_statement() {
    // The point originates at an expression node nested under a statement;
    // the walk up the tree must credit the enclosing statement.
    let facts = AquascopeFacts {
        places: vec![place("x", true, true, true, false)],
        points: vec![point(2, false, vec![pp(false, true)])],
        entry: vec![pp(true, false)],
    };
    let tree = SyntaxTree {
        nodes: vec![
            node(0, false, vec![1], 0),
            node(0, true, vec![2], 1),
            node(1, false, vec![], 2),
        ],
    };
    let out = permission_diffs(&facts, &tree).unwrap();
    assert_eq!(out.0.len(), 1);
    assert_eq!(out.0[0].location, range(1));
}

#[test]
fn point_without_enclosing_statement_is_dropped() {
    // The walk from the point's node reaches the root without meeting a
    // statement; the point is dropped and the report stays empty.
    let facts = AquascopeFacts {
        places: vec![place("x", true, true, true, false)],
        points: vec![point(1, false, vec![pp(false, true)])],
        entry: vec![pp(true, false)],
    };
    let tree = SyntaxTree {
        nodes: vec![node(0, false, vec![1], 0), node(0, false, vec![], 1)],
    };
    let out = permission_diffs(&facts, &tree).unwrap();
    assert!(out.0.is_empty());
}

#[test]
fn statement_without_lifted_domain_is_an_internal_error() {
    // The tree has a statement but no program point contributes to it.
    let facts = AquascopeFacts {
        places: vec![place("x", true, true, true, false)],
        points: vec![],
        entry: vec![pp(true, false)],
    };
    let tree = SyntaxTree {
        nodes: vec![node(0, false, vec![1], 0), node(0, true, vec![], 1)],
    };
    let err = permission_diffs(&facts, &tree).unwrap_err();
    assert!(matches!(err, AquascopeError::AnalysisError(_)));
}

#[test]
fn empty_function_yields_empty_report() {
    let facts = AquascopeFacts { places: vec![], points: vec![], entry: vec![] };
    let tree = SyntaxTree { nodes: vec![] };
    let out = permission_diffs(&facts, &tree).unwrap();
    assert!(out.0.is_empty());
}

#[test]
fn domain_step_rejects_mismatched_place_universes() {
    let d = PermissionsData {
        type_droppable: true,
        type_writeable: true,
        type_copyable: false,
        is_live: true,
        path_moved: false,
        loan_read_refined: None,
        loan_write_refined: None,
        loan_drop_refined: None,
    };
    let before = PermissionsDomain::from(vec![d, d]);
    let after = PermissionsDomain::from(vec![d]);
    let err = domain_step(&before, &after).unwrap_err();
    assert!(matches!(err, AquascopeError::AnalysisError(_)));
}

#[test]
fn compute_permission_steps_reports_place_indices() {
    let facts = AquascopeFacts {
        places: vec![place("a", true, true, true, false), place("b", true, true, true, false)],
        points: vec![point(1, false, vec![pp(true, false), pp(true, false)])],
        entry: vec![pp(true, false), pp(false, false)],
    };
    let tree = SyntaxTree {
        nodes: vec![node(0, false, vec![1], 0), node(0, true, vec![], 1)],
    };
    let steps = compute_permission_steps(&facts, &tree).unwrap();
    assert_eq!(steps.len(), 1);
    let (stmt, pairs) = &steps[0];
    assert_eq!(*stmt, 1);
    assert_eq!(pairs.len(), 1);
    assert_eq!(pairs[0].0, 1);
    assert_eq!(pairs[0].1, all(BoolStep::Gained));
}

#[test]
fn engine_derives_one_domain_per_point() {
    let facts = AquascopeFacts {
        places: vec![place("x", true, true, true, false)],
        points: vec![
            point(1, false, vec![pp(true, false)]),
            point(1, false, vec![pp(true, true)]),
        ],
        entry: vec![pp(true, false)],
    };
    let domains = aquascope::facts::compute(&facts);
    assert_eq!(domains.len(), 2);
    let live = domains[0].get(0).permissions();
    assert!(live.read && live.write && live.drop);
    let moved = domains[1].get(0).permissions();
    assert!(!moved.read && !moved.write && !moved.drop);
}

#[test]
fn entry_domain_reflects_declared_permissions() {
    let facts = AquascopeFacts {
        places: vec![place("x", true, true, true, false), place("y", true, true, true, false)],
        points: vec![],
        entry: vec![pp(true, false), pp(false, false)],
    };
    let entry = aquascope::facts::initial_body_permissions(&facts);
    assert_eq!(entry.len(), 2);
    let x = entry.get(0).permissions();
    assert!(x.read && x.write && x.drop);
    let y = entry.get(1).permissions();
    assert!(!y.read && !y.write && !y.drop);
}

#[test]
fn statement_order_walks_depth_first() {
    let tree = SyntaxTree {
        nodes: vec![
            node(0, false, vec![1, 3], 0),
            node(0, true, vec![2], 1),
            node(1, true, vec![], 2),
            node(0, true, vec![], 3),
        ],
    };
    let order = aquascope::tree::statement_order(&tree);
    assert_eq!(order, vec![1, 2, 3]);
}

#[test]
fn location_to_stmt_walks_to_enclosing_statement() {
    let tree = SyntaxTree {
        nodes: vec![
            node(0, false, vec![1], 0),
            node(0, true, vec![2], 1),
            node(1, false, vec![], 2),
        ],
    };
    assert_eq!(aquascope::tree::location_to_stmt(&tree, 2), Some(1));
    assert_eq!(aquascope::tree::location_to_stmt(&tree, 1), Some(1));
    assert_eq!(aquascope::tree::location_to_stmt(&tree, 0), None);
}

#[test]
fn lift_joins_points_of_one_statement_conservatively() {
    let facts = AquascopeFacts {
        places: vec![place("x", true, true, true, false)],
        points: vec![
            point(1, false, vec![pp(true, false)]),
            point(1, false, vec![pp(false, false)]),
        ],
        entry: vec![pp(true, false)],
    };
    let tree = SyntaxTree {
        nodes: vec![node(0, false, vec![1], 0), node(0, true, vec![], 1)],
    };
    let domains = aquascope::facts::compute(&facts);
    let lifted = aquascope::permission_stepper::lift(&tree, &facts, &domains);
    assert_eq!(lifted.len(), 2);
    assert!(lifted[0].is_none());
    let stmt_domain = lifted[1].as_ref().unwrap();
    let joined = stmt_domain.get(0).permissions();
    assert!(!joined.read && !joined.write && !joined.drop);
}
