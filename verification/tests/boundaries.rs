use aquascope::boundaries::{
    CallSite, PermissionsBoundary, PermissionsBoundaryOutput, PermissionsDiffOutput,
    PermissionsStateStep, permission_boundaries,
};
use aquascope::facts::{AquascopeFacts, PlaceFacts, PlacePointFacts, PointFacts};
use aquascope::permissions::{Permissions, Refiner, RefinementRegion};
use aquascope::tree::{SyntaxNode, SyntaxTree};
use aquascope::{AquascopeError, Range};

fn range(id: usize) -> Range {
    Range {
        char_start: id * 10,
        char_end: id * 10 + 5,
        byte_start: id * 10,
        byte_end: id * 10 + 5,
        filename: String::from("main.rs"),
    }
}

fn boundary(id: usize, read: bool) -> PermissionsBoundary {
    PermissionsBoundary {
        location: range(id),
        expected: Permissions { read: true, write: false, drop: false },
        actual: aquascope::permissions::PermissionsData {
            type_droppable: true,
            type_writeable: true,
            type_copyable: false,
            is_live: read,
            path_moved: false,
            loan_read_refined: None,
            loan_write_refined: None,
            loan_drop_refined: None,
        },
        refinement: None,
    }
}

#[test]
fn boundary_join_deduplicates_by_source_range() {
    let a = PermissionsBoundaryOutput(vec![boundary(1, true), boundary(2, true)]);
    let b = PermissionsBoundaryOutput(vec![boundary(2, true), boundary(3, true)]);
    let joined = a.join(b);
    assert_eq!(joined.0.len(), 3);
    assert_eq!(joined.0[0].location, range(1));
    assert_eq!(joined.0[1].location, range(2));
    assert_eq!(joined.0[2].location, range(3));
}

#[test]
fn boundary_join_keeps_the_first_record_per_range() {
    let a = PermissionsBoundaryOutput(vec![boundary(1, true)]);
    let b = PermissionsBoundaryOutput(vec![boundary(1, false)]);
    let joined = a.join(b);
    assert_eq!(joined.0.len(), 1);
    assert!(joined.0[0].actual.is_live);
}

#[test]
fn diff_output_join_concatenates_in_order() {
    let a = PermissionsDiffOutput(vec![PermissionsStateStep {
        location: range(1),
        state: vec![],
    }]);
    let b = PermissionsDiffOutput(vec![PermissionsStateStep {
        location: range(2),
        state: vec![],
    }]);
    let joined = a.join(b);
    assert_eq!(joined.0.len(), 2);
    assert_eq!(joined.0[0].location, range(1));
    assert_eq!(joined.0[1].location, range(2));
}

fn borrow_facts() -> AquascopeFacts {
    AquascopeFacts {
        places: vec![PlaceFacts {
            name: String::from("x"),
            is_user_variable: true,
            type_droppable: true,
            type_writeable: true,
            type_copyable: false,
        }],
        points: vec![PointFacts {
            is_cleanup: false,
            node: Some(1),
            places: vec![PlacePointFacts {
                is_live: true,
                path_moved: false,
                loan_read_refined: None,
                loan_write_refined: Some(5),
                loan_drop_refined: Some(5),
            }],
        }],
        entry: vec![PlacePointFacts {
            is_live: true,
            path_moved: false,
            loan_read_refined: None,
            loan_write_refined: None,
            loan_drop_refined: None,
        }],
    }
}

fn call_tree() -> SyntaxTree {
    SyntaxTree {
        nodes: vec![
            SyntaxNode { parent: 0, is_statement: false, children: vec![1], range: range(0) },
            SyntaxNode { parent: 0, is_statement: true, children: vec![], range: range(1) },
        ],
    }
}

#[test]
fn call_boundary_reports_actual_permissions_and_refiner() {
    let facts = borrow_facts();
    let tree = call_tree();
    let calls = vec![CallSite {
        node: 1,
        point: 0,
        place: 0,
        expected: Permissions { read: true, write: true, drop: false },
        refinement: Some(RefinementRegion {
            refiner_point: Refiner::Loan(5),
            refined_ranges: vec![range(1)],
        }),
    }];
    let out = permission_boundaries(&facts, &tree, calls).unwrap();
    assert_eq!(out.0.len(), 1);
    let b = &out.0[0];
    assert_eq!(b.location, range(1));
    assert_eq!(b.expected, Permissions { read: true, write: true, drop: false });
    let actual = b.actual.permissions();
    assert!(actual.read);
    assert!(!actual.write);
    assert!(!actual.drop);
    let region = b.refinement.as_ref().unwrap();
    assert_eq!(region.refiner_point, Refiner::Loan(5));
    assert_eq!(region.refined_ranges, vec![range(1)]);
}

#[test]
fn call_site_outside_the_tables_is_an_internal_error() {
    let facts = borrow_facts();
    let tree = call_tree();
    let calls = vec![CallSite {
        node: 1,
        point: 7,
        place: 0,
        expected: Permissions { read: true, write: false, drop: false },
        refinement: None,
    }];
    let err = permission_boundaries(&facts, &tree, calls).unwrap_err();
    assert!(matches!(err, AquascopeError::AnalysisError(_)));
}
