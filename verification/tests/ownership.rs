//! Moves, loans and what is reported of them.

use tn_typecheck::diagnostics::{Diagnostic, Finding};
use tn_typecheck::hir::{DeclarationId, PrimitiveType, Type};
use tn_typecheck::list::List;
use tn_typecheck::mir::{
    whole, BasicBlock, BasicBlockId, Body, BorrowKind, Completion, Local, LocalId, Operand, Place,
    Projection, RegionId, Rvalue, Statement, StatementKind, SwitchTarget, Terminator,
    TerminatorKind,
};
use tn_typecheck::names::{Name, Names};
use tn_typecheck::ownership::analysis::{check_ownership, ValidationError};
use tn_typecheck::ownership::facts::{
    check_capture_requirements, Capture, CaptureKind, OwnershipFacts,
};
use tn_typecheck::ownership::loans::extend_unique;
use tn_typecheck::ownership::places::{place_contains, places_overlap};
use tn_typecheck::syntax::{File, ModuleFile, PathPlace, Span};

const FILE: ModuleFile = ModuleFile { place: PathPlace::BehindGenerator, number: 0 };

const OWNED: DeclarationId = DeclarationId(7);

const DROPPED: DeclarationId = DeclarationId(8);

fn span(start: u32) -> Span {
    Span { file: File::Module(FILE), byte_start: start, byte_end: start + 1 }
}

fn facts() -> OwnershipFacts {
    OwnershipFacts { copy: Vec::new(), drop: vec![DROPPED], send: vec![OWNED], sync: Vec::new() }
}

fn owned() -> Type {
    Type::Nominal(OWNED, List::Nil)
}

fn dropped() -> Type {
    Type::Nominal(DROPPED, List::Nil)
}

fn number() -> Type {
    Type::Primitive(PrimitiveType::I32)
}

fn reference(mutable: bool, referent: Type) -> Type {
    Type::Reference { mutable, lifetime: Name::Scope, referent: Box::new(referent) }
}

fn local(ty: Type, argument: bool) -> Local {
    Local { name: None, ty, mutable: true, argument, span: span(0) }
}

fn field(place: usize, index: usize) -> Place {
    Place {
        local: LocalId(place),
        projection: List::from_vec(vec![Projection::Field { index, ty: owned() }]),
    }
}

fn put(destination: usize, operand: Operand, at: u32) -> Statement {
    Statement {
        kind: StatementKind::Assign(whole(LocalId(destination)), Rvalue::Use(operand)),
        span: span(at),
    }
}

fn borrow(destination: usize, kind: BorrowKind, place: Place, at: u32) -> Statement {
    Statement {
        kind: StatementKind::Borrow {
            destination: LocalId(destination),
            kind,
            place,
            region: RegionId(0),
        },
        span: span(at),
    }
}

fn copied(index: usize) -> Operand {
    Operand::Copy(whole(LocalId(index)))
}

fn moved(index: usize) -> Operand {
    Operand::Move(whole(LocalId(index)))
}

fn block(statements: Vec<Statement>, kind: TerminatorKind, at: u32) -> BasicBlock {
    BasicBlock { statements, terminator: Terminator { kind, span: span(at) } }
}

fn body(locals: Vec<Local>, blocks: Vec<BasicBlock>, return_type: Type) -> Body {
    Body {
        declaration: DeclarationId(1),
        member: None,
        locals,
        blocks,
        closures: Vec::new(),
        return_type,
        effects: List::Nil,
    }
}

fn found(body: &Body) -> Vec<(Finding, u32, Option<u32>)> {
    check_ownership(body, &Vec::new(), &facts())
        .diagnostics
        .iter()
        .map(|diagnostic| {
            (
                diagnostic.finding,
                diagnostic.primary.byte_start,
                diagnostic.secondary.map(|origin| origin.byte_start),
            )
        })
        .collect()
}

#[test]
fn a_moved_value_is_not_used_again() {
    let body = body(
        vec![local(owned(), true), local(owned(), false), local(owned(), false)],
        vec![block(
            vec![put(1, moved(0), 10), put(2, copied(0), 20)],
            TerminatorKind::Return(None),
            30,
        )],
        number(),
    );
    assert_eq!(found(&body), vec![(Finding::UseAfterMove, 20, Some(10))]);
}

#[test]
fn a_moved_value_is_not_moved_again() {
    let body = body(
        vec![local(owned(), true), local(owned(), false), local(owned(), false)],
        vec![block(
            vec![put(1, moved(0), 10), put(2, moved(0), 20)],
            TerminatorKind::Return(None),
            30,
        )],
        number(),
    );
    assert_eq!(found(&body), vec![(Finding::MoveAfterMove, 20, Some(10))]);
}

#[test]
fn a_copied_value_stays() {
    let body = body(
        vec![local(number(), true), local(number(), false), local(number(), false)],
        vec![block(
            vec![put(1, moved(0), 10), put(2, moved(0), 20)],
            TerminatorKind::Return(None),
            30,
        )],
        number(),
    );
    assert_eq!(found(&body), vec![]);
}

#[test]
fn an_assignment_gives_a_place_its_value_back() {
    let body = body(
        vec![local(owned(), true), local(owned(), false), local(owned(), false)],
        vec![block(
            vec![put(1, moved(0), 10), put(0, moved(1), 20), put(2, moved(0), 30)],
            TerminatorKind::Return(None),
            40,
        )],
        number(),
    );
    assert_eq!(found(&body), vec![]);
}

#[test]
fn a_move_of_one_field_leaves_the_other() {
    let moves_field = |index: usize, at: u32| put(1, Operand::Move(field(0, index)), at);
    let apart = body(
        vec![local(owned(), true), local(owned(), false)],
        vec![block(
            vec![moves_field(0, 10), moves_field(1, 20)],
            TerminatorKind::Return(None),
            30,
        )],
        number(),
    );
    assert_eq!(found(&apart), vec![]);
    let twice = body(
        vec![local(owned(), true), local(owned(), false)],
        vec![block(
            vec![moves_field(0, 10), moves_field(0, 20)],
            TerminatorKind::Return(None),
            30,
        )],
        number(),
    );
    assert_eq!(found(&twice), vec![(Finding::MoveAfterMove, 20, Some(10))]);
}

#[test]
fn no_part_moves_out_of_a_value_with_a_destructor() {
    let body = body(
        vec![local(dropped(), true), local(owned(), false)],
        vec![block(
            vec![put(1, Operand::Move(field(0, 0)), 10)],
            TerminatorKind::Return(None),
            30,
        )],
        number(),
    );
    assert_eq!(found(&body), vec![(Finding::PartialMoveFromDropType, 10, None)]);
}

#[test]
fn two_borrows_conflict_while_the_first_is_used() {
    let locals = || {
        vec![
            local(owned(), false),
            local(reference(true, owned()), false),
            local(reference(false, owned()), false),
            local(reference(true, owned()), false),
        ]
    };
    let used = body(
        locals(),
        vec![block(
            vec![
                borrow(1, BorrowKind::Mutable, whole(LocalId(0)), 10),
                borrow(2, BorrowKind::Shared, whole(LocalId(0)), 20),
                put(3, copied(1), 30),
            ],
            TerminatorKind::Return(None),
            40,
        )],
        number(),
    );
    assert_eq!(found(&used), vec![(Finding::ConflictingBorrow, 20, Some(10))]);
    let unused = body(
        locals(),
        vec![block(
            vec![
                borrow(1, BorrowKind::Mutable, whole(LocalId(0)), 10),
                borrow(2, BorrowKind::Shared, whole(LocalId(0)), 20),
            ],
            TerminatorKind::Return(None),
            40,
        )],
        number(),
    );
    assert_eq!(found(&unused), vec![]);
}

#[test]
fn shared_borrows_do_not_conflict() {
    let body = body(
        vec![
            local(owned(), false),
            local(reference(false, owned()), false),
            local(reference(false, owned()), false),
            local(reference(false, owned()), false),
        ],
        vec![block(
            vec![
                borrow(1, BorrowKind::Shared, whole(LocalId(0)), 10),
                borrow(2, BorrowKind::Shared, whole(LocalId(0)), 20),
                put(3, copied(1), 30),
            ],
            TerminatorKind::Return(None),
            40,
        )],
        number(),
    );
    assert_eq!(found(&body), vec![]);
}

#[test]
fn a_mutable_borrow_excludes_reads_and_writes() {
    let locals = || {
        vec![
            local(number(), false),
            local(reference(true, number()), false),
            local(number(), false),
            local(reference(true, number()), false),
        ]
    };
    let read = body(
        locals(),
        vec![block(
            vec![
                borrow(1, BorrowKind::Mutable, whole(LocalId(0)), 10),
                put(2, copied(0), 20),
                put(3, copied(1), 30),
            ],
            TerminatorKind::Return(None),
            40,
        )],
        number(),
    );
    assert_eq!(found(&read), vec![(Finding::ReadDuringMutableBorrow, 20, Some(10))]);
    let written = body(
        locals(),
        vec![block(
            vec![
                borrow(1, BorrowKind::Mutable, whole(LocalId(0)), 10),
                put(0, copied(2), 20),
                put(3, copied(1), 30),
            ],
            TerminatorKind::Return(None),
            40,
        )],
        number(),
    );
    assert_eq!(found(&written), vec![(Finding::WriteDuringBorrow, 20, Some(10))]);
}

#[test]
fn a_reference_to_a_local_is_not_returned() {
    let returns = |argument: bool| {
        body(
            vec![local(number(), argument), local(reference(false, number()), false)],
            vec![block(
                vec![borrow(1, BorrowKind::Shared, whole(LocalId(0)), 10)],
                TerminatorKind::Return(Some(copied(1))),
                20,
            )],
            reference(false, number()),
        )
    };
    assert_eq!(found(&returns(false)), vec![(Finding::ReturnedLocalReference, 20, Some(10))]);
    assert_eq!(found(&returns(true)), vec![]);
}

fn branch(at: u32) -> TerminatorKind {
    TerminatorKind::Switch {
        value: copied(at as usize),
        targets: List::from_vec(vec![SwitchTarget { value: 1, block: BasicBlockId(1) }]),
        otherwise: BasicBlockId(2),
    }
}

#[test]
fn the_first_loan_of_a_returned_local_tells() {
    // One way borrows the argument, the other one a local. Control joins in the last block.
    let joined = |first: usize, second: usize| {
        body(
            vec![
                local(number(), true),
                local(number(), false),
                local(reference(false, number()), false),
            ],
            vec![
                block(vec![], branch(0), 1),
                block(
                    vec![borrow(2, BorrowKind::Shared, whole(LocalId(first)), 10)],
                    TerminatorKind::Goto(BasicBlockId(3)),
                    11,
                ),
                block(
                    vec![borrow(2, BorrowKind::Shared, whole(LocalId(second)), 20)],
                    TerminatorKind::Goto(BasicBlockId(3)),
                    21,
                ),
                block(vec![], TerminatorKind::Return(Some(copied(2))), 30),
            ],
            reference(false, number()),
        )
    };
    let found_in = [found(&joined(0, 1)), found(&joined(1, 0))];
    // On one of the two ways in, the local's loan comes first.
    assert!(found_in.contains(&vec![]));
    assert!(
        found_in.contains(&vec![(Finding::ReturnedLocalReference, 30, Some(10))])
            || found_in.contains(&vec![(Finding::ReturnedLocalReference, 30, Some(20))])
    );
}

#[test]
fn a_success_payload_is_returned_too() {
    let body = body(
        vec![local(number(), false), local(reference(false, number()), false)],
        vec![block(
            vec![borrow(1, BorrowKind::Shared, whole(LocalId(0)), 10)],
            TerminatorKind::TaggedReturn {
                completion: Completion::Success,
                payload: Some(copied(1)),
            },
            20,
        )],
        reference(false, number()),
    );
    assert_eq!(found(&body), vec![(Finding::ReturnedLocalReference, 20, Some(10))]);
}

#[test]
fn no_borrow_of_a_local_is_held_while_waiting() {
    let waits = |argument: bool| {
        body(
            vec![
                local(number(), argument),
                local(reference(false, number()), false),
                local(number(), true),
            ],
            vec![
                block(
                    vec![borrow(1, BorrowKind::Shared, whole(LocalId(0)), 10)],
                    TerminatorKind::Suspend {
                        value: copied(2),
                        destination: None,
                        error_destination: None,
                        resume: BasicBlockId(1),
                        error: None,
                        cancel: BasicBlockId(1),
                    },
                    20,
                ),
                block(vec![put(1, copied(1), 30)], TerminatorKind::Return(None), 40),
            ],
            number(),
        )
    };
    assert_eq!(found(&waits(false)), vec![(Finding::BorrowAcrossSuspend, 20, Some(10))]);
    assert_eq!(found(&waits(true)), vec![]);
}

#[test]
fn what_one_branch_moves_is_gone_behind_both() {
    let body = body(
        vec![local(number(), true), local(owned(), true), local(owned(), false)],
        vec![
            block(vec![], branch(0), 1),
            block(vec![put(2, moved(1), 10)], TerminatorKind::Goto(BasicBlockId(3)), 11),
            block(vec![], TerminatorKind::Goto(BasicBlockId(3)), 21),
            block(vec![put(2, moved(1), 30)], TerminatorKind::Return(None), 40),
        ],
        number(),
    );
    assert_eq!(found(&body), vec![(Finding::MoveAfterMove, 30, Some(10))]);
}

#[test]
fn what_a_loop_moves_is_gone_the_second_time() {
    let body = body(
        vec![local(number(), true), local(owned(), true), local(owned(), false)],
        vec![
            block(vec![], branch(0), 1),
            block(vec![put(2, moved(1), 10)], TerminatorKind::Goto(BasicBlockId(0)), 11),
            block(vec![], TerminatorKind::Return(None), 21),
        ],
        number(),
    );
    assert_eq!(found(&body), vec![(Finding::MoveAfterMove, 10, Some(10))]);
}

#[test]
fn findings_come_in_the_order_of_the_source_and_once() {
    let body = body(
        vec![local(owned(), true), local(owned(), false), local(owned(), false)],
        vec![block(
            vec![
                put(1, moved(0), 10),
                put(2, copied(0), 50),
                put(2, copied(0), 20),
                put(2, copied(0), 50),
            ],
            TerminatorKind::Return(None),
            60,
        )],
        number(),
    );
    assert_eq!(
        found(&body),
        vec![(Finding::UseAfterMove, 20, Some(10)), (Finding::UseAfterMove, 50, Some(10))]
    );
}

#[test]
fn a_dropped_place_must_have_its_value() {
    let body = body(
        vec![local(owned(), true), local(owned(), false)],
        vec![
            block(
                vec![put(1, moved(0), 10)],
                TerminatorKind::Drop { place: whole(LocalId(0)), success: BasicBlockId(1) },
                20,
            ),
            block(vec![], TerminatorKind::Return(None), 30),
        ],
        number(),
    );
    assert_eq!(found(&body), vec![(Finding::MoveAfterMove, 20, Some(10))]);
}

#[test]
fn an_invalid_body_is_reported_and_not_analysed() {
    let mut names = Names { texts: Vec::new() };
    names.texts.push("block 3 has no terminator".to_string());
    names.texts.push("local 9 is not declared".to_string());
    let body = body(
        vec![local(owned(), true), local(owned(), false), local(owned(), false)],
        vec![block(
            vec![put(1, moved(0), 10), put(2, moved(0), 20)],
            TerminatorKind::Return(None),
            30,
        )],
        number(),
    );
    let error = |text: u32| ValidationError { text: Name::Other(text) };
    let invalid = check_ownership(&body, &vec![error(0), error(1)], &facts());
    assert_eq!(
        invalid.diagnostics,
        vec![Diagnostic {
            finding: Finding::InvalidMir,
            primary: span(0),
            secondary: None,
            notes: List::from_vec(vec![Name::Other(0), Name::Other(1)]),
        }]
    );
    assert_eq!(
        invalid.diagnostics[0].message(&names),
        "MIR validation failed before ownership analysis: block 3 has no terminator; local 9 is \
         not declared"
    );
    assert_eq!(invalid.diagnostics[0].code(), "mir/invalid/before/borrow/check");
    let once = check_ownership(&body, &vec![error(1)], &facts());
    assert_eq!(once.diagnostics.len(), 1);
    assert_eq!(once.diagnostics[0].finding, Finding::InvalidMir);
    assert_eq!(
        once.diagnostics[0].message(&names),
        "MIR validation failed before ownership analysis: local 9 is not declared"
    );
    let analysed = check_ownership(&body, &Vec::new(), &facts());
    assert_eq!(analysed.diagnostics.len(), 1);
    assert_eq!(analysed.diagnostics[0].finding, Finding::MoveAfterMove);
}

#[test]
fn captures_must_cross_threads() {
    let names = Names { texts: vec!["counter".to_string()] };
    let capture = |ty: Type, kind: CaptureKind| Capture {
        name: Name::Other(0),
        ty,
        kind,
        span: span(5),
    };
    let checked = |capture: Capture, detached: bool| {
        check_capture_requirements(&vec![capture], detached, &facts()).diagnostics
    };
    assert_eq!(checked(capture(owned(), CaptureKind::Move), false), vec![]);
    // The type may be sent, but not be shared.
    let shared = checked(capture(owned(), CaptureKind::SharedBorrow), false);
    assert_eq!(shared.len(), 1);
    assert_eq!(shared[0].finding, Finding::CaptureNotThreadSafe(Name::Other(0)));
    assert_eq!(shared[0].message(&names), "capture `counter` does not satisfy Send/Sync");
    let borrowed = || capture(reference(false, number()), CaptureKind::SharedBorrow);
    assert_eq!(checked(borrowed(), false), vec![]);
    let detached = checked(borrowed(), true);
    assert_eq!(detached.len(), 1);
    assert_eq!(detached[0].finding, Finding::DetachedCaptureNotStatic(Name::Other(0)));
    let process_wide = Type::Reference {
        mutable: false,
        lifetime: Name::Static,
        referent: Box::new(number()),
    };
    assert_eq!(checked(capture(process_wide, CaptureKind::SharedBorrow), true), vec![]);
}

#[test]
fn properties_of_types_follow_their_parts() {
    let facts = OwnershipFacts {
        copy: vec![DeclarationId(1)],
        drop: vec![DROPPED],
        send: vec![OWNED, DROPPED],
        sync: vec![DROPPED],
    };
    let nominal = |id: DeclarationId| Type::Nominal(id, List::Nil);
    assert!(facts.is_copy(&number()));
    assert!(facts.is_copy(&nominal(DeclarationId(1))));
    assert!(!facts.is_copy(&owned()));
    assert!(!facts.is_copy(&Type::String));
    assert!(facts.is_copy(&reference(false, owned())));
    assert!(!facts.is_copy(&reference(true, number())));
    assert!(facts.is_copy(&Type::Array(Box::new(number()), 3)));
    assert!(!facts.is_copy(&Type::Tuple(List::from_vec(vec![number(), owned()]))));
    assert!(facts.has_drop(&dropped()));
    assert!(facts.has_drop(&Type::Optional(Box::new(Type::String))));
    assert!(!facts.has_drop(&Type::Str));
    assert!(!facts.has_drop(&reference(false, dropped())));
    assert!(facts.is_send(&owned()));
    assert!(!facts.is_sync(&owned()));
    // A shared reference crosses where its referent is shared; a mutable one where it is sent.
    assert!(!facts.is_send(&reference(false, owned())));
    assert!(facts.is_send(&reference(true, owned())));
    assert!(facts.is_send(&reference(false, dropped())));
    assert!(!facts.is_send(&Type::RawPointer { mutable: false, pointee: Box::new(number()) }));
}

#[test]
fn places_overlap_unless_they_part() {
    let root = whole(LocalId(0));
    let first = field(0, 0);
    let second = field(0, 1);
    let index = |local: usize| Place {
        local: LocalId(0),
        projection: List::from_vec(vec![Projection::Index(LocalId(local))]),
    };
    assert!(places_overlap(&root, &first));
    assert!(places_overlap(&first, &root));
    assert!(!places_overlap(&first, &second));
    assert!(!places_overlap(&root, &whole(LocalId(1))));
    assert!(places_overlap(&index(1), &index(2)));
    assert!(place_contains(&root, &first));
    assert!(place_contains(&first, &first));
    assert!(!place_contains(&first, &root));
}

#[test]
fn a_union_keeps_what_was_there_and_repeats_nothing() {
    let mut kept: Vec<u32> = vec![3, 1];
    extend_unique(&mut kept, &vec![1, 2, 2, 3]);
    assert_eq!(kept, vec![3, 1, 2]);
}

#[test]
fn findings_come_in_the_order_of_the_names_of_files() {
    let order = |place: PathPlace| -> Vec<File> {
        let files = [
            File::Generator,
            File::Module(ModuleFile { place, number: 7 }),
            File::Compiler,
            File::Module(ModuleFile { place, number: 3 }),
            File::Body,
            File::Binding,
        ];
        let mut statements = vec![put(1, moved(0), 10)];
        for file in files {
            let mut statement = put(2, copied(0), 20);
            statement.span.file = file;
            statements.push(statement);
        }
        let body = body(
            vec![local(owned(), true), local(owned(), false), local(owned(), false)],
            vec![block(statements, TerminatorKind::Return(None), 30)],
            number(),
        );
        check_ownership(&body, &Vec::new(), &facts())
            .diagnostics
            .iter()
            .map(|diagnostic| diagnostic.primary.file)
            .collect()
    };
    let module = |place: PathPlace, number: u32| File::Module(ModuleFile { place, number });
    let (early, late) = (PathPlace::BeforeBinding, PathPlace::BehindGenerator);
    assert_eq!(
        order(late),
        vec![
            File::Binding,
            File::Body,
            File::Compiler,
            File::Generator,
            module(late, 3),
            module(late, 7),
        ]
    );
    assert_eq!(
        order(early),
        vec![
            module(early, 3),
            module(early, 7),
            File::Binding,
            File::Body,
            File::Compiler,
            File::Generator,
        ]
    );
}

#[test]
fn a_finding_is_repeated_only_where_another_stands_between() {
    let ends = |ends: Vec<u32>| -> Vec<u32> {
        let mut statements = vec![put(1, moved(0), 10)];
        for end in ends {
            let mut statement = put(2, copied(0), 20);
            statement.span.byte_end = end;
            statements.push(statement);
        }
        let body = body(
            vec![local(owned(), true), local(owned(), false), local(owned(), false)],
            vec![block(statements, TerminatorKind::Return(None), 30)],
            number(),
        );
        check_ownership(&body, &Vec::new(), &facts())
            .diagnostics
            .iter()
            .map(|diagnostic| diagnostic.primary.byte_end)
            .collect()
    };
    assert_eq!(ends(vec![25, 25, 25]), vec![25]);
    assert_eq!(ends(vec![25, 22, 25]), vec![25, 22, 25]);
}

#[test]
fn findings_at_one_place_come_in_the_order_of_their_texts() {
    let body = body(
        vec![
            local(owned(), false),
            local(reference(true, owned()), false),
            local(owned(), false),
            local(reference(true, owned()), false),
        ],
        vec![block(
            vec![
                borrow(1, BorrowKind::Mutable, whole(LocalId(0)), 10),
                put(2, moved(0), 15),
                put(2, copied(0), 20),
                put(3, copied(1), 30),
            ],
            TerminatorKind::Return(None),
            40,
        )],
        number(),
    );
    assert_eq!(
        found(&body),
        vec![
            (Finding::WriteDuringBorrow, 15, Some(10)),
            (Finding::ReadDuringMutableBorrow, 20, Some(10)),
            (Finding::UseAfterMove, 20, Some(15)),
        ]
    );
}
