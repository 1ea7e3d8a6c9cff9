use pass_inst::inst::{InstError, Instrumenter, WarnKind};

fn run(src: &str) -> String {
    let mut inst = Instrumenter::new();
    let out = match inst.instrument("test.cpp", src) {
        Ok(o) => o,
        Err(_) => panic!("instrumentation failed"),
    };
    String::from_utf8(out.code).unwrap()
}

#[test]
fn create_bound_by_declaration() {
    let src = "#include \"llvm/IR/X.h\"\n\nvoid helper() {\n  auto *I = BinaryOperator::Create(Op, L, R);\n}\n";
    let text = run(src);
    assert!(text.starts_with(
        "#include \"llvm/Transforms/Utils/DLMonitor.h\"\n#include \"llvm/IR/X.h\""
    ));
    assert!(text.contains(
        "auto *I = BinaryOperator::Create(Op, L, R); hook::OnCreate(I, 4, \"I\");"
    ));
}

#[test]
fn remove_as_bare_statement() {
    let src = "#include \"llvm/IR/X.h\"\n\nvoid helper() {\n  I->eraseFromParent();\n}\n";
    let text = run(src);
    assert!(text.contains("{ hook::OnRemove(I, 4, \"I\"); I->eraseFromParent(); }"));
}

#[test]
fn create_in_return_statement() {
    let src =
        "#include \"llvm/IR/X.h\"\n\nInstruction *helper() {\n  return BranchInst::Create(Dest);\n}\n";
    let text = run(src);
    assert!(text.contains(
        "{ auto *V = BranchInst::Create(Dest); hook::OnCreate(V, 4, \"\"); return V; }"
    ));
}

#[test]
fn pass_entry_start_and_finish() {
    let src = "#include \"llvm/IR/X.h\"\n\nPreservedAnalyses MyPass::run(Function &F, FunctionAnalysisManager &AM) {\n  doThing();\n  return PreservedAnalyses::all();\n}\n";
    let text = run(src);
    assert!(text.contains("hook::OnStart(F, \"test.cpp\");\n  doThing();"));
    assert!(text.contains("{ hook::OnFinish(); return PreservedAnalyses::all(); }"));
}

#[test]
fn pass_entry_with_loop_target() {
    let src = "#include \"llvm/IR/X.h\"\n\nPreservedAnalyses RotatePass::run(Loop &L, LoopAnalysisManager &AM) {\n  work();\n  return PreservedAnalyses::none();\n}\n";
    let text = run(src);
    assert!(text.contains("hook::OnStart(L, \"test.cpp\");\n  work();"));
    assert!(text.contains("{ hook::OnFinish(); return PreservedAnalyses::none(); }"));
}

#[test]
fn create_assigned_to_existing_variable() {
    let src = "#include \"llvm/IR/X.h\"\n\nvoid helper() {\n  I = BinaryOperator::Create(Op, L, R);\n}\n";
    let text = run(src);
    assert!(text.contains(
        "{ I = BinaryOperator::Create(Op, L, R); hook::OnCreate(I, 4, \"I\"); }"
    ));
}

#[test]
fn clone_bound_by_declaration() {
    let src = "#include \"llvm/IR/X.h\"\n\nvoid helper() {\n  auto *NI = OI->clone();\n}\n";
    let text = run(src);
    assert!(text.contains(
        "auto *NI = OI->clone(); hook::OnClone(NI, OI, 4, \"NI\", \"OI\");"
    ));
}

#[test]
fn clone_through_value_accessor_takes_address() {
    let src = "#include \"llvm/IR/X.h\"\n\nvoid helper() {\n  auto *NI = OI.clone();\n}\n";
    let text = run(src);
    assert!(text.contains(
        "auto *NI = OI.clone(); hook::OnClone(NI, &OI, 4, \"NI\", \"OI\");"
    ));
}

#[test]
fn move_as_bare_statement() {
    let src = "#include \"llvm/IR/X.h\"\n\nvoid helper() {\n  I->moveBefore(D);\n}\n";
    let text = run(src);
    assert!(text.contains("{ I->moveBefore(D); hook::OnMove(I, 4, \"I\"); }"));
}

#[test]
fn replace_all_uses_with_materializes_operands() {
    let src = "#include \"llvm/IR/X.h\"\n\nvoid helper() {\n  DLS->replaceAllUsesWith(DLD);\n}\n";
    let text = run(src);
    assert!(text.contains(
        "{ Value *DebugLocSrc = DLS; Value *DebugLocDst = DLD; DebugLocSrc->replaceAllUsesWith(DebugLocDst); hook::OnUseReplace(DebugLocSrc, DebugLocDst, 4, \"DLD\", \"DLS\"); }"
    ));
}

#[test]
fn replace_uses_of_with_materializes_operands() {
    let src = "#include \"llvm/IR/X.h\"\n\nvoid helper() {\n  U->replaceUsesOfWith(OldV, NewV);\n}\n";
    let text = run(src);
    assert!(text.contains(
        "{ Value *DebugLocSrc = OldV; Value *DebugLocDst = NewV; U->replaceUsesOfWith(DebugLocSrc, DebugLocDst); hook::OnUseReplace(DebugLocSrc, DebugLocDst, 4, \"NewV\", \"OldV\"); }"
    ));
}

#[test]
fn debug_location_hooks_follow_their_calls() {
    let src = "#include \"llvm/IR/X.h\"\n\nvoid helper() {\n  NI->setDebugLoc(DL);\n  NI->applyMergedLocation(A, B);\n  NI->dropLocation();\n}\n";
    let text = run(src);
    assert!(text.contains("{ NI->setDebugLoc(DL); hook::OnPreserve(NI, 4); }"));
    assert!(text.contains("{ NI->applyMergedLocation(A, B); hook::OnMerge(NI, 5); }"));
    assert!(text.contains("{ NI->dropLocation(); hook::OnDrop(NI, 6); }"));
}

#[test]
fn construction_bound_by_declaration() {
    let src = "#include \"llvm/IR/X.h\"\n\nvoid helper() {\n  auto *SI = new StoreInst(A, B);\n}\n";
    let text = run(src);
    assert!(text.contains("auto *SI = new StoreInst(A, B); hook::OnCreate(SI, 4, \"SI\");"));
}

#[test]
fn construction_in_return_statement() {
    let src = "#include \"llvm/IR/X.h\"\n\nValue *helper() {\n  return new LoadInst(A);\n}\n";
    let text = run(src);
    assert!(text.contains(
        "{ Value *V = new LoadInst(A); hook::OnCreate(V, 4, \"\"); return V; }"
    ));
}

#[test]
fn multiline_call_is_normalized_in_rewrites() {
    let src = "#include \"llvm/IR/X.h\"\n\nInstruction *helper() {\n  return BranchInst::Create(\n      Dest);\n}\n";
    let text = run(src);
    assert!(text.contains(
        "{ auto *V = BranchInst::Create( Dest); hook::OnCreate(V, 4, \"\"); return V; }"
    ));
}

#[test]
fn output_parses_under_the_same_grammar() {
    let fixtures = [
        "#include \"a.h\"\n\nvoid helper() {\n  auto *I = BinaryOperator::Create(Op, L, R);\n}\n",
        "#include \"a.h\"\n\nvoid helper() {\n  I = BinaryOperator::Create(Op, L, R);\n}\n",
        "#include \"a.h\"\n\nInstruction *helper() {\n  return BranchInst::Create(Dest);\n}\n",
        "#include \"a.h\"\n\nvoid helper() {\n  auto *NI = OI->clone();\n}\n",
        "#include \"a.h\"\n\nvoid helper() {\n  NI = OI.clone();\n}\n",
        "#include \"a.h\"\n\nvoid helper() {\n  I->moveBefore(D);\n}\n",
        "#include \"a.h\"\n\nvoid helper() {\n  DLS->replaceAllUsesWith(DLD);\n}\n",
        "#include \"a.h\"\n\nvoid helper() {\n  U->replaceUsesOfWith(OldV, NewV);\n}\n",
        "#include \"a.h\"\n\nvoid helper() {\n  I->eraseFromParent();\n}\n",
        "#include \"a.h\"\n\nvoid helper() {\n  NI->setDebugLoc(DL);\n}\n",
        "#include \"a.h\"\n\nvoid helper() {\n  NI->applyMergedLocation(A, B);\n}\n",
        "#include \"a.h\"\n\nvoid helper() {\n  NI->dropLocation();\n}\n",
        "#include \"a.h\"\n\nvoid helper() {\n  auto *SI = new StoreInst(A, B);\n}\n",
        "#include \"a.h\"\n\nValue *helper() {\n  return new LoadInst(A);\n}\n",
        "#include \"a.h\"\n\nPreservedAnalyses MyPass::run(Function &F, FunctionAnalysisManager &AM) {\n  doThing();\n  return PreservedAnalyses::all();\n}\n",
    ];
    for src in fixtures.iter() {
        assert!(Instrumenter::parses_cleanly(src));
        let text = run(src);
        assert!(Instrumenter::parses_cleanly(&text));
    }
}

#[test]
fn reinstrumenting_doubles_hooks() {
    // Idempotence is out of scope: a second pass over instrumented output
    // inserts hooks again rather than detecting the first pass's work.
    let src = "#include \"llvm/IR/X.h\"\n\nvoid helper() {\n  auto *I = BinaryOperator::Create(Op, L, R);\n}\n";
    let once = run(src);
    assert_eq!(once.matches("hook::OnCreate(").count(), 1);
    let twice = run(&once);
    assert!(twice.matches("hook::OnCreate(").count() >= 2);
    assert_ne!(once, twice);
}

#[test]
fn missing_include_is_fatal_for_the_file() {
    let src = "void helper() {\n  auto *I = BinaryOperator::Create(Op, L, R);\n}\n";
    let mut inst = Instrumenter::new();
    assert!(matches!(inst.instrument("test.cpp", src), Err(InstError::NoHeaderInclude)));
}

#[test]
fn pass_entry_without_parameters_is_fatal() {
    let src = "#include \"a.h\"\n\nPreservedAnalyses MyPass::run() {\n  return PreservedAnalyses::all();\n}\n";
    let mut inst = Instrumenter::new();
    assert!(matches!(inst.instrument("test.cpp", src), Err(InstError::MissingParamList)));
}

#[test]
fn overlapping_rewrites_are_fatal() {
    // Two recognized creation calls inside one return statement would both
    // rewrite the same range; the file is rejected rather than corrupted.
    let src = "#include \"a.h\"\n\nInstruction *helper() {\n  return pick(BinaryOperator::Create(A, B, C), BranchInst::Create(D));\n}\n";
    let mut inst = Instrumenter::new();
    assert!(matches!(inst.instrument("test.cpp", src), Err(InstError::OverlappingEdits)));
}

#[test]
fn unrecognized_pass_target_is_reported_not_fatal() {
    let src = "#include \"a.h\"\n\nPreservedAnalyses MyPass::run(int x) {\n  return PreservedAnalyses::all();\n}\n";
    let mut inst = Instrumenter::new();
    let out = inst.instrument("test.cpp", src).unwrap();
    assert!(out.warnings.iter().any(|w| matches!(w.kind, WarnKind::UnknownPassTarget)));
    let text = String::from_utf8(out.code).unwrap();
    assert!(!text.contains("hook::OnStart"));
}

#[test]
fn unsupported_construction_context_is_reported() {
    let src = "#include \"a.h\"\n\nvoid helper() {\n  consume(new StoreInst(A, B));\n}\n";
    let mut inst = Instrumenter::new();
    let out = inst.instrument("test.cpp", src).unwrap();
    assert!(out.warnings.iter().any(|w| matches!(w.kind, WarnKind::UnsupportedNewExpr)));
}
