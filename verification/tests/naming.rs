use pass_inst::ast::{AstNode, FieldTag, NodeData, NodeKind};
use pass_inst::classify::{FnKind, FnMatch};
use pass_inst::hook;
use pass_inst::strutil::usize_to_string;

#[test]
fn classify_clone_and_move() {
    assert!(matches!("clone".to_string().get_fn_kind(), Some(FnKind::Clone)));
    assert!(matches!("moveBefore".to_string().get_fn_kind(), Some(FnKind::Move)));
    assert!(matches!("moveBeforePreserving".to_string().get_fn_kind(), Some(FnKind::Move)));
    assert!(matches!("moveAfter".to_string().get_fn_kind(), Some(FnKind::Move)));
}

#[test]
fn classify_create_exact_and_prefix() {
    assert!(matches!("AllocaInst".to_string().get_fn_kind(), Some(FnKind::Create)));
    assert!(matches!("BinaryOperator::Create".to_string().get_fn_kind(), Some(FnKind::Create)));
    assert!(matches!("BinaryOperator::CreateAdd".to_string().get_fn_kind(), Some(FnKind::Create)));
    assert!(matches!(
        "CallBase::removeOperandBundleAt".to_string().get_fn_kind(),
        Some(FnKind::Create)
    ));
    assert!(matches!("ZExtInst".to_string().get_fn_kind(), Some(FnKind::Create)));
    // Bare entries require full equality: no prefix matching.
    assert!("AllocaInstX".to_string().get_fn_kind().is_none());
    assert!("StoreIns".to_string().get_fn_kind().is_none());
}

#[test]
fn classify_use_replace_remove_and_debug_loc() {
    assert!(matches!("replaceAllUsesWith".to_string().get_fn_kind(), Some(FnKind::UseReplace)));
    assert!(matches!("replaceUsesOfWith".to_string().get_fn_kind(), Some(FnKind::UseReplace)));
    assert!(matches!("eraseFromParent".to_string().get_fn_kind(), Some(FnKind::Remove)));
    assert!(matches!("setDebugLoc".to_string().get_fn_kind(), Some(FnKind::DLPreserve)));
    assert!(matches!("applyMergedLocation".to_string().get_fn_kind(), Some(FnKind::DLMerge)));
    assert!(matches!("dropLocation".to_string().get_fn_kind(), Some(FnKind::DLDrop)));
    assert!(matches!("updateLocationAfterHoist".to_string().get_fn_kind(), Some(FnKind::DLDrop)));
    assert!("setDebugLo".to_string().get_fn_kind().is_none());
    assert!("".to_string().get_fn_kind().is_none());
}

#[test]
fn classify_pass_entry() {
    assert!("MyPass::run".to_string().is_pass_entry());
    assert!("LoopRotatePass::run".to_string().is_pass_entry());
    assert!(!"run".to_string().is_pass_entry());
    assert!(!"MyPass::runImpl".to_string().is_pass_entry());
    assert!(!"".to_string().is_pass_entry());
}

#[test]
fn hook_strings_exact() {
    assert_eq!(hook::on_start("F", "test.cpp"), "hook::OnStart(F, \"test.cpp\")");
    assert_eq!(hook::on_finish(), "hook::OnFinish()");
    assert_eq!(hook::on_create("I", 12, "I"), "hook::OnCreate(I, 12, \"I\")");
    assert_eq!(hook::on_move("&T", 3, "T"), "hook::OnMove(&T, 3, \"T\")");
    assert_eq!(hook::on_remove("I", 105, "I"), "hook::OnRemove(I, 105, \"I\")");
    assert_eq!(hook::on_clone("NI", "OI", 7, "NI", "OI"), "hook::OnClone(NI, OI, 7, \"NI\", \"OI\")");
    assert_eq!(
        hook::on_use_replace("S", "D", 9, "d", "s"),
        "hook::OnUseReplace(S, D, 9, \"d\", \"s\")"
    );
    assert_eq!(hook::on_preserve("NI", 4), "hook::OnPreserve(NI, 4)");
    assert_eq!(hook::on_merge("NI", 5), "hook::OnMerge(NI, 5)");
    assert_eq!(hook::on_drop("NI", 6), "hook::OnDrop(NI, 6)");
}

#[test]
fn decimal_rendering() {
    assert_eq!(usize_to_string(0), "0");
    assert_eq!(usize_to_string(9), "9");
    assert_eq!(usize_to_string(10), "10");
    assert_eq!(usize_to_string(105), "105");
    assert_eq!(usize_to_string(987654), "987654");
}

#[test]
fn node_accessors_and_text() {
    let n = NodeData {
        kind: NodeKind::FunctionDefinition,
        field: FieldTag::NoField,
        start_byte: 2,
        end_byte: 12,
        row0: 4,
        parent: 0,
        children: vec![],
    };
    assert_eq!(n.row(), 5);
    assert!(n.is_fn_def());
    assert!(!n.is_header_include());
    assert!(!n.is_using_decl());
    let code: Vec<u8> = b"ab  x\n  y \nz ded".to_vec();
    assert_eq!(n.to_raw(&code), b"  x\n  y \nz".to_vec());
    assert_eq!(n.to_source(&code), b"x y z".to_vec());
}

#[test]
fn node_text_normalization_blank_lines() {
    let n = NodeData {
        kind: NodeKind::CallExpression,
        field: FieldTag::NoField,
        start_byte: 0,
        end_byte: 8,
        row0: 0,
        parent: 0,
        children: vec![],
    };
    // A blank middle segment still contributes a joining space per side.
    let code: Vec<u8> = b"a\n\nb    ".to_vec();
    assert_eq!(n.to_source(&code), b"a  b".to_vec());
}
