//! Classification of call and constructor names into lifecycle-event kinds.
//!
//! The vocabulary is the fixed IR-mutation surface of the pass-construction
//! library being instrumented. Matching is exact for bare names; entries that
//! carry a `::` qualifier match as prefixes, so `BinaryOperator::CreateAdd`
//! still counts as a creation site. The rules are tried in a fixed priority
//! order so that overlaps resolve deterministically.

use vstd::prelude::*;

use crate::strutil::{seq_ends_with, seq_starts_with, str_ends_with, str_eq, str_starts_with};

verus! {

/// The closed set of lifecycle-event kinds a recognized name can denote.
#[derive(PartialEq, Eq, Structural, Clone, Copy, Debug)]
pub enum FnKind {
    Create,
    Clone,
    Move,
    UseReplace,
    Remove,
    DLPreserve,
    DLMerge,
    DLDrop,
}

/// The single method name that duplicates an IR value.
pub open spec fn is_clone_name(s: Seq<char>) -> bool {
    s == "clone"@
}

/// The three method names that relocate a value within its container.
pub open spec fn is_move_name(s: Seq<char>) -> bool {
    ||| s == "moveBefore"@
    ||| s == "moveBeforePreserving"@
    ||| s == "moveAfter"@
}

/// The creation vocabulary: qualified entries match as prefixes, bare
/// entries require full equality.
pub open spec fn is_create_name(s: Seq<char>) -> bool {
    ||| s == "AllocaInst"@
    ||| seq_starts_with(s, "BinaryOperator::Create"@)
    ||| seq_starts_with(s, "BranchInst::Create"@)
    ||| seq_starts_with(s, "CallBase::Create"@)
    ||| seq_starts_with(s, "CallBase::addOperandBundle"@)
    ||| seq_starts_with(s, "CallBase::removeOperandBundle"@)
    ||| seq_starts_with(s, "CallBrInst::Create"@)
    ||| seq_starts_with(s, "CallInst::Create"@)
    ||| seq_starts_with(s, "CmpInst::Create"@)
    ||| s == "FCmpInst"@
    ||| s == "ICmpInst"@
    ||| seq_starts_with(s, "ExtractElementInst::Create"@)
    ||| seq_starts_with(s, "GetElementPtrInst::Create"@)
    ||| seq_starts_with(s, "InsertElementInst::Create"@)
    ||| seq_starts_with(s, "InsertValueInst::Create"@)
    ||| seq_starts_with(s, "PHINode::Create"@)
    ||| seq_starts_with(s, "ReturnInst::Create"@)
    ||| seq_starts_with(s, "SelectInst::Create"@)
    ||| s == "StoreInst"@
    ||| seq_starts_with(s, "SwitchInst::Create"@)
    ||| seq_starts_with(s, "UnaryOperator::Create"@)
    ||| s == "LoadInst"@
    ||| s == "FreezeInst"@
    ||| seq_starts_with(s, "ExtractValueInst::Create"@)
    ||| seq_starts_with(s, "CastInst::Create"@)
    ||| s == "AddrSpaceCastInst"@
    ||| s == "BitCastInst"@
    ||| s == "FPExtInst"@
    ||| s == "FPToSIInst"@
    ||| s == "FPToUIInst"@
    ||| s == "FPTruncInst"@
    ||| s == "IntToPtrInst"@
    ||| s == "PtrToIntInst"@
    ||| s == "SExtInst"@
    ||| s == "SIToFPInst"@
    ||| s == "TruncInst"@
    ||| s == "UIToFPInst"@
    ||| s == "ZExtInst"@
}

/// The two use-replacement names: whole-value and by-instance replacement.
pub open spec fn is_use_replace_name(s: Seq<char>) -> bool {
    ||| s == "replaceAllUsesWith"@
    ||| s == "replaceUsesOfWith"@
}

/// The single detachment-and-destruction name.
pub open spec fn is_remove_name(s: Seq<char>) -> bool {
    s == "eraseFromParent"@
}

/// The debug-location preservation name.
pub open spec fn is_dl_preserve_name(s: Seq<char>) -> bool {
    s == "setDebugLoc"@
}

/// The debug-location merge name.
pub open spec fn is_dl_merge_name(s: Seq<char>) -> bool {
    s == "applyMergedLocation"@
}

/// The two debug-location dropping names.
pub open spec fn is_dl_drop_name(s: Seq<char>) -> bool {
    ||| s == "dropLocation"@
    ||| s == "updateLocationAfterHoist"@
}

/// The event kind assigned to a name, applying the matching rules in their
/// fixed priority order, or `None` for a name outside the vocabulary.
pub open spec fn spec_fn_kind(s: Seq<char>) -> Option<FnKind> {
    if is_clone_name(s) {
        Some(FnKind::Clone)
    } else if is_move_name(s) {
        Some(FnKind::Move)
    } else if is_create_name(s) {
        Some(FnKind::Create)
    } else if is_use_replace_name(s) {
        Some(FnKind::UseReplace)
    } else if is_dl_preserve_name(s) {
        Some(FnKind::DLPreserve)
    } else if is_dl_merge_name(s) {
        Some(FnKind::DLMerge)
    } else if is_dl_drop_name(s) {
        Some(FnKind::DLDrop)
    } else if is_remove_name(s) {
        Some(FnKind::Remove)
    } else {
        None
    }
}

/// A pass's framework-called entry point is recognized by its name's suffix.
pub open spec fn spec_is_pass_entry(s: Seq<char>) -> bool {
    seq_ends_with(s, "Pass::run"@)
}

/// Name-based lookup of the lifecycle-event taxonomy.
pub trait FnMatch: View<V = Seq<char>> {
    /// The event kind this name denotes, if any.
    fn get_fn_kind(&self) -> (r: Option<FnKind>)
        ensures
            r == spec_fn_kind(self@),
    ;

    /// Whether this name follows the pass-entry naming convention.
    fn is_pass_entry(&self) -> (r: bool)
        ensures
            r == spec_is_pass_entry(self@),
    ;
}

fn kind_of_str(s: &str) -> (r: Option<FnKind>)
    ensures
        r == spec_fn_kind(s@),
{
    if str_eq(s, "clone") {
        return Some(FnKind::Clone);
    }
    if str_eq(s, "moveBefore") || str_eq(s, "moveBeforePreserving") || str_eq(s, "moveAfter") {
        return Some(FnKind::Move);
    }
    if is_create_str(s) {
        return Some(FnKind::Create);
    }
    if str_eq(s, "replaceAllUsesWith") || str_eq(s, "replaceUsesOfWith") {
        return Some(FnKind::UseReplace);
    }
    if str_eq(s, "setDebugLoc") {
        return Some(FnKind::DLPreserve);
    }
    if str_eq(s, "applyMergedLocation") {
        return Some(FnKind::DLMerge);
    }
    if str_eq(s, "dropLocation") || str_eq(s, "updateLocationAfterHoist") {
        return Some(FnKind::DLDrop);
    }
    if str_eq(s, "eraseFromParent") {
        return Some(FnKind::Remove);
    }
    None
}

fn is_create_str(s: &str) -> (r: bool)
    ensures
        r == is_create_name(s@),
{
    if str_eq(s, "AllocaInst") {
        return true;
    }
    if str_starts_with(s, "BinaryOperator::Create") {
        return true;
    }
    if str_starts_with(s, "BranchInst::Create") {
        return true;
    }
    if str_starts_with(s, "CallBase::Create") {
        return true;
    }
    if str_starts_with(s, "CallBase::addOperandBundle") {
        return true;
    }
    if str_starts_with(s, "CallBase::removeOperandBundle") {
        return true;
    }
    if str_starts_with(s, "CallBrInst::Create") {
        return true;
    }
    if str_starts_with(s, "CallInst::Create") {
        return true;
    }
    if str_starts_with(s, "CmpInst::Create") {
        return true;
    }
    if str_eq(s, "FCmpInst") {
        return true;
    }
    if str_eq(s, "ICmpInst") {
        return true;
    }
    if str_starts_with(s, "ExtractElementInst::Create") {
        return true;
    }
    if str_starts_with(s, "GetElementPtrInst::Create") {
        return true;
    }
    if str_starts_with(s, "InsertElementInst::Create") {
        return true;
    }
    if str_starts_with(s, "InsertValueInst::Create") {
        return true;
    }
    if str_starts_with(s, "PHINode::Create") {
        return true;
    }
    if str_starts_with(s, "ReturnInst::Create") {
        return true;
    }
    if str_starts_with(s, "SelectInst::Create") {
        return true;
    }
    if str_eq(s, "StoreInst") {
        return true;
    }
    if str_starts_with(s, "SwitchInst::Create") {
        return true;
    }
    if str_starts_with(s, "UnaryOperator::Create") {
        return true;
    }
    if str_eq(s, "LoadInst") {
        return true;
    }
    if str_eq(s, "FreezeInst") {
        return true;
    }
    if str_starts_with(s, "ExtractValueInst::Create") {
        return true;
    }
    if str_starts_with(s, "CastInst::Create") {
        return true;
    }
    if str_eq(s, "AddrSpaceCastInst") {
        return true;
    }
    if str_eq(s, "BitCastInst") {
        return true;
    }
    if str_eq(s, "FPExtInst") {
        return true;
    }
    if str_eq(s, "FPToSIInst") {
        return true;
    }
    if str_eq(s, "FPToUIInst") {
        return true;
    }
    if str_eq(s, "FPTruncInst") {
        return true;
    }
    if str_eq(s, "IntToPtrInst") {
        return true;
    }
    if str_eq(s, "PtrToIntInst") {
        return true;
    }
    if str_eq(s, "SExtInst") {
        return true;
    }
    if str_eq(s, "SIToFPInst") {
        return true;
    }
    if str_eq(s, "TruncInst") {
        return true;
    }
    if str_eq(s, "UIToFPInst") {
        return true;
    }
    if str_eq(s, "ZExtInst") {
        return true;
    }
    false
}

impl FnMatch for String {
    fn get_fn_kind(&self) -> (r: Option<FnKind>) {
        kind_of_str(self.as_str())
    }

    fn is_pass_entry(&self) -> (r: bool) {
        str_ends_with(self.as_str(), "Pass::run")
    }
}

} // verus!
