//! Builders for the monitoring-API call strings spliced into instrumented
//! sources. Each builder's contract pins the exact character sequence
//! produced, so downstream edit templates can speak about their content.

use vstd::prelude::*;

use crate::strutil::{spec_digits, usize_to_string};

verus! {

/// The include directive that declares the monitoring API in each output file.
pub const HEADER_INCLUDE: &'static str = "#include \"llvm/Transforms/Utils/DLMonitor.h\"\n";

/// The call reporting pass entry.
pub open spec fn spec_on_start(target: Seq<char>, pass_name: Seq<char>) -> Seq<char> {
    "hook::OnStart("@ + target + ", \""@ + pass_name + "\")"@
}

/// The call reporting pass exit.
pub open spec fn spec_on_finish() -> Seq<char> {
    "hook::OnFinish()"@
}

/// A three-argument lifecycle call: value, line, quoted variable name.
pub open spec fn spec_val_line_var(
    head: Seq<char>,
    val: Seq<char>,
    line: nat,
    var_name: Seq<char>,
) -> Seq<char> {
    head + val + ", "@ + spec_digits(line) + ", \""@ + var_name + "\")"@
}

/// The call reporting a value-creation site.
pub open spec fn spec_on_create(val: Seq<char>, line: nat, var_name: Seq<char>) -> Seq<char> {
    spec_val_line_var("hook::OnCreate("@, val, line, var_name)
}

/// The call reporting a value-relocation site.
pub open spec fn spec_on_move(val: Seq<char>, line: nat, var_name: Seq<char>) -> Seq<char> {
    spec_val_line_var("hook::OnMove("@, val, line, var_name)
}

/// The call reporting a detachment/destruction site.
pub open spec fn spec_on_remove(val: Seq<char>, line: nat, var_name: Seq<char>) -> Seq<char> {
    spec_val_line_var("hook::OnRemove("@, val, line, var_name)
}

/// A five-argument call: two values, line, two quoted variable names.
pub open spec fn spec_two_val_line_vars(
    head: Seq<char>,
    a: Seq<char>,
    b: Seq<char>,
    line: nat,
    var_name: Seq<char>,
    old_var_name: Seq<char>,
) -> Seq<char> {
    head + a + ", "@ + b + ", "@ + spec_digits(line) + ", \""@ + var_name + "\", \""@
        + old_var_name + "\")"@
}

/// The call reporting a duplication site.
pub open spec fn spec_on_clone(
    new_val: Seq<char>,
    old_val: Seq<char>,
    line: nat,
    var_name: Seq<char>,
    old_var_name: Seq<char>,
) -> Seq<char> {
    spec_two_val_line_vars("hook::OnClone("@, new_val, old_val, line, var_name, old_var_name)
}

/// The call reporting a use-replacement site.
pub open spec fn spec_on_use_replace(
    from_val: Seq<char>,
    to_val: Seq<char>,
    line: nat,
    var_name: Seq<char>,
    old_var_name: Seq<char>,
) -> Seq<char> {
    spec_two_val_line_vars("hook::OnUseReplace("@, from_val, to_val, line, var_name, old_var_name)
}

/// A two-argument debug-location call: value and line.
pub open spec fn spec_val_line(head: Seq<char>, val: Seq<char>, line: nat) -> Seq<char> {
    head + val + ", "@ + spec_digits(line) + ")"@
}

/// The call reporting a debug-location preservation.
pub open spec fn spec_on_preserve(val: Seq<char>, line: nat) -> Seq<char> {
    spec_val_line("hook::OnPreserve("@, val, line)
}

/// The call reporting a debug-location merge.
pub open spec fn spec_on_merge(val: Seq<char>, line: nat) -> Seq<char> {
    spec_val_line("hook::OnMerge("@, val, line)
}

/// The call reporting a debug-location drop.
pub open spec fn spec_on_drop(val: Seq<char>, line: nat) -> Seq<char> {
    spec_val_line("hook::OnDrop("@, val, line)
}

/// Hook call for pass entry.
pub fn on_start(pass_target: &str, pass_name: &str) -> (r: String)
    ensures
        r@ == spec_on_start(pass_target@, pass_name@),
{
    let mut s = String::from_str("hook::OnStart(");
    s.append(pass_target);
    s.append(", \"");
    s.append(pass_name);
    s.append("\")");
    proof {
        assert(s@ =~= spec_on_start(pass_target@, pass_name@));
    }
    s
}

/// Hook call for pass exit.
pub fn on_finish() -> (r: String)
    ensures
        r@ == spec_on_finish(),
{
    String::from_str("hook::OnFinish()")
}

fn val_line_var(head: &str, val: &str, line: usize, var_name: &str) -> (r: String)
    ensures
        r@ == spec_val_line_var(head@, val@, line as nat, var_name@),
{
    let mut s = String::from_str(head);
    s.append(val);
    s.append(", ");
    let d = usize_to_string(line);
    s.append(d.as_str());
    s.append(", \"");
    s.append(var_name);
    s.append("\")");
    proof {
        assert(s@ =~= spec_val_line_var(head@, val@, line as nat, var_name@));
    }
    s
}

/// Hook call for a creation site.
pub fn on_create(val: &str, line: usize, var_name: &str) -> (r: String)
    ensures
        r@ == spec_on_create(val@, line as nat, var_name@),
{
    val_line_var("hook::OnCreate(", val, line, var_name)
}

/// Hook call for a relocation site.
pub fn on_move(val: &str, line: usize, var_name: &str) -> (r: String)
    ensures
        r@ == spec_on_move(val@, line as nat, var_name@),
{
    val_line_var("hook::OnMove(", val, line, var_name)
}

/// Hook call for a detachment/destruction site.
pub fn on_remove(val: &str, line: usize, var_name: &str) -> (r: String)
    ensures
        r@ == spec_on_remove(val@, line as nat, var_name@),
{
    val_line_var("hook::OnRemove(", val, line, var_name)
}

fn two_val_line_vars(
    head: &str,
    a: &str,
    b: &str,
    line: usize,
    var_name: &str,
    old_var_name: &str,
) -> (r: String)
    ensures
        r@ == spec_two_val_line_vars(head@, a@, b@, line as nat, var_name@, old_var_name@),
{
    let mut s = String::from_str(head);
    s.append(a);
    s.append(", ");
    s.append(b);
    s.append(", ");
    let d = usize_to_string(line);
    s.append(d.as_str());
    s.append(", \"");
    s.append(var_name);
    s.append("\", \"");
    s.append(old_var_name);
    s.append("\")");
    proof {
        assert(s@ =~= spec_two_val_line_vars(
            head@,
            a@,
            b@,
            line as nat,
            var_name@,
            old_var_name@,
        ));
    }
    s
}

/// Hook call for a duplication site.
pub fn on_clone(
    new_val: &str,
    old_val: &str,
    line: usize,
    var_name: &str,
    old_var_name: &str,
) -> (r: String)
    ensures
        r@ == spec_on_clone(new_val@, old_val@, line as nat, var_name@, old_var_name@),
{
    two_val_line_vars("hook::OnClone(", new_val, old_val, line, var_name, old_var_name)
}

/// Hook call for a use-replacement site.
pub fn on_use_replace(
    from_val: &str,
    to_val: &str,
    line: usize,
    var_name: &str,
    old_var_name: &str,
) -> (r: String)
    ensures
        r@ == spec_on_use_replace(from_val@, to_val@, line as nat, var_name@, old_var_name@),
{
    two_val_line_vars("hook::OnUseReplace(", from_val, to_val, line, var_name, old_var_name)
}

fn val_line(head: &str, val: &str, line: usize) -> (r: String)
    ensures
        r@ == spec_val_line(head@, val@, line as nat),
{
    let mut s = String::from_str(head);
    s.append(val);
    s.append(", ");
    let d = usize_to_string(line);
    s.append(d.as_str());
    s.append(")");
    proof {
        assert(s@ =~= spec_val_line(head@, val@, line as nat));
    }
    s
}

/// Hook call for a debug-location preservation.
pub fn on_preserve(val: &str, line: usize) -> (r: String)
    ensures
        r@ == spec_on_preserve(val@, line as nat),
{
    val_line("hook::OnPreserve(", val, line)
}

/// Hook call for a debug-location merge.
pub fn on_merge(val: &str, line: usize) -> (r: String)
    ensures
        r@ == spec_on_merge(val@, line as nat),
{
    val_line("hook::OnMerge(", val, line)
}

/// Hook call for a debug-location drop.
pub fn on_drop(val: &str, line: usize) -> (r: String)
    ensures
        r@ == spec_on_drop(val@, line as nat),
{
    val_line("hook::OnDrop(", val, line)
}

} // verus!
