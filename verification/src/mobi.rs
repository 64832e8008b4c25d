//! Judging a KindleGen run by its exit status and its output.

use vstd::prelude::*;
use crate::text::{chars_of, matches_at, occurs_at};

verus! {

/// Some line of `out` (a line starts at the beginning or after a '\n')
/// begins with "Error(".
pub open spec fn has_error_line(out: Seq<char>) -> bool {
    exists|i: int| (i == 0 || (0 < i <= out.len() && out[i - 1] == '\n')) && #[trigger] occurs_at(
        out,
        "Error("@,
        i,
    )
}

/// Whether KindleGen's output reports an error: some line of it starts
/// with "Error(".
pub fn output_has_error(stdout: &str) -> (r: bool)
    ensures
        r == has_error_line(stdout@),
{
    let cs = chars_of(stdout);
    let marker = chars_of("Error(");
    let mut i: usize = 0;
    while i < cs.len()
        invariant
            i <= cs@.len(),
            cs@ == stdout@,
            marker@ == "Error("@,
            forall|j: int|
                0 <= j < i && (j == 0 || cs@[j - 1] == '\n') ==> !#[trigger] occurs_at(
                    cs@,
                    marker@,
                    j,
                ),
        decreases cs@.len() - i,
    {
        if (i == 0 || cs[i - 1] == '\n') && matches_at(&cs, &marker, i) {
            return true;
        }
        i += 1;
    }
    proof {
        reveal_strlit("Error(");
        assert forall|j: int|
            (j == 0 || (0 < j <= cs@.len() && cs@[j - 1] == '\n')) implies !#[trigger] occurs_at(
            cs@,
            marker@,
            j,
        ) by {
            if j >= cs@.len() {
                assert(marker@.len() == 6);
            }
        }
    }
    false
}

/// A KindleGen run failed when it exited unsuccessfully or printed an
/// error line.
pub fn kindlegen_failed(success: bool, stdout: &str) -> (r: bool)
    ensures
        r == (!success || has_error_line(stdout@)),
{
    !success || output_has_error(stdout)
}

} // verus!
