//! The laws of the formatter, each proved once and for all inputs: which
//! sections a document holds, when each appears, and in what order.

use vstd::prelude::*;

use crate::formatter::{
    git_emitted, spec_file_block, spec_file_block_valid, spec_file_blocks, spec_files_section,
    spec_final_instruction_section, spec_final_sentence, spec_format, spec_git_list,
    spec_git_parts, spec_instructions_section, spec_opt_section, spec_project_path_section,
    spec_remove_fences, spec_source_tree_section, spec_wrap_section, FileRecord,
    lemma_file_blocks_push,
};
use crate::text::{
    closes_fence, is_blank, opens_fence, spec_indent_line, spec_indent_text, spec_join,
    spec_lines,
};

verus! {

/// `pat` occurs in `doc` starting at index `i`.
pub open spec fn contains_at(doc: Seq<char>, i: int, pat: Seq<char>) -> bool {
    0 <= i && i + pat.len() <= doc.len() && doc.subrange(i, i + pat.len()) == pat
}

/// `pat` occurs somewhere in `doc`.
pub open spec fn contains_pat(doc: Seq<char>, pat: Seq<char>) -> bool {
    exists|i: int| contains_at(doc, i, pat)
}

/// An occurrence in the left half survives concatenation.
pub proof fn lemma_contains_left(a: Seq<char>, b: Seq<char>, pat: Seq<char>)
    requires
        contains_pat(a, pat),
    ensures
        contains_pat(a + b, pat),
{
    let i = choose|i: int| contains_at(a, i, pat);
    assert((a + b).subrange(i, i + pat.len() as int) =~= a.subrange(i, i + pat.len() as int));
    assert(contains_at(a + b, i, pat));
}

/// An occurrence in the right half survives concatenation.
pub proof fn lemma_contains_right(a: Seq<char>, b: Seq<char>, pat: Seq<char>)
    requires
        contains_pat(b, pat),
    ensures
        contains_pat(a + b, pat),
{
    let i = choose|i: int| contains_at(b, i, pat);
    assert((a + b).subrange(a.len() + i, a.len() + i + pat.len() as int) =~= b.subrange(
        i,
        i + pat.len() as int,
    ));
    assert(contains_at(a + b, a.len() + i, pat));
}

/// The document is exactly its sections in this fixed order: project path,
/// source tree, files, git diff, git branch diff, git branch log,
/// instructions, final instruction. Each optional section stands empty when
/// suppressed, so the present ones keep this relative order.
pub proof fn lemma_document_sections(
    path: Seq<char>,
    tree: Seq<char>,
    files: Seq<FileRecord>,
    gd: Option<Seq<char>>,
    gdb: Option<Seq<char>>,
    glb: Option<Seq<char>>,
    inst: Option<Seq<char>>,
)
    ensures
        spec_format(path, tree, files, gd, gdb, glb, inst) == spec_project_path_section(path)
            + spec_source_tree_section(tree) + spec_files_section(files)
            + spec_opt_section(gd, "<git_diff>"@, "</git_diff>"@)
            + spec_opt_section(gdb, "<git_diff_branch>"@, "</git_diff_branch>"@)
            + spec_opt_section(glb, "<git_log_branch>"@, "</git_log_branch>"@)
            + spec_instructions_section(inst)
            + spec_final_instruction_section(tree, gd, gdb, glb, inst),
{
}

/// The formatter is deterministic: the document is a function of the inputs
/// alone, so identical inputs yield identical output.
pub proof fn lemma_format_deterministic(
    path: Seq<char>,
    tree: Seq<char>,
    files: Seq<FileRecord>,
    gd: Option<Seq<char>>,
    gdb: Option<Seq<char>>,
    glb: Option<Seq<char>>,
    inst: Option<Seq<char>>,
    r1: Seq<char>,
    r2: Seq<char>,
)
    requires
        r1 == spec_format(path, tree, files, gd, gdb, glb, inst),
        r2 == spec_format(path, tree, files, gd, gdb, glb, inst),
    ensures
        r1 == r2,
{
}

/// The source tree section exists exactly when the tree text is non-empty:
/// empty text contributes nothing to the document, non-empty text yields the
/// wrapped section, whose tag then occurs in the document.
pub proof fn lemma_source_tree_gating(
    path: Seq<char>,
    tree: Seq<char>,
    files: Seq<FileRecord>,
    gd: Option<Seq<char>>,
    gdb: Option<Seq<char>>,
    glb: Option<Seq<char>>,
    inst: Option<Seq<char>>,
)
    ensures
        tree.len() == 0 ==> spec_source_tree_section(tree) == Seq::<char>::empty(),
        tree.len() > 0 ==> spec_source_tree_section(tree) == spec_wrap_section(
            "<source_tree>"@,
            tree,
            "</source_tree>"@,
        ),
        tree.len() > 0 ==> contains_pat(
            spec_format(path, tree, files, gd, gdb, glb, inst),
            "<source_tree>"@,
        ),
{
    if tree.len() > 0 {
        let pat = "<source_tree>"@;
        let sec = spec_source_tree_section(tree);
        assert(sec.subrange(0, pat.len() as int) =~= pat);
        assert(contains_at(sec, 0, pat));
        let s1 = spec_project_path_section(path);
        let s3 = spec_files_section(files);
        let s4 = spec_opt_section(gd, "<git_diff>"@, "</git_diff>"@);
        let s5 = spec_opt_section(gdb, "<git_diff_branch>"@, "</git_diff_branch>"@);
        let s6 = spec_opt_section(glb, "<git_log_branch>"@, "</git_log_branch>"@);
        let s7 = spec_instructions_section(inst);
        let s8 = spec_final_instruction_section(tree, gd, gdb, glb, inst);
        lemma_contains_right(s1, sec, pat);
        lemma_contains_left(s1 + sec, s3, pat);
        lemma_contains_left(s1 + sec + s3, s4, pat);
        lemma_contains_left(s1 + sec + s3 + s4, s5, pat);
        lemma_contains_left(s1 + sec + s3 + s4 + s5, s6, pat);
        lemma_contains_left(s1 + sec + s3 + s4 + s5 + s6, s7, pat);
        lemma_contains_left(s1 + sec + s3 + s4 + s5 + s6 + s7, s8, pat);
    }
}

/// Indentation acts line by line: the text splits into its lines, the lines
/// are rejoined with single newlines, a blank line contributes an empty
/// line, and any other line gains exactly `n` leading spaces before its
/// unchanged characters.
pub proof fn lemma_indentation(t: Seq<char>, n: nat)
    ensures
        spec_indent_text(t, n) == spec_join(
            spec_lines(t).map_values(|l: Seq<char>| spec_indent_line(l, n)),
            "\n"@,
        ),
        forall|l: Seq<char>| is_blank(l) ==> #[trigger] spec_indent_line(l, n)
            == Seq::<char>::empty(),
        forall|l: Seq<char>| !is_blank(l) ==> #[trigger] spec_indent_line(l, n).len() == n
            + l.len(),
        forall|l: Seq<char>, i: int|
            !is_blank(l) && 0 <= i < n ==> #[trigger] spec_indent_line(l, n)[i] == ' ',
        forall|l: Seq<char>, i: int|
            !is_blank(l) && 0 <= i < l.len() ==> #[trigger] spec_indent_line(l, n)[n + i]
                == l[i],
{
}

/// A record missing its path or its code yields no block at all; a record
/// carrying both yields exactly its block; and appending a record appends
/// its block after all earlier ones, so valid records appear in input order.
pub proof fn lemma_file_records(files: Seq<FileRecord>, r: FileRecord)
    ensures
        !(r.path is Some && r.code is Some) ==> spec_file_block(r) == Seq::<char>::empty(),
        r.path is Some && r.code is Some ==> spec_file_block(r) == spec_file_block_valid(
            r.path->0@,
            r.code->0@,
        ),
        spec_file_blocks(files.push(r)) == spec_file_blocks(files) + spec_file_block(r),
{
    lemma_file_blocks_push(files, r);
}

/// Fence stripping: when the code has at least two lines, the first line
/// opens a fence and the last line closes one, exactly those two lines are
/// dropped and the interior is rejoined; in every other case the code is
/// passed through unchanged.
pub proof fn lemma_fence_stripping(code: Seq<char>)
    ensures
        ({
            let ls = spec_lines(code);
            ls.len() >= 2 && opens_fence(ls[0]) && closes_fence(ls[ls.len() - 1])
        }) ==> spec_remove_fences(code) == spec_join(
            spec_lines(code).subrange(1, spec_lines(code).len() - 1),
            "\n"@,
        ),
        !({
            let ls = spec_lines(code);
            ls.len() >= 2 && opens_fence(ls[0]) && closes_fence(ls[ls.len() - 1])
        }) ==> spec_remove_fences(code) == code,
{
}

/// Each git section exists exactly when its argument is present and
/// non-empty; when it exists it is the wrapped section, whose tag then
/// occurs in the document. The three sections keep the fixed order that
/// `lemma_document_sections` states.
pub proof fn lemma_git_section_gating(
    path: Seq<char>,
    tree: Seq<char>,
    files: Seq<FileRecord>,
    gd: Option<Seq<char>>,
    gdb: Option<Seq<char>>,
    glb: Option<Seq<char>>,
    inst: Option<Seq<char>>,
)
    ensures
        !git_emitted(gd) ==> spec_opt_section(gd, "<git_diff>"@, "</git_diff>"@)
            == Seq::<char>::empty(),
        git_emitted(gd) ==> spec_opt_section(gd, "<git_diff>"@, "</git_diff>"@)
            == spec_wrap_section("<git_diff>"@, gd->0, "</git_diff>"@),
        git_emitted(gd) ==> contains_pat(
            spec_format(path, tree, files, gd, gdb, glb, inst),
            "<git_diff>"@,
        ),
        !git_emitted(gdb) ==> spec_opt_section(gdb, "<git_diff_branch>"@, "</git_diff_branch>"@)
            == Seq::<char>::empty(),
        git_emitted(gdb) ==> spec_opt_section(gdb, "<git_diff_branch>"@, "</git_diff_branch>"@)
            == spec_wrap_section("<git_diff_branch>"@, gdb->0, "</git_diff_branch>"@),
        git_emitted(gdb) ==> contains_pat(
            spec_format(path, tree, files, gd, gdb, glb, inst),
            "<git_diff_branch>"@,
        ),
        !git_emitted(glb) ==> spec_opt_section(glb, "<git_log_branch>"@, "</git_log_branch>"@)
            == Seq::<char>::empty(),
        git_emitted(glb) ==> spec_opt_section(glb, "<git_log_branch>"@, "</git_log_branch>"@)
            == spec_wrap_section("<git_log_branch>"@, glb->0, "</git_log_branch>"@),
        git_emitted(glb) ==> contains_pat(
            spec_format(path, tree, files, gd, gdb, glb, inst),
            "<git_log_branch>"@,
        ),
{
    let s1 = spec_project_path_section(path);
    let s2 = spec_source_tree_section(tree);
    let s3 = spec_files_section(files);
    let s4 = spec_opt_section(gd, "<git_diff>"@, "</git_diff>"@);
    let s5 = spec_opt_section(gdb, "<git_diff_branch>"@, "</git_diff_branch>"@);
    let s6 = spec_opt_section(glb, "<git_log_branch>"@, "</git_log_branch>"@);
    let s7 = spec_instructions_section(inst);
    let s8 = spec_final_instruction_section(tree, gd, gdb, glb, inst);
    if git_emitted(gd) {
        let pat = "<git_diff>"@;
        assert(s4.subrange(0, pat.len() as int) =~= pat);
        assert(contains_at(s4, 0, pat));
        lemma_contains_right(s1 + s2 + s3, s4, pat);
        lemma_contains_left(s1 + s2 + s3 + s4, s5, pat);
        lemma_contains_left(s1 + s2 + s3 + s4 + s5, s6, pat);
        lemma_contains_left(s1 + s2 + s3 + s4 + s5 + s6, s7, pat);
        lemma_contains_left(s1 + s2 + s3 + s4 + s5 + s6 + s7, s8, pat);
    }
    if git_emitted(gdb) {
        let pat = "<git_diff_branch>"@;
        assert(s5.subrange(0, pat.len() as int) =~= pat);
        assert(contains_at(s5, 0, pat));
        lemma_contains_right(s1 + s2 + s3 + s4, s5, pat);
        lemma_contains_left(s1 + s2 + s3 + s4 + s5, s6, pat);
        lemma_contains_left(s1 + s2 + s3 + s4 + s5 + s6, s7, pat);
        lemma_contains_left(s1 + s2 + s3 + s4 + s5 + s6 + s7, s8, pat);
    }
    if git_emitted(glb) {
        let pat = "<git_log_branch>"@;
        assert(s6.subrange(0, pat.len() as int) =~= pat);
        assert(contains_at(s6, 0, pat));
        lemma_contains_right(s1 + s2 + s3 + s4 + s5, s6, pat);
        lemma_contains_left(s1 + s2 + s3 + s4 + s5 + s6, s7, pat);
        lemma_contains_left(s1 + s2 + s3 + s4 + s5 + s6 + s7, s8, pat);
    }
}

/// The instructions section exists exactly when the argument is present:
/// an absent argument contributes nothing, while a present one — even the
/// empty string — yields the wrapped section, whose tag then occurs in the
/// document.
pub proof fn lemma_instructions_gating(
    path: Seq<char>,
    tree: Seq<char>,
    files: Seq<FileRecord>,
    gd: Option<Seq<char>>,
    gdb: Option<Seq<char>>,
    glb: Option<Seq<char>>,
    inst: Option<Seq<char>>,
)
    ensures
        inst is None ==> spec_instructions_section(inst) == Seq::<char>::empty(),
        inst is Some ==> spec_instructions_section(inst) == spec_wrap_section(
            "<instructions>"@,
            inst->0,
            "</instructions>"@,
        ),
        inst is Some ==> contains_pat(
            spec_format(path, tree, files, gd, gdb, glb, inst),
            "<instructions>"@,
        ),
{
    if inst is Some {
        let pat = "<instructions>"@;
        let s1 = spec_project_path_section(path);
        let s2 = spec_source_tree_section(tree);
        let s3 = spec_files_section(files);
        let s4 = spec_opt_section(gd, "<git_diff>"@, "</git_diff>"@);
        let s5 = spec_opt_section(gdb, "<git_diff_branch>"@, "</git_diff_branch>"@);
        let s6 = spec_opt_section(glb, "<git_log_branch>"@, "</git_log_branch>"@);
        let s7 = spec_instructions_section(inst);
        let s8 = spec_final_instruction_section(tree, gd, gdb, glb, inst);
        assert(s7.subrange(0, pat.len() as int) =~= pat);
        assert(contains_at(s7, 0, pat));
        lemma_contains_right(s1 + s2 + s3 + s4 + s5 + s6, s7, pat);
        lemma_contains_left(s1 + s2 + s3 + s4 + s5 + s6 + s7, s8, pat);
    }
}

/// The review clause's list holds exactly the tag names of the present git
/// arguments, in the fixed order diff, diff branch, log branch, and no
/// other entries.
pub proof fn lemma_git_clause_tags(d: bool, b: bool, l: bool)
    ensures
        spec_git_parts(d, b, l).contains("<git_diff>"@) == d,
        spec_git_parts(d, b, l).contains("<git_diff_branch>"@) == b,
        spec_git_parts(d, b, l).contains("<git_log_branch>"@) == l,
        spec_git_parts(d, b, l).len() == (if d { 1int } else { 0 }) + (if b { 1int } else { 0 })
            + (if l { 1int } else { 0 }),
        d ==> spec_git_parts(d, b, l)[0] == "<git_diff>"@,
        b ==> spec_git_parts(d, b, l)[if d { 1int } else { 0 }] == "<git_diff_branch>"@,
        l ==> spec_git_parts(d, b, l)[(if d { 1int } else { 0 }) + (if b { 1int } else { 0 })]
            == "<git_log_branch>"@,
{
    reveal_strlit("<git_diff>");
    reveal_strlit("<git_diff_branch>");
    reveal_strlit("<git_log_branch>");
    let parts = spec_git_parts(d, b, l);
    let t1 = "<git_diff>"@;
    let t2 = "<git_diff_branch>"@;
    let t3 = "<git_log_branch>"@;
    assert(t1.len() == 10);
    assert(t2.len() == 17);
    assert(t3.len() == 16);
    if d {
        assert(parts[0] == t1);
        assert(parts.contains(t1));
    } else {
        assert forall|i: int| 0 <= i < parts.len() implies parts[i] != t1 by {
            assert(parts[i].len() != t1.len());
        }
    }
    if b {
        assert(parts[if d { 1int } else { 0 }] == t2);
        assert(parts.contains(t2));
    } else {
        assert forall|i: int| 0 <= i < parts.len() implies parts[i] != t2 by {
            assert(parts[i].len() != t2.len());
        }
    }
    if l {
        assert(parts[(if d { 1int } else { 0 }) + (if b { 1int } else { 0 })] == t3);
        assert(parts.contains(t3));
    } else {
        assert forall|i: int| 0 <= i < parts.len() implies parts[i] != t3 by {
            assert(parts[i].len() != t3.len());
        }
    }
}

/// The review clause appears in the closing sentence exactly when at least
/// one git section was emitted; the clause joins the present arguments'
/// tags, while a sentence without any emitted git section carries no clause
/// piece at all.
pub proof fn lemma_review_clause_gating(
    tree: Seq<char>,
    gd: Option<Seq<char>>,
    gdb: Option<Seq<char>>,
    glb: Option<Seq<char>>,
    inst: Option<Seq<char>>,
)
    ensures
        (git_emitted(gd) || git_emitted(gdb) || git_emitted(glb)) ==> contains_pat(
            spec_final_sentence(tree, gd, gdb, glb, inst),
            ". Review any git changes in "@ + spec_git_list(gd is Some, gdb is Some, glb is Some)
                + " if present"@,
        ),
        !(git_emitted(gd) || git_emitted(gdb) || git_emitted(glb)) ==> spec_final_sentence(
            tree,
            gd,
            gdb,
            glb,
            inst,
        ) == "    Consider the project path in <project_path>"@ + (if tree.len() > 0 {
            ", the source tree in <source_tree>"@
        } else {
            Seq::<char>::empty()
        }) + ", and the files in <files>"@ + (if inst is Some {
            ". Then, follow the instructions given in <instructions>"@
        } else {
            Seq::<char>::empty()
        }) + (". Take a deep breath and think step by step about how to best complete this"@
        + " task.\n"@),
{
    let p1 = "    Consider the project path in <project_path>"@;
    let p2 = if tree.len() > 0 {
        ", the source tree in <source_tree>"@
    } else {
        Seq::<char>::empty()
    };
    let p3 = ", and the files in <files>"@;
    let clause = ". Review any git changes in "@ + spec_git_list(
        gd is Some,
        gdb is Some,
        glb is Some,
    ) + " if present"@;
    let p5 = if inst is Some {
        ". Then, follow the instructions given in <instructions>"@
    } else {
        Seq::<char>::empty()
    };
    let p6 = ". Take a deep breath and think step by step about how to best complete this"@
        + " task.\n"@;
    if git_emitted(gd) || git_emitted(gdb) || git_emitted(glb) {
        let sentence = spec_final_sentence(tree, gd, gdb, glb, inst);
        assert(clause.subrange(0, clause.len() as int) =~= clause);
        assert(contains_at(clause, 0, clause));
        lemma_contains_left(clause, p5, clause);
        lemma_contains_left(clause + p5, p6, clause);
        lemma_contains_right(p1 + p2 + p3, clause + p5 + p6, clause);
        assert(sentence =~= (p1 + p2 + p3) + (clause + p5 + p6));
    } else {
        assert(spec_final_sentence(tree, gd, gdb, glb, inst) =~= p1 + p2 + p3 + p5 + p6);
    }
}

} // verus!
