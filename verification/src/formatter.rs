//! The document formatter: one pure function from a project path, an
//! optional source tree, file records, optional git texts and optional
//! instructions to a single tagged document.

use vstd::prelude::*;

use crate::text::{
    blank, closes_fence, join_range, line_closes_fence, line_opens_fence, lines_view,
    opens_fence, spaces, spec_indent_line, spec_indent_text, spec_join, spec_lines, spec_spaces,
    split_lines,
};

verus! {

/// One source file to embed in the document. A record that lacks either
/// field is skipped by the formatter, without error.
pub struct FileRecord {
    /// The file's path, as it should appear inside `<path>`.
    pub path: Option<String>,
    /// The file's text, possibly wrapped in markdown code fences.
    pub code: Option<String>,
}

/// What fence stripping leaves of `code`: when the text has at least two
/// lines, the first opens a fence and the last closes one, the two fence
/// lines are dropped and the interior rejoined; otherwise the text is
/// returned unchanged.
pub open spec fn spec_remove_fences(code: Seq<char>) -> Seq<char> {
    let ls = spec_lines(code);
    if ls.len() >= 2 && opens_fence(ls[0]) && closes_fence(ls[ls.len() - 1]) {
        spec_join(ls.subrange(1, ls.len() - 1), "\n"@)
    } else {
        code
    }
}

/// The views of an optional borrowed string.
pub open spec fn view_opt(v: Option<&str>) -> Option<Seq<char>> {
    match v {
        Option::Some(s) => Option::Some(s@),
        Option::None => Option::None,
    }
}

/// A wrapped section: the opening tag line, the body indented by four
/// spaces, the closing tag line, and a blank line after it.
pub open spec fn spec_wrap_section(
    open_tag: Seq<char>,
    body: Seq<char>,
    close_tag: Seq<char>,
) -> Seq<char> {
    open_tag + "\n"@ + spec_indent_text(body, 4) + "\n"@ + close_tag + "\n\n"@
}

/// The project path section, always present.
pub open spec fn spec_project_path_section(path: Seq<char>) -> Seq<char> {
    "<project_path>"@ + path + "</project_path>\n\n"@
}

/// The source tree section: empty text yields no section at all.
pub open spec fn spec_source_tree_section(tree: Seq<char>) -> Seq<char> {
    if tree.len() == 0 {
        Seq::empty()
    } else {
        spec_wrap_section("<source_tree>"@, tree, "</source_tree>"@)
    }
}

/// One `<file>` block for a record that carries both fields.
pub open spec fn spec_file_block_valid(p: Seq<char>, c: Seq<char>) -> Seq<char> {
    "    <file>\n"@ + "        <path>"@ + p + "</path>\n"@ + "        <code>\n"@
        + spec_indent_text(spec_remove_fences(c), 12) + "\n        </code>\n"@
        + "    </file>\n"@
}

/// The block a record contributes: nothing at all when either field is
/// missing.
pub open spec fn spec_file_block(r: FileRecord) -> Seq<char> {
    if r.path is Some && r.code is Some {
        spec_file_block_valid(r.path->0@, r.code->0@)
    } else {
        Seq::empty()
    }
}

/// The blocks of all records, in input order.
pub open spec fn spec_file_blocks(files: Seq<FileRecord>) -> Seq<char>
    decreases files.len(),
{
    if files.len() == 0 {
        Seq::empty()
    } else {
        spec_file_block(files[0]) + spec_file_blocks(files.skip(1))
    }
}

/// Appending a record appends exactly its block; a record that lacks a
/// field contributes nothing, so valid records appear in input order.
pub proof fn lemma_file_blocks_push(files: Seq<FileRecord>, r: FileRecord)
    ensures
        spec_file_blocks(files.push(r)) == spec_file_blocks(files) + spec_file_block(r),
    decreases files.len(),
{
    if files.len() == 0 {
        assert(files.push(r)[0] == r);
        assert(files.push(r).skip(1) =~= Seq::<FileRecord>::empty());
        assert(spec_file_blocks(Seq::<FileRecord>::empty()) == Seq::<char>::empty());
        assert(spec_file_blocks(files.push(r)) == spec_file_block(r) + Seq::<char>::empty());
        assert(spec_file_block(r) + Seq::<char>::empty() =~= spec_file_block(r));
        assert(spec_file_blocks(files) == Seq::<char>::empty());
        assert(spec_file_blocks(files) + spec_file_block(r) =~= spec_file_block(r));
    } else {
        assert(files.push(r)[0] == files[0]);
        assert(files.push(r).skip(1) =~= files.skip(1).push(r));
        lemma_file_blocks_push(files.skip(1), r);
        vstd::seq_lib::lemma_concat_associative(
            spec_file_block(files[0]),
            spec_file_blocks(files.skip(1)),
            spec_file_block(r),
        );
    }
}

/// The files section, always present, even when no record is valid.
pub open spec fn spec_files_section(files: Seq<FileRecord>) -> Seq<char> {
    "<files>\n"@ + spec_file_blocks(files) + "</files>\n\n"@
}

/// A git section: present exactly when its text is present and non-empty.
pub open spec fn spec_opt_section(
    v: Option<Seq<char>>,
    open_tag: Seq<char>,
    close_tag: Seq<char>,
) -> Seq<char> {
    match v {
        Option::None => Seq::empty(),
        Option::Some(s) => if s.len() == 0 {
            Seq::empty()
        } else {
            spec_wrap_section(open_tag, s, close_tag)
        },
    }
}

/// The instructions section: present exactly when the argument is present,
/// even as the empty string.
pub open spec fn spec_instructions_section(inst: Option<Seq<char>>) -> Seq<char> {
    match inst {
        Option::None => Seq::empty(),
        Option::Some(s) => spec_wrap_section("<instructions>"@, s, "</instructions>"@),
    }
}

/// Whether a git argument yields a section of its own in the document.
pub open spec fn git_emitted(v: Option<Seq<char>>) -> bool {
    v is Some && v->0.len() > 0
}

/// The tag names the review clause lists: exactly those of the present git
/// arguments, in the fixed order diff, diff branch, log branch.
pub open spec fn spec_git_parts(d: bool, b: bool, l: bool) -> Seq<Seq<char>> {
    (if d {
        seq!["<git_diff>"@]
    } else {
        Seq::<Seq<char>>::empty()
    }) + (if b {
        seq!["<git_diff_branch>"@]
    } else {
        Seq::<Seq<char>>::empty()
    }) + (if l {
        seq!["<git_log_branch>"@]
    } else {
        Seq::<Seq<char>>::empty()
    })
}

/// The review clause's comma-joined list of tag names.
pub open spec fn spec_git_list(d: bool, b: bool, l: bool) -> Seq<char> {
    spec_join(spec_git_parts(d, b, l), ", "@)
}

/// The synthesized closing sentence: it names the project path, the source
/// tree when that section exists, the files, the present git arguments when
/// at least one git section exists, and the instructions when present.
pub open spec fn spec_final_sentence(
    tree: Seq<char>,
    gd: Option<Seq<char>>,
    gdb: Option<Seq<char>>,
    glb: Option<Seq<char>>,
    inst: Option<Seq<char>>,
) -> Seq<char> {
    "    Consider the project path in <project_path>"@ + (if tree.len() > 0 {
        ", the source tree in <source_tree>"@
    } else {
        Seq::<char>::empty()
    }) + ", and the files in <files>"@ + (if git_emitted(gd) || git_emitted(gdb)
        || git_emitted(glb) {
        ". Review any git changes in "@ + spec_git_list(gd is Some, gdb is Some, glb is Some)
            + " if present"@
    } else {
        Seq::<char>::empty()
    }) + (if inst is Some {
        ". Then, follow the instructions given in <instructions>"@
    } else {
        Seq::<char>::empty()
    }) + (". Take a deep breath and think step by step about how to best complete this"@
        + " task.\n"@)
}

/// The final instruction section, always last.
pub open spec fn spec_final_instruction_section(
    tree: Seq<char>,
    gd: Option<Seq<char>>,
    gdb: Option<Seq<char>>,
    glb: Option<Seq<char>>,
    inst: Option<Seq<char>>,
) -> Seq<char> {
    "<final_instruction>\n"@ + spec_final_sentence(tree, gd, gdb, glb, inst)
        + "</final_instruction>\n"@
}

/// The whole document: its sections in fixed order.
pub open spec fn spec_format(
    path: Seq<char>,
    tree: Seq<char>,
    files: Seq<FileRecord>,
    gd: Option<Seq<char>>,
    gdb: Option<Seq<char>>,
    glb: Option<Seq<char>>,
    inst: Option<Seq<char>>,
) -> Seq<char> {
    spec_project_path_section(path) + spec_source_tree_section(tree) + spec_files_section(files)
        + spec_opt_section(gd, "<git_diff>"@, "</git_diff>"@)
        + spec_opt_section(gdb, "<git_diff_branch>"@, "</git_diff_branch>"@)
        + spec_opt_section(glb, "<git_log_branch>"@, "</git_log_branch>"@)
        + spec_instructions_section(inst)
        + spec_final_instruction_section(tree, gd, gdb, glb, inst)
}

/// Formats the content as one tagged document.
pub struct ClaudeFormatter;

impl ClaudeFormatter {
    /// Indents each line of `text` by `indent` spaces; blank lines come out
    /// empty, and the lines are rejoined with single newlines.
    pub fn indent_text(text: &str, indent: usize) -> (r: String)
        ensures
            r@ == spec_indent_text(text@, indent as nat),
    {
        let lines = split_lines(text);
        let pad = spaces(indent);
        let mut out = String::new();
        let ghost mapped = spec_lines(text@).map_values(
            |l: Seq<char>| spec_indent_line(l, indent as nat),
        );
        let mut k: usize = 0;
        proof {
            assert(mapped.take(0) =~= Seq::<Seq<char>>::empty());
        }
        while k < lines.len()
            invariant
                k <= lines@.len(),
                lines_view(lines@) == spec_lines(text@),
                mapped == spec_lines(text@).map_values(
                    |l: Seq<char>| spec_indent_line(l, indent as nat),
                ),
                pad@ == spec_spaces(indent as nat),
                out@ == spec_join(mapped.take(k as int), "\n"@),
            decreases lines@.len() - k,
        {
            proof {
                crate::text::lemma_join_push(mapped.take(k as int), "\n"@, mapped[k as int]);
                assert(mapped.take(k + 1) =~= mapped.take(k as int).push(mapped[k as int]));
                assert(lines@[k as int]@ == lines_view(lines@)[k as int]);
                assert(mapped[k as int] == spec_indent_line(
                    lines_view(lines@)[k as int],
                    indent as nat,
                ));
            }
            if k > 0 {
                out.append("\n");
            }
            let line: &String = &lines[k];
            if !blank(line.as_str()) {
                out.append(pad.as_str());
                out.append(line.as_str());
            }
            proof {
                assert(out@ =~= spec_join(mapped.take(k + 1), "\n"@));
            }
            k = k + 1;
        }
        proof {
            assert(mapped.take(lines@.len() as int) =~= mapped);
        }
        out
    }

    /// Removes surrounding markdown code fences: when the first line opens a
    /// fence and the last line closes one, both are dropped and the interior
    /// is rejoined; otherwise the code comes back unchanged.
    pub fn remove_markdown_fences(code: &str) -> (r: String)
        ensures
            r@ == spec_remove_fences(code@),
    {
        let lines = split_lines(code);
        if lines.len() >= 2 {
            let first: &String = &lines[0];
            let opens = line_opens_fence(first.as_str());
            let last: &String = &lines[lines.len() - 1];
            let closes = line_closes_fence(last.as_str());
            if opens && closes {
                proof {
                    assert(lines_view(lines@)[0] == lines@[0]@);
                    assert(lines_view(lines@)[lines@.len() - 1]
                        == lines@[lines@.len() - 1]@);
                }
                return join_range(&lines, 1, lines.len() - 1, "\n");
            }
        }
        proof {
            assert(lines_view(lines@).len() == lines@.len());
        }
        code.to_owned()
    }

    /// Produces the whole document for the given inputs. Every section and
    /// every byte of the result is fixed by `spec_format`.
    pub fn format(
        path: &str,
        source_tree: &str,
        files: &[FileRecord],
        git_diff: Option<&str>,
        git_diff_branch: Option<&str>,
        git_log_branch: Option<&str>,
        instructions: Option<&str>,
    ) -> (r: String)
        ensures
            r@ == spec_format(
                path@,
                source_tree@,
                files@,
                view_opt(git_diff),
                view_opt(git_diff_branch),
                view_opt(git_log_branch),
                view_opt(instructions),
            ),
    {
        let mut out = project_path_section(path);
        let sec = source_tree_section(source_tree);
        out.append(sec.as_str());
        let sec = files_section(files);
        out.append(sec.as_str());
        let sec = opt_section(git_diff, "<git_diff>", "</git_diff>");
        out.append(sec.as_str());
        let sec = opt_section(git_diff_branch, "<git_diff_branch>", "</git_diff_branch>");
        out.append(sec.as_str());
        let sec = opt_section(git_log_branch, "<git_log_branch>", "</git_log_branch>");
        out.append(sec.as_str());
        let sec = instructions_section(instructions);
        out.append(sec.as_str());
        let sec = final_instruction_section(
            source_tree,
            git_diff,
            git_diff_branch,
            git_log_branch,
            instructions,
        );
        out.append(sec.as_str());
        out
    }
}

/// Builds a wrapped section from its tag lines and body.
fn wrap_section(open_tag: &str, body: &str, close_tag: &str) -> (r: String)
    ensures
        r@ == spec_wrap_section(open_tag@, body@, close_tag@),
{
    let mut out = open_tag.to_owned();
    out.append("\n");
    let ind = ClaudeFormatter::indent_text(body, 4);
    out.append(ind.as_str());
    out.append("\n");
    out.append(close_tag);
    out.append("\n\n");
    out
}

/// Builds the project path section.
fn project_path_section(path: &str) -> (r: String)
    ensures
        r@ == spec_project_path_section(path@),
{
    let mut out = "<project_path>".to_owned();
    out.append(path);
    out.append("</project_path>\n\n");
    out
}

/// Builds the source tree section, empty for empty tree text.
fn source_tree_section(tree: &str) -> (r: String)
    ensures
        r@ == spec_source_tree_section(tree@),
{
    if tree.is_empty() {
        String::new()
    } else {
        wrap_section("<source_tree>", tree, "</source_tree>")
    }
}

/// Builds the block of one valid record.
fn file_block(p: &str, c: &str) -> (r: String)
    ensures
        r@ == spec_file_block_valid(p@, c@),
{
    let mut out = "    <file>\n".to_owned();
    out.append("        <path>");
    out.append(p);
    out.append("</path>\n");
    out.append("        <code>\n");
    let clean = ClaudeFormatter::remove_markdown_fences(c);
    let ind = ClaudeFormatter::indent_text(clean.as_str(), 12);
    out.append(ind.as_str());
    out.append("\n        </code>\n");
    out.append("    </file>\n");
    out
}

/// Builds the files section, one block per valid record, in order.
fn files_section(files: &[FileRecord]) -> (r: String)
    ensures
        r@ == spec_files_section(files@),
{
    let mut out = "<files>\n".to_owned();
    let mut k: usize = 0;
    proof {
        assert(files@.take(0) =~= Seq::<FileRecord>::empty());
        assert("<files>\n"@ + spec_file_blocks(files@.take(0)) =~= "<files>\n"@);
    }
    while k < files.len()
        invariant
            k <= files@.len(),
            out@ == "<files>\n"@ + spec_file_blocks(files@.take(k as int)),
        decreases files@.len() - k,
    {
        proof {
            lemma_file_blocks_push(files@.take(k as int), files@[k as int]);
            assert(files@.take(k + 1) =~= files@.take(k as int).push(files@[k as int]));
        }
        let rec = &files[k];
        match (&rec.path, &rec.code) {
            (Some(p), Some(c)) => {
                let block = file_block(p.as_str(), c.as_str());
                out.append(block.as_str());
                proof {
                    vstd::seq_lib::lemma_concat_associative(
                        "<files>\n"@,
                        spec_file_blocks(files@.take(k as int)),
                        block@,
                    );
                }
            },
            _ => {
                proof {
                    assert(spec_file_block(files@[k as int]) == Seq::<char>::empty());
                    assert(spec_file_blocks(files@.take(k as int))
                        + spec_file_block(files@[k as int]) =~= spec_file_blocks(
                        files@.take(k as int),
                    ));
                }
            },
        }
        k = k + 1;
    }
    proof {
        assert(files@.take(files@.len() as int) =~= files@);
    }
    out.append("</files>\n\n");
    out
}

/// Builds one git section, empty when the text is absent or empty.
fn opt_section(v: Option<&str>, open_tag: &str, close_tag: &str) -> (r: String)
    ensures
        r@ == spec_opt_section(view_opt(v), open_tag@, close_tag@),
{
    match v {
        None => String::new(),
        Some(s) => {
            if s.is_empty() {
                String::new()
            } else {
                wrap_section(open_tag, s, close_tag)
            }
        },
    }
}

/// Builds the instructions section: present input, even empty, yields the
/// section.
fn instructions_section(inst: Option<&str>) -> (r: String)
    ensures
        r@ == spec_instructions_section(view_opt(inst)),
{
    match inst {
        None => String::new(),
        Some(s) => wrap_section("<instructions>", s, "</instructions>"),
    }
}

/// Builds the review clause's comma-joined tag list.
fn git_list(d: bool, b: bool, l: bool) -> (r: String)
    ensures
        r@ == spec_git_list(d, b, l),
{
    let mut parts: Vec<String> = Vec::new();
    if d {
        parts.push("<git_diff>".to_owned());
    }
    if b {
        parts.push("<git_diff_branch>".to_owned());
    }
    if l {
        parts.push("<git_log_branch>".to_owned());
    }
    proof {
        assert(lines_view(parts@) =~= spec_git_parts(d, b, l));
    }
    let n = parts.len();
    let r = join_range(&parts, 0, n, ", ");
    proof {
        assert(lines_view(parts@).subrange(0, n as int) =~= lines_view(parts@));
    }
    r
}

/// Builds the closing sentence of the document.
fn final_sentence(
    tree: &str,
    gd: Option<&str>,
    gdb: Option<&str>,
    glb: Option<&str>,
    inst: Option<&str>,
) -> (r: String)
    ensures
        r@ == spec_final_sentence(
            tree@,
            view_opt(gd),
            view_opt(gdb),
            view_opt(glb),
            view_opt(inst),
        ),
{
    let ghost gdv = view_opt(gd);
    let ghost gdbv = view_opt(gdb);
    let ghost glbv = view_opt(glb);
    let ghost p1 = "    Consider the project path in <project_path>"@;
    let ghost p2 = if tree@.len() > 0 {
        ", the source tree in <source_tree>"@
    } else {
        Seq::<char>::empty()
    };
    let ghost p3 = ", and the files in <files>"@;
    let ghost p4 = if git_emitted(gdv) || git_emitted(gdbv) || git_emitted(glbv) {
        ". Review any git changes in "@ + spec_git_list(gdv is Some, gdbv is Some, glbv is Some)
            + " if present"@
    } else {
        Seq::<char>::empty()
    };
    let ghost p5 = if view_opt(inst) is Some {
        ". Then, follow the instructions given in <instructions>"@
    } else {
        Seq::<char>::empty()
    };
    let mut out = "    Consider the project path in <project_path>".to_owned();
    if !tree.is_empty() {
        out.append(", the source tree in <source_tree>");
    }
    proof {
        assert(out@ =~= p1 + p2);
    }
    out.append(", and the files in <files>");
    let d_emitted = match gd {
        Some(s) => !s.is_empty(),
        None => false,
    };
    let b_emitted = match gdb {
        Some(s) => !s.is_empty(),
        None => false,
    };
    let l_emitted = match glb {
        Some(s) => !s.is_empty(),
        None => false,
    };
    if d_emitted || b_emitted || l_emitted {
        out.append(". Review any git changes in ");
        let list = git_list(gd.is_some(), gdb.is_some(), glb.is_some());
        out.append(list.as_str());
        out.append(" if present");
    }
    proof {
        assert(out@ =~= p1 + p2 + p3 + p4);
    }
    if inst.is_some() {
        out.append(". Then, follow the instructions given in <instructions>");
    }
    proof {
        assert(out@ =~= p1 + p2 + p3 + p4 + p5);
    }
    out.append(". Take a deep breath and think step by step about how to best complete this");
    out.append(" task.\n");
    proof {
        assert(out@ =~= p1 + p2 + p3 + p4 + p5 + (
            ". Take a deep breath and think step by step about how to best complete this"@
                + " task.\n"@
        ));
    }
    out
}

/// Builds the final instruction section.
fn final_instruction_section(
    tree: &str,
    gd: Option<&str>,
    gdb: Option<&str>,
    glb: Option<&str>,
    inst: Option<&str>,
) -> (r: String)
    ensures
        r@ == spec_final_instruction_section(
            tree@,
            view_opt(gd),
            view_opt(gdb),
            view_opt(glb),
            view_opt(inst),
        ),
{
    let mut out = "<final_instruction>\n".to_owned();
    let sentence = final_sentence(tree, gd, gdb, glb, inst);
    out.append(sentence.as_str());
    out.append("</final_instruction>\n");
    out
}

} // verus!
