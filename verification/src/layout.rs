//! The root layout of an application, with and without the session provider.
//!
//! The template wraps the page in a session provider. An application without
//! authentication has no use for it: the line that imports it and the two
//! lines round its block leave the layout. Only a whole line that is exactly
//! one of the three leaves; a layout that was formatted otherwise stays as
//! it is.

use vstd::prelude::*;
use crate::text::{
    ends_a_line, has_line, is_line, lemma_without_lines_by_parts, lemma_without_lines_has_line,
    lemma_without_lines_keeps, lemma_without_lines_of_a_line, remove_lines, without_lines,
};

verus! {

/// The line that imports the session provider.
pub open spec fn session_import() -> Seq<char> {
    "import { SessionProvider } from \"@/components/session-provider\"\n"@
}

/// The line that opens the session provider's block.
pub open spec fn session_open() -> Seq<char> {
    "        <SessionProvider>\n"@
}

/// The line that closes the session provider's block.
pub open spec fn session_close() -> Seq<char> {
    "        </SessionProvider>\n"@
}

/// The three lines of the session provider.
pub open spec fn session_lines() -> Seq<Seq<char>> {
    seq![session_import(), session_open(), session_close()]
}

/// A layout without the session provider: every whole line that is the
/// import line, the opening line or the closing line has left. Every other
/// line stays as it is, those between the opening and the closing line
/// among them.
pub open spec fn without_session_provider(content: Seq<char>) -> Seq<char> {
    without_lines(content, session_lines())
}

/// The root layout of an application without authentication.
pub fn cleanup_layout_for_no_auth(content: &str) -> (out: String)
    ensures
        out@ == without_session_provider(content@),
{
    let lines: [&str; 3] = [
        "import { SessionProvider } from \"@/components/session-provider\"\n",
        "        <SessionProvider>\n",
        "        </SessionProvider>\n",
    ];
    assert(lines@.map_values(|line: &str| line@) =~= session_lines());
    remove_lines(content, lines.as_slice())
}

/// Whether none of the lines of `part` is one of the three lines of the
/// session provider.
pub open spec fn holds_no_session_line(part: Seq<char>) -> bool {
    &&& !has_line(part, session_import())
    &&& !has_line(part, session_open())
    &&& !has_line(part, session_close())
}

/// A layout none of whose lines is one of the three lines of the session
/// provider is left as it is, whatever its lines hold.
pub proof fn law_layout_without_the_lines_is_unchanged(content: Seq<char>)
    requires
        holds_no_session_line(content),
    ensures
        without_session_provider(content) == content,
{
    lemma_without_lines_keeps(content, session_lines());
}

/// A cleaned layout holds exactly the lines that the layout held and that
/// are not among the three lines of the session provider: no other line
/// leaves, none is changed, and none comes about.
pub proof fn law_only_the_session_lines_leave(content: Seq<char>, line: Seq<char>)
    ensures
        has_line(without_session_provider(content), line) <==> has_line(content, line)
            && !session_lines().contains(line),
{
    lemma_without_lines_has_line(content, session_lines(), line);
}

/// Each of the three lines of the session provider is one whole line.
pub proof fn lemma_session_lines()
    ensures
        is_line(session_import()),
        is_line(session_open()),
        is_line(session_close()),
        session_lines().contains(session_import()),
        session_lines().contains(session_open()),
        session_lines().contains(session_close()),
{
    reveal_strlit("import { SessionProvider } from \"@/components/session-provider\"\n");
    reveal_strlit("        <SessionProvider>\n");
    reveal_strlit("        </SessionProvider>\n");
    assert(session_import().len() == 64);
    assert(session_open().len() == 26);
    assert(session_close().len() == 27);
    assert(session_lines()[0] == session_import());
    assert(session_lines()[1] == session_open());
    assert(session_lines()[2] == session_close());
}

/// Where the import line and the two lines round the block are whole lines of
/// a layout, and no other line of the layout is one of them, the three lines
/// leave, and what stands before, between and behind them stays, the lines
/// inside the block among it.
pub proof fn law_session_provider_leaves_and_the_rest_stays(
    before: Seq<char>,
    between: Seq<char>,
    inside: Seq<char>,
    behind: Seq<char>,
)
    requires
        ends_a_line(before) && holds_no_session_line(before),
        ends_a_line(between) && holds_no_session_line(between),
        ends_a_line(inside) && holds_no_session_line(inside),
        holds_no_session_line(behind),
    ensures
        without_session_provider(
            before + (session_import() + (between + (session_open() + (inside + (session_close()
                + behind))))),
        ) == before + (between + (inside + behind)),
{
    let import = session_import();
    let open = session_open();
    let close = session_close();
    let lines = session_lines();
    let nothing = Seq::<char>::empty();
    lemma_session_lines();
    lemma_without_lines_keeps(before, lines);
    lemma_without_lines_keeps(between, lines);
    lemma_without_lines_keeps(inside, lines);
    lemma_without_lines_keeps(behind, lines);
    lemma_without_lines_of_a_line(import, lines);
    lemma_without_lines_of_a_line(open, lines);
    lemma_without_lines_of_a_line(close, lines);
    lemma_without_lines_by_parts(close, behind, lines);
    lemma_without_lines_by_parts(inside, close + behind, lines);
    lemma_without_lines_by_parts(open, inside + (close + behind), lines);
    lemma_without_lines_by_parts(between, open + (inside + (close + behind)), lines);
    lemma_without_lines_by_parts(import, between + (open + (inside + (close + behind))), lines);
    lemma_without_lines_by_parts(
        before,
        import + (between + (open + (inside + (close + behind)))),
        lines,
    );
    assert(nothing + behind =~= behind);
    assert(nothing + (inside + behind) =~= inside + behind);
    assert(nothing + (between + (inside + behind)) =~= between + (inside + behind));
}

/// A line that holds the opening tag behind more blanks than the template
/// has is no line of the session provider: a layout that holds only such
/// lines stays as it is.
pub proof fn law_deeper_tag_stays(blanks: Seq<char>)
    requires
        blanks.len() > 0,
        forall|i: int| 0 <= i < blanks.len() ==> blanks[i] == ' ',
    ensures
        without_session_provider(blanks + session_open()) == blanks + session_open(),
{
    let line = blanks + session_open();
    lemma_session_lines();
    reveal_strlit("import { SessionProvider } from \"@/components/session-provider\"\n");
    reveal_strlit("        <SessionProvider>\n");
    reveal_strlit("        </SessionProvider>\n");
    assert(is_line(line)) by {
        assert(line.last() == session_open().last());
        assert forall|i: int| 0 <= i < line.len() - 1 implies line[i] != '\n' by {
            if i >= blanks.len() {
                assert(line[i] == session_open()[i - blanks.len()]);
            }
        }
    }
    assert(line[0] == ' ');
    assert(line != session_import()) by {
        assert(session_import()[0] == 'i');
    }
    assert(line.len() > session_open().len());
    assert(line != session_close()) by {
        if line.len() == session_close().len() {
            assert(blanks.len() == 1);
            assert(line[9] == session_open()[8]);
            assert(session_close()[9] == '/');
        }
    }
    assert(!session_lines().contains(line));
    lemma_without_lines_of_a_line(line, session_lines());
}

} // verus!
