//! Comparing and rewriting strings.
//!
//! Contracts speak of a string as its sequence of characters. The comparisons
//! read the UTF-8 bytes, and the lemmas of this module carry what holds of the
//! bytes over to the characters. A text is rewritten in two ways: a pattern
//! is replaced wherever it stands, or whole lines are taken out.

use vstd::prelude::*;
use vstd::utf8::*;

verus! {

// ---------------------------------------------------------------------------
// Bytes and characters
// ---------------------------------------------------------------------------

/// Encoding distributes over concatenation.
pub proof fn lemma_encode_concat(a: Seq<char>, b: Seq<char>)
    ensures
        encode_utf8(a + b) == encode_utf8(a) + encode_utf8(b),
    decreases a.len(),
{
    if a.len() == 0 {
        assert(a + b =~= b);
        assert(encode_utf8(a) + encode_utf8(b) =~= encode_utf8(b));
    } else {
        assert((a + b).drop_first() =~= a.drop_first() + b);
        assert((a + b)[0] == a[0]);
        lemma_encode_concat(a.drop_first(), b);
        assert(encode_utf8(a + b) =~= encode_utf8(a) + encode_utf8(b));
    }
}

/// Two strings with the same bytes hold the same characters.
pub proof fn lemma_encode_injective(a: Seq<char>, b: Seq<char>)
    requires
        encode_utf8(a) == encode_utf8(b),
    ensures
        a == b,
{
    encode_utf8_decode_utf8(a);
    encode_utf8_decode_utf8(b);
}

/// A prefix among the encodings is a prefix among the characters.
pub proof fn lemma_prefix_from_bytes(a: Seq<char>, b: Seq<char>)
    requires
        encode_utf8(a).is_prefix_of(encode_utf8(b)),
    ensures
        a.is_prefix_of(b),
    decreases a.len(),
{
    if a.len() > 0 {
        let ea = encode_utf8(a);
        let eb = encode_utf8(b);
        let ra = a.drop_first();
        encode_utf8_first_scalar(a);
        let width = length_of_first_scalar(ea);
        assert(ea =~= encode_scalar(a[0] as u32) + encode_utf8(ra));
        assert(1 <= width <= 4 && width <= ea.len());
        assert(b.len() > 0);
        let rb = b.drop_first();
        encode_utf8_first_scalar(b);
        assert(eb =~= encode_scalar(b[0] as u32) + encode_utf8(rb));
        assert(forall|j: int| 0 <= j < ea.len() ==> ea[j] == eb.subrange(0, ea.len() as int)[j]);
        assert(ea[0] == eb[0]);
        assert(width >= 2 ==> ea[1] == eb[1]);
        assert(width >= 3 ==> ea[2] == eb[2]);
        assert(width >= 4 ==> ea[3] == eb[3]);
        assert(decode_first_scalar(ea) == decode_first_scalar(eb));
        char_u32_cast(a[0], a[0] as u32);
        char_u32_cast(b[0], b[0] as u32);
        assert(a[0] == b[0]);
        assert(encode_utf8(ra) =~= ea.subrange(width, ea.len() as int));
        assert(encode_utf8(rb) =~= eb.subrange(width, eb.len() as int));
        assert(encode_utf8(ra) =~= encode_utf8(rb).subrange(0, encode_utf8(ra).len() as int)) by {
            assert forall|j: int| 0 <= j < encode_utf8(ra).len() implies encode_utf8(ra)[j]
                == encode_utf8(rb)[j] by {
                assert(ea[j + width] == eb.subrange(0, ea.len() as int)[j + width]);
            }
        }
        lemma_prefix_from_bytes(ra, rb);
        assert(a =~= seq![a[0]] + ra);
        assert(b =~= seq![b[0]] + rb);
        assert(a =~= b.subrange(0, a.len() as int)) by {
            assert forall|j: int| 0 <= j < a.len() implies a[j] == b[j] by {
                if j > 0 {
                    assert(ra[j - 1] == rb.subrange(0, ra.len() as int)[j - 1]);
                }
            }
        }
    }
}

/// A prefix among the characters is a prefix among the encodings.
pub proof fn lemma_prefix_to_bytes(a: Seq<char>, b: Seq<char>)
    requires
        a.is_prefix_of(b),
    ensures
        encode_utf8(a).is_prefix_of(encode_utf8(b)),
{
    let rest = b.subrange(a.len() as int, b.len() as int);
    assert(b =~= a + rest);
    lemma_encode_concat(a, rest);
}

/// Whether two strings hold the same characters.
pub fn str_eq(a: &str, b: &str) -> (same: bool)
    ensures
        same == (a@ == b@),
{
    let x = a.as_bytes();
    let y = b.as_bytes();
    if x.len() != y.len() {
        return false;
    }
    let mut i: usize = 0;
    while i < x.len()
        invariant
            x@.len() == y@.len(),
            i <= x@.len(),
            x@ == encode_utf8(a@),
            y@ == encode_utf8(b@),
            forall|j: int| 0 <= j < i ==> x@[j] == y@[j],
        decreases x@.len() - i,
    {
        if x[i] != y[i] {
            assert(x@[i as int] != y@[i as int]);
            return false;
        }
        i += 1;
    }
    proof {
        assert(x@ =~= y@);
        lemma_encode_injective(a@, b@);
    }
    true
}

/// Whether `text` begins with the characters of `prefix`.
pub fn starts_with(text: &str, prefix: &str) -> (found: bool)
    ensures
        found == prefix@.is_prefix_of(text@),
{
    let t = text.as_bytes();
    let p = prefix.as_bytes();
    if p.len() > t.len() {
        proof {
            if prefix@.is_prefix_of(text@) {
                lemma_prefix_to_bytes(prefix@, text@);
            }
        }
        return false;
    }
    let mut i: usize = 0;
    while i < p.len()
        invariant
            p@.len() <= t@.len(),
            i <= p@.len(),
            p@ == encode_utf8(prefix@),
            t@ == encode_utf8(text@),
            forall|j: int| 0 <= j < i ==> p@[j] == t@[j],
        decreases p@.len() - i,
    {
        if p[i] != t[i] {
            proof {
                if prefix@.is_prefix_of(text@) {
                    lemma_prefix_to_bytes(prefix@, text@);
                    assert(p@[i as int] == t@.subrange(0, p@.len() as int)[i as int]);
                }
            }
            return false;
        }
        i += 1;
    }
    proof {
        assert(p@ =~= t@.subrange(0, p@.len() as int));
        lemma_prefix_from_bytes(prefix@, text@);
    }
    true
}

// ---------------------------------------------------------------------------
// Replacing
// ---------------------------------------------------------------------------

/// `String::push` appends one character.
pub assume_specification[ String::push ](s: &mut String, ch: char)
    ensures
        final(s)@ == old(s)@.push(ch),
;

/// The characters of a string.
pub fn chars_of(s: &str) -> (chars: Vec<char>)
    ensures
        chars@ == s@,
{
    let mut chars: Vec<char> = Vec::new();
    for c in it: s.chars()
        invariant
            it.seq() == s@,
            chars@ == it.seq().take(it.index() as int),
    {
        chars.push(c);
    }
    chars
}

/// Whether `pattern` stands in `text` at the position `at`.
pub open spec fn occurs_at(text: Seq<char>, pattern: Seq<char>, at: int) -> bool {
    0 <= at <= text.len() && pattern.is_prefix_of(text.skip(at))
}

/// Whether `pattern` stands somewhere in `text`.
pub open spec fn occurs(text: Seq<char>, pattern: Seq<char>) -> bool {
    exists|at: int| occurs_at(text, pattern, at)
}

/// `text` with `to` in place of each occurrence of `from`, found from left to
/// right, the search going on behind each occurrence that was replaced. An
/// empty `from` occurs nowhere.
pub open spec fn replace_all(text: Seq<char>, from: Seq<char>, to: Seq<char>) -> Seq<char>
    decreases text.len(),
{
    if text.len() == 0 || from.len() == 0 {
        text
    } else if from.is_prefix_of(text) {
        to + replace_all(text.skip(from.len() as int), from, to)
    } else {
        seq![text[0]] + replace_all(text.skip(1), from, to)
    }
}

/// Whether `pattern` stands in `text` at the position `at`.
fn matches_at(text: &Vec<char>, at: usize, pattern: &Vec<char>) -> (found: bool)
    requires
        at <= text.len(),
    ensures
        found == pattern@.is_prefix_of(text@.skip(at as int)),
{
    if pattern.len() > text.len() - at {
        return false;
    }
    let mut i: usize = 0;
    while i < pattern.len()
        invariant
            at + pattern.len() <= text.len(),
            0 <= i <= pattern.len(),
            forall|j: int| 0 <= j < i ==> pattern@[j] == text@[at + j],
        decreases pattern.len() - i,
    {
        if pattern[i] != text[at + i] {
            assert(pattern@[i as int] != text@.skip(at as int).subrange(
                0,
                pattern.len() as int,
            )[i as int]);
            return false;
        }
        i += 1;
    }
    assert(pattern@ =~= text@.skip(at as int).subrange(0, pattern.len() as int));
    true
}

/// `text` with `to` in place of each occurrence of `from`.
pub fn replace(text: &str, from: &str, to: &str) -> (out: String)
    ensures
        out@ == replace_all(text@, from@, to@),
{
    let chars = chars_of(text);
    let pattern = chars_of(from);
    let mut out = String::new();
    if pattern.len() == 0 {
        out.append(text);
        assert(out@ =~= text@);
        return out;
    }
    let mut i: usize = 0;
    assert(out@ + replace_all(chars@.skip(0), from@, to@) =~= replace_all(text@, from@, to@)) by {
        assert(chars@.skip(0) =~= text@);
    }
    while i < chars.len()
        invariant
            0 <= i <= chars.len(),
            chars@ == text@,
            pattern@ == from@,
            pattern.len() > 0,
            out@ + replace_all(chars@.skip(i as int), from@, to@) == replace_all(
                text@,
                from@,
                to@,
            ),
        decreases chars.len() - i,
    {
        let ghost rest = chars@.skip(i as int);
        let ghost done = out@;
        if matches_at(&chars, i, &pattern) {
            out.append(to);
            proof {
                assert(rest.skip(pattern.len() as int) =~= chars@.skip(i + pattern.len()));
                assert(done + (to@ + replace_all(rest.skip(pattern.len() as int), from@, to@))
                    =~= done + to@ + replace_all(rest.skip(pattern.len() as int), from@, to@));
            }
            i += pattern.len();
        } else {
            out.push(chars[i]);
            proof {
                assert(rest.skip(1) =~= chars@.skip(i + 1));
                assert(rest[0] == chars@[i as int]);
                assert(done + (seq![rest[0]] + replace_all(rest.skip(1), from@, to@)) =~= done.push(
                    rest[0],
                ) + replace_all(rest.skip(1), from@, to@));
            }
            i += 1;
        }
    }
    assert(chars@.skip(i as int) =~= Seq::empty());
    assert(out@ + Seq::<char>::empty() =~= out@);
    out
}

/// A text in which `from` does not occur is left as it is.
pub proof fn lemma_replace_all_without_occurrence(text: Seq<char>, from: Seq<char>, to: Seq<char>)
    requires
        !occurs(text, from),
    ensures
        replace_all(text, from, to) == text,
    decreases text.len(),
{
    if text.len() > 0 && from.len() > 0 {
        assert(!from.is_prefix_of(text)) by {
            assert(text.skip(0) =~= text);
            assert(!occurs_at(text, from, 0));
        }
        let rest = text.skip(1);
        assert(!occurs(rest, from)) by {
            assert forall|at: int| !occurs_at(rest, from, at) by {
                if 0 <= at <= rest.len() {
                    assert(rest.skip(at) =~= text.skip(at + 1));
                    assert(!occurs_at(text, from, at + 1));
                }
            }
        }
        lemma_replace_all_without_occurrence(rest, from, to);
        assert(seq![text[0]] + rest =~= text);
    }
}

/// How a rewritten text begins: over any length, either it agrees with the
/// text that it was made from, or that holds up to a position where `to`
/// stands in it.
pub proof fn lemma_replace_all_start(text: Seq<char>, from: Seq<char>, to: Seq<char>, length: int)
    requires
        0 <= length <= replace_all(text, from, to).len(),
    ensures
        (length <= text.len() && replace_all(text, from, to).take(length) == text.take(length)) || (
        exists|at: int|
            0 <= at < length && at <= text.len() && replace_all(text, from, to).take(at)
                == text.take(at) && #[trigger] occurs_at(replace_all(text, from, to), to, at)),
    decreases text.len(),
{
    let out = replace_all(text, from, to);
    if text.len() == 0 || from.len() == 0 {
    } else if length == 0 {
        assert(out.take(0) =~= text.take(0));
    } else if from.is_prefix_of(text) {
        assert(out.take(0) =~= text.take(0));
        assert(to.is_prefix_of(out.skip(0))) by {
            assert(out.skip(0) =~= out);
            assert(to =~= out.subrange(0, to.len() as int));
        }
        assert(occurs_at(out, to, 0));
    } else {
        let rest = text.skip(1);
        let tail = replace_all(rest, from, to);
        assert(out =~= seq![text[0]] + tail);
        lemma_replace_all_start(rest, from, to, length - 1);
        if length - 1 <= rest.len() && tail.take(length - 1) == rest.take(length - 1) {
            assert(out.take(length) =~= seq![text[0]] + tail.take(length - 1));
            assert(text.take(length) =~= seq![text[0]] + rest.take(length - 1));
        } else {
            let at = choose|at: int|
                0 <= at < length - 1 && at <= rest.len() && tail.take(at) == rest.take(at)
                    && #[trigger] occurs_at(tail, to, at);
            assert(out.take(at + 1) =~= seq![text[0]] + tail.take(at));
            assert(text.take(at + 1) =~= seq![text[0]] + rest.take(at));
            assert(out.skip(at + 1) =~= tail.skip(at));
            assert(occurs_at(out, to, at + 1));
        }
    }
}

/// Where a pattern is replaced by a text that cannot be part of a new
/// occurrence, no occurrence of the pattern is left. That holds of a
/// replacement that is not empty, holds neither the first nor the last
/// character of the pattern, and holds a character that the pattern lacks.
pub proof fn lemma_replace_all_leaves_no_occurrence(
    text: Seq<char>,
    from: Seq<char>,
    to: Seq<char>,
    foreign: char,
)
    requires
        from.len() > 0,
        !to.contains(from.first()),
        !to.contains(from.last()),
        to.contains(foreign),
        !from.contains(foreign),
    ensures
        !occurs(replace_all(text, from, to), from),
    decreases text.len(),
{
    let out = replace_all(text, from, to);
    assert forall|at: int| !occurs_at(out, from, at) by {
        if 0 <= at <= out.len() && from.is_prefix_of(out.skip(at)) {
            let window = out.skip(at);
            assert(from =~= window.subrange(0, from.len() as int));
            assert(window[0] == from[0]);
            assert(text.len() > 0);
            if from.is_prefix_of(text) {
                let rest = text.skip(from.len() as int);
                let tail = replace_all(rest, from, to);
                assert(out =~= to + tail);
                if at < to.len() {
                    assert(to[at] == from.first());
                } else {
                    lemma_replace_all_leaves_no_occurrence(rest, from, to, foreign);
                    assert(out.skip(at) =~= tail.skip(at - to.len()));
                    assert(occurs_at(tail, from, at - to.len()));
                }
            } else {
                let rest = text.skip(1);
                let tail = replace_all(rest, from, to);
                assert(out =~= seq![text[0]] + tail);
                if at > 0 {
                    lemma_replace_all_leaves_no_occurrence(rest, from, to, foreign);
                    assert(out.skip(at) =~= tail.skip(at - 1));
                    assert(occurs_at(tail, from, at - 1));
                } else {
                    assert(window =~= out);
                    lemma_replace_all_start(text, from, to, from.len() as int);
                    if from.len() <= text.len() && out.take(from.len() as int) == text.take(
                        from.len() as int,
                    ) {
                        assert(from =~= text.subrange(0, from.len() as int)) by {
                            assert(out.take(from.len() as int) =~= out.subrange(
                                0,
                                from.len() as int,
                            ));
                            assert(text.take(from.len() as int) =~= text.subrange(
                                0,
                                from.len() as int,
                            ));
                        }
                    } else {
                        let block = choose|block: int|
                            0 <= block < from.len() && block <= text.len() && out.take(block)
                                == text.take(block) && #[trigger] occurs_at(out, to, block);
                        let inside = out.skip(block);
                        assert(to =~= inside.subrange(0, to.len() as int));
                        if block + to.len() <= from.len() {
                            let k = choose|k: int| 0 <= k < to.len() && to[k] == foreign;
                            assert(inside[k] == to[k]);
                            assert(from[block + k] == window[block + k]);
                            assert(from.contains(foreign));
                        } else {
                            let k = from.len() - 1 - block;
                            assert(inside[k] == to[k]);
                            assert(from[from.len() - 1] == window[from.len() - 1]);
                            assert(to.contains(from.last()));
                        }
                    }
                }
            }
        }
    }
}

// ---------------------------------------------------------------------------
// Lines
// ---------------------------------------------------------------------------

/// The length of the first line of `text`: up to its first line feed, with
/// it; all of the text where it holds none.
pub open spec fn first_line_len(text: Seq<char>) -> int
    decreases text.len(),
{
    if text.len() == 0 {
        0
    } else if text[0] == '\n' {
        1
    } else {
        1 + first_line_len(text.skip(1))
    }
}

/// The first line of a text that is not empty is not empty, and lies within
/// the text.
pub proof fn lemma_first_line_len(text: Seq<char>)
    ensures
        0 <= first_line_len(text) <= text.len(),
        text.len() > 0 ==> first_line_len(text) >= 1,
    decreases text.len(),
{
    if text.len() > 0 && text[0] != '\n' {
        lemma_first_line_len(text.skip(1));
    }
}

/// The first line of `text`, with its line feed where it has one.
pub open spec fn first_line(text: Seq<char>) -> Seq<char> {
    text.take(first_line_len(text))
}

/// What follows the first line of `text`.
pub open spec fn after_first_line(text: Seq<char>) -> Seq<char> {
    text.skip(first_line_len(text))
}

/// Whether one of the lines of `text` is `line`. A line reaches up to its
/// line feed and holds it; the last line may have none.
pub open spec fn has_line(text: Seq<char>, line: Seq<char>) -> bool
    decreases text.len(),
    via has_line_decreases
{
    if text.len() == 0 {
        false
    } else {
        first_line(text) == line || has_line(after_first_line(text), line)
    }
}

#[via_fn]
proof fn has_line_decreases(text: Seq<char>, line: Seq<char>) {
    lemma_first_line_len(text);
}

/// `text` without every line that is one of `unwanted`. The other lines stay
/// as they are, in their order.
pub open spec fn without_lines(text: Seq<char>, unwanted: Seq<Seq<char>>) -> Seq<char>
    decreases text.len(),
    via without_lines_decreases
{
    if text.len() == 0 {
        text
    } else if unwanted.contains(first_line(text)) {
        without_lines(after_first_line(text), unwanted)
    } else {
        first_line(text) + without_lines(after_first_line(text), unwanted)
    }
}

#[via_fn]
proof fn without_lines_decreases(text: Seq<char>, unwanted: Seq<Seq<char>>) {
    lemma_first_line_len(text);
}

/// Whether `line` is one whole line: it ends with a line feed and holds no
/// other.
pub open spec fn is_line(line: Seq<char>) -> bool {
    &&& line.len() > 0
    &&& line.last() == '\n'
    &&& forall|i: int| 0 <= i < line.len() - 1 ==> line[i] != '\n'
}

/// Whether `text` ends where a line ends: it is empty or ends with a line
/// feed.
pub open spec fn ends_a_line(text: Seq<char>) -> bool {
    text.len() == 0 || text.last() == '\n'
}

/// A text none of whose lines is unwanted is left as it is.
pub proof fn lemma_without_lines_keeps(text: Seq<char>, unwanted: Seq<Seq<char>>)
    requires
        forall|k: int| 0 <= k < unwanted.len() ==> !has_line(text, #[trigger] unwanted[k]),
    ensures
        without_lines(text, unwanted) == text,
    decreases text.len(),
{
    if text.len() > 0 {
        lemma_first_line_len(text);
        let line = first_line(text);
        let rest = after_first_line(text);
        assert(!unwanted.contains(line)) by {
            if unwanted.contains(line) {
                let k = choose|k: int| 0 <= k < unwanted.len() && unwanted[k] == line;
                assert(has_line(text, unwanted[k]));
            }
        }
        assert forall|k: int| 0 <= k < unwanted.len() implies !has_line(
            rest,
            #[trigger] unwanted[k],
        ) by {
            assert(!has_line(text, unwanted[k]));
        }
        lemma_without_lines_keeps(rest, unwanted);
        assert(line + rest =~= text);
    }
}

/// The first line of a text that holds a line feed does not reach into what
/// is put behind the text.
pub proof fn lemma_first_line_of_a_part(head: Seq<char>, rest: Seq<char>)
    requires
        head.len() > 0,
        ends_a_line(head),
    ensures
        first_line_len(head + rest) == first_line_len(head),
        ends_a_line(after_first_line(head)),
    decreases head.len(),
{
    let whole = head + rest;
    lemma_first_line_len(head);
    assert(whole[0] == head[0]);
    if head[0] != '\n' {
        assert(head.len() > 1);
        assert(whole.skip(1) =~= head.skip(1) + rest);
        lemma_first_line_of_a_part(head.skip(1), rest);
        let n = first_line_len(head.skip(1));
        lemma_first_line_len(head.skip(1));
        assert(head.skip(1).skip(n) =~= head.skip(n + 1));
    } else {
        assert(head.skip(1).len() > 0 ==> head.skip(1).last() == head.last());
    }
    let left = after_first_line(head);
    assert(left.len() > 0 ==> left.last() == head.last());
}

/// A text that ends where a line ends loses its unwanted lines apart from
/// what follows it.
pub proof fn lemma_without_lines_by_parts(
    head: Seq<char>,
    rest: Seq<char>,
    unwanted: Seq<Seq<char>>,
)
    requires
        ends_a_line(head),
    ensures
        without_lines(head + rest, unwanted) == without_lines(head, unwanted) + without_lines(
            rest,
            unwanted,
        ),
    decreases head.len(),
{
    let whole = head + rest;
    if head.len() == 0 {
        assert(whole =~= rest);
        assert(without_lines(head, unwanted) + without_lines(rest, unwanted) =~= without_lines(
            rest,
            unwanted,
        ));
    } else {
        lemma_first_line_of_a_part(head, rest);
        lemma_first_line_len(head);
        let n = first_line_len(head);
        let left = after_first_line(head);
        assert(first_line(whole) =~= first_line(head));
        assert(after_first_line(whole) =~= left + rest);
        lemma_without_lines_by_parts(left, rest, unwanted);
        assert(first_line(head) + (without_lines(left, unwanted) + without_lines(rest, unwanted))
            =~= (first_line(head) + without_lines(left, unwanted)) + without_lines(
            rest,
            unwanted,
        ));
    }
}

/// The first line of a whole line is all of it.
pub proof fn lemma_first_line_of_a_line(line: Seq<char>, from: int)
    requires
        is_line(line),
        0 <= from < line.len(),
    ensures
        first_line_len(line.skip(from)) == line.len() - from,
    decreases line.len() - from,
{
    let tail = line.skip(from);
    assert(tail[0] == line[from]);
    if from < line.len() - 1 {
        assert(tail.skip(1) =~= line.skip(from + 1));
        lemma_first_line_of_a_line(line, from + 1);
    }
}

/// An unwanted line leaves as a whole, and a wanted line stays.
pub proof fn lemma_without_lines_of_a_line(line: Seq<char>, unwanted: Seq<Seq<char>>)
    requires
        is_line(line),
    ensures
        without_lines(line, unwanted) == if unwanted.contains(line) {
            Seq::<char>::empty()
        } else {
            line
        },
        has_line(line, line),
        forall|other: Seq<char>| has_line(line, other) ==> other == line,
{
    lemma_first_line_of_a_line(line, 0);
    assert(line.skip(0) =~= line);
    assert(first_line(line) =~= line);
    let nothing = after_first_line(line);
    assert(nothing =~= Seq::<char>::empty());
    assert(without_lines(nothing, unwanted) == nothing);
    assert(line + nothing =~= line);
    assert forall|other: Seq<char>| has_line(line, other) implies other == line by {
        assert(!has_line(nothing, other));
    }
}

/// The lines of a text that ends where a line ends, and those of what
/// follows it, are the lines of the two together.
pub proof fn lemma_has_line_by_parts(head: Seq<char>, rest: Seq<char>, line: Seq<char>)
    requires
        ends_a_line(head),
    ensures
        has_line(head + rest, line) <==> has_line(head, line) || has_line(rest, line),
    decreases head.len(),
{
    let whole = head + rest;
    if head.len() == 0 {
        assert(whole =~= rest);
    } else {
        lemma_first_line_of_a_part(head, rest);
        lemma_first_line_len(head);
        let left = after_first_line(head);
        assert(first_line(whole) =~= first_line(head));
        assert(after_first_line(whole) =~= left + rest);
        lemma_has_line_by_parts(left, rest, line);
    }
}

/// The first line of a text is a whole line, or it is all of the text.
pub proof fn lemma_first_line_shape(text: Seq<char>)
    requires
        text.len() > 0,
    ensures
        is_line(first_line(text)) || after_first_line(text).len() == 0,
    decreases text.len(),
{
    lemma_first_line_len(text);
    if text[0] != '\n' && text.len() > 1 {
        let tail = text.skip(1);
        lemma_first_line_shape(tail);
        lemma_first_line_len(tail);
        let n = first_line_len(tail);
        assert(after_first_line(text) =~= after_first_line(tail));
        assert(first_line(text) =~= seq![text[0]] + first_line(tail));
        if is_line(first_line(tail)) {
            let line = first_line(text);
            assert forall|i: int| 0 <= i < line.len() - 1 implies line[i] != '\n' by {
                if i > 0 {
                    assert(line[i] == first_line(tail)[i - 1]);
                }
            }
        }
    } else if text[0] == '\n' {
        assert(first_line(text) =~= seq!['\n']);
    }
}

/// What is left holds exactly the lines that the text held and that are not
/// unwanted: no line is changed, and none comes about.
pub proof fn lemma_without_lines_has_line(
    text: Seq<char>,
    unwanted: Seq<Seq<char>>,
    line: Seq<char>,
)
    ensures
        has_line(without_lines(text, unwanted), line) <==> has_line(text, line)
            && !unwanted.contains(line),
    decreases text.len(),
{
    if text.len() > 0 {
        lemma_first_line_len(text);
        lemma_first_line_shape(text);
        let first = first_line(text);
        let rest = after_first_line(text);
        let left = without_lines(rest, unwanted);
        lemma_without_lines_has_line(rest, unwanted, line);
        if !unwanted.contains(first) {
            if is_line(first) {
                lemma_has_line_by_parts(first, left, line);
                lemma_without_lines_of_a_line(first, unwanted);
            } else {
                assert(rest =~= Seq::<char>::empty());
                assert(left =~= Seq::<char>::empty());
                assert(first + left =~= text);
            }
        }
    }
}

/// Whether the characters of `text` from `from` up to `to` are those of
/// `line`.
fn is_the_line(text: &Vec<char>, from: usize, to: usize, line: &Vec<char>) -> (same: bool)
    requires
        from <= to <= text.len(),
    ensures
        same == (text@.subrange(from as int, to as int) == line@),
{
    if line.len() != to - from {
        return false;
    }
    let mut i: usize = 0;
    while i < line.len()
        invariant
            from <= to <= text.len(),
            line.len() == to - from,
            0 <= i <= line.len(),
            forall|j: int| 0 <= j < i ==> line@[j] == text@[from + j],
        decreases line.len() - i,
    {
        if line[i] != text[from + i] {
            assert(line@[i as int] != text@.subrange(from as int, to as int)[i as int]);
            return false;
        }
        i += 1;
    }
    assert(line@ =~= text@.subrange(from as int, to as int));
    true
}

/// `text` without every line that is one of `unwanted`.
pub fn remove_lines(text: &str, unwanted: &[&str]) -> (out: String)
    ensures
        out@ == without_lines(text@, unwanted@.map_values(|line: &str| line@)),
{
    let ghost lines = unwanted@.map_values(|line: &str| line@);
    let chars = chars_of(text);
    let mut patterns: Vec<Vec<char>> = Vec::new();
    let mut k: usize = 0;
    while k < unwanted.len()
        invariant
            0 <= k <= unwanted.len(),
            patterns.len() == k,
            lines == unwanted@.map_values(|line: &str| line@),
            forall|j: int| 0 <= j < k ==> (#[trigger] patterns@[j])@ == lines[j],
        decreases unwanted.len() - k,
    {
        patterns.push(chars_of(unwanted[k]));
        k += 1;
    }
    let mut out = String::new();
    let mut start: usize = 0;
    assert(chars@.skip(0) =~= text@);
    assert(out@ + without_lines(text@, lines) =~= without_lines(text@, lines));
    while start < chars.len()
        invariant
            0 <= start <= chars.len(),
            chars@ == text@,
            patterns.len() == lines.len(),
            forall|j: int| 0 <= j < patterns.len() ==> (#[trigger] patterns@[j])@ == lines[j],
            out@ + without_lines(chars@.skip(start as int), lines) == without_lines(text@, lines),
        decreases chars.len() - start,
    {
        let ghost rest = chars@.skip(start as int);
        let mut end: usize = start;
        let mut closed = false;
        while !closed && end < chars.len()
            invariant
                start <= end <= chars.len(),
                rest == chars@.skip(start as int),
                closed ==> end > start && first_line_len(rest) == end - start,
                !closed ==> first_line_len(rest) == (end - start) + first_line_len(
                    chars@.skip(end as int),
                ),
            decreases chars.len() - end + if closed { 0int } else { 1int },
        {
            proof {
                assert(chars@.skip(end as int)[0] == chars@[end as int]);
                assert(chars@.skip(end as int).skip(1) =~= chars@.skip(end as int + 1));
            }
            if chars[end] == '\n' {
                closed = true;
            }
            end += 1;
        }
        proof {
            lemma_first_line_len(rest);
            if !closed {
                assert(chars@.skip(end as int) =~= Seq::<char>::empty());
            }
            assert(first_line_len(rest) == end - start);
            assert(first_line(rest) =~= chars@.subrange(start as int, end as int));
            assert(after_first_line(rest) =~= chars@.skip(end as int));
        }
        let ghost line = chars@.subrange(start as int, end as int);
        let mut hit = false;
        let mut j: usize = 0;
        while j < patterns.len()
            invariant
                0 <= j <= patterns.len(),
                start <= end <= chars.len(),
                patterns.len() == lines.len(),
                line == chars@.subrange(start as int, end as int),
                forall|i: int| 0 <= i < patterns.len() ==> (#[trigger] patterns@[i])@ == lines[i],
                hit == exists|i: int| 0 <= i < j && lines[i] == line,
            decreases patterns.len() - j,
        {
            if is_the_line(&chars, start, end, &patterns[j]) {
                hit = true;
            }
            j += 1;
        }
        assert(hit == lines.contains(line));
        if !hit {
            let ghost done = out@;
            let mut i: usize = start;
            while i < end
                invariant
                    start <= i <= end <= chars.len(),
                    out@ == done + chars@.subrange(start as int, i as int),
                decreases end - i,
            {
                out.push(chars[i]);
                assert(chars@.subrange(start as int, i as int + 1) =~= chars@.subrange(
                    start as int,
                    i as int,
                ).push(chars@[i as int]));
                i += 1;
            }
            assert(done + (line + without_lines(chars@.skip(end as int), lines)) =~= (done
                + line) + without_lines(chars@.skip(end as int), lines));
        }
        start = end;
    }
    assert(chars@.skip(start as int) =~= Seq::<char>::empty());
    assert(out@ + Seq::<char>::empty() =~= out@);
    out
}

// ---------------------------------------------------------------------------
// Hexadecimal
// ---------------------------------------------------------------------------

/// The lower-case hexadecimal digit of a value below sixteen.
pub open spec fn hex_digit(value: int) -> char {
    "0123456789abcdef"@[value]
}

/// Whether `c` is a lower-case hexadecimal digit.
pub open spec fn is_lower_hex(c: char) -> bool {
    exists|value: int| 0 <= value < 16 && c == hex_digit(value)
}

/// Two lower-case hexadecimal digits for each byte, the high half first.
pub open spec fn hex_of(bytes: Seq<u8>) -> Seq<char>
    decreases bytes.len(),
{
    if bytes.len() == 0 {
        Seq::empty()
    } else {
        hex_of(bytes.drop_last()) + seq![
            hex_digit(bytes.last() as int / 16),
            hex_digit(bytes.last() as int % 16),
        ]
    }
}

/// The hexadecimal form of `n` bytes has `2 * n` characters, each a
/// lower-case hexadecimal digit.
pub proof fn lemma_hex_of(bytes: Seq<u8>)
    ensures
        hex_of(bytes).len() == 2 * bytes.len(),
        forall|i: int| 0 <= i < hex_of(bytes).len() ==> is_lower_hex(#[trigger] hex_of(bytes)[i]),
    decreases bytes.len(),
{
    if bytes.len() > 0 {
        lemma_hex_of(bytes.drop_last());
        let high = bytes.last() as int / 16;
        let low = bytes.last() as int % 16;
        assert(is_lower_hex(hex_digit(high)));
        assert(is_lower_hex(hex_digit(low)));
    }
}

/// The lower-case hexadecimal digit of a value below sixteen.
fn hex_char(value: u8) -> (c: char)
    requires
        value < 16,
    ensures
        c == hex_digit(value as int),
{
    proof {
        reveal_strlit("0123456789abcdef");
    }
    "0123456789abcdef".get_char(value as usize)
}

/// The bytes in lower-case hexadecimal.
pub fn hex_encode(bytes: &[u8]) -> (out: String)
    ensures
        out@ == hex_of(bytes@),
{
    let mut out = String::new();
    let mut i: usize = 0;
    assert(bytes@.take(0) =~= Seq::empty());
    while i < bytes.len()
        invariant
            0 <= i <= bytes.len(),
            out@ == hex_of(bytes@.take(i as int)),
        decreases bytes.len() - i,
    {
        let byte = bytes[i];
        proof {
            assert(bytes@.take(i as int + 1).drop_last() =~= bytes@.take(i as int));
            assert(bytes@.take(i as int + 1).last() == byte);
        }
        let ghost before = out@;
        out.push(hex_char(byte / 16));
        out.push(hex_char(byte % 16));
        assert(out@ =~= before + seq![hex_digit(byte as int / 16), hex_digit(byte as int % 16)]);
        i += 1;
    }
    assert(bytes@.take(i as int) =~= bytes@);
    out
}

// ---------------------------------------------------------------------------
// Finding a name
// ---------------------------------------------------------------------------

/// The position of the first of `names` that equals `wanted`; the length of
/// `names` where none does.
pub open spec fn first_index(names: Seq<Seq<char>>, wanted: Seq<char>) -> int
    decreases names.len(),
{
    if names.len() == 0 {
        0
    } else if names[0] == wanted {
        0
    } else {
        1 + first_index(names.skip(1), wanted)
    }
}

/// The first position is the one before which no name equals `wanted`.
pub proof fn lemma_first_index(names: Seq<Seq<char>>, wanted: Seq<char>, at: int)
    requires
        0 <= at <= names.len(),
        forall|j: int| 0 <= j < at ==> names[j] != wanted,
        at < names.len() ==> names[at] == wanted,
    ensures
        first_index(names, wanted) == at,
    decreases names.len(),
{
    if names.len() > 0 && at > 0 {
        let rest = names.skip(1);
        assert forall|j: int| 0 <= j < at - 1 implies rest[j] != wanted by {
            assert(rest[j] == names[j + 1]);
        }
        lemma_first_index(rest, wanted, at - 1);
    }
}

/// The first position lies within the names or just behind them, and no
/// name before it equals `wanted`.
pub proof fn lemma_first_index_is_first(names: Seq<Seq<char>>, wanted: Seq<char>)
    ensures
        0 <= first_index(names, wanted) <= names.len(),
        forall|j: int| 0 <= j < first_index(names, wanted) ==> names[j] != wanted,
        first_index(names, wanted) < names.len() ==> names[first_index(names, wanted)] == wanted,
    decreases names.len(),
{
    if names.len() > 0 && names[0] != wanted {
        let rest = names.skip(1);
        lemma_first_index_is_first(rest, wanted);
        assert forall|j: int| 0 <= j < first_index(names, wanted) implies names[j] != wanted by {
            if j > 0 {
                assert(rest[j - 1] == names[j]);
            }
        }
    }
}

} // verus!
