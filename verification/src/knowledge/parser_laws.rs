//! What holds of parsed files, whatever the file.
use vstd::prelude::*;

use crate::hash;
use crate::knowledge::parser;
use crate::knowledge::parser::SectionText;
use crate::knowledge::yaml::YamlValue;
use crate::text;
use crate::text_laws;

verus! {

// ---------------------------------------------------------------------------
// Headings
// ---------------------------------------------------------------------------

/// `n` hash signs.
pub open spec fn hash_signs(n: nat) -> Seq<char> {
    Seq::new(n, |i: int| '#')
}

/// The hash signs before something else are counted.
proof fn lemma_hashes(n: nat, rest: Seq<char>)
    requires
        rest.len() > 0 ==> rest[0] != '#',
    ensures
        parser::hashes(hash_signs(n) + rest) == n,
    decreases n,
{
    let s = hash_signs(n) + rest;
    if n > 0 {
        lemma_hashes((n - 1) as nat, rest);
        assert(s[0] == '#');
        assert(s.drop_first() =~= hash_signs((n - 1) as nat) + rest);
    } else {
        assert(s =~= rest);
    }
}

/// The hash signs that are counted are there, and no more.
proof fn lemma_hashes_props(s: Seq<char>)
    ensures
        parser::hashes(s) <= s.len(),
        forall|i: int| 0 <= i < parser::hashes(s) ==> #[trigger] s[i] == '#',
        parser::hashes(s) < s.len() ==> s[parser::hashes(s) as int] != '#',
    decreases s.len(),
{
    if s.len() > 0 && s[0] == '#' {
        let t = s.drop_first();
        lemma_hashes_props(t);
        assert forall|i: int| 0 <= i < parser::hashes(s) implies #[trigger] s[i] == '#' by {
            if i > 0 {
                assert(s[i] == t[i - 1]);
            }
        }
        if parser::hashes(s) < s.len() {
            assert(s[parser::hashes(s) as int] == t[parser::hashes(s) - 1]);
        }
    }
}

/// One to six hash signs, a space and a title are a heading of that level with
/// that title, whatever white space stands round them.
pub proof fn hashes_and_a_title_are_a_heading(
    before: Seq<char>,
    n: nat,
    gap: Seq<char>,
    title: Seq<char>,
    after: Seq<char>,
)
    requires
        text::blank(before),
        1 <= n <= 6,
        text::blank(gap),
        title.len() > 0,
        text_laws::tight(title),
        text::blank(after),
    ensures
        parser::heading_of(before + hash_signs(n) + seq![' '] + gap + title + after) == Some(
            (n, title),
        ),
{
    let line = before + hash_signs(n) + seq![' '] + gap + title + after;
    let rest = seq![' '] + gap + title + after;
    assert(line[before.len() as int] == '#');
    text::lemma_first_visible(line, before.len() as int);
    let t = text::trim_start(line);
    assert(t =~= hash_signs(n) + rest);
    lemma_hashes(n, rest);
    assert(t[n as int] == ' ');
    let tail = t.skip(n as int);
    assert(tail =~= (seq![' '] + gap) + title + after);
    assert(text::blank(seq![' '] + gap)) by {
        let w = seq![' '] + gap;
        assert forall|i: int| 0 <= i < w.len() implies text::white_space(#[trigger] w[i]) by {
            if i > 0 {
                assert(w[i] == gap[i - 1]);
            }
        }
    }
    text_laws::white_space_round_a_text_is_trimmed(seq![' '] + gap, title, after);
    text::lemma_trim_empty_iff_blank(tail);
}

/// A heading is nothing else: after white space it has one to six hash signs, as
/// many as its level, then a space, and what follows is its title.
pub proof fn a_heading_is_hashes_and_a_title(line: Seq<char>)
    requires
        parser::heading_of(line) is Some,
    ensures
        ({
            let (n, title) = parser::heading_of(line)->0;
            let i = text::first_visible(line);
            &&& 1 <= n <= 6
            &&& text::blank(line.take(i))
            &&& i + n < line.len()
            &&& forall|k: int| i <= k < i + n ==> #[trigger] line[k] == '#'
            &&& line[i + n] == ' '
            &&& title == text::trim(line.skip(i + n))
            &&& title.len() > 0
        }),
{
    let i = text::first_visible(line);
    text::lemma_first_visible_props(line);
    let t = text::trim_start(line);
    let (n, title) = parser::heading_of(line)->0;
    lemma_hashes_props(t);
    assert forall|k: int| i <= k < i + n implies #[trigger] line[k] == '#' by {
        assert(t[k - i] == line[k]);
    }
    assert(line[i + n] == t[n as int]);
    assert(line.skip(i + n) =~= t.skip(n as int));
    text::lemma_trim_empty_iff_blank(t.skip(n as int));
    assert forall|k: int| 0 <= k < line.take(i).len() implies text::white_space(
        #[trigger] line.take(i)[k],
    ) by {
        assert(line.take(i)[k] == line[k]);
    }
}

// ---------------------------------------------------------------------------
// Sections
// ---------------------------------------------------------------------------

/// The level of a heading.
pub open spec fn level_of(line: Seq<char>) -> nat {
    match parser::heading_of(line) {
        Some((n, _)) => n,
        None => 0,
    }
}

/// The title of a heading.
pub open spec fn title_of(line: Seq<char>) -> Seq<char> {
    match parser::heading_of(line) {
        Some((_, title)) => title,
        None => Seq::empty(),
    }
}

/// The line is a heading of level one or two.
pub open spec fn opens(line: Seq<char>) -> bool {
    parser::heading_of(line) is Some && level_of(line) <= 2
}

/// How many of the lines are headings of level one or two.
pub open spec fn openings(lines: Seq<Seq<char>>) -> nat
    decreases lines.len(),
{
    if lines.len() == 0 {
        0
    } else {
        openings(lines.drop_first()) + if opens(lines[0]) {
            1nat
        } else {
            0nat
        }
    }
}

/// None of the lines from `i` to `j` is a heading of level one or two.
pub open spec fn plain_between(lines: Seq<Seq<char>>, i: int, j: int) -> bool {
    forall|k: int| i <= k < j ==> !opens(#[trigger] lines[k])
}

/// Lines up to the first heading go on with the open section.
proof fn lemma_up_to_heading(
    lines: Seq<Seq<char>>,
    heading: Option<Seq<char>>,
    level: nat,
    content: Seq<char>,
    m: int,
)
    requires
        0 <= m <= lines.len(),
        plain_between(lines, 0, m),
        m < lines.len() ==> opens(lines[m]),
    ensures
        parser::sections_from(lines, heading, level, content) == parser::closed_section(
            heading,
            level,
            content + text_laws::joined(lines.take(m)),
        ) + (if m < lines.len() {
            parser::sections_from(
                lines.skip(m + 1),
                Some(title_of(lines[m])),
                level_of(lines[m]),
                Seq::empty(),
            )
        } else {
            Seq::empty()
        }),
    decreases m,
{
    reveal_strlit("\n");
    assert("\n"@ =~= seq!['\n']);
    if m == 0 {
        assert(lines.take(0).len() == 0);
        assert(content + text_laws::joined(lines.take(0)) =~= content);
        if lines.len() > 0 {
            assert(lines.drop_first() =~= lines.skip(1));
            assert(opens(lines[0]));
        } else {
            assert(parser::closed_section(heading, level, content) + Seq::<SectionText>::empty()
                =~= parser::closed_section(heading, level, content));
        }
    } else {
        let rest = lines.drop_first();
        let more = content + lines[0] + "\n"@;
        assert(!opens(lines[0]));
        assert forall|k: int| 0 <= k < m - 1 implies !opens(#[trigger] rest[k]) by {
            assert(rest[k] == lines[k + 1]);
        }
        if m < lines.len() {
            assert(rest[m - 1] == lines[m]);
            assert(rest.skip(m) =~= lines.skip(m + 1));
        }
        lemma_up_to_heading(rest, heading, level, more, m - 1);
        assert(lines.take(m).drop_first() =~= rest.take(m - 1));
        assert(lines.take(m)[0] == lines[0]);
        assert(more + text_laws::joined(rest.take(m - 1)) =~= content + text_laws::joined(
            lines.take(m),
        ));
    }
}

/// Lines without headings count none.
proof fn lemma_no_openings(lines: Seq<Seq<char>>, m: int)
    requires
        0 <= m <= lines.len(),
        plain_between(lines, 0, m),
    ensures
        openings(lines) == openings(lines.skip(m)),
    decreases m,
{
    if m == 0 {
        assert(lines.skip(0) =~= lines);
    } else {
        let rest = lines.drop_first();
        assert(!opens(lines[0]));
        assert forall|k: int| 0 <= k < m - 1 implies !opens(#[trigger] rest[k]) by {
            assert(rest[k] == lines[k + 1]);
        }
        lemma_no_openings(rest, m - 1);
        assert(rest.skip(m - 1) =~= lines.skip(m));
    }
}

/// The first heading of level one or two, or the number of lines.
pub open spec fn first_opening(lines: Seq<Seq<char>>) -> int
    decreases lines.len(),
{
    if lines.len() == 0 || opens(lines[0]) {
        0
    } else {
        1 + first_opening(lines.drop_first())
    }
}

proof fn lemma_first_opening(lines: Seq<Seq<char>>)
    ensures
        0 <= first_opening(lines) <= lines.len(),
        plain_between(lines, 0, first_opening(lines)),
        first_opening(lines) < lines.len() ==> opens(lines[first_opening(lines)]),
    decreases lines.len(),
{
    if lines.len() > 0 && !opens(lines[0]) {
        let rest = lines.drop_first();
        lemma_first_opening(rest);
        let m = first_opening(lines);
        assert forall|k: int| 0 <= k < m implies !opens(#[trigger] lines[k]) by {
            if k > 0 {
                assert(lines[k] == rest[k - 1]);
            }
        }
        if m < lines.len() {
            assert(lines[m] == rest[m - 1]);
        }
    }
}

/// There is a section for each heading, beside what is kept of the one that is
/// open.
proof fn lemma_section_count(
    lines: Seq<Seq<char>>,
    heading: Option<Seq<char>>,
    level: nat,
    content: Seq<char>,
)
    ensures
        parser::sections_from(lines, heading, level, content).len() == openings(lines)
            + parser::closed_section(
            heading,
            level,
            content + text_laws::joined(lines.take(first_opening(lines))),
        ).len(),
    decreases lines.len(),
{
    let m = first_opening(lines);
    lemma_first_opening(lines);
    lemma_up_to_heading(lines, heading, level, content, m);
    lemma_no_openings(lines, m);
    if m < lines.len() {
        let rest = lines.skip(m + 1);
        assert(lines.skip(m).drop_first() =~= rest);
        assert(lines.skip(m)[0] == lines[m]);
        lemma_section_count(
            rest,
            Some(title_of(lines[m])),
            level_of(lines[m]),
            Seq::empty(),
        );
    } else {
        assert(lines.skip(m).len() == 0);
    }
}

/// The section of the heading at `i`, which goes up to `j`.
proof fn lemma_section_at(
    lines: Seq<Seq<char>>,
    heading: Option<Seq<char>>,
    level: nat,
    content: Seq<char>,
    i: int,
    j: int,
)
    requires
        0 <= i < j <= lines.len(),
        opens(lines[i]),
        plain_between(lines, i + 1, j),
        j < lines.len() ==> opens(lines[j]),
    ensures
        ({
            let all = parser::sections_from(lines, heading, level, content);
            let lead = parser::closed_section(
                heading,
                level,
                content + text_laws::joined(lines.take(first_opening(lines))),
            ).len();
            let at = lead + openings(lines.take(i));
            &&& at < all.len()
            &&& all[at as int] == parser::section_of(
                Some(title_of(lines[i])),
                level_of(lines[i]),
                text_laws::joined(lines.subrange(i + 1, j)),
            )
        }),
    decreases lines.len(),
{
    let m = first_opening(lines);
    lemma_first_opening(lines);
    assert(m <= i) by {
        if m > i {
            assert(!opens(lines[i]));
        }
    }
    lemma_up_to_heading(lines, heading, level, content, m);
    let all = parser::sections_from(lines, heading, level, content);
    let lead = parser::closed_section(
        heading,
        level,
        content + text_laws::joined(lines.take(m)),
    );
    let title = title_of(lines[m]);
    let n = level_of(lines[m]);
    let rest = lines.skip(m + 1);
    let tail = parser::sections_from(rest, Some(title), n, Seq::empty());
    assert(all == lead + tail);
    if m == i {
        let k = j - i - 1;
        assert forall|x: int| 0 <= x < k implies !opens(#[trigger] rest[x]) by {
            assert(rest[x] == lines[i + 1 + x]);
        }
        if j < lines.len() {
            assert(rest[k] == lines[j]);
        }
        lemma_up_to_heading(rest, Some(title), n, Seq::empty(), k);
        assert(rest.take(k) =~= lines.subrange(i + 1, j));
        let body = text_laws::joined(lines.subrange(i + 1, j));
        assert(Seq::empty() + body =~= body);
        lemma_no_openings(lines.take(i), i);
        assert(lines.take(i).skip(i).len() == 0);
        assert(openings(lines.take(i)) == 0);
        assert(all[lead.len() as int] == tail[0]);
    } else {
        let x = i - m - 1;
        let y = j - m - 1;
        assert(rest[x] == lines[i]);
        assert forall|k: int| x + 1 <= k < y implies !opens(#[trigger] rest[k]) by {
            assert(rest[k] == lines[m + 1 + k]);
        }
        if j < lines.len() {
            assert(rest[y] == lines[j]);
        }
        lemma_section_at(rest, Some(title), n, Seq::empty(), x, y);
        assert(rest.subrange(x + 1, y) =~= lines.subrange(i + 1, j));
        let before = lines.take(i);
        assert forall|k: int| 0 <= k < m implies !opens(#[trigger] before[k]) by {
            assert(before[k] == lines[k]);
        }
        lemma_no_openings(before, m);
        assert(before.skip(m)[0] == lines[m]);
        assert(before.skip(m).drop_first() =~= rest.take(x));
        assert(openings(before) == 1 + openings(rest.take(x)));
        let at = 1 + openings(rest.take(x));
        assert(all[(lead.len() + at) as int] == tail[at as int]);
    }
}

/// What stands before the first heading of a body.
pub open spec fn before_headings(body: Seq<char>) -> Seq<char> {
    text_laws::joined(text::lines(body).take(first_opening(text::lines(body))))
}

/// Each heading of level one or two opens a section, whatever section is open:
/// the section has the title and the level of the heading, and holds the lines up
/// to the next such heading, none of which is one, but for white space at its
/// end. The sections come in the order of their headings.
pub proof fn each_heading_opens_its_section(body: Seq<char>, i: int, j: int)
    requires
        0 <= i < j <= text::lines(body).len(),
        opens(text::lines(body)[i]),
        plain_between(text::lines(body), i + 1, j),
        j < text::lines(body).len() ==> opens(text::lines(body)[j]),
    ensures
        ({
            let lines = text::lines(body);
            let at = openings(lines.take(i)) + if text::blank(before_headings(body)) {
                0nat
            } else {
                1nat
            };
            &&& at < parser::sections_of(body).len()
            &&& ({
                let s = parser::sections_of(body)[at as int];
                &&& s.heading == Some(title_of(lines[i]))
                &&& s.level == level_of(lines[i])
                &&& s.content == text::trim_end(text_laws::joined(lines.subrange(i + 1, j)))
                &&& s.tokens == parser::token_estimate(s.content)
            })
        }),
{
    let lines = text::lines(body);
    lemma_section_at(lines, None, 0, Seq::empty(), i, j);
    assert(Seq::empty() + before_headings(body) =~= before_headings(body));
}

/// There are as many sections with a heading as lines that are headings of level
/// one or two, and one more, in front and without a heading, where something
/// visible stands before the first of them.
pub proof fn there_is_a_section_for_each_heading(body: Seq<char>)
    ensures
        parser::sections_of(body).len() == openings(text::lines(body)) + if text::blank(
            before_headings(body),
        ) {
            0nat
        } else {
            1nat
        },
        !text::blank(before_headings(body)) ==> {
            let s = parser::sections_of(body)[0];
            &&& s.heading is None
            &&& s.level == 0
            &&& s.content == text::trim_end(before_headings(body))
            &&& s.tokens == parser::token_estimate(s.content)
        },
{
    let lines = text::lines(body);
    let m = first_opening(lines);
    lemma_section_count(lines, None, 0, Seq::empty());
    lemma_first_opening(lines);
    lemma_up_to_heading(lines, None, 0, Seq::empty(), m);
    assert(Seq::empty() + before_headings(body) =~= before_headings(body));
}

/// About four characters make a token: the estimate is their number over four,
/// rounded up.
pub proof fn four_characters_make_a_token(s: Seq<char>)
    ensures
        4 * parser::token_estimate(s) >= s.len(),
        s.len() > 0 ==> 4 * (parser::token_estimate(s) - 1) < s.len(),
        s.len() == 0 ==> parser::token_estimate(s) == 0,
{
}

// ---------------------------------------------------------------------------
// Frontmatter
// ---------------------------------------------------------------------------

/// A text without line ends keeps what it is.
proof fn lemma_without_line_end(s: Seq<char>)
    requires
        s.len() > 0 ==> s.last() != '\n' && s.last() != '\r',
    ensures
        parser::without_line_end(s) == s,
        parser::without_line_end(s.push('\n')) == s,
{
    assert(s.push('\n').drop_last() =~= s);
}

/// Before the first line of dashes, none of the lines is one.
proof fn lemma_closing_line(front: Seq<char>, rest: Seq<char>)
    requires
        front.len() == 0 || front.last() == '\n',
        !front.contains('\r'),
        !text::lines(front).contains("---"@),
        text::starts_with(rest, "---\n"@),
    ensures
        parser::closing_line(front + rest) == Some(front.len() as int),
    decreases front.len(),
{
    reveal_strlit("---");
    reveal_strlit("---\n");
    let s = front + rest;
    text::lemma_first_line_len(s);
    let n = text::first_line_len(s);
    if front.len() == 0 {
        assert(s =~= rest);
        let d = rest.subrange(0, 4);
        assert(d == "---\n"@);
        assert(rest[0] == d[0] && rest[1] == d[1] && rest[2] == d[2] && rest[3] == d[3]);
        text::lemma_first_index(s, '\n', 3);
        let dashes = s.take(3);
        assert(dashes =~= "---"@);
        lemma_without_line_end(dashes);
        assert(s.take(n) =~= dashes.push('\n'));
    } else {
        text::lemma_first_index_props(front, '\n');
        let k = text::first_index(front, '\n');
        assert(front[front.len() - 1] == '\n');
        assert(k < front.len());
        text::lemma_first_index(s, '\n', k);
        assert(n == k + 1);
        let line = front.take(k);
        let later = front.skip(k + 1);
        assert(front.take(k + 1) =~= line.push('\n'));
        assert(s.take(n) =~= line.push('\n'));
        if line.len() > 0 {
            assert(line.last() == front[k - 1]);
            assert(front[k - 1] != '\r');
        }
        lemma_without_line_end(line);
        let raw = front.take(text::first_line_len(front));
        assert(raw =~= line.push('\n'));
        assert(raw.drop_last() =~= line);
        assert(text::line_text(raw) == line);
        let all = text::lines(front);
        text::lemma_first_line_len(front);
        assert(all[0] == line);
        assert(all.drop_first() =~= text::lines(later));
        assert(line != "---"@) by {
            if line == "---"@ {
                assert(all.contains("---"@));
            }
        }
        assert(!text::lines(later).contains("---"@)) by {
            if text::lines(later).contains("---"@) {
                let x = choose|x: int|
                    0 <= x < text::lines(later).len() && text::lines(later)[x] == "---"@;
                assert(all[x + 1] == "---"@);
            }
        }
        assert(!later.contains('\r')) by {
            if later.contains('\r') {
                let x = choose|x: int| 0 <= x < later.len() && later[x] == '\r';
                assert(front[k + 1 + x] == '\r');
            }
        }
        if later.len() > 0 {
            assert(later.last() == front.last());
        }
        lemma_closing_line(later, rest);
        assert(s.skip(n) =~= later + rest);
    }
}

/// A file that is written as frontmatter between lines of dashes, and a body, is
/// read as that frontmatter and that body, where no line of the frontmatter is
/// made of three dashes.
pub proof fn frontmatter_and_body_are_read_as_written(front: Seq<char>, body: Seq<char>)
    requires
        front.len() == 0 || front.last() == '\n',
        !front.contains('\r'),
        !text::lines(front).contains("---"@),
    ensures
        parser::frontmatter_text("---\n"@ + front + "---\n"@ + body) == Some(front),
        parser::body_text("---\n"@ + front + "---\n"@ + body) == body,
{
    reveal_strlit("---");
    reveal_strlit("---\n");
    reveal_strlit("\n");
    let content = "---\n"@ + front + "---\n"@ + body;
    let rest = "---\n"@ + body;
    assert(content[0] == '-');
    assert(parser::without_bom(content) == content);
    assert(content.subrange(0, 3) =~= "---"@);
    let opened = content.skip(3);
    assert(opened.subrange(0, 1) =~= "\n"@);
    let inner = parser::after_opening(content);
    assert(inner =~= front + rest);
    assert(rest.subrange(0, 4) =~= "---\n"@);
    lemma_closing_line(front, rest);
    assert(inner.take(front.len() as int) =~= front);
    let tail = inner.skip(front.len() as int);
    assert(tail =~= rest);
    assert(tail[0] == '-' && tail[1] == '-' && tail[2] == '-' && tail[3] == '\n');
    text::lemma_first_index(tail, '\n', 3);
    assert(tail.skip(4) =~= body);
}

/// A file whose frontmatter is not closed is all body.
pub proof fn unclosed_frontmatter_is_body(content: Seq<char>)
    requires
        content.len() > 0 ==> content[0] != '\u{feff}',
        !text::lines(parser::after_opening(content)).contains("---"@),
        !content.contains('\r'),
    ensures
        parser::frontmatter_text(content) is None,
        parser::body_text(content) == content,
{
    assert(parser::without_bom(content) == content);
    let inner = parser::after_opening(content);
    reveal_strlit("---");
    reveal_strlit("\n");
    if text::starts_with(content, "---"@) {
        assert(!inner.contains('\r')) by {
            if inner.contains('\r') {
                let x = choose|x: int| 0 <= x < inner.len() && inner[x] == '\r';
                let cut = content.len() - inner.len();
                assert(content[cut + x] == '\r');
            }
        }
        lemma_no_closing_line(inner);
    }
}

proof fn lemma_no_closing_line(s: Seq<char>)
    requires
        !s.contains('\r'),
        !text::lines(s).contains("---"@),
    ensures
        parser::closing_line(s) is None,
    decreases s.len(),
{
    if s.len() > 0 {
        text::lemma_first_line_len(s);
        text::lemma_first_index_props(s, '\n');
        let k = text::first_index(s, '\n');
        let n = text::first_line_len(s);
        let line = s.take(k);
        let rest = s.skip(n);
        let all = text::lines(s);
        if line.len() > 0 {
            assert(line.last() == s[k - 1]);
            assert(s[k - 1] != '\r');
        }
        lemma_without_line_end(line);
        if k < s.len() {
            assert(s.take(n) =~= line.push('\n'));
            assert(line.push('\n').drop_last() =~= line);
        } else {
            assert(s.take(n) =~= line);
        }
        assert(all[0] == line);
        assert(all.drop_first() =~= text::lines(rest));
        assert(line != "---"@) by {
            if line == "---"@ {
                assert(all.contains("---"@));
            }
        }
        assert(!text::lines(rest).contains("---"@)) by {
            if text::lines(rest).contains("---"@) {
                let x = choose|x: int|
                    0 <= x < text::lines(rest).len() && text::lines(rest)[x] == "---"@;
                assert(all[x + 1] == "---"@);
            }
        }
        assert(!rest.contains('\r')) by {
            if rest.contains('\r') {
                let x = choose|x: int| 0 <= x < rest.len() && rest[x] == '\r';
                assert(s[n + x] == '\r');
            }
        }
        lemma_no_closing_line(rest);
    }
}

/// The tokens of a file are those of its sections, added up.
pub proof fn tokens_of_sections_add_up(
    sections: Seq<parser::SectionText>,
    next: parser::SectionText,
)
    ensures
        parser::tokens_of(Seq::empty()) == 0,
        parser::tokens_of(sections.push(next)) == parser::tokens_of(sections) + next.tokens,
{
    assert(sections.push(next).drop_last() =~= sections);
}

/// A file that was read has the sections of its body, the sum of their tokens, and
/// the hash of all that it holds.
pub proof fn a_file_is_read_whole(
    file: parser::ParsedFile,
    content: Seq<char>,
    frontmatter: Option<YamlValue>,
)
    requires
        parser::is_parsed(file, content, frontmatter),
    ensures
        file.frontmatter == frontmatter,
        parser::section_texts(file.sections@) == parser::sections_of(parser::body_text(content)),
        file.total_tokens == parser::tokens_of(parser::section_texts(file.sections@)),
        file.content_hash@ == hash::blake3_hex(content),
{
}

} // verus!
