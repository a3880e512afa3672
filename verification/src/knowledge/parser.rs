//! Markdown files as frontmatter and sections.
use vstd::prelude::*;

use crate::error::{joined, CoreError};
use crate::hash;
use crate::hash::content_hash;
use crate::knowledge::yaml;
use crate::knowledge::yaml::{read_yaml, YamlValue};
use crate::text;
use crate::text::{
    append_chars, chars_eq, find_char, first_line_length, from_chars, is_blank_chars,
    line_text_chars, starts_with_chars, strip_prefix_chars, to_chars, trim_chars, trim_end_chars,
    trim_start_chars,
};
use vstd::slice::slice_subrange;

verus! {

/// A section of a file's body.
#[derive(Debug)]
pub struct Section {
    /// The heading that opens the section; none for what stands before the
    /// first heading.
    pub heading: Option<String>,
    /// The text under the heading.
    pub content: String,
    /// The level of the heading, zero where there is none.
    pub level: u8,
    /// The approximate number of tokens of the content.
    pub tokens: usize,
}

/// A markdown file.
#[derive(Debug)]
pub struct ParsedFile {
    /// The frontmatter, where the file has one.
    pub frontmatter: Option<YamlValue>,
    /// The body, split at headings of level one and two.
    pub sections: Vec<Section>,
    /// The hash of the whole file.
    pub content_hash: String,
    /// The approximate number of tokens of all sections.
    pub total_tokens: usize,
}

/// A section as a mathematical value.
#[verifier::ext_equal]
pub struct SectionText {
    pub heading: Option<Seq<char>>,
    pub content: Seq<char>,
    pub level: nat,
    pub tokens: nat,
}

impl View for Section {
    type V = SectionText;

    open spec fn view(&self) -> SectionText {
        SectionText {
            heading: match self.heading {
                Some(h) => Some(h@),
                None => None,
            },
            content: self.content@,
            level: self.level as nat,
            tokens: self.tokens as nat,
        }
    }
}

/// The sections that a vector holds.
pub open spec fn section_texts(v: Seq<Section>) -> Seq<SectionText> {
    v.map_values(|s: Section| s@)
}

// ---------------------------------------------------------------------------
// Tokens
// ---------------------------------------------------------------------------

/// About four characters make a token.
pub open spec fn token_estimate(s: Seq<char>) -> nat {
    ((s.len() + 3) / 4) as nat
}

/// The approximate number of tokens of `s`.
pub fn approx_token_count(s: &str) -> (n: usize)
    ensures
        n == token_estimate(s@),
{
    let v = to_chars(s);
    let whole: usize = v.len() / 4;
    if v.len() % 4 > 0 {
        whole + 1
    } else {
        whole
    }
}

// ---------------------------------------------------------------------------
// Frontmatter
// ---------------------------------------------------------------------------

/// `s` without the byte-order marks at its start.
pub open spec fn without_bom(s: Seq<char>) -> Seq<char>
    decreases s.len(),
{
    if s.len() > 0 && s[0] == '\u{feff}' {
        without_bom(s.drop_first())
    } else {
        s
    }
}

/// `s` without the newlines and carriage returns at its end.
pub open spec fn without_line_end(s: Seq<char>) -> Seq<char>
    decreases s.len(),
{
    if s.len() > 0 && (s.last() == '\n' || s.last() == '\r') {
        without_line_end(s.drop_last())
    } else {
        s
    }
}

/// The index in `s` of the first line that is exactly `---`.
pub open spec fn closing_line(s: Seq<char>) -> Option<int>
    decreases s.len(),
{
    if s.len() == 0 {
        None
    } else {
        proof {
            text::lemma_first_line_len(s);
        }
        let n = text::first_line_len(s);
        if without_line_end(s.take(n)) == "---"@ {
            Some(0)
        } else {
            match closing_line(s.skip(n)) {
                Some(p) => Some(n + p),
                None => None,
            }
        }
    }
}

/// What follows the closing line that starts at index `p` of `s`: nothing where
/// that line is the last.
pub open spec fn after_closing(s: Seq<char>, p: int) -> Seq<char> {
    let rest = s.skip(p);
    let k = text::first_index(rest, '\n');
    if k < rest.len() {
        rest.skip(k + 1)
    } else {
        Seq::empty()
    }
}

/// What follows the opening line.
pub open spec fn after_opening(t: Seq<char>) -> Seq<char> {
    text::without_prefix(t.skip(3), "\n"@)
}

/// The text of the frontmatter of a file: what stands between an opening `---`
/// and the next line that is `---`.
pub open spec fn frontmatter_text(content: Seq<char>) -> Option<Seq<char>> {
    let t = without_bom(content);
    if text::starts_with(t, "---"@) {
        match closing_line(after_opening(t)) {
            Some(p) => Some(after_opening(t).take(p)),
            None => None,
        }
    } else {
        None
    }
}

/// The body of a file: all of it where it has no frontmatter.
pub open spec fn body_text(content: Seq<char>) -> Seq<char> {
    let t = without_bom(content);
    if text::starts_with(t, "---"@) {
        match closing_line(after_opening(t)) {
            Some(p) => after_closing(after_opening(t), p),
            None => t,
        }
    } else {
        t
    }
}

fn skip_bom(v: &[char]) -> (r: &[char])
    ensures
        r@ == without_bom(v@),
{
    let mut i: usize = 0;
    proof {
        assert(v@.skip(0) =~= v@);
    }
    while i < v.len() && v[i] == '\u{feff}'
        invariant
            i <= v@.len(),
            without_bom(v@.skip(i as int)) == without_bom(v@),
        decreases v@.len() - i,
    {
        proof {
            assert(v@.skip(i as int).drop_first() =~= v@.skip(i + 1));
        }
        i += 1;
    }
    let r = slice_subrange(v, i, v.len());
    proof {
        assert(r@ =~= v@.skip(i as int));
    }
    r
}

fn skip_line_end(v: &[char]) -> (r: &[char])
    ensures
        r@ == without_line_end(v@),
{
    let mut n: usize = v.len();
    proof {
        assert(v@.take(n as int) =~= v@);
    }
    while n > 0 && (v[n - 1] == '\n' || v[n - 1] == '\r')
        invariant
            n <= v@.len(),
            without_line_end(v@.take(n as int)) == without_line_end(v@),
        decreases n,
    {
        proof {
            assert(v@.take(n as int).drop_last() =~= v@.take(n - 1));
        }
        n -= 1;
    }
    slice_subrange(v, 0, n)
}

/// The index of the first line of `v` that is exactly `---`.
fn find_frontmatter_close(v: &[char]) -> (r: Option<usize>)
    ensures
        match r {
            Some(p) => closing_line(v@) == Some(p as int) && p <= v@.len(),
            None => closing_line(v@) is None,
        },
{
    let dashes = to_chars("---");
    let mut pos: usize = 0;
    proof {
        assert(v@.skip(0) =~= v@);
    }
    while pos < v.len()
        invariant
            pos <= v@.len(),
            dashes@ == "---"@,
            closing_line(v@) == match closing_line(v@.skip(pos as int)) {
                Some(p) => Some(pos + p),
                None => None,
            },
        decreases v@.len() - pos,
    {
        let rest = slice_subrange(v, pos, v.len());
        proof {
            assert(rest@ =~= v@.skip(pos as int));
            text::lemma_first_line_len(rest@);
        }
        let n: usize = first_line_length(rest);
        if chars_eq(skip_line_end(slice_subrange(rest, 0, n)), dashes.as_slice()) {
            return Some(pos);
        }
        proof {
            assert(rest@.skip(n as int) =~= v@.skip(pos + n));
        }
        pos += n;
    }
    proof {
        assert(v@.skip(pos as int).len() == 0);
    }
    None
}

/// Splits a file into the text of its frontmatter and its body.
fn split_frontmatter(content: &[char]) -> (r: (Option<String>, &[char]))
    ensures
        r.0 is Some <==> frontmatter_text(content@) is Some,
        r.0 is Some ==> r.0->0@ == frontmatter_text(content@)->0,
        r.1@ == body_text(content@),
{
    let t = skip_bom(content);
    if !starts_with_chars(t, "---") {
        return (None, t);
    }
    proof {
        reveal_strlit("---");
    }
    let opened = slice_subrange(t, 3, t.len());
    proof {
        assert(opened@ =~= t@.skip(3));
    }
    let inner = strip_prefix_chars(opened, "\n");
    match find_frontmatter_close(inner) {
        None => (None, t),
        Some(p) => {
            let front = slice_subrange(inner, 0, p);
            let rest = slice_subrange(inner, p, inner.len());
            proof {
                assert(rest@ =~= inner@.skip(p as int));
            }
            let k: usize = find_char(rest, '\n');
            let cut: usize = if k < rest.len() {
                k + 1
            } else {
                rest.len()
            };
            let body = slice_subrange(rest, cut, rest.len());
            proof {
                assert(body@ =~= after_closing(inner@, p as int));
            }
            (Some(from_chars(front)), body)
        },
    }
}

// ---------------------------------------------------------------------------
// Headings
// ---------------------------------------------------------------------------

/// The number of `#` at the start of `s`.
pub open spec fn hashes(s: Seq<char>) -> nat
    decreases s.len(),
{
    if s.len() > 0 && s[0] == '#' {
        1 + hashes(s.drop_first())
    } else {
        0
    }
}

/// The level and text of a heading: one to six `#`, a space, and a text that is
/// not blank.
pub open spec fn heading_of(line: Seq<char>) -> Option<(nat, Seq<char>)> {
    let t = text::trim_start(line);
    let n = hashes(t);
    if 1 <= n <= 6 && n < t.len() && t[n as int] == ' ' && !text::blank(t.skip(n as int)) {
        Some((n, text::trim(t.skip(n as int))))
    } else {
        None
    }
}

fn count_hashes(v: &[char]) -> (n: usize)
    ensures
        n == hashes(v@),
        n <= v@.len(),
{
    let mut n: usize = 0;
    proof {
        assert(v@.skip(0) =~= v@);
    }
    while n < v.len() && v[n] == '#'
        invariant
            n <= v@.len(),
            hashes(v@) == n + hashes(v@.skip(n as int)),
        decreases v@.len() - n,
    {
        proof {
            assert(v@.skip(n as int).drop_first() =~= v@.skip(n + 1));
        }
        n += 1;
    }
    n
}

/// The level and text of a line that is a heading.
fn parse_heading(line: &[char]) -> (r: Option<(u8, String)>)
    ensures
        match r {
            Some((level, title)) => heading_of(line@) == Some((level as nat, title@)),
            None => heading_of(line@) is None,
        },
{
    let t = trim_start_chars(line);
    let n: usize = count_hashes(t);
    if n == 0 || n > 6 || n >= t.len() || t[n] != ' ' {
        return None;
    }
    let rest = slice_subrange(t, n, t.len());
    proof {
        assert(rest@ =~= t@.skip(n as int));
    }
    if is_blank_chars(rest) {
        None
    } else {
        Some((n as u8, from_chars(trim_chars(rest))))
    }
}

// ---------------------------------------------------------------------------
// Sections
// ---------------------------------------------------------------------------

/// The section with this heading and content, the white space at the end of
/// the content dropped.
pub open spec fn section_of(
    heading: Option<Seq<char>>,
    level: nat,
    content: Seq<char>,
) -> SectionText {
    SectionText {
        heading,
        content: text::trim_end(content),
        level,
        tokens: token_estimate(text::trim_end(content)),
    }
}

/// What is kept of a section that ends: nothing where it has neither a heading
/// nor anything visible in it.
pub open spec fn closed_section(
    heading: Option<Seq<char>>,
    level: nat,
    content: Seq<char>,
) -> Seq<SectionText> {
    if !text::blank(content) || heading is Some {
        seq![section_of(heading, level, content)]
    } else {
        Seq::empty()
    }
}

/// The sections of the given lines, the first of which goes on with an open
/// section. A heading of level one or two opens a section; other lines belong
/// to the section that is open.
pub open spec fn sections_from(
    lines: Seq<Seq<char>>,
    heading: Option<Seq<char>>,
    level: nat,
    content: Seq<char>,
) -> Seq<SectionText>
    decreases lines.len(),
{
    if lines.len() == 0 {
        closed_section(heading, level, content)
    } else {
        match heading_of(lines[0]) {
            Some((n, title)) => if n <= 2 {
                closed_section(heading, level, content) + sections_from(
                    lines.drop_first(),
                    Some(title),
                    n,
                    Seq::empty(),
                )
            } else {
                sections_from(lines.drop_first(), heading, level, content + lines[0] + "\n"@)
            },
            None => sections_from(
                lines.drop_first(),
                heading,
                level,
                content + lines[0] + "\n"@,
            ),
        }
    }
}

/// The sections of a body.
pub open spec fn sections_of(body: Seq<char>) -> Seq<SectionText> {
    sections_from(text::lines(body), None, 0, Seq::empty())
}

/// The text of an optional string.
pub open spec fn optional_text(o: Option<String>) -> Option<Seq<char>> {
    match o {
        Some(s) => Some(s@),
        None => None,
    }
}

fn make_section(heading: Option<String>, level: u8, content: &[char]) -> (r: Section)
    ensures
        r@ == section_of(optional_text(heading), level as nat, content@),
{
    let kept = from_chars(trim_end_chars(content));
    let tokens: usize = approx_token_count(kept.as_str());
    Section { heading, content: kept, level, tokens }
}

/// Splits a body into sections.
fn split_sections(body: &[char]) -> (r: Vec<Section>)
    ensures
        section_texts(r@) == sections_of(body@),
{
    let mut sections: Vec<Section> = Vec::new();
    let mut heading: Option<String> = None;
    let mut level: u8 = 0;
    let mut content: Vec<char> = Vec::new();
    let mut pos: usize = 0;
    proof {
        assert(body@.skip(0) =~= body@);
        assert(content@ =~= Seq::empty());
        assert(section_texts(sections@) + sections_of(body@) =~= sections_of(body@));
    }
    while pos < body.len()
        invariant
            pos <= body@.len(),
            section_texts(sections@) + sections_from(
                text::lines(body@.skip(pos as int)),
                optional_text(heading),
                level as nat,
                content@,
            ) == sections_of(body@),
        decreases body@.len() - pos,
    {
        let rest = slice_subrange(body, pos, body.len());
        let n: usize = first_line_length(rest);
        let line = line_text_chars(slice_subrange(rest, 0, n));
        let ghost all = text::lines(rest@);
        let ghost before = section_texts(sections@);
        let ghost old_heading = optional_text(heading);
        let ghost old_level = level as nat;
        let ghost old_content = content@;
        proof {
            assert(rest@ =~= body@.skip(pos as int));
            text::lemma_first_line_len(rest@);
            assert(rest@.skip(n as int) =~= body@.skip(pos + n));
            assert(all[0] == line@);
            assert(all.drop_first() =~= text::lines(body@.skip(pos + n)));
        }
        let mut opens: Option<(u8, String)> = None;
        if let Some((l, title)) = parse_heading(line) {
            if l <= 2 {
                opens = Some((l, title));
            }
        }
        match opens {
            Some((l, title)) => {
                let ghost rest_sections = sections_from(
                    all.drop_first(),
                    Some(title@),
                    l as nat,
                    Seq::empty(),
                );
                let ghost closed = closed_section(old_heading, old_level, old_content);
                if !is_blank_chars(content.as_slice()) || heading.is_some() {
                    let done = make_section(heading, level, content.as_slice());
                    sections.push(done);
                    proof {
                        assert(section_texts(sections@) =~= before + closed);
                    }
                }
                proof {
                    assert(section_texts(sections@) =~= before + closed);
                    assert(before + (closed + rest_sections) =~= before + closed
                        + rest_sections);
                }
                heading = Some(title);
                level = l;
                content = Vec::new();
                proof {
                    assert(content@ =~= Seq::empty());
                }
            },
            None => {
                append_chars(&mut content, line);
                content.push('\n');
                proof {
                    reveal_strlit("\n");
                    assert(content@ =~= old_content + line@ + "\n"@);
                }
            },
        }
        pos += n;
    }
    let ghost before = section_texts(sections@);
    let ghost closed = closed_section(optional_text(heading), level as nat, content@);
    proof {
        assert(body@.skip(pos as int).len() == 0);
        assert(text::lines(body@.skip(pos as int)).len() == 0);
    }
    if !is_blank_chars(content.as_slice()) || heading.is_some() {
        let done = make_section(heading, level, content.as_slice());
        sections.push(done);
        proof {
            assert(section_texts(sections@) =~= before + closed);
        }
    }
    proof {
        assert(section_texts(sections@) =~= before + closed);
    }
    sections
}

// ---------------------------------------------------------------------------
// The whole file
// ---------------------------------------------------------------------------

/// The tokens of all sections.
pub open spec fn tokens_of(sections: Seq<SectionText>) -> nat
    decreases sections.len(),
{
    if sections.len() == 0 {
        0
    } else {
        tokens_of(sections.drop_last()) + sections.last().tokens
    }
}

/// The characters of the lines and of a newline for each.
spec fn lines_len(lines: Seq<Seq<char>>) -> nat
    decreases lines.len(),
{
    if lines.len() == 0 {
        0
    } else {
        lines[0].len() + 1 + lines_len(lines.drop_first())
    }
}

proof fn lemma_tokens_join(a: Seq<SectionText>, b: Seq<SectionText>)
    ensures
        tokens_of(a + b) == tokens_of(a) + tokens_of(b),
    decreases b.len(),
{
    if b.len() == 0 {
        assert(a + b =~= a);
    } else {
        lemma_tokens_join(a, b.drop_last());
        assert((a + b).drop_last() =~= a + b.drop_last());
    }
}

proof fn lemma_tokens_prefix(a: Seq<SectionText>, n: int)
    requires
        0 <= n <= a.len(),
    ensures
        tokens_of(a.take(n)) <= tokens_of(a),
{
    lemma_tokens_join(a.take(n), a.skip(n));
    assert(a.take(n) + a.skip(n) =~= a);
}

proof fn lemma_closed_tokens(heading: Option<Seq<char>>, level: nat, content: Seq<char>)
    requires
        content.len() > 0 ==> content.last() == '\n',
    ensures
        tokens_of(closed_section(heading, level, content)) == 0 || tokens_of(
            closed_section(heading, level, content),
        ) + 1 <= content.len(),
{
    let s = closed_section(heading, level, content);
    text::lemma_visible_end_props(content);
    text::lemma_trim_empty_iff_blank(content);
    if s.len() > 0 {
        assert(s.drop_last() =~= Seq::empty());
        assert(tokens_of(s) == tokens_of(s.drop_last()) + s.last().tokens);
        assert(tokens_of(s.drop_last()) == 0);
    }
}

proof fn lemma_sections_tokens(
    lines: Seq<Seq<char>>,
    heading: Option<Seq<char>>,
    level: nat,
    content: Seq<char>,
)
    requires
        content.len() > 0 ==> content.last() == '\n',
    ensures
        ({
            let t = tokens_of(sections_from(lines, heading, level, content));
            t == 0 || t + 1 <= content.len() + lines_len(lines)
        }),
    decreases lines.len(),
{
    lemma_closed_tokens(heading, level, content);
    reveal_strlit("\n");
    if lines.len() > 0 {
        let rest = lines.drop_first();
        let more = content + lines[0] + "\n"@;
        assert(more.last() == '\n');
        lemma_sections_tokens(rest, heading, level, more);
        if let Some((n, title)) = heading_of(lines[0]) {
            lemma_sections_tokens(rest, Some(title), n, Seq::empty());
            lemma_tokens_join(
                closed_section(heading, level, content),
                sections_from(rest, Some(title), n, Seq::empty()),
            );
        }
    }
}

proof fn lemma_lines_len(s: Seq<char>)
    ensures
        lines_len(text::lines(s)) <= s.len() + 1,
    decreases s.len(),
{
    if s.len() > 0 {
        text::lemma_first_line_len(s);
        text::lemma_first_index_props(s, '\n');
        let n = text::first_line_len(s);
        let all = text::lines(s);
        let rest = s.skip(n);
        lemma_lines_len(rest);
        assert(all[0] == text::line_text(s.take(n)));
        assert(all.drop_first() =~= text::lines(rest));
        if text::first_index(s, '\n') < s.len() {
            assert(s.take(n).last() == '\n');
            assert(all[0].len() + 1 <= n);
        } else {
            assert(rest.len() == 0);
            assert(text::lines(rest).len() == 0);
            assert(all[0].len() <= n);
        }
    }
}

/// The tokens of the sections of a body are no more than its characters.
pub proof fn tokens_fit_in_body(body: Seq<char>)
    ensures
        tokens_of(sections_of(body)) <= body.len(),
{
    lemma_sections_tokens(text::lines(body), None, 0, Seq::empty());
    lemma_lines_len(body);
}

/// The message for a frontmatter that is not YAML.
pub open spec fn frontmatter_error(detail: Seq<char>) -> Seq<char> {
    "invalid YAML frontmatter: "@ + detail
}

/// What a file holds once its frontmatter was read.
pub open spec fn is_parsed(
    file: ParsedFile,
    content: Seq<char>,
    frontmatter: Option<YamlValue>,
) -> bool {
    &&& file.frontmatter == frontmatter
    &&& section_texts(file.sections@) == sections_of(body_text(content))
    &&& file.content_hash@ == hash::blake3_hex(content)
    &&& file.total_tokens == tokens_of(sections_of(body_text(content)))
}

/// The file with this content and this reading of its frontmatter.
pub fn assemble_file(content: &str, frontmatter: Option<YamlValue>) -> (r: ParsedFile)
    ensures
        is_parsed(r, content@, frontmatter),
{
    let chars = to_chars(content);
    let (_front, body) = split_frontmatter(chars.as_slice());
    let sections = split_sections(body);
    let ghost all = section_texts(sections@);
    proof {
        tokens_fit_in_body(body@);
    }
    let most: usize = body.len();
    let mut total: usize = 0;
    for i in 0..sections.len()
        invariant
            all == section_texts(sections@),
            tokens_of(all) <= most,
            total == tokens_of(all.take(i as int)),
    {
        proof {
            assert(all.take(i + 1).drop_last() =~= all.take(i as int));
            assert(all.take(i + 1).last() == sections@[i as int]@);
            lemma_tokens_prefix(all, i + 1);
        }
        total += sections[i].tokens;
    }
    proof {
        assert(all.take(all.len() as int) =~= all);
    }
    ParsedFile {
        frontmatter,
        sections,
        content_hash: content_hash(content),
        total_tokens: total,
    }
}

/// Parses a markdown file.
///
/// Frontmatter is YAML between lines of `---` at the top. The body is split at
/// headings of level one and two; what stands before the first of them is a
/// section without a heading.
pub fn parse_markdown_file(content: &str) -> (r: Result<ParsedFile, CoreError>)
    ensures
        match frontmatter_text(content@) {
            None => r is Ok && is_parsed(r->Ok_0, content@, None),
            Some(front) => match yaml::yaml_document(front) {
                Ok(tree) => r is Ok && is_parsed(r->Ok_0, content@, Some(tree)),
                Err(detail) => r is Err && (r->Err_0 matches CoreError::VaultParse(m) && m@
                    == frontmatter_error(detail)),
            },
        },
{
    let chars = to_chars(content);
    let (front, _body) = split_frontmatter(chars.as_slice());
    match front {
        None => Ok(assemble_file(content, None)),
        Some(front) => match read_yaml(front.as_str()) {
            Ok(tree) => Ok(assemble_file(content, Some(tree))),
            Err(e) => Err(
                CoreError::VaultParse(joined("invalid YAML frontmatter: ", e.as_str())),
            ),
        },
    }
}

// ---------------------------------------------------------------------------
// Laws
// ---------------------------------------------------------------------------

/// A section without a heading has level zero, and only the first section can
/// be one; every other has level one or two and a heading that is not empty.
pub open spec fn section_shape(s: SectionText) -> bool {
    match s.heading {
        None => s.level == 0,
        Some(h) => 1 <= s.level <= 2 && h.len() > 0,
    }
}

proof fn lemma_sections_shape(
    lines: Seq<Seq<char>>,
    heading: Option<Seq<char>>,
    level: nat,
    content: Seq<char>,
)
    requires
        section_shape(section_of(heading, level, content)),
    ensures
        ({
            let all = sections_from(lines, heading, level, content);
            &&& forall|i: int| 0 <= i < all.len() ==> section_shape(#[trigger] all[i])
            &&& forall|i: int| 0 < i < all.len() ==> (#[trigger] all[i]).heading is Some
            &&& heading is Some ==> forall|i: int|
                0 <= i < all.len() ==> (#[trigger] all[i]).heading is Some
        }),
    decreases lines.len(),
{
    if lines.len() > 0 {
        let rest = lines.drop_first();
        let all = sections_from(lines, heading, level, content);
        match heading_of(lines[0]) {
            Some((n, title)) => {
                if n <= 2 {
                    let t = text::trim_start(lines[0]);
                    text::lemma_trim_empty_iff_blank(t.skip(n as int));
                    lemma_sections_shape(rest, Some(title), n, Seq::empty());
                    let first = closed_section(heading, level, content);
                    let tail = sections_from(rest, Some(title), n, Seq::empty());
                    assert forall|i: int| 0 <= i < all.len() implies section_shape(
                        #[trigger] all[i],
                    ) && (i > 0 || heading is Some ==> all[i].heading is Some) by {
                        if i >= first.len() {
                            assert(all[i] == tail[i - first.len()]);
                        } else {
                            assert(all[i] == first[i]);
                        }
                    }
                } else {
                    lemma_sections_shape(rest, heading, level, content + lines[0] + "\n"@);
                }
            },
            None => {
                lemma_sections_shape(rest, heading, level, content + lines[0] + "\n"@);
            },
        }
    }
}

/// Sections start at headings of level one and two: each has such a heading,
/// but for a first one that holds what stands before them.
pub proof fn sections_start_at_headings(body: Seq<char>)
    ensures
        forall|i: int|
            0 <= i < sections_of(body).len() ==> section_shape(
                #[trigger] sections_of(body)[i],
            ),
        forall|i: int|
            0 < i < sections_of(body).len() ==> (#[trigger] sections_of(
                body,
            )[i]).heading is Some,
{
    lemma_sections_shape(text::lines(body), None, 0, Seq::empty());
}

/// A file that does not start with `---` is all body.
pub proof fn file_without_frontmatter_is_body(content: Seq<char>)
    requires
        !text::starts_with(without_bom(content), "---"@),
    ensures
        frontmatter_text(content) is None,
        body_text(content) == without_bom(content),
{
}

} // verus!
