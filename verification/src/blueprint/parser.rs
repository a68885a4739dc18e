//! Blueprint markdown parser.
//!
//! Parses a blueprint `.md` file into structured data:
//! - HTML comment metadata block → tags, category, difficulty, time, stack
//! - H1 → name
//! - First blockquote → one-line description (tier 1)
//! - TL;DR, Gotchas and Checklist sections → tier 2
//! - Full content → tier 3
//!
//! Expected markdown structure:
//!
//! ```text
//! # Blueprint: <Name>
//!
//! <!-- METADATA
//! tags:        [tag1, tag2]
//! category:    patterns
//! difficulty:  intermediate
//! time:        30 min
//! stack:       [flutter, dart]
//! -->
//!
//! > One-line description (used as tier1)
//!
//! ## TL;DR
//! Summary paragraph(s)
//!
//! ## Gotchas
//! > **Title**: description
//!
//! ## Checklist
//! - [ ] item1
//! ```

use vstd::prelude::*;
use crate::blueprint::models::{
    category_from_name, category_key, difficulty_from_name, BlueprintCategory,
    BlueprintDifficulty, BlueprintScope,
};
use crate::digest::{compute_sha256, hex_lower, is_lower_hex, sha256};
use crate::text::{
    chars_of, ends_with, eq_chars, extend_chars, extend_str, find, find_chars, find_from,
    has_prefix, has_suffix, join, join_chars, lines, lines_of, opt_chars, replace_char, replaced, run_len,
    run_length, slice_range, split, split_chars, starts_with, string_of, string_views, trim,
    trimmed, views,
};
use crate::unicode::{lowercase, lowercase_chars};

verus! {

// ============================================================================
// Result type
// ============================================================================

/// Result of parsing a blueprint markdown file.
#[derive(Debug, Clone)]
pub struct ParsedBlueprint {
    /// Blueprint name (from H1, stripped of "Blueprint: " prefix)
    pub name: String,
    /// URL-friendly slug (derived from the file name)
    pub slug: String,
    /// One-line description (from the first blockquote after the metadata)
    pub description: String,
    /// Taxonomy scope (inferred from category + tags)
    pub scope: BlueprintScope,
    /// Domain category (from metadata, else from the path)
    pub category: BlueprintCategory,
    /// Difficulty level (from metadata)
    pub difficulty: BlueprintDifficulty,
    /// Estimated time (from metadata, e.g. "30 min")
    pub estimated_time: String,
    /// Technology stack (from metadata)
    pub stack: Vec<String>,
    /// Freeform tags (from metadata)
    pub tags: Vec<String>,
    /// Tier 1 content: name + one-line description
    pub tier1: String,
    /// Tier 2 content: TL;DR + gotchas + checklist
    pub tier2: String,
    /// Tier 3 content: the full markdown
    pub tier3_content: String,
    /// Source file path (relative to the blueprint repo root)
    pub source_file: String,
    /// SHA-256 of the raw file content, in lowercase hexadecimal
    pub content_hash: String,
}

/// What a parsed blueprint holds, as character sequences.
pub struct BlueprintModel {
    pub name: Seq<char>,
    pub slug: Seq<char>,
    pub description: Seq<char>,
    pub scope: BlueprintScope,
    pub category: BlueprintCategory,
    pub difficulty: BlueprintDifficulty,
    pub estimated_time: Seq<char>,
    pub stack: Seq<Seq<char>>,
    pub tags: Seq<Seq<char>>,
    pub tier1: Seq<char>,
    pub tier2: Seq<char>,
    pub tier3_content: Seq<char>,
    pub source_file: Seq<char>,
    pub content_hash: Seq<char>,
}

impl ParsedBlueprint {
    /// The parsed blueprint as character sequences.
    pub open spec fn model(&self) -> BlueprintModel {
        BlueprintModel {
            name: self.name@,
            slug: self.slug@,
            description: self.description@,
            scope: self.scope,
            category: self.category,
            difficulty: self.difficulty,
            estimated_time: self.estimated_time@,
            stack: string_views(self.stack@),
            tags: string_views(self.tags@),
            tier1: self.tier1@,
            tier2: self.tier2@,
            tier3_content: self.tier3_content@,
            source_file: self.source_file@,
            content_hash: self.content_hash@,
        }
    }
}

// ============================================================================
// Metadata block
// ============================================================================

/// The fields of the metadata comment.
pub struct MetadataModel {
    pub tags: Seq<Seq<char>>,
    pub category: Option<Seq<char>>,
    pub difficulty: Option<Seq<char>>,
    pub time: Option<Seq<char>>,
    pub stack: Seq<Seq<char>>,
}

/// No metadata.
pub open spec fn empty_metadata() -> MetadataModel {
    MetadataModel {
        tags: seq![],
        category: None,
        difficulty: None,
        time: None,
        stack: seq![],
    }
}

/// The inside of a bracketed list: `[a, b]` → `a, b`; anything else as is.
pub open spec fn list_inner(t: Seq<char>) -> Seq<char> {
    if t.len() >= 2 && t[0] == '[' && t.last() == ']' {
        t.subrange(1, t.len() - 1)
    } else {
        t
    }
}

/// The trimmed pieces that are not empty, in order.
pub open spec fn nonempty_trimmed(ps: Seq<Seq<char>>) -> Seq<Seq<char>>
    decreases ps.len(),
{
    if ps.len() == 0 {
        seq![]
    } else {
        let rest = nonempty_trimmed(ps.drop_last());
        let t = trim(ps.last());
        if t.len() > 0 {
            rest.push(t)
        } else {
            rest
        }
    }
}

/// A YAML-like list `[a, b, c]`: the items between the commas, trimmed, the
/// empty ones left out.
pub open spec fn yaml_list(v: Seq<char>) -> Seq<Seq<char>> {
    nonempty_trimmed(split(list_inner(trim(v)), ','))
}

/// The metadata after one more line of the block: a line (once trimmed) that
/// starts with `tags:`, `category:`, `difficulty:`, `time:` or `stack:` sets
/// that field from the rest of the line; later lines win.
pub open spec fn apply_metadata_line(m: MetadataModel, line: Seq<char>) -> MetadataModel {
    let t = trim(line);
    if has_prefix(t, "tags:"@) {
        MetadataModel {
            tags: yaml_list(t.skip("tags:"@.len() as int)),
            category: m.category,
            difficulty: m.difficulty,
            time: m.time,
            stack: m.stack,
        }
    } else if has_prefix(t, "category:"@) {
        MetadataModel {
            tags: m.tags,
            category: Some(trim(t.skip("category:"@.len() as int))),
            difficulty: m.difficulty,
            time: m.time,
            stack: m.stack,
        }
    } else if has_prefix(t, "difficulty:"@) {
        MetadataModel {
            tags: m.tags,
            category: m.category,
            difficulty: Some(trim(t.skip("difficulty:"@.len() as int))),
            time: m.time,
            stack: m.stack,
        }
    } else if has_prefix(t, "time:"@) {
        MetadataModel {
            tags: m.tags,
            category: m.category,
            difficulty: m.difficulty,
            time: Some(trim(t.skip("time:"@.len() as int))),
            stack: m.stack,
        }
    } else if has_prefix(t, "stack:"@) {
        MetadataModel {
            tags: m.tags,
            category: m.category,
            difficulty: m.difficulty,
            time: m.time,
            stack: yaml_list(t.skip("stack:"@.len() as int)),
        }
    } else {
        m
    }
}

/// The metadata that a sequence of block lines sets, first to last.
pub open spec fn metadata_of_lines(ls: Seq<Seq<char>>) -> MetadataModel
    decreases ls.len(),
{
    if ls.len() == 0 {
        empty_metadata()
    } else {
        apply_metadata_line(metadata_of_lines(ls.drop_last()), ls.last())
    }
}

/// A line of the metadata block that, trimmed, starts with `difficulty:`,
/// `category:` or `time:` sets that field to the trimmed rest of the line,
/// whatever came before; one with `tags:` or `stack:` sets that list.
pub proof fn lemma_metadata_line_sets(ls: Seq<Seq<char>>, l: Seq<char>)
    ensures
        has_prefix(trim(l), "difficulty:"@) ==> metadata_of_lines(ls.push(l)).difficulty == Some(
            trim(trim(l).skip(11)),
        ),
        has_prefix(trim(l), "category:"@) ==> metadata_of_lines(ls.push(l)).category == Some(
            trim(trim(l).skip(9)),
        ),
        has_prefix(trim(l), "time:"@) ==> metadata_of_lines(ls.push(l)).time == Some(
            trim(trim(l).skip(5)),
        ),
        has_prefix(trim(l), "tags:"@) ==> metadata_of_lines(ls.push(l)).tags == yaml_list(
            trim(l).skip(5),
        ),
        has_prefix(trim(l), "stack:"@) ==> metadata_of_lines(ls.push(l)).stack == yaml_list(
            trim(l).skip(6),
        ),
{
    assert(ls.push(l).drop_last() =~= ls);
    let t = trim(l);
    reveal_strlit("tags:");
    reveal_strlit("category:");
    reveal_strlit("difficulty:");
    reveal_strlit("time:");
    reveal_strlit("stack:");
    if has_prefix(t, "difficulty:"@) {
        assert(t[0] == "difficulty:"@[0]);
    }
    if has_prefix(t, "category:"@) {
        assert(t[0] == "category:"@[0]);
    }
    if has_prefix(t, "time:"@) {
        assert(t[0] == "time:"@[0]);
        assert(t[1] == "time:"@[1]);
    }
    if has_prefix(t, "stack:"@) {
        assert(t[0] == "stack:"@[0]);
    }
    if has_prefix(t, "tags:"@) {
        assert(t[0] == "tags:"@[0]);
        assert(t[1] == "tags:"@[1]);
    }
}

/// Where the metadata comment starts: the first `<!-- METADATA`, else the
/// first `<!--`.
pub open spec fn metadata_start(content: Seq<char>) -> Option<int> {
    match find(content, "<!-- METADATA"@) {
        Some(i) => Some(i),
        None => find(content, "<!--"@),
    }
}

/// The metadata comment: from its start up to (not including) the first
/// `-->` at or after its start.
pub open spec fn metadata_block(content: Seq<char>) -> Option<Seq<char>> {
    match metadata_start(content) {
        None => None,
        Some(i) => match find_from(content, "-->"@, i) {
            None => None,
            Some(j) => Some(content.subrange(i, j)),
        },
    }
}

/// The metadata of a blueprint.
pub open spec fn metadata(content: Seq<char>) -> MetadataModel {
    match metadata_block(content) {
        None => empty_metadata(),
        Some(b) => metadata_of_lines(lines(b)),
    }
}

// ============================================================================
// Title, description and sections
// ============================================================================

/// A title without a leading `Blueprint: ` or `Blueprint — `.
pub open spec fn clean_title(title: Seq<char>) -> Seq<char> {
    if has_prefix(title, "Blueprint: "@) {
        title.skip("Blueprint: "@.len() as int)
    } else if has_prefix(title, "Blueprint — "@) {
        title.skip("Blueprint — "@.len() as int)
    } else {
        title
    }
}

/// The title given by the first line that, trimmed, starts with `# `.
pub open spec fn title_of_lines(ls: Seq<Seq<char>>) -> Option<Seq<char>>
    decreases ls.len(),
{
    if ls.len() == 0 {
        None
    } else {
        let t = trim(ls[0]);
        if has_prefix(t, "# "@) {
            Some(trim(clean_title(trim(t.skip(2)))))
        } else {
            title_of_lines(ls.drop_first())
        }
    }
}

/// The H1 title of a blueprint.
pub open spec fn title(content: Seq<char>) -> Option<Seq<char>> {
    title_of_lines(lines(content))
}

/// The first line that, trimmed, starts with `> ` and has more than blanks
/// after it: that text, trimmed.
pub open spec fn quote_of_lines(ls: Seq<Seq<char>>) -> Option<Seq<char>>
    decreases ls.len(),
{
    if ls.len() == 0 {
        None
    } else {
        let t = trim(ls[0]);
        if has_prefix(t, "> "@) && trim(t.skip(2)).len() > 0 {
            Some(trim(t.skip(2)))
        } else {
            quote_of_lines(ls.drop_first())
        }
    }
}

/// Where the description search starts: just after the first `-->`, or at
/// the start.
pub open spec fn after_comment(content: Seq<char>) -> int {
    match find(content, "-->"@) {
        Some(i) => i + 3,
        None => 0,
    }
}

/// The one-line description: the first blockquote after the metadata.
pub open spec fn first_blockquote(content: Seq<char>) -> Option<Seq<char>> {
    quote_of_lines(lines(content.skip(after_comment(content))))
}

/// The first index at or after `i` of a line that, trimmed, is `heading`.
pub open spec fn heading_index(ls: Seq<Seq<char>>, heading: Seq<char>, i: int) -> Option<int>
    decreases ls.len() - i,
{
    if i < 0 || i >= ls.len() {
        None
    } else if trim(ls[i]) == heading {
        Some(i)
    } else {
        heading_index(ls, heading, i + 1)
    }
}

/// A line that, trimmed, opens a level-2 section.
pub open spec fn is_level2_heading(line: Seq<char>) -> bool {
    has_prefix(trim(line), "## "@) && !has_prefix(trim(line), "### "@)
}

/// The first index at or after `i` of a level-2 heading line, or the number
/// of lines.
pub open spec fn next_level2(ls: Seq<Seq<char>>, i: int) -> int
    decreases ls.len() - i,
{
    if i < 0 || i >= ls.len() {
        ls.len() as int
    } else if is_level2_heading(ls[i]) {
        i
    } else {
        next_level2(ls, i + 1)
    }
}

/// The body of the section headed `## name`: the lines after the first such
/// heading up to the next level-2 heading, joined with newlines and trimmed;
/// `None` if there is no such heading or the body is empty.
pub open spec fn section(content: Seq<char>, name: Seq<char>) -> Option<Seq<char>> {
    let ls = lines(content);
    match heading_index(ls, "## "@ + name, 0) {
        None => None,
        Some(start) => {
            let end = next_level2(ls, start + 1);
            let body = trim(join(ls.subrange(start + 1, end), "\n"@));
            if body.len() == 0 {
                None
            } else {
                Some(body)
            }
        },
    }
}

/// A section body, or nothing.
pub open spec fn section_or_empty(content: Seq<char>, name: Seq<char>) -> Seq<char> {
    match section(content, name) {
        Some(s) => s,
        None => seq![],
    }
}

// ============================================================================
// Tier 2
// ============================================================================

/// The bold title of a gotcha line: a line that, trimmed, starts with `> `,
/// and whose text after that holds `**`, then more text, then `**` again;
/// the title is what stands between the two.
pub open spec fn gotcha_title(line: Seq<char>) -> Option<Seq<char>> {
    let t = trim(line);
    if has_prefix(t, "> "@) {
        let quote = t.skip(2);
        match find(quote, "**"@) {
            None => None,
            Some(s) => match find_from(quote, "**"@, s + 2) {
                None => None,
                Some(e) => Some(quote.subrange(s + 2, e)),
            },
        }
    } else {
        None
    }
}

/// The gotcha titles of a sequence of lines, in order.
pub open spec fn gotcha_titles(ls: Seq<Seq<char>>) -> Seq<Seq<char>>
    decreases ls.len(),
{
    if ls.len() == 0 {
        seq![]
    } else {
        let rest = gotcha_titles(ls.drop_last());
        match gotcha_title(ls.last()) {
            Some(t) => rest.push(t),
            None => rest,
        }
    }
}

/// The gotcha summary: the titles joined with `, `.
pub open spec fn gotcha_summary(gotchas: Seq<char>) -> Seq<char> {
    join(gotcha_titles(lines(gotchas)), ", "@)
}

/// The parts of tier 2: the TL;DR, the gotcha summary and the checklist,
/// each only where it is not empty.
pub open spec fn tier2_parts(tldr: Seq<char>, gotchas: Seq<char>, checklist: Seq<char>) -> Seq<
    Seq<char>,
> {
    let p1: Seq<Seq<char>> = if tldr.len() > 0 {
        seq![tldr]
    } else {
        seq![]
    };
    let p2: Seq<Seq<char>> = if gotchas.len() > 0 && gotcha_summary(gotchas).len() > 0 {
        p1.push("**Gotchas**: "@ + gotcha_summary(gotchas))
    } else {
        p1
    };
    if checklist.len() > 0 {
        p2.push("**Checklist**:\n"@ + checklist)
    } else {
        p2
    }
}

/// Tier 2: its parts separated by a blank line.
pub open spec fn tier2(tldr: Seq<char>, gotchas: Seq<char>, checklist: Seq<char>) -> Seq<char> {
    join(tier2_parts(tldr, gotchas, checklist), "\n\n"@)
}

// ============================================================================
// Scope and category inference
// ============================================================================

/// The category a path's folder gives, once the path is lowercased.
pub open spec fn category_of_lower_path(p: Seq<char>) -> BlueprintCategory {
    if has_prefix(p, "project-setup/"@) {
        BlueprintCategory::ProjectSetup
    } else if has_prefix(p, "ci-cd/"@) {
        BlueprintCategory::CiCd
    } else if has_prefix(p, "architecture/"@) {
        BlueprintCategory::Architecture
    } else if has_prefix(p, "workflow/"@) {
        BlueprintCategory::Workflow
    } else if has_prefix(p, "patterns/"@) {
        BlueprintCategory::Patterns
    } else if has_prefix(p, "testing/"@) {
        BlueprintCategory::Testing
    } else {
        BlueprintCategory::Patterns
    }
}

/// The category inferred from a source path.
pub open spec fn inferred_category(path: Seq<char>) -> BlueprintCategory {
    category_of_lower_path(lowercase(path))
}

/// A (lowercased) tag that marks a feature-level architecture blueprint.
pub open spec fn is_feature_tag(t: Seq<char>) -> bool {
    ||| t == "oauth"@
    ||| t == "auth"@
    ||| t == "payments"@
    ||| t == "push"@
    ||| t == "notifications"@
    ||| t == "sync"@
}

/// The scope of a category: architecture is feature-level when a tag,
/// lowercased, is a feature tag, and scaffolding otherwise.
pub open spec fn scope_of(category: BlueprintCategory, tags: Seq<Seq<char>>) -> BlueprintScope {
    match category {
        BlueprintCategory::ProjectSetup => BlueprintScope::Scaffolding,
        BlueprintCategory::CiCd => BlueprintScope::Process,
        BlueprintCategory::Workflow => BlueprintScope::Process,
        BlueprintCategory::Architecture => if exists|i: int|
            0 <= i < tags.len() && is_feature_tag(lowercase(#[trigger] tags[i])) {
            BlueprintScope::Feature
        } else {
            BlueprintScope::Scaffolding
        },
        BlueprintCategory::Patterns => BlueprintScope::Pattern,
        BlueprintCategory::Testing => BlueprintScope::Pattern,
    }
}

// ============================================================================
// The whole blueprint
// ============================================================================

/// The category of a blueprint: the metadata's, where it names one, else the
/// one its path gives.
pub open spec fn blueprint_category(content: Seq<char>, path: Seq<char>) -> BlueprintCategory {
    match metadata(content).category {
        Some(c) => match category_from_name(category_key(c)) {
            Some(v) => v,
            None => inferred_category(path),
        },
        None => inferred_category(path),
    }
}

/// The difficulty of a blueprint: the metadata's, where it names one, else
/// intermediate.
pub open spec fn blueprint_difficulty(content: Seq<char>) -> BlueprintDifficulty {
    match metadata(content).difficulty {
        Some(d) => match difficulty_from_name(lowercase(d)) {
            Some(v) => v,
            None => BlueprintDifficulty::Intermediate,
        },
        None => BlueprintDifficulty::Intermediate,
    }
}

/// The name of a blueprint: its title, else the slug with `-` read as space.
pub open spec fn blueprint_name(content: Seq<char>, slug: Seq<char>) -> Seq<char> {
    match title(content) {
        Some(t) => t,
        None => replace_char(slug, '-', ' '),
    }
}

/// The description of a blueprint: its first blockquote, else empty.
pub open spec fn blueprint_description(content: Seq<char>) -> Seq<char> {
    match first_blockquote(content) {
        Some(d) => d,
        None => seq![],
    }
}

/// Everything `parse_blueprint` yields of a file's content, its path and the
/// slug taken from the path.
pub open spec fn blueprint_model(content: Seq<char>, path: Seq<char>, slug: Seq<char>) -> BlueprintModel {
    let meta = metadata(content);
    let name = blueprint_name(content, slug);
    let description = blueprint_description(content);
    let category = blueprint_category(content, path);
    BlueprintModel {
        name: name,
        slug: slug,
        description: description,
        scope: scope_of(category, meta.tags),
        category: category,
        difficulty: blueprint_difficulty(content),
        estimated_time: match meta.time {
            Some(t) => t,
            None => seq![],
        },
        stack: meta.stack,
        tags: meta.tags,
        tier1: name + " — "@ + description,
        tier2: tier2(
            section_or_empty(content, "TL;DR"@),
            section_or_empty(content, "Gotchas"@),
            section_or_empty(content, "Checklist"@),
        ),
        tier3_content: trim(without_metadata_comment(content)),
        source_file: path,
        content_hash: hex_lower(sha256(vstd::utf8::encode_utf8(content))),
    }
}

/// The difficulty of a parsed blueprint is the one its metadata names: where
/// the metadata sets `difficulty: d` and `d`, lowercased, is `beginner`,
/// `intermediate` or `advanced`, the blueprint has that difficulty; where the
/// metadata sets none, or one that is none of these names, it is
/// intermediate.
pub proof fn lemma_metadata_difficulty(content: Seq<char>, path: Seq<char>, slug: Seq<char>)
    ensures
        metadata(content).difficulty is Some && lowercase(metadata(content).difficulty->Some_0)
            == "beginner"@ ==> blueprint_model(content, path, slug).difficulty
            == BlueprintDifficulty::Beginner,
        metadata(content).difficulty is Some && lowercase(metadata(content).difficulty->Some_0)
            == "intermediate"@ ==> blueprint_model(content, path, slug).difficulty
            == BlueprintDifficulty::Intermediate,
        metadata(content).difficulty is Some && lowercase(metadata(content).difficulty->Some_0)
            == "advanced"@ ==> blueprint_model(content, path, slug).difficulty
            == BlueprintDifficulty::Advanced,
        metadata(content).difficulty is None ==> blueprint_model(content, path, slug).difficulty
            == BlueprintDifficulty::Intermediate,
        metadata(content).difficulty is Some && lowercase(metadata(content).difficulty->Some_0)
            != "beginner"@ && lowercase(metadata(content).difficulty->Some_0) != "intermediate"@
            && lowercase(metadata(content).difficulty->Some_0) != "advanced"@ ==> blueprint_model(
            content,
            path,
            slug,
        ).difficulty == BlueprintDifficulty::Intermediate,
{
    reveal_strlit("beginner");
    reveal_strlit("intermediate");
    reveal_strlit("advanced");
    assert("beginner"@ != "advanced"@) by {
        assert("beginner"@[0] != "advanced"@[0]);
    }
    assert("beginner"@ != "intermediate"@) by {
        assert("beginner"@.len() != "intermediate"@.len());
    }
    assert("advanced"@ != "intermediate"@) by {
        assert("advanced"@.len() != "intermediate"@.len());
    }
}


// ============================================================================
// Executable parsing
// ============================================================================

/// The character sequence an optional vector holds.
pub open spec fn opt_view(o: Option<Vec<char>>) -> Option<Seq<char>> {
    match o {
        Some(v) => Some(v@),
        None => None,
    }
}

/// Copies `v`.
fn copy_chars(v: &Vec<char>) -> (r: Vec<char>)
    ensures
        r@ == v@,
{
    slice_range(v.as_slice(), 0, v.len())
}

/// The text of `t` after its first `n` characters.
fn rest_after(t: &Vec<char>, n: usize) -> (r: Vec<char>)
    requires
        n <= t@.len(),
    ensures
        r@ == t@.skip(n as int),
{
    let r = slice_range(t.as_slice(), n, t.len());
    assert(r@ =~= t@.skip(n as int));
    r
}

/// The items of a YAML-like list.
fn yaml_list_chars(value: &[char]) -> (r: Vec<Vec<char>>)
    ensures
        views(r@) == yaml_list(value@),
{
    let t = trimmed(value);
    let n = t.len();
    let inner = if n >= 2 && t[0] == '[' && t[n - 1] == ']' {
        slice_range(t.as_slice(), 1, n - 1)
    } else {
        copy_chars(&t)
    };
    proof {
        if n >= 2 && t@[0] == '[' && t@[n - 1] == ']' {
            assert(t@.last() == t@[n - 1]);
        }
    }
    let pieces = split_chars(inner.as_slice(), ',');
    let ghost ps = views(pieces@);
    let mut r: Vec<Vec<char>> = Vec::new();
    let mut i: usize = 0;
    proof {
        assert(ps.take(0) =~= Seq::<Seq<char>>::empty());
        assert(views(r@) =~= Seq::<Seq<char>>::empty());
    }
    while i < pieces.len()
        invariant
            0 <= i <= pieces@.len(),
            ps == views(pieces@),
            views(r@) == nonempty_trimmed(ps.take(i as int)),
        decreases pieces@.len() - i,
    {
        let tp = trimmed(pieces[i].as_slice());
        let ghost before = views(r@);
        proof {
            assert(ps.take(i + 1).drop_last() =~= ps.take(i as int));
            assert(ps.take(i + 1).last() == pieces@[i as int]@);
        }
        if tp.len() > 0 {
            r.push(tp);
            proof {
                assert(views(r@) =~= before.push(tp@));
            }
        }
        i = i + 1;
    }
    proof {
        assert(ps.take(i as int) =~= ps);
    }
    r
}

/// The strings holding the character sequences of `v`.
fn to_strings(v: &Vec<Vec<char>>) -> (r: Vec<String>)
    ensures
        string_views(r@) == views(v@),
{
    let mut r: Vec<String> = Vec::new();
    let mut i: usize = 0;
    while i < v.len()
        invariant
            0 <= i <= v@.len(),
            string_views(r@) == views(v@).take(i as int),
        decreases v@.len() - i,
    {
        let st = string_of(v[i].as_slice());
        let ghost prev = r@;
        r.push(st);
        proof {
            assert(r@ == prev.push(st));
            assert(string_views(r@) =~= string_views(prev).push(st@));
            assert(views(v@).take(i + 1) =~= views(v@).take(i as int).push(v@[i as int]@));
        }
        i = i + 1;
    }
    assert(views(v@).take(i as int) =~= views(v@));
    r
}

/// Parses a YAML-like list: `[a, b, c]` → `["a", "b", "c"]`.
pub fn parse_yaml_list(value: &str) -> (r: Vec<String>)
    ensures
        string_views(r@) == yaml_list(value@),
{
    let cs = chars_of(value);
    let items = yaml_list_chars(cs.as_slice());
    to_strings(&items)
}

/// The metadata fields found so far.
struct MetadataBlock {
    tags: Vec<Vec<char>>,
    category: Option<Vec<char>>,
    difficulty: Option<Vec<char>>,
    time: Option<Vec<char>>,
    stack: Vec<Vec<char>>,
}

impl MetadataBlock {
    spec fn view(&self) -> MetadataModel {
        MetadataModel {
            tags: views(self.tags@),
            category: opt_view(self.category),
            difficulty: opt_view(self.difficulty),
            time: opt_view(self.time),
            stack: views(self.stack@),
        }
    }

    fn new() -> (m: MetadataBlock)
        ensures
            m.view() == empty_metadata(),
    {
        let m = MetadataBlock {
            tags: Vec::new(),
            category: None,
            difficulty: None,
            time: None,
            stack: Vec::new(),
        };
        assert(m.view().tags =~= Seq::<Seq<char>>::empty());
        assert(m.view().stack =~= Seq::<Seq<char>>::empty());
        m
    }

    /// Takes one more line of the metadata block into account.
    fn apply_line(&mut self, line: &[char])
        ensures
            final(self).view() == apply_metadata_line(old(self).view(), line@),
    {
        let t = trimmed(line);
        let tags_key = chars_of("tags:");
        let category_key = chars_of("category:");
        let difficulty_key = chars_of("difficulty:");
        let time_key = chars_of("time:");
        let stack_key = chars_of("stack:");
        if starts_with(t.as_slice(), tags_key.as_slice()) {
            let rest = rest_after(&t, tags_key.len());
            self.tags = yaml_list_chars(rest.as_slice());
        } else if starts_with(t.as_slice(), category_key.as_slice()) {
            let rest = rest_after(&t, category_key.len());
            self.category = Some(trimmed(rest.as_slice()));
        } else if starts_with(t.as_slice(), difficulty_key.as_slice()) {
            let rest = rest_after(&t, difficulty_key.len());
            self.difficulty = Some(trimmed(rest.as_slice()));
        } else if starts_with(t.as_slice(), time_key.as_slice()) {
            let rest = rest_after(&t, time_key.len());
            self.time = Some(trimmed(rest.as_slice()));
        } else if starts_with(t.as_slice(), stack_key.as_slice()) {
            let rest = rest_after(&t, stack_key.len());
            self.stack = yaml_list_chars(rest.as_slice());
        }
    }
}

/// Where the metadata comment starts.
fn find_metadata_start(content: &[char]) -> (r: Option<usize>)
    ensures
        r matches Some(i) ==> metadata_start(content@) == Some(i as int) && i <= content@.len(),
        r is None ==> metadata_start(content@) == None::<int>,
{
    let marker = chars_of("<!-- METADATA");
    match find_chars(content, marker.as_slice(), 0) {
        Some(i) => Some(i),
        None => {
            let open = chars_of("<!--");
            find_chars(content, open.as_slice(), 0)
        },
    }
}

/// Extracts the metadata comment's fields.
fn extract_metadata(content: &[char]) -> (m: MetadataBlock)
    ensures
        m.view() == metadata(content@),
{
    let mut m = MetadataBlock::new();
    let start = match find_metadata_start(content) {
        Some(i) => i,
        None => {
            return m;
        },
    };
    let close = chars_of("-->");
    let end = match find_chars(content, close.as_slice(), start) {
        Some(j) => j,
        None => {
            return m;
        },
    };
    let block = slice_range(content, start, end);
    let ls = lines_of(block.as_slice());
    let ghost lv = views(ls@);
    let mut i: usize = 0;
    proof {
        assert(lv.take(0) =~= Seq::<Seq<char>>::empty());
    }
    while i < ls.len()
        invariant
            0 <= i <= ls@.len(),
            lv == views(ls@),
            lv == lines(block@),
            block@ == content@.subrange(start as int, end as int),
            m.view() == metadata_of_lines(lv.take(i as int)),
        decreases ls@.len() - i,
    {
        m.apply_line(ls[i].as_slice());
        proof {
            assert(lv.take(i + 1).drop_last() =~= lv.take(i as int));
            assert(lv.take(i + 1).last() == ls@[i as int]@);
        }
        i = i + 1;
    }
    proof {
        assert(lv.take(i as int) =~= lv);
    }
    m
}

/// A title without a leading `Blueprint: ` or `Blueprint — `.
fn clean_title_chars(title: &Vec<char>) -> (r: Vec<char>)
    ensures
        r@ == clean_title(title@),
{
    let p1 = chars_of("Blueprint: ");
    let p2 = chars_of("Blueprint — ");
    if starts_with(title.as_slice(), p1.as_slice()) {
        rest_after(title, p1.len())
    } else if starts_with(title.as_slice(), p2.as_slice()) {
        rest_after(title, p2.len())
    } else {
        copy_chars(title)
    }
}

proof fn lemma_skip_step(ls: Seq<Seq<char>>, i: int)
    requires
        0 <= i < ls.len(),
    ensures
        ls.skip(i)[0] == ls[i],
        ls.skip(i).drop_first() == ls.skip(i + 1),
        ls.skip(i).len() > 0,
{
    assert(ls.skip(i).drop_first() =~= ls.skip(i + 1));
}

/// The H1 title of the text.
fn extract_title(content: &[char]) -> (r: Option<Vec<char>>)
    ensures
        opt_view(r) == title(content@),
{
    let ls = lines_of(content);
    let ghost lv = views(ls@);
    let prefix = chars_of("# ");
    let mut i: usize = 0;
    proof {
        assert(lv.skip(0) =~= lv);
    }
    while i < ls.len()
        invariant
            0 <= i <= ls@.len(),
            lv == views(ls@),
            lv == lines(content@),
            prefix@ == "# "@,
            title_of_lines(lv) == title_of_lines(lv.skip(i as int)),
        decreases ls@.len() - i,
    {
        proof {
            lemma_skip_step(lv, i as int);
        }
        let t = trimmed(ls[i].as_slice());
        if starts_with(t.as_slice(), prefix.as_slice()) {
            proof {
                reveal_strlit("# ");
            }
            let rest = rest_after(&t, 2);
            let inner = trimmed(rest.as_slice());
            let cleaned = clean_title_chars(&inner);
            let result = trimmed(cleaned.as_slice());
            return Some(result);
        }
        i = i + 1;
    }
    proof {
        assert(lv.skip(i as int) =~= Seq::<Seq<char>>::empty());
    }
    None
}

/// The first blockquote after the metadata comment.
fn extract_first_blockquote(content: &[char]) -> (r: Option<Vec<char>>)
    ensures
        opt_view(r) == first_blockquote(content@),
{
    let close = chars_of("-->");
    let start = match find_chars(content, close.as_slice(), 0) {
        Some(i) => {
            proof {
                reveal_strlit("-->");
            }
            assert(close@.len() == 3);
            assert(i + 3 <= content.len());
            i + 3
        },
        None => 0,
    };
    let rest = slice_range(content, start, content.len());
    assert(rest@ =~= content@.skip(after_comment(content@)));
    let ls = lines_of(rest.as_slice());
    let ghost lv = views(ls@);
    let prefix = chars_of("> ");
    let mut i: usize = 0;
    proof {
        assert(lv.skip(0) =~= lv);
        reveal_strlit("> ");
    }
    while i < ls.len()
        invariant
            0 <= i <= ls@.len(),
            lv == views(ls@),
            lv == lines(content@.skip(after_comment(content@))),
            prefix@ == "> "@,
            "> "@.len() == 2,
            quote_of_lines(lv) == quote_of_lines(lv.skip(i as int)),
        decreases ls@.len() - i,
    {
        proof {
            lemma_skip_step(lv, i as int);
        }
        let t = trimmed(ls[i].as_slice());
        if starts_with(t.as_slice(), prefix.as_slice()) {
            let rest = rest_after(&t, 2);
            let q = trimmed(rest.as_slice());
            if q.len() > 0 {
                return Some(q);
            }
        }
        i = i + 1;
    }
    proof {
        assert(lv.skip(i as int) =~= Seq::<Seq<char>>::empty());
    }
    None
}

/// Joins the lines `ls[a..b]` with newlines.
fn join_lines_range(ls: &Vec<Vec<char>>, a: usize, b: usize) -> (r: Vec<char>)
    requires
        a <= b <= ls@.len(),
    ensures
        r@ == join(views(ls@).subrange(a as int, b as int), "\n"@),
{
    let mut sub: Vec<Vec<char>> = Vec::new();
    let mut k: usize = a;
    while k < b
        invariant
            a <= k <= b,
            b <= ls@.len(),
            views(sub@) == views(ls@).subrange(a as int, k as int),
        decreases b - k,
    {
        let c = copy_chars(&ls[k]);
        let ghost prev = sub@;
        sub.push(c);
        proof {
            assert(sub@ == prev.push(c));
            assert(views(sub@) =~= views(prev).push(c@));
            assert(views(ls@).subrange(a as int, k + 1) =~= views(ls@).subrange(a as int, k as int).push(ls@[k as int]@));
        }
        k = k + 1;
    }
    let sep = chars_of("\n");
    join_chars(&sub, sep.as_slice())
}

/// The index of the first line that, trimmed, is `heading`.
fn heading_position(ls: &Vec<Vec<char>>, heading: &Vec<char>) -> (r: Option<usize>)
    ensures
        r matches Some(k) ==> heading_index(views(ls@), heading@, 0) == Some(k as int) && k
            < ls@.len(),
        r is None ==> heading_index(views(ls@), heading@, 0) == None::<int>,
{
    let ghost lv = views(ls@);
    let n = ls.len();
    let mut i: usize = 0;
    while i < n
        invariant
            0 <= i <= n,
            n == lv.len(),
            lv == views(ls@),
            heading_index(lv, heading@, 0) == heading_index(lv, heading@, i as int),
        decreases n - i,
    {
        let t = trimmed(ls[i].as_slice());
        proof {
            assert(lv[i as int] == ls@[i as int]@);
        }
        if eq_chars(t.as_slice(), heading.as_slice()) {
            return Some(i);
        }
        i = i + 1;
    }
    None
}

/// The index of the first level-2 heading line at or after `from`, or the
/// number of lines.
fn next_heading(ls: &Vec<Vec<char>>, from: usize) -> (r: usize)
    requires
        from <= ls@.len(),
    ensures
        r as int == next_level2(views(ls@), from as int),
        from <= r <= ls@.len(),
{
    let ghost lv = views(ls@);
    let n = ls.len();
    let h2 = chars_of("## ");
    let h3 = chars_of("### ");
    let mut j: usize = from;
    while j < n
        invariant
            from <= j <= n,
            n == lv.len(),
            lv == views(ls@),
            h2@ == "## "@,
            h3@ == "### "@,
            next_level2(lv, from as int) == next_level2(lv, j as int),
        decreases n - j,
    {
        let t = trimmed(ls[j].as_slice());
        proof {
            assert(lv[j as int] == ls@[j as int]@);
        }
        if starts_with(t.as_slice(), h2.as_slice()) && !starts_with(t.as_slice(), h3.as_slice()) {
            return j;
        }
        j = j + 1;
    }
    j
}

/// The body of the section headed `## name`.
fn extract_section(content: &[char], name: &str) -> (r: Option<Vec<char>>)
    ensures
        opt_view(r) == section(content@, name@),
{
    let mut heading = chars_of("## ");
    extend_str(&mut heading, name);
    let ls = lines_of(content);
    let ghost lv = views(ls@);
    let start = match heading_position(&ls, &heading) {
        Some(k) => k,
        None => {
            return None;
        },
    };
    assert(start < ls.len());
    let j = next_heading(&ls, start + 1);
    let joined = join_lines_range(&ls, start + 1, j);
    let body = trimmed(joined.as_slice());
    if body.len() == 0 {
        None
    } else {
        Some(body)
    }
}

/// The bold title of a gotcha line, if it has one.
fn gotcha_title_of(line: &Vec<char>) -> (r: Option<Vec<char>>)
    ensures
        opt_view(r) == gotcha_title(line@),
{
    let t = trimmed(line.as_slice());
    let prefix = chars_of("> ");
    if !starts_with(t.as_slice(), prefix.as_slice()) {
        return None;
    }
    proof {
        reveal_strlit("> ");
        reveal_strlit("**");
    }
    let quote = rest_after(&t, 2);
    let stars = chars_of("**");
    let s0 = match find_chars(quote.as_slice(), stars.as_slice(), 0) {
        Some(k) => k,
        None => {
            return None;
        },
    };
    assert(s0 + 2 <= quote.len());
    let e = match find_chars(quote.as_slice(), stars.as_slice(), s0 + 2) {
        Some(k) => k,
        None => {
            return None;
        },
    };
    Some(slice_range(quote.as_slice(), s0 + 2, e))
}

/// The gotcha summary of a Gotchas section: its bold titles joined with `, `.
fn extract_gotcha_summaries(gotchas: &Vec<char>) -> (r: Vec<char>)
    ensures
        r@ == gotcha_summary(gotchas@),
{
    let ls = lines_of(gotchas.as_slice());
    let ghost lv = views(ls@);
    let mut titles: Vec<Vec<char>> = Vec::new();
    let mut i: usize = 0;
    proof {
        assert(lv.take(0) =~= Seq::<Seq<char>>::empty());
        assert(views(titles@) =~= Seq::<Seq<char>>::empty());
    }
    while i < ls.len()
        invariant
            0 <= i <= ls@.len(),
            lv == views(ls@),
            views(titles@) == gotcha_titles(lv.take(i as int)),
        decreases ls@.len() - i,
    {
        let found = gotcha_title_of(&ls[i]);
        proof {
            assert(lv.take(i + 1).drop_last() =~= lv.take(i as int));
            assert(lv.take(i + 1).last() == ls@[i as int]@);
        }
        match found {
            Some(title) => {
                let ghost prev = titles@;
                titles.push(title);
                proof {
                    assert(titles@ == prev.push(title));
                    assert(views(titles@) =~= views(prev).push(title@));
                }
            },
            None => {},
        }
        i = i + 1;
    }
    proof {
        assert(lv.take(i as int) =~= lv);
    }
    let sep = chars_of(", ");
    join_chars(&titles, sep.as_slice())
}

/// `prefix` followed by `body`.
fn labelled(prefix: &str, body: &Vec<char>) -> (r: Vec<char>)
    ensures
        r@ == prefix@ + body@,
{
    let mut r = chars_of(prefix);
    extend_chars(&mut r, body.as_slice());
    r
}

/// Builds tier 2 from the TL;DR, Gotchas and Checklist sections.
fn build_tier2(tldr: &Vec<char>, gotchas: &Vec<char>, checklist: &Vec<char>) -> (r: Vec<char>)
    ensures
        r@ == tier2(tldr@, gotchas@, checklist@),
{
    let mut parts: Vec<Vec<char>> = Vec::new();
    let ghost p0 = views(parts@);
    assert(p0 =~= Seq::<Seq<char>>::empty());
    if tldr.len() > 0 {
        parts.push(copy_chars(tldr));
    }
    let ghost p1 = views(parts@);
    assert(p1 =~= (if tldr@.len() > 0 { seq![tldr@] } else { Seq::<Seq<char>>::empty() }));
    if gotchas.len() > 0 {
        let summary = extract_gotcha_summaries(gotchas);
        if summary.len() > 0 {
            let part = labelled("**Gotchas**: ", &summary);
            let ghost prev = parts@;
            parts.push(part);
            proof {
                assert(parts@ == prev.push(part));
                assert(views(parts@) =~= views(prev).push(part@));
            }
        }
    }
    let ghost p2 = views(parts@);
    if checklist.len() > 0 {
        let part = labelled("**Checklist**:\n", checklist);
        let ghost prev = parts@;
        parts.push(part);
        proof {
            assert(parts@ == prev.push(part));
            assert(views(parts@) =~= views(prev).push(part@));
        }
    }
    assert(views(parts@) == tier2_parts(tldr@, gotchas@, checklist@));
    let sep = chars_of("\n\n");
    join_chars(&parts, sep.as_slice())
}

/// The category a lowercased path's folder gives.
pub fn category_from_lower_path(p: &[char]) -> (r: BlueprintCategory)
    ensures
        r == category_of_lower_path(p@),
{
    if starts_with(p, chars_of("project-setup/").as_slice()) {
        BlueprintCategory::ProjectSetup
    } else if starts_with(p, chars_of("ci-cd/").as_slice()) {
        BlueprintCategory::CiCd
    } else if starts_with(p, chars_of("architecture/").as_slice()) {
        BlueprintCategory::Architecture
    } else if starts_with(p, chars_of("workflow/").as_slice()) {
        BlueprintCategory::Workflow
    } else if starts_with(p, chars_of("patterns/").as_slice()) {
        BlueprintCategory::Patterns
    } else if starts_with(p, chars_of("testing/").as_slice()) {
        BlueprintCategory::Testing
    } else {
        BlueprintCategory::Patterns
    }
}

/// Infers the category from the source path's first folder.
pub fn infer_category(source_path: &str) -> (r: BlueprintCategory)
    ensures
        r == inferred_category(source_path@),
{
    let cs = chars_of(source_path);
    let low = lowercase_chars(cs.as_slice());
    category_from_lower_path(low.as_slice())
}

/// Whether a lowercased tag marks a feature-level blueprint.
fn is_feature_tag_chars(t: &[char]) -> (b: bool)
    ensures
        b == is_feature_tag(t@),
{
    eq_chars(t, chars_of("oauth").as_slice()) || eq_chars(t, chars_of("auth").as_slice())
        || eq_chars(t, chars_of("payments").as_slice()) || eq_chars(t, chars_of("push").as_slice())
        || eq_chars(t, chars_of("notifications").as_slice()) || eq_chars(
        t,
        chars_of("sync").as_slice(),
    )
}

/// Infers the scope from the category and the tags.
fn infer_scope_chars(category: BlueprintCategory, tags: &Vec<Vec<char>>) -> (r: BlueprintScope)
    ensures
        r == scope_of(category, views(tags@)),
{
    match category {
        BlueprintCategory::ProjectSetup => BlueprintScope::Scaffolding,
        BlueprintCategory::CiCd => BlueprintScope::Process,
        BlueprintCategory::Workflow => BlueprintScope::Process,
        BlueprintCategory::Architecture => {
            let ghost tv = views(tags@);
            let mut i: usize = 0;
            while i < tags.len()
                invariant
                    0 <= i <= tags@.len(),
                    tv == views(tags@),
                    category == BlueprintCategory::Architecture,
                    forall|k: int| 0 <= k < i ==> !is_feature_tag(lowercase(#[trigger] tv[k])),
                decreases tags@.len() - i,
            {
                let low = lowercase_chars(tags[i].as_slice());
                proof {
                    assert(tv[i as int] == tags@[i as int]@);
                }
                if is_feature_tag_chars(low.as_slice()) {
                    assert(is_feature_tag(lowercase(tv[i as int])));
                    return BlueprintScope::Feature;
                }
                i = i + 1;
            }
            BlueprintScope::Scaffolding
        },
        BlueprintCategory::Patterns => BlueprintScope::Pattern,
        BlueprintCategory::Testing => BlueprintScope::Pattern,
    }
}

/// Infers the scope of a blueprint from its category and tags: project
/// setup is scaffolding, CI/CD and workflow are process, patterns and testing
/// are pattern, and architecture is feature-level when one of its tags is
/// oauth, auth, payments, push, notifications or sync (in any case), else
/// scaffolding.
pub fn infer_scope(category: BlueprintCategory, tags: &Vec<String>) -> (r: BlueprintScope)
    ensures
        r == scope_of(category, string_views(tags@)),
{
    let mut cs: Vec<Vec<char>> = Vec::new();
    let mut i: usize = 0;
    while i < tags.len()
        invariant
            0 <= i <= tags@.len(),
            views(cs@) == string_views(tags@).take(i as int),
        decreases tags@.len() - i,
    {
        let c = chars_of(tags[i].as_str());
        let ghost prev = cs@;
        cs.push(c);
        proof {
            assert(cs@ == prev.push(c));
            assert(views(cs@) =~= views(prev).push(c@));
            assert(string_views(tags@).take(i + 1) =~= string_views(tags@).take(i as int).push(tags@[i as int]@));
        }
        i = i + 1;
    }
    assert(string_views(tags@).take(i as int) =~= string_views(tags@));
    infer_scope_chars(category, &cs)
}

/// A path that every platform splits at `/` alone and that has no drive or
/// network prefix: it holds no `\`, no `:`, and does not begin with `//`.
pub open spec fn portable_path(p: Seq<char>) -> bool {
    &&& !p.contains('\\')
    &&& !p.contains(':')
    &&& !(p.len() >= 2 && p[0] == '/' && p[1] == '/')
}

/// The pieces of a portable path that name something: its `/`-separated
/// pieces, without the empty ones (repeated or trailing separators) and `.`.
pub open spec fn named_pieces(p: Seq<char>) -> Seq<Seq<char>> {
    split(p, '/').filter(|s: Seq<char>| s.len() > 0 && s != "."@)
}

/// `Path::file_name` of a portable path: its last named piece; none where
/// there is none or the path ends in `..`.
pub open spec fn file_name_of(p: Seq<char>) -> Option<Seq<char>> {
    let ps = named_pieces(p);
    if ps.len() == 0 || ps.last() == ".."@ {
        None
    } else {
        Some(ps.last())
    }
}

/// The position of the last `c` in `s`, if any.
pub open spec fn last_index_of(s: Seq<char>, c: char) -> Option<int>
    decreases s.len(),
{
    if s.len() == 0 {
        None
    } else if s.last() == c {
        Some(s.len() - 1)
    } else {
        last_index_of(s.drop_last(), c)
    }
}

/// The stem of a file name (`Path::file_stem`): the whole name where it has
/// no `.`, or its only `.` begins it; otherwise the part before the last `.`.
pub open spec fn stem_of(name: Seq<char>) -> Seq<char> {
    match last_index_of(name, '.') {
        Some(i) => if i == 0 {
            name
        } else {
            name.take(i)
        },
        None => name,
    }
}

/// The stem a portable path gives, if it has a file name.
pub open spec fn path_stem(p: Seq<char>) -> Option<Seq<char>> {
    match file_name_of(p) {
        Some(n) => Some(stem_of(n)),
        None => None,
    }
}

/// `std::path::Path::file_stem` of a path, as text: the final component
/// without its extension. For a portable path, the documented rules of
/// `Path::components` (repeated and trailing separators and `.` pieces are
/// normalized away), `Path::file_name` (none where the path ends in `..`) and
/// `Path::file_stem` give `path_stem`. Other paths split by the platform's
/// own separators and prefixes, and nothing is claimed of them.
#[verifier::external_body]
fn path_file_stem(path: &str) -> (r: Option<String>)
    ensures
        portable_path(path@) ==> opt_chars(r) == path_stem(path@),
{
    std::path::Path::new(path).file_stem().and_then(|s| s.to_str()).map(|s| s.to_string())
}

/// The content without its metadata comment: the first `<!--` and
/// everything through the first `-->` after it are taken out; content
/// without a complete comment stays as it is.
pub open spec fn without_metadata_comment(c: Seq<char>) -> Seq<char> {
    match find(c, "<!--"@) {
        Some(s) => match find_from(c, "-->"@, s) {
            Some(e) => c.take(s) + c.skip(e + 3),
            None => c,
        },
        None => c,
    }
}

/// Strips the metadata HTML comment from content: what comes before the
/// comment and what follows it, joined.
pub fn strip_metadata_comment(content: &str) -> (r: String)
    ensures
        r@ == without_metadata_comment(content@),
{
    let cs = chars_of(content);
    let open = chars_of("<!--");
    let close = chars_of("-->");
    proof {
        reveal_strlit("-->");
        assert(close@.len() == 3);
    }
    match find_chars(cs.as_slice(), open.as_slice(), 0) {
        Some(start) => match find_chars(cs.as_slice(), close.as_slice(), start) {
            Some(end) => {
                let n = cs.len();
                let before = slice_range(cs.as_slice(), 0, start);
                let after = slice_range(cs.as_slice(), end + 3, n);
                let mut v = before;
                extend_chars(&mut v, after.as_slice());
                proof {
                    assert(v@ =~= without_metadata_comment(content@));
                }
                string_of(v.as_slice())
            },
            None => content.to_owned(),
        },
        None => content.to_owned(),
    }
}

/// The slug a stem gives: the stem itself, or `unknown` where there is none.
pub fn slug_from_stem(stem: Option<String>) -> (r: String)
    ensures
        r@ == (match stem {
            Some(s) => s@,
            None => "unknown"@,
        }),
{
    match stem {
        Some(s) => s,
        None => "unknown".to_owned(),
    }
}

/// Derives a slug from a file path: its file stem, or `unknown`.
///
/// `patterns/service-layer-pattern.md` → `service-layer-pattern`
pub fn slug_from_path(path: &str) -> (r: String)
    ensures
        portable_path(path@) ==> r@ == (match path_stem(path@) {
            Some(s) => s,
            None => "unknown"@,
        }),
{
    slug_from_stem(path_file_stem(path))
}

/// Parses a blueprint markdown file, given the slug of its path.
pub fn parse_blueprint_with_slug(content: &str, source_path: &str, slug: String) -> (b:
    ParsedBlueprint)
    ensures
        b.model() == blueprint_model(content@, source_path@, slug@),
        b.slug == slug,
        b.content_hash@.len() == 64,
        forall|i: int| 0 <= i < 64 ==> is_lower_hex(#[trigger] b.content_hash@[i]),
{
    let cs = chars_of(content);
    let hash = compute_sha256(content);
    let meta = extract_metadata(cs.as_slice());
    let name = match extract_title(cs.as_slice()) {
        Some(t) => t,
        None => {
            let sc = chars_of(slug.as_str());
            replaced(sc.as_slice(), '-', ' ')
        },
    };
    let description = match extract_first_blockquote(cs.as_slice()) {
        Some(d) => d,
        None => Vec::new(),
    };
    let tldr = match extract_section(cs.as_slice(), "TL;DR") {
        Some(x) => x,
        None => Vec::new(),
    };
    let gotchas = match extract_section(cs.as_slice(), "Gotchas") {
        Some(x) => x,
        None => Vec::new(),
    };
    let checklist = match extract_section(cs.as_slice(), "Checklist") {
        Some(x) => x,
        None => Vec::new(),
    };
    let category = match &meta.category {
        Some(c) => {
            let cstr = string_of(c.as_slice());
            match BlueprintCategory::from_str(cstr.as_str()) {
                Ok(v) => v,
                Err(_) => infer_category(source_path),
            }
        },
        None => infer_category(source_path),
    };
    let scope = infer_scope_chars(category, &meta.tags);
    let difficulty = match &meta.difficulty {
        Some(d) => {
            let dstr = string_of(d.as_slice());
            match BlueprintDifficulty::from_str(dstr.as_str()) {
                Ok(v) => v,
                Err(_) => BlueprintDifficulty::Intermediate,
            }
        },
        None => BlueprintDifficulty::Intermediate,
    };
    let mut tier1 = copy_chars(&name);
    extend_str(&mut tier1, " — ");
    extend_chars(&mut tier1, description.as_slice());
    let tier2 = build_tier2(&tldr, &gotchas, &checklist);
    let stripped = strip_metadata_comment(content);
    let body = chars_of(stripped.as_str());
    let tier3 = trimmed(body.as_slice());
    let estimated_time = match &meta.time {
        Some(t) => string_of(t.as_slice()),
        None => String::new(),
    };
    let stack = to_strings(&meta.stack);
    let tags = to_strings(&meta.tags);
    proof {
        assert(description@ == blueprint_description(content@));
        assert(tldr@ == section_or_empty(content@, "TL;DR"@));
        assert(gotchas@ == section_or_empty(content@, "Gotchas"@));
        assert(checklist@ == section_or_empty(content@, "Checklist"@));
    }
    ParsedBlueprint {
        name: string_of(name.as_slice()),
        slug: slug,
        description: string_of(description.as_slice()),
        scope: scope,
        category: category,
        difficulty: difficulty,
        estimated_time: estimated_time,
        stack: stack,
        tags: tags,
        tier1: string_of(tier1.as_slice()),
        tier2: string_of(tier2.as_slice()),
        tier3_content: string_of(tier3.as_slice()),
        source_file: source_path.to_owned(),
        content_hash: hash,
    }
}

/// Parses a blueprint markdown file into structured data.
///
/// `source_path` is the relative path within the blueprint repo (e.g.
/// `patterns/service-layer-pattern.md`). Parsing always succeeds; every
/// field is what `blueprint_model` gives for the content, the path and the
/// slug that the path's file stem gave: for a portable path its stem, or
/// `unknown` where it has none. The content hash is 64 lowercase
/// hexadecimal characters.
pub fn parse_blueprint(content: &str, source_path: &str) -> (r: Result<ParsedBlueprint, String>)
    ensures
        r matches Ok(b) && b.model() == blueprint_model(content@, source_path@, b.slug@),
        r matches Ok(b) && (portable_path(source_path@) ==> b.slug@ == (match path_stem(
            source_path@,
        ) {
            Some(s) => s,
            None => "unknown"@,
        })),
        r matches Ok(b) && b.content_hash@.len() == 64 && forall|i: int|
            0 <= i < 64 ==> is_lower_hex(#[trigger] b.content_hash@[i]),
{
    let slug = slug_from_path(source_path);
    Ok(parse_blueprint_with_slug(content, source_path, slug))
}

/// The content hash of a blueprint depends on its content alone: under any
/// two paths and slugs the same content has the same hash, the lowercase
/// hexadecimal SHA-256 digest of its UTF-8 bytes.
pub proof fn lemma_hash_ignores_path(
    content: Seq<char>,
    p1: Seq<char>,
    p2: Seq<char>,
    s1: Seq<char>,
    s2: Seq<char>,
)
    ensures
        blueprint_model(content, p1, s1).content_hash == blueprint_model(content, p2, s2).content_hash,
        blueprint_model(content, p1, s1).content_hash == hex_lower(
            sha256(vstd::utf8::encode_utf8(content)),
        ),
{
}

// ============================================================================
// References
// ============================================================================

/// A markdown link `[text](path.md)` that starts at index `i` of `t`: the
/// text is one or more characters other than `]`, the path one or more
/// characters other than `)` that end with `.md`. The link's end index and
/// its path.
pub open spec fn link_at(t: Seq<char>, i: int) -> Option<(int, Seq<char>)> {
    if 0 <= i < t.len() && t[i] == '[' {
        let a = i + 1;
        let k = run_len(t.skip(a), ']') as int;
        let close = a + k;
        if k >= 1 && close + 1 < t.len() && t[close + 1] == '(' {
            let b = close + 2;
            let m = run_len(t.skip(b), ')') as int;
            let path = t.subrange(b, b + m);
            if b + m < t.len() && m >= 4 && has_suffix(path, ".md"@) {
                Some((b + m + 1, path))
            } else {
                None
            }
        } else {
            None
        }
    } else {
        None
    }
}

pub proof fn lemma_link_at_bounds(t: Seq<char>, i: int)
    ensures
        link_at(t, i) matches Some((end, path)) ==> i < end <= t.len(),
{
}

/// The paths of the links found scanning `t` from index `i`: the leftmost
/// link is taken, and the scan goes on after it, as a regular-expression
/// search for `\[([^\]]+)\]\(([^)]+\.md)\)` does.
pub open spec fn link_paths_from(t: Seq<char>, i: int) -> Seq<Seq<char>>
    decreases t.len() - i,
{
    if i < 0 || i >= t.len() {
        seq![]
    } else {
        proof {
            lemma_link_at_bounds(t, i);
        }
        match link_at(t, i) {
            Some((end, path)) => seq![path] + link_paths_from(t, end),
            None => link_paths_from(t, i + 1),
        }
    }
}

/// The paths of all markdown links to `.md` files in `t`.
pub open spec fn link_paths(t: Seq<char>) -> Seq<Seq<char>> {
    link_paths_from(t, 0)
}

/// The link paths that are neither external (`http…`) nor anchors (`#…`),
/// in order.
pub open spec fn local_paths(ps: Seq<Seq<char>>) -> Seq<Seq<char>>
    decreases ps.len(),
{
    if ps.len() == 0 {
        seq![]
    } else {
        let rest = local_paths(ps.drop_last());
        let p = ps.last();
        if has_prefix(p, "http"@) || has_prefix(p, "#"@) {
            rest
        } else {
            rest.push(p)
        }
    }
}

/// The local link paths of the References section.
pub open spec fn reference_paths(content: Seq<char>) -> Seq<Seq<char>> {
    match section(content, "References"@) {
        Some(r) => local_paths(link_paths(r)),
        None => seq![],
    }
}

/// What keeping the local paths keeps: only paths of the list that start
/// neither with `http` nor with `#`, and every such path.
proof fn lemma_local_paths_kept(ps: Seq<Seq<char>>)
    ensures
        forall|i: int|
            0 <= i < local_paths(ps).len() ==> !has_prefix(#[trigger] local_paths(ps)[i], "http"@)
                && !has_prefix(local_paths(ps)[i], "#"@) && ps.contains(local_paths(ps)[i]),
        forall|j: int|
            0 <= j < ps.len() && !has_prefix(#[trigger] ps[j], "http"@) && !has_prefix(ps[j], "#"@)
                ==> local_paths(ps).contains(ps[j]),
    decreases ps.len(),
{
    if ps.len() > 0 {
        let prev = ps.drop_last();
        lemma_local_paths_kept(prev);
        let lp = local_paths(ps);
        let lq = local_paths(prev);
        assert forall|i: int| 0 <= i < lp.len() implies !has_prefix(#[trigger] lp[i], "http"@)
            && !has_prefix(lp[i], "#"@) && ps.contains(lp[i]) by {
            if i < lq.len() {
                assert(lp[i] == lq[i]);
                let k = choose|k: int| 0 <= k < prev.len() && prev[k] == lq[i];
                assert(ps[k] == prev[k]);
            } else {
                assert(lp[i] == ps.last());
                assert(ps[ps.len() - 1] == ps.last());
            }
        }
        assert forall|j: int|
            0 <= j < ps.len() && !has_prefix(#[trigger] ps[j], "http"@) && !has_prefix(ps[j], "#"@)
                implies lp.contains(ps[j]) by {
            if j < prev.len() {
                assert(prev[j] == ps[j]);
                assert(lq.contains(prev[j]));
                let k = choose|k: int| 0 <= k < lq.len() && lq[k] == prev[j];
                assert(lp[k] == lq[k]);
            } else {
                assert(ps[j] == ps.last());
                assert(lp[lp.len() - 1] == ps.last());
            }
        }
    }
}

/// The references of a blueprint are the `.md` links of its References
/// section that are neither external nor anchors: no reference path starts
/// with `http` or `#`, each is a link path of the section, and each link
/// path of the section that starts with neither is a reference path.
pub proof fn lemma_reference_paths_local(content: Seq<char>)
    ensures
        forall|i: int|
            0 <= i < reference_paths(content).len() ==> !has_prefix(
                #[trigger] reference_paths(content)[i],
                "http"@,
            ) && !has_prefix(reference_paths(content)[i], "#"@),
        section(content, "References"@) is None ==> reference_paths(content).len() == 0,
        section(content, "References"@) matches Some(r) ==> forall|i: int|
            0 <= i < reference_paths(content).len() ==> link_paths(r).contains(
                #[trigger] reference_paths(content)[i],
            ),
        section(content, "References"@) matches Some(r) ==> forall|j: int|
            0 <= j < link_paths(r).len() && !has_prefix(#[trigger] link_paths(r)[j], "http"@)
                && !has_prefix(link_paths(r)[j], "#"@) ==> reference_paths(content).contains(
                link_paths(r)[j],
            ),
{
    match section(content, "References"@) {
        Some(r) => lemma_local_paths_kept(link_paths(r)),
        None => {},
    }
}

/// The slugs given by a sequence of file stems: each stem, where there is
/// one and it is not `unknown`.
pub open spec fn slugs_of_stems(stems: Seq<Option<Seq<char>>>) -> Seq<Seq<char>>
    decreases stems.len(),
{
    if stems.len() == 0 {
        seq![]
    } else {
        let rest = slugs_of_stems(stems.drop_last());
        match stems.last() {
            Some(s) => if s != "unknown"@ {
                rest.push(s)
            } else {
                rest
            },
            None => rest,
        }
    }
}

/// The link starting at index `i` of `t`, if any: its end and its path.
fn link_match(t: &[char], i: usize) -> (r: Option<(usize, Vec<char>)>)
    requires
        i < t@.len(),
    ensures
        match link_at(t@, i as int) {
            Some((end, path)) => r matches Some((e, p)) && e == end && p@ == path,
            None => r is None,
        },
{
    if t[i] != '[' {
        return None;
    }
    let a = i + 1;
    let k = run_length(t, a, ']');
    let close = a + k;
    if !(k >= 1 && close < t.len() - 1 && t[close + 1] == '(') {
        return None;
    }
    let b = close + 2;
    let m = run_length(t, b, ')');
    let path = slice_range(t, b, b + m);
    let md = chars_of(".md");
    if b + m < t.len() && m >= 4 && ends_with(path.as_slice(), md.as_slice()) {
        Some((b + m + 1, path))
    } else {
        None
    }
}

/// The paths of all markdown links to `.md` files in `t`.
pub fn find_link_paths(t: &[char]) -> (r: Vec<Vec<char>>)
    ensures
        views(r@) == link_paths(t@),
{
    let mut r: Vec<Vec<char>> = Vec::new();
    let mut i: usize = 0;
    proof {
        assert(views(r@) =~= Seq::<Seq<char>>::empty());
        assert(views(r@) + link_paths_from(t@, 0) =~= link_paths_from(t@, 0));
    }
    while i < t.len()
        invariant
            0 <= i <= t@.len(),
            link_paths_from(t@, 0) == views(r@) + link_paths_from(t@, i as int),
        decreases t@.len() - i,
    {
        proof {
            lemma_link_at_bounds(t@, i as int);
        }
        match link_match(t, i) {
            Some((end, path)) => {
                let ghost prev = r@;
                r.push(path);
                proof {
                    assert(r@ == prev.push(path));
                    assert(views(r@) =~= views(prev).push(path@));
                    assert(views(prev) + link_paths_from(t@, i as int) =~= views(r@)
                        + link_paths_from(t@, end as int));
                }
                i = end;
            },
            None => {
                i = i + 1;
            },
        }
    }
    proof {
        assert(views(r@) + link_paths_from(t@, i as int) =~= views(r@));
    }
    r
}

/// The local link paths of the References section of a blueprint.
pub fn reference_path_list(content: &str) -> (r: Vec<String>)
    ensures
        string_views(r@) == reference_paths(content@),
{
    let cs = chars_of(content);
    let refs = match extract_section(cs.as_slice(), "References") {
        Some(x) => x,
        None => {
            let r: Vec<String> = Vec::new();
            assert(string_views(r@) =~= Seq::<Seq<char>>::empty());
            return r;
        },
    };
    let paths = find_link_paths(refs.as_slice());
    let ghost pv = views(paths@);
    let http = chars_of("http");
    let hash = chars_of("#");
    let mut keep: Vec<Vec<char>> = Vec::new();
    let mut i: usize = 0;
    proof {
        assert(pv.take(0) =~= Seq::<Seq<char>>::empty());
        assert(views(keep@) =~= Seq::<Seq<char>>::empty());
    }
    while i < paths.len()
        invariant
            0 <= i <= paths@.len(),
            pv == views(paths@),
            http@ == "http"@,
            hash@ == "#"@,
            views(keep@) == local_paths(pv.take(i as int)),
        decreases paths@.len() - i,
    {
        proof {
            assert(pv.take(i + 1).drop_last() =~= pv.take(i as int));
            assert(pv.take(i + 1).last() == paths@[i as int]@);
        }
        if !(starts_with(paths[i].as_slice(), http.as_slice()) || starts_with(
            paths[i].as_slice(),
            hash.as_slice(),
        )) {
            let c = copy_chars(&paths[i]);
            let ghost prev = keep@;
            keep.push(c);
            proof {
                assert(keep@ == prev.push(c));
                assert(views(keep@) =~= views(prev).push(c@));
            }
        }
        i = i + 1;
    }
    proof {
        assert(pv.take(i as int) =~= pv);
    }
    to_strings(&keep)
}

/// The slugs given by the file stems of the reference paths.
pub fn slugs_from_stems(stems: &Vec<Option<String>>) -> (r: Vec<String>)
    ensures
        string_views(r@) == slugs_of_stems(stems@.map_values(|o: Option<String>| match o {
            Some(s) => Some(s@),
            None => None,
        })),
{
    let ghost sv = stems@.map_values(|o: Option<String>| match o {
        Some(s) => Some(s@),
        None => None,
    });
    let unknown = chars_of("unknown");
    let mut r: Vec<String> = Vec::new();
    let mut i: usize = 0;
    proof {
        assert(sv.take(0) =~= Seq::<Option<Seq<char>>>::empty());
        assert(string_views(r@) =~= Seq::<Seq<char>>::empty());
    }
    while i < stems.len()
        invariant
            0 <= i <= stems@.len(),
            sv == stems@.map_values(|o: Option<String>| match o {
                Some(s) => Some(s@),
                None => None,
            }),
            unknown@ == "unknown"@,
            string_views(r@) == slugs_of_stems(sv.take(i as int)),
        decreases stems@.len() - i,
    {
        proof {
            assert(sv.take(i + 1).drop_last() =~= sv.take(i as int));
            assert(sv.take(i + 1).last() == sv[i as int]);
        }
        match &stems[i] {
            Some(s) => {
                let sc = chars_of(s.as_str());
                if !eq_chars(sc.as_slice(), unknown.as_slice()) {
                    let copy = string_of(sc.as_slice());
                    let ghost prev = r@;
                    r.push(copy);
                    proof {
                        assert(r@ == prev.push(copy));
                        assert(string_views(r@) =~= string_views(prev).push(copy@));
                    }
                }
            },
            None => {},
        }
        i = i + 1;
    }
    proof {
        assert(sv.take(i as int) =~= sv);
    }
    r
}

/// Extracts cross-references from the References section: the slugs of the
/// local markdown links `[Name](file.md)`, in order, those whose file stem
/// is missing or `unknown` left out. The stem of each portable link path is
/// `path_stem` of it; other paths split by the platform's own rules.
pub fn extract_references(content: &str) -> (r: Vec<String>)
    ensures
        exists|stems: Seq<Option<Seq<char>>>|
            {
                &&& stems.len() == reference_paths(content@).len()
                &&& forall|i: int|
                    0 <= i < stems.len() && portable_path(reference_paths(content@)[i])
                        ==> #[trigger] stems[i] == path_stem(reference_paths(content@)[i])
                &&& string_views(r@) == slugs_of_stems(stems)
            },
{
    let paths = reference_path_list(content);
    let ghost ps = reference_paths(content@);
    let mut stems: Vec<Option<String>> = Vec::new();
    let mut i: usize = 0;
    while i < paths.len()
        invariant
            0 <= i <= paths@.len(),
            string_views(paths@) == ps,
            stems@.len() == i,
            forall|j: int|
                0 <= j < i && portable_path(ps[j]) ==> opt_chars(#[trigger] stems@[j]) == path_stem(
                    ps[j],
                ),
        decreases paths@.len() - i,
    {
        let st = path_file_stem(paths[i].as_str());
        proof {
            assert(ps[i as int] == paths@[i as int]@);
        }
        stems.push(st);
        i = i + 1;
    }
    let r = slugs_from_stems(&stems);
    proof {
        let sv = stems@.map_values(|o: Option<String>| match o {
            Some(s) => Some(s@),
            None => None,
        });
        assert(sv.len() == ps.len());
        assert forall|j: int| 0 <= j < sv.len() && portable_path(ps[j]) implies #[trigger] sv[j]
            == path_stem(ps[j]) by {
            assert(opt_chars(stems@[j]) == path_stem(ps[j]));
        }
    }
    r
}

} // verus!
