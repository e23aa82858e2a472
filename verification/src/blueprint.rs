//! Editing a workload manifest's image tag in place, preserving every other
//! byte of the file — formatting and comments included.
//!
//! The manifest is treated line by line. An image line consists of optional
//! indentation, the literal `image:`, optional spaces, the base image
//! reference, a `:` or `@` delimiter, and a nonempty run of tag characters
//! (anything but white space and `#`); whatever follows the tag, such as a
//! trailing comment, is kept. Rewriting replaces the delimiter and tag with
//! `:` and the new tag on every matching line.

use vstd::prelude::*;
use crate::text;
use crate::text::is_space_char;

verus! {

/// Why a manifest edit can fail.
#[derive(Clone, Copy, PartialEq, Eq, Structural, Debug)]
pub enum BlueprintError {
    /// No line of the manifest holds `image:` followed by the base image.
    ImageLineNotFound,
}

/// The first position at or after `from` holding a character that is not
/// white space, or the end of `s`.
pub open spec fn skip_spaces(s: Seq<char>, from: int) -> int
    decreases s.len() - from,
{
    if from < s.len() && from >= 0 && is_space_char(s[from]) {
        skip_spaces(s, from + 1)
    } else {
        from
    }
}

/// The first position at or after `from` holding white space or `#`, or the
/// end of `s`: the end of a tag run starting at `from`.
pub open spec fn skip_tag_chars(s: Seq<char>, from: int) -> int
    decreases s.len() - from,
{
    if from < s.len() && from >= 0 && !is_space_char(s[from]) && s[from] != '#' {
        skip_tag_chars(s, from + 1)
    } else {
        from
    }
}

/// Parses one line as an image line for `base`. The result, when the line
/// matches, is the pair of the position of the delimiter (everything before
/// it is kept) and the position right after the old tag run (everything from
/// there on is kept).
pub open spec fn image_line_parts(line: Seq<char>, base: Seq<char>) -> Option<(int, int)> {
    let i1 = skip_spaces(line, 0);
    if i1 + 6 <= line.len() && line.subrange(i1, i1 + 6) == "image:"@ {
        let i2 = skip_spaces(line, i1 + 6);
        if i2 + base.len() <= line.len() && line.subrange(i2, i2 + base.len() as int) == base {
            let d = i2 + base.len() as int;
            if d < line.len() && (line[d] == ':' || line[d] == '@') {
                let t1 = skip_tag_chars(line, d + 1);
                if t1 > d + 1 {
                    Some((d, t1))
                } else {
                    None
                }
            } else {
                None
            }
        } else {
            None
        }
    } else {
        None
    }
}

/// Whether one line is an image line for `base`.
pub open spec fn line_matches(line: Seq<char>, base: Seq<char>) -> bool {
    image_line_parts(line, base) is Some
}

/// One line after the rewrite: a matching line keeps everything before the
/// delimiter and after the old tag, with `:` and the new tag in between; any
/// other line is untouched.
pub open spec fn rewrite_line_spec(line: Seq<char>, base: Seq<char>, new_tag: Seq<char>) -> Seq<
    char,
> {
    match image_line_parts(line, base) {
        Some(parts) => line.subrange(0, parts.0) + ":"@ + new_tag + line.subrange(
            parts.1,
            line.len() as int,
        ),
        None => line,
    }
}

/// The manifest's lines, split on `\n`; the separators themselves are not
/// kept, and joining the lines with `\n` restores the manifest.
pub open spec fn split_lines(s: Seq<char>) -> Seq<Seq<char>>
    decreases s.len(), via split_lines_decreases
{
    let h = text::head_before_first(s, '\n');
    if h.len() == s.len() {
        seq![s]
    } else {
        seq![h] + split_lines(s.subrange(h.len() as int + 1, s.len() as int))
    }
}

#[via_fn]
proof fn split_lines_decreases(s: Seq<char>) {
    text::lemma_head_before_first_props(s, '\n');
}

/// Whether any line of the manifest is an image line for `base`.
pub open spec fn any_line_matches(content: Seq<char>, base: Seq<char>) -> bool {
    exists|k: int|
        0 <= k < split_lines(content).len() && line_matches(split_lines(content)[k], base)
}

/// The whole manifest after the rewrite: every line rewritten, the line
/// structure kept.
pub open spec fn rewritten_content(
    content: Seq<char>,
    base: Seq<char>,
    new_tag: Seq<char>,
) -> Seq<char> {
    text::joined(
        split_lines(content).map_values(|l: Seq<char>| rewrite_line_spec(l, base, new_tag)),
        "\n"@,
    )
}

fn skip_spaces_exec(line: &str, from: usize) -> (r: usize)
    requires
        from <= line@.len(),
    ensures
        r == skip_spaces(line@, from as int),
        from <= r <= line@.len(),
{
    let len = line.unicode_len();
    let mut i: usize = from;
    while i < len && text::is_space(line.get_char(i))
        invariant
            len == line@.len(),
            from <= i <= len,
            skip_spaces(line@, from as int) == skip_spaces(line@, i as int),
        decreases len - i,
    {
        i = i + 1;
    }
    i
}

fn is_tag_char(c: char) -> (r: bool)
    ensures
        r == (!is_space_char(c) && c != '#'),
{
    !text::is_space(c) && c != '#'
}

fn skip_tag_chars_exec(line: &str, from: usize) -> (r: usize)
    requires
        from <= line@.len(),
    ensures
        r == skip_tag_chars(line@, from as int),
        from <= r <= line@.len(),
{
    let len = line.unicode_len();
    let mut i: usize = from;
    while i < len && is_tag_char(line.get_char(i))
        invariant
            len == line@.len(),
            from <= i <= len,
            skip_tag_chars(line@, from as int) == skip_tag_chars(line@, i as int),
        decreases len - i,
    {
        i = i + 1;
    }
    i
}

/// Rewrites one line, reporting whether it was an image line.
fn rewrite_line(line: &str, base: &str, new_tag: &str) -> (r: (String, bool))
    ensures
        r.0@ == rewrite_line_spec(line@, base@, new_tag@),
        r.1 == line_matches(line@, base@),
{
    let len = line.unicode_len();
    let base_len = base.unicode_len();
    let i1 = skip_spaces_exec(line, 0);
    if len < 6 || i1 > len - 6 {
        return (line.to_owned(), false);
    }
    if !text::str_eq(line.substring_char(i1, i1 + 6), "image:") {
        return (line.to_owned(), false);
    }
    let i2 = skip_spaces_exec(line, i1 + 6);
    if base_len > len || i2 > len - base_len {
        return (line.to_owned(), false);
    }
    if !text::str_eq(line.substring_char(i2, i2 + base_len), base) {
        return (line.to_owned(), false);
    }
    let d = i2 + base_len;
    if d >= len {
        return (line.to_owned(), false);
    }
    let delim = line.get_char(d);
    if !(delim == ':' || delim == '@') {
        return (line.to_owned(), false);
    }
    let t1 = skip_tag_chars_exec(line, d + 1);
    if t1 == d + 1 {
        return (line.to_owned(), false);
    }
    let mut out = line.substring_char(0, d).to_owned();
    out.append(":");
    out.append(new_tag);
    out.append(line.substring_char(t1, len));
    proof {
        assert(image_line_parts(line@, base@) == Some((d as int, t1 as int)));
    }
    (out, true)
}

/// Rewrites every line of the manifest, reporting whether any matched.
fn rewrite_all(content: &str, base: &str, new_tag: &str) -> (r: (String, bool))
    ensures
        r.0@ == rewritten_content(content@, base@, new_tag@),
        r.1 == any_line_matches(content@, base@),
    decreases content@.len(),
{
    let ghost lines = split_lines(content@);
    let ghost rewritten = lines.map_values(
        |l: Seq<char>| rewrite_line_spec(l, base@, new_tag@),
    );
    let len = content.unicode_len();
    let line = text::first_segment(content, '\n');
    proof {
        text::lemma_head_before_first_props(content@, '\n');
    }
    let line_len = line.unicode_len();
    let (mut out, matched) = rewrite_line(line, base, new_tag);
    if line_len == len {
        proof {
            assert(line@ =~= content@);
            assert(lines == seq![content@]);
            assert(rewritten =~= seq![rewrite_line_spec(content@, base@, new_tag@)]);
            assert(out@ == rewritten_content(content@, base@, new_tag@));
            if matched {
                assert(line_matches(lines[0], base@));
            }
            if any_line_matches(content@, base@) {
                let k = choose|k: int|
                    0 <= k < lines.len() && line_matches(lines[k], base@);
                assert(lines[k] == content@);
            }
        }
        (out, matched)
    } else {
        let rest = content.substring_char(line_len + 1, len);
        let (rest_out, rest_matched) = rewrite_all(rest, base, new_tag);
        out.append("\n");
        out.append(rest_out.as_str());
        let ghost rest_lines = split_lines(rest@);
        proof {
            assert(lines == seq![line@] + rest_lines);
            let f = |l: Seq<char>| rewrite_line_spec(l, base@, new_tag@);
            assert(rewritten =~= seq![f(line@)] + rest_lines.map_values(f));
            assert(rest_lines.len() >= 1);
            assert(rewritten.drop_first() =~= rest_lines.map_values(f));
            assert(rewritten[0] == f(line@));
            assert(out@ == f(line@) + "\n"@ + text::joined(rest_lines.map_values(f), "\n"@));
            assert(out@ == rewritten_content(content@, base@, new_tag@));
            assert((matched || rest_matched) == any_line_matches(content@, base@)) by {
                if matched {
                    assert(line_matches(lines[0], base@));
                }
                if rest_matched {
                    let k = choose|k: int|
                        0 <= k < rest_lines.len() && line_matches(rest_lines[k], base@);
                    assert(lines[k + 1] == rest_lines[k]);
                }
                if any_line_matches(content@, base@) {
                    let k = choose|k: int|
                        0 <= k < lines.len() && line_matches(lines[k], base@);
                    if k == 0 {
                        assert(line_matches(line@, base@));
                    } else {
                        assert(rest_lines[k - 1] == lines[k]);
                    }
                }
            }
        }
        (out, matched || rest_matched)
    }
}

/// Manifest editing.
pub struct Blueprint;

impl Blueprint {
    /// Replaces the tag of `base_image` throughout the manifest, preserving
    /// formatting and comments. Succeeds exactly when some line of the
    /// manifest is an image line for `base_image`; otherwise the manifest
    /// named no such image and nothing can be rewritten.
    pub fn update_image_tag(content: &str, base_image: &str, new_tag: &str) -> (r: Result<
        String,
        BlueprintError,
    >)
        ensures
            r is Ok <==> any_line_matches(content@, base_image@),
            r matches Ok(s) ==> s@ == rewritten_content(content@, base_image@, new_tag@),
            r matches Err(e) ==> e == BlueprintError::ImageLineNotFound,
    {
        let (out, matched) = rewrite_all(content, base_image, new_tag);
        if matched {
            Ok(out)
        } else {
            Err(BlueprintError::ImageLineNotFound)
        }
    }
}

} // verus!
