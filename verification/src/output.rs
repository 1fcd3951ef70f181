//! The text the command line shows for files and snapshots, line by line.
use vstd::prelude::*;
use vstd::string::StringSliceAdditionalSpecFns;
use vstd::utf8::encode_utf8;
use crate::text::{chars_of, owned, push_char, string_of};
use vstd::string::StringExecFns;

verus! {

/// How many characters of a snapshot's content a short preview keeps at most.
pub const CONTENT_PREVIEW_LIMIT: usize = 400;

/// `s` without its trailing newline characters.
pub open spec fn trim_trailing_newlines(s: Seq<char>) -> Seq<char>
    decreases s.len(),
{
    if s.len() > 0 && s.last() == '\n' {
        trim_trailing_newlines(s.drop_last())
    } else {
        s
    }
}

/// The length in bytes of the UTF-8 encoding of `s`, as `str::len` reports it.
pub open spec fn utf8_len(s: Seq<char>) -> usize {
    encode_utf8(s).len() as usize
}

/// `s` if its UTF-8 encoding is at most `max_len` bytes long; otherwise its
/// first `max_len` characters followed by `...`.
pub open spec fn clipped(s: Seq<char>, max_len: nat) -> Seq<char> {
    if utf8_len(s) <= max_len {
        s
    } else if max_len < s.len() {
        s.take(max_len as int) + "..."@
    } else {
        s + "..."@
    }
}

/// A short preview of a content: without trailing newlines,
/// `<empty>` where nothing is left, clipped to the preview limit.
pub open spec fn formatted_content(s: Seq<char>) -> Seq<char> {
    let t = trim_trailing_newlines(s);
    if t.len() == 0 {
        "<empty>"@
    } else {
        clipped(t, CONTENT_PREVIEW_LIMIT as nat)
    }
}

/// What one character becomes when a block is indented by two spaces.
pub open spec fn indent_piece(c: char) -> Seq<char> {
    if c == '\n' {
        seq!['\n', ' ', ' ']
    } else {
        seq![c]
    }
}

/// `s` with every newline followed by two spaces.
pub open spec fn indent_after_newlines(s: Seq<char>) -> Seq<char>
    decreases s.len(),
{
    if s.len() == 0 {
        Seq::empty()
    } else {
        indent_after_newlines(s.drop_last()) + indent_piece(s.last())
    }
}

/// The lines that describe a tracked file.
pub open spec fn file_info_text(file_id: Seq<char>, file_path: Seq<char>) -> Seq<Seq<char>> {
    seq!["[file]"@, "id: "@ + file_id, "path: "@ + file_path]
}

/// The lines that describe a snapshot; with `verbose`, its full content too,
/// every line of it indented by two spaces.
pub open spec fn snapshot_info_text(
    id: Seq<char>,
    date: Seq<char>,
    content: Seq<char>,
    verbose: bool,
) -> Seq<Seq<char>> {
    let head = seq!["[snapshot]"@, "id: "@ + id, "time: "@ + date];
    if verbose {
        head + seq!["content:"@, "  "@ + indent_after_newlines(content)]
    } else {
        head
    }
}

/// The lines that describe the two snapshots of a diff: the file, then both
/// snapshots with their content.
pub open spec fn diff_info_text(
    file_id: Seq<char>,
    file_path: Seq<char>,
    from_id: Seq<char>,
    from_date: Seq<char>,
    from_content: Seq<char>,
    to_id: Seq<char>,
    to_date: Seq<char>,
    to_content: Seq<char>,
) -> Seq<Seq<char>> {
    file_info_text(file_id, file_path) + snapshot_info_text(from_id, from_date, from_content, true)
        + snapshot_info_text(to_id, to_date, to_content, true)
}

/// The lines that report a rollback.
pub open spec fn rollback_info_text(
    file_id: Seq<char>,
    file_path: Seq<char>,
    snapshot_id: Seq<char>,
) -> Seq<Seq<char>> {
    seq!["[rollback]"@, "id: "@ + file_id, "path: "@ + file_path, "snapshot: "@ + snapshot_id]
}

/// The text of each line.
pub open spec fn lines_text(lines: Seq<String>) -> Seq<Seq<char>> {
    lines.map_values(|l: String| l@)
}

/// What is left after trimming does not end with a newline.
pub proof fn lemma_trimmed_has_no_trailing_newline(s: Seq<char>)
    ensures
        trim_trailing_newlines(s).len() > 0 ==> trim_trailing_newlines(s).last() != '\n',
        trim_trailing_newlines(s).len() <= s.len(),
    decreases s.len(),
{
    if s.len() > 0 && s.last() == '\n' {
        lemma_trimmed_has_no_trailing_newline(s.drop_last());
    }
}

/// Clipping leaves a text whose encoding fits the limit unchanged, and
/// otherwise keeps at most `max_len` characters followed by `...`.
pub proof fn lemma_clipped_shape(s: Seq<char>, max_len: nat)
    ensures
        utf8_len(s) <= max_len ==> clipped(s, max_len) == s,
        utf8_len(s) > max_len ==> clipped(s, max_len).len() <= max_len + 3
            || clipped(s, max_len).len() == s.len() + 3,
        utf8_len(s) > max_len ==> clipped(s, max_len).len() >= 3,
{
    reveal_strlit("...");
}

/// A preview always shows something for a content.
pub proof fn lemma_formatted_content_not_empty(s: Seq<char>)
    ensures
        formatted_content(s).len() > 0,
{
    reveal_strlit("<empty>");
    reveal_strlit("...");
}

proof fn lemma_trim_prefix(s: Seq<char>, end: int)
    requires
        0 < end <= s.len(),
        s[end - 1] == '\n',
    ensures
        trim_trailing_newlines(s.take(end)) == trim_trailing_newlines(s.take(end - 1)),
{
    assert(s.take(end).drop_last() =~= s.take(end - 1));
}

/// `content` without its trailing newline characters.
pub fn trim_newlines_end(content: &str) -> (r: String)
    ensures
        r@ == trim_trailing_newlines(content@),
{
    let cs = chars_of(content);
    let mut end = cs.len();
    assert(cs@.take(end as int) =~= cs@);
    while end > 0 && cs[end - 1] == '\n'
        invariant
            end <= cs@.len(),
            trim_trailing_newlines(cs@.take(end as int)) == trim_trailing_newlines(cs@),
        decreases end,
    {
        proof {
            lemma_trim_prefix(cs@, end as int);
        }
        end = end - 1;
    }
    assert(trim_trailing_newlines(cs@.take(end as int)) == cs@.take(end as int));
    string_of(&cs, end)
}

/// Shortens `content` to `max_len` characters and `...` when its UTF-8
/// encoding is longer than `max_len` bytes.
pub fn clip_content(content: &str, max_len: usize) -> (r: String)
    ensures
        r@ == clipped(content@, max_len as nat),
{
    let byte_len = content.len();
    assert(byte_len == utf8_len(content@)) by {
        assert(content.spec_bytes() == encode_utf8(content@));
    }
    if byte_len <= max_len {
        return owned(content);
    }
    let cs = chars_of(content);
    let keep = if max_len < cs.len() {
        max_len
    } else {
        cs.len()
    };
    let mut clipped_text = string_of(&cs, keep);
    clipped_text.append("...");
    assert(cs@.take(cs@.len() as int) =~= cs@);
    clipped_text
}

/// A short preview of a content: trimmed, `<empty>` when blank, clipped.
pub fn format_content(content: &str) -> (r: String)
    ensures
        r@ == formatted_content(content@),
{
    let trimmed = trim_newlines_end(content);
    if trimmed.as_str().is_empty() {
        return owned("<empty>");
    }
    clip_content(trimmed.as_str(), CONTENT_PREVIEW_LIMIT)
}

/// `content` with every newline followed by two spaces.
pub fn indent_content(content: &str) -> (r: String)
    ensures
        r@ == indent_after_newlines(content@),
{
    let cs = chars_of(content);
    let mut r = String::new();
    let mut i: usize = 0;
    while i < cs.len()
        invariant
            i <= cs@.len(),
            r@ == indent_after_newlines(cs@.take(i as int)),
        decreases cs@.len() - i,
    {
        let c = cs[i];
        if c == '\n' {
            r.append("\n  ");
        } else {
            push_char(&mut r, c);
        }
        assert(cs@.take(i + 1).drop_last() =~= cs@.take(i as int));
        proof {
            reveal_strlit("\n  ");
            assert(indent_piece(c) =~= (if c == '\n' { "\n  "@ } else { seq![c] }));
        }
        i = i + 1;
    }
    assert(cs@.take(cs@.len() as int) =~= cs@);
    r
}

/// `prefix` followed by `rest`, as a new string.
fn joined(prefix: &str, rest: &str) -> (r: String)
    ensures
        r@ == prefix@ + rest@,
{
    let mut r = owned(prefix);
    r.append(rest);
    r
}

/// The lines that describe a tracked file.
pub fn file_info_lines(file_id: &str, file_path: &str) -> (r: Vec<String>)
    ensures
        lines_text(r@) == file_info_text(file_id@, file_path@),
{
    let mut r: Vec<String> = Vec::new();
    r.push(owned("[file]"));
    r.push(joined("id: ", file_id));
    r.push(joined("path: ", file_path));
    assert(lines_text(r@) =~= file_info_text(file_id@, file_path@));
    r
}

/// The lines that describe a snapshot; with `verbose`, its full content too.
pub fn snapshot_info_lines(
    snapshot_id: &str,
    snapshot_date: &str,
    snapshot_content: &str,
    verbose: bool,
) -> (r: Vec<String>)
    ensures
        lines_text(r@) == snapshot_info_text(
            snapshot_id@,
            snapshot_date@,
            snapshot_content@,
            verbose,
        ),
{
    let mut r: Vec<String> = Vec::new();
    r.push(owned("[snapshot]"));
    r.push(joined("id: ", snapshot_id));
    r.push(joined("time: ", snapshot_date));
    if verbose {
        let indented = indent_content(snapshot_content);
        r.push(owned("content:"));
        r.push(joined("  ", indented.as_str()));
    }
    assert(lines_text(r@) =~= snapshot_info_text(
        snapshot_id@,
        snapshot_date@,
        snapshot_content@,
        verbose,
    ));
    r
}

/// The lines that describe the two snapshots of a diff.
pub fn diff_info_lines(
    file_id: &str,
    file_path: &str,
    from_id: &str,
    from_date: &str,
    from_content: &str,
    to_id: &str,
    to_date: &str,
    to_content: &str,
) -> (r: Vec<String>)
    ensures
        lines_text(r@) == diff_info_text(
            file_id@,
            file_path@,
            from_id@,
            from_date@,
            from_content@,
            to_id@,
            to_date@,
            to_content@,
        ),
{
    let mut r = file_info_lines(file_id, file_path);
    let mut from = snapshot_info_lines(from_id, from_date, from_content, true);
    let mut to = snapshot_info_lines(to_id, to_date, to_content, true);
    let ghost a = r@;
    let ghost b = from@;
    let ghost c = to@;
    r.append(&mut from);
    r.append(&mut to);
    assert(r@ =~= a + b + c);
    assert(lines_text(a + b + c) =~= lines_text(a) + lines_text(b) + lines_text(c));
    r
}

/// The lines that report a rollback.
pub fn rollback_info_lines(file_id: &str, file_path: &str, snapshot_id: &str) -> (r: Vec<String>)
    ensures
        lines_text(r@) == rollback_info_text(file_id@, file_path@, snapshot_id@),
{
    let mut r: Vec<String> = Vec::new();
    r.push(owned("[rollback]"));
    r.push(joined("id: ", file_id));
    r.push(joined("path: ", file_path));
    r.push(joined("snapshot: ", snapshot_id));
    assert(lines_text(r@) =~= rollback_info_text(file_id@, file_path@, snapshot_id@));
    r
}

} // verus!
