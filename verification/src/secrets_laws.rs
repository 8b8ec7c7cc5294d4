//! Laws of the secrets file format.

use vstd::prelude::*;

use crate::secrets_file::{
    blank_line, body_from, body_start, comment_line, file_contents, generated_name,
    lemma_run_end_bounds, line_from, location_at, mount_line, name_end, run_end, secret_line,
    secret_under, skip_lines, underscored, upper_case, version_line, version_start,
};
use crate::secrets_file::{CharClass, SecretLineView, SecretView};
use crate::text::{ascii_space, ascii_upper, law_trimmed, trimmed, trims_to, white_space};

verus! {

/// Whether a text can be the name of a mount, a path or a key.
pub open spec fn part_text(s: Seq<char>) -> bool {
    s.len() > 0 && forall|i: int| 0 <= i < s.len() ==> CharClass::Part.holds(#[trigger] s[i])
}

/// Whether a text can be a variable name.
pub open spec fn name_text(s: Seq<char>) -> bool {
    &&& s.len() > 0
    &&& CharClass::NameStart.holds(s[0])
    &&& forall|i: int| 1 <= i < s.len() ==> CharClass::NameRest.holds(#[trigger] s[i])
}

/// Every character of a run is of its class.
proof fn lemma_run_chars(s: Seq<char>, from: int, class: CharClass)
    requires
        0 <= from,
    ensures
        forall|i: int| from <= i < run_end(s, from, class) ==> class.holds(#[trigger] s[i]),
    decreases s.len() - from,
{
    if from < s.len() && class.holds(s[from]) {
        lemma_run_chars(s, from + 1, class);
    }
}

/// A run goes as far as its characters are of the class.
pub proof fn lemma_run_to(s: Seq<char>, from: int, to: int, class: CharClass)
    requires
        0 <= from <= to <= s.len(),
        forall|i: int| from <= i < to ==> class.holds(#[trigger] s[i]),
        to < s.len() ==> !class.holds(s[to]),
    ensures
        run_end(s, from, class) == to,
    decreases to - from,
{
    if from < to {
        lemma_run_to(s, from + 1, to, class);
    }
}

/// What stands before a run does not matter to it.
pub proof fn lemma_run_shift(head: Seq<char>, tail: Seq<char>, from: int, class: CharClass)
    requires
        0 <= from <= tail.len(),
    ensures
        run_end(head + tail, head.len() + from, class) == head.len() + run_end(tail, from, class),
    decreases tail.len() - from,
{
    if from < tail.len() {
        assert((head + tail)[head.len() + from] == tail[from]);
        if class.holds(tail[from]) {
            lemma_run_shift(head, tail, from + 1, class);
        }
    }
}

/// What stands before lines does not matter to them.
proof fn lemma_body_shift(head: Seq<char>, tail: Seq<char>, from: int, mount: Option<Seq<char>>)
    requires
        0 <= from <= tail.len(),
    ensures
        body_from(head + tail, head.len() + from, mount).secrets == body_from(
            tail,
            from,
            mount,
        ).secrets,
        body_from(head + tail, head.len() + from, mount).stop == head.len() + body_from(
            tail,
            from,
            mount,
        ).stop,
    decreases tail.len() - from,
{
    let text = head + tail;
    let start = head.len() + from;
    let end = run_end(tail, from, CharClass::InLine);
    lemma_run_shift(head, tail, from, CharClass::InLine);
    lemma_run_end_bounds(tail, from, CharClass::InLine);
    let line = line_from(tail, from);
    assert(line_from(text, start) =~= line);
    if end < tail.len() {
        if blank_line(line) || comment_line(line) {
            lemma_body_shift(head, tail, end + 1, mount);
        } else if mount is Some && secret_line(line) is Some {
            lemma_body_shift(head, tail, end + 1, mount);
        } else if mount_line(line) is Some {
            lemma_body_shift(head, tail, end + 1, mount_line(line));
        }
    }
}

/// The first line of a text that starts with a line and a line feed.
pub proof fn lemma_first_line(line: Seq<char>, rest: Seq<char>)
    requires
        !line.contains('\n'),
    ensures
        run_end(line + seq!['\n'] + rest, 0, CharClass::InLine) == line.len(),
        line_from(line + seq!['\n'] + rest, 0) == line,
{
    let text = line + seq!['\n'] + rest;
    assert forall|i: int| 0 <= i < line.len() implies CharClass::InLine.holds(
        #[trigger] text[i],
    ) by {
        assert(text[i] == line[i]);
        assert(line.contains(line[i]));
    }
    assert(text[line.len() as int] == '\n');
    lemma_run_to(text, 0, line.len() as int, CharClass::InLine);
    assert(line_from(text, 0) =~= line);
}

/// A blank line or a comment changes nothing of what the lines below it say.
pub proof fn law_notes_do_not_matter(line: Seq<char>, rest: Seq<char>, mount: Option<Seq<char>>)
    requires
        !line.contains('\n'),
        blank_line(line) || comment_line(line),
    ensures
        body_from(line + seq!['\n'] + rest, 0, mount).secrets == body_from(rest, 0, mount).secrets,
        body_from(line + seq!['\n'] + rest, 0, mount).stop == line.len() + 1 + body_from(
            rest,
            0,
            mount,
        ).stop,
{
    lemma_first_line(line, rest);
    lemma_body_shift(line + seq!['\n'], rest, 0, mount);
}

/// A line that asks for a secret, as one writes it.
pub open spec fn secret_text(said: SecretLineView) -> Seq<char> {
    match said.name {
        Some(name) => name + seq!['='] + said.path + seq!['#'] + said.key,
        None => said.path + seq!['#'] + said.key,
    }
}

/// Whether the parts of a secret line can stand in one.
pub open spec fn secret_line_valid(said: SecretLineView) -> bool {
    &&& said.name matches Some(name) ==> name_text(name)
    &&& part_text(said.path)
    &&& part_text(said.key)
}

/// The path and the key of a secret are read as they are written.
proof fn lemma_location(line: Seq<char>, name: Option<Seq<char>>, start: int, said: SecretLineView)
    requires
        0 <= start,
        part_text(said.path),
        part_text(said.key),
        line.len() == start + said.path.len() + 1 + said.key.len(),
        line.subrange(start, start + said.path.len()) == said.path,
        line[start + said.path.len()] == '#',
        line.skip(start + said.path.len() + 1) == said.key,
    ensures
        location_at(line, name, start) == Some(
            SecretLineView { name, path: said.path, key: said.key },
        ),
{
    let mark = start + said.path.len();
    assert forall|i: int| start <= i < mark implies CharClass::Part.holds(#[trigger] line[i]) by {
        assert(line[i] == said.path[i - start]);
    }
    lemma_run_to(line, start, mark, CharClass::Part);
    lemma_run_to(line, mark, mark, CharClass::Spacing);
    assert forall|i: int| mark + 1 <= i < line.len() implies CharClass::Part.holds(
        #[trigger] line[i],
    ) by {
        assert(line[i] == said.key[i - mark - 1]);
    }
    lemma_run_to(line, mark + 1, mark + 1, CharClass::Spacing);
    lemma_run_to(line, mark + 1, line.len() as int, CharClass::Part);
    assert(line.subrange(mark + 1, line.len() as int) =~= said.key);
}

/// A secret line says what was written.
pub proof fn law_secret_line(said: SecretLineView)
    requires
        secret_line_valid(said),
    ensures
        secret_line(secret_text(said)) == Some(said),
        !blank_line(secret_text(said)),
        !comment_line(secret_text(said)),
        !secret_text(said).contains('\n'),
{
    let line = secret_text(said);
    let named = match said.name {
        Some(name) => name.len() as int + 1,
        None => 0,
    };
    let mark = named + said.path.len();
    assert forall|i: int| named <= i < mark implies line[i] == said.path[i - named] by {}
    assert forall|i: int| mark < i < line.len() implies line[i] == said.key[i - mark - 1] by {}
    assert(line[mark] == '#');
    assert(line.subrange(named, mark) =~= said.path);
    assert(line.skip(mark + 1) =~= said.key);
    match said.name {
        Some(name) => {
            assert forall|i: int| 0 <= i < name.len() implies line[i] == name[i] by {}
            assert(line[name.len() as int] == '=');
            lemma_run_to(line, 0, 0, CharClass::Spacing);
            lemma_run_to(line, 1, name.len() as int, CharClass::NameRest);
            assert(line[named] == said.path[0]);
            lemma_run_to(line, named, named, CharClass::Spacing);
            assert(line.subrange(0, name.len() as int) =~= name);
            lemma_location(line, Some(name), named, said);
        },
        None => {
            assert(line[0] == said.path[0]);
            lemma_run_to(line, 0, 0, CharClass::Spacing);
            let end = run_end(line, 1, CharClass::NameRest);
            lemma_run_end_bounds(line, 1, CharClass::NameRest);
            if end < line.len() {
                assert(line[end] != '=') by {
                    if end < mark {
                        assert(line[end] == said.path[end]);
                    } else if end > mark {
                        assert(line[end] == said.key[end - mark - 1]);
                    }
                }
            }
            lemma_location(line, None, 0, said);
        },
    }
    assert forall|i: int| 0 <= i < line.len() implies line[i] != '\n' by {
        if i < named {
        } else if i < mark {
            assert(line[i] == said.path[i - named]);
        } else if i > mark {
            assert(line[i] == said.key[i - mark - 1]);
        }
    }
}

/// A mount line, as one writes it.
pub open spec fn mount_text(mount: Seq<char>) -> Seq<char> {
    "MOUNT "@ + mount
}

/// A mount line says what was written, and cannot be taken for anything else.
pub proof fn law_mount_line(mount: Seq<char>)
    requires
        part_text(mount),
    ensures
        mount_line(mount_text(mount)) == Some(mount),
        secret_line(mount_text(mount)) is None,
        !blank_line(mount_text(mount)),
        !comment_line(mount_text(mount)),
        !mount_text(mount).contains('\n'),
{
    reveal_strlit("MOUNT ");
    reveal_strlit("MOUNT");
    let line = mount_text(mount);
    assert forall|i: int| 6 <= i < line.len() implies line[i] == mount[i - 6] by {}
    lemma_run_to(line, 0, 0, CharClass::Spacing);
    assert(line.subrange(0, 5) =~= "MOUNT"@);
    assert(line[6] == mount[0]);
    lemma_run_to(line, 5, 6, CharClass::Spacing);
    lemma_run_to(line, 6, line.len() as int, CharClass::Part);
    assert(line.subrange(6, line.len() as int) =~= mount);
    lemma_run_to(line, 1, 5, CharClass::NameRest);
    lemma_run_to(line, 0, 5, CharClass::Part);
    assert forall|i: int| 0 <= i < line.len() implies line[i] != '\n' by {
        if i >= 6 {
            assert(line[i] == mount[i - 6]);
        }
    }
}

/// A line of a secrets file below the version header.
pub enum FileLine {
    /// The mount of the secrets below.
    Mount(Seq<char>),
    /// A secret.
    Secret(SecretLineView),
    /// A blank line or a comment.
    Note(Seq<char>),
}

impl FileLine {
    /// The line as one writes it.
    pub open spec fn text(self) -> Seq<char> {
        match self {
            FileLine::Mount(mount) => mount_text(mount),
            FileLine::Secret(said) => secret_text(said),
            FileLine::Note(text) => text,
        }
    }

    /// Whether the line can be written so.
    pub open spec fn valid(self) -> bool {
        match self {
            FileLine::Mount(mount) => part_text(mount),
            FileLine::Secret(said) => secret_line_valid(said),
            FileLine::Note(text) => !text.contains('\n') && (blank_line(text) || comment_line(
                text,
            )),
        }
    }
}

/// The text of lines.
pub open spec fn written(lines: Seq<FileLine>) -> Seq<char>
    decreases lines.len(),
{
    if lines.len() == 0 {
        Seq::empty()
    } else {
        lines[0].text() + seq!['\n'] + written(lines.drop_first())
    }
}

/// The secrets that lines ask for below a mount.
pub open spec fn asked_for(lines: Seq<FileLine>, mount: Option<Seq<char>>) -> Seq<SecretView>
    decreases lines.len(),
{
    if lines.len() == 0 {
        Seq::empty()
    } else {
        let rest = lines.drop_first();
        match lines[0] {
            FileLine::Mount(name) => asked_for(rest, Some(name)),
            FileLine::Secret(said) => seq![secret_under(mount->0, said)] + asked_for(rest, mount),
            FileLine::Note(_) => asked_for(rest, mount),
        }
    }
}

/// Whether no secret stands before the first mount.
pub open spec fn mounted(lines: Seq<FileLine>, mount: Option<Seq<char>>) -> bool
    decreases lines.len(),
{
    lines.len() == 0 || match lines[0] {
        FileLine::Mount(name) => mounted(lines.drop_first(), Some(name)),
        FileLine::Secret(_) => mount is Some && mounted(lines.drop_first(), mount),
        FileLine::Note(_) => mounted(lines.drop_first(), mount),
    }
}

/// Lines are read to their end, and say what was written.
proof fn lemma_written_body(lines: Seq<FileLine>, mount: Option<Seq<char>>)
    requires
        forall|i: int| 0 <= i < lines.len() ==> (#[trigger] lines[i]).valid(),
        mounted(lines, mount),
    ensures
        body_from(written(lines), 0, mount).secrets == asked_for(lines, mount),
        body_from(written(lines), 0, mount).stop == written(lines).len(),
    decreases lines.len(),
{
    if lines.len() > 0 {
        let line = lines[0].text();
        let rest = lines.drop_first();
        let head = line + seq!['\n'];
        assert(lines[0].valid());
        assert forall|i: int| 0 <= i < rest.len() implies (#[trigger] rest[i]).valid() by {
            assert(lines[i + 1].valid());
        }
        match lines[0] {
            FileLine::Mount(name) => {
                law_mount_line(name);
                lemma_first_line(line, written(rest));
                lemma_body_shift(head, written(rest), 0, Some(name));
                lemma_written_body(rest, Some(name));
            },
            FileLine::Secret(said) => {
                law_secret_line(said);
                lemma_first_line(line, written(rest));
                lemma_body_shift(head, written(rest), 0, mount);
                lemma_written_body(rest, mount);
            },
            FileLine::Note(_) => {
                law_notes_do_not_matter(line, written(rest), mount);
                lemma_written_body(rest, mount);
            },
        }
    } else {
        lemma_run_to(written(lines), 0, 0, CharClass::InLine);
        lemma_run_to(line_from(written(lines), 0), 0, 0, CharClass::Spacing);
    }
}

/// The version header, as one writes it, with its line feed.
pub open spec fn header() -> Seq<char> {
    "VERSION 2"@ + seq!['\n']
}

/// What the lines below the version header say: their secrets in order, or why
/// they cannot be read.
pub open spec fn lines_contents(lines: Seq<char>) -> Result<Seq<SecretView>, Seq<char>> {
    let body = body_from(lines, 0, None);
    let rest = trimmed(lines.skip(body.stop));
    if rest.len() == 0 {
        Ok(body.secrets)
    } else {
        Err("unexpected trailing content after parse: "@ + rest)
    }
}

/// Reading stops within the text.
proof fn lemma_body_stop(text: Seq<char>, from: int, mount: Option<Seq<char>>)
    requires
        0 <= from <= text.len(),
    ensures
        from <= body_from(text, from, mount).stop <= text.len(),
    decreases text.len() - from,
{
    let end = run_end(text, from, CharClass::InLine);
    lemma_run_end_bounds(text, from, CharClass::InLine);
    let line = line_from(text, from);
    if end < text.len() {
        if blank_line(line) || comment_line(line) {
            lemma_body_stop(text, end + 1, mount);
        } else if mount is Some && secret_line(line) is Some {
            lemma_body_stop(text, end + 1, mount);
        } else if mount_line(line) is Some {
            lemma_body_stop(text, end + 1, mount_line(line));
        }
    }
}

/// A file with the version header says what the lines below it say.
pub proof fn law_headed_file(lines: Seq<char>)
    ensures
        file_contents(header() + lines) == lines_contents(lines),
{
    reveal_strlit("VERSION 2");
    reveal_strlit("VERSION");
    reveal_strlit("2");
    let line = "VERSION 2"@;
    let text = header() + lines;
    assert(!line.contains('\n'));
    lemma_first_line(line, lines);
    lemma_run_to(line, 0, 0, CharClass::Spacing);
    assert(line.subrange(0, 7) =~= "VERSION"@);
    lemma_run_to(line, 7, 8, CharClass::Spacing);
    assert(line.subrange(8, 9) =~= "2"@);
    lemma_run_to(line, 9, 9, CharClass::Spacing);
    assert(version_line(line));
    assert(line.len() == 9);
    assert(seq!['\r'].len() == 1);
    assert(version_start(text) == 0);
    assert(body_start(text) == Some(10int));
    lemma_body_shift(header(), lines, 0, None);
    lemma_body_stop(lines, 0, None);
    let stop = body_from(lines, 0, None).stop;
    assert(text.skip(10 + stop) =~= lines.skip(stop));
}

/// What is written to a secrets file is read from it: the version header, and
/// below it any mounts, secrets, blank lines and comments, ask for exactly the
/// secrets that stand there, each under the mount above it.
pub proof fn law_written_file_is_read(lines: Seq<FileLine>)
    requires
        forall|i: int| 0 <= i < lines.len() ==> (#[trigger] lines[i]).valid(),
        mounted(lines, None),
    ensures
        file_contents(header() + written(lines)) == Ok::<Seq<SecretView>, Seq<char>>(
            asked_for(lines, None),
        ),
{
    law_headed_file(written(lines));
    lemma_written_body(lines, None);
    let rest = written(lines).skip(written(lines).len() as int);
    assert(rest.len() == 0);
    assert(trimmed(rest).len() == 0);
}

/// A mount line is never a secret line.
proof fn lemma_mount_is_no_secret(line: Seq<char>)
    requires
        mount_line(line) is Some,
    ensures
        secret_line(line) is None,
{
    reveal_strlit("MOUNT");
    let word = run_end(line, 0, CharClass::Spacing);
    lemma_run_end_bounds(line, 0, CharClass::Spacing);
    lemma_run_chars(line, 0, CharClass::Spacing);
    let gap = word + 5;
    let start = run_end(line, gap, CharClass::Spacing);
    lemma_run_end_bounds(line, gap, CharClass::Spacing);
    lemma_run_chars(line, gap, CharClass::Spacing);
    let end = run_end(line, start, CharClass::Part);
    lemma_run_end_bounds(line, start, CharClass::Part);
    lemma_run_chars(line, start, CharClass::Part);
    lemma_run_chars(line, end, CharClass::Spacing);
    assert forall|i: int| 0 <= i < line.len() implies #[trigger] line[i] != '#' by {
        if word <= i < gap {
            assert(line[i] == line.subrange(word, gap)[i - word]);
        }
    }
    if secret_line(line) is Some {
        lemma_secret_line_mark(line);
    }
}

/// A secret line holds the mark between the path and the key.
proof fn lemma_secret_line_mark(line: Seq<char>)
    requires
        secret_line(line) is Some,
    ensures
        exists|i: int| 0 <= i < line.len() && #[trigger] line[i] == '#',
{
    let first = run_end(line, 0, CharClass::Spacing);
    lemma_run_end_bounds(line, 0, CharClass::Spacing);
    let start = match name_end(line, first) {
        Some(end) => {
            lemma_run_end_bounds(line, first + 1, CharClass::NameRest);
            lemma_run_end_bounds(line, end + 1, CharClass::Spacing);
            run_end(line, end + 1, CharClass::Spacing)
        },
        None => first,
    };
    let path_end = run_end(line, start, CharClass::Part);
    lemma_run_end_bounds(line, start, CharClass::Part);
    let mark = run_end(line, path_end, CharClass::Spacing);
    lemma_run_end_bounds(line, path_end, CharClass::Spacing);
    assert(line[mark] == '#');
}

/// A text of which trimming leaves nothing is white space.
proof fn lemma_trimmed_away(s: Seq<char>)
    requires
        trimmed(s).len() == 0,
    ensures
        forall|i: int| 0 <= i < s.len() ==> white_space(#[trigger] s[i]),
{
    law_trimmed(s);
    let (start, end) = choose|start: int, end: int| #[trigger] trims_to(s, start, end);
    assert(s.subrange(start, end).len() == end - start);
}

/// Lines that can be read without a mount above them take none: they say the
/// same below any mount.
proof fn lemma_mount_above(text: Seq<char>, from: int, mount: Option<Seq<char>>)
    requires
        0 <= from <= text.len(),
        trimmed(text.skip(body_from(text, from, None).stop)).len() == 0,
    ensures
        body_from(text, from, mount) == body_from(text, from, None),
    decreases text.len() - from,
{
    let end = run_end(text, from, CharClass::InLine);
    lemma_run_end_bounds(text, from, CharClass::InLine);
    let line = line_from(text, from);
    if end < text.len() {
        if blank_line(line) || comment_line(line) {
            assert(body_from(text, from, None) == body_from(text, end + 1, None));
            lemma_mount_above(text, end + 1, mount);
        } else if mount_line(line) is Some {
            lemma_mount_is_no_secret(line);
        } else if secret_line(line) is Some {
            assert(body_from(text, from, None).stop == from);
            lemma_trimmed_away(text.skip(from));
            lemma_secret_line_mark(line);
            let i = choose|i: int| 0 <= i < line.len() && #[trigger] line[i] == '#';
            assert(text.skip(from)[i] == line[i]);
        }
    }
}

/// A run that ends within a text ends there whatever follows the text.
proof fn lemma_run_prefix(head: Seq<char>, tail: Seq<char>, from: int, class: CharClass)
    requires
        0 <= from,
        run_end(head, from, class) < head.len(),
    ensures
        run_end(head + tail, from, class) == run_end(head, from, class),
    decreases head.len() - from,
{
    lemma_run_end_bounds(head, from, class);
    assert((head + tail)[from] == head[from]);
    if class.holds(head[from]) {
        lemma_run_prefix(head, tail, from + 1, class);
    }
}

/// A line before a line feed ends within the text.
proof fn lemma_line_ends(text: Seq<char>, from: int)
    requires
        0 <= from < text.len(),
        text.last() == '\n',
    ensures
        run_end(text, from, CharClass::InLine) < text.len(),
    decreases text.len() - from,
{
    if text[from] != '\n' {
        lemma_line_ends(text, from + 1);
    }
}

/// Lines behind lines say what each of them say.
proof fn lemma_body_concat(a: Seq<char>, b: Seq<char>, from: int, mount: Option<Seq<char>>)
    requires
        0 <= from <= a.len(),
        a.len() > 0 ==> a.last() == '\n',
        forall|i: int| 0 <= i < a.len() && white_space(#[trigger] a[i]) ==> ascii_space(a[i]),
        trimmed(a.skip(body_from(a, from, mount).stop)).len() == 0,
        trimmed(b.skip(body_from(b, 0, None).stop)).len() == 0,
    ensures
        body_from(a + b, from, mount).secrets == body_from(a, from, mount).secrets + body_from(
            b,
            0,
            None,
        ).secrets,
        body_from(a + b, from, mount).stop == a.len() + body_from(b, 0, None).stop,
    decreases a.len() - from,
{
    if from == a.len() {
        lemma_body_shift(a, b, 0, mount);
        lemma_mount_above(b, 0, mount);
        lemma_run_end_bounds(a, from, CharClass::InLine);
        assert(body_from(a, from, mount).secrets =~= Seq::empty());
        assert(Seq::<SecretView>::empty() + body_from(b, 0, None).secrets =~= body_from(
            b,
            0,
            None,
        ).secrets);
    } else {
        lemma_line_ends(a, from);
        lemma_run_prefix(a, b, from, CharClass::InLine);
        lemma_run_end_bounds(a, from, CharClass::InLine);
        let end = run_end(a, from, CharClass::InLine);
        let line = line_from(a, from);
        assert(line_from(a + b, from) =~= line);
        if blank_line(line) || comment_line(line) {
            assert(body_from(a, from, mount) == body_from(a, end + 1, mount));
            assert(body_from(a + b, from, mount) == body_from(a + b, end + 1, mount));
            lemma_body_concat(a, b, end + 1, mount);
        } else if mount is Some && secret_line(line) is Some {
            lemma_body_concat(a, b, end + 1, mount);
            let secret = secret_under(mount->0, secret_line(line)->0);
            let more = body_from(a, end + 1, mount).secrets;
            let behind = body_from(b, 0, None).secrets;
            assert(seq![secret] + (more + behind) =~= (seq![secret] + more) + behind);
        } else if mount_line(line) is Some {
            let below = mount_line(line);
            assert(body_from(a, from, mount) == body_from(a, end + 1, below));
            assert(body_from(a + b, from, mount) == body_from(a + b, end + 1, below));
            lemma_body_concat(a, b, end + 1, below);
        } else {
            assert(body_from(a, from, mount).stop == from);
            lemma_trimmed_away(a.skip(from));
            lemma_run_chars(a, from, CharClass::InLine);
            assert forall|i: int| 0 <= i < line.len() implies CharClass::Spacing.holds(
                #[trigger] line[i],
            ) by {
                assert(a.skip(from)[i] == line[i]);
                assert(a[from + i] == line[i]);
            }
            lemma_run_to(line, 0, line.len() as int, CharClass::Spacing);
        }
    }
}

/// Lines are read independently of those above them: where some lines can be
/// read behind the version header, and others can, then the others can be read
/// behind them, and say the same there. No secret of the others is taken to be
/// under a mount of the lines above.
///
/// The lines above are whole, and hold no white space but [`ascii_space`]: a
/// line of other white space can only stand at the end of a file.
pub proof fn law_lines_are_independent(
    a: Seq<char>,
    b: Seq<char>,
    x: Seq<SecretView>,
    y: Seq<SecretView>,
)
    requires
        a.len() > 0 ==> a.last() == '\n',
        forall|i: int| 0 <= i < a.len() && white_space(#[trigger] a[i]) ==> ascii_space(a[i]),
        file_contents(header() + a) == Ok::<Seq<SecretView>, Seq<char>>(x),
        file_contents(header() + b) == Ok::<Seq<SecretView>, Seq<char>>(y),
    ensures
        file_contents(header() + a + b) == Ok::<Seq<SecretView>, Seq<char>>(x + y),
{
    law_headed_file(a);
    law_headed_file(b);
    law_headed_file(a + b);
    assert(header() + a + b =~= header() + (a + b));
    lemma_body_concat(a, b, 0, None);
    lemma_body_stop(b, 0, None);
    let stop = body_from(b, 0, None).stop;
    assert((a + b).skip(a.len() + stop) =~= b.skip(stop));
}

/// The parts that a secret line was read to have can stand in one.
proof fn lemma_secret_line_parts(line: Seq<char>)
    requires
        secret_line(line) is Some,
    ensures
        secret_line_valid(secret_line(line)->0),
{
    let said = secret_line(line)->0;
    let first = run_end(line, 0, CharClass::Spacing);
    lemma_run_end_bounds(line, 0, CharClass::Spacing);
    let start = match name_end(line, first) {
        Some(end) => {
            lemma_run_end_bounds(line, first + 1, CharClass::NameRest);
            lemma_run_chars(line, first + 1, CharClass::NameRest);
            lemma_run_end_bounds(line, end + 1, CharClass::Spacing);
            let name = line.subrange(first, end);
            assert forall|i: int| 1 <= i < name.len() implies CharClass::NameRest.holds(
                #[trigger] name[i],
            ) by {
                assert(name[i] == line[first + i]);
            }
            assert(name_text(name));
            run_end(line, end + 1, CharClass::Spacing)
        },
        None => first,
    };
    let path_end = run_end(line, start, CharClass::Part);
    lemma_run_end_bounds(line, start, CharClass::Part);
    lemma_run_chars(line, start, CharClass::Part);
    let mark = run_end(line, path_end, CharClass::Spacing);
    lemma_run_end_bounds(line, path_end, CharClass::Spacing);
    let key = run_end(line, mark + 1, CharClass::Spacing);
    lemma_run_end_bounds(line, mark + 1, CharClass::Spacing);
    lemma_run_end_bounds(line, key, CharClass::Part);
    lemma_run_chars(line, key, CharClass::Part);
    assert forall|i: int| 0 <= i < said.path.len() implies CharClass::Part.holds(
        #[trigger] said.path[i],
    ) by {
        assert(said.path[i] == line[start + i]);
    }
    assert forall|i: int| 0 <= i < said.key.len() implies CharClass::Part.holds(
        #[trigger] said.key[i],
    ) by {
        assert(said.key[i] == line[key + i]);
    }
}

/// The name that a mount line was read to have can stand in one.
proof fn lemma_mount_line_part(line: Seq<char>)
    requires
        mount_line(line) is Some,
    ensures
        part_text(mount_line(line)->0),
{
    reveal_strlit("MOUNT");
    let word = run_end(line, 0, CharClass::Spacing);
    lemma_run_end_bounds(line, 0, CharClass::Spacing);
    let start = run_end(line, word + 5, CharClass::Spacing);
    lemma_run_end_bounds(line, word + 5, CharClass::Spacing);
    lemma_run_end_bounds(line, start, CharClass::Part);
    lemma_run_chars(line, start, CharClass::Part);
    let name = mount_line(line)->0;
    assert forall|i: int| 0 <= i < name.len() implies CharClass::Part.holds(
        #[trigger] name[i],
    ) by {
        assert(name[i] == line[start + i]);
    }
}

/// Whether the mount, the path and the key of a secret can stand in a file.
pub open spec fn well_formed(secret: SecretView) -> bool {
    part_text(secret.mount) && part_text(secret.path) && part_text(secret.key)
}

/// The secrets that lines ask for are well formed.
proof fn lemma_body_well_formed(text: Seq<char>, from: int, mount: Option<Seq<char>>)
    requires
        0 <= from,
        mount matches Some(name) ==> part_text(name),
    ensures
        forall|i: int|
            0 <= i < body_from(text, from, mount).secrets.len() ==> well_formed(
                #[trigger] body_from(text, from, mount).secrets[i],
            ),
    decreases text.len() - from,
{
    let end = run_end(text, from, CharClass::InLine);
    let line = line_from(text, from);
    let all = body_from(text, from, mount).secrets;
    if from <= end < text.len() {
        if blank_line(line) || comment_line(line) {
            lemma_body_well_formed(text, end + 1, mount);
            assert(all == body_from(text, end + 1, mount).secrets);
        } else if mount is Some && secret_line(line) is Some {
            lemma_body_well_formed(text, end + 1, mount);
            lemma_secret_line_parts(line);
            let rest = body_from(text, end + 1, mount).secrets;
            let secret = secret_under(mount->0, secret_line(line)->0);
            assert(well_formed(secret));
            assert(all == seq![secret] + rest);
            assert forall|i: int| 0 <= i < all.len() implies well_formed(#[trigger] all[i]) by {
                if i > 0 {
                    assert(all[i] == rest[i - 1]);
                }
            }
        } else if mount_line(line) is Some {
            lemma_mount_line_part(line);
            lemma_body_well_formed(text, end + 1, mount_line(line));
            assert(all == body_from(text, end + 1, mount_line(line)).secrets);
        }
    }
}

/// Every secret that a file asks for has a mount, a path and a key, of which
/// none is empty and none holds white space, control characters, `#` or `=`.
pub proof fn law_secrets_are_well_formed(text: Seq<char>, at: int)
    requires
        file_contents(text) is Ok,
        0 <= at < file_contents(text)->Ok_0.len(),
    ensures
        well_formed(file_contents(text)->Ok_0[at]),
{
    let start = body_start(text)->0;
    lemma_run_end_bounds(text, version_start(text), CharClass::InLine);
    lemma_version_start(text);
    lemma_body_well_formed(text, start, None);
}

/// The version header stands within the text.
proof fn lemma_version_start(text: Seq<char>)
    ensures
        0 <= version_start(text),
{
    lemma_run_end_bounds(text, 0, CharClass::InLine);
    let end = run_end(text, 0, CharClass::InLine);
    lemma_skip_lines(text, end + 1);
}

/// Skipping lines leads forward.
proof fn lemma_skip_lines(text: Seq<char>, from: int)
    ensures
        from <= skip_lines(text, from),
    decreases text.len() - from,
{
    let end = run_end(text, from, CharClass::InLine);
    if 0 <= from <= end < text.len() {
        lemma_skip_lines(text, end + 1);
    }
}

/// A file is read only if it has the version header.
pub proof fn law_version_required(text: Seq<char>)
    requires
        file_contents(text) is Ok,
    ensures
        exists|from: int|
            0 <= from < text.len() && version_line(#[trigger] line_from(text, from)),
{
    lemma_version_start(text);
    let start = version_start(text);
    lemma_run_end_bounds(text, start, CharClass::InLine);
    assert(version_line(line_from(text, start)));
}

/// A name that is generated from ASCII text holds neither slashes, dashes nor
/// lower-case letters.
pub proof fn law_generated_name_chars(joined: Seq<char>, at: int)
    requires
        0 <= at < joined.len(),
    ensures
        ({
            let c = underscored(joined).map_values(|c: char| ascii_upper(c))[at];
            c != '/' && c != '-' && !('a' <= c <= 'z')
        }),
{
}

/// The name of a secret whose line gives none is made of its mount, path and key
/// with underscores between them: in upper case, with an underscore for each
/// slash and each dash, and with every other character kept.
pub proof fn law_generated_name(mount: Seq<char>, path: Seq<char>, key: Seq<char>)
    ensures
        exists|plain: Seq<char>|
            {
                let joined = mount + seq!['_'] + path + seq!['_'] + key;
                &&& generated_name(mount, path, key) == #[trigger] upper_case(plain)
                &&& plain.len() == joined.len()
                &&& forall|i: int|
                    #![trigger plain[i]]
                    0 <= i < joined.len() ==> {
                        &&& joined[i] == '/' || joined[i] == '-' ==> plain[i] == '_'
                        &&& joined[i] != '/' && joined[i] != '-' ==> plain[i] == joined[i]
                    }
            },
{
    reveal_strlit("_");
    assert("_"@ =~= seq!['_']);
    let plain = underscored(mount + seq!['_'] + path + seq!['_'] + key);
    assert(generated_name(mount, path, key) == upper_case(plain));
}

/// A name that is generated from ASCII text is as long as the text; it has an
/// underscore where the text has a slash or a dash, the upper-case letter where
/// the text has a lower-case letter, and the same character everywhere else.
pub proof fn law_ascii_name(joined: Seq<char>, at: int)
    requires
        0 <= at < joined.len(),
    ensures
        ({
            let name = underscored(joined).map_values(|c: char| ascii_upper(c));
            let c = joined[at];
            &&& name.len() == joined.len()
            &&& c == '/' || c == '-' ==> name[at] == '_'
            &&& 'a' <= c <= 'z' ==> name[at] as int == c as int - 'a' as int + 'A' as int
            &&& c != '/' && c != '-' && !('a' <= c <= 'z') ==> name[at] == c
        }),
{
}

/// The characters of the classes. A part of a secret can hold any printable ASCII
/// character but `#` and `=`, and any other character that is neither white space
/// nor a control character.
pub proof fn law_char_classes(c: char)
    ensures
        CharClass::InLine.holds(c) <==> c as int != 10,
        CharClass::Spacing.holds(c) <==> c as int == 32 || c as int == 9 || c as int == 12
            || c as int == 13,
        CharClass::NameStart.holds(c) <==> 65 <= c as int <= 90 || 97 <= c as int <= 122 || c as int
            == 95,
        CharClass::NameRest.holds(c) <==> 65 <= c as int <= 90 || 97 <= c as int <= 122 || c as int
            == 95 || 48 <= c as int <= 57,
        33 <= c as int <= 126 ==> (CharClass::Part.holds(c) <==> c as int != 35 && c as int != 61),
        c as int <= 32 || 127 <= c as int <= 160 ==> !CharClass::Part.holds(c),
        c as int > 160 ==> (CharClass::Part.holds(c) <==> !(c as int == 0x1680 || 0x2000 <= c as int
            <= 0x200A || c as int == 0x2028 || c as int == 0x2029 || c as int == 0x202F || c as int
            == 0x205F || c as int == 0x3000)),
{
}

/// Whether a text is nothing but spaces, tabs, form feeds and carriage returns.
pub open spec fn spacing(s: Seq<char>) -> bool {
    forall|i: int|
        0 <= i < s.len() ==> #[trigger] s[i] == ' ' || s[i] == '\t' || s[i] == '\x0C' || s[i]
            == '\r'
}

/// A line is blank if and only if it is nothing but spacing.
pub proof fn law_blank_line(line: Seq<char>)
    ensures
        blank_line(line) <==> spacing(line),
{
    lemma_run_end_bounds(line, 0, CharClass::Spacing);
    lemma_run_chars(line, 0, CharClass::Spacing);
    if spacing(line) {
        lemma_run_to(line, 0, line.len() as int, CharClass::Spacing);
    }
}

/// A line is a comment if and only if a `#` stands in it behind spacing.
pub proof fn law_comment_line(line: Seq<char>)
    ensures
        comment_line(line) <==> exists|at: int|
            0 <= at < line.len() && #[trigger] line[at] == '#' && spacing(line.take(at)),
{
    let start = run_end(line, 0, CharClass::Spacing);
    lemma_run_end_bounds(line, 0, CharClass::Spacing);
    lemma_run_chars(line, 0, CharClass::Spacing);
    if comment_line(line) {
        assert(line[start] == '#' && spacing(line.take(start)));
    }
    if exists|at: int|
        0 <= at < line.len() && #[trigger] line[at] == '#' && spacing(line.take(at)) {
        let at = choose|at: int|
            0 <= at < line.len() && #[trigger] line[at] == '#' && spacing(line.take(at));
        assert forall|i: int| 0 <= i < at implies CharClass::Spacing.holds(#[trigger] line[i]) by {
            assert(line.take(at)[i] == line[i]);
        }
        lemma_run_to(line, 0, at, CharClass::Spacing);
    }
}

/// Whether a line is the version header with the given spacing.
pub open spec fn version_spelling(
    line: Seq<char>,
    before: Seq<char>,
    gap: Seq<char>,
    after: Seq<char>,
) -> bool {
    &&& spacing(before) && spacing(gap) && spacing(after)
    &&& line == before + "VERSION"@ + gap + "2"@ + after
}

/// A line is the version header if and only if it is `VERSION` and `2`, with any
/// spacing before, between and behind them.
#[verifier::rlimit(40)]
pub proof fn law_version_line(line: Seq<char>)
    ensures
        version_line(line) <==> exists|
            before: Seq<char>,
            gap: Seq<char>,
            after: Seq<char>,
        | #[trigger]
            version_spelling(line, before, gap, after),
{
    reveal_strlit("VERSION");
    reveal_strlit("2");
    let word = run_end(line, 0, CharClass::Spacing);
    lemma_run_end_bounds(line, 0, CharClass::Spacing);
    lemma_run_chars(line, 0, CharClass::Spacing);
    if version_line(line) {
        let number = run_end(line, word + 7, CharClass::Spacing);
        lemma_run_end_bounds(line, word + 7, CharClass::Spacing);
        lemma_run_chars(line, word + 7, CharClass::Spacing);
        lemma_run_end_bounds(line, number + 1, CharClass::Spacing);
        lemma_run_chars(line, number + 1, CharClass::Spacing);
        let before = line.take(word);
        let gap = line.subrange(word + 7, number);
        let after = line.skip(number + 1);
        assert(line =~= before + line.subrange(word, word + 7) + gap + line.subrange(
            number,
            number + 1,
        ) + after);
        assert(version_spelling(line, before, gap, after));
    }
    if exists|before: Seq<char>, gap: Seq<char>, after: Seq<char>| #[trigger]
        version_spelling(line, before, gap, after) {
        let (before, gap, after) = choose|before: Seq<char>, gap: Seq<char>, after: Seq<char>|
            #[trigger] version_spelling(line, before, gap, after);
        let at = before.len() as int;
        let number = at + 7 + gap.len();
        assert forall|i: int| 0 <= i < at implies line[i] == before[i] by {}
        assert(line[at] == 'V');
        lemma_run_to(line, 0, at, CharClass::Spacing);
        assert(line.subrange(at, at + 7) =~= "VERSION"@);
        assert forall|i: int| at + 7 <= i < number implies line[i] == gap[i - at - 7] by {}
        assert(line[number] == '2');
        lemma_run_to(line, at + 7, number, CharClass::Spacing);
        assert(line.subrange(number, number + 1) =~= "2"@);
        assert forall|i: int| number + 1 <= i < line.len() implies line[i] == after[i - number
            - 1] by {}
        lemma_run_to(line, number + 1, line.len() as int, CharClass::Spacing);
    }
}

/// Whether a line names a mount with the given spacing.
pub open spec fn mount_spelling(
    line: Seq<char>,
    mount: Seq<char>,
    before: Seq<char>,
    gap: Seq<char>,
    after: Seq<char>,
) -> bool {
    &&& spacing(before) && spacing(gap) && spacing(after)
    &&& part_text(mount)
    &&& line == before + "MOUNT"@ + gap + mount + after
}

/// A line names a mount if and only if it is `MOUNT` and the name, with any
/// spacing before, between and behind them.
#[verifier::rlimit(40)]
pub proof fn law_mount_spelling(line: Seq<char>, mount: Seq<char>)
    ensures
        mount_line(line) == Some(mount) <==> exists|
            before: Seq<char>,
            gap: Seq<char>,
            after: Seq<char>,
        | #[trigger]
            mount_spelling(line, mount, before, gap, after),
{
    reveal_strlit("MOUNT");
    let word = run_end(line, 0, CharClass::Spacing);
    lemma_run_end_bounds(line, 0, CharClass::Spacing);
    lemma_run_chars(line, 0, CharClass::Spacing);
    if mount_line(line) == Some(mount) {
        let start = run_end(line, word + 5, CharClass::Spacing);
        lemma_run_end_bounds(line, word + 5, CharClass::Spacing);
        lemma_run_chars(line, word + 5, CharClass::Spacing);
        let end = run_end(line, start, CharClass::Part);
        lemma_run_end_bounds(line, start, CharClass::Part);
        lemma_run_chars(line, end, CharClass::Spacing);
        lemma_mount_line_part(line);
        let before = line.take(word);
        let gap = line.subrange(word + 5, start);
        let after = line.skip(end);
        assert(line =~= before + line.subrange(word, word + 5) + gap + mount + after);
        assert(mount_spelling(line, mount, before, gap, after));
    }
    if exists|before: Seq<char>, gap: Seq<char>, after: Seq<char>| #[trigger]
        mount_spelling(line, mount, before, gap, after) {
        let (before, gap, after) = choose|before: Seq<char>, gap: Seq<char>, after: Seq<char>|
            #[trigger] mount_spelling(line, mount, before, gap, after);
        let at = before.len() as int;
        let start = at + 5 + gap.len();
        let end = start + mount.len();
        assert forall|i: int| 0 <= i < at implies line[i] == before[i] by {}
        assert(line[at] == 'M');
        lemma_run_to(line, 0, at, CharClass::Spacing);
        assert(line.subrange(at, at + 5) =~= "MOUNT"@);
        assert forall|i: int| at + 5 <= i < start implies line[i] == gap[i - at - 5] by {}
        assert forall|i: int| start <= i < end implies line[i] == mount[i - start] by {}
        assert forall|i: int| end <= i < line.len() implies line[i] == after[i - end] by {}
        assert(line[start] == mount[0]);
        lemma_run_to(line, at + 5, start, CharClass::Spacing);
        assert(end < line.len() ==> line[end] == after[0]);
        lemma_run_to(line, start, end, CharClass::Part);
        lemma_run_to(line, end, line.len() as int, CharClass::Spacing);
        assert(line.subrange(start, end) =~= mount);
    }
}

/// The spacing of a line that asks for a secret.
pub struct SecretSpacing {
    /// Before everything.
    pub before: Seq<char>,
    /// Behind the equals sign.
    pub gap: Seq<char>,
    /// Behind the path.
    pub mid: Seq<char>,
    /// Before the key.
    pub inner: Seq<char>,
    /// Behind everything.
    pub after: Seq<char>,
}

/// Whether a line asks for a secret with the given spacing.
pub open spec fn secret_spelling(
    line: Seq<char>,
    said: SecretLineView,
    around: SecretSpacing,
) -> bool {
    &&& spacing(around.before) && spacing(around.gap) && spacing(around.mid)
    &&& spacing(around.inner) && spacing(around.after)
    &&& secret_line_valid(said)
    &&& line == around.before + (match said.name {
        Some(name) => name + seq!['='] + around.gap,
        None => Seq::empty(),
    }) + said.path + around.mid + seq!['#'] + around.inner + said.key + around.after
}

/// The path and the key of a secret, as they stand in a line.
pub open spec fn location_text(said: SecretLineView, around: SecretSpacing) -> Seq<char> {
    said.path + around.mid + seq!['#'] + around.inner + said.key + around.after
}

/// The runs of the path and the key of a secret, and of the spacing around them.
#[verifier::rlimit(40)]
proof fn lemma_location_runs(said: SecretLineView, around: SecretSpacing)
    requires
        spacing(around.mid) && spacing(around.inner) && spacing(around.after),
        part_text(said.path) && part_text(said.key),
    ensures
        ({
            let text = location_text(said, around);
            let path_end = said.path.len() as int;
            let mark = path_end + around.mid.len();
            let key = mark + 1 + around.inner.len();
            let key_end = key + said.key.len();
            &&& text.len() == key_end + around.after.len()
            &&& run_end(text, 0, CharClass::Part) == path_end
            &&& run_end(text, path_end, CharClass::Spacing) == mark
            &&& text[mark] == '#'
            &&& run_end(text, mark + 1, CharClass::Spacing) == key
            &&& run_end(text, key, CharClass::Part) == key_end
            &&& run_end(text, key_end, CharClass::Spacing) == text.len()
            &&& text.take(path_end) == said.path
            &&& text.subrange(key, key_end) == said.key
            &&& forall|i: int| 0 <= i < text.len() ==> #[trigger] text[i] != '='
            &&& text[0] == said.path[0]
        }),
{
    let text = location_text(said, around);
    let path_end = said.path.len() as int;
    let mark = path_end + around.mid.len();
    let key = mark + 1 + around.inner.len();
    let key_end = key + said.key.len();
    assert forall|i: int| 0 <= i < path_end implies #[trigger] text[i] == said.path[i] by {}
    assert forall|i: int| path_end <= i < mark implies #[trigger] text[i] == around.mid[i
        - path_end] by {}
    assert(text[mark] == '#');
    assert forall|i: int| mark < i < key implies #[trigger] text[i] == around.inner[i - mark
        - 1] by {}
    assert forall|i: int| key <= i < key_end implies #[trigger] text[i] == said.key[i - key] by {}
    assert forall|i: int| key_end <= i < text.len() implies #[trigger] text[i] == around.after[i
        - key_end] by {}
    assert(text.take(path_end) =~= said.path);
    assert(text.subrange(key, key_end) =~= said.key);
    lemma_run_to(text, 0, path_end, CharClass::Part);
    lemma_run_to(text, path_end, mark, CharClass::Spacing);
    lemma_run_to(text, mark + 1, key, CharClass::Spacing);
    lemma_run_to(text, key, key_end, CharClass::Part);
    lemma_run_to(text, key_end, text.len() as int, CharClass::Spacing);
}

/// The path and the key of a secret are read behind whatever stands before them.
proof fn lemma_location_behind(
    head: Seq<char>,
    name: Option<Seq<char>>,
    said: SecretLineView,
    around: SecretSpacing,
)
    requires
        spacing(around.mid) && spacing(around.inner) && spacing(around.after),
        part_text(said.path) && part_text(said.key),
    ensures
        location_at(head + location_text(said, around), name, head.len() as int) == Some(
            SecretLineView { name, path: said.path, key: said.key },
        ),
{
    let text = location_text(said, around);
    let line = head + text;
    let start = head.len() as int;
    let path_end = said.path.len() as int;
    let mark = path_end + around.mid.len();
    let key = mark + 1 + around.inner.len();
    let key_end = key + said.key.len();
    lemma_location_runs(said, around);
    lemma_run_shift(head, text, 0, CharClass::Part);
    lemma_run_shift(head, text, path_end, CharClass::Spacing);
    lemma_run_shift(head, text, mark + 1, CharClass::Spacing);
    lemma_run_shift(head, text, key, CharClass::Part);
    lemma_run_shift(head, text, key_end, CharClass::Spacing);
    assert(line[start + mark] == text[mark]);
    assert(line.subrange(start, start + path_end) =~= text.take(path_end));
    assert(line.subrange(start + key, start + key_end) =~= text.subrange(key, key_end));
}

/// A line that is spelled so asks for the secret.
#[verifier::rlimit(40)]
proof fn lemma_secret_spelled(line: Seq<char>, said: SecretLineView, around: SecretSpacing)
    requires
        secret_spelling(line, said, around),
    ensures
        secret_line(line) == Some(said),
{
    let first = around.before.len() as int;
    let text = location_text(said, around);
    lemma_location_runs(said, around);
    match said.name {
        Some(name) => {
            let head = around.before + (name + seq!['='] + around.gap);
            let end = first + name.len();
            let start = end + 1 + around.gap.len();
            assert(line =~= head + text);
            assert forall|i: int| 0 <= i < first implies #[trigger] line[i] == around.before[i] by {
                assert(line[i] == head[i]);
            }
            assert forall|i: int| first <= i < end implies #[trigger] line[i] == name[i
                - first] by {
                assert(line[i] == head[i]);
            }
            assert(line[end] == head[end]);
            assert forall|i: int| end < i < start implies #[trigger] line[i] == around.gap[i - end
                - 1] by {
                assert(line[i] == head[i]);
            }
            assert(line[start] == text[0]);
            lemma_run_to(line, 0, first, CharClass::Spacing);
            lemma_run_to(line, first + 1, end, CharClass::NameRest);
            lemma_run_to(line, end + 1, start, CharClass::Spacing);
            assert(line.subrange(first, end) =~= name);
            lemma_location_behind(head, Some(name), said, around);
        },
        None => {
            let head = around.before;
            assert(line =~= head + text);
            assert forall|i: int| 0 <= i < first implies #[trigger] line[i] == head[i] by {}
            assert(line[first] == text[0]);
            lemma_run_to(line, 0, first, CharClass::Spacing);
            let end = run_end(line, first + 1, CharClass::NameRest);
            lemma_run_end_bounds(line, first + 1, CharClass::NameRest);
            if end < line.len() {
                assert(line[end] == text[end - first]);
            }
            lemma_location_behind(head, None, said, around);
        },
    }
}

/// A line asks for a secret if and only if it is spelled so, with some spacing:
/// a name and an equals sign, or neither; the path; a `#`; and the key.
pub proof fn law_secret_spelling(line: Seq<char>, said: SecretLineView)
    ensures
        secret_line(line) == Some(said) <==> exists|around: SecretSpacing| #[trigger]
            secret_spelling(line, said, around),
{
    if exists|around: SecretSpacing| #[trigger] secret_spelling(line, said, around) {
        let around = choose|around: SecretSpacing| #[trigger] secret_spelling(line, said, around);
        lemma_secret_spelled(line, said, around);
    }
    if secret_line(line) == Some(said) {
        let around = lemma_secret_spacing(line, said);
        assert(secret_spelling(line, said, around));
    }
}

/// A text is what its parts are.
proof fn lemma_parts(s: Seq<char>, a: int, b: int, c: int, d: int, e: int, f: int)
    requires
        0 <= a <= b <= c <= d < e <= f <= s.len(),
        e >= d + 1,
    ensures
        s == s.take(a) + s.subrange(a, b) + s.subrange(b, c) + s.subrange(c, d) + seq![s[d]]
            + s.subrange(d + 1, e) + s.subrange(e, f) + s.skip(f),
{
    assert(s =~= s.take(a) + s.subrange(a, b) + s.subrange(b, c) + s.subrange(c, d) + seq![s[d]]
        + s.subrange(d + 1, e) + s.subrange(e, f) + s.skip(f));
}

/// A run of spacing is spacing.
proof fn lemma_spacing_run(line: Seq<char>, from: int)
    requires
        0 <= from <= line.len(),
    ensures
        from <= run_end(line, from, CharClass::Spacing) <= line.len(),
        spacing(line.subrange(from, run_end(line, from, CharClass::Spacing))),
{
    lemma_run_end_bounds(line, from, CharClass::Spacing);
    lemma_run_chars(line, from, CharClass::Spacing);
    let run = line.subrange(from, run_end(line, from, CharClass::Spacing));
    assert forall|i: int| 0 <= i < run.len() implies #[trigger] run[i] == ' ' || run[i] == '\t'
        || run[i] == '\x0C' || run[i] == '\r' by {
        assert(run[i] == line[from + i]);
    }
}

/// The spacing of a line that asks for a secret.
#[verifier::rlimit(40)]
proof fn lemma_secret_spacing(line: Seq<char>, said: SecretLineView) -> (around: SecretSpacing)
    requires
        secret_line(line) == Some(said),
    ensures
        secret_spelling(line, said, around),
{
    lemma_secret_line_parts(line);
    let first = run_end(line, 0, CharClass::Spacing);
    lemma_spacing_run(line, 0);
    assert(line.subrange(0, first) =~= line.take(first));
    let start = match name_end(line, first) {
        Some(end) => run_end(line, end + 1, CharClass::Spacing),
        None => first,
    };
    let gap = match name_end(line, first) {
        Some(end) => line.subrange(end + 1, start),
        None => Seq::empty(),
    };
    if let Some(end) = name_end(line, first) {
        lemma_run_end_bounds(line, first + 1, CharClass::NameRest);
        lemma_spacing_run(line, end + 1);
        assert(line.subrange(first, start) =~= line.subrange(first, end) + seq!['='] + gap);
    } else {
        assert(line.subrange(first, start) =~= Seq::empty());
    }
    let path_end = run_end(line, start, CharClass::Part);
    lemma_run_end_bounds(line, start, CharClass::Part);
    let mark = run_end(line, path_end, CharClass::Spacing);
    lemma_spacing_run(line, path_end);
    let key = run_end(line, mark + 1, CharClass::Spacing);
    lemma_spacing_run(line, mark + 1);
    let key_end = run_end(line, key, CharClass::Part);
    lemma_run_end_bounds(line, key, CharClass::Part);
    lemma_spacing_run(line, key_end);
    assert(line.subrange(key_end, line.len() as int) =~= line.skip(key_end));
    lemma_parts(line, first, start, path_end, mark, key, key_end);
    SecretSpacing {
        before: line.take(first),
        gap,
        mid: line.subrange(path_end, mark),
        inner: line.subrange(mark + 1, key),
        after: line.skip(key_end),
    }
}

/// The text of lines, each with its line feed.
pub open spec fn joined(lines: Seq<Seq<char>>) -> Seq<char>
    decreases lines.len(),
{
    if lines.len() == 0 {
        Seq::empty()
    } else {
        lines[0] + seq!['\n'] + joined(lines.drop_first())
    }
}

/// Whether a line says nothing.
pub open spec fn note_line(line: Seq<char>) -> bool {
    blank_line(line) || comment_line(line)
}

/// The mount that holds below lines, where the given one holds above them.
pub open spec fn mount_below(lines: Seq<Seq<char>>, mount: Option<Seq<char>>) -> Option<Seq<char>>
    decreases lines.len(),
{
    if lines.len() == 0 {
        mount
    } else if mount_line(lines.last()) is Some {
        mount_line(lines.last())
    } else {
        mount_below(lines.drop_last(), mount)
    }
}

/// Whether the line at `at` can stand there: it says nothing, names a mount, or
/// asks for a secret below a mount.
pub open spec fn readable_at(lines: Seq<Seq<char>>, mount: Option<Seq<char>>, at: int) -> bool {
    ||| note_line(lines[at])
    ||| mount_line(lines[at]) is Some
    ||| secret_line(lines[at]) is Some && mount_below(lines.take(at), mount) is Some
}

/// How many of the lines ask for a secret.
pub open spec fn secret_count(lines: Seq<Seq<char>>) -> nat
    decreases lines.len(),
{
    if lines.len() == 0 {
        0
    } else if secret_line(lines.last()) is Some {
        secret_count(lines.drop_last()) + 1
    } else {
        secret_count(lines.drop_last())
    }
}

/// A line that says nothing neither names a mount nor asks for a secret.
proof fn lemma_note_says_nothing(line: Seq<char>)
    requires
        note_line(line),
    ensures
        mount_line(line) is None,
        secret_line(line) is None,
{
    reveal_strlit("MOUNT");
    let start = run_end(line, 0, CharClass::Spacing);
    lemma_run_end_bounds(line, 0, CharClass::Spacing);
    if mount_line(line) is Some {
        assert(line.subrange(start, start + 5)[0] == line[start]);
    }
}

/// What one line leaves below it.
proof fn lemma_one_line(line: Seq<char>, mount: Option<Seq<char>>)
    ensures
        secret_count(seq![line]) == (if secret_line(line) is Some {
            1nat
        } else {
            0nat
        }),
        mount_below(seq![line], mount) == (if mount_line(line) is Some {
            mount_line(line)
        } else {
            mount
        }),
{
    reveal_with_fuel(secret_count, 2);
    reveal_with_fuel(mount_below, 2);
    assert(seq![line].drop_last().len() == 0);
    assert(seq![line].last() == line);
}

/// What a line says below lines that were read does not depend on them, but for
/// the mount that they leave.
proof fn lemma_line_behind(
    line: Seq<char>,
    rest: Seq<char>,
    mount: Option<Seq<char>>,
)
    requires
        !line.contains('\n'),
        readable_at(seq![line], mount, 0),
    ensures
        ({
            let below = body_from(rest, 0, mount_below(seq![line], mount));
            let body = body_from(line + seq!['\n'] + rest, 0, mount);
            &&& body.stop == line.len() + 1 + below.stop
            &&& body.secrets == (if secret_line(line) is Some {
                seq![secret_under(mount->0, secret_line(line)->0)]
            } else {
                Seq::empty()
            }) + below.secrets
        }),
{
    let below = mount_below(seq![line], mount);
    lemma_one_line(line, mount);
    assert(seq![line].take(0).len() == 0);
    lemma_first_line(line, rest);
    lemma_body_shift(line + seq!['\n'], rest, 0, below);
    if note_line(line) {
        lemma_note_says_nothing(line);
    } else if mount_line(line) is Some {
        lemma_mount_is_no_secret(line);
    }
    assert(Seq::<SecretView>::empty() + body_from(rest, 0, below).secrets =~= body_from(
        rest,
        0,
        below,
    ).secrets);
}

/// The first of several lines can stand where it stands.
proof fn lemma_readable_rest(lines: Seq<Seq<char>>, mount: Option<Seq<char>>)
    requires
        lines.len() > 0,
        forall|i: int| 0 <= i < lines.len() ==> #[trigger] readable_at(lines, mount, i),
    ensures
        readable_at(seq![lines[0]], mount, 0),
        forall|i: int|
            0 <= i < lines.len() - 1 ==> #[trigger] readable_at(
                lines.drop_first(),
                mount_below(seq![lines[0]], mount),
                i,
            ),
        mount_below(lines, mount) == mount_below(
            lines.drop_first(),
            mount_below(seq![lines[0]], mount),
        ),
        secret_count(lines) == secret_count(seq![lines[0]]) + secret_count(lines.drop_first()),
{
    let rest = lines.drop_first();
    assert(readable_at(lines, mount, 0));
    assert(lines.take(0).len() == 0);
    assert(seq![lines[0]].take(0).len() == 0);
    assert forall|i: int| 0 <= i < lines.len() - 1 implies #[trigger] readable_at(
        rest,
        mount_below(seq![lines[0]], mount),
        i,
    ) by {
        assert(readable_at(lines, mount, i + 1));
        lemma_first_apart(lines.take(i + 1), mount);
        assert(lines.take(i + 1).drop_first() =~= rest.take(i));
    }
    lemma_first_apart(lines, mount);
}

/// The first of several lines can be taken apart from the others.
proof fn lemma_first_apart(lines: Seq<Seq<char>>, mount: Option<Seq<char>>)
    requires
        lines.len() > 0,
    ensures
        mount_below(lines, mount) == mount_below(
            lines.drop_first(),
            mount_below(seq![lines[0]], mount),
        ),
        secret_count(lines) == secret_count(seq![lines[0]]) + secret_count(lines.drop_first()),
    decreases lines.len(),
{
    if lines.len() == 1 {
        assert(lines =~= seq![lines[0]]);
        assert(lines.drop_first().len() == 0);
    } else {
        lemma_first_apart(lines.drop_last(), mount);
        assert(lines.drop_last().drop_first() =~= lines.drop_first().drop_last());
        assert(lines.drop_first().last() == lines.last());
    }
}

/// Lines that can stand where they stand are read to their end, whatever stands
/// behind them.
#[verifier::rlimit(40)]
proof fn lemma_joined_body(lines: Seq<Seq<char>>, tail: Seq<char>, mount: Option<Seq<char>>)
    requires
        forall|i: int| 0 <= i < lines.len() ==> !(#[trigger] lines[i]).contains('\n'),
        forall|i: int| 0 <= i < lines.len() ==> #[trigger] readable_at(lines, mount, i),
    ensures
        ({
            let body = body_from(joined(lines) + tail, 0, mount);
            let behind = body_from(tail, 0, mount_below(lines, mount));
            &&& body.stop == joined(lines).len() + behind.stop
            &&& body.secrets.len() == secret_count(lines) + behind.secrets.len()
            &&& body.secrets.skip(secret_count(lines) as int) == behind.secrets
            &&& forall|i: int|
                0 <= i < lines.len() && secret_line(#[trigger] lines[i]) is Some ==> {
                    let k = secret_count(lines.take(i)) as int;
                    &&& k < secret_count(lines)
                    &&& body.secrets[k] == secret_under(
                        mount_below(lines.take(i), mount)->0,
                        secret_line(lines[i])->0,
                    )
                }
        }),
    decreases lines.len(),
{
    let body = body_from(joined(lines) + tail, 0, mount);
    let behind = body_from(tail, 0, mount_below(lines, mount));
    if lines.len() == 0 {
        assert(joined(lines) + tail =~= tail);
        assert(body.secrets.skip(0) =~= body.secrets);
    } else {
        let line = lines[0];
        let rest = lines.drop_first();
        let below = mount_below(seq![line], mount);
        lemma_readable_rest(lines, mount);
        assert forall|i: int| 0 <= i < rest.len() implies !(#[trigger] rest[i]).contains('\n') by {
            assert(!lines[i + 1].contains('\n'));
        }
        lemma_joined_body(rest, tail, below);
        assert(joined(lines) + tail =~= line + seq!['\n'] + (joined(rest) + tail));
        lemma_line_behind(line, joined(rest) + tail, mount);
        let more = body_from(joined(rest) + tail, 0, below).secrets;
        lemma_one_line(line, mount);
        let own = secret_count(seq![line]) as int;
        let count = secret_count(rest) as int;
        assert(body.secrets.skip(own + count) =~= more.skip(count));
        assert forall|i: int|
            0 <= i < lines.len() && secret_line(#[trigger] lines[i]) is Some implies {
            let k = secret_count(lines.take(i)) as int;
            &&& k < secret_count(lines)
            &&& body.secrets[k] == secret_under(
                mount_below(lines.take(i), mount)->0,
                secret_line(lines[i])->0,
            )
        } by {
            if i == 0 {
                assert(lines.take(0).len() == 0);
            } else {
                lemma_first_apart(lines.take(i), mount);
                assert(lines.take(i).drop_first() =~= rest.take(i - 1));
                assert(lines.take(i)[0] == line);
                assert(rest[i - 1] == lines[i]);
                let k = secret_count(rest.take(i - 1)) as int;
                assert(body.secrets[own + k] == more[k]);
            }
        }
    }
}

/// Where the reading of what stands behind lines stops.
proof fn lemma_joined_stop(lines: Seq<Seq<char>>, tail: Seq<char>)
    requires
        forall|i: int| 0 <= i < lines.len() ==> !(#[trigger] lines[i]).contains('\n'),
        forall|i: int| 0 <= i < lines.len() ==> #[trigger] readable_at(lines, None, i),
    ensures
        body_from(joined(lines) + tail, 0, None).stop == joined(lines).len() + body_from(
            tail,
            0,
            mount_below(lines, None),
        ).stop,
{
    lemma_joined_body(lines, tail, None);
}

/// A line that can not stand where it stands stops the reading at once.
proof fn lemma_strange_line(line: Seq<char>, rest: Seq<char>, mount: Option<Seq<char>>)
    requires
        !line.contains('\n'),
        !note_line(line),
        mount_line(line) is None,
        secret_line(line) is None || mount is None,
    ensures
        body_from(line + seq!['\n'] + rest, 0, mount).stop == 0,
{
    lemma_first_line(line, rest);
}

/// What is not white space is not trimmed away.
proof fn lemma_something_left(text: Seq<char>, at: int)
    requires
        0 <= at < text.len(),
        !white_space(text[at]),
    ensures
        trimmed(text).len() > 0,
{
    if trimmed(text).len() == 0 {
        lemma_trimmed_away(text);
    }
}

/// A file with the version header, and below it lines that each say nothing, name
/// a mount or ask for a secret below a mount, gives one secret for each line that
/// asks for one, in order. The secret has the mount of the last mount line above
/// it, the path and the key of its own line, and the name of its own line or,
/// where that has none, the generated name.
#[verifier::rlimit(40)]
pub proof fn law_file_is_read_line_by_line(lines: Seq<Seq<char>>)
    requires
        forall|i: int| 0 <= i < lines.len() ==> !(#[trigger] lines[i]).contains('\n'),
        forall|i: int| 0 <= i < lines.len() ==> #[trigger] readable_at(lines, None, i),
    ensures
        file_contents(header() + joined(lines)) is Ok,
        ({
            let secrets = file_contents(header() + joined(lines))->Ok_0;
            &&& secrets.len() == secret_count(lines)
            &&& forall|i: int|
                0 <= i < lines.len() && secret_line(#[trigger] lines[i]) is Some ==> {
                    let secret = secrets[secret_count(lines.take(i)) as int];
                    let said = secret_line(lines[i])->0;
                    &&& secret_count(lines.take(i)) < secrets.len()
                    &&& Some(secret.mount) == mount_below(lines.take(i), None)
                    &&& secret.path == said.path
                    &&& secret.key == said.key
                    &&& said.name matches Some(name) ==> secret.var_name == name
                    &&& said.name is None ==> secret.var_name == generated_name(
                        secret.mount,
                        secret.path,
                        secret.key,
                    )
                }
        }),
{
    let empty = Seq::<char>::empty();
    law_headed_file(joined(lines));
    lemma_joined_body(lines, empty, None);
    assert(joined(lines) + empty =~= joined(lines));
    let mount = mount_below(lines, None);
    lemma_run_to(empty, 0, 0, CharClass::InLine);
    lemma_run_to(line_from(empty, 0), 0, 0, CharClass::Spacing);
    let behind = body_from(empty, 0, mount);
    assert(behind.stop == 0 && behind.secrets.len() == 0);
    let rest = joined(lines).skip(joined(lines).len() as int);
    assert(rest.len() == 0);
    assert(trimmed(rest).len() == 0);
    let secrets = body_from(joined(lines), 0, None).secrets;
    assert forall|i: int|
        0 <= i < lines.len() && secret_line(#[trigger] lines[i]) is Some implies Some(
        secrets[secret_count(lines.take(i)) as int].mount,
    ) == mount_below(lines.take(i), None) by {
        assert(readable_at(lines, None, i));
        if note_line(lines[i]) {
            lemma_note_says_nothing(lines[i]);
        }
        if mount_line(lines[i]) is Some {
            lemma_mount_is_no_secret(lines[i]);
        }
    }
}

/// The reading stops at the first line that can not stand where it stands: one
/// that is no line of the format, or a secret without a mount above it. What is
/// left from there on is reported, unless it is white space.
pub proof fn law_strange_line_is_reported(
    lines: Seq<Seq<char>>,
    line: Seq<char>,
    rest: Seq<char>,
)
    requires
        forall|i: int| 0 <= i < lines.len() ==> !(#[trigger] lines[i]).contains('\n'),
        forall|i: int| 0 <= i < lines.len() ==> #[trigger] readable_at(lines, None, i),
        !line.contains('\n'),
        !readable_at(lines.push(line), None, lines.len() as int),
        exists|i: int| 0 <= i < line.len() && !white_space(#[trigger] line[i]),
    ensures
        file_contents(header() + joined(lines) + line + seq!['\n'] + rest) == Err::<
            Seq<SecretView>,
            Seq<char>,
        >("unexpected trailing content after parse: "@ + trimmed(line + seq!['\n'] + rest)),
{
    let tail = line + seq!['\n'] + rest;
    let all = joined(lines) + tail;
    assert(header() + joined(lines) + line + seq!['\n'] + rest =~= header() + all);
    law_headed_file(all);
    lemma_joined_stop(lines, tail);
    assert(lines.push(line).take(lines.len() as int) =~= lines);
    lemma_strange_line(line, rest, mount_below(lines, None));
    assert(all.skip(joined(lines).len() as int) =~= tail);
    let i = choose|i: int| 0 <= i < line.len() && !white_space(#[trigger] line[i]);
    assert(tail[i] == line[i]);
    lemma_something_left(tail, i);
}

/// A last line that no line feed ends can only be a comment or white space.
#[verifier::rlimit(40)]
pub proof fn law_last_line_needs_a_line_feed(lines: Seq<Seq<char>>, line: Seq<char>)
    requires
        forall|i: int| 0 <= i < lines.len() ==> !(#[trigger] lines[i]).contains('\n'),
        forall|i: int| 0 <= i < lines.len() ==> #[trigger] readable_at(lines, None, i),
        !line.contains('\n'),
    ensures
        file_contents(header() + joined(lines) + line) == (if comment_line(line) || trimmed(
            line,
        ).len() == 0 {
            file_contents(header() + joined(lines))
        } else {
            Err::<Seq<SecretView>, Seq<char>>(
                "unexpected trailing content after parse: "@ + trimmed(line),
            )
        }),
{
    let empty = Seq::<char>::empty();
    let all = joined(lines) + line;
    assert(header() + joined(lines) + line =~= header() + all);
    law_headed_file(all);
    law_headed_file(joined(lines));
    lemma_joined_stop(lines, line);
    lemma_joined_stop(lines, empty);
    assert(joined(lines) + empty =~= joined(lines));
    lemma_last_line(line, mount_below(lines, None));
    lemma_last_line(empty, mount_below(lines, None));
    assert(all.skip(joined(lines).len() as int) =~= line);
    let none_left = all.skip(all.len() as int);
    assert(none_left.len() == 0 && trimmed(none_left).len() == 0);
    let none = joined(lines).skip(joined(lines).len() as int);
    assert(none.len() == 0 && trimmed(none).len() == 0);
    lemma_same_secrets(lines, line, None);
}

/// A last line that no line feed ends is read if it is a comment.
proof fn lemma_last_line(line: Seq<char>, mount: Option<Seq<char>>)
    requires
        !line.contains('\n'),
    ensures
        body_from(line, 0, mount).stop == (if comment_line(line) {
            line.len() as int
        } else {
            0
        }),
{
    assert forall|i: int| 0 <= i < line.len() implies CharClass::InLine.holds(
        #[trigger] line[i],
    ) by {
        assert(line.contains(line[i]));
    }
    lemma_run_to(line, 0, line.len() as int, CharClass::InLine);
    assert(line_from(line, 0) =~= line);
}

/// What stands behind lines, and asks for nothing, changes nothing of the secrets
/// that they ask for.
proof fn lemma_same_secrets(lines: Seq<Seq<char>>, line: Seq<char>, mount: Option<Seq<char>>)
    requires
        forall|i: int| 0 <= i < lines.len() ==> !(#[trigger] lines[i]).contains('\n'),
        forall|i: int| 0 <= i < lines.len() ==> #[trigger] readable_at(lines, mount, i),
        !line.contains('\n'),
    ensures
        body_from(joined(lines) + line, 0, mount).secrets == body_from(
            joined(lines),
            0,
            mount,
        ).secrets,
    decreases lines.len(),
{
    let empty = Seq::<char>::empty();
    if lines.len() == 0 {
        assert(joined(lines) + line =~= line);
        assert forall|i: int| 0 <= i < line.len() implies CharClass::InLine.holds(
            #[trigger] line[i],
        ) by {
            assert(line.contains(line[i]));
        }
        lemma_run_to(line, 0, line.len() as int, CharClass::InLine);
        lemma_run_to(joined(lines), 0, 0, CharClass::InLine);
    } else {
        let rest = lines.drop_first();
        let below = mount_below(seq![lines[0]], mount);
        lemma_readable_rest(lines, mount);
        assert forall|i: int| 0 <= i < rest.len() implies !(#[trigger] rest[i]).contains('\n') by {
            assert(!lines[i + 1].contains('\n'));
        }
        lemma_same_secrets(rest, line, below);
        assert(joined(lines) + line =~= lines[0] + seq!['\n'] + (joined(rest) + line));
        lemma_line_behind(lines[0], joined(rest) + line, mount);
        lemma_line_behind(lines[0], joined(rest), mount);
    }
}

/// What stands before lines does not matter to which of them are skipped.
proof fn lemma_skip_shift(head: Seq<char>, tail: Seq<char>, from: int)
    requires
        0 <= from <= tail.len(),
    ensures
        skip_lines(head + tail, head.len() + from) == head.len() + skip_lines(tail, from),
    decreases tail.len() - from,
{
    let end = run_end(tail, from, CharClass::InLine);
    lemma_run_shift(head, tail, from, CharClass::InLine);
    lemma_run_end_bounds(tail, from, CharClass::InLine);
    assert(line_from(head + tail, head.len() + from) =~= line_from(tail, from));
    if end < tail.len() {
        lemma_skip_shift(head, tail, end + 1);
    }
}

/// Lines that say nothing are skipped.
proof fn lemma_skip_notes(notes: Seq<Seq<char>>, tail: Seq<char>)
    requires
        forall|i: int|
            0 <= i < notes.len() ==> !(#[trigger] notes[i]).contains('\n') && note_line(notes[i]),
    ensures
        skip_lines(joined(notes) + tail, 0) == joined(notes).len() + skip_lines(tail, 0),
    decreases notes.len(),
{
    if notes.len() == 0 {
        assert(joined(notes) + tail =~= tail);
    } else {
        let rest = notes.drop_first();
        assert forall|i: int| 0 <= i < rest.len() implies !(#[trigger] rest[i]).contains('\n')
            && note_line(rest[i]) by {
            assert(notes[i + 1] == rest[i]);
        }
        lemma_skip_notes(rest, tail);
        assert(!notes[0].contains('\n') && note_line(notes[0]));
        assert(joined(notes) + tail =~= notes[0] + seq!['\n'] + (joined(rest) + tail));
        lemma_first_line(notes[0], joined(rest) + tail);
        lemma_skip_shift(notes[0] + seq!['\n'], joined(rest) + tail, 0);
    }
}

/// Whether a line can stand at the top of a file: it is empty or a comment.
pub open spec fn top_line(line: Seq<char>) -> bool {
    line.len() == 0 || line == seq!['\r'] || comment_line(line)
}

/// Where the version header is looked for below lines that say nothing.
#[verifier::rlimit(40)]
proof fn lemma_version_below(notes: Seq<Seq<char>>, line: Seq<char>, behind: Seq<char>)
    requires
        forall|i: int|
            0 <= i < notes.len() ==> !(#[trigger] notes[i]).contains('\n') && note_line(notes[i]),
        notes.len() > 0 ==> top_line(notes[0]),
        notes.len() == 0 ==> !top_line(line) || behind.len() == 0,
        notes.len() > 0 ==> !note_line(line) || behind.len() == 0,
        !line.contains('\n'),
        behind.len() > 0 ==> behind[0] == '\n',
    ensures
        version_start(joined(notes) + line + behind) == joined(notes).len(),
        line_from(joined(notes) + line + behind, joined(notes).len() as int) == line,
        run_end(joined(notes) + line + behind, joined(notes).len() as int, CharClass::InLine)
            == joined(notes).len() + line.len(),
{
    let tail = line + behind;
    let text = joined(notes) + line + behind;
    assert(text =~= joined(notes) + tail);
    assert forall|i: int| 0 <= i < line.len() implies CharClass::InLine.holds(
        #[trigger] tail[i],
    ) by {
        assert(tail[i] == line[i]);
        assert(line.contains(line[i]));
    }
    if behind.len() > 0 {
        assert(tail[line.len() as int] == '\n');
    }
    lemma_run_to(tail, 0, line.len() as int, CharClass::InLine);
    assert(line_from(tail, 0) =~= line);
    lemma_run_shift(joined(notes), tail, 0, CharClass::InLine);
    let at = joined(notes).len() as int;
    assert(text.subrange(at, at + line.len()) =~= line);
    if notes.len() == 0 {
        assert(text =~= tail);
    } else {
        let rest = notes.drop_first();
        assert forall|i: int| 0 <= i < rest.len() implies !(#[trigger] rest[i]).contains('\n')
            && note_line(rest[i]) by {
            assert(notes[i + 1] == rest[i]);
        }
        assert(!notes[0].contains('\n') && note_line(notes[0]));
        assert(text =~= notes[0] + seq!['\n'] + (joined(rest) + tail));
        lemma_first_line(notes[0], joined(rest) + tail);
        lemma_skip_shift(notes[0] + seq!['\n'], joined(rest) + tail, 0);
        lemma_skip_notes(rest, tail);
        assert(skip_lines(tail, 0) == 0);
    }
}

/// Above the version header a file can have an empty line or a comment, and below
/// that any blank lines and comments. They change nothing, and neither does the
/// spacing of the header.
pub proof fn law_lines_above_the_header(
    notes: Seq<Seq<char>>,
    line: Seq<char>,
    lines: Seq<char>,
)
    requires
        forall|i: int|
            0 <= i < notes.len() ==> !(#[trigger] notes[i]).contains('\n') && note_line(notes[i]),
        notes.len() > 0 ==> top_line(notes[0]),
        version_line(line),
        !line.contains('\n'),
    ensures
        file_contents(joined(notes) + line + seq!['\n'] + lines) == file_contents(
            header() + lines,
        ),
{
    let behind = seq!['\n'] + lines;
    let head = joined(notes) + line + seq!['\n'];
    assert(joined(notes) + line + behind =~= head + lines);
    lemma_header_is_no_note(line);
    lemma_version_below(notes, line, behind);
    lemma_lines_behind(head, lines);
    law_headed_file(lines);
}

/// The version header is no line that says nothing.
proof fn lemma_header_is_no_note(line: Seq<char>)
    requires
        version_line(line),
    ensures
        !note_line(line),
        !top_line(line),
{
    reveal_strlit("VERSION");
    let start = run_end(line, 0, CharClass::Spacing);
    lemma_run_end_bounds(line, 0, CharClass::Spacing);
    assert(line.subrange(start, start + 7)[0] == line[start]);
    if line == seq!['\r'] {
        assert(line.len() == 1);
    }
}

/// A file whose lines start behind what stands above them says what they say.
proof fn lemma_lines_behind(head: Seq<char>, lines: Seq<char>)
    requires
        body_start(head + lines) == Some(head.len() as int),
    ensures
        file_contents(head + lines) == lines_contents(lines),
{
    lemma_body_shift(head, lines, 0, None);
    lemma_body_stop(lines, 0, None);
    let stop = body_from(lines, 0, None).stop;
    assert((head + lines).skip(head.len() + stop) =~= lines.skip(stop));
}

/// A file in which another line stands where the version header has to stand is
/// not read, and neither is one in which no line feed ends the header.
pub proof fn law_no_header_no_file(notes: Seq<Seq<char>>, line: Seq<char>, behind: Seq<char>)
    requires
        forall|i: int|
            0 <= i < notes.len() ==> !(#[trigger] notes[i]).contains('\n') && note_line(notes[i]),
        notes.len() > 0 ==> top_line(notes[0]),
        notes.len() == 0 ==> !top_line(line) || behind.len() == 0,
        notes.len() > 0 ==> !note_line(line) || behind.len() == 0,
        !line.contains('\n'),
        behind.len() > 0 ==> behind[0] == '\n',
        !version_line(line) || behind.len() == 0,
    ensures
        file_contents(joined(notes) + line + behind) == Err::<Seq<SecretView>, Seq<char>>(
            Seq::empty(),
        ),
{
    reveal_strlit("");
    assert(""@ =~= Seq::<char>::empty());
    lemma_version_below(notes, line, behind);
}

} // verus!
