//! The secrets file format, version 2.
//!
//! A secrets file is read line by line. Spacing stands for spaces, tabs, form
//! feeds and carriage returns; every line but the last ends in a line feed.
//!
//! ```text
//! file     := lead? version line*
//! lead     := an empty line or a comment, then any blank lines and comments
//! version  := spacing "VERSION" spacing "2" spacing
//! line     := blank | comment | mount | secret
//! blank    := spacing
//! comment  := spacing "#" anything
//! mount    := spacing "MOUNT" spacing part spacing
//! secret   := spacing (name "=" spacing)? part spacing "#" spacing part spacing
//! name     := [A-Za-z_] [A-Za-z0-9_]*
//! part     := one or more characters that are neither white space, control
//!             characters, "#" nor "="
//! ```
//!
//! A secret belongs to the mount named by the last mount line above it, so
//! none can stand before the first mount line. What follows the last line that
//! could be read has to be white space.

use vstd::prelude::*;
use vstd::string::*;

use crate::text::{ascii_space, ascii_upper, control, opt_text, trimmed, white_space};
use crate::text::{
    chars_of, is_ascii_space, is_control, is_white_space, string_of, trim_from,
};

verus! {

/// A secret to fetch, as one line of a secrets file asks for it.
#[derive(Debug, Clone, PartialEq, Eq)]
pub struct Secret {
    /// Vault mount point (e.g. `"secret"`).
    pub mount: String,
    /// Secret path within the mount.
    pub path: String,
    /// Key to extract from the secret.
    pub key: String,
    /// Environment variable name to expose the value under.
    pub var_name: String,
}

/// The model of a [`Secret`].
pub struct SecretView {
    pub mount: Seq<char>,
    pub path: Seq<char>,
    pub key: Seq<char>,
    pub var_name: Seq<char>,
}

impl View for Secret {
    type V = SecretView;

    open spec fn view(&self) -> SecretView {
        SecretView {
            mount: self.mount@,
            path: self.path@,
            key: self.key@,
            var_name: self.var_name@,
        }
    }
}

/// The models of a list of secrets.
pub open spec fn secret_views(secrets: Seq<Secret>) -> Seq<SecretView> {
    secrets.map_values(|s: Secret| s@)
}

/// A secret is modelled by the characters of its parts.
pub proof fn law_secret_views(secrets: Seq<Secret>, at: int)
    requires
        0 <= at < secrets.len(),
    ensures
        secret_views(secrets).len() == secrets.len(),
        secret_views(secrets)[at].mount == secrets[at].mount@,
        secret_views(secrets)[at].path == secrets[at].path@,
        secret_views(secrets)[at].key == secrets[at].key@,
        secret_views(secrets)[at].var_name == secrets[at].var_name@,
{
}

/// The kinds of characters that the grammar tells apart.
#[derive(Clone, Copy)]
pub enum CharClass {
    /// Anything but a line feed.
    InLine,
    /// ASCII white space but for the line feed.
    Spacing,
    /// What the parts of a secret and the name of a mount are made of.
    Part,
    /// What a variable name starts with.
    NameStart,
    /// What a variable name goes on with.
    NameRest,
}

impl CharClass {
    /// The characters of the class.
    pub open spec fn holds(self, c: char) -> bool {
        match self {
            CharClass::InLine => c != '\n',
            CharClass::Spacing => ascii_space(c) && c != '\n',
            CharClass::Part => !white_space(c) && c != '#' && c != '=' && !control(c),
            CharClass::NameStart => 'a' <= c <= 'z' || 'A' <= c <= 'Z' || c == '_',
            CharClass::NameRest => {
                'a' <= c <= 'z' || 'A' <= c <= 'Z' || '0' <= c <= '9' || c == '_'
            },
        }
    }

    /// Decides [`CharClass::holds`].
    pub fn matches(self, c: char) -> (found: bool)
        ensures
            found == self.holds(c),
    {
        match self {
            CharClass::InLine => c != '\n',
            CharClass::Spacing => is_ascii_space(c) && c != '\n',
            CharClass::Part => !is_white_space(c) && c != '#' && c != '=' && !is_control(c),
            CharClass::NameStart => {
                ('a' <= c && c <= 'z') || ('A' <= c && c <= 'Z') || c == '_'
            },
            CharClass::NameRest => {
                ('a' <= c && c <= 'z') || ('A' <= c && c <= 'Z') || ('0' <= c && c <= '9') || c
                    == '_'
            },
        }
    }
}

/// Where the run of characters of a class that starts at `from` ends.
pub open spec fn run_end(s: Seq<char>, from: int, class: CharClass) -> int
    decreases s.len() - from,
{
    if 0 <= from < s.len() && class.holds(s[from]) {
        run_end(s, from + 1, class)
    } else {
        from
    }
}

/// Whether `word` stands at `at`.
pub open spec fn word_at(s: Seq<char>, at: int, word: Seq<char>) -> bool {
    0 <= at && at + word.len() <= s.len() && s.subrange(at, at + word.len()) == word
}

/// Whether a line is blank.
pub open spec fn blank_line(line: Seq<char>) -> bool {
    run_end(line, 0, CharClass::Spacing) == line.len()
}

/// Whether a line is a comment.
pub open spec fn comment_line(line: Seq<char>) -> bool {
    let start = run_end(line, 0, CharClass::Spacing);
    start < line.len() && line[start] == '#'
}

/// Whether a line is the version header.
pub open spec fn version_line(line: Seq<char>) -> bool {
    let word = run_end(line, 0, CharClass::Spacing);
    let number = run_end(line, word + "VERSION"@.len(), CharClass::Spacing);
    &&& word_at(line, word, "VERSION"@)
    &&& word_at(line, number, "2"@)
    &&& run_end(line, number + "2"@.len(), CharClass::Spacing) == line.len()
}

/// The mount that a line names, if it is a mount line.
pub open spec fn mount_line(line: Seq<char>) -> Option<Seq<char>> {
    let word = run_end(line, 0, CharClass::Spacing);
    let start = run_end(line, word + "MOUNT"@.len(), CharClass::Spacing);
    let end = run_end(line, start, CharClass::Part);
    if word_at(line, word, "MOUNT"@) && start < end && run_end(line, end, CharClass::Spacing)
        == line.len() {
        Some(line.subrange(start, end))
    } else {
        None
    }
}

/// What a secret line says.
pub struct SecretLineView {
    pub name: Option<Seq<char>>,
    pub path: Seq<char>,
    pub key: Seq<char>,
}

/// Where the variable name that starts at `from` ends, if an equals sign
/// follows it.
pub open spec fn name_end(line: Seq<char>, from: int) -> Option<int> {
    let end = run_end(line, from + 1, CharClass::NameRest);
    if 0 <= from < line.len() && CharClass::NameStart.holds(line[from]) && end < line.len()
        && line[end] == '=' {
        Some(end)
    } else {
        None
    }
}

/// What a line says, from `start` on, of the path and the key of a secret.
pub open spec fn location_at(line: Seq<char>, name: Option<Seq<char>>, start: int) -> Option<
    SecretLineView,
> {
    let path_end = run_end(line, start, CharClass::Part);
    let mark = run_end(line, path_end, CharClass::Spacing);
    let key = run_end(line, mark + 1, CharClass::Spacing);
    let key_end = run_end(line, key, CharClass::Part);
    if start < path_end && mark < line.len() && line[mark] == '#' && key < key_end && run_end(
        line,
        key_end,
        CharClass::Spacing,
    ) == line.len() {
        Some(
            SecretLineView {
                name,
                path: line.subrange(start, path_end),
                key: line.subrange(key, key_end),
            },
        )
    } else {
        None
    }
}

/// What a line says, if it is a secret line.
pub open spec fn secret_line(line: Seq<char>) -> Option<SecretLineView> {
    let start = run_end(line, 0, CharClass::Spacing);
    match name_end(line, start) {
        Some(end) => location_at(
            line,
            Some(line.subrange(start, end)),
            run_end(line, end + 1, CharClass::Spacing),
        ),
        None => location_at(line, None, start),
    }
}

/// A run never ends before it starts, nor beyond the sequence.
pub proof fn lemma_run_end_bounds(s: Seq<char>, from: int, class: CharClass)
    ensures
        from <= run_end(s, from, class),
        0 <= from <= s.len() ==> run_end(s, from, class) <= s.len(),
    decreases s.len() - from,
{
    if 0 <= from < s.len() && class.holds(s[from]) {
        lemma_run_end_bounds(s, from + 1, class);
    }
}

/// The line that starts at `from`, without its line feed.
pub open spec fn line_from(text: Seq<char>, from: int) -> Seq<char> {
    text.subrange(from, run_end(text, from, CharClass::InLine))
}

/// Where the first line at or after `from` starts that is neither blank nor a
/// comment, or that no line feed ends.
pub open spec fn skip_lines(text: Seq<char>, from: int) -> int
    decreases text.len() - from,
{
    let end = run_end(text, from, CharClass::InLine);
    if 0 <= from <= end < text.len() && (blank_line(line_from(text, from)) || comment_line(
        line_from(text, from),
    )) {
        skip_lines(text, end + 1)
    } else {
        from
    }
}

/// Where the version header has to stand: on the first line, or, where that
/// is empty or a comment, below the blank lines and comments at the top.
pub open spec fn version_start(text: Seq<char>) -> int {
    let end = run_end(text, 0, CharClass::InLine);
    let first = line_from(text, 0);
    if end < text.len() && (first.len() == 0 || first == seq!['\r'] || comment_line(first)) {
        skip_lines(text, end + 1)
    } else {
        0
    }
}

/// Where the lines below the version header start, if the text has one.
pub open spec fn body_start(text: Seq<char>) -> Option<int> {
    let start = version_start(text);
    let end = run_end(text, start, CharClass::InLine);
    if end < text.len() && version_line(line_from(text, start)) {
        Some(end + 1)
    } else {
        None
    }
}

/// A sequence with its slashes and dashes replaced by underscores.
pub open spec fn underscored(s: Seq<char>) -> Seq<char> {
    s.map_values(
        |c: char|
            if c == '/' || c == '-' {
                '_'
            } else {
                c
            },
    )
}

/// The variable name of a secret whose line gives none.
pub open spec fn generated_name(mount: Seq<char>, path: Seq<char>, key: Seq<char>) -> Seq<char> {
    upper_case(underscored(mount + "_"@ + path + "_"@ + key))
}

/// The secret that a secret line asks for under a mount.
pub open spec fn secret_under(mount: Seq<char>, said: SecretLineView) -> SecretView {
    SecretView {
        mount,
        path: said.path,
        key: said.key,
        var_name: match said.name {
            Some(name) => name,
            None => generated_name(mount, said.path, said.key),
        },
    }
}

/// The secrets that lines ask for, in order, and where the reading stopped.
pub struct BodyView {
    pub secrets: Seq<SecretView>,
    pub stop: int,
}

/// What the lines from `from` on say below the given mount.
pub open spec fn body_from(text: Seq<char>, from: int, mount: Option<Seq<char>>) -> BodyView
    decreases text.len() - from,
{
    let end = run_end(text, from, CharClass::InLine);
    let line = line_from(text, from);
    if !(0 <= from <= end < text.len()) {
        BodyView {
            secrets: Seq::empty(),
            stop: if comment_line(line) {
                text.len() as int
            } else {
                from
            },
        }
    } else if blank_line(line) || comment_line(line) {
        body_from(text, end + 1, mount)
    } else if mount is Some && secret_line(line) is Some {
        let rest = body_from(text, end + 1, mount);
        BodyView {
            secrets: seq![secret_under(mount->0, secret_line(line)->0)] + rest.secrets,
            stop: rest.stop,
        }
    } else if mount_line(line) is Some {
        body_from(text, end + 1, mount_line(line))
    } else {
        BodyView { secrets: Seq::empty(), stop: from }
    }
}

/// What a secrets file says: its secrets in order, or why it cannot be read.
/// A missing version header has an empty explanation.
pub open spec fn file_contents(text: Seq<char>) -> Result<Seq<SecretView>, Seq<char>> {
    match body_start(text) {
        None => Err(""@),
        Some(start) => {
            let body = body_from(text, start, None);
            let rest = trimmed(text.skip(body.stop));
            if rest.len() == 0 {
                Ok(body.secrets)
            } else {
                Err("unexpected trailing content after parse: "@ + rest)
            }
        },
    }
}

/// What `str::to_uppercase` returns.
pub uninterp spec fn upper_case(s: Seq<char>) -> Seq<char>;

/// `str::to_uppercase`: the string in upper case, as Unicode defines it. Of
/// ASCII text it maps the letters `a` to `z` to `A` to `Z` and keeps the rest.
#[verifier::external_body]
fn to_uppercase(s: &str) -> (res: String)
    ensures
        res@ == upper_case(s@),
        vstd::utf8::is_ascii_chars(s@) ==> res@ == s@.map_values(|c: char| ascii_upper(c)),
{
    s.to_uppercase()
}

/// Where the run of characters of a class that starts at `from` ends.
fn find_run_end(chars: &Vec<char>, from: usize, class: CharClass) -> (end: usize)
    requires
        from <= chars@.len(),
    ensures
        end == run_end(chars@, from as int, class),
        from <= end <= chars@.len(),
{
    let mut end: usize = from;
    while end < chars.len() && class.matches(chars[end])
        invariant
            from <= end <= chars@.len(),
            run_end(chars@, from as int, class) == run_end(chars@, end as int, class),
        decreases chars@.len() - end,
    {
        end = end + 1;
    }
    end
}

/// Whether `word` stands at `at`.
fn has_word(chars: &Vec<char>, at: usize, word: &str) -> (found: bool)
    requires
        at <= chars@.len(),
    ensures
        found == word_at(chars@, at as int, word@),
        found ==> at + word@.len() <= usize::MAX,
{
    let wanted = chars_of(word);
    if chars.len() - at < wanted.len() {
        return false;
    }
    let mut i: usize = 0;
    while i < wanted.len()
        invariant
            wanted@ == word@,
            i <= wanted@.len(),
            at + wanted@.len() <= chars@.len() <= usize::MAX,
            forall|k: int| 0 <= k < i ==> chars@[at + k] == wanted@[k],
        decreases wanted@.len() - i,
    {
        if chars[at + i] != wanted[i] {
            assert(chars@.subrange(at as int, at + word@.len())[i as int] != word@[i as int]);
            return false;
        }
        i = i + 1;
    }
    assert(chars@.subrange(at as int, at + word@.len()) =~= word@);
    true
}

/// Decides [`blank_line`].
fn is_blank_line(line: &Vec<char>) -> (found: bool)
    ensures
        found == blank_line(line@),
{
    find_run_end(line, 0, CharClass::Spacing) == line.len()
}

/// Decides [`comment_line`].
fn is_comment_line(line: &Vec<char>) -> (found: bool)
    ensures
        found == comment_line(line@),
{
    let start = find_run_end(line, 0, CharClass::Spacing);
    start < line.len() && line[start] == '#'
}

/// Decides [`version_line`].
fn is_version_line(line: &Vec<char>) -> (found: bool)
    ensures
        found == version_line(line@),
{
    proof {
        reveal_strlit("VERSION");
        reveal_strlit("2");
    }
    let word = find_run_end(line, 0, CharClass::Spacing);
    if !has_word(line, word, "VERSION") {
        return false;
    }
    let number = find_run_end(line, word + 7, CharClass::Spacing);
    if !has_word(line, number, "2") {
        return false;
    }
    find_run_end(line, number + 1, CharClass::Spacing) == line.len()
}

/// Reads a mount line.
fn read_mount_line(line: &Vec<char>) -> (mount: Option<String>)
    ensures
        match mount {
            Some(name) => mount_line(line@) == Some(name@),
            None => mount_line(line@) is None,
        },
{
    proof {
        reveal_strlit("MOUNT");
    }
    let word = find_run_end(line, 0, CharClass::Spacing);
    if !has_word(line, word, "MOUNT") {
        return None;
    }
    let start = find_run_end(line, word + 5, CharClass::Spacing);
    let end = find_run_end(line, start, CharClass::Part);
    if start < end && find_run_end(line, end, CharClass::Spacing) == line.len() {
        Some(string_of(line, start, end))
    } else {
        None
    }
}

/// What a secret line says.
struct SecretLine {
    name: Option<String>,
    path: String,
    key: String,
}

impl View for SecretLine {
    type V = SecretLineView;

    closed spec fn view(&self) -> SecretLineView {
        SecretLineView {
            name: opt_text(self.name),
            path: self.path@,
            key: self.key@,
        }
    }
}

/// Reads the path and the key of a secret from `start` on.
fn read_location(line: &Vec<char>, name: Option<String>, start: usize) -> (said: Option<SecretLine>)
    requires
        start <= line@.len(),
    ensures
        match said {
            Some(said) => location_at(line@, opt_text(name), start as int) == Some(said@),
            None => location_at(line@, opt_text(name), start as int) is None,
        },
{
    let path_end = find_run_end(line, start, CharClass::Part);
    let mark = find_run_end(line, path_end, CharClass::Spacing);
    if !(start < path_end && mark < line.len() && line[mark] == '#') {
        return None;
    }
    let key = find_run_end(line, mark + 1, CharClass::Spacing);
    let key_end = find_run_end(line, key, CharClass::Part);
    if !(key < key_end && find_run_end(line, key_end, CharClass::Spacing) == line.len()) {
        return None;
    }
    Some(
        SecretLine {
            name,
            path: string_of(line, start, path_end),
            key: string_of(line, key, key_end),
        },
    )
}

/// Reads a secret line.
fn read_secret_line(line: &Vec<char>) -> (said: Option<SecretLine>)
    ensures
        match said {
            Some(said) => secret_line(line@) == Some(said@),
            None => secret_line(line@) is None,
        },
{
    let start = find_run_end(line, 0, CharClass::Spacing);
    if start < line.len() && CharClass::NameStart.matches(line[start]) {
        let end = find_run_end(line, start + 1, CharClass::NameRest);
        if end < line.len() && line[end] == '=' {
            let name = string_of(line, start, end);
            return read_location(
                line,
                Some(name),
                find_run_end(line, end + 1, CharClass::Spacing),
            );
        }
    }
    read_location(line, None, start)
}

/// Generates a default environment variable name from mount, path and key.
pub fn generate_var_name(mount: &str, path: &str, key: &str) -> (name: String)
    ensures
        name@ == generated_name(mount@, path@, key@),
        vstd::utf8::is_ascii_chars(mount@) && vstd::utf8::is_ascii_chars(path@)
            && vstd::utf8::is_ascii_chars(key@) ==> name@ == underscored(
            mount@ + "_"@ + path@ + "_"@ + key@,
        ).map_values(|c: char| ascii_upper(c)),
        vstd::utf8::is_ascii_chars(mount@) && vstd::utf8::is_ascii_chars(path@)
            && vstd::utf8::is_ascii_chars(key@) ==> ({
            let joined = mount@ + seq!['_'] + path@ + seq!['_'] + key@;
            &&& name@.len() == joined.len()
            &&& forall|i: int|
                #![trigger name@[i]]
                0 <= i < joined.len() ==> {
                    let c = joined[i];
                    &&& c == '/' || c == '-' ==> name@[i] == '_'
                    &&& 'a' <= c <= 'z' ==> name@[i] as int == c as int - 'a' as int + 'A' as int
                    &&& c != '/' && c != '-' && !('a' <= c <= 'z') ==> name@[i] == c
                }
        }),
{
    let mut joined = mount.to_owned();
    joined.append("_");
    joined.append(path);
    joined.append("_");
    joined.append(key);
    let chars = chars_of(joined.as_str());
    let mut plain = String::new();
    let mut i: usize = 0;
    while i < chars.len()
        invariant
            i <= chars@.len(),
            plain@ == underscored(chars@.take(i as int)),
        decreases chars@.len() - i,
    {
        let c = if chars[i] == '/' || chars[i] == '-' {
            '_'
        } else {
            chars[i]
        };
        plain.push(c);
        i = i + 1;
        assert(plain@ =~= underscored(chars@.take(i as int)));
    }
    assert(chars@.take(i as int) =~= joined@);
    proof {
        reveal_strlit("_");
        assert("_"@ =~= seq!['_']);
    }
    to_uppercase(plain.as_str())
}

/// The characters of the line from `from` up to `end`.
fn line_of(chars: &Vec<char>, from: usize, end: usize) -> (line: Vec<char>)
    requires
        from <= end <= chars@.len(),
    ensures
        line@ == chars@.subrange(from as int, end as int),
{
    let mut line: Vec<char> = Vec::new();
    let mut i: usize = from;
    while i < end
        invariant
            from <= i <= end <= chars@.len(),
            line@ == chars@.subrange(from as int, i as int),
        decreases end - i,
    {
        line.push(chars[i]);
        i = i + 1;
        assert(line@ =~= chars@.subrange(from as int, i as int));
    }
    line
}

/// Finds [`skip_lines`].
fn find_skip_lines(chars: &Vec<char>, from: usize) -> (start: usize)
    requires
        from <= chars@.len(),
    ensures
        start == skip_lines(chars@, from as int),
        start <= chars@.len(),
{
    let mut start: usize = from;
    loop
        invariant
            start <= chars@.len(),
            skip_lines(chars@, from as int) == skip_lines(chars@, start as int),
        decreases chars@.len() - start,
    {
        let end = find_run_end(chars, start, CharClass::InLine);
        if end >= chars.len() {
            return start;
        }
        let line = line_of(chars, start, end);
        if !is_blank_line(&line) && !is_comment_line(&line) {
            return start;
        }
        start = end + 1;
    }
}

/// Finds [`body_start`].
fn find_body_start(chars: &Vec<char>) -> (start: Option<usize>)
    ensures
        match start {
            Some(start) => body_start(chars@) == Some(start as int) && start <= chars@.len(),
            None => body_start(chars@) is None,
        },
{
    let first_end = find_run_end(chars, 0, CharClass::InLine);
    let first = line_of(chars, 0, first_end);
    let start = if first_end < chars.len() && (first.len() == 0 || (first.len() == 1 && first[0]
        == '\r') || is_comment_line(&first)) {
        assert(first@.len() == 1 && first@[0] == '\r' ==> first@ =~= seq!['\r']);
        find_skip_lines(chars, first_end + 1)
    } else {
        0
    };
    assert(start == version_start(chars@));
    let end = find_run_end(chars, start, CharClass::InLine);
    if end < chars.len() {
        let line = line_of(chars, start, end);
        if is_version_line(&line) {
            return Some(end + 1);
        }
    }
    None
}

/// Reads the lines below the version header, and finds where that stops.
fn read_body(chars: &Vec<char>, from: usize) -> (body: (Vec<Secret>, usize))
    requires
        from <= chars@.len(),
    ensures
        secret_views(body.0@) == body_from(chars@, from as int, None).secrets,
        body.1 == body_from(chars@, from as int, None).stop,
        body.1 <= chars@.len(),
{
    let ghost whole = body_from(chars@, from as int, None);
    let mut secrets: Vec<Secret> = Vec::new();
    let mut mount: Option<String> = None;
    let mut at: usize = from;
    assert(secret_views(secrets@) + whole.secrets =~= whole.secrets);
    loop
        invariant
            at <= chars@.len(),
            whole.secrets == secret_views(secrets@) + body_from(
                chars@,
                at as int,
                opt_text(mount),
            ).secrets,
            whole.stop == body_from(chars@, at as int, opt_text(mount)).stop,
            whole == body_from(chars@, from as int, None),
        decreases chars@.len() - at,
    {
        let ghost known = opt_text(mount);
        let ghost rest = body_from(chars@, at as int, known);
        let end = find_run_end(chars, at, CharClass::InLine);
        let line = line_of(chars, at, end);
        if end >= chars.len() {
            let stop = if is_comment_line(&line) {
                chars.len()
            } else {
                at
            };
            assert(secret_views(secrets@) + rest.secrets =~= secret_views(secrets@));
            return (secrets, stop);
        }
        if !is_blank_line(&line) && !is_comment_line(&line) {
            let said = if mount.is_some() {
                read_secret_line(&line)
            } else {
                None
            };
            if let (Some(said), Some(name)) = (said, &mount) {
                let ghost before = secrets@;
                let var_name = match said.name {
                    Some(given) => given,
                    None => generate_var_name(
                        name.as_str(),
                        said.path.as_str(),
                        said.key.as_str(),
                    ),
                };
                let secret = Secret {
                    mount: name.clone(),
                    path: said.path,
                    key: said.key,
                    var_name,
                };
                secrets.push(secret);
                proof {
                    let more = body_from(chars@, end + 1, known);
                    assert(secret_views(secrets@) =~= secret_views(before).push(secret@));
                    assert(secret_views(secrets@) + more.secrets =~= secret_views(before) + (seq![
                        secret@,
                    ] + more.secrets));
                }
            } else {
                match read_mount_line(&line) {
                    Some(name) => {
                        mount = Some(name);
                    },
                    None => {
                        assert(secret_views(secrets@) + rest.secrets =~= secret_views(secrets@));
                        return (secrets, at);
                    },
                }
            }
        }
        at = end + 1;
    }
}

/// Parses a secrets file from a string.
pub fn parse_secrets_file(input: &str) -> (parsed: Result<Vec<Secret>, String>)
    ensures
        match parsed {
            Ok(secrets) => file_contents(input@) == Ok::<Seq<SecretView>, Seq<char>>(
                secret_views(secrets@),
            ),
            Err(reason) => file_contents(input@) == Err::<Seq<SecretView>, Seq<char>>(reason@),
        },
{
    let chars = chars_of(input);
    match find_body_start(&chars) {
        None => Err("".to_owned()),
        Some(start) => {
            let (secrets, stop) = read_body(&chars, start);
            let rest = trim_from(&chars, stop);
            if rest.as_str().is_empty() {
                Ok(secrets)
            } else {
                let mut reason = "unexpected trailing content after parse: ".to_owned();
                reason.append(rest.as_str());
                Err(reason)
            }
        },
    }
}

/// Why the secrets of a file could not be had.
#[derive(Debug, Clone, PartialEq, Eq)]
pub enum SecretsFileError {
    /// The file could not be read; the text says why.
    Io(String),
    /// The file does not follow the format; the text says why.
    Parse(String),
}

impl SecretsFileError {
    /// What the error says.
    pub open spec fn said(self) -> Seq<char> {
        match self {
            SecretsFileError::Io(reason) => "failed to read secrets file: "@ + reason@,
            SecretsFileError::Parse(reason) => "parse error: "@ + reason@,
        }
    }

    /// What the error says.
    pub fn message(&self) -> (message: String)
        ensures
            message@ == self.said(),
    {
        let (intro, reason) = match self {
            SecretsFileError::Io(reason) => ("failed to read secrets file: ", reason),
            SecretsFileError::Parse(reason) => ("parse error: ", reason),
        };
        let mut message = intro.to_owned();
        message.append(reason.as_str());
        message
    }
}

/// What the errors say: each its own words, and behind them the reason.
pub proof fn law_secrets_file_errors(reason: String)
    ensures
        SecretsFileError::Io(reason).said() == "failed to read secrets file: "@ + reason@,
        SecretsFileError::Parse(reason).said() == "parse error: "@ + reason@,
{
}

/// The secrets of a file whose contents were read, or could not be read for
/// the reason given.
pub fn read_secrets_file(contents: Result<String, String>) -> (read: Result<
    Vec<Secret>,
    SecretsFileError,
>)
    ensures
        match (contents, read) {
            (Err(reason), Err(SecretsFileError::Io(given))) => given == reason,
            (Ok(text), Ok(secrets)) => file_contents(text@) == Ok::<Seq<SecretView>, Seq<char>>(
                secret_views(secrets@),
            ),
            (Ok(text), Err(SecretsFileError::Parse(reason))) => file_contents(text@) == Err::<
                Seq<SecretView>,
                Seq<char>,
            >(reason@),
            _ => false,
        },
{
    match contents {
        Err(reason) => Err(SecretsFileError::Io(reason)),
        Ok(text) => match parse_secrets_file(text.as_str()) {
            Ok(secrets) => Ok(secrets),
            Err(reason) => Err(SecretsFileError::Parse(reason)),
        },
    }
}

} // verus!
