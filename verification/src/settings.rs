//! The settings file that names the selected modules for the build tool.
//!
//! The file starts with a comment that marks it as generated. The text of the
//! customization file follows, if there is one, and then two lines and an empty
//! line for each module: one that declares the module by its name, and one that
//! maps the name to the module's directory, written relative to the root.
use crate::error::Error;
use crate::path::{relative_text, DirPath, PathView};
use crate::project::{Project, ProjectView};
use crate::text::{
    append_chars, chars_of, has_prefix, has_suffix, is_prefix, is_suffix, lemma_first_index, lines,
    lines_of, slice_of, string_of, vec_views,
};
use vstd::prelude::*;

verus! {

/// What the settings file says of one module: its name and its directory,
/// relative to the root.
pub struct EntryView {
    pub name: Seq<char>,
    pub dir: Seq<char>,
}

/// One module of a settings file.
#[derive(Debug)]
pub struct SettingsEntry {
    pub name: String,
    pub dir: String,
}

impl View for SettingsEntry {
    type V = EntryView;

    open spec fn view(&self) -> EntryView {
        EntryView { name: self.name@, dir: self.dir@ }
    }
}

/// The views of a sequence of entries.
pub open spec fn entry_views(v: Seq<SettingsEntry>) -> Seq<EntryView> {
    v.map_values(|e: SettingsEntry| e@)
}

/// The lines of the comment that opens every settings file.
pub open spec fn header_lines() -> Seq<Seq<char>> {
    seq![
        "// this is auto generated, please don't edit."@,
        "// You can add logic in settings.pre.gradle.kts instead."@,
        "// Ue `abt -v open` can regenerate this file."@,
    ]
}

/// The comment that opens every settings file.
pub open spec fn header() -> Seq<char> {
    header_lines()[0] + seq!['\n'] + header_lines()[1] + seq!['\n'] + header_lines()[2] + seq![
        '\n',
    ]
}

/// The line that declares a module.
pub open spec fn declaration(name: Seq<char>) -> Seq<char> {
    "include(\":"@ + name + "\")"@
}

/// What stands before the directory in the line that maps a module to it.
pub open spec fn mapping_start(name: Seq<char>) -> Seq<char> {
    "project(\":"@ + name + "\").projectDir = file(\""@
}

/// The line that maps a module to its directory.
pub open spec fn mapping(name: Seq<char>, dir: Seq<char>) -> Seq<char> {
    mapping_start(name) + dir + "\")"@
}

/// The text of one entry: its two lines and an empty line.
pub open spec fn entry_text(e: EntryView) -> Seq<char> {
    declaration(e.name) + seq!['\n'] + mapping(e.name, e.dir) + seq!['\n', '\n']
}

/// The text of a sequence of entries.
pub open spec fn entries_text(entries: Seq<EntryView>) -> Seq<char>
    decreases entries.len(),
{
    if entries.len() == 0 {
        Seq::empty()
    } else {
        entry_text(entries[0]) + entries_text(entries.skip(1))
    }
}

/// The entry of a module in the settings file of `root`.
pub open spec fn entry_of(p: ProjectView, root: PathView) -> EntryView {
    EntryView { name: p.name, dir: relative_text(p.path, root) }
}

/// The entries of a sequence of modules, in their order.
pub open spec fn entries_of(projects: Seq<ProjectView>, root: PathView) -> Seq<EntryView> {
    projects.map_values(|p: ProjectView| entry_of(p, root))
}

/// The text of a settings file: the header, the text of the customization
/// file if there is one, and the entries.
pub open spec fn settings_text(prologue: Option<Seq<char>>, entries: Seq<EntryView>) -> Seq<char> {
    let custom = match prologue {
        Some(text) => text,
        None => Seq::empty(),
    };
    header() + custom + entries_text(entries)
}

/// What lies between `prefix` and `suffix` in a line that starts with the one
/// and ends with the other.
pub open spec fn between(line: Seq<char>, prefix: Seq<char>, suffix: Seq<char>) -> Option<
    Seq<char>,
> {
    if prefix.len() + suffix.len() <= line.len() && is_prefix(prefix, line) && is_suffix(
        suffix,
        line,
    ) {
        Some(line.subrange(prefix.len() as int, line.len() - suffix.len()))
    } else {
        None
    }
}

/// The name that a line declares, if it is a declaration.
pub open spec fn declared_name(line: Seq<char>) -> Option<Seq<char>> {
    between(line, "include(\":"@, "\")"@)
}

/// The directory that a line maps `name` to, if it is the mapping of `name`.
pub open spec fn mapped_dir(line: Seq<char>, name: Seq<char>) -> Option<Seq<char>> {
    between(line, mapping_start(name), "\")"@)
}

/// The entries that a sequence of lines holds: each declaration that the
/// mapping of the declared name follows directly. Other lines are passed over.
pub open spec fn entries_in(lines: Seq<Seq<char>>) -> Seq<EntryView>
    decreases lines.len(),
{
    if lines.len() < 2 {
        Seq::empty()
    } else {
        match declared_name(lines[0]) {
            Some(name) => match mapped_dir(lines[1], name) {
                Some(dir) => seq![EntryView { name, dir }] + entries_in(lines.skip(2)),
                None => entries_in(lines.skip(1)),
            },
            None => entries_in(lines.skip(1)),
        }
    }
}

/// The entries that the text of a settings file holds.
pub open spec fn parsed_settings(text: Seq<char>) -> Seq<EntryView> {
    entries_in(lines_of(text))
}

/// A text that can stand on one line: it holds no line feed.
pub open spec fn on_one_line(s: Seq<char>) -> bool {
    !s.contains('\n')
}

/// The text of entries grows by the text of an entry that is added at the end.
pub proof fn lemma_entries_text_push(entries: Seq<EntryView>, e: EntryView)
    ensures
        entries_text(entries.push(e)) == entries_text(entries) + entry_text(e),
    decreases entries.len(),
{
    let all = entries.push(e);
    if entries.len() == 0 {
        assert(entries_text(all.skip(1)) =~= Seq::<char>::empty());
    } else {
        assert(all.skip(1) =~= entries.skip(1).push(e));
        lemma_entries_text_push(entries.skip(1), e);
    }
}

/// A line that holds no line feed and does not end in a carriage return is the
/// first line of any text that starts with it and a line feed.
pub proof fn lemma_first_line(line: Seq<char>, rest: Seq<char>)
    requires
        on_one_line(line),
        line.len() == 0 || line.last() != '\r',
    ensures
        lines_of(line + seq!['\n'] + rest) == seq![line] + lines_of(rest),
{
    let text = line + seq!['\n'] + rest;
    assert forall|k: int| 0 <= k < line.len() implies text[k] != '\n' by {}
    assert(text[line.len() as int] == '\n');
    lemma_first_index(text, '\n', line.len() as int);
    assert(text.take(line.len() as int) =~= line);
    assert(text.skip(line.len() as int + 1) =~= rest);
}

/// A text made of parts that hold no line feed holds none.
pub proof fn lemma_on_one_line(a: Seq<char>, b: Seq<char>)
    requires
        on_one_line(a),
        on_one_line(b),
    ensures
        on_one_line(a + b),
{
    let s = a + b;
    assert forall|k: int| 0 <= k < s.len() implies s[k] != '\n' by {
        if k < a.len() {
            assert(a.contains(a[k]));
        }
    }
}

/// The lines of an entry are its declaration, its mapping and an empty line.
pub proof fn lemma_entry_lines(e: EntryView, rest: Seq<char>)
    requires
        on_one_line(e.name),
        on_one_line(e.dir),
    ensures
        lines_of(entry_text(e) + rest) == seq![
            declaration(e.name),
            mapping(e.name, e.dir),
            Seq::<char>::empty(),
        ] + lines_of(rest),
{
    reveal_strlit("include(\":");
    reveal_strlit("\")");
    reveal_strlit("project(\":");
    reveal_strlit("\").projectDir = file(\"");
    let first = declaration(e.name);
    let second = mapping(e.name, e.dir);
    let close = "\")"@;
    lemma_on_one_line("include(\":"@, e.name);
    lemma_on_one_line("include(\":"@ + e.name, close);
    lemma_on_one_line("project(\":"@, e.name);
    lemma_on_one_line("project(\":"@ + e.name, "\").projectDir = file(\""@);
    lemma_on_one_line(mapping_start(e.name), e.dir);
    lemma_on_one_line(mapping_start(e.name) + e.dir, close);
    let empty = Seq::<char>::empty();
    let after_second = seq!['\n'] + rest;
    let after_first = second + seq!['\n'] + after_second;
    assert(entry_text(e) + rest =~= first + seq!['\n'] + after_first);
    lemma_first_line(first, after_first);
    lemma_first_line(second, after_second);
    lemma_first_line(empty, rest);
}

/// The declaration of a name declares that name, and the mapping of a name to
/// a directory maps it there.
pub proof fn lemma_entry_reads_back(e: EntryView)
    ensures
        declared_name(declaration(e.name)) == Some(e.name),
        mapped_dir(mapping(e.name, e.dir), e.name) == Some(e.dir),
        declared_name(Seq::<char>::empty()) is None,
{
    reveal_strlit("include(\":");
    reveal_strlit("\")");
    let open = "include(\":"@;
    let close = "\")"@;
    let first = declaration(e.name);
    assert(first.take(open.len() as int) =~= open);
    assert(first.skip(first.len() - close.len()) =~= close);
    assert(first.subrange(open.len() as int, first.len() - close.len()) =~= e.name);
    let start = mapping_start(e.name);
    let second = mapping(e.name, e.dir);
    assert(second.take(start.len() as int) =~= start);
    assert(second.skip(second.len() - close.len()) =~= close);
}

/// The lines of entries hold exactly those entries.
pub proof fn lemma_entries_read_back(entries: Seq<EntryView>)
    requires
        forall|i: int|
            0 <= i < entries.len() ==> on_one_line((#[trigger] entries[i]).name) && on_one_line(
                entries[i].dir,
            ),
    ensures
        parsed_settings(entries_text(entries)) == entries,
    decreases entries.len(),
{
    if entries.len() == 0 {
    } else {
        let e = entries[0];
        let rest = entries.skip(1);
        assert forall|i: int| 0 <= i < rest.len() implies on_one_line((#[trigger] rest[i]).name)
            && on_one_line(rest[i].dir) by {}
        lemma_entries_read_back(rest);
        lemma_entry_lines(e, entries_text(rest));
        lemma_entry_reads_back(e);
        let tail = lines_of(entries_text(rest));
        let all = seq![declaration(e.name), mapping(e.name, e.dir), Seq::<char>::empty()] + tail;
        let blank = all.skip(2);
        if blank.len() >= 2 {
            assert(blank.skip(1) =~= tail);
            assert(entries_in(blank) == entries_in(tail));
        } else {
            assert(tail.len() == 0);
        }
    }
}

/// A line of the header declares nothing.
proof fn lemma_header_line_is_passed_over(i: int)
    requires
        0 <= i < 3,
    ensures
        declared_name(header_lines()[i]) is None,
        on_one_line(header_lines()[i]),
        header_lines()[i].len() > 0,
        header_lines()[i].last() != '\r',
{
    reveal_strlit("include(\":");
    reveal_strlit("// this is auto generated, please don't edit.");
    reveal_strlit("// You can add logic in settings.pre.gradle.kts instead.");
    reveal_strlit("// Ue `abt -v open` can regenerate this file.");
    let line = header_lines()[i];
    let open = "include(\":"@;
    if is_prefix(open, line) {
        assert(line.take(open.len() as int)[0] == open[0]);
    }
}

/// Round trip: the text that is written for a sequence of modules, without a
/// customization file, reads back as the names and the directories of exactly
/// those modules, in their order. Names and directories must not hold a line
/// feed.
pub proof fn lemma_settings_round_trip(entries: Seq<EntryView>)
    requires
        forall|i: int|
            0 <= i < entries.len() ==> on_one_line((#[trigger] entries[i]).name) && on_one_line(
                entries[i].dir,
            ),
    ensures
        parsed_settings(settings_text(None, entries)) == entries,
{
    let body = entries_text(entries);
    let h = header_lines();
    lemma_header_line_is_passed_over(0);
    lemma_header_line_is_passed_over(1);
    lemma_header_line_is_passed_over(2);
    lemma_entries_read_back(entries);
    let after_second = h[2] + seq!['\n'] + body;
    let after_first = h[1] + seq!['\n'] + after_second;
    assert(settings_text(None, entries) =~= h[0] + seq!['\n'] + after_first);
    lemma_first_line(h[0], after_first);
    lemma_first_line(h[1], after_second);
    lemma_first_line(h[2], body);
    let tail = lines_of(body);
    let from2 = seq![h[2]] + tail;
    let from1 = seq![h[1]] + from2;
    let from0 = seq![h[0]] + from1;
    assert(from0.skip(1) =~= from1);
    assert(from1.skip(1) =~= from2);
    assert(from2.skip(1) =~= tail);
    assert(entries_in(from1) == entries_in(from2));
}

/// The text of one entry, appended to `out`.
fn write_entry(out: &mut Vec<char>, name: &Vec<char>, dir: &Vec<char>)
    ensures
        final(out)@ == old(out)@ + entry_text(EntryView { name: name@, dir: dir@ }),
{
    let close = chars_of("\")");
    append_chars(out, &chars_of("include(\":"));
    append_chars(out, name);
    append_chars(out, &close);
    out.push('\n');
    append_chars(out, &chars_of("project(\":"));
    append_chars(out, name);
    append_chars(out, &chars_of("\").projectDir = file(\""));
    append_chars(out, dir);
    append_chars(out, &close);
    out.push('\n');
    out.push('\n');
}

/// The views of a sequence of modules.
pub open spec fn project_views(v: Seq<Project>) -> Seq<ProjectView> {
    v.map_values(|p: Project| p@)
}

/// The text of the entries of `projects` in the settings file of `root`.
pub fn render_entries(projects: &Vec<Project>, root: &DirPath) -> (text: String)
    ensures
        text@ == entries_text(entries_of(project_views(projects@), root@)),
{
    let mut out: Vec<char> = Vec::new();
    write_entries(&mut out, projects, root);
    string_of(&out)
}

/// The entries of `projects`, appended to `out`.
fn write_entries(out: &mut Vec<char>, projects: &Vec<Project>, root: &DirPath)
    ensures
        final(out)@ == old(out)@ + entries_text(entries_of(project_views(projects@), root@)),
{
    let ghost all = entries_of(project_views(projects@), root@);
    let mut i: usize = 0;
    while i < projects.len()
        invariant
            i <= projects.len(),
            all == entries_of(project_views(projects@), root@),
            out@ == old(out)@ + entries_text(all.take(i as int)),
        decreases projects.len() - i,
    {
        let p = &projects[i];
        let dir = p.path.relative_to(root);
        proof {
            assert(all.take(i + 1) =~= all.take(i as int).push(all[i as int]));
            lemma_entries_text_push(all.take(i as int), all[i as int]);
        }
        write_entry(out, &chars_of(p.name.as_str()), &chars_of(dir.as_str()));
        i += 1;
    }
    assert(all.take(projects.len() as int) =~= all);
}

/// The text of the settings file that names `projects`, with the text of the
/// customization file after the header if there is one.
pub fn render_settings(projects: &Vec<Project>, root: &DirPath, prologue: Option<&str>) -> (text:
    String)
    ensures
        text@ == settings_text(
            match prologue {
                Some(t) => Some(t@),
                None => None,
            },
            entries_of(project_views(projects@), root@),
        ),
{
    let mut out: Vec<char> = Vec::new();
    append_chars(&mut out, &chars_of("// this is auto generated, please don't edit."));
    out.push('\n');
    append_chars(&mut out, &chars_of("// You can add logic in settings.pre.gradle.kts instead."));
    out.push('\n');
    append_chars(&mut out, &chars_of("// Ue `abt -v open` can regenerate this file."));
    out.push('\n');
    match prologue {
        Some(t) => {
            append_chars(&mut out, &chars_of(t));
        },
        None => {
        },
    }
    write_entries(&mut out, projects, root);
    string_of(&out)
}

/// What lies between `prefix` and `suffix` in `line`, if the line starts with
/// the one and ends with the other.
fn cut(line: &Vec<char>, prefix: &Vec<char>, suffix: &Vec<char>) -> (r: Option<Vec<char>>)
    ensures
        r is Some <==> between(line@, prefix@, suffix@) is Some,
        r matches Some(inner) ==> inner@ == between(line@, prefix@, suffix@)->Some_0,
{
    if prefix.len() > line.len() || suffix.len() > line.len() - prefix.len() {
        return None;
    }
    if !has_prefix(line, prefix) {
        return None;
    }
    if !has_suffix(line, suffix) {
        return None;
    }
    Some(slice_of(line, prefix.len(), line.len() - suffix.len()))
}

/// The entries that the text of a settings file holds.
pub fn parse_settings(text: &str) -> (r: Vec<SettingsEntry>)
    ensures
        entry_views(r@) == parsed_settings(text@),
{
    let all = lines(&chars_of(text));
    let open = chars_of("include(\":");
    let close = chars_of("\")");
    let mut r: Vec<SettingsEntry> = Vec::new();
    let mut i: usize = 0;
    assert(vec_views(all@).skip(0) =~= vec_views(all@));
    while i < all.len() && all.len() - i >= 2
        invariant
            i <= all.len(),
            open@ == "include(\":"@,
            close@ == "\")"@,
            entries_in(vec_views(all@)) == entry_views(r@) + entries_in(
                vec_views(all@).skip(i as int),
            ),
        decreases all.len() - i,
    {
        let ghost rest = vec_views(all@).skip(i as int);
        assert(rest.skip(1) =~= vec_views(all@).skip(i + 1));
        assert(rest.skip(2) =~= vec_views(all@).skip(i + 2));
        let mut step: usize = 1;
        match cut(&all[i], &open, &close) {
            Some(name) => {
                let mut start = chars_of("project(\":");
                append_chars(&mut start, &name);
                append_chars(&mut start, &chars_of("\").projectDir = file(\""));
                match cut(&all[i + 1], &start, &close) {
                    Some(dir) => {
                        let e = SettingsEntry { name: string_of(&name), dir: string_of(&dir) };
                        r.push(e);
                        step = 2;
                    },
                    None => {},
                }
            },
            None => {},
        }
        i += step;
    }
    r
}

/// The error for a settings file that could not be written. It names the file.
pub fn write_failed(file: &DirPath, cause: &str) -> (e: Error)
    ensures
        e@.description == "Can't write to "@ + crate::path::path_text(file@),
        e@.cause == Some(cause@),
{
    let mut text = chars_of("Can't write to ");
    append_chars(&mut text, &chars_of(file.display().as_str()));
    Error::new(string_of(&text).as_str(), cause)
}

} // verus!
