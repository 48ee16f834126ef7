//! Making new modules from templates: which templates are meant, what the new
//! modules are called, and how names and texts of a template are rewritten.
//!
//! Copying the files is left to the caller.
use crate::error::{Error, Result};
use crate::path::{is_under, joined_path, parsed_path, path_text, DirPath, PathView};
use crate::projects::Projects;
use crate::text::{
    append_chars, chars_of, holds_text, join, joined, pieces_of, replace, replaced, split,
    split_on, string_of, strings_of, trim, trimmed, trimmed_pieces, vec_views, views,
};
use vstd::prelude::*;

verus! {

/// The upper case form of a small letter of the first 128 characters; every
/// other character stands for itself.
pub open spec fn ascii_upper(c: char) -> char {
    if 'a' <= c && c <= 'z' {
        ((c as u8) - 32) as char
    } else {
        c
    }
}

/// The lower case form of a capital letter of the first 128 characters; every
/// other character stands for itself.
pub open spec fn ascii_lower(c: char) -> char {
    if 'A' <= c && c <= 'Z' {
        ((c as u8) + 32) as char
    } else {
        c
    }
}

/// `s` with every character in lower case.
pub open spec fn lowered(s: Seq<char>) -> Seq<char> {
    s.map_values(|c: char| ascii_lower(c))
}

/// The words of a directory name: the pieces between its slashes and hyphens.
pub open spec fn feature_words(dir: Seq<char>) -> Seq<Seq<char>> {
    split_on(replaced(dir, seq!['/'], seq!['-']), '-')
}

/// A word with its first character in upper case.
pub open spec fn capitalized(word: Seq<char>) -> Seq<char> {
    seq![ascii_upper(word[0])] + word.skip(1)
}

/// Every word starts with one of the first 128 characters.
pub open spec fn can_capitalize(words: Seq<Seq<char>>) -> bool {
    forall|i: int|
        0 <= i < words.len() ==> (#[trigger] words[i]).len() > 0 && (words[i][0] as u32) < 128
}

/// The words, each capitalized, one after the other.
pub open spec fn camel_case(words: Seq<Seq<char>>) -> Seq<char>
    decreases words.len(),
{
    if words.len() == 0 {
        Seq::empty()
    } else {
        camel_case(words.drop_last()) + capitalized(words.last())
    }
}

/// The name of the feature that lives in `dir`: its words in camel case.
pub open spec fn feature_name_of(dir: Seq<char>) -> Seq<char> {
    camel_case(feature_words(dir))
}

/// The name of the package that lives in `dir`: the directory in lower case,
/// with a dot after a leading `feature`, without its other hyphens, with dots
/// for slashes, and without `.domain`.
pub open spec fn package_name_of(dir: Seq<char>) -> Seq<char> {
    replaced(
        replaced(
            replaced(replaced(lowered(dir), "feature-"@, "feature."@), seq!['-'], Seq::empty()),
            seq!['/'],
            seq!['.'],
        ),
        ".domain"@,
        Seq::empty(),
    )
}

/// A token of a template and the text that takes its place.
pub struct TokenView {
    pub token: Seq<char>,
    pub text: Seq<char>,
}

/// The tokens of a template for the module in `dir`: the name of the feature,
/// then the name of the package.
pub open spec fn tokens_of(dir: Seq<char>) -> Seq<TokenView> {
    seq![
        TokenView { token: "#{featureName}"@, text: feature_name_of(dir) },
        TokenView { token: "#{packageName}"@, text: package_name_of(dir) },
    ]
}

/// A text with its tokens replaced, one token after the other.
pub open spec fn filled(content: Seq<char>, tokens: Seq<TokenView>) -> Seq<char>
    decreases tokens.len(),
{
    if tokens.len() == 0 {
        content
    } else {
        let before = filled(content, tokens.drop_last());
        replaced(before, tokens.last().token, tokens.last().text)
    }
}

/// The name of a file or directory of a template in the new module:
/// `FeatureName` gives way to the name of the feature and `template-feature`
/// to the path of the package.
pub open spec fn renamed(component: Seq<char>, feature: Seq<char>, package_path: Seq<char>) -> Seq<
    char,
> {
    replaced(replaced(component, "FeatureName"@, feature), "template-feature"@, package_path)
}

/// The path of the package of the module in `dir`: the name of the package
/// with slashes for dots.
pub open spec fn package_path_of(dir: Seq<char>) -> Seq<char> {
    replaced(package_name_of(dir), seq!['.'], seq!['/'])
}

/// Where a file of a template goes: below `target`, along the renamed
/// components of its path in the template.
pub open spec fn target_of(
    target: PathView,
    components: Seq<Seq<char>>,
    feature: Seq<char>,
    package_path: Seq<char>,
) -> PathView
    decreases components.len(),
{
    if components.len() == 0 {
        target
    } else {
        joined_path(
            target_of(target, components.drop_last(), feature, package_path),
            parsed_path(renamed(components.last(), feature, package_path)),
        )
    }
}

/// The upper case form of a character.
pub fn to_ascii_upper(c: char) -> (r: char)
    ensures
        r == ascii_upper(c),
{
    if 'a' <= c && c <= 'z' {
        let b: u8 = c as u8;
        (b - 32) as char
    } else {
        c
    }
}

/// The lower case form of a character.
pub fn to_ascii_lower(c: char) -> (r: char)
    ensures
        r == ascii_lower(c),
{
    if 'A' <= c && c <= 'Z' {
        let b: u8 = c as u8;
        (b + 32) as char
    } else {
        c
    }
}

/// `s` with every character in lower case.
pub fn lower(s: &Vec<char>) -> (r: Vec<char>)
    ensures
        r@ == lowered(s@),
{
    let mut r: Vec<char> = Vec::new();
    let mut i: usize = 0;
    while i < s.len()
        invariant
            i <= s.len(),
            r@ == lowered(s@.take(i as int)),
        decreases s.len() - i,
    {
        r.push(to_ascii_lower(s[i]));
        i += 1;
    }
    r
}

/// Whether the words of `dir` can be capitalized: each has a first character,
/// and it is one of the first 128.
pub fn can_name_feature(dir: &str) -> (b: bool)
    ensures
        b == can_capitalize(feature_words(dir@)),
{
    let slash: Vec<char> = vec!['/'];
    let hyphen: Vec<char> = vec!['-'];
    assert(slash@ =~= seq!['/']);
    assert(hyphen@ =~= seq!['-']);
    let flat = replace(&chars_of(dir), &slash, &hyphen);
    let parts = split(&flat, '-');
    let ghost all = vec_views(parts@);
    let mut i: usize = 0;
    while i < parts.len()
        invariant
            i <= parts.len(),
            all == vec_views(parts@),
            all == feature_words(dir@),
            forall|k: int| 0 <= k < i ==> (#[trigger] all[k]).len() > 0 && (all[k][0] as u32) < 128,
        decreases parts.len() - i,
    {
        let word = &parts[i];
        assert(all[i as int] == word@);
        if word.len() == 0 || (word[0] as u32) >= 128 {
            return false;
        }
        i += 1;
    }
    true
}

/// The name of the feature that lives in `dir`.
pub fn feature_name(dir: &str) -> (r: String)
    requires
        can_capitalize(feature_words(dir@)),
    ensures
        r@ == feature_name_of(dir@),
{
    let slash: Vec<char> = vec!['/'];
    let hyphen: Vec<char> = vec!['-'];
    assert(slash@ =~= seq!['/']);
    assert(hyphen@ =~= seq!['-']);
    let flat = replace(&chars_of(dir), &slash, &hyphen);
    let parts = split(&flat, '-');
    let ghost all = vec_views(parts@);
    let mut out: Vec<char> = Vec::new();
    let mut i: usize = 0;
    while i < parts.len()
        invariant
            i <= parts.len(),
            all == vec_views(parts@),
            can_capitalize(all),
            out@ == camel_case(all.take(i as int)),
        decreases parts.len() - i,
    {
        let word = &parts[i];
        proof {
            assert(all[i as int] == word@);
            assert(all.take(i + 1).drop_last() =~= all.take(i as int));
        }
        out.push(to_ascii_upper(word[0]));
        let rest = crate::text::slice_of(word, 1, word.len());
        append_chars(&mut out, &rest);
        i += 1;
    }
    assert(all.take(parts.len() as int) =~= all);
    string_of(&out)
}

/// The name of the package that lives in `dir`.
pub fn package_name(dir: &str) -> (r: String)
    ensures
        r@ == package_name_of(dir@),
{
    let empty: Vec<char> = Vec::new();
    let slash: Vec<char> = vec!['/'];
    let hyphen: Vec<char> = vec!['-'];
    let dot: Vec<char> = vec!['.'];
    assert(slash@ =~= seq!['/']);
    assert(hyphen@ =~= seq!['-']);
    assert(dot@ =~= seq!['.']);
    let a = lower(&chars_of(dir));
    let b = replace(&a, &chars_of("feature-"), &chars_of("feature."));
    let c = replace(&b, &hyphen, &empty);
    let d = replace(&c, &slash, &dot);
    let e = replace(&d, &chars_of(".domain"), &empty);
    string_of(&e)
}

/// A token of a template and the text that takes its place.
#[derive(Debug)]
pub struct Token {
    pub token: String,
    pub text: String,
}

impl View for Token {
    type V = TokenView;

    open spec fn view(&self) -> TokenView {
        TokenView { token: self.token@, text: self.text@ }
    }
}

/// The views of a sequence of tokens.
pub open spec fn token_views(v: Seq<Token>) -> Seq<TokenView> {
    v.map_values(|t: Token| t@)
}

/// The tokens of a template for the module in `dir`.
pub fn create_tokens(dir: &str) -> (r: Vec<Token>)
    requires
        can_capitalize(feature_words(dir@)),
    ensures
        token_views(r@) == tokens_of(dir@),
{
    let mut r: Vec<Token> = Vec::new();
    r.push(Token { token: string_of(&chars_of("#{featureName}")), text: feature_name(dir) });
    r.push(Token { token: string_of(&chars_of("#{packageName}")), text: package_name(dir) });
    r
}

/// A text with its tokens replaced, one token after the other.
pub fn fill_tokens(content: &str, tokens: &Vec<Token>) -> (r: String)
    ensures
        r@ == filled(content@, token_views(tokens@)),
{
    let mut text = chars_of(content);
    let ghost all = token_views(tokens@);
    let mut i: usize = 0;
    while i < tokens.len()
        invariant
            i <= tokens.len(),
            all == token_views(tokens@),
            text@ == filled(content@, all.take(i as int)),
        decreases tokens.len() - i,
    {
        proof {
            assert(all.take(i + 1).drop_last() =~= all.take(i as int));
        }
        text = replace(
            &text,
            &chars_of(tokens[i].token.as_str()),
            &chars_of(tokens[i].text.as_str()),
        );
        i += 1;
    }
    assert(all.take(tokens.len() as int) =~= all);
    string_of(&text)
}

/// The path of the package of the module in `dir`.
pub fn package_path(dir: &str) -> (r: String)
    ensures
        r@ == package_path_of(dir@),
{
    let slash: Vec<char> = vec!['/'];
    let dot: Vec<char> = vec!['.'];
    assert(slash@ =~= seq!['/']);
    assert(dot@ =~= seq!['.']);
    string_of(&replace(&chars_of(package_name(dir).as_str()), &dot, &slash))
}

/// Where a file of a template goes. `relative` is the path of the file below
/// the template.
pub fn target_path(target: &DirPath, relative: &Vec<String>, feature: &str, package_path: &str) -> (r:
    DirPath)
    ensures
        r@ == target_of(target@, views(relative@), feature@, package_path@),
{
    let mut r = target.clone();
    let ghost all = views(relative@);
    let mut i: usize = 0;
    while i < relative.len()
        invariant
            i <= relative.len(),
            all == views(relative@),
            r@ == target_of(target@, all.take(i as int), feature@, package_path@),
        decreases relative.len() - i,
    {
        proof {
            assert(all.take(i + 1).drop_last() =~= all.take(i as int));
        }
        let a = replace(
            &chars_of(relative[i].as_str()),
            &chars_of("FeatureName"),
            &chars_of(feature),
        );
        let b = replace(&a, &chars_of("template-feature"), &chars_of(package_path));
        r = r.join(&DirPath::parse(string_of(&b).as_str()));
        i += 1;
    }
    assert(all.take(relative.len() as int) =~= all);
    r
}

/// The names that a list separated by commas holds: its pieces without the
/// white space around them, as far as anything is left of them.
pub open spec fn listed(list: Seq<char>) -> Seq<Seq<char>> {
    pieces_of(list, ',')
}

/// The kinds of template that are meant: every entry of the template
/// directory where none is asked for, and otherwise those asked for that are
/// directories there.
pub open spec fn template_kinds(
    types: Seq<char>,
    entries: Seq<Seq<char>>,
    dirs: Seq<Seq<char>>,
) -> Seq<Seq<char>> {
    if trimmed(types).len() == 0 {
        entries
    } else {
        listed(types).filter(|t: Seq<char>| dirs.contains(t))
    }
}

/// The path that a text names, taken from the root unless it is absolute.
pub open spec fn from_root(root: PathView, path: Seq<char>) -> PathView {
    joined_path(root, parsed_path(path))
}

/// The name of the module at `target`, as the templates spell it: the
/// segments below the root with hyphens between them.
pub open spec fn hyphenated(root: PathView, target: PathView) -> Seq<char> {
    joined(target.segments.skip(root.segments.len() as int), seq!['-'])
}

/// The names of the modules that are made from several kinds of template: for
/// each kind that has a name, the name of the target, a hyphen and the kind.
pub open spec fn kind_names(base: Seq<char>, kinds: Seq<Seq<char>>) -> Seq<Seq<char>> {
    kinds.filter(|t: Seq<char>| t.len() > 0).map_values(|t: Seq<char>| base + seq!['-'] + t)
}

/// The pattern that matches the names of the modules to make, and no other
/// name.
pub open spec fn name_pattern_of(base: Seq<char>, kinds: Seq<Seq<char>>) -> Seq<char> {
    if kinds.len() == 1 {
        seq!['^'] + base + seq!['$']
    } else {
        seq!['^'] + joined(kind_names(base, kinds), seq!['|']) + seq!['$']
    }
}

/// What a module to make is: the template it is copied from and the directory
/// it goes to.
pub struct CopyView {
    pub template: PathView,
    pub target: PathView,
}

/// The copies that make the modules: one kind of template goes to the target
/// itself, several kinds go each to a directory of their own below it.
pub open spec fn copies_of(templates: PathView, target: PathView, kinds: Seq<Seq<char>>) -> Seq<
    CopyView,
> {
    if kinds.len() == 1 {
        seq![
            CopyView {
                template: PathView {
                    absolute: templates.absolute,
                    segments: templates.segments.push(kinds[0]),
                },
                target,
            },
        ]
    } else {
        kinds.map_values(
            |t: Seq<char>|
                CopyView {
                    template: PathView {
                        absolute: templates.absolute,
                        segments: templates.segments.push(t),
                    },
                    target: PathView {
                        absolute: target.absolute,
                        segments: target.segments.push(t),
                    },
                },
        )
    }
}

/// One module to make.
#[derive(Debug)]
pub struct TemplateCopy {
    pub template: DirPath,
    pub target: DirPath,
}

impl View for TemplateCopy {
    type V = CopyView;

    open spec fn view(&self) -> CopyView {
        CopyView { template: self.template@, target: self.target@ }
    }
}

/// What is to be done to make new modules.
#[derive(Debug)]
pub struct CreatePlan {
    /// Matches the names of the modules to make. None of them may exist yet.
    pub name_pattern: String,
    /// The modules to make.
    pub copies: Vec<TemplateCopy>,
    /// The names of files and directories that are not copied.
    pub excludes: Vec<String>,
}

/// What a plan is.
pub struct CreatePlanView {
    pub name_pattern: Seq<char>,
    pub copies: Seq<CopyView>,
    pub excludes: Seq<Seq<char>>,
}

impl View for CreatePlan {
    type V = CreatePlanView;

    open spec fn view(&self) -> CreatePlanView {
        CreatePlanView {
            name_pattern: self.name_pattern@,
            copies: self.copies@.map_values(|c: TemplateCopy| c@),
            excludes: views(self.excludes@),
        }
    }
}

/// The plan for the modules at `path`, made from the templates under `from`.
pub open spec fn plan_of(
    root: PathView,
    path: Seq<char>,
    from: Seq<char>,
    excludes: Seq<char>,
    kinds: Seq<Seq<char>>,
) -> CreatePlanView {
    let target = from_root(root, path);
    CreatePlanView {
        name_pattern: name_pattern_of(hyphenated(root, target), kinds),
        copies: copies_of(from_root(root, from), target, kinds),
        excludes: split_on(excludes, ','),
    }
}

/// The names that a list separated by commas holds.
pub fn parse_list(list: &str) -> (r: Vec<String>)
    ensures
        views(r@) == listed(list@),
{
    trimmed_pieces(&chars_of(list), ',')
}

/// The kinds of template that are meant. `entries` names what the template
/// directory holds, and `dirs` names the directories among that.
pub fn module_types(types: &str, entries: &Vec<String>, dirs: &Vec<String>) -> (r: Vec<String>)
    ensures
        views(r@) == template_kinds(types@, views(entries@), views(dirs@)),
{
    if trim(&chars_of(types)).len() == 0 {
        return crate::path::clone_strings(entries);
    }
    let asked = parse_list(types);
    let ghost all = views(asked@);
    let ghost known = |t: Seq<char>| views(dirs@).contains(t);
    let mut r: Vec<String> = Vec::new();
    let mut i: usize = 0;
    while i < asked.len()
        invariant
            i <= asked.len(),
            all == views(asked@),
            known == |t: Seq<char>| views(dirs@).contains(t),
            views(r@) == all.take(i as int).filter(known),
        decreases asked.len() - i,
    {
        proof {
            assert(all.take(i + 1).drop_last() =~= all.take(i as int));
            reveal(Seq::filter);
        }
        if holds_text(dirs, asked[i].as_str()) {
            let s = asked[i].clone();
            r.push(s);
        }
        i += 1;
    }
    assert(all.take(asked.len() as int) =~= all);
    r
}

/// The pattern that matches the names of the modules to make.
pub fn name_pattern(base: &str, kinds: &Vec<String>) -> (r: String)
    ensures
        r@ == name_pattern_of(base@, views(kinds@)),
{
    let mut out: Vec<char> = vec!['^'];
    if kinds.len() == 1 {
        append_chars(&mut out, &chars_of(base));
    } else {
        let ghost all = views(kinds@);
        let ghost named = |t: Seq<char>| t.len() > 0;
        let ghost full = |t: Seq<char>| base@ + seq!['-'] + t;
        let mut names: Vec<Vec<char>> = Vec::new();
        let mut i: usize = 0;
        while i < kinds.len()
            invariant
                i <= kinds.len(),
                all == views(kinds@),
                named == |t: Seq<char>| t.len() > 0,
                full == |t: Seq<char>| base@ + seq!['-'] + t,
                vec_views(names@) == all.take(i as int).filter(named).map_values(full),
            decreases kinds.len() - i,
        {
            let ghost before = names@;
            let kind = chars_of(kinds[i].as_str());
            proof {
                assert(all.take(i + 1).drop_last() =~= all.take(i as int));
                reveal(Seq::filter);
            }
            if kind.len() > 0 {
                let mut name = chars_of(base);
                name.push('-');
                append_chars(&mut name, &kind);
                names.push(name);
                proof {
                    assert(name@ =~= full(kind@));
                    assert(vec_views(names@) =~= vec_views(before).push(name@));
                }
            }
            i += 1;
        }
        assert(all.take(kinds.len() as int) =~= all);
        let bar: Vec<char> = vec!['|'];
        assert(bar@ =~= seq!['|']);
        append_chars(&mut out, &join(&names, &bar));
    }
    out.push('$');
    string_of(&out)
}

/// The copies that make the modules.
pub fn plan_copies(templates: &DirPath, target: &DirPath, kinds: &Vec<String>) -> (r: Vec<TemplateCopy>)
    ensures
        r@.map_values(|c: TemplateCopy| c@) == copies_of(templates@, target@, views(kinds@)),
{
    let ghost view_of = |c: TemplateCopy| c@;
    let mut r: Vec<TemplateCopy> = Vec::new();
    if kinds.len() == 1 {
        let c = TemplateCopy { template: templates.child(kinds[0].as_str()), target: target.clone() };
        r.push(c);
        return r;
    }
    let ghost all = copies_of(templates@, target@, views(kinds@));
    let mut i: usize = 0;
    while i < kinds.len()
        invariant
            i <= kinds.len(),
            kinds.len() != 1,
            view_of == |c: TemplateCopy| c@,
            all == copies_of(templates@, target@, views(kinds@)),
            all.len() == kinds.len(),
            r@.map_values(view_of) == all.take(i as int),
        decreases kinds.len() - i,
    {
        let ghost before = r@;
        let kind = kinds[i].as_str();
        let c = TemplateCopy { template: templates.child(kind), target: target.child(kind) };
        r.push(c);
        proof {
            assert(r@.map_values(view_of) =~= before.map_values(view_of).push(c@));
        }
        i += 1;
    }
    r
}

impl Projects {
    /// The path that a text names, taken from the root unless it is absolute.
    pub fn relative_to_root(&self, path: &str) -> (r: DirPath)
        ensures
            r@ == from_root(self@.root, path@),
    {
        self.root().join(&DirPath::parse(path))
    }

    /// Plans the making of new modules at `path` from the templates under
    /// `from`. `types` names the kinds of template, separated by commas; where
    /// it names none, every entry of the template directory is meant.
    /// `entries` names what the template directory holds, and `dirs` names the
    /// directories among that. Without a kind of template there is no plan.
    pub fn create(
        &self,
        path: &str,
        from: &str,
        types: &str,
        excludes: &str,
        entries: &Vec<String>,
        dirs: &Vec<String>,
    ) -> (r: Result<CreatePlan>)
        requires
            is_under(from_root(self@.root, path@), self@.root),
        ensures
            ({
                let kinds = template_kinds(types@, views(entries@), views(dirs@));
                if kinds.len() == 0 {
                    r is Err && r->Err_0@.cause is None && r->Err_0@.description
                        == "There is no module template in "@ + path_text(
                        from_root(self@.root, from@),
                    )
                } else {
                    r is Ok && r->Ok_0@ == plan_of(self@.root, path@, from@, excludes@, kinds)
                }
            }),
    {
        let templates = self.relative_to_root(from);
        let kinds = module_types(types, entries, dirs);
        if kinds.len() == 0 {
            let mut text = chars_of("There is no module template in ");
            append_chars(&mut text, &chars_of(templates.display().as_str()));
            return Err(Error::from_str(string_of(&text).as_str()));
        }
        let target = self.relative_to_root(path);
        let below = target.strip_prefix(&self.root()).unwrap();
        let hyphen: Vec<char> = vec!['-'];
        assert(hyphen@ =~= seq!['-']);
        let base = string_of(&join(&crate::path::chars_of_all(&below.segments), &hyphen));
        let pattern = name_pattern(base.as_str(), &kinds);
        let copies = plan_copies(&templates, &target, &kinds);
        let skipped = strings_of(&split(&chars_of(excludes), ','));
        Ok(CreatePlan { name_pattern: pattern, copies, excludes: skipped })
    }

    /// Refuses to make modules that exist: an error unless the scan for the
    /// names of the new modules selected nothing.
    pub fn refuse_existing(&self) -> (r: Result<()>)
        ensures
            r is Ok <==> self@.projects.len() == 0,
            r is Err ==> r->Err_0@.cause is None && r->Err_0@.description
                == "Projects with same name already exist: "@ + joined(
                self@.projects.map_values(|p: crate::project::ProjectView| p.name),
                seq![',', ' '],
            ),
    {
        if self.is_empty() {
            return Ok(());
        }
        let found = self.projects();
        let ghost all = crate::settings::project_views(found@);
        let ghost name_of = |p: crate::project::ProjectView| p.name;
        let mut names: Vec<Vec<char>> = Vec::new();
        let mut i: usize = 0;
        while i < found.len()
            invariant
                i <= found.len(),
                all == crate::settings::project_views(found@),
                name_of == |p: crate::project::ProjectView| p.name,
                vec_views(names@) == all.take(i as int).map_values(name_of),
            decreases found.len() - i,
        {
            let ghost before = names@;
            let name = chars_of(found[i].name.as_str());
            names.push(name);
            proof {
                assert(vec_views(names@) =~= vec_views(before).push(name@));
            }
            i += 1;
        }
        assert(all.take(found.len() as int) =~= all);
        let sep: Vec<char> = vec![',', ' '];
        let mut text = chars_of("Projects with same name already exist: ");
        append_chars(&mut text, &join(&names, &sep));
        Err(Error::from_str(string_of(&text).as_str()))
    }
}

} // verus!
