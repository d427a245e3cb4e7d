//! Skills: the frontmatter of a skill file, and the skills block of a prompt.

use crate::json::{
    fields, found, lemma_member_trees, lookup, no_members, parse_yaml, plain, put, put_text, shown_text,
    tree, tree_result, written, yaml_tree, Json, Jv, Member, Tree,
};
use crate::paths::{join_path, joined_on};
use crate::patterns::{is_kebab, regex_is_match, KEBAB_CASE};
use crate::text::{
    cat2, cat3, is_blank, join, join_of, lemma_texts_push, lines, lines_of, opt_text, str_eq,
    strip_prefix, strip_prefix_of, texts, trim, trim_end, trim_end_of, trim_of,
};
use crate::xml::{escaped, html_escape};
use vstd::prelude::*;

verus! {

/// How long a description in the prompt may be.
pub const DEFAULT_DESCRIPTION_MAX_CHARS: usize = 500;

/// What stands at the end of a shortened description.
pub const TRUNCATION_MARKER: &'static str = "... [truncated]";

/// Why a skill cannot be used.
#[derive(Debug)]
pub enum SkillError {
    /// The file cannot be read as a skill.
    Parse(String),
    /// The frontmatter does not say what it must.
    Validation { message: String, errors: Vec<String> },
}

/// What a skill error says.
#[verifier::ext_equal]
pub ghost enum SkillErrorView {
    Parse(Seq<char>),
    Validation { message: Seq<char>, errors: Seq<Seq<char>> },
}

impl View for SkillError {
    type V = SkillErrorView;

    open spec fn view(&self) -> SkillErrorView {
        match *self {
            SkillError::Parse(s) => SkillErrorView::Parse(s@),
            SkillError::Validation { message, errors } => SkillErrorView::Validation {
                message: message@,
                errors: texts(errors@),
            },
        }
    }
}

/// A key with a text.
#[derive(Debug)]
pub struct Entry {
    pub key: String,
    pub text: String,
}

/// What entries say; the last entry of a key counts.
pub open spec fn entry_map(entries: Seq<Entry>, n: int) -> Map<Seq<char>, Seq<char>>
    decreases n,
{
    if n <= 0 || n > entries.len() {
        Map::empty()
    } else {
        entry_map(entries, n - 1).insert(entries[n - 1].key@, entries[n - 1].text@)
    }
}

/// What all entries say.
pub open spec fn entries_of(entries: Seq<Entry>) -> Map<Seq<char>, Seq<char>> {
    entry_map(entries, entries.len() as int)
}

/// The field of a key among the first `n` fields of a frontmatter; the last
/// one counts.
pub open spec fn front_field(front: Seq<(Seq<char>, Tree)>, n: nat, key: Seq<char>) -> Option<Tree>
    decreases n,
{
    if n == 0 || n > front.len() {
        None
    } else if front[n - 1].0 == key {
        Some(front[n - 1].1)
    } else {
        front_field(front, (n - 1) as nat, key)
    }
}

/// The field of a key.
pub open spec fn field_of(front: Seq<(Seq<char>, Tree)>, key: Seq<char>) -> Option<Tree> {
    front_field(front, front.len(), key)
}

proof fn lemma_front_field(raw: Seq<Member>, n: nat, key: Seq<char>)
    requires
        n <= raw.len(),
    ensures
        front_field(written(raw), n, key) == (match found(raw, n, key) {
            Some(v) => Some(tree(v)),
            None => None,
        }),
    decreases n,
{
    lemma_member_trees(raw, raw.len());
    if n > 0 {
        lemma_front_field(raw, (n - 1) as nat, key);
    }
}

fn find_field<'a>(raw: &'a Vec<Member>, key: &str) -> (r: Option<&'a Json>)
    ensures
        match r {
            Some(v) => field_of(written(raw@), key@) == Some(tree(*v)),
            None => field_of(written(raw@), key@) is None,
        },
{
    proof {
        lemma_member_trees(raw@, raw@.len());
        lemma_front_field(raw@, raw@.len(), key@);
    }
    lookup(raw, key)
}

/// The text of a field that says something.
pub open spec fn clean(v: Option<Tree>) -> Option<Seq<char>> {
    match v {
        None => None,
        Some(Tree::Null) => None,
        Some(other) => if is_blank(shown_text(other)) {
            None
        } else {
            Some(trim_of(shown_text(other)))
        },
    }
}

fn clean_string(raw: &Vec<Member>, key: &str) -> (r: Option<String>)
    ensures
        opt_text(r) == clean(field_of(written(raw@), key@)),
{
    let text = match find_field(raw, key) {
        None => return None,
        Some(Json::Null) => return None,
        Some(v) => plain(v),
    };
    let trimmed = trim(text.as_str());
    if trimmed.is_empty() {
        None
    } else {
        Some(trimmed.to_owned())
    }
}

/// The first `n` members of a mapping, each by its text; the last member of a
/// key counts.
pub open spec fn shown_members(members: Seq<(Seq<char>, Tree)>, n: int) -> Map<Seq<char>, Seq<char>>
    decreases n,
{
    if n <= 0 || n > members.len() {
        Map::empty()
    } else {
        shown_members(members, n - 1).insert(members[n - 1].0, shown_text(members[n - 1].1))
    }
}

fn show_members(members: &Vec<Member>) -> (r: Vec<Entry>)
    ensures
        entries_of(r@) == shown_members(written(members@), members@.len() as int),
{
    let mut out: Vec<Entry> = Vec::new();
    let mut i: usize = 0;
    proof {
        lemma_member_trees(members@, members@.len());
    }
    while i < members.len()
        invariant
            i <= members@.len(),
            written(members@).len() == members@.len(),
            forall|k: int|
                0 <= k < members@.len() ==> #[trigger] written(members@)[k] == (
                    members@[k].key@,
                    tree(members@[k].value),
                ),
            entries_of(out@) == shown_members(written(members@), i as int),
        decreases members@.len() - i,
    {
        let e = Entry { key: members[i].key.clone(), text: plain(&members[i].value) };
        proof {
            assert(written(members@)[i as int] == (
                members@[i as int].key@,
                tree(members@[i as int].value),
            ));
            lemma_entry_map_push(out@, e);
        }
        out.push(e);
        i += 1;
    }
    out
}

/// What a skill says about itself.
#[derive(Debug)]
pub struct SkillProperties {
    pub name: String,
    pub description: String,
    pub license: Option<String>,
    pub compatibility: Option<String>,
    pub allowed_tools: Option<String>,
    pub metadata: Vec<Entry>,
}

/// What a skill says about itself.
#[verifier::ext_equal]
pub ghost struct SkillView {
    pub name: Seq<char>,
    pub description: Seq<char>,
    pub license: Option<Seq<char>>,
    pub compatibility: Option<Seq<char>>,
    pub allowed_tools: Option<Seq<char>>,
    pub metadata: Map<Seq<char>, Seq<char>>,
}

impl View for SkillProperties {
    type V = SkillView;

    open spec fn view(&self) -> SkillView {
        SkillView {
            name: self.name@,
            description: self.description@,
            license: opt_text(self.license),
            compatibility: opt_text(self.compatibility),
            allowed_tools: opt_text(self.allowed_tools),
            metadata: entries_of(self.metadata@),
        }
    }
}

/// What is wrong with the name.
pub open spec fn name_errors(name: Option<Seq<char>>) -> Seq<Seq<char>> {
    match name {
        None => seq!["Missing required field: name"@],
        Some(n) => if is_kebab(n) {
            Seq::empty()
        } else {
            seq!["Field `name` must be kebab-case, for example: my-skill"@]
        },
    }
}

/// What is wrong with a frontmatter, in order.
pub open spec fn skill_errors(front: Seq<(Seq<char>, Tree)>) -> Seq<Seq<char>> {
    let of_name = name_errors(clean(field_of(front, "name"@)));
    let of_description = if clean(field_of(front, "description"@)) is None {
        of_name.push("Missing required field: description"@)
    } else {
        of_name
    };
    match field_of(front, "metadata"@) {
        None => of_description,
        Some(Tree::Null) => of_description,
        Some(Tree::Object(_)) => of_description,
        Some(_) => of_description.push("Field `metadata` must be an object"@),
    }
}

/// The metadata of a frontmatter: each value by its text.
pub open spec fn front_metadata(front: Seq<(Seq<char>, Tree)>) -> Map<Seq<char>, Seq<char>> {
    match field_of(front, "metadata"@) {
        Some(Tree::Object(members)) => shown_members(members, members.len() as int),
        _ => Map::empty(),
    }
}

/// What a frontmatter says about its skill, or all that is wrong with it.
pub open spec fn skill_of(front: Seq<(Seq<char>, Tree)>, path: Seq<char>) -> Result<
    SkillView,
    SkillErrorView,
> {
    if skill_errors(front).len() > 0 {
        Err(
            SkillErrorView::Validation {
                message: "Invalid skill frontmatter in "@ + path,
                errors: skill_errors(front),
            },
        )
    } else {
        Ok(
            SkillView {
                name: clean(field_of(front, "name"@))->0,
                description: clean(field_of(front, "description"@))->0,
                license: clean(field_of(front, "license"@)),
                compatibility: clean(field_of(front, "compatibility"@)),
                allowed_tools: clean(field_of(front, "allowed-tools"@)),
                metadata: front_metadata(front),
            },
        )
    }
}

/// A skill that is accepted has a kebab-case name and a description.
pub proof fn law_accepted_skill_says_what_it_is(front: Seq<(Seq<char>, Tree)>, path: Seq<char>)
    ensures
        skill_of(front, path) matches Ok(s) ==> is_kebab(s.name) && s.description.len() > 0,
{
}

/// What reading a skill gave.
pub open spec fn skill_result(r: Result<SkillProperties, SkillError>) -> Result<
    SkillView,
    SkillErrorView,
> {
    match r {
        Ok(p) => Ok(p@),
        Err(e) => Err(e@),
    }
}

proof fn lemma_entry_map_prefix(a: Seq<Entry>, e: Entry, n: int)
    requires
        0 <= n <= a.len(),
    ensures
        entry_map(a.push(e), n) == entry_map(a, n),
    decreases n,
{
    if n > 0 {
        lemma_entry_map_prefix(a, e, n - 1);
    }
}

proof fn lemma_entry_map_push(a: Seq<Entry>, e: Entry)
    ensures
        entries_of(a.push(e)) == entries_of(a).insert(e.key@, e.text@),
{
    lemma_entry_map_prefix(a, e, a.len() as int);
}

fn push_error(errors: &mut Vec<String>, message: &str)
    ensures
        texts(final(errors)@) == texts(old(errors)@).push(message@),
{
    let ghost before = errors@;
    let s = message.to_owned();
    errors.push(s);
    proof {
        lemma_texts_push(before, s);
    }
}

/// Builds the properties of a skill from its frontmatter; `path` names the
/// file in an error. Everything that is wrong is reported at once.
pub fn build_skill_properties(raw: &Vec<Member>, path: &str) -> (r: Result<
    SkillProperties,
    SkillError,
>)
    ensures
        skill_result(r) == skill_of(written(raw@), path@),
{
    let mut errors: Vec<String> = Vec::new();
    proof {
        assert(texts(errors@) =~= Seq::empty());
    }
    let name = clean_string(raw, "name");
    let description = clean_string(raw, "description");
    let license = clean_string(raw, "license");
    let compatibility = clean_string(raw, "compatibility");
    let allowed_tools = clean_string(raw, "allowed-tools");
    let ghost front = written(raw@);
    match &name {
        None => push_error(&mut errors, "Missing required field: name"),
        Some(text) => {
            if regex_is_match(KEBAB_CASE, text.as_str()) != Some(true) {
                push_error(
                    &mut errors,
                    "Field `name` must be kebab-case, for example: my-skill",
                );
            }
        },
    }
    proof {
        assert(texts(errors@) =~= name_errors(clean(field_of(front, "name"@))));
    }
    if description.is_none() {
        push_error(&mut errors, "Missing required field: description");
    }
    let mut metadata: Vec<Entry> = Vec::new();
    match find_field(raw, "metadata") {
        None => {},
        Some(Json::Null) => {},
        Some(Json::Object(members)) => {
            proof {
                lemma_member_trees(members@, members@.len());
            }
            metadata = show_members(members);
        },
        Some(_) => push_error(&mut errors, "Field `metadata` must be an object"),
    }
    proof {
        assert(texts(errors@) == skill_errors(front));
        assert(texts(errors@).len() == errors@.len());
        assert(entries_of(metadata@) == front_metadata(front));
    }
    if errors.len() > 0 {
        return Err(
            SkillError::Validation { message: cat2("Invalid skill frontmatter in ", path), errors },
        );
    }
    match (name, description) {
        (Some(name), Some(description)) => Ok(
            SkillProperties {
                name,
                description,
                license,
                compatibility,
                allowed_tools,
                metadata,
            },
        ),
        _ => Err(SkillError::Validation { message: String::new(), errors }),
    }
}

/// Where the frontmatter ends: the first line from `i` on that is `---`.
pub open spec fn closing_line(lines: Seq<Seq<char>>, i: int) -> Option<int>
    decreases lines.len() - i,
{
    if i < 0 || i >= lines.len() {
        None
    } else if trim_of(lines[i]) == "---"@ {
        Some(i)
    } else {
        closing_line(lines, i + 1)
    }
}

/// `text` without one leading byte order mark.
pub open spec fn without_bom(text: Seq<char>) -> Seq<char> {
    match strip_prefix_of(text, "\u{feff}"@) {
        Some(rest) => rest,
        None => text,
    }
}

/// The frontmatter of a skill file, or why there is none.
pub open spec fn frontmatter_of(content: Seq<char>, path: Seq<char>) -> Result<
    Seq<char>,
    SkillErrorView,
> {
    let lines = lines_of(without_bom(content));
    if lines.len() == 0 || trim_of(lines[0]) != "---"@ {
        Err(SkillErrorView::Parse("SKILL.md must start with YAML frontmatter in "@ + path))
    } else {
        match closing_line(lines, 1) {
            None => Err(SkillErrorView::Parse("Unclosed YAML frontmatter in "@ + path)),
            Some(end) => Ok(join_of(lines.subrange(1, end), "\n"@)),
        }
    }
}

/// Takes the frontmatter out of a skill file.
pub fn extract_frontmatter(content: &str, path: &str) -> (r: Result<String, SkillError>)
    ensures
        match frontmatter_of(content@, path@) {
            Ok(text) => r matches Ok(s) && s@ == text,
            Err(e) => r matches Err(error) && error@ == e,
        },
{
    let text = match strip_prefix(content, "\u{feff}") {
        Some(rest) => rest,
        None => content,
    };
    let all = lines(text);
    let ghost views = texts(all@);
    if all.len() == 0 || !str_eq(trim(all[0].as_str()), "---") {
        proof {
            assert(views.len() == all@.len());
        }
        return Err(
            SkillError::Parse(cat2("SKILL.md must start with YAML frontmatter in ", path)),
        );
    }
    let mut i: usize = 1;
    let mut body: Vec<String> = Vec::new();
    proof {
        assert(texts(body@) =~= views.subrange(1, 1));
    }
    while i < all.len()
        invariant
            1 <= i <= all@.len(),
            views == texts(all@),
            closing_line(views, i as int) == closing_line(views, 1),
            texts(body@) == views.subrange(1, i as int),
            views == lines_of(without_bom(content@)),
            trim_of(views[0]) == "---"@,
        decreases all@.len() - i,
    {
        proof {
            assert(views[i as int] == all@[i as int]@);
        }
        if str_eq(trim(all[i].as_str()), "---") {
            return Ok(join(&body, "\n"));
        }
        let line = all[i].clone();
        let ghost before = body@;
        body.push(line);
        proof {
            lemma_texts_push(before, line);
            assert(views.subrange(1, i + 1) =~= views.subrange(1, i as int).push(views[i as int]));
        }
        i += 1;
    }
    Err(SkillError::Parse(cat2("Unclosed YAML frontmatter in ", path)))
}

/// What a parsed frontmatter says about its skill: it is a mapping, or nothing
/// at all.
pub open spec fn properties_of(parsed: Result<Tree, Seq<char>>, path: Seq<char>) -> Result<
    SkillView,
    SkillErrorView,
> {
    match parsed {
        Err(e) => Err(SkillErrorView::Parse("Invalid YAML frontmatter in "@ + path + ": "@ + e)),
        Ok(Tree::Null) => skill_of(Seq::empty(), path),
        Ok(Tree::Object(front)) => skill_of(front, path),
        Ok(_) => Err(SkillErrorView::Parse("Frontmatter must be a key-value map in "@ + path)),
    }
}

/// Validates the frontmatter of the skill file at `path`; `parsed` is what the
/// YAML reader made of it.
pub fn check_frontmatter(parsed: Result<Json, String>, path: &str) -> (r: Result<
    SkillProperties,
    SkillError,
>)
    ensures
        skill_result(r) == properties_of(tree_result(parsed), path@),
{
    match parsed {
        Err(e) => {
            let mut message = cat3("Invalid YAML frontmatter in ", path, ": ");
            message.append(e.as_str());
            Err(SkillError::Parse(message))
        },
        Ok(Json::Null) => build_skill_properties(&no_members(), path),
        Ok(Json::Object(raw)) => build_skill_properties(&raw, path),
        Ok(_) => Err(SkillError::Parse(cat2("Frontmatter must be a key-value map in ", path))),
    }
}

/// Reads what the skill file at `path` says about its skill.
pub fn read_properties(content: &str, path: &str) -> (r: Result<SkillProperties, SkillError>)
    ensures
        skill_result(r) == match frontmatter_of(content@, path@) {
            Ok(text) => properties_of(yaml_tree(text), path@),
            Err(e) => Err(e),
        },
{
    match extract_frontmatter(content, path) {
        Ok(text) => check_frontmatter(parse_yaml(text.as_str()), path),
        Err(e) => Err(e),
    }
}

/// `m` with a text field, where there is a text.
pub open spec fn with_text(m: Map<Seq<char>, Jv>, key: Seq<char>, value: Option<Seq<char>>) -> Map<
    Seq<char>,
    Jv,
> {
    match value {
        Some(s) => m.insert(key, Jv::Text(s)),
        None => m,
    }
}

/// Text entries as fields.
pub open spec fn text_fields(m: Map<Seq<char>, Seq<char>>) -> Map<Seq<char>, Jv> {
    m.map_values(|s: Seq<char>| Jv::Text(s))
}

/// The properties of a skill as fields; what is not said is left out.
pub open spec fn skill_fields(p: SkillView) -> Map<Seq<char>, Jv> {
    let required = Map::<Seq<char>, Jv>::empty().insert("name"@, Jv::Text(p.name)).insert(
        "description"@,
        Jv::Text(p.description),
    );
    let a = with_text(required, "license"@, p.license);
    let b = with_text(a, "compatibility"@, p.compatibility);
    let c = with_text(b, "allowed-tools"@, p.allowed_tools);
    if p.metadata == Map::<Seq<char>, Seq<char>>::empty() {
        c
    } else {
        c.insert("metadata"@, Jv::Object(text_fields(p.metadata)))
    }
}

fn put_opt_text(members: &mut Vec<Member>, key: &str, value: &Option<String>)
    ensures
        fields(final(members)@) == with_text(fields(old(members)@), key@, opt_text(*value)),
{
    match value {
        Some(s) => put_text(members, key, s.as_str()),
        None => {},
    }
}

impl SkillProperties {
    /// The properties as the fields of an object.
    pub fn to_dict(&self) -> (r: Vec<Member>)
        ensures
            fields(r@) == skill_fields(self@),
    {
        let mut out = no_members();
        put_text(&mut out, "name", self.name.as_str());
        put_text(&mut out, "description", self.description.as_str());
        put_opt_text(&mut out, "license", &self.license);
        put_opt_text(&mut out, "compatibility", &self.compatibility);
        put_opt_text(&mut out, "allowed-tools", &self.allowed_tools);
        if self.metadata.len() > 0 {
            let mut meta = no_members();
            let mut i: usize = 0;
            proof {
                assert(text_fields(entry_map(self.metadata@, 0)) =~= Map::empty());
            }
            while i < self.metadata.len()
                invariant
                    i <= self.metadata@.len(),
                    fields(meta@) == text_fields(entry_map(self.metadata@, i as int)),
                decreases self.metadata@.len() - i,
            {
                let entry = &self.metadata[i];
                put_text(&mut meta, entry.key.as_str(), entry.text.as_str());
                proof {
                    assert(text_fields(entry_map(self.metadata@, i + 1)) =~= text_fields(
                        entry_map(self.metadata@, i as int),
                    ).insert(entry.key@, Jv::Text(entry.text@)));
                }
                i += 1;
            }
            proof {
                assert(entries_of(self.metadata@).dom().contains(self.metadata@.last().key@));
            }
            put(&mut out, "metadata", Json::Object(meta));
        }
        out
    }
}

/// A description of at most `max` characters.
pub open spec fn shortened(description: Seq<char>, max: nat) -> Seq<char> {
    let text = trim_of(description);
    let marker = TRUNCATION_MARKER@;
    if text.len() <= max {
        text
    } else if max <= marker.len() {
        marker.take(max as int)
    } else {
        trim_end_of(text.take(max - marker.len())) + marker
    }
}

fn truncate_description(description: &str, max: usize) -> (r: String)
    ensures
        r@ == shortened(description@, max as nat),
{
    let text = trim(description);
    let n: usize = text.unicode_len();
    if n <= max {
        return text.to_owned();
    }
    let marker_len: usize = TRUNCATION_MARKER.unicode_len();
    if max <= marker_len {
        proof {
            assert(TRUNCATION_MARKER@.take(max as int) =~= TRUNCATION_MARKER@.subrange(0, max as int));
        }
        return TRUNCATION_MARKER.substring_char(0, max).to_owned();
    }
    let keep: usize = max - marker_len;
    proof {
        assert(text@.take(keep as int) =~= text@.subrange(0, keep as int));
    }
    cat2(trim_end(text.substring_char(0, keep)), TRUNCATION_MARKER)
}

/// A skill and the path of its file.
#[derive(Debug)]
pub struct LocatedSkill {
    pub properties: SkillProperties,
    pub location: String,
}

/// The lines that present a skill.
pub open spec fn skill_lines(skill: LocatedSkill, max: nat) -> Seq<Seq<char>> {
    seq![
        "<skill>"@,
        "<name>"@,
        escaped(skill.properties.name@),
        "</name>"@,
        "<description>"@,
        escaped(shortened(skill.properties.description@, max)),
        "</description>"@,
        "<location>"@,
        skill.location@,
        "</location>"@,
        "</skill>"@,
    ]
}

/// The lines that present the first `n` skills.
pub open spec fn all_skill_lines(skills: Seq<LocatedSkill>, max: nat, n: int) -> Seq<Seq<char>>
    decreases n,
{
    if n <= 0 || n > skills.len() {
        seq!["<available_skills>"@]
    } else {
        all_skill_lines(skills, max, n - 1) + skill_lines(skills[n - 1], max)
    }
}

/// The `<available_skills>` block.
pub open spec fn skills_prompt_of(skills: Seq<LocatedSkill>, max: nat) -> Seq<char> {
    join_of(
        all_skill_lines(skills, max, skills.len() as int).push("</available_skills>"@),
        "\n"@,
    )
}

fn push_line(out: &mut Vec<String>, line: &str)
    ensures
        texts(final(out)@) == texts(old(out)@).push(line@),
{
    let ghost before = out@;
    let s = line.to_owned();
    out.push(s);
    proof {
        lemma_texts_push(before, s);
    }
}

fn push_skill(out: &mut Vec<String>, skill: &LocatedSkill, max: usize)
    ensures
        texts(final(out)@) == texts(old(out)@) + skill_lines(*skill, max as nat),
{
    let ghost before = texts(out@);
    push_line(out, "<skill>");
    push_line(out, "<name>");
    push_line(out, html_escape(skill.properties.name.as_str()).as_str());
    push_line(out, "</name>");
    push_line(out, "<description>");
    let description = truncate_description(skill.properties.description.as_str(), max);
    push_line(out, html_escape(description.as_str()).as_str());
    push_line(out, "</description>");
    push_line(out, "<location>");
    push_line(out, skill.location.as_str());
    push_line(out, "</location>");
    push_line(out, "</skill>");
    proof {
        assert(texts(out@) =~= before + skill_lines(*skill, max as nat));
    }
}

/// Builds the `<available_skills>` block with descriptions of at most `max`
/// characters.
pub fn to_prompt_with_limit(skills: &Vec<LocatedSkill>, max: usize) -> (r: Result<String, String>)
    ensures
        if max == 0 {
            r matches Err(e) && e@ == "max_description_chars must be positive"@
        } else {
            r matches Ok(s) && s@ == skills_prompt_of(skills@, max as nat)
        },
{
    if max == 0 {
        return Err("max_description_chars must be positive".to_owned());
    }
    let mut out: Vec<String> = Vec::new();
    push_line(&mut out, "<available_skills>");
    let mut i: usize = 0;
    proof {
        assert(texts(out@) =~= all_skill_lines(skills@, max as nat, 0));
    }
    while i < skills.len()
        invariant
            i <= skills@.len(),
            texts(out@) == all_skill_lines(skills@, max as nat, i as int),
        decreases skills@.len() - i,
    {
        push_skill(&mut out, &skills[i], max);
        i += 1;
    }
    push_line(&mut out, "</available_skills>");
    Ok(join(&out, "\n"))
}

/// Builds the `<available_skills>` block.
pub fn to_prompt(skills: &Vec<LocatedSkill>) -> (r: String)
    ensures
        r@ == skills_prompt_of(skills@, DEFAULT_DESCRIPTION_MAX_CHARS as nat),
{
    match to_prompt_with_limit(skills, DEFAULT_DESCRIPTION_MAX_CHARS) {
        Ok(s) => s,
        Err(e) => e,
    }
}

/// The first occurrence of each of the first `n` texts, in order.
pub open spec fn first_occurrences(all: Seq<Seq<char>>, n: int) -> Seq<Seq<char>>
    decreases n,
{
    if n <= 0 || n > all.len() {
        Seq::empty()
    } else {
        let before = first_occurrences(all, n - 1);
        if before.contains(all[n - 1]) {
            before
        } else {
            before.push(all[n - 1])
        }
    }
}

fn contains_text(v: &Vec<String>, s: &str) -> (r: bool)
    ensures
        r == texts(v@).contains(s@),
{
    let mut i: usize = 0;
    while i < v.len()
        invariant
            i <= v@.len(),
            forall|k: int| 0 <= k < i ==> texts(v@)[k] != s@,
        decreases v@.len() - i,
    {
        if str_eq(v[i].as_str(), s) {
            proof {
                assert(texts(v@)[i as int] == s@);
            }
            return true;
        }
        i += 1;
    }
    false
}

/// The directories in which skills are looked for: those of the agent, those
/// that are configured, and those of the working directory, in this order.
pub open spec fn skill_roots_of(
    resources: Seq<char>,
    cwd: Seq<char>,
    external: Seq<Seq<char>>,
    windows: bool,
) -> Seq<Seq<char>> {
    (seq![joined_on(resources, "skills"@, windows)] + external).push(
        joined_on(joined_on(cwd, ".agent"@, windows), "skills"@, windows),
    )
}

/// The directories in which skills are looked for.
pub fn skill_roots(resources: &str, cwd: &str, external: &Vec<String>, windows: bool) -> (r: Vec<
    String,
>)
    ensures
        texts(r@) == skill_roots_of(resources@, cwd@, texts(external@), windows),
{
    let mut out: Vec<String> = Vec::new();
    push_line(&mut out, join_path(resources, "skills", windows).as_str());
    let ghost first = texts(out@);
    let mut i: usize = 0;
    proof {
        assert(first =~= seq![joined_on(resources@, "skills"@, windows)]);
        assert(first + texts(external@).take(0) =~= first);
    }
    while i < external.len()
        invariant
            i <= external@.len(),
            texts(out@) == first + texts(external@).take(i as int),
        decreases external@.len() - i,
    {
        push_line(&mut out, external[i].as_str());
        proof {
            assert(texts(external@)[i as int] == external@[i as int]@);
            assert(first + texts(external@).take(i + 1) =~= (first + texts(external@).take(
                i as int,
            )).push(external@[i as int]@));
        }
        i += 1;
    }
    proof {
        assert(texts(external@).take(external@.len() as int) =~= texts(external@));
    }
    let agent = join_path(cwd, ".agent", windows);
    push_line(&mut out, join_path(agent.as_str(), "skills", windows).as_str());
    out
}

/// The skill directories found under all roots, each once, in the order in
/// which they were first found.
pub fn discover_context_skills(found: &Vec<String>) -> (r: Vec<String>)
    ensures
        texts(r@) == first_occurrences(texts(found@), found@.len() as int),
{
    let ghost all = texts(found@);
    let mut out: Vec<String> = Vec::new();
    let mut i: usize = 0;
    proof {
        assert(texts(out@) =~= Seq::empty());
    }
    while i < found.len()
        invariant
            i <= found@.len(),
            all == texts(found@),
            texts(out@) == first_occurrences(all, i as int),
        decreases found@.len() - i,
    {
        proof {
            assert(all[i as int] == found@[i as int]@);
        }
        if !contains_text(&out, found[i].as_str()) {
            push_line(&mut out, found[i].as_str());
        }
        i += 1;
    }
    out
}

/// Builds the `<available_skills>` block of an agent from the skills that
/// were read from its skill directories.
pub fn build_available_skills(skills: &Vec<LocatedSkill>) -> (r: String)
    ensures
        r@ == skills_prompt_of(skills@, DEFAULT_DESCRIPTION_MAX_CHARS as nat),
{
    to_prompt(skills)
}

proof fn lemma_trim_end_shrinks(s: Seq<char>)
    ensures
        trim_end_of(s).len() <= s.len(),
    decreases s.len(),
{
    if s.len() > 0 {
        lemma_trim_end_shrinks(s.drop_last());
    }
}

/// A shortened description keeps the limit.
pub proof fn law_shortened_description_keeps_the_limit(description: Seq<char>, max: nat)
    ensures
        shortened(description, max).len() <= max,
{
    let text = trim_of(description);
    let marker = TRUNCATION_MARKER@;
    if text.len() > max && max > marker.len() {
        lemma_trim_end_shrinks(text.take(max - marker.len()));
    }
}

/// Every directory is listed once, and none is lost.
pub proof fn law_skill_directories_are_listed_once(all: Seq<Seq<char>>, n: int)
    requires
        0 <= n <= all.len(),
    ensures
        first_occurrences(all, n).no_duplicates(),
        forall|i: int| 0 <= i < n ==> first_occurrences(all, n).contains(#[trigger] all[i]),
    decreases n,
{
    if n > 0 {
        law_skill_directories_are_listed_once(all, n - 1);
        let before = first_occurrences(all, n - 1);
        let now = first_occurrences(all, n);
        if !before.contains(all[n - 1]) {
            assert(now == before.push(all[n - 1]));
            assert(now[before.len() as int] == all[n - 1]);
        }
        assert forall|i: int| 0 <= i < n implies now.contains(#[trigger] all[i]) by {
            if i < n - 1 {
                assert(before.contains(all[i]));
                let k = choose|k: int| 0 <= k < before.len() && before[k] == all[i];
                assert(now[k] == all[i]);
            } else if before.contains(all[n - 1]) {
            } else {
                assert(now[before.len() as int] == all[i]);
            }
        }
    }
}

/// The frontmatter of a skill file is what stands between its first line and the next
/// line of three hyphens.
pub proof fn law_frontmatter_stands_between_the_marks(
    content: Seq<char>,
    path: Seq<char>,
    first: Seq<char>,
    front: Seq<Seq<char>>,
    last: Seq<char>,
    rest: Seq<Seq<char>>,
)
    requires
        content.len() == 0 || content[0] != '\u{feff}',
        trim_of(first) == "---"@,
        trim_of(last) == "---"@,
        forall|i: int| 0 <= i < front.len() ==> trim_of(#[trigger] front[i]) != "---"@,
    ensures
        lines_of(content) == seq![first] + front + seq![last] + rest ==> frontmatter_of(
            content,
            path,
        ) == Ok::<Seq<char>, SkillErrorView>(join_of(front, "\n"@)),
        lines_of(content) == seq![first] + front ==> frontmatter_of(content, path) is Err,
        lines_of(content) == front + rest && front.len() > 0 ==> frontmatter_of(
            content,
            path,
        ) is Err,
{
    reveal_strlit("\u{feff}");
    assert("\u{feff}"@ =~= seq!['\u{feff}']);
    assert(without_bom(content) == content) by {
        if content.len() > 0 {
            assert(content.take(1)[0] == content[0]);
        }
    }
    let closed = seq![first] + front + seq![last] + rest;
    assert forall|i: int| 1 <= i < 1 + front.len() implies trim_of(#[trigger] closed[i])
        != "---"@ by {
        assert(closed[i] == front[i - 1]);
    }
    let end = 1 + front.len() as int;
    assert(closed[end] == last);
    lemma_closing_line(closed, 1, end);
    assert(closed.subrange(1, end) =~= front);
    let open = seq![first] + front;
    assert forall|i: int| 1 <= i < open.len() implies trim_of(#[trigger] open[i]) != "---"@ by {
        assert(open[i] == front[i - 1]);
    }
    lemma_no_closing_line(open, 1);
    if front.len() > 0 {
        assert((front + rest)[0] == front[0]);
    }
}

proof fn lemma_closing_line(lines: Seq<Seq<char>>, i: int, end: int)
    requires
        0 <= i <= end < lines.len(),
        trim_of(lines[end]) == "---"@,
        forall|k: int| i <= k < end ==> trim_of(#[trigger] lines[k]) != "---"@,
    ensures
        closing_line(lines, i) == Some(end),
    decreases end - i,
{
    if i < end {
        assert(trim_of(lines[i]) != "---"@);
        lemma_closing_line(lines, i + 1, end);
    }
}

proof fn lemma_no_closing_line(lines: Seq<Seq<char>>, i: int)
    requires
        0 <= i,
        forall|k: int| i <= k < lines.len() ==> trim_of(#[trigger] lines[k]) != "---"@,
    ensures
        closing_line(lines, i) is None,
    decreases lines.len() - i,
{
    if i < lines.len() {
        assert(trim_of(lines[i]) != "---"@);
        lemma_no_closing_line(lines, i + 1);
    }
}

/// A field of the frontmatter is the last entry under its key.
pub proof fn law_field_is_found_by_its_key(
    front: Seq<(Seq<char>, Tree)>,
    n: nat,
    key: Seq<char>,
    i: int,
)
    requires
        0 <= i < n <= front.len(),
        front[i].0 == key,
        forall|k: int| i < k < n ==> (#[trigger] front[k]).0 != key,
    ensures
        front_field(front, n, key) == Some(front[i].1),
        shown_members(front, n as int).dom().contains(key),
        shown_members(front, n as int)[key] == shown_text(front[i].1),
    decreases n,
{
    if i < n - 1 {
        assert(front[n - 1].0 != key);
        law_field_is_found_by_its_key(front, (n - 1) as nat, key, i);
    }
}

/// A skill with a kebab-case name and a description is accepted, and has what its
/// frontmatter says, trimmed.
pub proof fn law_skill_has_what_it_says(
    front: Seq<(Seq<char>, Tree)>,
    path: Seq<char>,
    name: Seq<char>,
    description: Seq<char>,
)
    requires
        field_of(front, "name"@) == Some(Tree::Text(name)),
        field_of(front, "description"@) == Some(Tree::Text(description)),
        !is_blank(name) && is_kebab(trim_of(name)),
        !is_blank(description),
        field_of(front, "metadata"@) matches Some(m) ==> m is Object || m is Null,
    ensures
        skill_of(front, path) matches Ok(s) && {
            &&& s.name == trim_of(name)
            &&& s.description == trim_of(description)
            &&& field_of(front, "license"@) matches Some(Tree::Text(t)) ==> s.license == (
            if is_blank(t) {
                None
            } else {
                Some(trim_of(t))
            })
            &&& field_of(front, "compatibility"@) matches Some(Tree::Text(t)) ==> s.compatibility
                == (if is_blank(t) {
                None
            } else {
                Some(trim_of(t))
            })
            &&& field_of(front, "allowed-tools"@) matches Some(Tree::Text(t)) ==> s.allowed_tools
                == (if is_blank(t) {
                None
            } else {
                Some(trim_of(t))
            })
            &&& field_of(front, "license"@) is None ==> s.license is None
            &&& field_of(front, "metadata"@) is None ==> s.metadata.dom() == Set::<
                Seq<char>,
            >::empty()
            &&& field_of(front, "metadata"@) matches Some(Tree::Object(m)) ==> s.metadata
                == shown_members(m, m.len() as int)
        },
{
    assert(Map::<Seq<char>, Seq<char>>::empty().dom() =~= Set::empty());
}

/// A skill without a name or a description, with a name of another form, or with
/// metadata that are no map, is refused.
pub proof fn law_incomplete_skill_is_refused(front: Seq<(Seq<char>, Tree)>, path: Seq<char>)
    ensures
        field_of(front, "name"@) is None || field_of(front, "description"@) is None ==> skill_of(
            front,
            path,
        ) is Err,
        field_of(front, "name"@) matches Some(Tree::Text(t)) ==> (!is_kebab(trim_of(t))
            ==> skill_of(front, path) is Err),
        field_of(front, "metadata"@) matches Some(m) ==> (!(m is Object) && !(m is Null)
            ==> skill_of(front, path) is Err),
{
    let of_name = name_errors(clean(field_of(front, "name"@)));
    if field_of(front, "name"@) matches Some(Tree::Text(t)) && !is_kebab(trim_of(t)) {
        assert(of_name.len() > 0);
    }
    assert(skill_errors(front).len() >= of_name.len());
}

/// A description that fits is shown whole; a longer one by its beginning and a mark.
pub proof fn law_description_is_shown(description: Seq<char>, max: nat)
    ensures
        trim_of(description).len() <= max ==> shortened(description, max) == trim_of(description),
        trim_of(description).len() > max > 15 ==> crate::text::ends_with(
            shortened(description, max),
            "... [truncated]"@,
        ) && exists|k: int|
            0 <= k <= max - 15 && shortened(description, max) == #[trigger] trim_of(
                description,
            ).take(k) + "... [truncated]"@ && forall|j: int|
                k <= j < max - 15 ==> crate::text::is_ws(#[trigger] trim_of(description)[j]),
{
    reveal_strlit("... [truncated]");
    let text = trim_of(description);
    let marker = "... [truncated]"@;
    if text.len() > max && max > 15 {
        let cut = text.take(max - 15);
        let kept = trim_end_of(cut);
        lemma_trim_end_keeps_a_beginning(cut);
        crate::text::law_parts_are_found(kept, marker, Seq::empty());
        let k = kept.len() as int;
        assert(text.take(k) =~= kept);
        assert forall|j: int| k <= j < max - 15 implies crate::text::is_ws(#[trigger] text[j]) by {
            assert(cut[j] == text[j]);
        }
        assert(shortened(description, max) == text.take(k) + marker);
    }
}

proof fn lemma_trim_end_keeps_a_beginning(s: Seq<char>)
    ensures
        trim_end_of(s).len() <= s.len(),
        trim_end_of(s) == s.take(trim_end_of(s).len() as int),
        forall|j: int| trim_end_of(s).len() <= j < s.len() ==> crate::text::is_ws(#[trigger] s[j]),
    decreases s.len(),
{
    if s.len() > 0 && crate::text::is_ws(s.last()) {
        let r = s.drop_last();
        lemma_trim_end_keeps_a_beginning(r);
        assert(trim_end_of(s) =~= s.take(trim_end_of(s).len() as int));
        assert forall|j: int| trim_end_of(s).len() <= j < s.len() implies crate::text::is_ws(
            #[trigger] s[j],
        ) by {
            if j < r.len() {
                assert(r[j] == s[j]);
            }
        }
    } else {
        assert(s.take(s.len() as int) =~= s);
    }
}

/// The prompt lists every skill in its order, with its name, its description and where
/// it is.
pub proof fn law_prompt_lists_every_skill(skills: Seq<LocatedSkill>, max: nat, n: int, i: int)
    requires
        0 <= i < n <= skills.len(),
    ensures
        ({
            let lines = all_skill_lines(skills, max, n);
            &&& lines.len() == 1 + 11 * n
            &&& lines[0] == "<available_skills>"@
            &&& lines[1 + 11 * i] == "<skill>"@ && lines[2 + 11 * i] == "<name>"@
            &&& lines[3 + 11 * i] == escaped(skills[i].properties.name@)
            &&& lines[4 + 11 * i] == "</name>"@ && lines[5 + 11 * i] == "<description>"@
            &&& lines[6 + 11 * i] == escaped(shortened(skills[i].properties.description@, max))
            &&& lines[7 + 11 * i] == "</description>"@ && lines[8 + 11 * i] == "<location>"@
            &&& lines[9 + 11 * i] == skills[i].location@
            &&& lines[10 + 11 * i] == "</location>"@ && lines[11 + 11 * i] == "</skill>"@
        }),
        skills_prompt_of(skills, max) == join_of(
            all_skill_lines(skills, max, skills.len() as int).push("</available_skills>"@),
            "\n"@,
        ),
    decreases n,
{
    let before = all_skill_lines(skills, max, n - 1);
    lemma_skill_lines_len(skills, max, n - 1);
    if i < n - 1 {
        law_prompt_lists_every_skill(skills, max, n - 1, i);
    } else {
        let own = skill_lines(skills[n - 1], max);
        assert(own.len() == 11);
        assert forall|k: int| 0 <= k < 11 implies all_skill_lines(skills, max, n)[1 + 11 * i + k]
            == #[trigger] own[k] by {}
        assert(own[0] == "<skill>"@);
        assert(own[1] == "<name>"@);
        assert(own[2] == escaped(skills[i].properties.name@));
        assert(own[3] == "</name>"@);
        assert(own[4] == "<description>"@);
        assert(own[5] == escaped(shortened(skills[i].properties.description@, max)));
        assert(own[6] == "</description>"@);
        assert(own[7] == "<location>"@);
        assert(own[8] == skills[i].location@);
        assert(own[9] == "</location>"@);
        assert(own[10] == "</skill>"@);
    }
}

proof fn lemma_skill_lines_len(skills: Seq<LocatedSkill>, max: nat, n: int)
    requires
        0 <= n <= skills.len(),
    ensures
        all_skill_lines(skills, max, n).len() == 1 + 11 * n,
        all_skill_lines(skills, max, n)[0] == "<available_skills>"@,
    decreases n,
{
    if n > 0 {
        lemma_skill_lines_len(skills, max, n - 1);
    }
}

/// Skills are looked for among the agent's own, then in the directories that are named,
/// then in those of the working directory.
pub proof fn law_skill_directories_in_order(
    resources: Seq<char>,
    cwd: Seq<char>,
    external: Seq<Seq<char>>,
    windows: bool,
    i: int,
)
    requires
        0 <= i < external.len(),
    ensures
        ({
            let r = skill_roots_of(resources, cwd, external, windows);
            &&& r.len() == external.len() + 2
            &&& r[0] == joined_on(resources, "skills"@, windows)
            &&& r[i + 1] == external[i]
            &&& r.last() == joined_on(joined_on(cwd, ".agent"@, windows), "skills"@, windows)
        }),
{
}

/// The fields of a skill are told under their names.
pub proof fn law_skill_tells_its_fields(p: SkillView)
    ensures
        skill_fields(p)["name"@] == Jv::Text(p.name),
        skill_fields(p)["description"@] == Jv::Text(p.description),
        p.license matches Some(s) ==> skill_fields(p)["license"@] == Jv::Text(s),
        p.compatibility matches Some(s) ==> skill_fields(p)["compatibility"@] == Jv::Text(s),
        p.allowed_tools matches Some(s) ==> skill_fields(p)["allowed-tools"@] == Jv::Text(s),
        p.license is None ==> !skill_fields(p).dom().contains("license"@),
        p.metadata.dom() != Set::<Seq<char>>::empty() ==> (skill_fields(
            p,
        )["metadata"@] matches Jv::Object(m) && m.dom() == p.metadata.dom() && forall|k: Seq<char>|
            p.metadata.dom().contains(k) ==> #[trigger] m[k] == Jv::Text(p.metadata[k])),
{
    reveal_strlit("name");
    reveal_strlit("description");
    reveal_strlit("license");
    reveal_strlit("compatibility");
    reveal_strlit("allowed-tools");
    reveal_strlit("metadata");
    assert("name"@.len() == 4);
    assert("description"@.len() == 11);
    assert("license"@.len() == 7);
    assert("compatibility"@.len() == 13 && "compatibility"@[0] == 'c');
    assert("allowed-tools"@.len() == 13 && "allowed-tools"@[0] == 'a');
    assert("metadata"@.len() == 8);
    assert(text_fields(p.metadata).dom() =~= p.metadata.dom());
    if p.metadata == Map::<Seq<char>, Seq<char>>::empty() {
        assert(p.metadata.dom() =~= Set::empty());
    }
}

/// A skill is what its frontmatter says, which must be a map.
pub proof fn law_skill_is_what_its_frontmatter_says(
    parsed: Result<Tree, Seq<char>>,
    path: Seq<char>,
)
    ensures
        parsed matches Ok(Tree::Object(front)) ==> properties_of(parsed, path) == skill_of(
            front,
            path,
        ),
        parsed matches Ok(Tree::Null) ==> properties_of(parsed, path) is Err,
        parsed matches Ok(t) ==> (!(t is Object) && !(t is Null) ==> properties_of(
            parsed,
            path,
        ) is Err),
        parsed is Err ==> properties_of(parsed, path) is Err,
{
    law_incomplete_skill_is_refused(Seq::empty(), path);
}

} // verus!
