//! The instructions that tell which skills are available.

use vstd::prelude::*;
use vstd::string::*;

use crate::text;

verus! {

/// The role that the instructions are given in.
pub const ROLE: &'static str = "developer";

/// The skills that are available, and the roots that their paths start with.
#[derive(Debug, Clone, PartialEq, Eq)]
pub struct AvailableSkills {
    pub skill_root_lines: Vec<String>,
    pub skill_lines: Vec<String>,
}

/// The fixed parts of the instructions, for skills with absolute paths and for
/// those with aliases for their roots.
#[derive(Debug, Clone, Copy)]
pub struct SkillTexts<'a> {
    pub intro_with_absolute_paths: &'a str,
    pub intro_with_aliases: &'a str,
    pub how_to_use_with_absolute_paths: &'a str,
    pub how_to_use_with_aliases: &'a str,
}

/// The instructions that tell which skills are available.
#[derive(Debug, Clone, PartialEq, Eq)]
pub struct AvailableSkillsInstructions {
    skill_root_lines: Vec<String>,
    skill_lines: Vec<String>,
}

/// The lines of the instructions on skills.
#[verifier::ext_equal]
pub struct SkillsView {
    pub skill_root_lines: Seq<Seq<char>>,
    pub skill_lines: Seq<Seq<char>>,
}

impl View for AvailableSkillsInstructions {
    type V = SkillsView;

    closed spec fn view(&self) -> SkillsView {
        SkillsView {
            skill_root_lines: text::texts(self.skill_root_lines@),
            skill_lines: text::texts(self.skill_lines@),
        }
    }
}

impl From<AvailableSkills> for AvailableSkillsInstructions {
    fn from(available_skills: AvailableSkills) -> (r: Self)
        ensures
            r@ == (SkillsView {
                skill_root_lines: text::texts(available_skills.skill_root_lines@),
                skill_lines: text::texts(available_skills.skill_lines@),
            }),
    {
        AvailableSkillsInstructions {
            skill_root_lines: available_skills.skill_root_lines,
            skill_lines: available_skills.skill_lines,
        }
    }
}

impl vstd::std_specs::convert::FromSpecImpl<AvailableSkills> for AvailableSkillsInstructions {
    open spec fn obeys_from_spec() -> bool {
        false
    }

    open spec fn from_spec(available_skills: AvailableSkills) -> Self {
        arbitrary()
    }
}

/// How the skills are introduced, and their roots, if there are any.
pub open spec fn intro_lines(roots: Seq<Seq<char>>, texts: SkillTexts<'_>) -> Seq<Seq<char>> {
    if roots.len() == 0 {
        seq![texts.intro_with_absolute_paths@]
    } else {
        seq![texts.intro_with_aliases@, "### Skill roots"@] + roots
    }
}

/// How the skills are to be used.
pub open spec fn how_to_use(roots: Seq<Seq<char>>, texts: SkillTexts<'_>) -> Seq<char> {
    if roots.len() == 0 {
        texts.how_to_use_with_absolute_paths@
    } else {
        texts.how_to_use_with_aliases@
    }
}

/// The lines of the instructions.
pub open spec fn body_lines(skills: SkillsView, texts: SkillTexts<'_>) -> Seq<Seq<char>> {
    seq!["## Skills"@] + intro_lines(skills.skill_root_lines, texts) + seq![
        "### Available skills"@,
    ] + skills.skill_lines + seq![
        "### How to use skills"@,
        how_to_use(skills.skill_root_lines, texts),
    ]
}

/// Appends copies of the lines.
fn append_lines(lines: &mut Vec<String>, more: &Vec<String>)
    ensures
        text::texts(final(lines)@) == text::texts(old(lines)@) + text::texts(more@),
{
    let ghost before = text::texts(lines@);
    let mut i: usize = 0;
    assert(before + text::texts(more@).take(0) =~= before);
    while i < more.len()
        invariant
            i <= more@.len(),
            text::texts(lines@) == before + text::texts(more@).take(i as int),
        decreases more.len() - i,
    {
        let ghost so_far = text::texts(lines@);
        lines.push(more[i].clone());
        proof {
            assert(text::texts(lines@) =~= so_far.push(more@[i as int]@));
            assert(text::texts(more@).take(i + 1) =~= text::texts(more@).take(i as int).push(
                more@[i as int]@,
            ));
            assert(text::texts(lines@) =~= before + text::texts(more@).take(i + 1));
        }
        i = i + 1;
    }
    assert(text::texts(more@).take(i as int) =~= text::texts(more@));
}

/// Appends a line.
fn append_line(lines: &mut Vec<String>, line: &str)
    ensures
        text::texts(final(lines)@) == text::texts(old(lines)@).push(line@),
{
    let ghost before = lines@;
    lines.push(line.to_owned());
    assert(text::texts(lines@) =~= text::texts(before).push(line@));
}

impl AvailableSkillsInstructions {
    /// The text of the instructions, with a line feed before and after it.
    pub fn body(&self, texts: &SkillTexts<'_>) -> (r: String)
        ensures
            r@ == "\n"@ + text::joined(body_lines(self@, *texts), "\n"@) + "\n"@,
    {
        let mut lines: Vec<String> = Vec::new();
        append_line(&mut lines, "## Skills");
        if self.skill_root_lines.len() == 0 {
            append_line(&mut lines, texts.intro_with_absolute_paths);
        } else {
            append_line(&mut lines, texts.intro_with_aliases);
            append_line(&mut lines, "### Skill roots");
            append_lines(&mut lines, &self.skill_root_lines);
        }
        append_line(&mut lines, "### Available skills");
        append_lines(&mut lines, &self.skill_lines);
        append_line(&mut lines, "### How to use skills");
        if self.skill_root_lines.len() == 0 {
            append_line(&mut lines, texts.how_to_use_with_absolute_paths);
        } else {
            append_line(&mut lines, texts.how_to_use_with_aliases);
        }
        assert(text::texts(lines@) =~= body_lines(self@, *texts));
        let mut r = "\n".to_owned();
        r.append(text::join(&lines, "\n").as_str());
        r.append("\n");
        r
    }
}

/// Without roots, the instructions introduce the skills by their absolute paths: the
/// heading, the introduction, the heading of the skills, the skills, the heading of the
/// usage, and the usage.
pub proof fn law_instructions_without_roots(skills: SkillsView, texts: SkillTexts<'_>)
    requires
        skills.skill_root_lines.len() == 0,
    ensures
        body_lines(skills, texts) == seq![
            "## Skills"@,
            texts.intro_with_absolute_paths@,
            "### Available skills"@,
        ] + skills.skill_lines + seq![
            "### How to use skills"@,
            texts.how_to_use_with_absolute_paths@,
        ],
{
    assert(body_lines(skills, texts) =~= seq![
        "## Skills"@,
        texts.intro_with_absolute_paths@,
        "### Available skills"@,
    ] + skills.skill_lines + seq![
        "### How to use skills"@,
        texts.how_to_use_with_absolute_paths@,
    ]);
}

/// With roots, the instructions introduce the skills by aliases, and list the roots
/// before the skills.
pub proof fn law_instructions_with_roots(skills: SkillsView, texts: SkillTexts<'_>)
    requires
        skills.skill_root_lines.len() > 0,
    ensures
        body_lines(skills, texts) == seq![
            "## Skills"@,
            texts.intro_with_aliases@,
            "### Skill roots"@,
        ] + skills.skill_root_lines + seq!["### Available skills"@] + skills.skill_lines + seq![
            "### How to use skills"@,
            texts.how_to_use_with_aliases@,
        ],
{
    assert(body_lines(skills, texts) =~= seq![
        "## Skills"@,
        texts.intro_with_aliases@,
        "### Skill roots"@,
    ] + skills.skill_root_lines + seq!["### Available skills"@] + skills.skill_lines + seq![
        "### How to use skills"@,
        texts.how_to_use_with_aliases@,
    ]);
}

} // verus!
