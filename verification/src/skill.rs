//! Skills: instructions that are found in files with a head of named values.

use crate::table::Table;
use crate::text::{
    after_prefix, begins_with, chars_of, copy_str, find_text, first_at, first_position_is, has_text, is_space, lines_of,
    occurs_at, parts_stand_in_the_whole, same_text, slice, split_lines,
    starts_with, strip_prefix, texts, trim, trim_start, trimmed, trimmed_start,
};
use vstd::prelude::*;

verus! {

/// A skill: its name, what it is for and what to do.
pub struct Skill {
    pub name: String,
    pub description: String,
    pub path: String,
    pub instructions: String,
}

/// The value of the last of the lines that begin with `key`.
pub open spec fn last_value(lines: Seq<Seq<char>>, key: Seq<char>) -> Option<Seq<char>>
    decreases lines.len(),
{
    if lines.len() == 0 {
        None
    } else {
        match after_prefix(lines.last(), key) {
            Some(v) => Some(trimmed(v)),
            None => last_value(lines.drop_last(), key),
        }
    }
}

/// The head of a skill file and what follows it.
pub enum Front {
    /// The file has no head.
    Missing,
    Found { head: Seq<char>, body: Seq<char> },
}

/// The head stands between two lines of three hyphens at the start of the file.
pub open spec fn front_of(content: Seq<char>) -> Front {
    let t = trimmed_start(content);
    if !begins_with(t, "---"@) {
        Front::Missing
    } else {
        let rest = t.skip(3);
        let end = first_at(rest, "\n---"@);
        if end < 0 {
            Front::Missing
        } else {
            Front::Found { head: rest.take(end), body: trimmed_start(rest.skip(end + 4)) }
        }
    }
}

/// The name, the description and the instructions of a skill file.
pub open spec fn frontmatter(content: Seq<char>) -> (Option<Seq<char>>, Seq<char>, Seq<char>) {
    match front_of(content) {
        Front::Missing => (None, Seq::empty(), content),
        Front::Found { head, body } => (
            last_value(lines_of(head), "name:"@),
            match last_value(lines_of(head), "description:"@) {
                Some(d) => d,
                None => Seq::empty(),
            },
            body,
        ),
    }
}

proof fn name_is_no_description(line: Seq<char>)
    requires
        begins_with(line, "name:"@),
    ensures
        !begins_with(line, "description:"@),
{
    reveal_strlit("name:");
    reveal_strlit("description:");
    assert(line.take(5)[0] == 'n');
    if begins_with(line, "description:"@) {
        assert(line.take(12)[0] == 'd');
    }
}

/// The name and the description in the head of a skill file.
fn parse_head(head: &str) -> (r: (Option<String>, String))
    ensures
        crate::audit::opt_text(r.0) == last_value(lines_of(head@), "name:"@),
        r.1@ == (match last_value(lines_of(head@), "description:"@) {
            Some(d) => d,
            None => Seq::empty(),
        }),
{
    let lines = split_lines(head);
    let ghost all = lines_of(head@);
    let mut name: Option<String> = None;
    let mut description = String::new();
    for i in 0..lines.len()
        invariant
            all == texts(lines@),
            crate::audit::opt_text(name) == last_value(all.take(i as int), "name:"@),
            description@ == (match last_value(all.take(i as int), "description:"@) {
                Some(d) => d,
                None => Seq::empty(),
            }),
    {
        assert(all.take(i + 1).drop_last() =~= all.take(i as int));
        assert(all.take(i + 1).last() == lines@[i as int]@);
        match strip_prefix(lines[i].as_str(), "name:") {
            Some(v) => {
                proof {
                    name_is_no_description(lines@[i as int]@);
                }
                name = Some(trim(v.as_str()));
            },
            None => {
                match strip_prefix(lines[i].as_str(), "description:") {
                    Some(v) => {
                        description = trim(v.as_str());
                    },
                    None => {},
                }
            },
        }
    }
    assert(all.take(all.len() as int) =~= all);
    (name, description)
}

/// The head and the body of a skill file.
fn split_front(content: &str) -> (r: Option<(String, String)>)
    ensures
        match r {
            Some((head, body)) => front_of(content@) == (Front::Found { head: head@, body: body@ }),
            None => front_of(content@) is Missing,
        },
{
    proof {
        reveal_strlit("---");
        reveal_strlit("\n---");
    }
    let t = trim_start(content);
    if !starts_with(t.as_str(), "---") {
        return None;
    }
    let n: usize = chars_of(t.as_str()).len();
    let rest = slice(t.as_str(), 3, n);
    assert(rest@ =~= t@.skip(3));
    match find_text(rest.as_str(), "\n---") {
        Some(end) => {
            let m: usize = chars_of(rest.as_str()).len();
            let head = slice(rest.as_str(), 0, end);
            assert(head@ =~= rest@.take(end as int));
            let tail = slice(rest.as_str(), end + 4, m);
            assert(tail@ =~= rest@.skip(end + 4));
            Some((head, trim_start(tail.as_str())))
        },
        None => None,
    }
}

/// The name, the description and the instructions of a skill file. A file
/// without a head is all instructions.
pub fn parse_frontmatter(content: &str) -> (r: (Option<String>, String, String))
    ensures
        crate::audit::opt_text(r.0) == frontmatter(content@).0,
        r.1@ == frontmatter(content@).1,
        r.2@ == frontmatter(content@).2,
{
    match split_front(content) {
        Some((head, body)) => {
            let (name, description) = parse_head(head.as_str());
            (name, description, body)
        },
        None => (None, String::new(), copy_str(content)),
    }
}

impl Skill {
    /// The skill of a file: one without a name is named after its folder.
    pub fn load(content: &str, path: &str, folder: Option<String>) -> (r: Skill)
        ensures
            r.name@ == (match frontmatter(content@).0 {
                Some(n) => n,
                None => match folder {
                    Some(f) => f@,
                    None => "unnamed"@,
                },
            }),
            r.description@ == frontmatter(content@).1,
            r.path@ == path@,
            r.instructions@ == frontmatter(content@).2,
    {
        let (name, description, instructions) = parse_frontmatter(content);
        let name = match name {
            Some(n) => n,
            None => match folder {
                Some(f) => f,
                None => copy_str("unnamed"),
            },
        };
        Skill { name, description, path: copy_str(path), instructions }
    }
}

/// The skills that were found, in the order of their names.
pub struct SkillRegistry {
    pub skills: Vec<Skill>,
}

/// The position of the first skill named `name`, or `-1`.
pub open spec fn first_named(skills: Seq<Skill>, name: Seq<char>, from: int) -> int
    decreases skills.len() - from,
{
    if from < 0 || from >= skills.len() {
        -1
    } else if skills[from].name@ == name {
        from
    } else {
        first_named(skills, name, from + 1)
    }
}

/// The names of skills.
pub open spec fn names(v: Seq<Skill>) -> Seq<Seq<char>> {
    v.map_values(|s: Skill| s.name@)
}

/// `listed` holds the first skill of each name in `found`, by name.
pub open spec fn is_catalog(found: Seq<Skill>, listed: Seq<Skill>) -> bool {
    &&& forall|i: int, j: int|
        0 <= i < j < listed.len() ==> crate::text::text_less((#[trigger] listed[i]).name@, (#[trigger] listed[j]).name@)
    &&& forall|i: int|
        0 <= i < listed.len() ==> first_named(found, (#[trigger] listed[i]).name@, 0) >= 0 && listed[i]
            == found[first_named(found, listed[i].name@, 0)]
    &&& forall|k: int| 0 <= k < found.len() ==> names(listed).contains((#[trigger] found[k]).name@)
}

impl SkillRegistry {
    /// Lists the skills that were found: where two have the same name, the one
    /// that was found first.
    pub fn discover(found: Vec<Skill>) -> (r: SkillRegistry)
        ensures
            is_catalog(found@, r.skills@),
    {
        let ghost all = found@;
        let total: usize = found.len();
        let mut rest = found;
        let mut table: Table<Skill> = Table::new();
        let mut n: usize = 0;
        while rest.len() > 0
            invariant
                n + rest@.len() == all.len(),
                total == all.len(),
                rest@ == all.skip(n as int),
                table.wf(),
                table.sorted(),
                forall|q: Seq<char>|
                    #[trigger] table@.contains_key(q) ==> 0 <= first_named(all, q, 0) < n && table@[q] == all[first_named(
                        all,
                        q,
                        0,
                    )] && table@[q].name@ == q,
                forall|k: int| 0 <= k < n ==> table@.contains_key((#[trigger] all[k]).name@),
            decreases rest@.len(),
        {
            let ghost table0 = table@;
            let skill = rest.remove(0);
            let ghost s = skill;
            proof {
                assert(s == all[n as int]);
                assert(rest@ =~= all.skip(n + 1));
            }
            if !table.contains(skill.name.as_str()) {
                proof {
                    first_named_here(all, n as int);
                }
                let name = skill.name.clone();
                table.insert_sorted(name, skill);
            }
            n += 1;
        }
        let mut listed: Vec<Skill> = Vec::new();
        let ghost full = table;
        let mut entries = table.entries;
        while entries.len() > 0
            invariant
                full.wf(),
                full.sorted(),
                listed@.len() + entries@.len() == full.entries@.len(),
                entries@ == full.entries@.skip(listed@.len() as int),
                forall|i: int| 0 <= i < listed@.len() ==> #[trigger] listed@[i] == full.entries@[i].1,
            decreases entries@.len(),
        {
            let ghost e0 = entries@;
            let e = entries.remove(0);
            proof {
                assert(e == full.entries@[listed@.len() as int]);
                assert(entries@ =~= full.entries@.skip(listed@.len() + 1int));
            }
            listed.push(e.1);
        }
        proof {
            assert forall|i: int| 0 <= i < listed@.len() implies (#[trigger] listed@[i]).name@ == full.entries@[i].0@
                && full@.contains_key(listed@[i].name@) && full@[listed@[i].name@] == listed@[i] by {
                full.entry_is_value(i);
            }
            assert forall|i: int, j: int| 0 <= i < j < listed@.len() implies crate::text::text_less(
                (#[trigger] listed@[i]).name@,
                (#[trigger] listed@[j]).name@,
            ) by {
                assert(crate::text::text_less(full.entries@[i].0@, full.entries@[j].0@));
            }
            assert forall|k: int| 0 <= k < all.len() implies names(listed@).contains((#[trigger] all[k]).name@) by {
                let q = all[k].name@;
                full.slot_of_key(q);
                assert(names(listed@)[full.slot(q)] == q);
            }
            assert(is_catalog(all, listed@));
        }
        SkillRegistry { skills: listed }
    }

    /// The skills, by name.
    pub fn list(&self) -> (r: &Vec<Skill>)
        ensures
            *r == self.skills,
    {
        &self.skills
    }

    /// The skill named `name`.
    pub fn get(&self, name: &str) -> (r: Option<&Skill>)
        ensures
            match r {
                Some(s) => first_named(self.skills@, name@, 0) >= 0 && *s == self.skills@[first_named(
                    self.skills@,
                    name@,
                    0,
                )] && s.name@ == name@,
                None => first_named(self.skills@, name@, 0) == -1,
            },
    {
        let mut i: usize = 0;
        while i < self.skills.len()
            invariant
                i <= self.skills@.len(),
                first_named(self.skills@, name@, 0) == first_named(self.skills@, name@, i as int),
            decreases self.skills@.len() - i,
        {
            if same_text(self.skills[i].name.as_str(), name) {
                return Some(&self.skills[i]);
            }
            i += 1;
        }
        None
    }
}

proof fn first_named_bounds(v: Seq<Skill>, name: Seq<char>, from: int)
    requires
        0 <= from,
    ensures
        first_named(v, name, from) == -1 ==> forall|i: int| from <= i < v.len() ==> (#[trigger] v[i]).name@ != name,
        first_named(v, name, from) != -1 ==> from <= first_named(v, name, from) < v.len() && v[first_named(
            v,
            name,
            from,
        )].name@ == name && forall|i: int| from <= i < first_named(v, name, from) ==> (#[trigger] v[i]).name@ != name,
    decreases v.len() - from,
{
    if from < v.len() && v[from].name@ != name {
        first_named_bounds(v, name, from + 1);
    }
}

/// Where no earlier skill has the name of the one at `n`, it is the first.
proof fn first_named_here(v: Seq<Skill>, n: int)
    requires
        0 <= n < v.len(),
        forall|k: int| 0 <= k < n ==> (#[trigger] v[k]).name@ != v[n].name@,
    ensures
        first_named(v, v[n].name@, 0) == n,
{
    first_named_bounds(v, v[n].name@, 0);
    assert(v[n].name@ == v[n].name@);
}

// ---------------------------------------------------------------------------
// Laws
// ---------------------------------------------------------------------------

/// The header of a skill stands between two lines of hyphens; what follows is its body.
pub proof fn headers_stand_between_hyphens(head: Seq<char>, body: Seq<char>)
    requires
        !has_text(head + "\n--"@, "\n---"@),
        body.len() > 0 ==> !is_space(body[0]),
    ensures
        front_of("---"@ + head + "\n---"@ + body) == (Front::Found { head, body }),
{
    hyphens_fit();
    ends_at_first(head, "\n---"@, body);
    header_found(head, body);
}

proof fn hyphens_fit()
    ensures
        "\n---"@.drop_last() == "\n--"@,
        "\n---"@.len() == 4,
{
    reveal_strlit("\n---");
    reveal_strlit("\n--");
    assert("\n---"@.drop_last() =~= "\n--"@);
}

proof fn header_found(head: Seq<char>, body: Seq<char>)
    requires
        first_at(head + "\n---"@ + body, "\n---"@) == head.len(),
        body.len() > 0 ==> !is_space(body[0]),
    ensures
        front_of("---"@ + head + "\n---"@ + body) == (Front::Found { head, body }),
{
    let t = "---"@ + head + "\n---"@ + body;
    let rest = head + "\n---"@ + body;
    header_parts(head, body);
    assert(front_of(t) == (Front::Found { head: rest.take(head.len() as int), body: trimmed_start(rest.skip(head.len() + 4int)) }));
}

proof fn header_parts(head: Seq<char>, body: Seq<char>)
    requires
        body.len() > 0 ==> !is_space(body[0]),
    ensures
        ({
            let t = "---"@ + head + "\n---"@ + body;
            let rest = head + "\n---"@ + body;
            &&& trimmed_start(t) == t
            &&& begins_with(t, "---"@)
            &&& t.skip(3) == rest
            &&& rest.take(head.len() as int) == head
            &&& rest.skip(head.len() + 4int) == body
            &&& trimmed_start(body) == body
        }),
{
    let t = "---"@ + head + "\n---"@ + body;
    let rest = head + "\n---"@ + body;
    hyphens_fit();
    reveal_strlit("---");
    assert(t[0] == '-');
    assert(trimmed_start(t) == t);
    assert(t.take(3) =~= "---"@);
    assert(t.skip(3) =~= rest);
    assert(rest.take(head.len() as int) =~= head);
    assert(rest.skip(head.len() + 4int) =~= body);
}

/// Without a first line of hyphens there is no header, and all of the text is body.
pub proof fn texts_without_a_header_are_body(content: Seq<char>)
    requires
        !begins_with(trimmed_start(content), "---"@),
    ensures
        front_of(content) is Missing,
        frontmatter(content).0 is None,
        frontmatter(content).1.len() == 0,
        frontmatter(content).2 == content,
{
}

proof fn not_before(head: Seq<char>, sep: Seq<char>, body: Seq<char>, f: int)
    requires
        sep.len() > 0,
        !has_text(head + sep.drop_last(), sep),
        0 <= f < head.len(),
    ensures
        (head + sep + body).subrange(f, f + sep.len()) != sep,
{
    let rest = head + sep + body;
    let w = head + sep.drop_last();
    assert(f + sep.len() <= w.len());
    assert(w.subrange(f, f + sep.len()) =~= rest.subrange(f, f + sep.len()));
    assert(!occurs_at(w, sep, f));
}

proof fn ends_at_first(head: Seq<char>, sep: Seq<char>, body: Seq<char>)
    requires
        sep.len() > 0,
        !has_text(head + sep.drop_last(), sep),
    ensures
        first_at(head + sep + body, sep) == head.len(),
{
    let rest = head + sep + body;
    let n = head.len() as int;
    assert(rest.subrange(n, n + sep.len()) =~= sep);
    assert forall|j: int| 0 <= j < n implies rest.subrange(j, #[trigger] (j + sep.len())) != sep by {
        not_before(head, sep, body, j);
    }
    first_position_is(rest, sep, n);
}

/// A value of the header is what stands behind its key, without the white space around
/// it; where a key stands twice, the later line counts.
pub proof fn the_last_value_counts(lines: Seq<Seq<char>>, line: Seq<char>, key: Seq<char>, value: Seq<char>)
    ensures
        last_value(seq![], key) is None,
        last_value(lines.push(key + value), key) == Some(trimmed(value)),
        !begins_with(line, key) ==> last_value(lines.push(line), key) == last_value(lines, key),
{
    assert(lines.push(key + value).drop_last() =~= lines);
    assert(lines.push(line).drop_last() =~= lines);
    parts_stand_in_the_whole(value, key, value, line);
}

/// The name and the description of a skill are read from its header, the one under
/// its key and the other under its own.
pub proof fn names_and_descriptions_are_read(content: Seq<char>, head: Seq<char>, body: Seq<char>)
    requires
        front_of(content) == (Front::Found { head, body }),
    ensures
        frontmatter(content).0 == last_value(lines_of(head), "name:"@),
        last_value(lines_of(head), "description:"@) matches Some(d) ==> frontmatter(content).1 == d,
        last_value(lines_of(head), "description:"@) is None ==> frontmatter(content).1.len() == 0,
        frontmatter(content).2 == body,
{
}

/// A name finds the first skill that has it, and none where no skill has.
pub proof fn names_find_the_first_skill(skills: Seq<Skill>, name: Seq<char>, from: int)
    requires
        0 <= from,
    ensures
        first_named(skills, name, from) >= 0 ==> from <= first_named(skills, name, from) < skills.len() && skills[first_named(
            skills,
            name,
            from,
        )].name@ == name && forall|j: int| from <= j < first_named(skills, name, from) ==> (#[trigger] skills[j]).name@ != name,
        first_named(skills, name, from) < 0 <==> forall|j: int| from <= j < skills.len() ==> (#[trigger] skills[j]).name@ != name,
    decreases skills.len() - from,
{
    if from < skills.len() && skills[from].name@ != name {
        names_find_the_first_skill(skills, name, from + 1);
    }
}

/// A catalogue has every skill that was found, each name once, the first that was found
/// under it, in the order of the names; and nothing else.
pub proof fn catalogues_list_every_name_once(found: Seq<Skill>, listed: Seq<Skill>, k: int)
    requires
        is_catalog(found, listed),
        0 <= k < found.len(),
    ensures
        exists|i: int| 0 <= i < listed.len() && (#[trigger] listed[i]).name@ == found[k].name@,
        forall|i: int| 0 <= i < listed.len() ==> found.contains(#[trigger] listed[i]),
        (forall|j: int| 0 <= j < k ==> (#[trigger] found[j]).name@ != found[k].name@) ==> listed.contains(found[k]),
        forall|i: int, j: int| 0 <= i < j < listed.len() ==> (#[trigger] listed[i]).name@ != (#[trigger] listed[j]).name@,
{
    assert(names(listed).contains(found[k].name@));
    let i = choose|i: int| 0 <= i < names(listed).len() && names(listed)[i] == found[k].name@;
    assert(listed[i].name@ == found[k].name@);
    names_find_the_first_skill(found, found[k].name@, 0);
    assert forall|i: int| 0 <= i < listed.len() implies found.contains(#[trigger] listed[i]) by {
        names_find_the_first_skill(found, listed[i].name@, 0);
    }
    assert forall|i: int, j: int| 0 <= i < j < listed.len() implies (#[trigger] listed[i]).name@ != (
    #[trigger] listed[j]).name@ by {
        crate::text::text_order(listed[i].name@, listed[j].name@, listed[i].name@);
    }
}

/// Skills that stand in the order of their names, each name once, are a catalogue of
/// themselves.
pub proof fn ordered_skills_are_a_catalogue(found: Seq<Skill>)
    requires
        forall|i: int, j: int|
            0 <= i < j < found.len() ==> crate::text::text_less((#[trigger] found[i]).name@, (#[trigger] found[j]).name@),
    ensures
        is_catalog(found, found),
{
    assert forall|i: int| 0 <= i < found.len() implies first_named(found, (#[trigger] found[i]).name@, 0) == i by {
        names_find_the_first_skill(found, found[i].name@, 0);
        let j = first_named(found, found[i].name@, 0);
        crate::text::text_order(found[i].name@, found[i].name@, found[i].name@);
        if 0 <= j < i {
            assert(crate::text::text_less(found[j].name@, found[i].name@));
        }
    }
    assert forall|k: int| 0 <= k < found.len() implies names(found).contains((#[trigger] found[k]).name@) by {
        assert(names(found)[k] == found[k].name@);
    }
}

} // verus!
