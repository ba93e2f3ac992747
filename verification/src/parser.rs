//! The opening of a biography: who its subject is.

use crate::pattern::{
    build, first_captures, group_text, regex_captures, regex_compiles, regex_source, Groups,
    GroupsView, PatternError,
};
use crate::place::group_string;
use crate::surname::{compound_surnames, split_name, split_name_of, COMPOUND_SURNAMES};
use crate::text::{
    chars_of, concat2, contains, find_char, find_from, has_substring, starts_with, string_of,
    trim_range, trimmed,
};
use crate::types::{
    aliases_of, ChildhoodName, CourtesyName, Person, PersonKind, PersonKindView, PersonView,
    Section, Source, SourceView,
};
use crate::words::strings_of;
use vstd::prelude::*;
use vstd::string::*;

verus! {

/// An official with courtesy name: name, 字, courtesy name, origin, 人.
pub const OFFICIAL_PATTERN: &'static str =
    "^(?P<name>[^\\s，。、字]{2,4})[，,]?字(?P<courtesy>[^\\s，。]{1,3})[，,](?P<origin>[^\\s，。人]+)人";

/// An official without courtesy name: name, origin, 人也.
pub const OFFICIAL_NO_COURTESY_PATTERN: &'static str =
    "^(?P<name>[^\\s，。、字]{2,4})[，,](?P<origin>[^\\s，。人字]+)人也";

/// An emperor with temple name: temple name, posthumous title, 皇帝, 諱, given
/// name, 字, courtesy name and, optionally, 小字 and childhood name.
pub const EMPEROR_TEMPLE_PATTERN: &'static str =
    "^(?P<temple>[^\\s，。諱]{2})(?P<posthumous>[^\\s，。諱]{1,2})皇帝[，,]?諱(?P<given>[^\\s，。]{1,2})[，,]字(?P<courtesy>[^\\s，。]{1,3})(?:[，,]小字(?P<childhood>[^\\s，。]{1,3}))?";

/// An emperor without temple name.
pub const EMPEROR_SHORT_PATTERN: &'static str =
    "^(?P<posthumous>[^\\s，。諱]{1,4})皇帝諱(?P<given>[^\\s，。]{1,2})[，,]字(?P<courtesy>[^\\s，。]{1,3})(?:[，,]小字(?P<childhood>[^\\s，。]{1,3}))?";

/// A deposed ruler or a prince: title, 諱, given name, 字, courtesy name.
pub const DEPOSED_PATTERN: &'static str =
    "^(?P<title>[^\\s，。諱]{2,4})諱(?P<given>[^\\s，。]{1,2})[，,]字(?P<courtesy>[^\\s，。]{1,3})(?:[，,]小字(?P<childhood>[^\\s，。]{1,3}))?";

/// The surname where the text states it apart: 姓X氏.
pub const SURNAME_PATTERN: &'static str =
    "姓(?P<surname>[^\\s，。氏]+)氏";

/// A foreign ruler with courtesy name.
pub const RULER_WITH_COURTESY_PATTERN: &'static str =
    "^(?P<name>[^\\s，。字]{2,5})[，,]?字(?P<courtesy>[^\\s，。]{1,3})";

/// A foreign ruler introduced by the given name alone, in a biography that
/// continues another.
pub const RULER_GIVEN_ONLY_PATTERN: &'static str =
    "^(?P<given>[^\\s，。字]{1,2})字(?P<courtesy>[^\\s，。]{1,3})";

/// A foreign ruler whose courtesy name is under taboo: name and lineage.
pub const RULER_NO_COURTESY_PATTERN: &'static str =
    "^(?P<name>[^\\s，。字]{2,5})[，,](?P<lineage>[^\\s。]+也)";

/// A lineage: whose son, descendant or kinsman somebody is.
pub const LINEAGE_PATTERN: &'static str =
    "(?P<lineage>[^\\s，。]{1,10}(?:之第?[^\\s，。]*子|之後|之族|第[^\\s，。]*子)[^\\s，。]*)";

/// Temple names that a volume label may hold.
pub const TEMPLE_NAMES: [&'static str; 10] = [
    "高祖", "太祖", "世祖", "太宗", "世宗", "高宗", "中宗", "肅祖", "顯宗", "孝宗",
];

/// Number of lines at the head of a file in which the opening is sought.
pub const HEADER_LINES: usize = 10;

/// The first temple name, from table position `i` on, that the label holds.
pub open spec fn temple_in_juan(juan: Seq<char>, i: int) -> Option<Seq<char>>
    decreases TEMPLE_NAMES@.len() - i,
{
    if i < 0 || i >= TEMPLE_NAMES@.len() {
        None
    } else if has_substring(juan, TEMPLE_NAMES@[i]@) {
        Some(TEMPLE_NAMES@[i]@)
    } else {
        temple_in_juan(juan, i + 1)
    }
}

/// The part of a volume label that lists the subjects: what follows the
/// first ideographic space, else what follows the first space, else the
/// whole label.
pub open spec fn names_part(juan: Seq<char>) -> Seq<char> {
    let a = find_from(juan, '　', 0);
    let b = find_from(juan, ' ', 0);
    if a < juan.len() {
        juan.skip(a + 1)
    } else if b < juan.len() {
        juan.skip(b + 1)
    } else {
        juan
    }
}

/// The first compound surname, from table position `i` on, that `s` begins
/// with.
pub open spec fn compound_start(s: Seq<char>, i: int) -> Option<Seq<char>>
    decreases compound_surnames().len() - i,
{
    if i < 0 || i >= compound_surnames().len() {
        None
    } else if compound_surnames()[i].is_prefix_of(s) {
        Some(compound_surnames()[i])
    } else {
        compound_start(s, i + 1)
    }
}

/// The surname of the first subject of a volume label: a compound surname
/// if the list of subjects begins with one, else its first character.
pub open spec fn surname_in_juan(juan: Seq<char>) -> Option<Seq<char>> {
    let part = names_part(juan);
    match compound_start(part, 0) {
        Some(cs) => Some(cs),
        None => if part.len() > 0 {
            Some(part.take(1))
        } else {
            None
        },
    }
}

/// The temple name that a volume label holds, e.g. 高祖 in 帝紀第一　高祖宣帝.
pub fn extract_temple_from_juan(juan: &str) -> (r: Option<String>)
    ensures
        r.deep_view() == temple_in_juan(juan@, 0),
{
    let v = chars_of(juan);
    let mut i: usize = 0;
    while i < 10
        invariant
            i <= 10,
            v@ == juan@,
            temple_in_juan(juan@, 0) == temple_in_juan(juan@, i as int),
        decreases 10 - i,
    {
        if contains(&v, &chars_of(TEMPLE_NAMES[i])) {
            return Some(String::from_str(TEMPLE_NAMES[i]));
        }
        i += 1;
    }
    None
}

/// The surname of the first subject that a volume label lists, e.g. 姚 in
/// 載記第十六　姚弋仲 姚襄 姚萇.
pub fn extract_surname_from_juan(juan: &str) -> (r: Option<String>)
    ensures
        r.deep_view() == surname_in_juan(juan@),
{
    let v = chars_of(juan);
    let a = find_char(&v, '　', 0);
    let b = find_char(&v, ' ', 0);
    let from: usize = if a < v.len() {
        a + 1
    } else if b < v.len() {
        b + 1
    } else {
        0
    };
    let mut part: Vec<char> = Vec::new();
    let mut k: usize = from;
    while k < v.len()
        invariant
            from <= k <= v.len(),
            part@ == v@.subrange(from as int, k as int),
        decreases v.len() - k,
    {
        part.push(v[k]);
        k += 1;
    }
    let table = strings_of(&COMPOUND_SURNAMES);
    let mut i: usize = 0;
    while i < table.len()
        invariant
            i <= table.len(),
            table.deep_view() == compound_surnames(),
            part@ == names_part(juan@),
            compound_start(part@, 0) == compound_start(part@, i as int),
        decreases table.len() - i,
    {
        let cs = chars_of(table[i].as_str());
        if starts_with(&part, &cs) {
            return Some(table[i].clone());
        }
        i += 1;
    }
    if part.len() > 0 {
        let first = string_of(&part, 0, 1);
        Some(first)
    } else {
        None
    }
}

/// The lines at the head of a text in which the opening is sought: of the
/// first `budget` lines from position `from` on, trimmed, those that are
/// not empty.
pub open spec fn header_lines_from(s: Seq<char>, from: int, budget: nat) -> Seq<Seq<char>>
    decreases budget,
{
    if budget == 0 || from < 0 || from >= s.len() {
        Seq::empty()
    } else {
        let nl = find_from(s, '\n', from);
        let end = if nl < s.len() && nl > from && s[nl - 1] == '\r' {
            nl - 1
        } else {
            nl
        };
        let line = trimmed(s.subrange(from, end));
        let rest = header_lines_from(s, nl + 1, (budget - 1) as nat);
        if line.len() > 0 {
            seq![line] + rest
        } else {
            rest
        }
    }
}

/// The first ten lines of a text, trimmed, without the empty ones.
pub fn header_lines(content: &str) -> (lines: Vec<String>)
    ensures
        lines.deep_view() == header_lines_from(content@, 0, HEADER_LINES as nat),
{
    let v = chars_of(content);
    let mut lines: Vec<String> = Vec::new();
    let mut from: usize = 0;
    let mut budget: usize = HEADER_LINES;
    assert(lines.deep_view() + header_lines_from(v@, 0, HEADER_LINES as nat) =~= header_lines_from(
        v@,
        0,
        HEADER_LINES as nat,
    ));
    while budget > 0 && from < v.len()
        invariant
            v@ == content@,
            from <= v.len(),
            lines.deep_view() + header_lines_from(v@, from as int, budget as nat) == header_lines_from(
                v@,
                0,
                HEADER_LINES as nat,
            ),
        decreases budget,
    {
        let nl = find_char(&v, '\n', from);
        let end: usize = if nl < v.len() && nl > from && v[nl - 1] == '\r' {
            nl - 1
        } else {
            nl
        };
        let mut raw: Vec<char> = Vec::new();
        let mut k: usize = from;
        while k < end
            invariant
                from <= k <= end <= v.len(),
                raw@ == v@.subrange(from as int, k as int),
            decreases end - k,
        {
            raw.push(v[k]);
            assert(raw@ =~= v@.subrange(from as int, k + 1));
            k += 1;
        }
        let (a, b) = trim_range(&raw);
        let ghost before = lines.deep_view();
        let ghost rest = header_lines_from(v@, nl + 1, (budget - 1) as nat);
        if b > a {
            let line = string_of(&raw, a, b);
            lines.push(line);
            assert(lines.deep_view() =~= before.push(trimmed(raw@)));
            assert(lines.deep_view() + rest =~= before + (seq![trimmed(raw@)] + rest));
        }
        budget -= 1;
        if nl >= v.len() {
            from = v.len();
            assert(header_lines_from(v@, nl + 1, budget as nat) =~= header_lines_from(
                v@,
                from as int,
                budget as nat,
            ));
        } else {
            from = nl + 1;
        }
    }
    assert(header_lines_from(v@, from as int, budget as nat) =~= Seq::<Seq<char>>::empty());
    assert(lines.deep_view() + Seq::<Seq<char>>::empty() =~= lines.deep_view());
    lines
}

/// A subject of the given kind, with its aliases.
pub open spec fn subject(kind: PersonKindView, source: SourceView) -> PersonView {
    PersonView { kind, source, aliases: aliases_of(kind) }
}

/// The official that a line introduces, given what the pattern with and
/// the pattern without courtesy name found in it.
pub open spec fn official_of(
    with_courtesy: Option<GroupsView>,
    without: Option<GroupsView>,
    source: SourceView,
) -> Option<PersonView> {
    match with_courtesy {
        Some(g) => match (group_text(g, 1), group_text(g, 2)) {
            (Some(name), Some(courtesy)) => match split_name_of(name) {
                Some((surname, given_name)) => Some(
                    subject(
                        PersonKindView::Official {
                            surname,
                            given_name,
                            courtesy_name: Some(courtesy),
                            origin: group_text(g, 3),
                        },
                        source,
                    ),
                ),
                None => None,
            },
            _ => None,
        },
        None => match without {
            Some(g) => match group_text(g, 1) {
                Some(name) => match split_name_of(name) {
                    Some((surname, given_name)) => Some(
                        subject(
                            PersonKindView::Official {
                                surname,
                                given_name,
                                courtesy_name: None,
                                origin: group_text(g, 2),
                            },
                            source,
                        ),
                    ),
                    None => None,
                },
                None => None,
            },
            None => None,
        },
    }
}

/// The emperor or deposed ruler that a line introduces, given what the
/// three patterns found in it and the surname that the text states.
pub open spec fn emperor_of(
    temple: Option<GroupsView>,
    short: Option<GroupsView>,
    deposed: Option<GroupsView>,
    surname: Option<Seq<char>>,
    source: SourceView,
) -> Option<PersonView> {
    match temple {
        Some(g) => match (group_text(g, 1), group_text(g, 2), group_text(g, 3)) {
            (Some(t), Some(p), Some(given_name)) => Some(
                subject(
                    PersonKindView::Emperor {
                        temple_name: Some(t),
                        posthumous_title: p + "皇帝"@,
                        given_name,
                        surname,
                        courtesy_name: group_text(g, 4),
                        childhood_name: group_text(g, 5),
                    },
                    source,
                ),
            ),
            _ => None,
        },
        None => match short {
            Some(g) => match (group_text(g, 1), group_text(g, 2)) {
                (Some(p), Some(given_name)) => Some(
                    subject(
                        PersonKindView::Emperor {
                            temple_name: temple_in_juan(source.juan, 0),
                            posthumous_title: p + "皇帝"@,
                            given_name,
                            surname,
                            courtesy_name: group_text(g, 3),
                            childhood_name: group_text(g, 4),
                        },
                        source,
                    ),
                ),
                _ => None,
            },
            None => match deposed {
                Some(g) => match (group_text(g, 1), group_text(g, 2)) {
                    (Some(title), Some(given_name)) => Some(
                        subject(
                            PersonKindView::Deposed {
                                title,
                                given_name,
                                courtesy_name: group_text(g, 3),
                                childhood_name: group_text(g, 4),
                            },
                            source,
                        ),
                    ),
                    _ => None,
                },
                None => None,
            },
        },
    }
}

/// The foreign ruler that a line introduces, given what the three patterns
/// found in it and the lineage that the line states.
pub open spec fn ruler_of(
    with_courtesy: Option<GroupsView>,
    given_only: Option<GroupsView>,
    without: Option<GroupsView>,
    lineage: Option<Seq<char>>,
    source: SourceView,
) -> Option<PersonView> {
    match with_courtesy {
        Some(g) => match (group_text(g, 1), group_text(g, 2)) {
            (Some(name), Some(courtesy)) => match split_name_of(name) {
                Some((surname, given_name)) => Some(
                    subject(
                        PersonKindView::Ruler {
                            surname,
                            given_name,
                            courtesy_name: Some(courtesy),
                            lineage,
                        },
                        source,
                    ),
                ),
                None => None,
            },
            _ => None,
        },
        None => match given_only {
            Some(g) => match (group_text(g, 1), group_text(g, 2)) {
                (Some(given_name), Some(courtesy)) => Some(
                    subject(
                        PersonKindView::Ruler {
                            surname: match surname_in_juan(source.juan) {
                                Some(s) => s,
                                None => Seq::empty(),
                            },
                            given_name,
                            courtesy_name: Some(courtesy),
                            lineage,
                        },
                        source,
                    ),
                ),
                _ => None,
            },
            None => match without {
                Some(g) => match group_text(g, 1) {
                    Some(name) => match split_name_of(name) {
                        Some((surname, given_name)) => Some(
                            subject(
                                PersonKindView::Ruler {
                                    surname,
                                    given_name,
                                    courtesy_name: None,
                                    lineage: group_text(g, 2),
                                },
                                source,
                            ),
                        ),
                        None => None,
                    },
                    None => None,
                },
                None => None,
            },
        },
    }
}

/// The text of group 1 of a match, if there is a match and the group took
/// part in it.
pub open spec fn first_group(m: Option<GroupsView>) -> Option<Seq<char>> {
    match m {
        Some(g) => group_text(g, 1),
        None => None,
    }
}

/// The official that a line introduces.
pub open spec fn parsed_official(line: Seq<char>, source: SourceView) -> Option<PersonView> {
    official_of(
        regex_captures(OFFICIAL_PATTERN@, line),
        regex_captures(OFFICIAL_NO_COURTESY_PATTERN@, line),
        source,
    )
}

/// The emperor or deposed ruler that a line introduces; the surname is
/// sought in the whole text.
pub open spec fn parsed_emperor(line: Seq<char>, content: Seq<char>, source: SourceView) -> Option<
    PersonView,
> {
    emperor_of(
        regex_captures(EMPEROR_TEMPLE_PATTERN@, line),
        regex_captures(EMPEROR_SHORT_PATTERN@, line),
        regex_captures(DEPOSED_PATTERN@, line),
        first_group(regex_captures(SURNAME_PATTERN@, content)),
        source,
    )
}

/// The foreign ruler that a line introduces.
pub open spec fn parsed_ruler(line: Seq<char>, source: SourceView) -> Option<PersonView> {
    ruler_of(
        regex_captures(RULER_WITH_COURTESY_PATTERN@, line),
        regex_captures(RULER_GIVEN_ONLY_PATTERN@, line),
        regex_captures(RULER_NO_COURTESY_PATTERN@, line),
        first_group(regex_captures(LINEAGE_PATTERN@, line)),
        source,
    )
}

/// The subject that a line introduces. In annals and foreign records an
/// emperor is sought first; everywhere an official next; outside the
/// annals an emperor last.
pub open spec fn parsed_line(line: Seq<char>, content: Seq<char>, source: SourceView) -> Option<
    PersonView,
> {
    let emperor = parsed_emperor(line, content, source);
    if (source.section == Section::BenJi || source.section == Section::ZaiJi) && emperor is Some {
        emperor
    } else {
        match parsed_official(line, source) {
            Some(p) => Some(p),
            None => if source.section != Section::BenJi {
                emperor
            } else {
                None
            },
        }
    }
}

/// The subject of the first line, from position `from` on, that
/// introduces one.
pub open spec fn first_parsed(
    lines: Seq<Seq<char>>,
    content: Seq<char>,
    source: SourceView,
    from: int,
) -> Option<PersonView>
    decreases lines.len() - from,
{
    if from < 0 || from >= lines.len() {
        None
    } else {
        match parsed_line(lines[from], content, source) {
            Some(p) => Some(p),
            None => first_parsed(lines, content, source, from + 1),
        }
    }
}

/// The foreign ruler of the first line, from position `from` on, that
/// introduces one.
pub open spec fn first_ruler(lines: Seq<Seq<char>>, source: SourceView, from: int) -> Option<
    PersonView,
>
    decreases lines.len() - from,
{
    if from < 0 || from >= lines.len() {
        None
    } else {
        match parsed_ruler(lines[from], source) {
            Some(p) => Some(p),
            None => first_ruler(lines, source, from + 1),
        }
    }
}

/// The subject of a biography: what the first header line that parses
/// introduces; in foreign records, where no line parses so, the ruler that
/// the first line that fits the looser patterns introduces.
pub open spec fn parsed_biography(content: Seq<char>, source: SourceView) -> Option<PersonView> {
    let lines = header_lines_from(content, 0, HEADER_LINES as nat);
    match first_parsed(lines, content, source, 0) {
        Some(p) => Some(p),
        None => if source.section == Section::ZaiJi {
            first_ruler(lines, source, 0)
        } else {
            None
        },
    }
}

/// Every pattern of the parser compiles.
pub open spec fn header_patterns_compile() -> bool {
    &&& regex_compiles(OFFICIAL_PATTERN@)
    &&& regex_compiles(OFFICIAL_NO_COURTESY_PATTERN@)
    &&& regex_compiles(EMPEROR_TEMPLE_PATTERN@)
    &&& regex_compiles(EMPEROR_SHORT_PATTERN@)
    &&& regex_compiles(DEPOSED_PATTERN@)
    &&& regex_compiles(SURNAME_PATTERN@)
    &&& regex_compiles(RULER_WITH_COURTESY_PATTERN@)
    &&& regex_compiles(RULER_GIVEN_ONLY_PATTERN@)
    &&& regex_compiles(RULER_NO_COURTESY_PATTERN@)
    &&& regex_compiles(LINEAGE_PATTERN@)
}

fn finish(kind: PersonKind, source: &Source) -> (p: Person)
    ensures
        p@ == subject(kind@, source@),
{
    let mut p = Person { kind, source: source.clone(), aliases: Vec::new() };
    p.compute_aliases();
    p
}

fn courtesy(text: Option<String>) -> (c: CourtesyName)
    ensures
        c@ == text.deep_view(),
{
    match text {
        Some(s) => CourtesyName::Recorded(s),
        None => CourtesyName::NotRecorded,
    }
}

fn childhood(text: Option<String>) -> (c: ChildhoodName)
    ensures
        c@ == text.deep_view(),
{
    match text {
        Some(s) => ChildhoodName::Recorded(s),
        None => ChildhoodName::NotRecorded,
    }
}

fn first_group_of(m: &Option<Groups>) -> (r: Option<String>)
    ensures
        r.deep_view() == first_group(m.deep_view()),
{
    match m {
        Some(g) => group_string(g, 1),
        None => None,
    }
}

/// The official that a line introduces, given what the two patterns found.
pub fn official_from(with_courtesy: &Option<Groups>, without: &Option<Groups>, source: &Source) -> (r:
    Option<Person>)
    ensures
        r.deep_view() == official_of(with_courtesy.deep_view(), without.deep_view(), source@),
{
    match with_courtesy {
        Some(g) => {
            match (group_string(g, 1), group_string(g, 2)) {
                (Some(name), Some(c)) => {
                    match split_name(name.as_str()) {
                        Some((surname, given_name)) => Some(
                            finish(
                                PersonKind::Official {
                                    surname,
                                    given_name,
                                    courtesy_name: CourtesyName::Recorded(c),
                                    origin: group_string(g, 3),
                                },
                                source,
                            ),
                        ),
                        None => None,
                    }
                },
                _ => None,
            }
        },
        None => {
            match without {
                Some(g) => {
                    match group_string(g, 1) {
                        Some(name) => {
                            match split_name(name.as_str()) {
                                Some((surname, given_name)) => Some(
                                    finish(
                                        PersonKind::Official {
                                            surname,
                                            given_name,
                                            courtesy_name: CourtesyName::NotRecorded,
                                            origin: group_string(g, 2),
                                        },
                                        source,
                                    ),
                                ),
                                None => None,
                            }
                        },
                        None => None,
                    }
                },
                None => None,
            }
        },
    }
}

/// The emperor or deposed ruler that a line introduces, given what the
/// three patterns found and the surname that the text states.
pub fn emperor_from(
    temple: &Option<Groups>,
    short: &Option<Groups>,
    deposed: &Option<Groups>,
    surname: Option<String>,
    source: &Source,
) -> (r: Option<Person>)
    ensures
        r.deep_view() == emperor_of(
            temple.deep_view(),
            short.deep_view(),
            deposed.deep_view(),
            surname.deep_view(),
            source@,
        ),
{
    match temple {
        Some(g) => {
            match (group_string(g, 1), group_string(g, 2), group_string(g, 3)) {
                (Some(t), Some(p), Some(given_name)) => Some(
                    finish(
                        PersonKind::Emperor {
                            temple_name: Some(t),
                            posthumous_title: concat2(p.as_str(), "皇帝"),
                            given_name,
                            surname,
                            courtesy_name: courtesy(group_string(g, 4)),
                            childhood_name: childhood(group_string(g, 5)),
                        },
                        source,
                    ),
                ),
                _ => None,
            }
        },
        None => {
            match short {
                Some(g) => {
                    match (group_string(g, 1), group_string(g, 2)) {
                        (Some(p), Some(given_name)) => Some(
                            finish(
                                PersonKind::Emperor {
                                    temple_name: extract_temple_from_juan(source.juan.as_str()),
                                    posthumous_title: concat2(p.as_str(), "皇帝"),
                                    given_name,
                                    surname,
                                    courtesy_name: courtesy(group_string(g, 3)),
                                    childhood_name: childhood(group_string(g, 4)),
                                },
                                source,
                            ),
                        ),
                        _ => None,
                    }
                },
                None => {
                    match deposed {
                        Some(g) => {
                            match (group_string(g, 1), group_string(g, 2)) {
                                (Some(title), Some(given_name)) => Some(
                                    finish(
                                        PersonKind::Deposed {
                                            title,
                                            given_name,
                                            courtesy_name: courtesy(group_string(g, 3)),
                                            childhood_name: childhood(group_string(g, 4)),
                                        },
                                        source,
                                    ),
                                ),
                                _ => None,
                            }
                        },
                        None => None,
                    }
                },
            }
        },
    }
}

/// The foreign ruler that a line introduces, given what the three patterns
/// found and the lineage that the line states.
pub fn ruler_from(
    with_courtesy: &Option<Groups>,
    given_only: &Option<Groups>,
    without: &Option<Groups>,
    lineage: Option<String>,
    source: &Source,
) -> (r: Option<Person>)
    ensures
        r.deep_view() == ruler_of(
            with_courtesy.deep_view(),
            given_only.deep_view(),
            without.deep_view(),
            lineage.deep_view(),
            source@,
        ),
{
    match with_courtesy {
        Some(g) => {
            match (group_string(g, 1), group_string(g, 2)) {
                (Some(name), Some(c)) => {
                    match split_name(name.as_str()) {
                        Some((surname, given_name)) => Some(
                            finish(
                                PersonKind::Ruler {
                                    surname,
                                    given_name,
                                    courtesy_name: CourtesyName::Recorded(c),
                                    lineage,
                                },
                                source,
                            ),
                        ),
                        None => None,
                    }
                },
                _ => None,
            }
        },
        None => {
            match given_only {
                Some(g) => {
                    match (group_string(g, 1), group_string(g, 2)) {
                        (Some(given_name), Some(c)) => {
                            let surname = match extract_surname_from_juan(source.juan.as_str()) {
                                Some(s) => s,
                                None => String::new(),
                            };
                            Some(
                                finish(
                                    PersonKind::Ruler {
                                        surname,
                                        given_name,
                                        courtesy_name: CourtesyName::Recorded(c),
                                        lineage,
                                    },
                                    source,
                                ),
                            )
                        },
                        _ => None,
                    }
                },
                None => {
                    match without {
                        Some(g) => {
                            match group_string(g, 1) {
                                Some(name) => {
                                    match split_name(name.as_str()) {
                                        Some((surname, given_name)) => Some(
                                            finish(
                                                PersonKind::Ruler {
                                                    surname,
                                                    given_name,
                                                    courtesy_name: CourtesyName::NotRecorded,
                                                    lineage: group_string(g, 2),
                                                },
                                                source,
                                            ),
                                        ),
                                        None => None,
                                    }
                                },
                                None => None,
                            }
                        },
                        None => None,
                    }
                },
            }
        },
    }
}

/// Compiled patterns for the openings of biographies.
pub struct BiographyParser {
    re_official: regex::Regex,
    re_official_no_courtesy: regex::Regex,
    re_emperor_temple: regex::Regex,
    re_emperor_short: regex::Regex,
    re_deposed: regex::Regex,
    re_surname: regex::Regex,
    re_ruler_with_courtesy: regex::Regex,
    re_ruler_given_only: regex::Regex,
    re_ruler_no_courtesy: regex::Regex,
    re_lineage: regex::Regex,
}

impl BiographyParser {
    #[verifier::type_invariant]
    spec fn wf(self) -> bool {
        &&& regex_source(self.re_official) == OFFICIAL_PATTERN@
        &&& regex_source(self.re_official_no_courtesy) == OFFICIAL_NO_COURTESY_PATTERN@
        &&& regex_source(self.re_emperor_temple) == EMPEROR_TEMPLE_PATTERN@
        &&& regex_source(self.re_emperor_short) == EMPEROR_SHORT_PATTERN@
        &&& regex_source(self.re_deposed) == DEPOSED_PATTERN@
        &&& regex_source(self.re_surname) == SURNAME_PATTERN@
        &&& regex_source(self.re_ruler_with_courtesy) == RULER_WITH_COURTESY_PATTERN@
        &&& regex_source(self.re_ruler_given_only) == RULER_GIVEN_ONLY_PATTERN@
        &&& regex_source(self.re_ruler_no_courtesy) == RULER_NO_COURTESY_PATTERN@
        &&& regex_source(self.re_lineage) == LINEAGE_PATTERN@
    }

    /// Compiles the patterns. Fails exactly if one of them does not compile.
    pub fn new() -> (r: Result<BiographyParser, PatternError>)
        ensures
            r is Ok <==> header_patterns_compile(),
    {
        let re_official = match build(OFFICIAL_PATTERN) {
            Ok(re) => re,
            Err(e) => {
                return Err(e);
            },
        };
        let re_official_no_courtesy = match build(OFFICIAL_NO_COURTESY_PATTERN) {
            Ok(re) => re,
            Err(e) => {
                return Err(e);
            },
        };
        let re_emperor_temple = match build(EMPEROR_TEMPLE_PATTERN) {
            Ok(re) => re,
            Err(e) => {
                return Err(e);
            },
        };
        let re_emperor_short = match build(EMPEROR_SHORT_PATTERN) {
            Ok(re) => re,
            Err(e) => {
                return Err(e);
            },
        };
        let re_deposed = match build(DEPOSED_PATTERN) {
            Ok(re) => re,
            Err(e) => {
                return Err(e);
            },
        };
        let re_surname = match build(SURNAME_PATTERN) {
            Ok(re) => re,
            Err(e) => {
                return Err(e);
            },
        };
        let re_ruler_with_courtesy = match build(RULER_WITH_COURTESY_PATTERN) {
            Ok(re) => re,
            Err(e) => {
                return Err(e);
            },
        };
        let re_ruler_given_only = match build(RULER_GIVEN_ONLY_PATTERN) {
            Ok(re) => re,
            Err(e) => {
                return Err(e);
            },
        };
        let re_ruler_no_courtesy = match build(RULER_NO_COURTESY_PATTERN) {
            Ok(re) => re,
            Err(e) => {
                return Err(e);
            },
        };
        let re_lineage = match build(LINEAGE_PATTERN) {
            Ok(re) => re,
            Err(e) => {
                return Err(e);
            },
        };
        Ok(
            BiographyParser {
                re_official,
                re_official_no_courtesy,
                re_emperor_temple,
                re_emperor_short,
                re_deposed,
                re_surname,
                re_ruler_with_courtesy,
                re_ruler_given_only,
                re_ruler_no_courtesy,
                re_lineage,
            },
        )
    }

    /// The lineage that a line states, e.g. 雄之子 in 苻堅，字永固，一名文玉，雄之子也。
    pub fn extract_lineage(&self, line: &str) -> (r: Option<String>)
        ensures
            r.deep_view() == first_group(regex_captures(LINEAGE_PATTERN@, line@)),
    {
        proof {
            use_type_invariant(self);
        }
        first_group_of(&first_captures(&self.re_lineage, line))
    }

    /// The official that a line introduces, if it introduces one.
    pub fn try_parse_official(&self, line: &str, source: &Source) -> (r: Option<Person>)
        ensures
            r.deep_view() == parsed_official(line@, source@),
    {
        proof {
            use_type_invariant(self);
        }
        let with_courtesy = first_captures(&self.re_official, line);
        let without = first_captures(&self.re_official_no_courtesy, line);
        official_from(&with_courtesy, &without, source)
    }

    /// The emperor or deposed ruler that a line introduces, if it
    /// introduces one; the surname is sought in the whole text.
    pub fn try_parse_emperor(&self, line: &str, full_content: &str, source: &Source) -> (r: Option<
        Person,
    >)
        ensures
            r.deep_view() == parsed_emperor(line@, full_content@, source@),
    {
        proof {
            use_type_invariant(self);
        }
        let temple = first_captures(&self.re_emperor_temple, line);
        let short = first_captures(&self.re_emperor_short, line);
        let deposed = first_captures(&self.re_deposed, line);
        let surname = first_group_of(&first_captures(&self.re_surname, full_content));
        emperor_from(&temple, &short, &deposed, surname, source)
    }

    /// The foreign ruler that a line introduces, if it introduces one.
    pub fn try_parse_ruler(&self, line: &str, source: &Source) -> (r: Option<Person>)
        ensures
            r.deep_view() == parsed_ruler(line@, source@),
    {
        proof {
            use_type_invariant(self);
        }
        let with_courtesy = first_captures(&self.re_ruler_with_courtesy, line);
        let given_only = first_captures(&self.re_ruler_given_only, line);
        let without = first_captures(&self.re_ruler_no_courtesy, line);
        let lineage = self.extract_lineage(line);
        ruler_from(&with_courtesy, &given_only, &without, lineage, source)
    }

    /// The subject of a biography, from the text of its file; none if no
    /// header line introduces one.
    pub fn parse_biography(&self, content: &str, source: &Source) -> (r: Option<Person>)
        ensures
            r.deep_view() == parsed_biography(content@, source@),
    {
        let lines = header_lines(content);
        let ghost lv = lines.deep_view();
        let mut i: usize = 0;
        while i < lines.len()
            invariant
                i <= lines.len(),
                lv == lines.deep_view(),
                lv == header_lines_from(content@, 0, HEADER_LINES as nat),
                first_parsed(lv, content@, source@, 0) == first_parsed(lv, content@, source@, i as int),
            decreases lines.len() - i,
        {
            let line = lines[i].as_str();
            let annals = source.section == Section::BenJi || source.section == Section::ZaiJi;
            let emperor = self.try_parse_emperor(line, content, source);
            if annals && emperor.is_some() {
                return emperor;
            }
            match self.try_parse_official(line, source) {
                Some(p) => {
                    return Some(p);
                },
                None => {},
            }
            if source.section != Section::BenJi && emperor.is_some() {
                return emperor;
            }
            i += 1;
        }
        if source.section == Section::ZaiJi {
            let mut i: usize = 0;
            while i < lines.len()
                invariant
                    i <= lines.len(),
                    lv == lines.deep_view(),
                    lv == header_lines_from(content@, 0, HEADER_LINES as nat),
                    source.section == Section::ZaiJi,
                    first_parsed(lv, content@, source@, 0) is None,
                    first_ruler(lv, source@, 0) == first_ruler(lv, source@, i as int),
                decreases lines.len() - i,
            {
                let line = lines[i].as_str();
                match self.try_parse_ruler(line, source) {
                    Some(p) => {
                        return Some(p);
                    },
                    None => {},
                }
                i += 1;
            }
        }
        None
    }
}

} // verus!
