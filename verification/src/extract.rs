//! The summary of a biography subject: who it is and how often its own
//! biography refers to it under each of its names.

use crate::tally::{names_of, position};
use crate::text::{chars_of, find_char, find_from, lemma_find_from_bounds, matches_at, occurs_at};
use crate::types::{
    book_title, clone_opt, clone_strings, display_name_of, section_label, Person, PersonKind,
    PersonKindView, PersonView,
};
use vstd::prelude::*;
use vstd::string::*;

verus! {

/// Number of occurrences of `needle` in `hay` from position `from` on,
/// counted from the left without overlap.
pub open spec fn occurrences(hay: Seq<char>, needle: Seq<char>, from: int) -> nat
    decreases hay.len() - from,
{
    if needle.len() == 0 || from < 0 || from + needle.len() > hay.len() {
        0
    } else if occurs_at(hay, needle, from) {
        1 + occurrences(hay, needle, from + needle.len())
    } else {
        occurrences(hay, needle, from + 1)
    }
}

/// Number of lines of `s` from position `from` on. A line ends at a line
/// feed; the text after the last line feed is a line if it is not empty.
pub open spec fn line_count(s: Seq<char>, from: int) -> nat
    decreases s.len() - from,
{
    if from < 0 || from >= s.len() {
        0
    } else {
        let nl = find_from(s, '\n', from);
        if nl < from || nl >= s.len() {
            1
        } else {
            1 + line_count(s, nl + 1)
        }
    }
}

/// How a biography refers to its subject.
#[derive(Debug)]
pub struct RefStats {
    /// Occurrences of each alias that occurs at all, in the order of the
    /// aliases.
    pub alias_counts: Vec<(String, usize)>,
    /// Number of lines of the biography.
    pub total_lines: usize,
}

pub struct RefStatsView {
    pub alias_counts: Seq<(Seq<char>, usize)>,
    pub total_lines: usize,
}

impl View for RefStats {
    type V = RefStatsView;

    open spec fn view(&self) -> RefStatsView {
        RefStatsView { alias_counts: self.alias_counts.deep_view(), total_lines: self.total_lines }
    }
}

/// The counts of those of the first `n` aliases that are not empty and
/// occur in the text, each alias once.
pub open spec fn alias_counts_of(aliases: Seq<Seq<char>>, content: Seq<char>, n: nat) -> Seq<
    (Seq<char>, usize),
>
    decreases n,
{
    if n == 0 || n > aliases.len() {
        Seq::empty()
    } else {
        let r = alias_counts_of(aliases, content, (n - 1) as nat);
        let a = aliases[n - 1];
        if a.len() > 0 && occurrences(content, a, 0) > 0 && !names_of(r).contains(a) {
            r.push((a, occurrences(content, a, 0) as usize))
        } else {
            r
        }
    }
}

/// How the text of a biography refers to a subject with the given aliases.
pub open spec fn ref_stats_of(aliases: Seq<Seq<char>>, content: Seq<char>) -> RefStatsView {
    RefStatsView {
        alias_counts: alias_counts_of(aliases, content, aliases.len()),
        total_lines: line_count(content, 0) as usize,
    }
}

proof fn lemma_occurrences_bound(hay: Seq<char>, needle: Seq<char>, from: int)
    requires
        0 <= from,
    ensures
        occurrences(hay, needle, from) <= hay.len(),
        from <= hay.len() ==> occurrences(hay, needle, from) <= hay.len() - from,
    decreases hay.len() - from,
{
    if needle.len() > 0 && from + needle.len() <= hay.len() {
        if occurs_at(hay, needle, from) {
            lemma_occurrences_bound(hay, needle, from + needle.len());
        } else {
            lemma_occurrences_bound(hay, needle, from + 1);
        }
    }
}

proof fn lemma_line_count_bound(s: Seq<char>, from: int)
    requires
        0 <= from,
    ensures
        from <= s.len() ==> line_count(s, from) <= s.len() - from,
        from > s.len() ==> line_count(s, from) == 0,
    decreases s.len() - from,
{
    if from < s.len() {
        lemma_find_from_bounds(s, '\n', from);
        if find_from(s, '\n', from) < s.len() {
            lemma_line_count_bound(s, find_from(s, '\n', from) + 1);
        }
    }
}

/// Counts the occurrences of `needle` in `hay`, from the left, without
/// overlap.
pub fn count_occurrences(hay: &Vec<char>, needle: &Vec<char>) -> (n: usize)
    ensures
        n == occurrences(hay@, needle@, 0),
{
    if needle.len() == 0 || needle.len() > hay.len() {
        return 0;
    }
    let last: usize = hay.len() - needle.len();
    let mut n: usize = 0;
    let mut at: usize = 0;
    while at <= last
        invariant
            last == hay.len() - needle.len(),
            0 < needle.len() <= hay.len(),
            at <= hay.len(),
            n <= at,
            n + occurrences(hay@, needle@, at as int) == occurrences(hay@, needle@, 0),
        decreases hay.len() - at,
    {
        if matches_at(hay, needle, at) {
            n += 1;
            at += needle.len();
        } else {
            at += 1;
        }
    }
    n
}

/// Counts the lines of a text.
pub fn count_lines(s: &Vec<char>) -> (n: usize)
    ensures
        n == line_count(s@, 0),
{
    let mut n: usize = 0;
    let mut from: usize = 0;
    while from < s.len()
        invariant
            from <= s.len(),
            n <= from,
            n + line_count(s@, from as int) == line_count(s@, 0),
        decreases s.len() - from,
    {
        let nl = find_char(s, '\n', from);
        n += 1;
        if nl >= s.len() {
            from = s.len();
        } else {
            from = nl + 1;
        }
    }
    n
}

/// Counts how often each of the aliases occurs in a text, and the lines of
/// the text.
pub fn count_refs(aliases: &Vec<String>, content: &str) -> (stats: RefStats)
    ensures
        stats@ == ref_stats_of(aliases.deep_view(), content@),
{
    let text = chars_of(content);
    let ghost av = aliases.deep_view();
    let mut counts: Vec<(String, usize)> = Vec::new();
    let mut i: usize = 0;
    while i < aliases.len()
        invariant
            i <= aliases.len(),
            av == aliases.deep_view(),
            text@ == content@,
            counts.deep_view() == alias_counts_of(av, content@, i as nat),
        decreases aliases.len() - i,
    {
        let alias = chars_of(aliases[i].as_str());
        if alias.len() > 0 {
            let n = count_occurrences(&text, &alias);
            if n > 0 {
                match position(&counts, aliases[i].as_str()) {
                    Some(k) => {
                        assert(names_of(counts.deep_view())[k as int] == aliases@[i as int]@);
                    },
                    None => {
                        counts.push((aliases[i].clone(), n));
                    },
                }
            }
        }
        i += 1;
    }
    RefStats { alias_counts: counts, total_lines: count_lines(&text) }
}

/// A biography subject in short.
#[derive(Debug)]
pub struct PersonSummary {
    pub display_name: String,
    pub book: String,
    pub section: String,
    pub kind: String,
    pub aliases: Vec<String>,
    pub ref_stats: RefStats,
    pub courtesy_name: Option<String>,
    pub origin: Option<String>,
    pub file: String,
}

pub struct PersonSummaryView {
    pub display_name: Seq<char>,
    pub book: Seq<char>,
    pub section: Seq<char>,
    pub kind: Seq<char>,
    pub aliases: Seq<Seq<char>>,
    pub ref_stats: RefStatsView,
    pub courtesy_name: Option<Seq<char>>,
    pub origin: Option<Seq<char>>,
    pub file: Seq<char>,
}

impl View for PersonSummary {
    type V = PersonSummaryView;

    open spec fn view(&self) -> PersonSummaryView {
        PersonSummaryView {
            display_name: self.display_name@,
            book: self.book@,
            section: self.section@,
            kind: self.kind@,
            aliases: self.aliases.deep_view(),
            ref_stats: self.ref_stats@,
            courtesy_name: self.courtesy_name.deep_view(),
            origin: self.origin.deep_view(),
            file: self.file@,
        }
    }
}

/// The name of a kind of subject.
pub open spec fn kind_name(k: PersonKindView) -> Seq<char> {
    match k {
        PersonKindView::Emperor { .. } => "Emperor"@,
        PersonKindView::Official { .. } => "Official"@,
        PersonKindView::Deposed { .. } => "Deposed"@,
        PersonKindView::Ruler { .. } => "Ruler"@,
    }
}

/// The courtesy name of a subject, where one is recorded.
pub open spec fn courtesy_of(k: PersonKindView) -> Option<Seq<char>> {
    match k {
        PersonKindView::Emperor { courtesy_name, .. } => courtesy_name,
        PersonKindView::Official { courtesy_name, .. } => courtesy_name,
        PersonKindView::Deposed { courtesy_name, .. } => courtesy_name,
        PersonKindView::Ruler { courtesy_name, .. } => courtesy_name,
    }
}

/// Where a subject comes from: the origin of an official, the lineage of
/// a foreign ruler.
pub open spec fn origin_of(k: PersonKindView) -> Option<Seq<char>> {
    match k {
        PersonKindView::Official { origin, .. } => origin,
        PersonKindView::Ruler { lineage, .. } => lineage,
        _ => None,
    }
}

/// The summary of a subject. `content` is the text of the subject's
/// biography, or none where it could not be read: then nothing is counted.
pub open spec fn summary_of(p: PersonView, content: Option<Seq<char>>) -> PersonSummaryView {
    PersonSummaryView {
        display_name: display_name_of(p.kind),
        book: book_title(p.source.book),
        section: section_label(p.source.section),
        kind: kind_name(p.kind),
        aliases: p.aliases,
        ref_stats: match content {
            Some(c) => ref_stats_of(p.aliases, c),
            None => RefStatsView { alias_counts: Seq::empty(), total_lines: 0 },
        },
        courtesy_name: courtesy_of(p.kind),
        origin: origin_of(p.kind),
        file: p.source.file_path,
    }
}

/// Counts how often each alias of a person occurs in the text of that
/// person's biography.
pub fn count_refs_in_biography(person: &Person, content: &str) -> (stats: RefStats)
    ensures
        stats@ == ref_stats_of(person@.aliases, content@),
{
    count_refs(&person.aliases, content)
}

impl PersonSummary {
    /// Summarises a subject, given the text of its biography.
    pub fn from_person(person: &Person, content: Option<&str>) -> (r: PersonSummary)
        ensures
            r@ == summary_of(person@, content.deep_view()),
    {
        let ref_stats = match content {
            Some(c) => count_refs_in_biography(person, c),
            None => {
                let empty: Vec<(String, usize)> = Vec::new();
                assert(empty.deep_view() =~= Seq::<(Seq<char>, usize)>::empty());
                RefStats { alias_counts: empty, total_lines: 0 }
            },
        };
        let (kind, courtesy_name, origin) = match &person.kind {
            PersonKind::Emperor { courtesy_name, .. } => (
                String::from_str("Emperor"),
                courtesy_name.recorded(),
                None,
            ),
            PersonKind::Official { courtesy_name, origin, .. } => (
                String::from_str("Official"),
                courtesy_name.recorded(),
                clone_opt(origin),
            ),
            PersonKind::Deposed { courtesy_name, .. } => (
                String::from_str("Deposed"),
                courtesy_name.recorded(),
                None,
            ),
            PersonKind::Ruler { courtesy_name, lineage, .. } => (
                String::from_str("Ruler"),
                courtesy_name.recorded(),
                clone_opt(lineage),
            ),
        };
        PersonSummary {
            display_name: person.display_name(),
            book: String::from_str(person.source.book.as_chinese()),
            section: String::from_str(person.source.section.label()),
            kind,
            aliases: clone_strings(&person.aliases),
            ref_stats,
            courtesy_name,
            origin,
            file: person.source.file_path.clone(),
        }
    }
}

} // verus!
