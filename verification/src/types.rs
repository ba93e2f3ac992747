//! Books, sections, sources and biographical subjects.

use crate::text::{chars_of, concat2, contains, has_substring, str_eq};
use vstd::prelude::*;

verus! {

/// One of the six source histories.
#[derive(Debug, Clone, Copy, PartialEq, Eq, Hash, Structural)]
pub enum Book {
    /// 晉書
    JinShu,
    /// 宋書
    SongShu,
    /// 南齊書
    NanQiShu,
    /// 梁書
    LiangShu,
    /// 陳書
    ChenShu,
    /// 魏書
    WeiShu,
}

/// The Chinese title of a book.
pub open spec fn book_title(b: Book) -> Seq<char> {
    match b {
        Book::JinShu => "晉書"@,
        Book::SongShu => "宋書"@,
        Book::NanQiShu => "南齊書"@,
        Book::LiangShu => "梁書"@,
        Book::ChenShu => "陳書"@,
        Book::WeiShu => "魏書"@,
    }
}

/// The book whose title a directory bears, if any.
pub open spec fn book_of_title(name: Seq<char>) -> Option<Book> {
    if name == "晉書"@ {
        Some(Book::JinShu)
    } else if name == "宋書"@ {
        Some(Book::SongShu)
    } else if name == "南齊書"@ {
        Some(Book::NanQiShu)
    } else if name == "梁書"@ {
        Some(Book::LiangShu)
    } else if name == "陳書"@ {
        Some(Book::ChenShu)
    } else if name == "魏書"@ {
        Some(Book::WeiShu)
    } else {
        None
    }
}

impl Book {
    /// The book whose title a directory bears.
    pub fn from_dir_name(name: &str) -> (r: Option<Book>)
        ensures
            r == book_of_title(name@),
    {
        if str_eq(name, "晉書") {
            Some(Book::JinShu)
        } else if str_eq(name, "宋書") {
            Some(Book::SongShu)
        } else if str_eq(name, "南齊書") {
            Some(Book::NanQiShu)
        } else if str_eq(name, "梁書") {
            Some(Book::LiangShu)
        } else if str_eq(name, "陳書") {
            Some(Book::ChenShu)
        } else if str_eq(name, "魏書") {
            Some(Book::WeiShu)
        } else {
            None
        }
    }

    /// The Chinese title of this book.
    pub fn as_chinese(&self) -> (r: &'static str)
        ensures
            r@ == book_title(*self),
    {
        match self {
            Book::JinShu => "晉書",
            Book::SongShu => "宋書",
            Book::NanQiShu => "南齊書",
            Book::LiangShu => "梁書",
            Book::ChenShu => "陳書",
            Book::WeiShu => "魏書",
        }
    }
}

/// Every book is found again from its own title.
pub proof fn lemma_book_title_round_trip(b: Book)
    ensures
        book_of_title(book_title(b)) == Some(b),
{
    reveal_strlit("晉書");
    reveal_strlit("宋書");
    reveal_strlit("南齊書");
    reveal_strlit("梁書");
    reveal_strlit("陳書");
    reveal_strlit("魏書");
    assert("晉書"@[0] != "宋書"@[0]);
    assert("晉書"@[0] != "梁書"@[0]);
    assert("晉書"@[0] != "陳書"@[0]);
    assert("晉書"@[0] != "魏書"@[0]);
}

/// The part of a book that a directory holds.
#[derive(Debug, Clone, Copy, PartialEq, Eq, Hash, Structural)]
pub enum Section {
    /// 本紀 / 帝紀: imperial annals
    BenJi,
    /// 列傳: biographies
    LieZhuan,
    /// 載記: records of rival states
    ZaiJi,
    /// 志: treatises
    Zhi,
    /// anything else
    Other,
}

/// The section that a directory name stands for: the first of 紀, 列傳,
/// 載記, 志 that the name contains decides.
pub open spec fn section_of_name(name: Seq<char>) -> Section {
    if has_substring(name, "本紀"@) || has_substring(name, "紀"@) {
        Section::BenJi
    } else if has_substring(name, "列傳"@) {
        Section::LieZhuan
    } else if has_substring(name, "載記"@) {
        Section::ZaiJi
    } else if has_substring(name, "志"@) {
        Section::Zhi
    } else {
        Section::Other
    }
}

/// The display label of a section.
pub open spec fn section_label(s: Section) -> Seq<char> {
    match s {
        Section::BenJi => "本紀"@,
        Section::LieZhuan => "列傳"@,
        Section::ZaiJi => "載記"@,
        Section::Zhi => "志"@,
        Section::Other => "其他"@,
    }
}

impl Section {
    /// The section that a directory name stands for.
    pub fn from_dir_name(name: &str) -> (r: Section)
        ensures
            r == section_of_name(name@),
    {
        let v = chars_of(name);
        if contains(&v, &chars_of("本紀")) || contains(&v, &chars_of("紀")) {
            Section::BenJi
        } else if contains(&v, &chars_of("列傳")) {
            Section::LieZhuan
        } else if contains(&v, &chars_of("載記")) {
            Section::ZaiJi
        } else if contains(&v, &chars_of("志")) {
            Section::Zhi
        } else {
            Section::Other
        }
    }

    /// The display label of this section.
    pub fn label(&self) -> (r: &'static str)
        ensures
            r@ == section_label(*self),
    {
        match self {
            Section::BenJi => "本紀",
            Section::LieZhuan => "列傳",
            Section::ZaiJi => "載記",
            Section::Zhi => "志",
            Section::Other => "其他",
        }
    }
}

/// Where a biography file sits in the corpus.
#[derive(Debug)]
pub struct Source {
    pub book: Book,
    pub section: Section,
    /// Label of the volume directory, e.g. "列傳第四　褚淵"
    pub juan: String,
    pub file_path: String,
}

pub struct SourceView {
    pub book: Book,
    pub section: Section,
    pub juan: Seq<char>,
    pub file_path: Seq<char>,
}

impl View for Source {
    type V = SourceView;

    open spec fn view(&self) -> SourceView {
        SourceView {
            book: self.book,
            section: self.section,
            juan: self.juan@,
            file_path: self.file_path@,
        }
    }
}

impl DeepView for Source {
    type V = SourceView;

    open spec fn deep_view(&self) -> SourceView {
        self@
    }
}

impl Clone for Source {
    fn clone(&self) -> (r: Self)
        ensures
            r@ == self@,
    {
        Source {
            book: self.book,
            section: self.section,
            juan: self.juan.clone(),
            file_path: self.file_path.clone(),
        }
    }
}

/// A courtesy name (字), or the fact that none is recorded.
#[derive(Debug)]
pub enum CourtesyName {
    Recorded(String),
    NotRecorded,
}

impl View for CourtesyName {
    type V = Option<Seq<char>>;

    open spec fn view(&self) -> Option<Seq<char>> {
        match self {
            CourtesyName::Recorded(s) => Some(s@),
            CourtesyName::NotRecorded => None,
        }
    }
}

impl Clone for CourtesyName {
    fn clone(&self) -> (r: Self)
        ensures
            r@ == self@,
    {
        match self {
            CourtesyName::Recorded(s) => CourtesyName::Recorded(s.clone()),
            CourtesyName::NotRecorded => CourtesyName::NotRecorded,
        }
    }
}

impl CourtesyName {
    /// The recorded name, if any.
    pub fn recorded(&self) -> (r: Option<String>)
        ensures
            r.deep_view() == self@,
    {
        match self {
            CourtesyName::Recorded(s) => Some(s.clone()),
            CourtesyName::NotRecorded => None,
        }
    }
}

/// A childhood name (小字), or the fact that none is recorded.
#[derive(Debug)]
pub enum ChildhoodName {
    Recorded(String),
    NotRecorded,
}

impl View for ChildhoodName {
    type V = Option<Seq<char>>;

    open spec fn view(&self) -> Option<Seq<char>> {
        match self {
            ChildhoodName::Recorded(s) => Some(s@),
            ChildhoodName::NotRecorded => None,
        }
    }
}

impl Clone for ChildhoodName {
    fn clone(&self) -> (r: Self)
        ensures
            r@ == self@,
    {
        match self {
            ChildhoodName::Recorded(s) => ChildhoodName::Recorded(s.clone()),
            ChildhoodName::NotRecorded => ChildhoodName::NotRecorded,
        }
    }
}

impl ChildhoodName {
    /// The recorded name, if any.
    pub fn recorded(&self) -> (r: Option<String>)
        ensures
            r.deep_view() == self@,
    {
        match self {
            ChildhoodName::Recorded(s) => Some(s.clone()),
            ChildhoodName::NotRecorded => None,
        }
    }
}

/// A copy of an optional string.
pub fn clone_opt(s: &Option<String>) -> (r: Option<String>)
    ensures
        r.deep_view() == s.deep_view(),
{
    match s {
        Some(x) => Some(x.clone()),
        None => None,
    }
}

/// A copy of a list of strings.
pub fn clone_strings(v: &Vec<String>) -> (r: Vec<String>)
    ensures
        r.deep_view() == v.deep_view(),
{
    let mut r: Vec<String> = Vec::new();
    let mut i: usize = 0;
    while i < v.len()
        invariant
            i <= v.len(),
            r@.len() == i,
            forall|j: int| 0 <= j < i ==> r@[j]@ == v@[j]@,
        decreases v.len() - i,
    {
        r.push(v[i].clone());
        i += 1;
    }
    r
}

/// What is known of a subject depends on what kind of subject it is.
#[derive(Debug)]
#[allow(inconsistent_fields)]
pub enum PersonKind {
    /// An emperor, with temple name and posthumous title.
    Emperor {
        /// 廟號: 高祖, 太宗, 世祖, …
        temple_name: Option<String>,
        /// 謚號: 武皇帝, 宣帝, …
        posthumous_title: String,
        /// 諱
        given_name: String,
        /// 姓, where the text states it
        surname: Option<String>,
        courtesy_name: CourtesyName,
        childhood_name: ChildhoodName,
    },
    /// An official or other person of the biographies.
    Official { surname: String, given_name: String, courtesy_name: CourtesyName, origin: Option<String> },
    /// A deposed emperor or a prince, with 諱 but no temple name.
    Deposed {
        title: String,
        given_name: String,
        courtesy_name: CourtesyName,
        childhood_name: ChildhoodName,
    },
    /// The ruler of a rival or foreign state.
    Ruler {
        surname: String,
        given_name: String,
        courtesy_name: CourtesyName,
        /// e.g. "皝之第五子", "新興匈奴"
        lineage: Option<String>,
    },
}

#[allow(inconsistent_fields)]
pub enum PersonKindView {
    Emperor {
        temple_name: Option<Seq<char>>,
        posthumous_title: Seq<char>,
        given_name: Seq<char>,
        surname: Option<Seq<char>>,
        courtesy_name: Option<Seq<char>>,
        childhood_name: Option<Seq<char>>,
    },
    Official {
        surname: Seq<char>,
        given_name: Seq<char>,
        courtesy_name: Option<Seq<char>>,
        origin: Option<Seq<char>>,
    },
    Deposed {
        title: Seq<char>,
        given_name: Seq<char>,
        courtesy_name: Option<Seq<char>>,
        childhood_name: Option<Seq<char>>,
    },
    Ruler {
        surname: Seq<char>,
        given_name: Seq<char>,
        courtesy_name: Option<Seq<char>>,
        lineage: Option<Seq<char>>,
    },
}

impl View for PersonKind {
    type V = PersonKindView;

    open spec fn view(&self) -> PersonKindView {
        match self {
            PersonKind::Emperor {
                temple_name,
                posthumous_title,
                given_name,
                surname,
                courtesy_name,
                childhood_name,
            } => PersonKindView::Emperor {
                temple_name: temple_name.deep_view(),
                posthumous_title: posthumous_title@,
                given_name: given_name@,
                surname: surname.deep_view(),
                courtesy_name: courtesy_name@,
                childhood_name: childhood_name@,
            },
            PersonKind::Official {
                surname,
                given_name,
                courtesy_name,
                origin,
            } => PersonKindView::Official {
                surname: surname@,
                given_name: given_name@,
                courtesy_name: courtesy_name@,
                origin: origin.deep_view(),
            },
            PersonKind::Deposed {
                title,
                given_name,
                courtesy_name,
                childhood_name,
            } => PersonKindView::Deposed {
                title: title@,
                given_name: given_name@,
                courtesy_name: courtesy_name@,
                childhood_name: childhood_name@,
            },
            PersonKind::Ruler {
                surname,
                given_name,
                courtesy_name,
                lineage,
            } => PersonKindView::Ruler {
                surname: surname@,
                given_name: given_name@,
                courtesy_name: courtesy_name@,
                lineage: lineage.deep_view(),
            },
        }
    }
}

impl Clone for PersonKind {
    fn clone(&self) -> (r: Self)
        ensures
            r@ == self@,
    {
        match self {
            PersonKind::Emperor {
                temple_name,
                posthumous_title,
                given_name,
                surname,
                courtesy_name,
                childhood_name,
            } => PersonKind::Emperor {
                temple_name: clone_opt(temple_name),
                posthumous_title: posthumous_title.clone(),
                given_name: given_name.clone(),
                surname: clone_opt(surname),
                courtesy_name: courtesy_name.clone(),
                childhood_name: childhood_name.clone(),
            },
            PersonKind::Official {
                surname,
                given_name,
                courtesy_name,
                origin,
            } => PersonKind::Official {
                surname: surname.clone(),
                given_name: given_name.clone(),
                courtesy_name: courtesy_name.clone(),
                origin: clone_opt(origin),
            },
            PersonKind::Deposed {
                title,
                given_name,
                courtesy_name,
                childhood_name,
            } => PersonKind::Deposed {
                title: title.clone(),
                given_name: given_name.clone(),
                courtesy_name: courtesy_name.clone(),
                childhood_name: childhood_name.clone(),
            },
            PersonKind::Ruler {
                surname,
                given_name,
                courtesy_name,
                lineage,
            } => PersonKind::Ruler {
                surname: surname.clone(),
                given_name: given_name.clone(),
                courtesy_name: courtesy_name.clone(),
                lineage: clone_opt(lineage),
            },
        }
    }
}

/// The name under which a subject is listed: surname and given name where
/// a surname is known, else the posthumous title; for a deposed ruler the
/// title followed by the given name.
pub open spec fn display_name_of(k: PersonKindView) -> Seq<char> {
    match k {
        PersonKindView::Emperor { surname, given_name, posthumous_title, .. } => match surname {
            Some(s) => s + given_name,
            None => posthumous_title,
        },
        PersonKindView::Official { surname, given_name, .. } => surname + given_name,
        PersonKindView::Deposed { title, given_name, .. } => title + given_name,
        PersonKindView::Ruler { surname, given_name, .. } => surname + given_name,
    }
}

/// `items` followed by `x`, if there is one.
pub open spec fn push_some(items: Seq<Seq<char>>, x: Option<Seq<char>>) -> Seq<Seq<char>> {
    match x {
        Some(s) => items.push(s),
        None => items,
    }
}

/// The strings by which running text may refer to a subject, in a fixed
/// order: full name, given name, courtesy name, childhood name, temple
/// name, posthumous title, and the title of a deposed ruler; each where
/// the subject has it.
pub open spec fn aliases_of(k: PersonKindView) -> Seq<Seq<char>> {
    match k {
        PersonKindView::Emperor {
            temple_name,
            posthumous_title,
            given_name,
            surname,
            courtesy_name,
            childhood_name,
        } => {
            let full = match surname {
                Some(s) => Some(s + given_name),
                None => None,
            };
            let a = push_some(Seq::empty(), full).push(given_name);
            push_some(push_some(push_some(a, courtesy_name), childhood_name), temple_name).push(
                posthumous_title,
            )
        },
        PersonKindView::Official { surname, given_name, courtesy_name, .. } => push_some(
            seq![surname + given_name, given_name],
            courtesy_name,
        ),
        PersonKindView::Deposed { title, given_name, courtesy_name, childhood_name } => push_some(
            push_some(seq![given_name], courtesy_name),
            childhood_name,
        ).push(title),
        PersonKindView::Ruler { surname, given_name, courtesy_name, .. } => push_some(
            seq![surname + given_name, given_name],
            courtesy_name,
        ),
    }
}

fn push_opt(v: &mut Vec<String>, x: &Option<String>)
    ensures
        final(v).deep_view() == push_some(old(v).deep_view(), x.deep_view()),
{
    match x {
        Some(s) => {
            v.push(s.clone());
        },
        None => {},
    }
}

fn push_str(v: &mut Vec<String>, s: String)
    ensures
        final(v).deep_view() == old(v).deep_view().push(s@),
{
    v.push(s);
}

/// A biographical subject.
#[derive(Debug)]
pub struct Person {
    pub kind: PersonKind,
    pub source: Source,
    /// Every string by which the text may refer to this person.
    pub aliases: Vec<String>,
}

pub struct PersonView {
    pub kind: PersonKindView,
    pub source: SourceView,
    pub aliases: Seq<Seq<char>>,
}

impl View for Person {
    type V = PersonView;

    open spec fn view(&self) -> PersonView {
        PersonView { kind: self.kind@, source: self.source@, aliases: self.aliases.deep_view() }
    }
}

impl DeepView for Person {
    type V = PersonView;

    open spec fn deep_view(&self) -> PersonView {
        self@
    }
}

impl Clone for Person {
    fn clone(&self) -> (r: Self)
        ensures
            r@ == self@,
    {
        Person {
            kind: self.kind.clone(),
            source: self.source.clone(),
            aliases: clone_strings(&self.aliases),
        }
    }
}

impl Person {
    /// The canonical display name of this person.
    pub fn display_name(&self) -> (r: String)
        ensures
            r@ == display_name_of(self@.kind),
    {
        match &self.kind {
            PersonKind::Emperor { surname, given_name, posthumous_title, .. } => {
                match surname {
                    Some(s) => concat2(s.as_str(), given_name.as_str()),
                    None => posthumous_title.clone(),
                }
            },
            PersonKind::Official { surname, given_name, .. } => concat2(
                surname.as_str(),
                given_name.as_str(),
            ),
            PersonKind::Deposed { title, given_name, .. } => concat2(
                title.as_str(),
                given_name.as_str(),
            ),
            PersonKind::Ruler { surname, given_name, .. } => concat2(
                surname.as_str(),
                given_name.as_str(),
            ),
        }
    }

    /// Recomputes the aliases from the kind; nothing else changes.
    pub fn compute_aliases(&mut self)
        ensures
            final(self)@.aliases == aliases_of(old(self)@.kind),
            final(self)@.kind == old(self)@.kind,
            final(self)@.source == old(self)@.source,
    {
        let mut aliases: Vec<String> = Vec::new();
        match &self.kind {
            PersonKind::Emperor {
                temple_name,
                posthumous_title,
                given_name,
                surname,
                courtesy_name,
                childhood_name,
            } => {
                match surname {
                    Some(s) => {
                        push_str(&mut aliases, concat2(s.as_str(), given_name.as_str()));
                    },
                    None => {},
                }
                push_str(&mut aliases, given_name.clone());
                push_opt(&mut aliases, &courtesy_name.recorded());
                push_opt(&mut aliases, &childhood_name.recorded());
                push_opt(&mut aliases, temple_name);
                push_str(&mut aliases, posthumous_title.clone());
            },
            PersonKind::Official { surname, given_name, courtesy_name, .. } => {
                push_str(&mut aliases, concat2(surname.as_str(), given_name.as_str()));
                push_str(&mut aliases, given_name.clone());
                push_opt(&mut aliases, &courtesy_name.recorded());
            },
            PersonKind::Deposed { title, given_name, courtesy_name, childhood_name } => {
                push_str(&mut aliases, given_name.clone());
                push_opt(&mut aliases, &courtesy_name.recorded());
                push_opt(&mut aliases, &childhood_name.recorded());
                push_str(&mut aliases, title.clone());
            },
            PersonKind::Ruler { surname, given_name, courtesy_name, .. } => {
                push_str(&mut aliases, concat2(surname.as_str(), given_name.as_str()));
                push_str(&mut aliases, given_name.clone());
                push_opt(&mut aliases, &courtesy_name.recorded());
            },
        }
        self.aliases = aliases;
    }
}

/// How running text refers to a person.
#[derive(Debug)]
pub enum PersonRef {
    /// 褚淵
    FullName { surname: String, given: String },
    /// 淵, inside 褚淵's own biography
    GivenOnly(String),
    /// 彥回
    CourtesyOnly(String),
    /// 尚書令, 司空, …
    Title(String),
    /// 高祖宣帝, for emperors only
    TemplePosthumous { temple: String, posthumous: String },
    /// No subject is written: the subject of the biography is meant.
    SubjectOmitted,
}

} // verus!
