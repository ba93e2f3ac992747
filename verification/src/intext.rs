//! Mentions of persons in running text: the patterns that anchor a name
//! and the filter that rejects what only looks like one.

use crate::order::{arrange, stable_order, stable_perm, word_order, word_perm};
use crate::pattern::{
    all_captures, build, regex_captures_iter, regex_compiles, regex_source, Groups, GroupsView,
    PatternError,
};
use crate::place::ADMIN_SUFFIXES;
use crate::scanner::{LoadedFile, LoadedFileView};
use crate::stats::file_views;
use crate::surname::{
    build_name_regex, collect_extra_surnames, known_surnames, name_regex, person_views, split_name,
    split_name_of, texts,
};
use crate::tally::{clone_counts, first_n, tally, tally_words};
use crate::text::{chars_of, context_window, ends_with, extract_context, in_charset, str_eq};
use crate::titles::{build_title_regex, title_regex, STANDALONE_TITLES, TITLE_SUFFIXES};
use crate::types::{clone_strings, display_name_of, Person, PersonView};
use crate::words::{distinct, distinct_words, has_word, strings_of, views};
use vstd::prelude::*;
use vstd::string::*;

verus! {

/// The pattern that produced a mention.
#[derive(Debug, Clone, Copy, PartialEq, Eq, Hash, Structural)]
pub enum MentionPattern {
    /// 以X為Y: the structure of an appointment
    Appointment,
    /// a title directly followed by a name
    TitleName,
    /// X字Y: the introduction of a courtesy name
    CourtesyIntro,
    /// 問/謂X曰: the attribution of speech
    Speech,
}

/// The label of a pattern.
pub open spec fn pattern_label(p: MentionPattern) -> Seq<char> {
    match p {
        MentionPattern::Appointment => "以X為"@,
        MentionPattern::TitleName => "官銜+名"@,
        MentionPattern::CourtesyIntro => "X字Y"@,
        MentionPattern::Speech => "問/謂X曰"@,
    }
}

impl MentionPattern {
    /// The label of this pattern.
    pub fn as_str(&self) -> (r: &'static str)
        ensures
            r@ == pattern_label(*self),
    {
        match self {
            MentionPattern::Appointment => "以X為",
            MentionPattern::TitleName => "官銜+名",
            MentionPattern::CourtesyIntro => "X字Y",
            MentionPattern::Speech => "問/謂X曰",
        }
    }
}

/// Strings that begin with a surname character and yet are fragments of
/// titles, geographic terms or fixed expressions.
pub const BLACKLIST: [&'static str; 35] = [
    "左右", "左丞", "右丞", "左曹", "右曹", "左僕射", "右僕射", "左長史", "右長史", "左西屬",
    "左西掾", "左民郎", "左民尚", "黃門侍", "黃門郎", "都官郎", "金部郎", "倉部郎", "祠部郎", "殿中郎",
    "主客郎", "度支郎", "江州諸", "荊州諸", "徐州諸", "揚州諸", "豫州諸", "青州諸", "荊湘雍", "雍梁南",
    "徐兗青", "揚徐兗", "雍秦涼", "左氏", "左傳",
];

/// Ranks of nobility: a name of three or more characters that ends in one
/// of them is a fief title.
pub const NOBILITY_SUFFIXES: &'static str = "王公侯";

/// Function words, verbs and numerals that follow a name in running prose
/// and are captured with it. 之 is not among them: it ends many real names.
pub const BAD_ENDINGS: &'static str = "爲為以請遣使令命率及與乃則即既又且而所於自從至向在由如若或因等曰諸走出害救殺敗收攻破降反叛奔歸入克圍據討拒聞送屯還還二三四五六七八九十百千萬";

/// One of `words` ends `name`.
pub open spec fn ends_with_any(name: Seq<char>, words: Seq<Seq<char>>) -> bool {
    exists|i: int| 0 <= i < words.len() && (#[trigger] words[i]).is_suffix_of(name)
}

/// What the filter rejects: a blacklisted string; a string that ends in a
/// title; a fief title; the name of an administrative unit; a string whose
/// last character is a word that follows names.
pub open spec fn false_positive(name: Seq<char>) -> bool {
    ||| views(BLACKLIST@).contains(name)
    ||| ends_with_any(name, views(TITLE_SUFFIXES@))
    ||| ends_with_any(name, views(STANDALONE_TITLES@))
    ||| (name.len() >= 3 && NOBILITY_SUFFIXES@.contains(name.last()))
    ||| (name.len() >= 1 && ADMIN_SUFFIXES@.contains(name.last()))
    ||| (name.len() >= 1 && BAD_ENDINGS@.contains(name.last()))
}

fn ends_with_word(name: &Vec<char>, words: &Vec<String>) -> (r: bool)
    ensures
        r == ends_with_any(name@, words.deep_view()),
{
    let mut i: usize = 0;
    while i < words.len()
        invariant
            i <= words.len(),
            forall|j: int| 0 <= j < i ==> !(#[trigger] words.deep_view()[j]).is_suffix_of(name@),
        decreases words.len() - i,
    {
        let w = chars_of(words[i].as_str());
        if ends_with(name, &w) {
            assert(words.deep_view()[i as int].is_suffix_of(name@));
            return true;
        }
        i += 1;
    }
    false
}

/// Whether a captured name is a false positive.
pub fn is_false_positive(name: &str) -> (r: bool)
    ensures
        r == false_positive(name@),
{
    if has_word(&strings_of(&BLACKLIST), name) {
        return true;
    }
    let chars = chars_of(name);
    if ends_with_word(&chars, &strings_of(&TITLE_SUFFIXES)) {
        return true;
    }
    if ends_with_word(&chars, &strings_of(&STANDALONE_TITLES)) {
        return true;
    }
    if chars.len() == 0 {
        return false;
    }
    let last = chars[chars.len() - 1];
    if chars.len() >= 3 && in_charset(NOBILITY_SUFFIXES, last) {
        return true;
    }
    if in_charset(ADMIN_SUFFIXES, last) {
        return true;
    }
    in_charset(BAD_ENDINGS, last)
}

/// One mention of a person in running text.
#[derive(Debug)]
pub struct InTextMention {
    pub name: String,
    pub surname: String,
    pub given: String,
    pub pattern: MentionPattern,
    /// The text around the mention.
    pub context: String,
    pub source_file: String,
}

pub struct InTextMentionView {
    pub name: Seq<char>,
    pub surname: Seq<char>,
    pub given: Seq<char>,
    pub pattern: MentionPattern,
    pub context: Seq<char>,
    pub source_file: Seq<char>,
}

impl View for InTextMention {
    type V = InTextMentionView;

    open spec fn view(&self) -> InTextMentionView {
        InTextMentionView {
            name: self.name@,
            surname: self.surname@,
            given: self.given@,
            pattern: self.pattern,
            context: self.context@,
            source_file: self.source_file@,
        }
    }
}

impl DeepView for InTextMention {
    type V = InTextMentionView;

    open spec fn deep_view(&self) -> InTextMentionView {
        self@
    }
}

/// What the corpus says of one name met in running text.
#[derive(Debug)]
pub struct InTextPerson {
    pub name: String,
    pub surname: String,
    pub given: String,
    pub mention_count: usize,
    /// The files that mention the name, in alphabetical order.
    pub mentioned_in: Vec<String>,
    /// Mentions per pattern label, as the patterns first occur.
    pub pattern_counts: Vec<(String, usize)>,
    /// Whether a biography subject bears the name.
    pub has_own_biography: bool,
    /// The contexts of the first three mentions.
    pub sample_contexts: Vec<String>,
}

pub struct InTextPersonView {
    pub name: Seq<char>,
    pub surname: Seq<char>,
    pub given: Seq<char>,
    pub mention_count: usize,
    pub mentioned_in: Seq<Seq<char>>,
    pub pattern_counts: Seq<(Seq<char>, usize)>,
    pub has_own_biography: bool,
    pub sample_contexts: Seq<Seq<char>>,
}

impl View for InTextPerson {
    type V = InTextPersonView;

    open spec fn view(&self) -> InTextPersonView {
        InTextPersonView {
            name: self.name@,
            surname: self.surname@,
            given: self.given@,
            mention_count: self.mention_count,
            mentioned_in: self.mentioned_in.deep_view(),
            pattern_counts: self.pattern_counts.deep_view(),
            has_own_biography: self.has_own_biography,
            sample_contexts: self.sample_contexts.deep_view(),
        }
    }
}

impl DeepView for InTextPerson {
    type V = InTextPersonView;

    open spec fn deep_view(&self) -> InTextPersonView {
        self@
    }
}

impl Clone for InTextPerson {
    fn clone(&self) -> (r: Self)
        ensures
            r@ == self@,
    {
        InTextPerson {
            name: self.name.clone(),
            surname: self.surname.clone(),
            given: self.given.clone(),
            mention_count: self.mention_count,
            mentioned_in: clone_strings(&self.mentioned_in),
            pattern_counts: clone_counts(&self.pattern_counts),
            has_own_biography: self.has_own_biography,
            sample_contexts: clone_strings(&self.sample_contexts),
        }
    }
}

/// Radius, in characters, of the context window of a mention.
pub const MENTION_RADIUS: usize = 20;

/// Number of contexts kept for each name.
pub const SAMPLE_CONTEXTS: usize = 3;

/// The pattern that anchors a name, over the fragment that matches a name.
pub open spec fn mention_pattern(p: MentionPattern, name: Seq<char>) -> Seq<char> {
    match p {
        MentionPattern::Appointment => "以[^為]{0,10}("@ + name + ")為"@,
        MentionPattern::TitleName => "(?:"@ + title_regex() + ")("@ + name + ")"@,
        MentionPattern::CourtesyIntro => "("@ + name + ")字([^\\s，。字]{1,2})"@,
        MentionPattern::Speech => "[問謂]("@ + name + ")曰"@,
    }
}

/// Every pattern of the in-text scanner compiles.
pub open spec fn mention_patterns_compile(name: Seq<char>) -> bool {
    &&& regex_compiles(mention_pattern(MentionPattern::Appointment, name))
    &&& regex_compiles(mention_pattern(MentionPattern::TitleName, name))
    &&& regex_compiles(mention_pattern(MentionPattern::CourtesyIntro, name))
    &&& regex_compiles(mention_pattern(MentionPattern::Speech, name))
}

/// `r` with `x` added, unless it is there already.
pub open spec fn add_word(r: Seq<Seq<char>>, x: Seq<char>) -> Seq<Seq<char>> {
    if r.contains(x) {
        r
    } else {
        r.push(x)
    }
}

/// `r` with those of the first `k` aliases added that have two or more
/// characters.
pub open spec fn add_aliases(r: Seq<Seq<char>>, aliases: Seq<Seq<char>>, k: nat) -> Seq<Seq<char>>
    decreases k,
{
    if k == 0 || k > aliases.len() {
        r
    } else {
        let prev = add_aliases(r, aliases, (k - 1) as nat);
        if aliases[k - 1].len() >= 2 {
            add_word(prev, aliases[k - 1])
        } else {
            prev
        }
    }
}

/// The names under which the first `n` subjects are known: the display
/// name of each and its aliases of two or more characters, each once.
pub open spec fn known_names(persons: Seq<PersonView>, n: nat) -> Seq<Seq<char>>
    decreases n,
{
    if n == 0 || n > persons.len() {
        Seq::empty()
    } else {
        let p = persons[n - 1];
        add_aliases(
            add_word(known_names(persons, (n - 1) as nat), display_name_of(p.kind)),
            p.aliases,
            p.aliases.len(),
        )
    }
}

/// The mention that one match of a pattern yields: the captured name must
/// pass the false-positive filter and split into a surname and a given
/// name of one or two characters.
pub open spec fn mention_of(g: GroupsView, p: MentionPattern, content: Seq<char>, file: Seq<char>) -> Option<
    InTextMentionView,
> {
    if g.len() > 1 && g[1] is Some {
        let c = g[1]->0;
        if false_positive(c.text) {
            None
        } else {
            match split_name_of(c.text) {
                Some((surname, given)) => if 1 <= given.len() <= 2 {
                    Some(
                        InTextMentionView {
                            name: c.text,
                            surname,
                            given,
                            pattern: p,
                            context: context_window(content, c.start as nat, MENTION_RADIUS as nat),
                            source_file: file,
                        },
                    )
                } else {
                    None
                },
                None => None,
            }
        }
    } else {
        None
    }
}

/// The mentions of the first `n` matches of a pattern.
pub open spec fn mentions_of(
    p: MentionPattern,
    ms: Seq<GroupsView>,
    content: Seq<char>,
    file: Seq<char>,
    n: nat,
) -> Seq<InTextMentionView>
    decreases n,
{
    if n == 0 || n > ms.len() {
        Seq::empty()
    } else {
        let r = mentions_of(p, ms, content, file, (n - 1) as nat);
        match mention_of(ms[n - 1], p, content, file) {
            Some(m) => r.push(m),
            None => r,
        }
    }
}

/// The mentions that one pattern finds in a text.
pub open spec fn pattern_mentions(p: MentionPattern, name: Seq<char>, content: Seq<char>, file: Seq<char>) -> Seq<
    InTextMentionView,
> {
    let ms = regex_captures_iter(mention_pattern(p, name), content);
    mentions_of(p, ms, content, file, ms.len())
}

/// The mentions of a text: those of the appointment pattern, then those of
/// title and name, of the courtesy name, and of speech.
pub open spec fn text_mentions(name: Seq<char>, content: Seq<char>, file: Seq<char>) -> Seq<
    InTextMentionView,
> {
    pattern_mentions(MentionPattern::Appointment, name, content, file) + pattern_mentions(
        MentionPattern::TitleName,
        name,
        content,
        file,
    ) + pattern_mentions(MentionPattern::CourtesyIntro, name, content, file) + pattern_mentions(
        MentionPattern::Speech,
        name,
        content,
        file,
    )
}

/// The mentions of the first `n` files, file after file.
pub open spec fn corpus_mentions(name: Seq<char>, files: Seq<LoadedFileView>, n: nat) -> Seq<
    InTextMentionView,
>
    decreases n,
{
    if n == 0 || n > files.len() {
        Seq::empty()
    } else {
        corpus_mentions(name, files, (n - 1) as nat) + text_mentions(
            name,
            files[n - 1].content,
            files[n - 1].file.path,
        )
    }
}

/// The names mentioned, in order.
pub open spec fn mentioned_names(ms: Seq<InTextMentionView>) -> Seq<Seq<char>> {
    Seq::new(ms.len(), |i: int| ms[i].name)
}

/// The files of those of the first `n` mentions that bear `name`.
pub open spec fn files_named(ms: Seq<InTextMentionView>, name: Seq<char>, n: nat) -> Seq<Seq<char>>
    decreases n,
{
    if n == 0 || n > ms.len() {
        Seq::empty()
    } else {
        let r = files_named(ms, name, (n - 1) as nat);
        if ms[n - 1].name == name {
            r.push(ms[n - 1].source_file)
        } else {
            r
        }
    }
}

/// The pattern labels of those of the first `n` mentions that bear `name`.
pub open spec fn labels_named(ms: Seq<InTextMentionView>, name: Seq<char>, n: nat) -> Seq<Seq<char>>
    decreases n,
{
    if n == 0 || n > ms.len() {
        Seq::empty()
    } else {
        let r = labels_named(ms, name, (n - 1) as nat);
        if ms[n - 1].name == name {
            r.push(pattern_label(ms[n - 1].pattern))
        } else {
            r
        }
    }
}

/// The contexts of those of the first `n` mentions that bear `name`.
pub open spec fn contexts_named(ms: Seq<InTextMentionView>, name: Seq<char>, n: nat) -> Seq<Seq<char>>
    decreases n,
{
    if n == 0 || n > ms.len() {
        Seq::empty()
    } else {
        let r = contexts_named(ms, name, (n - 1) as nat);
        if ms[n - 1].name == name {
            r.push(ms[n - 1].context)
        } else {
            r
        }
    }
}

/// The first mention, from position `from` on, that bears `name`.
pub open spec fn first_mention(ms: Seq<InTextMentionView>, name: Seq<char>, from: int) -> Option<
    InTextMentionView,
>
    decreases ms.len() - from,
{
    if from < 0 || from >= ms.len() {
        None
    } else if ms[from].name == name {
        Some(ms[from])
    } else {
        first_mention(ms, name, from + 1)
    }
}

/// What the mentions say of one name.
pub open spec fn person_in_text(ms: Seq<InTextMentionView>, name: Seq<char>, known: Seq<Seq<char>>) -> InTextPersonView {
    let files = distinct(files_named(ms, name, ms.len()));
    let labels = labels_named(ms, name, ms.len());
    InTextPersonView {
        name,
        surname: match first_mention(ms, name, 0) {
            Some(m) => m.surname,
            None => Seq::empty(),
        },
        given: match first_mention(ms, name, 0) {
            Some(m) => m.given,
            None => Seq::empty(),
        },
        mention_count: labels.len() as usize,
        mentioned_in: arrange(files, word_perm(files)),
        pattern_counts: tally(labels),
        has_own_biography: known.contains(name),
        sample_contexts: first_n(contexts_named(ms, name, ms.len()), SAMPLE_CONTEXTS as nat),
    }
}

/// The keys that put the names with more mentions first.
pub open spec fn mention_keys(ps: Seq<InTextPersonView>) -> Seq<u64> {
    Seq::new(ps.len(), |i: int| (u64::MAX - ps[i].mention_count as u64) as u64)
}

/// One entry for each name mentioned, the most mentioned first; names
/// with equally many mentions as they first occur.
pub open spec fn persons_in_text(ms: Seq<InTextMentionView>, known: Seq<Seq<char>>) -> Seq<InTextPersonView> {
    let names = distinct(mentioned_names(ms));
    let ps = Seq::new(names.len(), |i: int| person_in_text(ms, names[i], known));
    arrange(ps, stable_perm(mention_keys(ps)))
}

fn pattern_source(p: MentionPattern, name: &str) -> (r: String)
    ensures
        r@ == mention_pattern(p, name@),
{
    match p {
        MentionPattern::Appointment => {
            let mut r = String::from_str("以[^為]{0,10}(");
            r.append(name);
            r.append(")為");
            r
        },
        MentionPattern::TitleName => {
            let mut r = String::from_str("(?:");
            r.append(build_title_regex().as_str());
            r.append(")(");
            r.append(name);
            r.append(")");
            r
        },
        MentionPattern::CourtesyIntro => {
            let mut r = String::from_str("(");
            r.append(name);
            r.append(")字([^\\s，。字]{1,2})");
            r
        },
        MentionPattern::Speech => {
            let mut r = String::from_str("[問謂](");
            r.append(name);
            r.append(")曰");
            r
        },
    }
}

fn push_word(r: &mut Vec<String>, x: &str)
    ensures
        final(r).deep_view() == add_word(old(r).deep_view(), x@),
{
    if !has_word(r, x) {
        r.push(String::from_str(x));
    }
}

/// The names under which the given subjects are known.
pub fn collect_known_names(persons: &[Person]) -> (r: Vec<String>)
    ensures
        r.deep_view() == known_names(person_views(persons@), persons@.len()),
{
    let mut r: Vec<String> = Vec::new();
    let ghost pv = person_views(persons@);
    let mut i: usize = 0;
    while i < persons.len()
        invariant
            i <= persons.len(),
            pv == person_views(persons@),
            r.deep_view() == known_names(pv, i as nat),
        decreases persons.len() - i,
    {
        let p = &persons[i];
        push_word(&mut r, p.display_name().as_str());
        let ghost base = r.deep_view();
        let ghost av = p.aliases.deep_view();
        let mut k: usize = 0;
        while k < p.aliases.len()
            invariant
                k <= p.aliases.len(),
                av == p.aliases.deep_view(),
                r.deep_view() == add_aliases(base, av, k as nat),
            decreases p.aliases.len() - k,
        {
            if p.aliases[k].as_str().unicode_len() >= 2 {
                push_word(&mut r, p.aliases[k].as_str());
            }
            k += 1;
        }
        i += 1;
    }
    r
}

/// Compiled patterns for the extraction of names from running text.
pub struct InTextScanner {
    name_re: String,
    re_appointment: regex::Regex,
    re_title_name: regex::Regex,
    re_courtesy: regex::Regex,
    re_speech: regex::Regex,
    known_names: Vec<String>,
}

impl InTextScanner {
    #[verifier::type_invariant]
    spec fn wf(self) -> bool {
        &&& regex_source(self.re_appointment) == mention_pattern(
            MentionPattern::Appointment,
            self.name_re@,
        )
        &&& regex_source(self.re_title_name) == mention_pattern(MentionPattern::TitleName, self.name_re@)
        &&& regex_source(self.re_courtesy) == mention_pattern(
            MentionPattern::CourtesyIntro,
            self.name_re@,
        )
        &&& regex_source(self.re_speech) == mention_pattern(MentionPattern::Speech, self.name_re@)
    }

    /// The fragment with which this scanner matches a personal name.
    pub closed spec fn name_fragment(&self) -> Seq<char> {
        self.name_re@
    }

    /// The names of the biography subjects that this scanner knows.
    pub closed spec fn known(&self) -> Seq<Seq<char>> {
        self.known_names.deep_view()
    }

    /// Compiles the patterns for the given biography subjects. Fails
    /// exactly if one of the patterns does not compile.
    pub fn new(known_persons: &[Person]) -> (r: Result<InTextScanner, PatternError>)
        ensures
            r is Ok <==> mention_patterns_compile(
                name_regex(known_surnames(person_views(known_persons@), known_persons@.len())),
            ),
            r is Ok ==> r->Ok_0.name_fragment() == name_regex(
                known_surnames(person_views(known_persons@), known_persons@.len()),
            ),
            r is Ok ==> r->Ok_0.known() == known_names(
                person_views(known_persons@),
                known_persons@.len(),
            ),
    {
        let extra = collect_extra_surnames(known_persons);
        assert(texts(extra@) =~= extra.deep_view());
        let name_re = build_name_regex(extra.as_slice());
        let re_appointment = match build(
            pattern_source(MentionPattern::Appointment, name_re.as_str()).as_str(),
        ) {
            Ok(re) => re,
            Err(e) => {
                return Err(e);
            },
        };
        let re_title_name = match build(
            pattern_source(MentionPattern::TitleName, name_re.as_str()).as_str(),
        ) {
            Ok(re) => re,
            Err(e) => {
                return Err(e);
            },
        };
        let re_courtesy = match build(
            pattern_source(MentionPattern::CourtesyIntro, name_re.as_str()).as_str(),
        ) {
            Ok(re) => re,
            Err(e) => {
                return Err(e);
            },
        };
        let re_speech = match build(pattern_source(MentionPattern::Speech, name_re.as_str()).as_str()) {
            Ok(re) => re,
            Err(e) => {
                return Err(e);
            },
        };
        let known_names = collect_known_names(known_persons);
        Ok(InTextScanner { name_re, re_appointment, re_title_name, re_courtesy, re_speech, known_names })
    }

    /// Checks a matched name and builds the mention of it.
    pub fn make_mention(
        matched: &str,
        pattern: MentionPattern,
        full_text: &str,
        byte_offset: usize,
        source_file: &str,
    ) -> (r: Option<InTextMention>)
        ensures
            r.deep_view() == (if false_positive(matched@) {
                None
            } else {
                match split_name_of(matched@) {
                    Some((surname, given)) => if 1 <= given.len() <= 2 {
                        Some(
                            InTextMentionView {
                                name: matched@,
                                surname,
                                given,
                                pattern,
                                context: context_window(
                                    full_text@,
                                    byte_offset as nat,
                                    MENTION_RADIUS as nat,
                                ),
                                source_file: source_file@,
                            },
                        )
                    } else {
                        None
                    },
                    None => None,
                }
            }),
    {
        if is_false_positive(matched) {
            return None;
        }
        let (surname, given) = match split_name(matched) {
            Some(pair) => pair,
            None => {
                return None;
            },
        };
        let given_len = given.as_str().unicode_len();
        if given_len < 1 || given_len > 2 {
            return None;
        }
        let context = extract_context(full_text, byte_offset, MENTION_RADIUS);
        Some(
            InTextMention {
                name: String::from_str(matched),
                surname,
                given,
                pattern,
                context,
                source_file: String::from_str(source_file),
            },
        )
    }

    /// Appends to `mentions` the mentions of the given matches of a pattern.
    pub fn mentions_from_matches(
        p: MentionPattern,
        ms: &Vec<Groups>,
        content: &str,
        source_file: &str,
        mentions: &mut Vec<InTextMention>,
    )
        ensures
            final(mentions).deep_view() == old(mentions).deep_view() + mentions_of(
                p,
                ms.deep_view(),
                content@,
                source_file@,
                ms.len() as nat,
            ),
    {
        let ghost start = mentions.deep_view();
        let ghost mv = ms.deep_view();
        let mut i: usize = 0;
        while i < ms.len()
            invariant
                i <= ms.len(),
                mv == ms.deep_view(),
                mentions.deep_view() == start + mentions_of(p, mv, content@, source_file@, i as nat),
            decreases ms.len() - i,
        {
            let g = &ms[i];
            if g.len() > 1 {
                match &g[1] {
                    Some(c) => {
                        match Self::make_mention(c.text.as_str(), p, content, c.start, source_file) {
                            Some(m) => {
                                let ghost before = mentions.deep_view();
                                let ghost v = m@;
                                mentions.push(m);
                                assert(mentions.deep_view() =~= before.push(v));
                            },
                            None => {},
                        }
                    },
                    None => {},
                }
            }
            i += 1;
        }
    }

    fn pattern_regex(&self, p: MentionPattern) -> (r: &regex::Regex)
        ensures
            regex_source(*r) == mention_pattern(p, self.name_fragment()),
    {
        proof {
            use_type_invariant(self);
        }
        match p {
            MentionPattern::Appointment => &self.re_appointment,
            MentionPattern::TitleName => &self.re_title_name,
            MentionPattern::CourtesyIntro => &self.re_courtesy,
            MentionPattern::Speech => &self.re_speech,
        }
    }

    fn scan_pattern(&self, p: MentionPattern, content: &str, source_file: &str, mentions: &mut Vec<InTextMention>)
        ensures
            final(mentions).deep_view() == old(mentions).deep_view() + pattern_mentions(
                p,
                self.name_fragment(),
                content@,
                source_file@,
            ),
    {
        let ms = all_captures(self.pattern_regex(p), content);
        Self::mentions_from_matches(p, &ms, content, source_file, mentions);
    }

    /// Scans one text for mentions of persons.
    pub fn scan_text(&self, content: &str, source_file: &str) -> (mentions: Vec<InTextMention>)
        ensures
            mentions.deep_view() == text_mentions(self.name_fragment(), content@, source_file@),
    {
        let mut mentions: Vec<InTextMention> = Vec::new();
        self.scan_pattern(MentionPattern::Appointment, content, source_file, &mut mentions);
        self.scan_pattern(MentionPattern::TitleName, content, source_file, &mut mentions);
        self.scan_pattern(MentionPattern::CourtesyIntro, content, source_file, &mut mentions);
        self.scan_pattern(MentionPattern::Speech, content, source_file, &mut mentions);
        mentions
    }

    /// Scans every file of the corpus and reports on each name mentioned,
    /// the most mentioned first.
    pub fn scan_corpus(&self, files: &[LoadedFile]) -> (r: Vec<InTextPerson>)
        ensures
            r.deep_view() == persons_in_text(
                corpus_mentions(self.name_fragment(), file_views(files@), files@.len()),
                self.known(),
            ),
    {
        let mut all: Vec<InTextMention> = Vec::new();
        let ghost fv = file_views(files@);
        let ghost name = self.name_fragment();
        let mut i: usize = 0;
        while i < files.len()
            invariant
                i <= files.len(),
                fv == file_views(files@),
                name == self.name_fragment(),
                all.deep_view() == corpus_mentions(name, fv, i as nat),
            decreases files.len() - i,
        {
            let f = &files[i];
            let mut found = self.scan_text(f.content.as_str(), f.file.path.as_str());
            all.append(&mut found);
            i += 1;
        }
        aggregate_mentions(&all, &self.known_names)
    }
}

fn person_for(ms: &Vec<InTextMention>, name: &str, known: &Vec<String>) -> (r: InTextPerson)
    ensures
        r@ == person_in_text(ms.deep_view(), name@, known.deep_view()),
{
    let ghost mv = ms.deep_view();
    let mut files: Vec<String> = Vec::new();
    let mut labels: Vec<String> = Vec::new();
    let mut contexts: Vec<String> = Vec::new();
    let mut first: Option<usize> = None;
    let mut i: usize = 0;
    while i < ms.len()
        invariant
            i <= ms.len(),
            mv == ms.deep_view(),
            files.deep_view() == files_named(mv, name@, i as nat),
            labels.deep_view() == labels_named(mv, name@, i as nat),
            contexts.deep_view() == first_n(contexts_named(mv, name@, i as nat), SAMPLE_CONTEXTS as nat),
            match first {
                Some(k) => k < i && first_mention(mv, name@, 0) == Some(mv[k as int]),
                None => first_mention(mv, name@, 0) == first_mention(mv, name@, i as int),
            },
        decreases ms.len() - i,
    {
        let m = &ms[i];
        if str_eq(m.name.as_str(), name) {
            files.push(m.source_file.clone());
            labels.push(String::from_str(m.pattern.as_str()));
            let ghost c0 = contexts.deep_view();
            if contexts.len() < SAMPLE_CONTEXTS {
                contexts.push(m.context.clone());
                assert(contexts.deep_view() =~= c0.push(m.context@));
            }
            if first.is_none() {
                first = Some(i);
            }
        }
        i += 1;
    }
    let (surname, given) = match first {
        Some(k) => (ms[k].surname.clone(), ms[k].given.clone()),
        None => (String::new(), String::new()),
    };
    let unique = distinct_words(&files);
    let perm = word_order(&unique);
    let mut mentioned_in: Vec<String> = Vec::new();
    let mut i: usize = 0;
    while i < perm.len()
        invariant
            i <= perm.len(),
            perm@.len() == unique@.len(),
            forall|j: int| 0 <= j < perm@.len() ==> (#[trigger] perm@[j]) < unique@.len(),
            mentioned_in@.len() == i,
            forall|j: int| 0 <= j < i ==> mentioned_in@[j]@ == unique@[perm@[j] as int]@,
        decreases perm.len() - i,
    {
        mentioned_in.push(unique[perm[i]].clone());
        i += 1;
    }
    assert(mentioned_in.deep_view() =~= arrange(unique.deep_view(), perm@));
    InTextPerson {
        name: String::from_str(name),
        surname,
        given,
        mention_count: labels.len(),
        mentioned_in,
        pattern_counts: tally_words(&labels),
        has_own_biography: has_word(known, name),
        sample_contexts: contexts,
    }
}

/// Reports on each name mentioned, the most mentioned first; `known`
/// holds the names of the biography subjects.
pub fn aggregate_mentions(ms: &Vec<InTextMention>, known: &Vec<String>) -> (r: Vec<InTextPerson>)
    ensures
        r.deep_view() == persons_in_text(ms.deep_view(), known.deep_view()),
{
    let ghost mv = ms.deep_view();
    let ghost kv = known.deep_view();
    let mut all_names: Vec<String> = Vec::new();
    let mut i: usize = 0;
    while i < ms.len()
        invariant
            i <= ms.len(),
            all_names@.len() == i,
            forall|j: int| 0 <= j < i ==> all_names@[j]@ == ms@[j].name@,
        decreases ms.len() - i,
    {
        all_names.push(ms[i].name.clone());
        i += 1;
    }
    assert(all_names.deep_view() =~= mentioned_names(mv));
    let names = distinct_words(&all_names);
    let mut found: Vec<InTextPerson> = Vec::new();
    let mut keys: Vec<u64> = Vec::new();
    let mut i: usize = 0;
    while i < names.len()
        invariant
            i <= names.len(),
            mv == ms.deep_view(),
            kv == known.deep_view(),
            keys@.len() == i,
            found@.len() == i,
            forall|j: int|
                0 <= j < i ==> (#[trigger] found@[j])@ == person_in_text(mv, names@[j]@, kv),
            forall|j: int|
                0 <= j < i ==> keys@[j] == (u64::MAX - person_in_text(
                    mv,
                    names@[j]@,
                    kv,
                ).mention_count as u64) as u64,
        decreases names.len() - i,
    {
        let p = person_for(ms, names[i].as_str(), known);
        keys.push(u64::MAX - p.mention_count as u64);
        found.push(p);
        i += 1;
    }
    let ghost ps = Seq::new(names@.len(), |i: int| person_in_text(mv, names@[i]@, kv));
    assert(keys@ =~= mention_keys(ps));
    let perm = stable_order(&keys);
    let mut r: Vec<InTextPerson> = Vec::new();
    let mut i: usize = 0;
    while i < perm.len()
        invariant
            i <= perm.len(),
            perm@.len() == found@.len(),
            forall|j: int| 0 <= j < perm@.len() ==> (#[trigger] perm@[j]) < found@.len(),
            r@.len() == i,
            forall|j: int| 0 <= j < i ==> (#[trigger] r@[j])@ == found@[perm@[j] as int]@,
        decreases perm.len() - i,
    {
        r.push(found[perm[i]].clone());
        i += 1;
    }
    assert(ps =~= Seq::new(
        distinct(mentioned_names(mv)).len(),
        |i: int| person_in_text(mv, distinct(mentioned_names(mv))[i], kv),
    ));
    r
}

} // verus!
