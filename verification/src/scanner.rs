//! The layout of the corpus: which files of a volume hold a biography.

use crate::text::{chars_of, digit_char, ends_with, find_char, find_from, is_digit};
use crate::types::{Section, Source, SourceView};
use crate::words::{has_word, strings_of, views};
use vstd::prelude::*;
use vstd::string::*;

verus! {

/// A biography file found in the corpus.
#[derive(Debug)]
pub struct BiographyFile {
    pub source: Source,
    pub path: String,
}

pub struct BiographyFileView {
    pub source: SourceView,
    pub path: Seq<char>,
}

impl View for BiographyFile {
    type V = BiographyFileView;

    open spec fn view(&self) -> BiographyFileView {
        BiographyFileView { source: self.source@, path: self.path@ }
    }
}

impl DeepView for BiographyFile {
    type V = BiographyFileView;

    open spec fn deep_view(&self) -> BiographyFileView {
        self@
    }
}

/// A biography file together with its text.
#[derive(Debug)]
pub struct LoadedFile {
    pub file: BiographyFile,
    pub content: String,
}

pub struct LoadedFileView {
    pub file: BiographyFileView,
    pub content: Seq<char>,
}

impl View for LoadedFile {
    type V = LoadedFileView;

    open spec fn view(&self) -> LoadedFileView {
        LoadedFileView { file: self.file@, content: self.content@ }
    }
}

impl DeepView for LoadedFile {
    type V = LoadedFileView;

    open spec fn deep_view(&self) -> LoadedFileView {
        self@
    }
}

/// Names of files that hold no biography: tables of contents, comments,
/// prefaces and the like.
pub const SKIP_NAMES: [&'static str; 11] = [
    "目录", "史論", "史評", "論", "評", "贊", "評贊", "序", "注", "正文", "附錄",
];

/// The extension of a plain-text file.
pub const TEXT_EXTENSION: &'static str = "txt";

/// Every character before position `k` is a decimal digit.
pub open spec fn digits_before(s: Seq<char>, k: int) -> bool {
    forall|i: int| 0 <= i < k ==> is_digit(#[trigger] s[i])
}

/// `s` without a leading run of digits and the underscore that ends it;
/// `s` itself where it does not begin so.
pub open spec fn without_numeric_prefix(s: Seq<char>) -> Seq<char> {
    let at = find_from(s, '_', 0);
    if at < s.len() && digits_before(s, at) {
        s.skip(at + 1)
    } else {
        s
    }
}

/// A name that ends in 年 or 年餘: the entry of a year, not a biography.
pub open spec fn is_year_name(name: Seq<char>) -> bool {
    "年"@.is_suffix_of(name) || "年餘"@.is_suffix_of(name)
}

/// `s` begins with one or more decimal digits and an underscore.
pub open spec fn has_numeric_prefix(s: Seq<char>) -> bool {
    let at = find_from(s, '_', 0);
    1 <= at < s.len() && digits_before(s, at)
}

/// Whether the file whose name, without extension, is `stem` holds a
/// biography: the name begins with digits and an underscore, and what
/// follows them is not on the skip list, except 目录 in annals and foreign
/// records, and is not the name of a year.
pub open spec fn is_biography_stem(stem: Seq<char>, section: Section) -> bool {
    let clean = without_numeric_prefix(stem);
    let skipped = views(SKIP_NAMES@).contains(clean) && !(clean == "目录"@ && (section
        == Section::BenJi || section == Section::ZaiJi));
    has_numeric_prefix(stem) && !skipped && !is_year_name(clean)
}

/// Strips a leading `NN_` from a file name.
pub fn strip_numeric_prefix(s: &str) -> (r: &str)
    ensures
        r@ == without_numeric_prefix(s@),
{
    let v = chars_of(s);
    let at = find_char(&v, '_', 0);
    if at >= v.len() {
        return s;
    }
    let mut i: usize = 0;
    while i < at
        invariant
            i <= at < v.len(),
            v@ == s@,
            at == find_from(s@, '_', 0),
            digits_before(v@, i as int),
        decreases at - i,
    {
        if !digit_char(v[i]) {
            return s;
        }
        i += 1;
    }
    let r = s.substring_char(at + 1, v.len());
    r
}

/// Whether a file name is that of a year entry such as 永明五年.
pub fn is_year_file(name: &str) -> (r: bool)
    ensures
        r == is_year_name(name@),
{
    let v = chars_of(name);
    ends_with(&v, &chars_of("年")) || ends_with(&v, &chars_of("年餘"))
}

/// Whether a file name begins with one or more digits and an underscore.
pub fn begins_with_number(s: &str) -> (r: bool)
    ensures
        r == has_numeric_prefix(s@),
{
    let v = chars_of(s);
    let at = find_char(&v, '_', 0);
    if at == 0 || at >= v.len() {
        return false;
    }
    let mut i: usize = 0;
    while i < at
        invariant
            i <= at < v.len(),
            1 <= at,
            v@ == s@,
            at == find_from(s@, '_', 0),
            digits_before(v@, i as int),
        decreases at - i,
    {
        if !digit_char(v[i]) {
            assert(!is_digit(s@[i as int]));
            return false;
        }
        i += 1;
    }
    true
}

/// Whether the file with the given stem, found in a volume of the given
/// section, holds a biography.
pub fn keeps_stem(stem: &str, section: Section) -> (r: bool)
    ensures
        r == is_biography_stem(stem@, section),
{
    if !begins_with_number(stem) {
        return false;
    }
    let clean = strip_numeric_prefix(stem);
    if has_word(&strings_of(&SKIP_NAMES), clean) {
        let keep = crate::text::str_eq(clean, "目录") && (section == Section::BenJi || section
            == Section::ZaiJi);
        if !keep {
            return false;
        }
    }
    !is_year_file(clean)
}

/// The biography file that a file of a volume is, if it is one: a text
/// file whose stem, digits and underscore first, is that of a biography.
pub open spec fn biography_file_of(
    source: SourceView,
    stem: Seq<char>,
    extension: Option<Seq<char>>,
) -> Option<BiographyFileView> {
    if extension == Some(TEXT_EXTENSION@) && is_biography_stem(stem, source.section) {
        Some(BiographyFileView { source, path: source.file_path })
    } else {
        None
    }
}

/// Decides whether a file of a volume is a biography file, from its stem
/// and its extension.
pub fn classify_file(source: Source, stem: &str, extension: Option<&str>) -> (r: Option<BiographyFile>)
    ensures
        r.deep_view() == biography_file_of(source@, stem@, extension.deep_view()),
{
    let is_text = match extension {
        Some(e) => crate::text::str_eq(e, TEXT_EXTENSION),
        None => false,
    };
    if is_text && keeps_stem(stem, source.section) {
        let path = source.file_path.clone();
        Some(BiographyFile { source, path })
    } else {
        None
    }
}

} // verus!
