//! Surname tables and the pattern fragment that matches a personal name.

use crate::text::{chars_of, contains_char, starts_with, string_of};
use crate::types::{Person, PersonKind, PersonKindView, PersonView};
use crate::words::{has_word, join, join_words, strings_of, views};
use vstd::prelude::*;
use vstd::string::*;

verus! {

/// Two-character surnames. They are tried before any one-character surname.
pub const COMPOUND_SURNAMES: [&'static str; 38] = [
    "司馬", "歐陽", "諸葛", "長孫", "令狐", "慕容", "拓跋", "宇文", "獨孤", "赫連", "呼延", "鮮于",
    "段幹", "公孫", "東方", "南宮", "西門", "上官", "夏侯", "皇甫", "尉遲", "澹臺", "公冶", "宗政",
    "濮陽", "淳于", "單于", "太叔", "申屠", "仲孫", "軒轅", "鍾離", "閭丘", "東郭", "南門", "壤駟",
    "禿髮", "宿勤",
];

/// One-character surnames attested in the corpus.
pub const SINGLE_SURNAMES: [char; 200] = [
    '王', '李', '張', '劉', '陳', '楊', '趙', '黃', '周', '吳', '徐', '孫', '胡', '朱', '高', '林',
    '何', '郭', '馬', '羅', '梁', '宋', '鄭', '謝', '韓', '唐', '馮', '于', '董', '蕭', '程', '曹',
    '袁', '鄧', '許', '傅', '沈', '曾', '彭', '呂', '蘇', '盧', '蔣', '蔡', '賈', '丁', '魏', '薛',
    '葉', '閻', '余', '潘', '杜', '戴', '夏', '鍾', '汪', '田', '任', '姜', '范', '方', '石', '姚',
    '譚', '廖', '鄒', '熊', '金', '陸', '郝', '孔', '白', '崔', '康', '毛', '邱', '秦', '江', '史',
    '顧', '侯', '邵', '孟', '龍', '萬', '段', '雷', '錢', '湯', '尹', '黎', '易', '常', '武', '喬',
    '賀', '賴', '龔', '文', '庾', '桓', '殷', '荀', '裴', '虞', '褚', '柳', '阮', '嵇', '顏', '溫',
    '祖', '竇', '苻', '姬', '翟', '左', '伏', '卞', '鮑', '華', '廉', '管', '路', '嚴', '解', '耿',
    '宗', '甘', '臧', '樊', '和', '費', '甄', '辛', '雍', '蘭', '單', '穆', '成', '戚', '紀', '項',
    '祁', '毋', '牛', '邢', '滕', '鄔', '焦', '巴', '弓', '牧', '應', '苗', '明', '向', '鈕', '舒',
    '齊', '霍', '丘', '班', '仇', '游', '包', '盛', '房', '邊', '刁', '俞', '寇', '全', '符', '習',
    '岑', '封', '尚', '干', '暨', '居', '步', '都', '耿', '滿', '弘', '匡', '國', '聞', '索', '賁',
    '靳', '糜', '荊', '羊', '闞', '酈', '蒯', '種',
];

/// Character class of what may stand in a name: anything but whitespace and
/// punctuation.
pub const CJK_CHAR: &'static str = "[^\\s，。、；：！？「」『』（）〈〉《》【】\\-]";

/// The character sequences of the given strings.
pub open spec fn texts(items: Seq<String>) -> Seq<Seq<char>> {
    Seq::new(items.len(), |i: int| items[i]@)
}

/// The compound surnames of the table, in order.
pub open spec fn compound_surnames() -> Seq<Seq<char>> {
    views(COMPOUND_SURNAMES@)
}

/// The additional surnames of two or more characters that the table lacks.
pub open spec fn extra_compounds(extra: Seq<Seq<char>>) -> Seq<Seq<char>>
    decreases extra.len(),
{
    if extra.len() == 0 {
        Seq::empty()
    } else {
        let r = extra_compounds(extra.drop_last());
        let s = extra.last();
        if s.len() >= 2 && !compound_surnames().contains(s) {
            r.push(s)
        } else {
            r
        }
    }
}

/// `singles` followed by each additional one-character surname that is not
/// yet listed.
pub open spec fn with_extra_singles(singles: Seq<char>, extra: Seq<Seq<char>>) -> Seq<char>
    decreases extra.len(),
{
    if extra.len() == 0 {
        singles
    } else {
        let r = with_extra_singles(singles, extra.drop_last());
        let s = extra.last();
        if s.len() == 1 && !r.contains(s[0]) {
            r.push(s[0])
        } else {
            r
        }
    }
}

/// The fragment that matches a known surname followed by a given name of one
/// or two characters: compound surnames first, then the one-character ones.
pub open spec fn name_regex(extra: Seq<Seq<char>>) -> Seq<char> {
    let compounds = compound_surnames() + extra_compounds(extra);
    let singles = with_extra_singles(SINGLE_SURNAMES@, extra);
    let single_part = "["@ + singles + "]"@;
    if compounds.len() == 0 {
        single_part + CJK_CHAR@ + "{1,2}"@
    } else {
        "(?:"@ + ("(?:"@ + join(compounds, "|"@) + ")"@) + CJK_CHAR@ + "{1,2}|"@ + single_part
            + CJK_CHAR@ + "{1,2})"@
    }
}

/// Builds the name fragment from the surname tables and the additional
/// surnames in `extra`.
pub fn build_name_regex(extra: &[String]) -> (r: String)
    ensures
        r@ == name_regex(texts(extra@)),
{
    let table = strings_of(&COMPOUND_SURNAMES);
    let mut compounds = strings_of(&COMPOUND_SURNAMES);
    let mut singles: Vec<char> = Vec::new();
    let mut k: usize = 0;
    while k < 200
        invariant
            k <= 200,
            singles@ == SINGLE_SURNAMES@.take(k as int),
        decreases 200 - k,
    {
        singles.push(SINGLE_SURNAMES[k]);
        k += 1;
    }
    let ghost ex = texts(extra@);
    let mut i: usize = 0;
    while i < extra.len()
        invariant
            i <= extra.len(),
            ex == texts(extra@),
            table.deep_view() == compound_surnames(),
            compounds.deep_view() == compound_surnames() + extra_compounds(ex.take(i as int)),
            singles@ == with_extra_singles(SINGLE_SURNAMES@, ex.take(i as int)),
        decreases extra.len() - i,
    {
        proof {
            assert(ex.take(i + 1).drop_last() =~= ex.take(i as int));
        }
        let chars = chars_of(extra[i].as_str());
        if chars.len() >= 2 {
            if !has_word(&table, extra[i].as_str()) {
                let ghost before = compounds.deep_view();
                compounds.push(extra[i].clone());
                assert(compounds.deep_view() =~= before.push(extra@[i as int]@));
            }
        } else if chars.len() == 1 && !contains_char(&singles, chars[0]) {
            singles.push(chars[0]);
        }
        i += 1;
    }
    assert(ex.take(extra.len() as int) =~= ex);
    let single_chars = string_of(&singles, 0, singles.len());
    let mut single_part = String::from_str("[");
    single_part.append(single_chars.as_str());
    single_part.append("]");
    if compounds.len() == 0 {
        let mut r = single_part;
        r.append(CJK_CHAR);
        r.append("{1,2}");
        r
    } else {
        let mut compound_part = String::from_str("(?:");
        compound_part.append(join_words(&compounds, "|").as_str());
        compound_part.append(")");
        let mut r = String::from_str("(?:");
        r.append(compound_part.as_str());
        r.append(CJK_CHAR);
        r.append("{1,2}|");
        r.append(single_part.as_str());
        r.append(CJK_CHAR);
        r.append("{1,2})");
        r
    }
}

/// The first compound surname, from table position `i` on, that `full`
/// begins with and that leaves at least one character for the given name.
pub open spec fn compound_prefix(full: Seq<char>, i: int) -> Option<Seq<char>>
    decreases compound_surnames().len() - i,
{
    if i < 0 || i >= compound_surnames().len() {
        None
    } else {
        let cs = compound_surnames()[i];
        if cs.is_prefix_of(full) && full.len() > cs.len() {
            Some(cs)
        } else {
            compound_prefix(full, i + 1)
        }
    }
}

/// Surname and given name of a full name of two or more characters: the
/// surname is the first compound surname that fits, else the first character.
pub open spec fn split_name_of(full: Seq<char>) -> Option<(Seq<char>, Seq<char>)> {
    if full.len() < 2 {
        None
    } else {
        match compound_prefix(full, 0) {
            Some(cs) => Some((cs, full.skip(cs.len() as int))),
            None => Some((full.take(1), full.skip(1))),
        }
    }
}

/// Splits a full name such as 褚淵 or 司馬褧 into surname and given name.
pub fn split_name(full_name: &str) -> (r: Option<(String, String)>)
    ensures
        r.deep_view() == split_name_of(full_name@),
{
    let chars = chars_of(full_name);
    if chars.len() < 2 {
        return None;
    }
    let table = strings_of(&COMPOUND_SURNAMES);
    let mut i: usize = 0;
    while i < table.len()
        invariant
            i <= table.len(),
            chars@ == full_name@,
            chars.len() >= 2,
            table.deep_view() == compound_surnames(),
            compound_prefix(full_name@, 0) == compound_prefix(full_name@, i as int),
        decreases table.len() - i,
    {
        let cs = chars_of(table[i].as_str());
        if starts_with(&chars, &cs) && chars.len() > cs.len() {
            let given = string_of(&chars, cs.len(), chars.len());
            return Some((table[i].clone(), given));
        }
        i += 1;
    }
    let surname = string_of(&chars, 0, 1);
    let given = string_of(&chars, 1, chars.len());
    Some((surname, given))
}

/// The views of the given persons.
pub open spec fn person_views(persons: Seq<Person>) -> Seq<PersonView> {
    Seq::new(persons.len(), |i: int| persons[i]@)
}

/// The surname that a subject is known to bear.
pub open spec fn surname_of(k: PersonKindView) -> Option<Seq<char>> {
    match k {
        PersonKindView::Official { surname, .. } => Some(surname),
        PersonKindView::Ruler { surname, .. } => Some(surname),
        PersonKindView::Emperor { surname, .. } => surname,
        PersonKindView::Deposed { .. } => None,
    }
}

/// The surnames of the first `n` persons, each once, in the order in which
/// they first occur.
pub open spec fn known_surnames(persons: Seq<PersonView>, n: nat) -> Seq<Seq<char>>
    decreases n,
{
    if n == 0 || n > persons.len() {
        Seq::empty()
    } else {
        let r = known_surnames(persons, (n - 1) as nat);
        match surname_of(persons[n - 1].kind) {
            Some(s) => if r.contains(s) {
                r
            } else {
                r.push(s)
            },
            None => r,
        }
    }
}

/// The surnames that the given subjects bear, each once.
pub fn collect_extra_surnames(persons: &[Person]) -> (r: Vec<String>)
    ensures
        r.deep_view() == known_surnames(person_views(persons@), persons@.len()),
        r.deep_view().no_duplicates(),
{
    let mut r: Vec<String> = Vec::new();
    let ghost pv = person_views(persons@);
    let mut i: usize = 0;
    while i < persons.len()
        invariant
            i <= persons.len(),
            pv == person_views(persons@),
            r.deep_view() == known_surnames(pv, i as nat),
            r.deep_view().no_duplicates(),
        decreases persons.len() - i,
    {
        let found: Option<&String> = match &persons[i].kind {
            PersonKind::Official { surname, .. } => Some(surname),
            PersonKind::Ruler { surname, .. } => Some(surname),
            PersonKind::Emperor { surname, .. } => surname.as_ref(),
            PersonKind::Deposed { .. } => None,
        };
        match found {
            Some(s) => {
                if !has_word(&r, s.as_str()) {
                    let ghost before = r.deep_view();
                    r.push(s.clone());
                    assert(r.deep_view() =~= before.push(s@));
                }
            },
            None => {},
        }
        i += 1;
    }
    r
}

} // verus!
