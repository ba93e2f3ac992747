//! Regimes, their era names, and the resolution of an era name to a regime
//! and to a year AD.

use crate::text::str_eq;
use crate::types::Book;
use crate::words::{
    alternation, alternation_of, distinct, distinct_words, longest_first, longest_first_words,
};
use vstd::prelude::*;

verus! {

/// A dynasty or kingdom of the period.
#[derive(Debug, Clone, Copy, PartialEq, Eq, Hash, Structural)]
pub enum Regime {
    /// 西晉
    WesternJin,
    /// 東晉
    EasternJin,
    /// 劉宋
    LiuSong,
    /// 南齊
    SouthernQi,
    /// 梁
    Liang,
    /// 陳
    Chen,
    /// 北魏
    NorthernWei,
    /// 漢趙
    HanZhao,
    /// 後趙
    LaterZhao,
    /// 成漢
    ChengHan,
    /// 前涼
    FormerLiang,
    /// 前燕
    FormerYan,
    /// 前秦
    FormerQin,
    /// 後秦
    LaterQin,
    /// 後燕
    LaterYan,
    /// 西秦
    WesternQin,
    /// 後涼
    LaterLiang,
    /// 南涼
    SouthernLiang,
    /// 南燕
    SouthernYan,
    /// 西涼
    WesternLiang,
    /// 北涼
    NorthernLiang,
    /// 夏
    XiaState,
    /// 北燕
    NorthernYan,
}

/// The Chinese name of a regime.
pub open spec fn regime_name(r: Regime) -> Seq<char> {
    match r {
        Regime::WesternJin => "西晉"@,
        Regime::EasternJin => "東晉"@,
        Regime::LiuSong => "劉宋"@,
        Regime::SouthernQi => "南齊"@,
        Regime::Liang => "梁"@,
        Regime::Chen => "陳"@,
        Regime::NorthernWei => "北魏"@,
        Regime::HanZhao => "漢趙"@,
        Regime::LaterZhao => "後趙"@,
        Regime::ChengHan => "成漢"@,
        Regime::FormerLiang => "前涼"@,
        Regime::FormerYan => "前燕"@,
        Regime::FormerQin => "前秦"@,
        Regime::LaterQin => "後秦"@,
        Regime::LaterYan => "後燕"@,
        Regime::WesternQin => "西秦"@,
        Regime::LaterLiang => "後涼"@,
        Regime::SouthernLiang => "南涼"@,
        Regime::SouthernYan => "南燕"@,
        Regime::WesternLiang => "西涼"@,
        Regime::NorthernLiang => "北涼"@,
        Regime::XiaState => "夏"@,
        Regime::NorthernYan => "北燕"@,
    }
}

/// The approximate first year AD of a regime.
pub open spec fn regime_start(r: Regime) -> u16 {
    match r {
        Regime::WesternJin => 265,
        Regime::EasternJin => 317,
        Regime::LiuSong => 420,
        Regime::SouthernQi => 479,
        Regime::Liang => 502,
        Regime::Chen => 557,
        Regime::NorthernWei => 386,
        Regime::HanZhao => 304,
        Regime::LaterZhao => 319,
        Regime::ChengHan => 304,
        Regime::FormerLiang => 314,
        Regime::FormerYan => 337,
        Regime::FormerQin => 351,
        Regime::LaterQin => 384,
        Regime::LaterYan => 384,
        Regime::WesternQin => 385,
        Regime::LaterLiang => 386,
        Regime::SouthernLiang => 397,
        Regime::SouthernYan => 398,
        Regime::WesternLiang => 400,
        Regime::NorthernLiang => 397,
        Regime::XiaState => 407,
        Regime::NorthernYan => 407,
    }
}

/// No two regimes bear the same name.
pub proof fn lemma_regime_names_differ(a: Regime, b: Regime)
    ensures
        regime_name(a) == regime_name(b) ==> a == b,
{
    reveal_strlit("西晉");
    reveal_strlit("東晉");
    reveal_strlit("劉宋");
    reveal_strlit("南齊");
    reveal_strlit("梁");
    reveal_strlit("陳");
    reveal_strlit("北魏");
    reveal_strlit("漢趙");
    reveal_strlit("後趙");
    reveal_strlit("成漢");
    reveal_strlit("前涼");
    reveal_strlit("前燕");
    reveal_strlit("前秦");
    reveal_strlit("後秦");
    reveal_strlit("後燕");
    reveal_strlit("西秦");
    reveal_strlit("後涼");
    reveal_strlit("南涼");
    reveal_strlit("南燕");
    reveal_strlit("西涼");
    reveal_strlit("北涼");
    reveal_strlit("夏");
    reveal_strlit("北燕");
    if a != b && regime_name(a) == regime_name(b) {
        let x = regime_name(a);
        let y = regime_name(b);
        assert(x[0] == y[0]);
        if x.len() > 1 {
            assert(x[1] == y[1]);
        }
    }
}

impl Regime {
    /// The Chinese name of this regime.
    pub fn as_chinese(&self) -> (r: &'static str)
        ensures
            r@ == regime_name(*self),
    {
        match self {
            Regime::WesternJin => "西晉",
            Regime::EasternJin => "東晉",
            Regime::LiuSong => "劉宋",
            Regime::SouthernQi => "南齊",
            Regime::Liang => "梁",
            Regime::Chen => "陳",
            Regime::NorthernWei => "北魏",
            Regime::HanZhao => "漢趙",
            Regime::LaterZhao => "後趙",
            Regime::ChengHan => "成漢",
            Regime::FormerLiang => "前涼",
            Regime::FormerYan => "前燕",
            Regime::FormerQin => "前秦",
            Regime::LaterQin => "後秦",
            Regime::LaterYan => "後燕",
            Regime::WesternQin => "西秦",
            Regime::LaterLiang => "後涼",
            Regime::SouthernLiang => "南涼",
            Regime::SouthernYan => "南燕",
            Regime::WesternLiang => "西涼",
            Regime::NorthernLiang => "北涼",
            Regime::XiaState => "夏",
            Regime::NorthernYan => "北燕",
        }
    }

    /// Approximate first year AD, by which concurrent regimes are ordered.
    pub fn start_ad_year(&self) -> (r: u16)
        ensures
            r == regime_start(*self),
    {
        match self {
            Regime::WesternJin => 265,
            Regime::EasternJin => 317,
            Regime::LiuSong => 420,
            Regime::SouthernQi => 479,
            Regime::Liang => 502,
            Regime::Chen => 557,
            Regime::NorthernWei => 386,
            Regime::HanZhao => 304,
            Regime::LaterZhao => 319,
            Regime::ChengHan => 304,
            Regime::FormerLiang => 314,
            Regime::FormerYan => 337,
            Regime::FormerQin => 351,
            Regime::LaterQin => 384,
            Regime::LaterYan => 384,
            Regime::WesternQin => 385,
            Regime::LaterLiang => 386,
            Regime::SouthernLiang => 397,
            Regime::SouthernYan => 398,
            Regime::WesternLiang => 400,
            Regime::NorthernLiang => 397,
            Regime::XiaState => 407,
            Regime::NorthernYan => 407,
        }
    }
}

/// A node of the tree in which the regimes are displayed.
pub enum DisplayTree {
    /// A regime with nothing below it.
    Leaf(Regime),
    /// A regime with its successors and the regimes concurrent with it.
    Branch {
        regime: Regime,
        /// Successors on the same political line, in order.
        sequence: Vec<DisplayTree>,
        /// Regimes that existed beside it.
        concurrent: Vec<DisplayTree>,
    },
}

/// One leaf for each regime, in order.
pub open spec fn leaves(rs: Seq<Regime>) -> Seq<DisplayTree> {
    Seq::new(rs.len(), |i: int| DisplayTree::Leaf(rs[i]))
}

/// The southern dynasties that followed Eastern Jin.
pub open spec fn southern_line() -> Seq<Regime> {
    seq![Regime::LiuSong, Regime::SouthernQi, Regime::Liang, Regime::Chen]
}

/// The sixteen kingdoms, by first year.
pub open spec fn sixteen_kingdoms() -> Seq<Regime> {
    seq![
        Regime::HanZhao,
        Regime::ChengHan,
        Regime::FormerLiang,
        Regime::LaterZhao,
        Regime::FormerYan,
        Regime::FormerQin,
        Regime::LaterQin,
        Regime::LaterYan,
        Regime::WesternQin,
        Regime::LaterLiang,
        Regime::SouthernLiang,
        Regime::NorthernLiang,
        Regime::SouthernYan,
        Regime::WesternLiang,
        Regime::XiaState,
        Regime::NorthernYan,
    ]
}

/// Western Jin at the root; beside it Eastern Jin, followed by the southern
/// line and flanked by the sixteen kingdoms, and Northern Wei.
pub open spec fn is_canonical_tree(t: DisplayTree) -> bool {
    &&& t matches DisplayTree::Branch { regime, sequence, concurrent }
    &&& regime == Regime::WesternJin
    &&& sequence@.len() == 0
    &&& concurrent@.len() == 2
    &&& concurrent@[1] == DisplayTree::Leaf(Regime::NorthernWei)
    &&& concurrent@[0] matches DisplayTree::Branch { regime: east, sequence: line, concurrent: rivals }
    &&& east == Regime::EasternJin
    &&& line@ == leaves(southern_line())
    &&& rivals@ == leaves(sixteen_kingdoms())
}

/// The sixteen kingdoms stand in the order of their first years.
pub proof fn lemma_sixteen_kingdoms_ordered()
    ensures
        forall|i: int, j: int|
            0 <= i <= j < sixteen_kingdoms().len() ==> regime_start(sixteen_kingdoms()[i])
                <= regime_start(sixteen_kingdoms()[j]),
{
}

/// The canonical display tree of the regimes.
pub fn regime_display_tree() -> (t: DisplayTree)
    ensures
        is_canonical_tree(t),
{
    let rivals: Vec<DisplayTree> = vec![
        DisplayTree::Leaf(Regime::HanZhao),
        DisplayTree::Leaf(Regime::ChengHan),
        DisplayTree::Leaf(Regime::FormerLiang),
        DisplayTree::Leaf(Regime::LaterZhao),
        DisplayTree::Leaf(Regime::FormerYan),
        DisplayTree::Leaf(Regime::FormerQin),
        DisplayTree::Leaf(Regime::LaterQin),
        DisplayTree::Leaf(Regime::LaterYan),
        DisplayTree::Leaf(Regime::WesternQin),
        DisplayTree::Leaf(Regime::LaterLiang),
        DisplayTree::Leaf(Regime::SouthernLiang),
        DisplayTree::Leaf(Regime::NorthernLiang),
        DisplayTree::Leaf(Regime::SouthernYan),
        DisplayTree::Leaf(Regime::WesternLiang),
        DisplayTree::Leaf(Regime::XiaState),
        DisplayTree::Leaf(Regime::NorthernYan),
    ];
    assert(rivals@ =~= leaves(sixteen_kingdoms()));
    let line: Vec<DisplayTree> = vec![
        DisplayTree::Leaf(Regime::LiuSong),
        DisplayTree::Leaf(Regime::SouthernQi),
        DisplayTree::Leaf(Regime::Liang),
        DisplayTree::Leaf(Regime::Chen),
    ];
    assert(line@ =~= leaves(southern_line()));
    let east = DisplayTree::Branch { regime: Regime::EasternJin, sequence: line, concurrent: rivals };
    let concurrent: Vec<DisplayTree> = vec![east, DisplayTree::Leaf(Regime::NorthernWei)];
    DisplayTree::Branch { regime: Regime::WesternJin, sequence: Vec::new(), concurrent }
}

/// One era name of one regime, with its first and last year AD.
#[derive(Debug, Clone, Copy)]
pub struct EraEntry {
    pub name: &'static str,
    pub regime: Regime,
    /// First year AD of the era, e.g. 424 for 元嘉.
    pub start_ad: u16,
    /// Last year AD of the era, e.g. 453 for 元嘉.
    pub end_ad: u16,
}

/// Number of entries of the era catalogue.
pub const ERA_COUNT: usize = 167;

/// The era catalogue: name, regime, first and last year AD. The eras of one
/// regime stand together, in chronological order.
pub const ERA_TABLE: [(&'static str, Regime, u16, u16); 167] = [
    ("泰始", Regime::WesternJin, 265, 274),
    ("咸寧", Regime::WesternJin, 275, 280),
    ("太康", Regime::WesternJin, 280, 289),
    ("太熙", Regime::WesternJin, 290, 290),
    ("永熙", Regime::WesternJin, 290, 290),
    ("永平", Regime::WesternJin, 291, 291),
    ("元康", Regime::WesternJin, 291, 299),
    ("永康", Regime::WesternJin, 300, 301),
    ("永寧", Regime::WesternJin, 301, 302),
    ("太安", Regime::WesternJin, 302, 304),
    ("永安", Regime::WesternJin, 304, 304),
    ("建武", Regime::WesternJin, 304, 304),
    ("永興", Regime::WesternJin, 304, 306),
    ("光熙", Regime::WesternJin, 306, 306),
    ("永嘉", Regime::WesternJin, 307, 313),
    ("建興", Regime::WesternJin, 313, 317),
    ("建武", Regime::EasternJin, 317, 318),
    ("大興", Regime::EasternJin, 318, 321),
    ("永昌", Regime::EasternJin, 322, 323),
    ("太寧", Regime::EasternJin, 323, 326),
    ("咸和", Regime::EasternJin, 326, 334),
    ("咸康", Regime::EasternJin, 335, 342),
    ("建元", Regime::EasternJin, 343, 344),
    ("永和", Regime::EasternJin, 345, 356),
    ("升平", Regime::EasternJin, 357, 361),
    ("隆和", Regime::EasternJin, 362, 363),
    ("興寧", Regime::EasternJin, 363, 365),
    ("太和", Regime::EasternJin, 366, 371),
    ("咸安", Regime::EasternJin, 371, 372),
    ("寧康", Regime::EasternJin, 373, 375),
    ("太元", Regime::EasternJin, 376, 396),
    ("隆安", Regime::EasternJin, 397, 401),
    ("元興", Regime::EasternJin, 402, 404),
    ("義熙", Regime::EasternJin, 405, 418),
    ("永初", Regime::LiuSong, 420, 422),
    ("景平", Regime::LiuSong, 423, 424),
    ("元嘉", Regime::LiuSong, 424, 453),
    ("孝建", Regime::LiuSong, 454, 456),
    ("大明", Regime::LiuSong, 457, 464),
    ("永光", Regime::LiuSong, 465, 465),
    ("景和", Regime::LiuSong, 465, 465),
    ("泰始", Regime::LiuSong, 465, 471),
    ("泰豫", Regime::LiuSong, 472, 472),
    ("元徽", Regime::LiuSong, 473, 477),
    ("昇明", Regime::LiuSong, 477, 479),
    ("建元", Regime::SouthernQi, 479, 482),
    ("永明", Regime::SouthernQi, 483, 493),
    ("隆昌", Regime::SouthernQi, 494, 494),
    ("延興", Regime::SouthernQi, 494, 494),
    ("建武", Regime::SouthernQi, 494, 498),
    ("永泰", Regime::SouthernQi, 498, 498),
    ("永元", Regime::SouthernQi, 499, 501),
    ("中興", Regime::SouthernQi, 501, 502),
    ("天監", Regime::Liang, 502, 519),
    ("普通", Regime::Liang, 520, 527),
    ("大通", Regime::Liang, 527, 529),
    ("中大通", Regime::Liang, 529, 534),
    ("大同", Regime::Liang, 535, 546),
    ("中大同", Regime::Liang, 546, 547),
    ("太清", Regime::Liang, 547, 549),
    ("大寶", Regime::Liang, 550, 551),
    ("承聖", Regime::Liang, 552, 555),
    ("天成", Regime::Liang, 555, 555),
    ("永定", Regime::Chen, 557, 559),
    ("天嘉", Regime::Chen, 560, 566),
    ("天康", Regime::Chen, 566, 566),
    ("光大", Regime::Chen, 567, 568),
    ("太建", Regime::Chen, 569, 582),
    ("至德", Regime::Chen, 583, 586),
    ("禎明", Regime::Chen, 587, 589),
    ("登國", Regime::NorthernWei, 386, 396),
    ("皇始", Regime::NorthernWei, 396, 398),
    ("天興", Regime::NorthernWei, 398, 404),
    ("天賜", Regime::NorthernWei, 404, 409),
    ("永興", Regime::NorthernWei, 409, 413),
    ("神瑞", Regime::NorthernWei, 414, 416),
    ("泰常", Regime::NorthernWei, 416, 423),
    ("始光", Regime::NorthernWei, 424, 428),
    ("神麚", Regime::NorthernWei, 428, 431),
    ("延和", Regime::NorthernWei, 432, 435),
    ("太延", Regime::NorthernWei, 435, 440),
    ("太平真君", Regime::NorthernWei, 440, 451),
    ("正平", Regime::NorthernWei, 451, 452),
    ("興安", Regime::NorthernWei, 452, 454),
    ("興光", Regime::NorthernWei, 454, 455),
    ("太安", Regime::NorthernWei, 455, 459),
    ("和平", Regime::NorthernWei, 460, 465),
    ("天安", Regime::NorthernWei, 466, 467),
    ("皇興", Regime::NorthernWei, 467, 471),
    ("延興", Regime::NorthernWei, 471, 476),
    ("承明", Regime::NorthernWei, 476, 476),
    ("太和", Regime::NorthernWei, 477, 499),
    ("景明", Regime::NorthernWei, 500, 504),
    ("正始", Regime::NorthernWei, 504, 508),
    ("永平", Regime::NorthernWei, 508, 512),
    ("延昌", Regime::NorthernWei, 512, 515),
    ("熙平", Regime::NorthernWei, 516, 518),
    ("神龜", Regime::NorthernWei, 518, 520),
    ("正光", Regime::NorthernWei, 520, 525),
    ("孝昌", Regime::NorthernWei, 525, 528),
    ("武泰", Regime::NorthernWei, 528, 528),
    ("建義", Regime::NorthernWei, 528, 528),
    ("永安", Regime::NorthernWei, 528, 530),
    ("建明", Regime::NorthernWei, 530, 531),
    ("普泰", Regime::NorthernWei, 531, 531),
    ("中興", Regime::NorthernWei, 531, 532),
    ("太昌", Regime::NorthernWei, 532, 532),
    ("永興", Regime::NorthernWei, 409, 413),
    ("永熙", Regime::NorthernWei, 532, 534),
    ("元熙", Regime::HanZhao, 304, 308),
    ("河瑞", Regime::HanZhao, 309, 310),
    ("光興", Regime::HanZhao, 310, 311),
    ("嘉平", Regime::HanZhao, 311, 315),
    ("麟嘉", Regime::HanZhao, 316, 318),
    ("光初", Regime::HanZhao, 318, 329),
    ("建平", Regime::LaterZhao, 330, 333),
    ("建武", Regime::LaterZhao, 335, 348),
    ("太寧", Regime::LaterZhao, 349, 349),
    ("青龍", Regime::LaterZhao, 350, 350),
    ("太武", Regime::ChengHan, 303, 304),
    ("晏平", Regime::ChengHan, 306, 310),
    ("玉衡", Regime::ChengHan, 311, 334),
    ("漢興", Regime::ChengHan, 338, 343),
    ("太初", Regime::FormerLiang, 314, 320),
    ("建興", Regime::FormerLiang, 317, 320),
    ("元璽", Regime::FormerYan, 352, 357),
    ("光壽", Regime::FormerYan, 357, 360),
    ("建熙", Regime::FormerYan, 360, 370),
    ("皇始", Regime::FormerQin, 351, 355),
    ("壽光", Regime::FormerQin, 355, 357),
    ("甘露", Regime::FormerQin, 359, 364),
    ("建元", Regime::FormerQin, 365, 385),
    ("太初", Regime::FormerQin, 386, 394),
    ("建初", Regime::LaterQin, 386, 394),
    ("皇初", Regime::LaterQin, 394, 399),
    ("弘始", Regime::LaterQin, 399, 416),
    ("建興", Regime::LaterYan, 386, 396),
    ("長樂", Regime::LaterYan, 399, 401),
    ("光始", Regime::LaterYan, 401, 406),
    ("建始", Regime::LaterYan, 407, 407),
    ("建義", Regime::WesternQin, 385, 388),
    ("太初", Regime::WesternQin, 388, 400),
    ("更始", Regime::WesternQin, 409, 412),
    ("建弘", Regime::WesternQin, 420, 428),
    ("太安", Regime::LaterLiang, 386, 389),
    ("麟嘉", Regime::LaterLiang, 389, 396),
    ("龍飛", Regime::LaterLiang, 396, 399),
    ("太初", Regime::SouthernLiang, 397, 399),
    ("建和", Regime::SouthernLiang, 400, 402),
    ("弘昌", Regime::SouthernLiang, 402, 404),
    ("嘉平", Regime::SouthernLiang, 408, 414),
    ("建平", Regime::SouthernYan, 400, 405),
    ("太上", Regime::SouthernYan, 405, 410),
    ("庚子", Regime::WesternLiang, 400, 404),
    ("建初", Regime::WesternLiang, 405, 417),
    ("神璽", Regime::NorthernLiang, 397, 399),
    ("天璽", Regime::NorthernLiang, 399, 401),
    ("永安", Regime::NorthernLiang, 401, 412),
    ("玄始", Regime::NorthernLiang, 412, 427),
    ("承平", Regime::NorthernLiang, 443, 460),
    ("龍昇", Regime::XiaState, 407, 413),
    ("鳳翔", Regime::XiaState, 413, 418),
    ("昌武", Regime::XiaState, 418, 419),
    ("真興", Regime::XiaState, 419, 425),
    ("承光", Regime::XiaState, 425, 428),
    ("正始", Regime::NorthernYan, 407, 409),
    ("太平", Regime::NorthernYan, 409, 430),
];

/// The catalogue entry at position `i`.
pub open spec fn era_at(i: int) -> EraEntry {
    EraEntry {
        name: ERA_TABLE[i].0,
        regime: ERA_TABLE[i].1,
        start_ad: ERA_TABLE[i].2,
        end_ad: ERA_TABLE[i].3,
    }
}

/// The catalogue entry at position `i`.
pub(crate) fn era_entry(i: usize) -> (e: EraEntry)
    requires
        i < ERA_COUNT,
    ensures
        e == era_at(i as int),
{
    let t = ERA_TABLE[i];
    EraEntry { name: t.0, regime: t.1, start_ad: t.2, end_ad: t.3 }
}

/// The whole catalogue, in order.
pub open spec fn era_catalogue() -> Seq<EraEntry> {
    Seq::new(ERA_COUNT as nat, |i: int| era_at(i))
}

/// The era catalogue as a list.
pub fn era_entries() -> (v: Vec<EraEntry>)
    ensures
        v@ == era_catalogue(),
{
    let mut v: Vec<EraEntry> = Vec::new();
    let mut i: usize = 0;
    while i < ERA_COUNT
        invariant
            i <= ERA_COUNT,
            v@.len() == i,
            forall|j: int| 0 <= j < i ==> v@[j] == era_at(j),
        decreases ERA_COUNT - i,
    {
        v.push(era_entry(i));
        i += 1;
    }
    v
}

/// No era ends before it begins, and every era lies between AD 265 and 589.
pub proof fn lemma_era_ranges()
    ensures
        forall|i: int|
            0 <= i < ERA_COUNT ==> 265 <= (#[trigger] era_at(i)).start_ad <= era_at(i).end_ad <= 589,
{
    assert forall|i: int| 0 <= i < ERA_COUNT implies 265 <= (#[trigger] era_at(i)).start_ad
        <= era_at(i).end_ad <= 589 by {
        lemma_era_range_at(i);
    }
}

proof fn lemma_era_range_at(i: int)
    requires
        0 <= i < ERA_COUNT,
    ensures
        265 <= ERA_TABLE[i].2 <= ERA_TABLE[i].3 <= 589,
{
}

/// The regime from whose point of view a book is written.
pub open spec fn default_regime_of(book: Book) -> Regime {
    match book {
        Book::JinShu => Regime::EasternJin,
        Book::SongShu => Regime::LiuSong,
        Book::NanQiShu => Regime::SouthernQi,
        Book::LiangShu => Regime::Liang,
        Book::ChenShu => Regime::Chen,
        Book::WeiShu => Regime::NorthernWei,
    }
}

/// The first guess for the regime of an era name found in `book`.
pub fn default_regime(book: Book) -> (r: Regime)
    ensures
        r == default_regime_of(book),
{
    match book {
        Book::JinShu => Regime::EasternJin,
        Book::SongShu => Regime::LiuSong,
        Book::NanQiShu => Regime::SouthernQi,
        Book::LiangShu => Regime::Liang,
        Book::ChenShu => Regime::Chen,
        Book::WeiShu => Regime::NorthernWei,
    }
}

/// Position of the first catalogue entry at or after `from` that bears the
/// name `era` and, where `regime` is given, belongs to it.
pub open spec fn find_era(era: Seq<char>, regime: Option<Regime>, from: int) -> Option<int>
    decreases ERA_COUNT - from,
{
    if from < 0 || from >= ERA_COUNT {
        None
    } else if era_at(from).name@ == era && (regime is None || regime == Some(era_at(from).regime)) {
        Some(from)
    } else {
        find_era(era, regime, from + 1)
    }
}

/// The regime of an era name found in `book`: the book's own regime if it
/// has an era of that name, else the regime of the first era of that name.
pub open spec fn resolved_regime(era: Seq<char>, book: Book) -> Option<Regime> {
    if find_era(era, Some(default_regime_of(book)), 0) is Some {
        Some(default_regime_of(book))
    } else {
        match find_era(era, None, 0) {
            Some(i) => Some(era_at(i).regime),
            None => None,
        }
    }
}

fn lookup_era(era_name: &str, regime: Option<Regime>) -> (r: Option<usize>)
    ensures
        r is Some ==> r->0 < ERA_COUNT,
        match r {
            Some(i) => find_era(era_name@, regime, 0) == Some(i as int),
            None => find_era(era_name@, regime, 0) is None,
        },
{
    let mut i: usize = 0;
    while i < ERA_COUNT
        invariant
            i <= ERA_COUNT,
            find_era(era_name@, regime, 0) == find_era(era_name@, regime, i as int),
        decreases ERA_COUNT - i,
    {
        let e = era_entry(i);
        if str_eq(e.name, era_name) {
            let fits = match regime {
                None => true,
                Some(r) => r == e.regime,
            };
            if fits {
                return Some(i);
            }
        }
        i += 1;
    }
    None
}

/// Resolves an era name to one regime, given the book it was found in.
/// The answer is `None` exactly when the catalogue has no era of that name.
pub fn resolve_era(era_name: &str, book: Book) -> (r: Option<Regime>)
    ensures
        r == resolved_regime(era_name@, book),
        r is None <==> find_era(era_name@, None, 0) is None,
{
    let default = default_regime(book);
    proof {
        lemma_find_era_weaker(era_name@, default, 0);
    }
    match lookup_era(era_name, Some(default)) {
        Some(_) => Some(default),
        None => match lookup_era(era_name, None) {
            Some(i) => Some(era_entry(i).regime),
            None => None,
        },
    }
}

/// An era found for a given regime is also found when any regime will do.
pub proof fn lemma_find_era_weaker(era: Seq<char>, regime: Regime, from: int)
    ensures
        find_era(era, Some(regime), from) is Some ==> find_era(era, None, from) is Some,
    decreases ERA_COUNT - from,
{
    if 0 <= from < ERA_COUNT {
        lemma_find_era_weaker(era, regime, from + 1);
    }
}

/// Position of the first catalogue entry at or after `from` whose regime
/// is called `regime` and whose name is `era`.
pub open spec fn find_era_by_names(regime: Seq<char>, era: Seq<char>, from: int) -> Option<int>
    decreases ERA_COUNT - from,
{
    if from < 0 || from >= ERA_COUNT {
        None
    } else if era_at(from).name@ == era && regime_name(era_at(from).regime) == regime {
        Some(from)
    } else {
        find_era_by_names(regime, era, from + 1)
    }
}

/// The catalogue entry of an era of a regime, both given by name.
pub fn find_entry(regime_chinese: &str, era_name: &str) -> (r: Option<usize>)
    ensures
        r is Some ==> r->0 < ERA_COUNT,
        match r {
            Some(i) => find_era_by_names(regime_chinese@, era_name@, 0) == Some(i as int),
            None => find_era_by_names(regime_chinese@, era_name@, 0) is None,
        },
{
    let mut i: usize = 0;
    while i < ERA_COUNT
        invariant
            i <= ERA_COUNT,
            find_era_by_names(regime_chinese@, era_name@, 0) == find_era_by_names(
                regime_chinese@,
                era_name@,
                i as int,
            ),
        decreases ERA_COUNT - i,
    {
        let e = era_entry(i);
        if str_eq(e.name, era_name) && str_eq(e.regime.as_chinese(), regime_chinese) {
            return Some(i);
        }
        i += 1;
    }
    None
}

/// The rank of an era among the eras of its regime: its position in the
/// catalogue, or `usize::MAX` for an era that the catalogue lacks.
pub open spec fn era_rank(regime: Seq<char>, era: Seq<char>) -> usize {
    match find_era_by_names(regime, era, 0) {
        Some(i) => i as usize,
        None => usize::MAX,
    }
}

/// The key by which the eras of a regime are put in chronological order.
pub fn era_sort_key(regime_chinese: &str, era_name: &str) -> (k: usize)
    ensures
        k == era_rank(regime_chinese@, era_name@),
{
    match find_entry(regime_chinese, era_name) {
        Some(i) => i,
        None => usize::MAX,
    }
}

/// The year AD of year `year` of an era: the era's first year plus
/// `year - 1`; none for an era that the catalogue lacks.
pub open spec fn ad_year_of(regime: Seq<char>, era: Seq<char>, year: u8) -> Option<u16> {
    match find_era_by_names(regime, era, 0) {
        Some(i) => Some((era_at(i).start_ad + year - 1) as u16),
        None => None,
    }
}

/// The exact year AD of a year of an era of a regime.
pub fn exact_ad_year(regime_chinese: &str, era_name: &str, year: u8) -> (r: Option<u16>)
    ensures
        r == ad_year_of(regime_chinese@, era_name@, year),
        r is Some ==> r->0 == era_at(find_era_by_names(regime_chinese@, era_name@, 0)->0).start_ad
            + year - 1,
{
    match find_entry(regime_chinese, era_name) {
        Some(i) => {
            proof {
                lemma_era_range_at(i as int);
            }
            let e = era_entry(i);
            Some(e.start_ad - 1 + year as u16)
        },
        None => None,
    }
}

/// The first regime, in catalogue order, that is called `name`.
pub open spec fn regime_called(name: Seq<char>, from: int) -> Option<Regime>
    decreases ERA_COUNT - from,
{
    if from < 0 || from >= ERA_COUNT {
        None
    } else if regime_name(era_at(from).regime) == name {
        Some(era_at(from).regime)
    } else {
        regime_called(name, from + 1)
    }
}

/// The key by which regimes are ordered: the first year of the regime of
/// that name, or 9999 for a name that the catalogue lacks.
pub open spec fn regime_rank(name: Seq<char>) -> u16 {
    match regime_called(name, 0) {
        Some(r) => regime_start(r),
        None => 9999,
    }
}

/// The key by which regimes are put in the order of their first years.
pub fn regime_sort_key(regime_chinese: &str) -> (k: u16)
    ensures
        k == regime_rank(regime_chinese@),
{
    let mut i: usize = 0;
    while i < ERA_COUNT
        invariant
            i <= ERA_COUNT,
            regime_called(regime_chinese@, 0) == regime_called(regime_chinese@, i as int),
        decreases ERA_COUNT - i,
    {
        let e = era_entry(i);
        if str_eq(e.regime.as_chinese(), regime_chinese) {
            return e.regime.start_ad_year();
        }
        i += 1;
    }
    9999
}

/// The era names of the catalogue, in order, repeats included.
pub open spec fn era_names() -> Seq<Seq<char>> {
    Seq::new(ERA_COUNT as nat, |i: int| era_at(i).name@)
}

/// The fragment that matches any era name: longer names are tried first,
/// so that 太平真君 wins over 太平, and a name shared by several regimes is
/// listed once.
pub open spec fn era_regex() -> Seq<char> {
    alternation(distinct(longest_first(era_names())))
}

/// Builds the fragment that matches any era name of the catalogue.
pub fn build_era_regex() -> (r: String)
    ensures
        r@ == era_regex(),
{
    let mut names: Vec<String> = Vec::new();
    let mut i: usize = 0;
    while i < ERA_COUNT
        invariant
            i <= ERA_COUNT,
            names@.len() == i,
            forall|j: int| 0 <= j < i ==> names@[j]@ == era_at(j).name@,
        decreases ERA_COUNT - i,
    {
        names.push(String::from_str(era_entry(i).name));
        i += 1;
    }
    assert(names.deep_view() =~= era_names());
    let sorted = longest_first_words(&names);
    let unique = distinct_words(&sorted);
    alternation_of(&unique)
}

} // verus!
