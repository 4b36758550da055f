//! The built-in holiday sticker catalog.
use vstd::prelude::*;
use std::path::{Path, PathBuf};
use crate::text::push_str;

verus! {

/// Holiday and celebration themes for stickers and collages.
#[derive(Clone, Copy, Debug, PartialEq, Eq, Structural)]
pub enum StickerCategory {
    All,
    Christmas,
    Halloween,
    FourthOfJuly,
    Thanksgiving,
    Easter,
    Valentine,
    NewYear,
    Birthday,
    MothersAndFathersDay,
    LunarNewYear,
    EverydayFun,
}

/// Another name for the sticker themes.
pub type StickerHolidayCategory = StickerCategory;

impl StickerCategory {
    /// Every theme offered as a filter, `All` first.
    pub fn all_filter_categories() -> (r: &'static [StickerCategory])
        ensures
            r@ == seq![StickerCategory::All, StickerCategory::Christmas, StickerCategory::Halloween, StickerCategory::FourthOfJuly, StickerCategory::Thanksgiving, StickerCategory::Easter, StickerCategory::Valentine, StickerCategory::NewYear, StickerCategory::Birthday, StickerCategory::MothersAndFathersDay, StickerCategory::LunarNewYear, StickerCategory::EverydayFun],
    {
        &[
            StickerCategory::All,
            StickerCategory::Christmas,
            StickerCategory::Halloween,
            StickerCategory::FourthOfJuly,
            StickerCategory::Thanksgiving,
            StickerCategory::Easter,
            StickerCategory::Valentine,
            StickerCategory::NewYear,
            StickerCategory::Birthday,
            StickerCategory::MothersAndFathersDay,
            StickerCategory::LunarNewYear,
            StickerCategory::EverydayFun,
        ]
    }

    /// Filter label of the theme.
    pub fn label(&self) -> (r: &'static str)
        ensures
            r == match *self {
                StickerCategory::All => "All Stickers",
                StickerCategory::Christmas => "🎄 Christmas / Winter",
                StickerCategory::Halloween => "🎃 Halloween",
                StickerCategory::FourthOfJuly => "🎆 4th of July / USA",
                StickerCategory::Thanksgiving => "🦃 Thanksgiving / Autumn",
                StickerCategory::Easter => "🐰 Easter / Spring",
                StickerCategory::Valentine => "💖 Valentine's Day",
                StickerCategory::NewYear => "🥂 New Year's Eve",
                StickerCategory::Birthday => "🎂 Birthday & Celebration",
                StickerCategory::MothersAndFathersDay => "💐 Mother's & Father's Day",
                StickerCategory::LunarNewYear => "🧧 Lunar New Year",
                StickerCategory::EverydayFun => "⭐ Everyday Fun & Collage",
            },
    {
        match self {
            StickerCategory::All => "All Stickers",
            StickerCategory::Christmas => "🎄 Christmas / Winter",
            StickerCategory::Halloween => "🎃 Halloween",
            StickerCategory::FourthOfJuly => "🎆 4th of July / USA",
            StickerCategory::Thanksgiving => "🦃 Thanksgiving / Autumn",
            StickerCategory::Easter => "🐰 Easter / Spring",
            StickerCategory::Valentine => "💖 Valentine's Day",
            StickerCategory::NewYear => "🥂 New Year's Eve",
            StickerCategory::Birthday => "🎂 Birthday & Celebration",
            StickerCategory::MothersAndFathersDay => "💐 Mother's & Father's Day",
            StickerCategory::LunarNewYear => "🧧 Lunar New Year",
            StickerCategory::EverydayFun => "⭐ Everyday Fun & Collage",
        }
    }

    /// Short label of the theme.
    pub fn short_label(&self) -> (r: &'static str)
        ensures
            r == match *self {
                StickerCategory::All => "All",
                StickerCategory::Christmas => "Christmas",
                StickerCategory::Halloween => "Halloween",
                StickerCategory::FourthOfJuly => "4th of July",
                StickerCategory::Thanksgiving => "Thanksgiving",
                StickerCategory::Easter => "Easter",
                StickerCategory::Valentine => "Valentine",
                StickerCategory::NewYear => "New Year",
                StickerCategory::Birthday => "Birthday",
                StickerCategory::MothersAndFathersDay => "Mom & Dad",
                StickerCategory::LunarNewYear => "Lunar NY",
                StickerCategory::EverydayFun => "Everyday",
            },
    {
        match self {
            StickerCategory::All => "All",
            StickerCategory::Christmas => "Christmas",
            StickerCategory::Halloween => "Halloween",
            StickerCategory::FourthOfJuly => "4th of July",
            StickerCategory::Thanksgiving => "Thanksgiving",
            StickerCategory::Easter => "Easter",
            StickerCategory::Valentine => "Valentine",
            StickerCategory::NewYear => "New Year",
            StickerCategory::Birthday => "Birthday",
            StickerCategory::MothersAndFathersDay => "Mom & Dad",
            StickerCategory::LunarNewYear => "Lunar NY",
            StickerCategory::EverydayFun => "Everyday",
        }
    }
}

/// Metadata of one sticker.
#[derive(Clone, Debug)]
pub struct StickerItem {
    pub id: String,
    pub name: String,
    pub category: StickerCategory,
    pub emoji: &'static str,
    pub primary_color: [u8; 4],
    pub accent_color: [u8; 4],
}

/// What a catalog entry holds: id, name, theme, emoji, primary and accent colors.
pub type StickerView = (Seq<char>, Seq<char>, StickerCategory, Seq<char>, [u8; 4], [u8; 4]);

/// The recorded content of a sticker entry.
pub open spec fn sticker_entry(s: StickerItem) -> StickerView {
    (s.id@, s.name@, s.category, s.emoji@, s.primary_color, s.accent_color)
}

/// The built-in catalog, in display order.
pub open spec fn sticker_catalog() -> Seq<StickerView> {
    seq![
        ("pumpkin"@, "Artistic Jack-o'-Lantern"@, StickerCategory::Halloween, "🎃"@, [255u8, 140u8, 0u8, 255u8], [75u8, 0u8, 130u8, 255u8]),
        ("ghost"@, "Friendly Autumn Ghost"@, StickerCategory::Halloween, "👻"@, [240u8, 248u8, 255u8, 255u8], [148u8, 0u8, 211u8, 255u8]),
        ("bat"@, "Watercolor Night Bat"@, StickerCategory::Halloween, "🦇"@, [47u8, 79u8, 79u8, 255u8], [255u8, 215u8, 0u8, 255u8]),
        ("candy"@, "Halloween Treat Sweets"@, StickerCategory::Halloween, "🍬"@, [255u8, 105u8, 180u8, 255u8], [255u8, 140u8, 0u8, 255u8]),
        ("spider_web"@, "Silver Spider Web"@, StickerCategory::Halloween, "🕸️"@, [200u8, 200u8, 200u8, 255u8], [40u8, 40u8, 50u8, 255u8]),
        ("skull"@, "Festive Folk Skull"@, StickerCategory::Halloween, "💀"@, [245u8, 245u8, 245u8, 255u8], [20u8, 20u8, 30u8, 255u8]),
        ("xmas_tree"@, "Woodland Christmas Tree"@, StickerCategory::Christmas, "🎄"@, [34u8, 139u8, 34u8, 255u8], [255u8, 215u8, 0u8, 255u8]),
        ("santa"@, "Vintage Santa Claus"@, StickerCategory::Christmas, "🎅"@, [220u8, 20u8, 60u8, 255u8], [255u8, 255u8, 255u8, 255u8]),
        ("snowman"@, "Cozy Scarf Snowman"@, StickerCategory::Christmas, "⛄"@, [240u8, 248u8, 255u8, 255u8], [220u8, 20u8, 60u8, 255u8]),
        ("gift"@, "Festive Wrapped Gift"@, StickerCategory::Christmas, "🎁"@, [220u8, 20u8, 60u8, 255u8], [255u8, 215u8, 0u8, 255u8]),
        ("bell"@, "Golden Jingle Bells"@, StickerCategory::Christmas, "🔔"@, [255u8, 215u8, 0u8, 255u8], [220u8, 20u8, 60u8, 255u8]),
        ("snowflake"@, "Crystal Snowflake"@, StickerCategory::Christmas, "❄️"@, [173u8, 216u8, 230u8, 255u8], [255u8, 255u8, 255u8, 255u8]),
        ("candle"@, "Warm Holiday Candle"@, StickerCategory::Christmas, "🕯️"@, [255u8, 215u8, 0u8, 255u8], [200u8, 40u8, 40u8, 255u8]),
        ("eagle"@, "Majestic American Eagle"@, StickerCategory::FourthOfJuly, "🦅"@, [160u8, 82u8, 45u8, 255u8], [255u8, 215u8, 0u8, 255u8]),
        ("sparkler"@, "Festive Sparkler Wand"@, StickerCategory::FourthOfJuly, "🎆"@, [255u8, 215u8, 0u8, 255u8], [255u8, 255u8, 255u8, 255u8]),
        ("firecracker"@, "Patriotic Firecracker"@, StickerCategory::FourthOfJuly, "🧨"@, [255u8, 0u8, 0u8, 255u8], [255u8, 215u8, 0u8, 255u8]),
        ("star_glow"@, "Shining Liberty Star"@, StickerCategory::FourthOfJuly, "🌟"@, [255u8, 215u8, 0u8, 255u8], [30u8, 144u8, 255u8, 255u8]),
        ("popper"@, "Celebration Popper"@, StickerCategory::FourthOfJuly, "🎉"@, [255u8, 140u8, 0u8, 255u8], [50u8, 205u8, 50u8, 255u8]),
        ("star_gold"@, "Gold Star Rosette"@, StickerCategory::FourthOfJuly, "⭐"@, [255u8, 215u8, 0u8, 255u8], [220u8, 20u8, 60u8, 255u8]),
        ("turkey"@, "Harvest Autumn Turkey"@, StickerCategory::Thanksgiving, "🦃"@, [160u8, 82u8, 45u8, 255u8], [205u8, 133u8, 63u8, 255u8]),
        ("pie"@, "Rustic Pumpkin Pie"@, StickerCategory::Thanksgiving, "🥧"@, [244u8, 164u8, 96u8, 255u8], [210u8, 105u8, 30u8, 255u8]),
        ("autumn_leaf"@, "Golden Fall Foliage"@, StickerCategory::Thanksgiving, "🍂"@, [218u8, 112u8, 214u8, 255u8], [255u8, 69u8, 0u8, 255u8]),
        ("maple_leaf"@, "Watercolor Maple Leaf"@, StickerCategory::Thanksgiving, "🍁"@, [220u8, 60u8, 20u8, 255u8], [255u8, 140u8, 0u8, 255u8]),
        ("corn"@, "Harvest Indian Corn"@, StickerCategory::Thanksgiving, "🌽"@, [205u8, 133u8, 63u8, 255u8], [255u8, 215u8, 0u8, 255u8]),
        ("roast_leg"@, "Roast Feast Dish"@, StickerCategory::Thanksgiving, "🍗"@, [210u8, 105u8, 30u8, 255u8], [255u8, 255u8, 255u8, 255u8]),
        ("easter_bunny"@, "Fluffy Easter Bunny"@, StickerCategory::Easter, "🐰"@, [255u8, 250u8, 250u8, 255u8], [255u8, 192u8, 203u8, 255u8]),
        ("chick"@, "Hatching Spring Chick"@, StickerCategory::Easter, "🐣"@, [255u8, 255u8, 0u8, 255u8], [255u8, 140u8, 0u8, 255u8]),
        ("tulip"@, "Spring Tulip Bouquet"@, StickerCategory::Easter, "🌷"@, [255u8, 105u8, 180u8, 255u8], [34u8, 139u8, 34u8, 255u8]),
        ("butterfly"@, "Monarch Butterfly"@, StickerCategory::Easter, "🦋"@, [30u8, 144u8, 255u8, 255u8], [255u8, 20u8, 147u8, 255u8]),
        ("blossom"@, "Cherry Blossom Sprig"@, StickerCategory::Easter, "🌸"@, [255u8, 192u8, 203u8, 255u8], [255u8, 255u8, 255u8, 255u8]),
        ("egg"@, "Painted Easter Egg"@, StickerCategory::Easter, "🥚"@, [255u8, 220u8, 230u8, 255u8], [173u8, 216u8, 230u8, 255u8]),
        ("rose"@, "Lush Rose Bouquet"@, StickerCategory::Valentine, "🌹"@, [220u8, 20u8, 60u8, 255u8], [34u8, 139u8, 34u8, 255u8]),
        ("love_letter"@, "Vintage Love Letter"@, StickerCategory::Valentine, "💌"@, [255u8, 240u8, 245u8, 255u8], [220u8, 20u8, 60u8, 255u8]),
        ("red_heart"@, "Romantic Love Heart"@, StickerCategory::Valentine, "💖"@, [255u8, 20u8, 147u8, 255u8], [255u8, 105u8, 180u8, 255u8]),
        ("cupid_arrow"@, "Cupid Heart & Arrow"@, StickerCategory::Valentine, "💘"@, [255u8, 0u8, 128u8, 255u8], [255u8, 215u8, 0u8, 255u8]),
        ("sparkle_heart"@, "Shimmering Heart"@, StickerCategory::Valentine, "💖"@, [255u8, 20u8, 147u8, 255u8], [255u8, 255u8, 255u8, 255u8]),
        ("kiss"@, "Velvet Kiss Mark"@, StickerCategory::Valentine, "💋"@, [220u8, 20u8, 60u8, 255u8], [255u8, 105u8, 180u8, 255u8]),
        ("champagne"@, "Celebration Cheers Toast"@, StickerCategory::NewYear, "🥂"@, [255u8, 215u8, 0u8, 255u8], [255u8, 255u8, 255u8, 255u8]),
        ("crown"@, "Golden Royal Crown"@, StickerCategory::NewYear, "👑"@, [255u8, 215u8, 0u8, 255u8], [220u8, 20u8, 60u8, 255u8]),
        ("confetti_ball"@, "Confetti Sparkle Ball"@, StickerCategory::NewYear, "🎊"@, [255u8, 105u8, 180u8, 255u8], [50u8, 205u8, 50u8, 255u8]),
        ("party_horn"@, "New Year Horn"@, StickerCategory::NewYear, "🎉"@, [255u8, 140u8, 0u8, 255u8], [50u8, 205u8, 50u8, 255u8]),
        ("bday_cake"@, "Celebration Birthday Cake"@, StickerCategory::Birthday, "🎂"@, [255u8, 182u8, 193u8, 255u8], [255u8, 215u8, 0u8, 255u8]),
        ("cupcake"@, "Sweet Berry Cupcake"@, StickerCategory::Birthday, "🧁"@, [255u8, 105u8, 180u8, 255u8], [245u8, 222u8, 179u8, 255u8]),
        ("bday_balloon"@, "Party Balloon Bouquet"@, StickerCategory::Birthday, "🎈"@, [220u8, 20u8, 60u8, 255u8], [255u8, 215u8, 0u8, 255u8]),
        ("lollipop"@, "Rainbow Swirl Lollipop"@, StickerCategory::Birthday, "🍭"@, [255u8, 69u8, 0u8, 255u8], [255u8, 255u8, 255u8, 255u8]),
        ("bouquet"@, "Garden Flower Bouquet"@, StickerCategory::MothersAndFathersDay, "💐"@, [255u8, 105u8, 180u8, 255u8], [255u8, 215u8, 0u8, 255u8]),
        ("sunflower"@, "Golden Sunflower"@, StickerCategory::MothersAndFathersDay, "🌻"@, [255u8, 215u8, 0u8, 255u8], [139u8, 69u8, 19u8, 255u8]),
        ("trophy"@, "#1 Best Award Trophy"@, StickerCategory::MothersAndFathersDay, "🏆"@, [255u8, 215u8, 0u8, 255u8], [30u8, 144u8, 255u8, 255u8]),
        ("hibiscus"@, "Tropical Bloom"@, StickerCategory::MothersAndFathersDay, "🌺"@, [255u8, 20u8, 147u8, 255u8], [255u8, 215u8, 0u8, 255u8]),
        ("medal"@, "Golden Honor Medal"@, StickerCategory::MothersAndFathersDay, "🥇"@, [255u8, 215u8, 0u8, 255u8], [220u8, 20u8, 60u8, 255u8]),
        ("ribbon"@, "Festive Award Ribbon"@, StickerCategory::MothersAndFathersDay, "🎀"@, [255u8, 105u8, 180u8, 255u8], [255u8, 215u8, 0u8, 255u8]),
        ("dragon"@, "Auspicious Golden Dragon"@, StickerCategory::LunarNewYear, "🐉"@, [220u8, 20u8, 60u8, 255u8], [255u8, 215u8, 0u8, 255u8]),
        ("red_envelope"@, "Lucky Red Envelope"@, StickerCategory::LunarNewYear, "🧧"@, [255u8, 0u8, 0u8, 255u8], [255u8, 215u8, 0u8, 255u8]),
        ("red_lantern"@, "Silk Red Lantern"@, StickerCategory::LunarNewYear, "🏮"@, [220u8, 20u8, 60u8, 255u8], [255u8, 215u8, 0u8, 255u8]),
        ("gold_coin"@, "Fortune Gold Coin"@, StickerCategory::LunarNewYear, "🪙"@, [255u8, 215u8, 0u8, 255u8], [178u8, 34u8, 34u8, 255u8]),
        ("tangerine"@, "Prosperity Tangerine"@, StickerCategory::LunarNewYear, "🍊"@, [255u8, 140u8, 0u8, 255u8], [34u8, 139u8, 34u8, 255u8]),
        ("sun_face"@, "Radiant Sunshine"@, StickerCategory::EverydayFun, "🌞"@, [255u8, 215u8, 0u8, 255u8], [255u8, 140u8, 0u8, 255u8]),
        ("rainbow"@, "Dreamy Watercolor Rainbow"@, StickerCategory::EverydayFun, "🌈"@, [255u8, 105u8, 180u8, 255u8], [64u8, 224u8, 208u8, 255u8]),
        ("sparkles"@, "Magic Stardust Sparkles"@, StickerCategory::EverydayFun, "✨"@, [255u8, 215u8, 0u8, 255u8], [255u8, 255u8, 255u8, 255u8]),
        ("star_eyes"@, "Starstruck Smile"@, StickerCategory::EverydayFun, "🤩"@, [255u8, 215u8, 0u8, 255u8], [255u8, 69u8, 0u8, 255u8]),
        ("party_face"@, "Party Smile"@, StickerCategory::EverydayFun, "🥳"@, [255u8, 215u8, 0u8, 255u8], [138u8, 43u8, 226u8, 255u8]),
        ("heart_eyes"@, "Sweetheart Smile"@, StickerCategory::EverydayFun, "😍"@, [255u8, 215u8, 0u8, 255u8], [220u8, 20u8, 60u8, 255u8]),
    ]
}

/// Some sticker of the catalog has the theme `c`.
pub open spec fn theme_used(c: StickerCategory) -> bool {
    exists|i: int| 0 <= i < sticker_catalog().len() && (#[trigger] sticker_catalog()[i]).2 == c
}

/// The catalog: no sticker is filed under `All`, and every other theme has a sticker.
#[verifier::rlimit(100)]
pub proof fn lemma_catalog_shape()
    ensures
        forall|i: int| 0 <= i < sticker_catalog().len() ==> (#[trigger] sticker_catalog()[i]).2 != StickerCategory::All,
        forall|c: StickerCategory| c != StickerCategory::All ==> #[trigger] theme_used(c),
{
    let s = sticker_catalog();
    assert forall|c: StickerCategory| c != StickerCategory::All implies #[trigger] theme_used(c) by {
        match c {
            StickerCategory::All => {},
            StickerCategory::Christmas => { assert(s[6].2 == c); },
            StickerCategory::Halloween => { assert(s[0].2 == c); },
            StickerCategory::FourthOfJuly => { assert(s[13].2 == c); },
            StickerCategory::Thanksgiving => { assert(s[19].2 == c); },
            StickerCategory::Easter => { assert(s[25].2 == c); },
            StickerCategory::Valentine => { assert(s[31].2 == c); },
            StickerCategory::NewYear => { assert(s[37].2 == c); },
            StickerCategory::Birthday => { assert(s[41].2 == c); },
            StickerCategory::MothersAndFathersDay => { assert(s[45].2 == c); },
            StickerCategory::LunarNewYear => { assert(s[51].2 == c); },
            StickerCategory::EverydayFun => { assert(s[56].2 == c); },
        }
    }
}

/// A short fingerprint of an id: its length and its first, second and last characters.
pub open spec fn id_key(x: Seq<char>) -> int {
    x.len() * 1_000_000_000_000 + (x[0] as int) * 1_000_000 + (x[1] as int) * 1000 + (x[x.len() - 1] as int)
}

/// The catalog position whose id has the fingerprint `k` (-1 for none).
pub open spec fn catalog_position(k: int) -> int {
    if k == 7000112117110 { 0 } else if k == 5000103104116 { 1 } else if k == 3000098097116 { 2 } else if k == 5000099097121 { 3 } else if k == 10000115112098 { 4 } else if k == 5000115107108 { 5 } else if k == 9000120109101 { 6 } else if k == 5000115097097 { 7 } else if k == 7000115110110 { 8 } else if k == 4000103105116 { 9 } else if k == 4000098101108 { 10 } else if k == 9000115110101 { 11 } else if k == 6000099097101 { 12 } else if k == 5000101097101 { 13 } else if k == 8000115112114 { 14 } else if k == 11000102105114 { 15 } else if k == 9000115116119 { 16 } else if k == 6000112111114 { 17 } else if k == 9000115116100 { 18 } else if k == 6000116117121 { 19 } else if k == 3000112105101 { 20 } else if k == 11000097117102 { 21 } else if k == 10000109097102 { 22 } else if k == 4000099111110 { 23 } else if k == 9000114111103 { 24 } else if k == 12000101097121 { 25 } else if k == 5000099104107 { 26 } else if k == 5000116117112 { 27 } else if k == 9000098117121 { 28 } else if k == 7000098108109 { 29 } else if k == 3000101103103 { 30 } else if k == 4000114111101 { 31 } else if k == 11000108111114 { 32 } else if k == 9000114101116 { 33 } else if k == 11000099117119 { 34 } else if k == 13000115112116 { 35 } else if k == 4000107105115 { 36 } else if k == 9000099104101 { 37 } else if k == 5000099114110 { 38 } else if k == 13000099111108 { 39 } else if k == 10000112097110 { 40 } else if k == 9000098100101 { 41 } else if k == 7000099117101 { 42 } else if k == 12000098100110 { 43 } else if k == 8000108111112 { 44 } else if k == 7000098111116 { 45 } else if k == 9000115117114 { 46 } else if k == 6000116114121 { 47 } else if k == 8000104105115 { 48 } else if k == 5000109101108 { 49 } else if k == 6000114105110 { 50 } else if k == 6000100114110 { 51 } else if k == 12000114101101 { 52 } else if k == 11000114101110 { 53 } else if k == 9000103111110 { 54 } else if k == 9000116097101 { 55 } else if k == 8000115117101 { 56 } else if k == 7000114097119 { 57 } else if k == 8000115112115 { 58 } else if k == 9000115116115 { 59 } else if k == 10000112097101 { 60 } else if k == 10000104101115 { 61 } else { -1 }
}

/// Every catalog id is found back at its own position from its fingerprint.
#[verifier::rlimit(100)]
#[verifier::spinoff_prover]
proof fn lemma_catalog_keys()
    ensures
        forall|i: int| 0 <= i < sticker_catalog().len() ==> catalog_position(id_key(#[trigger] sticker_catalog()[i].0)) == i,
{
    assert forall|i: int| 0 <= i < sticker_catalog().len() implies catalog_position(id_key(#[trigger] sticker_catalog()[i].0)) == i by {
        if i == 0 {
            reveal_strlit("pumpkin");
            assert(sticker_catalog()[0].0 == "pumpkin"@);
        } else if i == 1 {
            reveal_strlit("ghost");
            assert(sticker_catalog()[1].0 == "ghost"@);
        } else if i == 2 {
            reveal_strlit("bat");
            assert(sticker_catalog()[2].0 == "bat"@);
        } else if i == 3 {
            reveal_strlit("candy");
            assert(sticker_catalog()[3].0 == "candy"@);
        } else if i == 4 {
            reveal_strlit("spider_web");
            assert(sticker_catalog()[4].0 == "spider_web"@);
        } else if i == 5 {
            reveal_strlit("skull");
            assert(sticker_catalog()[5].0 == "skull"@);
        } else if i == 6 {
            reveal_strlit("xmas_tree");
            assert(sticker_catalog()[6].0 == "xmas_tree"@);
        } else if i == 7 {
            reveal_strlit("santa");
            assert(sticker_catalog()[7].0 == "santa"@);
        } else if i == 8 {
            reveal_strlit("snowman");
            assert(sticker_catalog()[8].0 == "snowman"@);
        } else if i == 9 {
            reveal_strlit("gift");
            assert(sticker_catalog()[9].0 == "gift"@);
        } else if i == 10 {
            reveal_strlit("bell");
            assert(sticker_catalog()[10].0 == "bell"@);
        } else if i == 11 {
            reveal_strlit("snowflake");
            assert(sticker_catalog()[11].0 == "snowflake"@);
        } else if i == 12 {
            reveal_strlit("candle");
            assert(sticker_catalog()[12].0 == "candle"@);
        } else if i == 13 {
            reveal_strlit("eagle");
            assert(sticker_catalog()[13].0 == "eagle"@);
        } else if i == 14 {
            reveal_strlit("sparkler");
            assert(sticker_catalog()[14].0 == "sparkler"@);
        } else if i == 15 {
            reveal_strlit("firecracker");
            assert(sticker_catalog()[15].0 == "firecracker"@);
        } else if i == 16 {
            reveal_strlit("star_glow");
            assert(sticker_catalog()[16].0 == "star_glow"@);
        } else if i == 17 {
            reveal_strlit("popper");
            assert(sticker_catalog()[17].0 == "popper"@);
        } else if i == 18 {
            reveal_strlit("star_gold");
            assert(sticker_catalog()[18].0 == "star_gold"@);
        } else if i == 19 {
            reveal_strlit("turkey");
            assert(sticker_catalog()[19].0 == "turkey"@);
        } else if i == 20 {
            reveal_strlit("pie");
            assert(sticker_catalog()[20].0 == "pie"@);
        } else if i == 21 {
            reveal_strlit("autumn_leaf");
            assert(sticker_catalog()[21].0 == "autumn_leaf"@);
        } else if i == 22 {
            reveal_strlit("maple_leaf");
            assert(sticker_catalog()[22].0 == "maple_leaf"@);
        } else if i == 23 {
            reveal_strlit("corn");
            assert(sticker_catalog()[23].0 == "corn"@);
        } else if i == 24 {
            reveal_strlit("roast_leg");
            assert(sticker_catalog()[24].0 == "roast_leg"@);
        } else if i == 25 {
            reveal_strlit("easter_bunny");
            assert(sticker_catalog()[25].0 == "easter_bunny"@);
        } else if i == 26 {
            reveal_strlit("chick");
            assert(sticker_catalog()[26].0 == "chick"@);
        } else if i == 27 {
            reveal_strlit("tulip");
            assert(sticker_catalog()[27].0 == "tulip"@);
        } else if i == 28 {
            reveal_strlit("butterfly");
            assert(sticker_catalog()[28].0 == "butterfly"@);
        } else if i == 29 {
            reveal_strlit("blossom");
            assert(sticker_catalog()[29].0 == "blossom"@);
        } else if i == 30 {
            reveal_strlit("egg");
            assert(sticker_catalog()[30].0 == "egg"@);
        } else if i == 31 {
            reveal_strlit("rose");
            assert(sticker_catalog()[31].0 == "rose"@);
        } else if i == 32 {
            reveal_strlit("love_letter");
            assert(sticker_catalog()[32].0 == "love_letter"@);
        } else if i == 33 {
            reveal_strlit("red_heart");
            assert(sticker_catalog()[33].0 == "red_heart"@);
        } else if i == 34 {
            reveal_strlit("cupid_arrow");
            assert(sticker_catalog()[34].0 == "cupid_arrow"@);
        } else if i == 35 {
            reveal_strlit("sparkle_heart");
            assert(sticker_catalog()[35].0 == "sparkle_heart"@);
        } else if i == 36 {
            reveal_strlit("kiss");
            assert(sticker_catalog()[36].0 == "kiss"@);
        } else if i == 37 {
            reveal_strlit("champagne");
            assert(sticker_catalog()[37].0 == "champagne"@);
        } else if i == 38 {
            reveal_strlit("crown");
            assert(sticker_catalog()[38].0 == "crown"@);
        } else if i == 39 {
            reveal_strlit("confetti_ball");
            assert(sticker_catalog()[39].0 == "confetti_ball"@);
        } else if i == 40 {
            reveal_strlit("party_horn");
            assert(sticker_catalog()[40].0 == "party_horn"@);
        } else if i == 41 {
            reveal_strlit("bday_cake");
            assert(sticker_catalog()[41].0 == "bday_cake"@);
        } else if i == 42 {
            reveal_strlit("cupcake");
            assert(sticker_catalog()[42].0 == "cupcake"@);
        } else if i == 43 {
            reveal_strlit("bday_balloon");
            assert(sticker_catalog()[43].0 == "bday_balloon"@);
        } else if i == 44 {
            reveal_strlit("lollipop");
            assert(sticker_catalog()[44].0 == "lollipop"@);
        } else if i == 45 {
            reveal_strlit("bouquet");
            assert(sticker_catalog()[45].0 == "bouquet"@);
        } else if i == 46 {
            reveal_strlit("sunflower");
            assert(sticker_catalog()[46].0 == "sunflower"@);
        } else if i == 47 {
            reveal_strlit("trophy");
            assert(sticker_catalog()[47].0 == "trophy"@);
        } else if i == 48 {
            reveal_strlit("hibiscus");
            assert(sticker_catalog()[48].0 == "hibiscus"@);
        } else if i == 49 {
            reveal_strlit("medal");
            assert(sticker_catalog()[49].0 == "medal"@);
        } else if i == 50 {
            reveal_strlit("ribbon");
            assert(sticker_catalog()[50].0 == "ribbon"@);
        } else if i == 51 {
            reveal_strlit("dragon");
            assert(sticker_catalog()[51].0 == "dragon"@);
        } else if i == 52 {
            reveal_strlit("red_envelope");
            assert(sticker_catalog()[52].0 == "red_envelope"@);
        } else if i == 53 {
            reveal_strlit("red_lantern");
            assert(sticker_catalog()[53].0 == "red_lantern"@);
        } else if i == 54 {
            reveal_strlit("gold_coin");
            assert(sticker_catalog()[54].0 == "gold_coin"@);
        } else if i == 55 {
            reveal_strlit("tangerine");
            assert(sticker_catalog()[55].0 == "tangerine"@);
        } else if i == 56 {
            reveal_strlit("sun_face");
            assert(sticker_catalog()[56].0 == "sun_face"@);
        } else if i == 57 {
            reveal_strlit("rainbow");
            assert(sticker_catalog()[57].0 == "rainbow"@);
        } else if i == 58 {
            reveal_strlit("sparkles");
            assert(sticker_catalog()[58].0 == "sparkles"@);
        } else if i == 59 {
            reveal_strlit("star_eyes");
            assert(sticker_catalog()[59].0 == "star_eyes"@);
        } else if i == 60 {
            reveal_strlit("party_face");
            assert(sticker_catalog()[60].0 == "party_face"@);
        } else if i == 61 {
            reveal_strlit("heart_eyes");
            assert(sticker_catalog()[61].0 == "heart_eyes"@);
        }
    }
}

/// No two stickers of the catalog share an id.
pub proof fn lemma_catalog_ids_distinct()
    ensures
        forall|i: int, j: int|
            0 <= i < j < sticker_catalog().len() ==> (#[trigger] sticker_catalog()[i]).0 != (#[trigger] sticker_catalog()[j]).0,
{
    lemma_catalog_keys();
    assert forall|i: int, j: int| 0 <= i < j < sticker_catalog().len() implies (#[trigger] sticker_catalog()[i]).0 != (
    #[trigger] sticker_catalog()[j]).0 by {
        assert(catalog_position(id_key(sticker_catalog()[i].0)) == i);
        assert(catalog_position(id_key(sticker_catalog()[j].0)) == j);
    }
}

fn sticker(
    id: &str,
    name: &str,
    category: StickerCategory,
    emoji: &'static str,
    primary_color: [u8; 4],
    accent_color: [u8; 4],
) -> (s: StickerItem)
    ensures
        sticker_entry(s) == (id@, name@, category, emoji@, primary_color, accent_color),
{
    StickerItem { id: id.to_owned(), name: name.to_owned(), category, emoji, primary_color, accent_color }
}

/// The sticker catalog and the places of its image files.
pub struct StickerCatalog;

impl StickerCatalog {
    /// Every built-in sticker, in display order.
    #[verifier::rlimit(100)]
    pub fn all_stickers() -> (v: Vec<StickerItem>)
        ensures
            v@.map_values(|s: StickerItem| sticker_entry(s)) == sticker_catalog(),
    {
        let mut v: Vec<StickerItem> = Vec::new();
        v.push(sticker("pumpkin", "Artistic Jack-o'-Lantern", StickerCategory::Halloween, "🎃", [255, 140, 0, 255], [75, 0, 130, 255]));
        v.push(sticker("ghost", "Friendly Autumn Ghost", StickerCategory::Halloween, "👻", [240, 248, 255, 255], [148, 0, 211, 255]));
        v.push(sticker("bat", "Watercolor Night Bat", StickerCategory::Halloween, "🦇", [47, 79, 79, 255], [255, 215, 0, 255]));
        v.push(sticker("candy", "Halloween Treat Sweets", StickerCategory::Halloween, "🍬", [255, 105, 180, 255], [255, 140, 0, 255]));
        v.push(sticker("spider_web", "Silver Spider Web", StickerCategory::Halloween, "🕸️", [200, 200, 200, 255], [40, 40, 50, 255]));
        v.push(sticker("skull", "Festive Folk Skull", StickerCategory::Halloween, "💀", [245, 245, 245, 255], [20, 20, 30, 255]));
        v.push(sticker("xmas_tree", "Woodland Christmas Tree", StickerCategory::Christmas, "🎄", [34, 139, 34, 255], [255, 215, 0, 255]));
        v.push(sticker("santa", "Vintage Santa Claus", StickerCategory::Christmas, "🎅", [220, 20, 60, 255], [255, 255, 255, 255]));
        v.push(sticker("snowman", "Cozy Scarf Snowman", StickerCategory::Christmas, "⛄", [240, 248, 255, 255], [220, 20, 60, 255]));
        v.push(sticker("gift", "Festive Wrapped Gift", StickerCategory::Christmas, "🎁", [220, 20, 60, 255], [255, 215, 0, 255]));
        v.push(sticker("bell", "Golden Jingle Bells", StickerCategory::Christmas, "🔔", [255, 215, 0, 255], [220, 20, 60, 255]));
        v.push(sticker("snowflake", "Crystal Snowflake", StickerCategory::Christmas, "❄️", [173, 216, 230, 255], [255, 255, 255, 255]));
        v.push(sticker("candle", "Warm Holiday Candle", StickerCategory::Christmas, "🕯️", [255, 215, 0, 255], [200, 40, 40, 255]));
        v.push(sticker("eagle", "Majestic American Eagle", StickerCategory::FourthOfJuly, "🦅", [160, 82, 45, 255], [255, 215, 0, 255]));
        v.push(sticker("sparkler", "Festive Sparkler Wand", StickerCategory::FourthOfJuly, "🎆", [255, 215, 0, 255], [255, 255, 255, 255]));
        v.push(sticker("firecracker", "Patriotic Firecracker", StickerCategory::FourthOfJuly, "🧨", [255, 0, 0, 255], [255, 215, 0, 255]));
        v.push(sticker("star_glow", "Shining Liberty Star", StickerCategory::FourthOfJuly, "🌟", [255, 215, 0, 255], [30, 144, 255, 255]));
        v.push(sticker("popper", "Celebration Popper", StickerCategory::FourthOfJuly, "🎉", [255, 140, 0, 255], [50, 205, 50, 255]));
        v.push(sticker("star_gold", "Gold Star Rosette", StickerCategory::FourthOfJuly, "⭐", [255, 215, 0, 255], [220, 20, 60, 255]));
        v.push(sticker("turkey", "Harvest Autumn Turkey", StickerCategory::Thanksgiving, "🦃", [160, 82, 45, 255], [205, 133, 63, 255]));
        v.push(sticker("pie", "Rustic Pumpkin Pie", StickerCategory::Thanksgiving, "🥧", [244, 164, 96, 255], [210, 105, 30, 255]));
        v.push(sticker("autumn_leaf", "Golden Fall Foliage", StickerCategory::Thanksgiving, "🍂", [218, 112, 214, 255], [255, 69, 0, 255]));
        v.push(sticker("maple_leaf", "Watercolor Maple Leaf", StickerCategory::Thanksgiving, "🍁", [220, 60, 20, 255], [255, 140, 0, 255]));
        v.push(sticker("corn", "Harvest Indian Corn", StickerCategory::Thanksgiving, "🌽", [205, 133, 63, 255], [255, 215, 0, 255]));
        v.push(sticker("roast_leg", "Roast Feast Dish", StickerCategory::Thanksgiving, "🍗", [210, 105, 30, 255], [255, 255, 255, 255]));
        v.push(sticker("easter_bunny", "Fluffy Easter Bunny", StickerCategory::Easter, "🐰", [255, 250, 250, 255], [255, 192, 203, 255]));
        v.push(sticker("chick", "Hatching Spring Chick", StickerCategory::Easter, "🐣", [255, 255, 0, 255], [255, 140, 0, 255]));
        v.push(sticker("tulip", "Spring Tulip Bouquet", StickerCategory::Easter, "🌷", [255, 105, 180, 255], [34, 139, 34, 255]));
        v.push(sticker("butterfly", "Monarch Butterfly", StickerCategory::Easter, "🦋", [30, 144, 255, 255], [255, 20, 147, 255]));
        v.push(sticker("blossom", "Cherry Blossom Sprig", StickerCategory::Easter, "🌸", [255, 192, 203, 255], [255, 255, 255, 255]));
        v.push(sticker("egg", "Painted Easter Egg", StickerCategory::Easter, "🥚", [255, 220, 230, 255], [173, 216, 230, 255]));
        v.push(sticker("rose", "Lush Rose Bouquet", StickerCategory::Valentine, "🌹", [220, 20, 60, 255], [34, 139, 34, 255]));
        v.push(sticker("love_letter", "Vintage Love Letter", StickerCategory::Valentine, "💌", [255, 240, 245, 255], [220, 20, 60, 255]));
        v.push(sticker("red_heart", "Romantic Love Heart", StickerCategory::Valentine, "💖", [255, 20, 147, 255], [255, 105, 180, 255]));
        v.push(sticker("cupid_arrow", "Cupid Heart & Arrow", StickerCategory::Valentine, "💘", [255, 0, 128, 255], [255, 215, 0, 255]));
        v.push(sticker("sparkle_heart", "Shimmering Heart", StickerCategory::Valentine, "💖", [255, 20, 147, 255], [255, 255, 255, 255]));
        v.push(sticker("kiss", "Velvet Kiss Mark", StickerCategory::Valentine, "💋", [220, 20, 60, 255], [255, 105, 180, 255]));
        v.push(sticker("champagne", "Celebration Cheers Toast", StickerCategory::NewYear, "🥂", [255, 215, 0, 255], [255, 255, 255, 255]));
        v.push(sticker("crown", "Golden Royal Crown", StickerCategory::NewYear, "👑", [255, 215, 0, 255], [220, 20, 60, 255]));
        v.push(sticker("confetti_ball", "Confetti Sparkle Ball", StickerCategory::NewYear, "🎊", [255, 105, 180, 255], [50, 205, 50, 255]));
        v.push(sticker("party_horn", "New Year Horn", StickerCategory::NewYear, "🎉", [255, 140, 0, 255], [50, 205, 50, 255]));
        v.push(sticker("bday_cake", "Celebration Birthday Cake", StickerCategory::Birthday, "🎂", [255, 182, 193, 255], [255, 215, 0, 255]));
        v.push(sticker("cupcake", "Sweet Berry Cupcake", StickerCategory::Birthday, "🧁", [255, 105, 180, 255], [245, 222, 179, 255]));
        v.push(sticker("bday_balloon", "Party Balloon Bouquet", StickerCategory::Birthday, "🎈", [220, 20, 60, 255], [255, 215, 0, 255]));
        v.push(sticker("lollipop", "Rainbow Swirl Lollipop", StickerCategory::Birthday, "🍭", [255, 69, 0, 255], [255, 255, 255, 255]));
        v.push(sticker("bouquet", "Garden Flower Bouquet", StickerCategory::MothersAndFathersDay, "💐", [255, 105, 180, 255], [255, 215, 0, 255]));
        v.push(sticker("sunflower", "Golden Sunflower", StickerCategory::MothersAndFathersDay, "🌻", [255, 215, 0, 255], [139, 69, 19, 255]));
        v.push(sticker("trophy", "#1 Best Award Trophy", StickerCategory::MothersAndFathersDay, "🏆", [255, 215, 0, 255], [30, 144, 255, 255]));
        v.push(sticker("hibiscus", "Tropical Bloom", StickerCategory::MothersAndFathersDay, "🌺", [255, 20, 147, 255], [255, 215, 0, 255]));
        v.push(sticker("medal", "Golden Honor Medal", StickerCategory::MothersAndFathersDay, "🥇", [255, 215, 0, 255], [220, 20, 60, 255]));
        v.push(sticker("ribbon", "Festive Award Ribbon", StickerCategory::MothersAndFathersDay, "🎀", [255, 105, 180, 255], [255, 215, 0, 255]));
        v.push(sticker("dragon", "Auspicious Golden Dragon", StickerCategory::LunarNewYear, "🐉", [220, 20, 60, 255], [255, 215, 0, 255]));
        v.push(sticker("red_envelope", "Lucky Red Envelope", StickerCategory::LunarNewYear, "🧧", [255, 0, 0, 255], [255, 215, 0, 255]));
        v.push(sticker("red_lantern", "Silk Red Lantern", StickerCategory::LunarNewYear, "🏮", [220, 20, 60, 255], [255, 215, 0, 255]));
        v.push(sticker("gold_coin", "Fortune Gold Coin", StickerCategory::LunarNewYear, "🪙", [255, 215, 0, 255], [178, 34, 34, 255]));
        v.push(sticker("tangerine", "Prosperity Tangerine", StickerCategory::LunarNewYear, "🍊", [255, 140, 0, 255], [34, 139, 34, 255]));
        v.push(sticker("sun_face", "Radiant Sunshine", StickerCategory::EverydayFun, "🌞", [255, 215, 0, 255], [255, 140, 0, 255]));
        v.push(sticker("rainbow", "Dreamy Watercolor Rainbow", StickerCategory::EverydayFun, "🌈", [255, 105, 180, 255], [64, 224, 208, 255]));
        v.push(sticker("sparkles", "Magic Stardust Sparkles", StickerCategory::EverydayFun, "✨", [255, 215, 0, 255], [255, 255, 255, 255]));
        v.push(sticker("star_eyes", "Starstruck Smile", StickerCategory::EverydayFun, "🤩", [255, 215, 0, 255], [255, 69, 0, 255]));
        v.push(sticker("party_face", "Party Smile", StickerCategory::EverydayFun, "🥳", [255, 215, 0, 255], [138, 43, 226, 255]));
        v.push(sticker("heart_eyes", "Sweetheart Smile", StickerCategory::EverydayFun, "😍", [255, 215, 0, 255], [220, 20, 60, 255]));
        assert(v@.map_values(|s: StickerItem| sticker_entry(s)) =~= sticker_catalog());
        v
    }

    /// Path of a sticker's image: `<assets_dir>/stickers/<id>.png`.
    pub fn sticker_asset_path(assets_dir: &Path, sticker_id: &str) -> (p: PathBuf)
        ensures
            p == joined_path(joined_path(path_buf_of(assets_dir), "stickers"@), sticker_file_name(sticker_id@)),
    {
        let dir = join_path(assets_dir, "stickers");
        let file = sticker_file(sticker_id);
        join_path(dir.as_path(), file.as_str())
    }
}

/// A file-system path.
#[verifier::external_type_specification]
#[verifier::external_body]
pub struct ExPath(Path);

/// An owned file-system path.
#[verifier::external_type_specification]
#[verifier::external_body]
pub struct ExPathBuf(PathBuf);

/// The owned path that `Path::to_path_buf` makes of a borrowed path.
pub uninterp spec fn path_buf_of(p: &Path) -> PathBuf;

/// The path `Path::join` makes of a base path and one more component.
pub uninterp spec fn joined_path(base: PathBuf, segment: Seq<char>) -> PathBuf;

/// `Path::join`: the base path followed by one more component.
#[verifier::external_body]
fn join_path(base: &Path, segment: &str) -> (p: PathBuf)
    ensures
        p == joined_path(path_buf_of(base), segment@),
{
    base.join(segment)
}

/// `PathBuf::as_path` hands back the same path.
pub assume_specification[ PathBuf::as_path ](p: &PathBuf) -> (r: &Path)
    ensures
        path_buf_of(r) == *p,
;

/// File name of a sticker image: the id followed by `.png`.
pub open spec fn sticker_file_name(id: Seq<char>) -> Seq<char> {
    id + ".png"@
}

fn sticker_file(id: &str) -> (f: String)
    ensures
        f@ == sticker_file_name(id@),
{
    let mut f = String::new();
    push_str(&mut f, id);
    push_str(&mut f, ".png");
    f
}

} // verus!
