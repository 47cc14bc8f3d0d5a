//! Fixed lookup tables from the site's vocabulary to codes and canonical values.
use vstd::prelude::*;
use crate::text::str_eq;

verus! {

/// The site's identifier of a genre, by its display name; unknown names
/// give the empty identifier.
pub open spec fn tag_id_of(name: Seq<char>) -> Seq<char> {
    if name == "Action"@ {
        "1"@
    } else if name == "Adult"@ {
        "2"@
    } else if name == "Adventure"@ {
        "3"@
    } else if name == "Anime"@ {
        "4"@
    } else if name == "Chuyển Sinh"@ {
        "5"@
    } else if name == "Comedy"@ {
        "6"@
    } else if name == "Comic"@ {
        "7"@
    } else if name == "Cooking"@ {
        "8"@
    } else if name == "Cổ Đại"@ {
        "9"@
    } else if name == "Doujinshi"@ {
        "10"@
    } else if name == "Drama"@ {
        "11"@
    } else if name == "Đam Mỹ"@ {
        "12"@
    } else if name == "Ecchi"@ {
        "13"@
    } else if name == "Fantasy"@ {
        "14"@
    } else if name == "Gender Bender"@ {
        "15"@
    } else if name == "Harem"@ {
        "16"@
    } else if name == "Lịch sử"@ {
        "17"@
    } else if name == "Horror"@ {
        "18"@
    } else if name == "Josei"@ {
        "20"@
    } else if name == "Live action"@ {
        "21"@
    } else if name == "Manga"@ {
        "23"@
    } else if name == "Manhua"@ {
        "24"@
    } else if name == "Manhwa"@ {
        "25"@
    } else if name == "Martial Arts"@ {
        "26"@
    } else if name == "Mature"@ {
        "27"@
    } else if name == "Mecha"@ {
        "28"@
    } else if name == "Mystery"@ {
        "30"@
    } else if name == "Ngôn Tình"@ {
        "32"@
    } else if name == "One shot"@ {
        "33"@
    } else if name == "Psychological"@ {
        "34"@
    } else if name == "Romance"@ {
        "35"@
    } else if name == "School Life"@ {
        "36"@
    } else if name == "Sci-fi"@ {
        "37"@
    } else if name == "Seinen"@ {
        "38"@
    } else if name == "Shoujo"@ {
        "39"@
    } else if name == "Shoujo Ai"@ {
        "40"@
    } else if name == "Shounen"@ {
        "41"@
    } else if name == "Shounen Ai"@ {
        "42"@
    } else if name == "Slice of Life"@ {
        "43"@
    } else if name == "Smut"@ {
        "44"@
    } else if name == "Soft Yaoi"@ {
        "45"@
    } else if name == "Soft Yuri"@ {
        "46"@
    } else if name == "Sports"@ {
        "47"@
    } else if name == "Supernatural"@ {
        "48"@
    } else if name == "Thiếu Nhi"@ {
        "49"@
    } else if name == "Tragedy"@ {
        "50"@
    } else if name == "Trinh Thám"@ {
        "51"@
    } else if name == "Truyện scan"@ {
        "52"@
    } else if name == "Truyện Màu"@ {
        "53"@
    } else if name == "Việt Nam"@ {
        "54"@
    } else if name == "Webtoon"@ {
        "55"@
    } else if name == "Xuyên Không"@ {
        "56"@
    } else {
        Seq::empty()
    }
}

/// Looks up the site's identifier of a genre by its display name.
pub fn get_tag_id(name: &str) -> (r: String)
    ensures
        r@ == tag_id_of(name@),
{
    let id: &str = if str_eq(name, "Action") {
        "1"
    } else if str_eq(name, "Adult") {
        "2"
    } else if str_eq(name, "Adventure") {
        "3"
    } else if str_eq(name, "Anime") {
        "4"
    } else if str_eq(name, "Chuyển Sinh") {
        "5"
    } else if str_eq(name, "Comedy") {
        "6"
    } else if str_eq(name, "Comic") {
        "7"
    } else if str_eq(name, "Cooking") {
        "8"
    } else if str_eq(name, "Cổ Đại") {
        "9"
    } else if str_eq(name, "Doujinshi") {
        "10"
    } else if str_eq(name, "Drama") {
        "11"
    } else if str_eq(name, "Đam Mỹ") {
        "12"
    } else if str_eq(name, "Ecchi") {
        "13"
    } else if str_eq(name, "Fantasy") {
        "14"
    } else if str_eq(name, "Gender Bender") {
        "15"
    } else if str_eq(name, "Harem") {
        "16"
    } else if str_eq(name, "Lịch sử") {
        "17"
    } else if str_eq(name, "Horror") {
        "18"
    } else if str_eq(name, "Josei") {
        "20"
    } else if str_eq(name, "Live action") {
        "21"
    } else if str_eq(name, "Manga") {
        "23"
    } else if str_eq(name, "Manhua") {
        "24"
    } else if str_eq(name, "Manhwa") {
        "25"
    } else if str_eq(name, "Martial Arts") {
        "26"
    } else if str_eq(name, "Mature") {
        "27"
    } else if str_eq(name, "Mecha") {
        "28"
    } else if str_eq(name, "Mystery") {
        "30"
    } else if str_eq(name, "Ngôn Tình") {
        "32"
    } else if str_eq(name, "One shot") {
        "33"
    } else if str_eq(name, "Psychological") {
        "34"
    } else if str_eq(name, "Romance") {
        "35"
    } else if str_eq(name, "School Life") {
        "36"
    } else if str_eq(name, "Sci-fi") {
        "37"
    } else if str_eq(name, "Seinen") {
        "38"
    } else if str_eq(name, "Shoujo") {
        "39"
    } else if str_eq(name, "Shoujo Ai") {
        "40"
    } else if str_eq(name, "Shounen") {
        "41"
    } else if str_eq(name, "Shounen Ai") {
        "42"
    } else if str_eq(name, "Slice of Life") {
        "43"
    } else if str_eq(name, "Smut") {
        "44"
    } else if str_eq(name, "Soft Yaoi") {
        "45"
    } else if str_eq(name, "Soft Yuri") {
        "46"
    } else if str_eq(name, "Sports") {
        "47"
    } else if str_eq(name, "Supernatural") {
        "48"
    } else if str_eq(name, "Thiếu Nhi") {
        "49"
    } else if str_eq(name, "Tragedy") {
        "50"
    } else if str_eq(name, "Trinh Thám") {
        "51"
    } else if str_eq(name, "Truyện scan") {
        "52"
    } else if str_eq(name, "Truyện Màu") {
        "53"
    } else if str_eq(name, "Việt Nam") {
        "54"
    } else if str_eq(name, "Webtoon") {
        "55"
    } else if str_eq(name, "Xuyên Không") {
        "56"
    } else {
        ""
    };
    proof {
        reveal_strlit("");
    }
    id.to_owned()
}

/// The minimum chapter count chosen by an ordinal; out-of-range ordinals give 1.
pub open spec fn chapter_threshold_of(ordinal: int) -> int {
    if ordinal == 1 {
        50
    } else if ordinal == 2 {
        100
    } else if ordinal == 3 {
        200
    } else if ordinal == 4 {
        300
    } else if ordinal == 5 {
        400
    } else if ordinal == 6 {
        500
    } else {
        1
    }
}

/// Maps a chapter-count ordinal to its minimum chapter count.
pub fn chapter_threshold(ordinal: i64) -> (r: i32)
    ensures
        r == chapter_threshold_of(ordinal as int),
{
    match ordinal {
        1 => 50,
        2 => 100,
        3 => 200,
        4 => 300,
        5 => 400,
        6 => 500,
        _ => 1,
    }
}

/// The site's sort code chosen by an ordinal: new chapters, new titles, most
/// viewed overall, this month, this week and today, most followed, most
/// commented, most chapters, alphabetical. Out-of-range ordinals give the
/// code of new chapters.
pub open spec fn sort_code_of(ordinal: int) -> int {
    if ordinal == 1 {
        15
    } else if ordinal == 2 {
        10
    } else if ordinal == 3 {
        11
    } else if ordinal == 4 {
        12
    } else if ordinal == 5 {
        13
    } else if ordinal == 6 {
        20
    } else if ordinal == 7 {
        25
    } else if ordinal == 8 {
        30
    } else if ordinal == 9 {
        5
    } else {
        0
    }
}

/// Maps a sort-order ordinal to the site's sort code.
pub fn sort_code(ordinal: i64) -> (r: i32)
    ensures
        r == sort_code_of(ordinal as int),
{
    match ordinal {
        1 => 15,
        2 => 10,
        3 => 11,
        4 => 12,
        5 => 13,
        6 => 20,
        7 => 25,
        8 => 30,
        9 => 5,
        _ => 0,
    }
}

/// Publication status in the host's vocabulary.
#[derive(Clone, Copy, Debug, PartialEq, Eq, Structural)]
pub enum MangaStatus {
    Unknown,
    Ongoing,
    Completed,
}

/// The status that a status text on the site stands for.
pub open spec fn status_of(status: Seq<char>) -> MangaStatus {
    if status == "Đang tiến hành"@ {
        MangaStatus::Ongoing
    } else if status == "Hoàn thành"@ {
        MangaStatus::Completed
    } else {
        MangaStatus::Unknown
    }
}

/// Maps a status text of the site to the host's status; other texts give
/// `Unknown`.
pub fn status_map(status: &str) -> (r: MangaStatus)
    ensures
        r == status_of(status@),
{
    if str_eq(status, "Đang tiến hành") {
        MangaStatus::Ongoing
    } else if str_eq(status, "Hoàn thành") {
        MangaStatus::Completed
    } else {
        MangaStatus::Unknown
    }
}

/// The path segment of a named listing; other names give the empty segment,
/// the whole catalog.
pub open spec fn listing_path_of(listing: Seq<char>) -> Seq<char> {
    if listing == "Truyện con gái"@ {
        "truyen-con-gai"@
    } else if listing == "Truyện con trai"@ {
        "truyen-con-trai"@
    } else if listing == "Hot"@ {
        "hot"@
    } else {
        Seq::empty()
    }
}

/// Maps a listing name to the site's path segment for it.
pub fn listing_map(listing: &str) -> (r: String)
    ensures
        r@ == listing_path_of(listing@),
{
    let path: &str = if str_eq(listing, "Truyện con gái") {
        "truyen-con-gai"
    } else if str_eq(listing, "Truyện con trai") {
        "truyen-con-trai"
    } else if str_eq(listing, "Hot") {
        "hot"
    } else {
        ""
    };
    proof {
        reveal_strlit("");
    }
    path.to_owned()
}

} // verus!
