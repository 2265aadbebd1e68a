//! The table of languages that subtitles are looked up in: each language has
//! one code and one name.
use vstd::prelude::*;

use crate::subtitles::language_named;
use crate::text::{
    all_ascii, all_latin, ascii_lower, latin_lower, latin_lower_char, lowercase,
};

verus! {

/// A row of the table of languages: the code is two small letters, and both it
/// and the name lead to this row.
pub open spec fn leads_back(code: Seq<char>, name: Seq<char>) -> bool {
    &&& code.len() == 2
    &&& 'a' <= code[0] <= 'z'
    &&& 'a' <= code[1] <= 'z'
    &&& all_ascii(name)
    &&& language_named(code) == Some((code, name))
    &&& language_named(ascii_lower(name)) == Some((code, name))
}

/// A number by which words are told apart: from the length of a word, its
/// first two characters and its last one.
#[verifier::opaque]
spec fn mark(word: Seq<char>) -> int {
    word.len() + 100 * (word[0] as int) + 100_000 * (word[1] as int) + 100_000_000 * (
    word[word.len() - 1] as int)
}

#[verifier::spinoff_prover]
proof fn first_marks()
    ensures
        mark("en"@) == 11011010102,
        mark("eng"@) == 10311010103,
        mark("english"@) == 10411010107,
        mark("es"@) == 11511510102,
        mark("spa"@) == 9711211503,
        mark("spanish"@) == 10411211507,
        mark("espanol"@) == 10811510107,
        mark("español"@) == 10811510107,
        mark("fr"@) == 11411410202,
        mark("fre"@) == 10111410203,
        mark("fra"@) == 9711410203,
        mark("french"@) == 10411410206,
        mark("francais"@) == 11511410208,
        mark("français"@) == 11511410208,
        mark("de"@) == 10110110002,
        mark("ger"@) == 11410110303,
        mark("deu"@) == 11710110003,
        mark("german"@) == 11010110306,
        mark("deutsch"@) == 10410110007,
        mark("it"@) == 11611610502,
        mark("ita"@) == 9711610503,
        mark("italian"@) == 11011610507,
        mark("italiano"@) == 11111610508,
        mark("pt"@) == 11611611202,
        mark("por"@) == 11411111203,
        mark("portuguese"@) == 10111111210,
        mark("portugues"@) == 11511111209,
        mark("português"@) == 11511111209,
        mark("nl"@) == 10810811002,
        mark("dut"@) == 11611710003,
        mark("nld"@) == 10010811003,
        mark("dutch"@) == 10411710005,
        mark("nederlands"@) == 11510111010,
        mark("ru"@) == 11711711402,
        mark("rus"@) == 11511711403,
        mark("russian"@) == 11011711407,
        mark("ja"@) == 9709710602,
        mark("jpn"@) == 11011210603,
        mark("japanese"@) == 10109710608,
        mark("ko"@) == 11111110702,
        mark("kor"@) == 11411110703,
        mark("korean"@) == 11011110706,
        mark("zh"@) == 10410412202,
        mark("chi"@) == 10510409903,
        mark("zho"@) == 11110412203,
        mark("chinese"@) == 10110409907,
{
    reveal(mark);
    reveal_strlit("en");
    reveal_strlit("eng");
    reveal_strlit("english");
    reveal_strlit("es");
    reveal_strlit("spa");
    reveal_strlit("spanish");
    reveal_strlit("espanol");
    reveal_strlit("español");
    reveal_strlit("fr");
    reveal_strlit("fre");
    reveal_strlit("fra");
    reveal_strlit("french");
    reveal_strlit("francais");
    reveal_strlit("français");
    reveal_strlit("de");
    reveal_strlit("ger");
    reveal_strlit("deu");
    reveal_strlit("german");
    reveal_strlit("deutsch");
    reveal_strlit("it");
    reveal_strlit("ita");
    reveal_strlit("italian");
    reveal_strlit("italiano");
    reveal_strlit("pt");
    reveal_strlit("por");
    reveal_strlit("portuguese");
    reveal_strlit("portugues");
    reveal_strlit("português");
    reveal_strlit("nl");
    reveal_strlit("dut");
    reveal_strlit("nld");
    reveal_strlit("dutch");
    reveal_strlit("nederlands");
    reveal_strlit("ru");
    reveal_strlit("rus");
    reveal_strlit("russian");
    reveal_strlit("ja");
    reveal_strlit("jpn");
    reveal_strlit("japanese");
    reveal_strlit("ko");
    reveal_strlit("kor");
    reveal_strlit("korean");
    reveal_strlit("zh");
    reveal_strlit("chi");
    reveal_strlit("zho");
    reveal_strlit("chinese");
}

#[verifier::spinoff_prover]
proof fn second_marks()
    ensures
        mark("ar"@) == 11411409702,
        mark("ara"@) == 9711409703,
        mark("arabic"@) == 9911409706,
        mark("hi"@) == 10510510402,
        mark("hin"@) == 11010510403,
        mark("hindi"@) == 10510510405,
        mark("tr"@) == 11411411602,
        mark("tur"@) == 11411711603,
        mark("turkish"@) == 10411711607,
        mark("pl"@) == 10810811202,
        mark("pol"@) == 10811111203,
        mark("polish"@) == 10411111206,
        mark("sv"@) == 11811811502,
        mark("swe"@) == 10111911503,
        mark("swedish"@) == 10411911507,
        mark("da"@) == 9709710002,
        mark("dan"@) == 11009710003,
        mark("danish"@) == 10409710006,
        mark("no"@) == 11111111002,
        mark("nor"@) == 11411111003,
        mark("nob"@) == 9811111003,
        mark("norwegian"@) == 11011111009,
        mark("fi"@) == 10510510202,
        mark("fin"@) == 11010510203,
        mark("finnish"@) == 10410510207,
        mark("cs"@) == 11511509902,
        mark("cze"@) == 10112209903,
        mark("ces"@) == 11510109903,
        mark("czech"@) == 10412209905,
        mark("el"@) == 10810810102,
        mark("gre"@) == 10111410303,
        mark("ell"@) == 10810810103,
        mark("greek"@) == 10711410305,
        mark("he"@) == 10110110402,
        mark("heb"@) == 9810110403,
        mark("hebrew"@) == 11910110406,
{
    reveal(mark);
    reveal_strlit("ar");
    reveal_strlit("ara");
    reveal_strlit("arabic");
    reveal_strlit("hi");
    reveal_strlit("hin");
    reveal_strlit("hindi");
    reveal_strlit("tr");
    reveal_strlit("tur");
    reveal_strlit("turkish");
    reveal_strlit("pl");
    reveal_strlit("pol");
    reveal_strlit("polish");
    reveal_strlit("sv");
    reveal_strlit("swe");
    reveal_strlit("swedish");
    reveal_strlit("da");
    reveal_strlit("dan");
    reveal_strlit("danish");
    reveal_strlit("no");
    reveal_strlit("nor");
    reveal_strlit("nob");
    reveal_strlit("norwegian");
    reveal_strlit("fi");
    reveal_strlit("fin");
    reveal_strlit("finnish");
    reveal_strlit("cs");
    reveal_strlit("cze");
    reveal_strlit("ces");
    reveal_strlit("czech");
    reveal_strlit("el");
    reveal_strlit("gre");
    reveal_strlit("ell");
    reveal_strlit("greek");
    reveal_strlit("he");
    reveal_strlit("heb");
    reveal_strlit("hebrew");
}

#[verifier::spinoff_prover]
proof fn third_marks()
    ensures
        mark("hu"@) == 11711710402,
        mark("hun"@) == 11011710403,
        mark("hungarian"@) == 11011710409,
        mark("ro"@) == 11111111402,
        mark("rum"@) == 10911711403,
        mark("ron"@) == 11011111403,
        mark("romanian"@) == 11011111408,
        mark("uk"@) == 10710711702,
        mark("ukr"@) == 11410711703,
        mark("ukrainian"@) == 11010711709,
        mark("bg"@) == 10310309802,
        mark("bul"@) == 10811709803,
        mark("bulgarian"@) == 11011709809,
        mark("hr"@) == 11411410402,
        mark("hrv"@) == 11811410403,
        mark("croatian"@) == 11011409908,
        mark("sr"@) == 11411411502,
        mark("srp"@) == 11211411503,
        mark("serbian"@) == 11010111507,
        mark("sk"@) == 10710711502,
        mark("slo"@) == 11110811503,
        mark("slk"@) == 10710811503,
        mark("slovak"@) == 10710811506,
        mark("sl"@) == 10810811502,
        mark("slv"@) == 11810811503,
        mark("slovenian"@) == 11010811509,
        mark("th"@) == 10410411602,
        mark("tha"@) == 9710411603,
        mark("thai"@) == 10510411604,
        mark("vi"@) == 10510511802,
        mark("vie"@) == 10110511803,
        mark("vietnamese"@) == 10110511810,
        mark("id"@) == 10010010502,
        mark("ind"@) == 10011010503,
        mark("indonesian"@) == 11011010510,
{
    reveal(mark);
    reveal_strlit("hu");
    reveal_strlit("hun");
    reveal_strlit("hungarian");
    reveal_strlit("ro");
    reveal_strlit("rum");
    reveal_strlit("ron");
    reveal_strlit("romanian");
    reveal_strlit("uk");
    reveal_strlit("ukr");
    reveal_strlit("ukrainian");
    reveal_strlit("bg");
    reveal_strlit("bul");
    reveal_strlit("bulgarian");
    reveal_strlit("hr");
    reveal_strlit("hrv");
    reveal_strlit("croatian");
    reveal_strlit("sr");
    reveal_strlit("srp");
    reveal_strlit("serbian");
    reveal_strlit("sk");
    reveal_strlit("slo");
    reveal_strlit("slk");
    reveal_strlit("slovak");
    reveal_strlit("sl");
    reveal_strlit("slv");
    reveal_strlit("slovenian");
    reveal_strlit("th");
    reveal_strlit("tha");
    reveal_strlit("thai");
    reveal_strlit("vi");
    reveal_strlit("vie");
    reveal_strlit("vietnamese");
    reveal_strlit("id");
    reveal_strlit("ind");
    reveal_strlit("indonesian");
}

#[verifier::spinoff_prover]
proof fn fourth_marks()
    ensures
        mark("ms"@) == 11511510902,
        mark("may"@) == 12109710903,
        mark("msa"@) == 9711510903,
        mark("malay"@) == 12109710905,
        mark("ta"@) == 9709711602,
        mark("tam"@) == 10909711603,
        mark("tamil"@) == 10809711605,
        mark("te"@) == 10110111602,
        mark("tel"@) == 10810111603,
        mark("telugu"@) == 11710111606,
        mark("et"@) == 11611610102,
        mark("est"@) == 11611510103,
        mark("estonian"@) == 11011510108,
        mark("lv"@) == 11811810802,
        mark("lav"@) == 11809710803,
        mark("latvian"@) == 11009710807,
        mark("lt"@) == 11611610802,
        mark("lit"@) == 11610510803,
        mark("lithuanian"@) == 11010510810,
        mark("ca"@) == 9709709902,
        mark("cat"@) == 11609709903,
        mark("catalan"@) == 11009709907,
        mark("fa"@) == 9709710202,
        mark("per"@) == 11410111203,
        mark("fas"@) == 11509710203,
        mark("persian"@) == 11010111207,
        mark("farsi"@) == 10509710205,
{
    reveal(mark);
    reveal_strlit("ms");
    reveal_strlit("may");
    reveal_strlit("msa");
    reveal_strlit("malay");
    reveal_strlit("ta");
    reveal_strlit("tam");
    reveal_strlit("tamil");
    reveal_strlit("te");
    reveal_strlit("tel");
    reveal_strlit("telugu");
    reveal_strlit("et");
    reveal_strlit("est");
    reveal_strlit("estonian");
    reveal_strlit("lv");
    reveal_strlit("lav");
    reveal_strlit("latvian");
    reveal_strlit("lt");
    reveal_strlit("lit");
    reveal_strlit("lithuanian");
    reveal_strlit("ca");
    reveal_strlit("cat");
    reveal_strlit("catalan");
    reveal_strlit("fa");
    reveal_strlit("per");
    reveal_strlit("fas");
    reveal_strlit("persian");
    reveal_strlit("farsi");
}

#[verifier::spinoff_prover]
proof fn first_names()
    ensures
        "en"@.len() == 2 && 'a' <= "en"@[0] <= 'z' && 'a' <= "en"@[1] <= 'z',
        all_ascii("English"@) && ascii_lower("English"@) == "english"@,
        "es"@.len() == 2 && 'a' <= "es"@[0] <= 'z' && 'a' <= "es"@[1] <= 'z',
        all_ascii("Spanish"@) && ascii_lower("Spanish"@) == "spanish"@,
        "fr"@.len() == 2 && 'a' <= "fr"@[0] <= 'z' && 'a' <= "fr"@[1] <= 'z',
        all_ascii("French"@) && ascii_lower("French"@) == "french"@,
        "de"@.len() == 2 && 'a' <= "de"@[0] <= 'z' && 'a' <= "de"@[1] <= 'z',
        all_ascii("German"@) && ascii_lower("German"@) == "german"@,
        "it"@.len() == 2 && 'a' <= "it"@[0] <= 'z' && 'a' <= "it"@[1] <= 'z',
        all_ascii("Italian"@) && ascii_lower("Italian"@) == "italian"@,
        "pt"@.len() == 2 && 'a' <= "pt"@[0] <= 'z' && 'a' <= "pt"@[1] <= 'z',
        all_ascii("Portuguese"@) && ascii_lower("Portuguese"@) == "portuguese"@,
        "nl"@.len() == 2 && 'a' <= "nl"@[0] <= 'z' && 'a' <= "nl"@[1] <= 'z',
        all_ascii("Dutch"@) && ascii_lower("Dutch"@) == "dutch"@,
        "ru"@.len() == 2 && 'a' <= "ru"@[0] <= 'z' && 'a' <= "ru"@[1] <= 'z',
        all_ascii("Russian"@) && ascii_lower("Russian"@) == "russian"@,
        "ja"@.len() == 2 && 'a' <= "ja"@[0] <= 'z' && 'a' <= "ja"@[1] <= 'z',
        all_ascii("Japanese"@) && ascii_lower("Japanese"@) == "japanese"@,
        "ko"@.len() == 2 && 'a' <= "ko"@[0] <= 'z' && 'a' <= "ko"@[1] <= 'z',
        all_ascii("Korean"@) && ascii_lower("Korean"@) == "korean"@,
        "zh"@.len() == 2 && 'a' <= "zh"@[0] <= 'z' && 'a' <= "zh"@[1] <= 'z',
        all_ascii("Chinese"@) && ascii_lower("Chinese"@) == "chinese"@,
{
    reveal_strlit("en");
    reveal_strlit("English");
    reveal_strlit("english");
    assert(ascii_lower("English"@) =~= "english"@);
    reveal_strlit("es");
    reveal_strlit("Spanish");
    reveal_strlit("spanish");
    assert(ascii_lower("Spanish"@) =~= "spanish"@);
    reveal_strlit("fr");
    reveal_strlit("French");
    reveal_strlit("french");
    assert(ascii_lower("French"@) =~= "french"@);
    reveal_strlit("de");
    reveal_strlit("German");
    reveal_strlit("german");
    assert(ascii_lower("German"@) =~= "german"@);
    reveal_strlit("it");
    reveal_strlit("Italian");
    reveal_strlit("italian");
    assert(ascii_lower("Italian"@) =~= "italian"@);
    reveal_strlit("pt");
    reveal_strlit("Portuguese");
    reveal_strlit("portuguese");
    assert(ascii_lower("Portuguese"@) =~= "portuguese"@);
    reveal_strlit("nl");
    reveal_strlit("Dutch");
    reveal_strlit("dutch");
    assert(ascii_lower("Dutch"@) =~= "dutch"@);
    reveal_strlit("ru");
    reveal_strlit("Russian");
    reveal_strlit("russian");
    assert(ascii_lower("Russian"@) =~= "russian"@);
    reveal_strlit("ja");
    reveal_strlit("Japanese");
    reveal_strlit("japanese");
    assert(ascii_lower("Japanese"@) =~= "japanese"@);
    reveal_strlit("ko");
    reveal_strlit("Korean");
    reveal_strlit("korean");
    assert(ascii_lower("Korean"@) =~= "korean"@);
    reveal_strlit("zh");
    reveal_strlit("Chinese");
    reveal_strlit("chinese");
    assert(ascii_lower("Chinese"@) =~= "chinese"@);
}

#[verifier::spinoff_prover]
proof fn second_names()
    ensures
        "ar"@.len() == 2 && 'a' <= "ar"@[0] <= 'z' && 'a' <= "ar"@[1] <= 'z',
        all_ascii("Arabic"@) && ascii_lower("Arabic"@) == "arabic"@,
        "hi"@.len() == 2 && 'a' <= "hi"@[0] <= 'z' && 'a' <= "hi"@[1] <= 'z',
        all_ascii("Hindi"@) && ascii_lower("Hindi"@) == "hindi"@,
        "tr"@.len() == 2 && 'a' <= "tr"@[0] <= 'z' && 'a' <= "tr"@[1] <= 'z',
        all_ascii("Turkish"@) && ascii_lower("Turkish"@) == "turkish"@,
        "pl"@.len() == 2 && 'a' <= "pl"@[0] <= 'z' && 'a' <= "pl"@[1] <= 'z',
        all_ascii("Polish"@) && ascii_lower("Polish"@) == "polish"@,
        "sv"@.len() == 2 && 'a' <= "sv"@[0] <= 'z' && 'a' <= "sv"@[1] <= 'z',
        all_ascii("Swedish"@) && ascii_lower("Swedish"@) == "swedish"@,
        "da"@.len() == 2 && 'a' <= "da"@[0] <= 'z' && 'a' <= "da"@[1] <= 'z',
        all_ascii("Danish"@) && ascii_lower("Danish"@) == "danish"@,
        "no"@.len() == 2 && 'a' <= "no"@[0] <= 'z' && 'a' <= "no"@[1] <= 'z',
        all_ascii("Norwegian"@) && ascii_lower("Norwegian"@) == "norwegian"@,
        "fi"@.len() == 2 && 'a' <= "fi"@[0] <= 'z' && 'a' <= "fi"@[1] <= 'z',
        all_ascii("Finnish"@) && ascii_lower("Finnish"@) == "finnish"@,
        "cs"@.len() == 2 && 'a' <= "cs"@[0] <= 'z' && 'a' <= "cs"@[1] <= 'z',
        all_ascii("Czech"@) && ascii_lower("Czech"@) == "czech"@,
        "el"@.len() == 2 && 'a' <= "el"@[0] <= 'z' && 'a' <= "el"@[1] <= 'z',
        all_ascii("Greek"@) && ascii_lower("Greek"@) == "greek"@,
        "he"@.len() == 2 && 'a' <= "he"@[0] <= 'z' && 'a' <= "he"@[1] <= 'z',
        all_ascii("Hebrew"@) && ascii_lower("Hebrew"@) == "hebrew"@,
{
    reveal_strlit("ar");
    reveal_strlit("Arabic");
    reveal_strlit("arabic");
    assert(ascii_lower("Arabic"@) =~= "arabic"@);
    reveal_strlit("hi");
    reveal_strlit("Hindi");
    reveal_strlit("hindi");
    assert(ascii_lower("Hindi"@) =~= "hindi"@);
    reveal_strlit("tr");
    reveal_strlit("Turkish");
    reveal_strlit("turkish");
    assert(ascii_lower("Turkish"@) =~= "turkish"@);
    reveal_strlit("pl");
    reveal_strlit("Polish");
    reveal_strlit("polish");
    assert(ascii_lower("Polish"@) =~= "polish"@);
    reveal_strlit("sv");
    reveal_strlit("Swedish");
    reveal_strlit("swedish");
    assert(ascii_lower("Swedish"@) =~= "swedish"@);
    reveal_strlit("da");
    reveal_strlit("Danish");
    reveal_strlit("danish");
    assert(ascii_lower("Danish"@) =~= "danish"@);
    reveal_strlit("no");
    reveal_strlit("Norwegian");
    reveal_strlit("norwegian");
    assert(ascii_lower("Norwegian"@) =~= "norwegian"@);
    reveal_strlit("fi");
    reveal_strlit("Finnish");
    reveal_strlit("finnish");
    assert(ascii_lower("Finnish"@) =~= "finnish"@);
    reveal_strlit("cs");
    reveal_strlit("Czech");
    reveal_strlit("czech");
    assert(ascii_lower("Czech"@) =~= "czech"@);
    reveal_strlit("el");
    reveal_strlit("Greek");
    reveal_strlit("greek");
    assert(ascii_lower("Greek"@) =~= "greek"@);
    reveal_strlit("he");
    reveal_strlit("Hebrew");
    reveal_strlit("hebrew");
    assert(ascii_lower("Hebrew"@) =~= "hebrew"@);
}

#[verifier::spinoff_prover]
proof fn third_names()
    ensures
        "hu"@.len() == 2 && 'a' <= "hu"@[0] <= 'z' && 'a' <= "hu"@[1] <= 'z',
        all_ascii("Hungarian"@) && ascii_lower("Hungarian"@) == "hungarian"@,
        "ro"@.len() == 2 && 'a' <= "ro"@[0] <= 'z' && 'a' <= "ro"@[1] <= 'z',
        all_ascii("Romanian"@) && ascii_lower("Romanian"@) == "romanian"@,
        "uk"@.len() == 2 && 'a' <= "uk"@[0] <= 'z' && 'a' <= "uk"@[1] <= 'z',
        all_ascii("Ukrainian"@) && ascii_lower("Ukrainian"@) == "ukrainian"@,
        "bg"@.len() == 2 && 'a' <= "bg"@[0] <= 'z' && 'a' <= "bg"@[1] <= 'z',
        all_ascii("Bulgarian"@) && ascii_lower("Bulgarian"@) == "bulgarian"@,
        "hr"@.len() == 2 && 'a' <= "hr"@[0] <= 'z' && 'a' <= "hr"@[1] <= 'z',
        all_ascii("Croatian"@) && ascii_lower("Croatian"@) == "croatian"@,
        "sr"@.len() == 2 && 'a' <= "sr"@[0] <= 'z' && 'a' <= "sr"@[1] <= 'z',
        all_ascii("Serbian"@) && ascii_lower("Serbian"@) == "serbian"@,
        "sk"@.len() == 2 && 'a' <= "sk"@[0] <= 'z' && 'a' <= "sk"@[1] <= 'z',
        all_ascii("Slovak"@) && ascii_lower("Slovak"@) == "slovak"@,
        "sl"@.len() == 2 && 'a' <= "sl"@[0] <= 'z' && 'a' <= "sl"@[1] <= 'z',
        all_ascii("Slovenian"@) && ascii_lower("Slovenian"@) == "slovenian"@,
        "th"@.len() == 2 && 'a' <= "th"@[0] <= 'z' && 'a' <= "th"@[1] <= 'z',
        all_ascii("Thai"@) && ascii_lower("Thai"@) == "thai"@,
        "vi"@.len() == 2 && 'a' <= "vi"@[0] <= 'z' && 'a' <= "vi"@[1] <= 'z',
        all_ascii("Vietnamese"@) && ascii_lower("Vietnamese"@) == "vietnamese"@,
        "id"@.len() == 2 && 'a' <= "id"@[0] <= 'z' && 'a' <= "id"@[1] <= 'z',
        all_ascii("Indonesian"@) && ascii_lower("Indonesian"@) == "indonesian"@,
{
    reveal_strlit("hu");
    reveal_strlit("Hungarian");
    reveal_strlit("hungarian");
    assert(ascii_lower("Hungarian"@) =~= "hungarian"@);
    reveal_strlit("ro");
    reveal_strlit("Romanian");
    reveal_strlit("romanian");
    assert(ascii_lower("Romanian"@) =~= "romanian"@);
    reveal_strlit("uk");
    reveal_strlit("Ukrainian");
    reveal_strlit("ukrainian");
    assert(ascii_lower("Ukrainian"@) =~= "ukrainian"@);
    reveal_strlit("bg");
    reveal_strlit("Bulgarian");
    reveal_strlit("bulgarian");
    assert(ascii_lower("Bulgarian"@) =~= "bulgarian"@);
    reveal_strlit("hr");
    reveal_strlit("Croatian");
    reveal_strlit("croatian");
    assert(ascii_lower("Croatian"@) =~= "croatian"@);
    reveal_strlit("sr");
    reveal_strlit("Serbian");
    reveal_strlit("serbian");
    assert(ascii_lower("Serbian"@) =~= "serbian"@);
    reveal_strlit("sk");
    reveal_strlit("Slovak");
    reveal_strlit("slovak");
    assert(ascii_lower("Slovak"@) =~= "slovak"@);
    reveal_strlit("sl");
    reveal_strlit("Slovenian");
    reveal_strlit("slovenian");
    assert(ascii_lower("Slovenian"@) =~= "slovenian"@);
    reveal_strlit("th");
    reveal_strlit("Thai");
    reveal_strlit("thai");
    assert(ascii_lower("Thai"@) =~= "thai"@);
    reveal_strlit("vi");
    reveal_strlit("Vietnamese");
    reveal_strlit("vietnamese");
    assert(ascii_lower("Vietnamese"@) =~= "vietnamese"@);
    reveal_strlit("id");
    reveal_strlit("Indonesian");
    reveal_strlit("indonesian");
    assert(ascii_lower("Indonesian"@) =~= "indonesian"@);
}

#[verifier::spinoff_prover]
proof fn fourth_names()
    ensures
        "ms"@.len() == 2 && 'a' <= "ms"@[0] <= 'z' && 'a' <= "ms"@[1] <= 'z',
        all_ascii("Malay"@) && ascii_lower("Malay"@) == "malay"@,
        "ta"@.len() == 2 && 'a' <= "ta"@[0] <= 'z' && 'a' <= "ta"@[1] <= 'z',
        all_ascii("Tamil"@) && ascii_lower("Tamil"@) == "tamil"@,
        "te"@.len() == 2 && 'a' <= "te"@[0] <= 'z' && 'a' <= "te"@[1] <= 'z',
        all_ascii("Telugu"@) && ascii_lower("Telugu"@) == "telugu"@,
        "et"@.len() == 2 && 'a' <= "et"@[0] <= 'z' && 'a' <= "et"@[1] <= 'z',
        all_ascii("Estonian"@) && ascii_lower("Estonian"@) == "estonian"@,
        "lv"@.len() == 2 && 'a' <= "lv"@[0] <= 'z' && 'a' <= "lv"@[1] <= 'z',
        all_ascii("Latvian"@) && ascii_lower("Latvian"@) == "latvian"@,
        "lt"@.len() == 2 && 'a' <= "lt"@[0] <= 'z' && 'a' <= "lt"@[1] <= 'z',
        all_ascii("Lithuanian"@) && ascii_lower("Lithuanian"@) == "lithuanian"@,
        "ca"@.len() == 2 && 'a' <= "ca"@[0] <= 'z' && 'a' <= "ca"@[1] <= 'z',
        all_ascii("Catalan"@) && ascii_lower("Catalan"@) == "catalan"@,
        "fa"@.len() == 2 && 'a' <= "fa"@[0] <= 'z' && 'a' <= "fa"@[1] <= 'z',
        all_ascii("Persian"@) && ascii_lower("Persian"@) == "persian"@,
{
    reveal_strlit("ms");
    reveal_strlit("Malay");
    reveal_strlit("malay");
    assert(ascii_lower("Malay"@) =~= "malay"@);
    reveal_strlit("ta");
    reveal_strlit("Tamil");
    reveal_strlit("tamil");
    assert(ascii_lower("Tamil"@) =~= "tamil"@);
    reveal_strlit("te");
    reveal_strlit("Telugu");
    reveal_strlit("telugu");
    assert(ascii_lower("Telugu"@) =~= "telugu"@);
    reveal_strlit("et");
    reveal_strlit("Estonian");
    reveal_strlit("estonian");
    assert(ascii_lower("Estonian"@) =~= "estonian"@);
    reveal_strlit("lv");
    reveal_strlit("Latvian");
    reveal_strlit("latvian");
    assert(ascii_lower("Latvian"@) =~= "latvian"@);
    reveal_strlit("lt");
    reveal_strlit("Lithuanian");
    reveal_strlit("lithuanian");
    assert(ascii_lower("Lithuanian"@) =~= "lithuanian"@);
    reveal_strlit("ca");
    reveal_strlit("Catalan");
    reveal_strlit("catalan");
    assert(ascii_lower("Catalan"@) =~= "catalan"@);
    reveal_strlit("fa");
    reveal_strlit("Persian");
    reveal_strlit("persian");
    assert(ascii_lower("Persian"@) =~= "persian"@);
}

#[verifier::spinoff_prover]
proof fn rows_lead_back()
    ensures
        leads_back("en"@, "English"@),
        leads_back("es"@, "Spanish"@),
        leads_back("fr"@, "French"@),
        leads_back("de"@, "German"@),
        leads_back("it"@, "Italian"@),
        leads_back("pt"@, "Portuguese"@),
        leads_back("nl"@, "Dutch"@),
        leads_back("ru"@, "Russian"@),
        leads_back("ja"@, "Japanese"@),
        leads_back("ko"@, "Korean"@),
        leads_back("zh"@, "Chinese"@),
        leads_back("ar"@, "Arabic"@),
        leads_back("hi"@, "Hindi"@),
        leads_back("tr"@, "Turkish"@),
        leads_back("pl"@, "Polish"@),
        leads_back("sv"@, "Swedish"@),
        leads_back("da"@, "Danish"@),
        leads_back("no"@, "Norwegian"@),
        leads_back("fi"@, "Finnish"@),
        leads_back("cs"@, "Czech"@),
        leads_back("el"@, "Greek"@),
        leads_back("he"@, "Hebrew"@),
        leads_back("hu"@, "Hungarian"@),
        leads_back("ro"@, "Romanian"@),
        leads_back("uk"@, "Ukrainian"@),
        leads_back("bg"@, "Bulgarian"@),
        leads_back("hr"@, "Croatian"@),
        leads_back("sr"@, "Serbian"@),
        leads_back("sk"@, "Slovak"@),
        leads_back("sl"@, "Slovenian"@),
        leads_back("th"@, "Thai"@),
        leads_back("vi"@, "Vietnamese"@),
        leads_back("id"@, "Indonesian"@),
        leads_back("ms"@, "Malay"@),
        leads_back("ta"@, "Tamil"@),
        leads_back("te"@, "Telugu"@),
        leads_back("et"@, "Estonian"@),
        leads_back("lv"@, "Latvian"@),
        leads_back("lt"@, "Lithuanian"@),
        leads_back("ca"@, "Catalan"@),
        leads_back("fa"@, "Persian"@),
{
    first_marks();
    second_marks();
    third_marks();
    fourth_marks();
    first_names();
    second_names();
    third_names();
    fourth_names();
    assert(language_named("en"@) == Some(("en"@, "English"@)));
    assert(language_named("english"@) == Some(("en"@, "English"@)));
    assert(language_named("es"@) == Some(("es"@, "Spanish"@)));
    assert(language_named("spanish"@) == Some(("es"@, "Spanish"@)));
    assert(language_named("fr"@) == Some(("fr"@, "French"@)));
    assert(language_named("french"@) == Some(("fr"@, "French"@)));
    assert(language_named("de"@) == Some(("de"@, "German"@)));
    assert(language_named("german"@) == Some(("de"@, "German"@)));
    assert(language_named("it"@) == Some(("it"@, "Italian"@)));
    assert(language_named("italian"@) == Some(("it"@, "Italian"@)));
    assert(language_named("pt"@) == Some(("pt"@, "Portuguese"@)));
    assert(language_named("portuguese"@) == Some(("pt"@, "Portuguese"@)));
    assert(language_named("nl"@) == Some(("nl"@, "Dutch"@)));
    assert(language_named("dutch"@) == Some(("nl"@, "Dutch"@)));
    assert(language_named("ru"@) == Some(("ru"@, "Russian"@)));
    assert(language_named("russian"@) == Some(("ru"@, "Russian"@)));
    assert(language_named("ja"@) == Some(("ja"@, "Japanese"@)));
    assert(language_named("japanese"@) == Some(("ja"@, "Japanese"@)));
    assert(language_named("ko"@) == Some(("ko"@, "Korean"@)));
    assert(language_named("korean"@) == Some(("ko"@, "Korean"@)));
    assert(language_named("zh"@) == Some(("zh"@, "Chinese"@)));
    assert(language_named("chinese"@) == Some(("zh"@, "Chinese"@)));
    assert(language_named("ar"@) == Some(("ar"@, "Arabic"@)));
    assert(language_named("arabic"@) == Some(("ar"@, "Arabic"@)));
    assert(language_named("hi"@) == Some(("hi"@, "Hindi"@)));
    assert(language_named("hindi"@) == Some(("hi"@, "Hindi"@)));
    assert(language_named("tr"@) == Some(("tr"@, "Turkish"@)));
    assert(language_named("turkish"@) == Some(("tr"@, "Turkish"@)));
    assert(language_named("pl"@) == Some(("pl"@, "Polish"@)));
    assert(language_named("polish"@) == Some(("pl"@, "Polish"@)));
    assert(language_named("sv"@) == Some(("sv"@, "Swedish"@)));
    assert(language_named("swedish"@) == Some(("sv"@, "Swedish"@)));
    assert(language_named("da"@) == Some(("da"@, "Danish"@)));
    assert(language_named("danish"@) == Some(("da"@, "Danish"@)));
    assert(language_named("no"@) == Some(("no"@, "Norwegian"@)));
    assert(language_named("norwegian"@) == Some(("no"@, "Norwegian"@)));
    assert(language_named("fi"@) == Some(("fi"@, "Finnish"@)));
    assert(language_named("finnish"@) == Some(("fi"@, "Finnish"@)));
    assert(language_named("cs"@) == Some(("cs"@, "Czech"@)));
    assert(language_named("czech"@) == Some(("cs"@, "Czech"@)));
    assert(language_named("el"@) == Some(("el"@, "Greek"@)));
    assert(language_named("greek"@) == Some(("el"@, "Greek"@)));
    assert(language_named("he"@) == Some(("he"@, "Hebrew"@)));
    assert(language_named("hebrew"@) == Some(("he"@, "Hebrew"@)));
    assert(language_named("hu"@) == Some(("hu"@, "Hungarian"@)));
    assert(language_named("hungarian"@) == Some(("hu"@, "Hungarian"@)));
    assert(language_named("ro"@) == Some(("ro"@, "Romanian"@)));
    assert(language_named("romanian"@) == Some(("ro"@, "Romanian"@)));
    assert(language_named("uk"@) == Some(("uk"@, "Ukrainian"@)));
    assert(language_named("ukrainian"@) == Some(("uk"@, "Ukrainian"@)));
    assert(language_named("bg"@) == Some(("bg"@, "Bulgarian"@)));
    assert(language_named("bulgarian"@) == Some(("bg"@, "Bulgarian"@)));
    assert(language_named("hr"@) == Some(("hr"@, "Croatian"@)));
    assert(language_named("croatian"@) == Some(("hr"@, "Croatian"@)));
    assert(language_named("sr"@) == Some(("sr"@, "Serbian"@)));
    assert(language_named("serbian"@) == Some(("sr"@, "Serbian"@)));
    assert(language_named("sk"@) == Some(("sk"@, "Slovak"@)));
    assert(language_named("slovak"@) == Some(("sk"@, "Slovak"@)));
    assert(language_named("sl"@) == Some(("sl"@, "Slovenian"@)));
    assert(language_named("slovenian"@) == Some(("sl"@, "Slovenian"@)));
    assert(language_named("th"@) == Some(("th"@, "Thai"@)));
    assert(language_named("thai"@) == Some(("th"@, "Thai"@)));
    assert(language_named("vi"@) == Some(("vi"@, "Vietnamese"@)));
    assert(language_named("vietnamese"@) == Some(("vi"@, "Vietnamese"@)));
    assert(language_named("id"@) == Some(("id"@, "Indonesian"@)));
    assert(language_named("indonesian"@) == Some(("id"@, "Indonesian"@)));
    assert(language_named("ms"@) == Some(("ms"@, "Malay"@)));
    assert(language_named("malay"@) == Some(("ms"@, "Malay"@)));
    assert(language_named("ta"@) == Some(("ta"@, "Tamil"@)));
    assert(language_named("tamil"@) == Some(("ta"@, "Tamil"@)));
    assert(language_named("te"@) == Some(("te"@, "Telugu"@)));
    assert(language_named("telugu"@) == Some(("te"@, "Telugu"@)));
    assert(language_named("et"@) == Some(("et"@, "Estonian"@)));
    assert(language_named("estonian"@) == Some(("et"@, "Estonian"@)));
    assert(language_named("lv"@) == Some(("lv"@, "Latvian"@)));
    assert(language_named("latvian"@) == Some(("lv"@, "Latvian"@)));
    assert(language_named("lt"@) == Some(("lt"@, "Lithuanian"@)));
    assert(language_named("lithuanian"@) == Some(("lt"@, "Lithuanian"@)));
    assert(language_named("ca"@) == Some(("ca"@, "Catalan"@)));
    assert(language_named("catalan"@) == Some(("ca"@, "Catalan"@)));
    assert(language_named("fa"@) == Some(("fa"@, "Persian"@)));
    assert(language_named("persian"@) == Some(("fa"@, "Persian"@)));
}

/// A letter among the first 256 characters as a capital.
pub open spec fn latin_capital(c: char) -> char {
    if ('a' <= c && c <= 'z') || (0xe0 <= c as int && c as int <= 0xfe && c as int != 0xf7) {
        ((c as u32 - 32) as u32) as char
    } else {
        c
    }
}

/// `text` in capitals, as far as its characters are among the first 256.
pub open spec fn in_capitals(text: Seq<char>) -> Seq<char> {
    Seq::new(text.len(), |i: int| latin_capital(text[i]))
}

proof fn lowercase_is_latin(text: Seq<char>)
    requires
        all_latin(text),
    ensures
        lowercase(text) == latin_lower(text),
{
    if all_ascii(text) {
        assert forall|i: int| 0 <= i < text.len() implies ascii_lower(text)[i] == latin_lower(
            text,
        )[i] by {
            assert((text[i] as int) < 128);
        }
        assert(ascii_lower(text) =~= latin_lower(text));
    }
}

/// Each language has one code, of two small letters, and one name, whichever
/// word it is looked up by: the code and the name lead to the same language,
/// and so does the word in capitals, where it is made of the first 256
/// characters.
#[verifier::spinoff_prover]
pub proof fn language_is_one(token: Seq<char>, code: Seq<char>, name: Seq<char>)
    requires
        language_named(lowercase(token)) == Some((code, name)),
    ensures
        code.len() == 2,
        forall|i: int| 0 <= i < 2 ==> 'a' <= #[trigger] code[i] <= 'z',
        language_named(lowercase(code)) == Some((code, name)),
        language_named(lowercase(name)) == Some((code, name)),
        all_latin(token) ==> language_named(lowercase(in_capitals(token))) == Some((code, name)),
{
    rows_lead_back();
    assert(leads_back(code, name));
    assert(all_ascii(code));
    assert(ascii_lower(code) =~= code);
    if all_latin(token) {
        let capitals = in_capitals(token);
        assert forall|i: int| 0 <= i < capitals.len() implies (#[trigger] capitals[i] as int)
            < 256 by {
            assert((token[i] as int) < 256);
        }
        lowercase_is_latin(token);
        lowercase_is_latin(capitals);
        assert(latin_lower(capitals) =~= latin_lower(token)) by {
            assert forall|i: int| 0 <= i < token.len() implies latin_lower_char(
                latin_capital(#[trigger] token[i]),
            ) == latin_lower_char(token[i]) by {
                assert((token[i] as int) < 256);
            }
        }
    }
}

/// A row of ISO 639: the code of two letters, the English name, and a code of
/// three letters, for texts or for terms. Bokmål counts as Norwegian.
pub open spec fn iso_639(two: Seq<char>, name: Seq<char>, three: Seq<char>) -> bool {
    ||| two == "en"@ && name == "English"@ && (three == "eng"@)
    ||| two == "es"@ && name == "Spanish"@ && (three == "spa"@)
    ||| two == "fr"@ && name == "French"@ && (three == "fre"@ || three == "fra"@)
    ||| two == "de"@ && name == "German"@ && (three == "ger"@ || three == "deu"@)
    ||| two == "it"@ && name == "Italian"@ && (three == "ita"@)
    ||| two == "pt"@ && name == "Portuguese"@ && (three == "por"@)
    ||| two == "nl"@ && name == "Dutch"@ && (three == "dut"@ || three == "nld"@)
    ||| two == "ru"@ && name == "Russian"@ && (three == "rus"@)
    ||| two == "ja"@ && name == "Japanese"@ && (three == "jpn"@)
    ||| two == "ko"@ && name == "Korean"@ && (three == "kor"@)
    ||| two == "zh"@ && name == "Chinese"@ && (three == "chi"@ || three == "zho"@)
    ||| two == "ar"@ && name == "Arabic"@ && (three == "ara"@)
    ||| two == "hi"@ && name == "Hindi"@ && (three == "hin"@)
    ||| two == "tr"@ && name == "Turkish"@ && (three == "tur"@)
    ||| two == "pl"@ && name == "Polish"@ && (three == "pol"@)
    ||| two == "sv"@ && name == "Swedish"@ && (three == "swe"@)
    ||| two == "da"@ && name == "Danish"@ && (three == "dan"@)
    ||| two == "no"@ && name == "Norwegian"@ && (three == "nor"@ || three == "nob"@)
    ||| two == "fi"@ && name == "Finnish"@ && (three == "fin"@)
    ||| two == "cs"@ && name == "Czech"@ && (three == "cze"@ || three == "ces"@)
    ||| two == "el"@ && name == "Greek"@ && (three == "gre"@ || three == "ell"@)
    ||| two == "he"@ && name == "Hebrew"@ && (three == "heb"@)
    ||| two == "hu"@ && name == "Hungarian"@ && (three == "hun"@)
    ||| two == "ro"@ && name == "Romanian"@ && (three == "rum"@ || three == "ron"@)
    ||| two == "uk"@ && name == "Ukrainian"@ && (three == "ukr"@)
    ||| two == "bg"@ && name == "Bulgarian"@ && (three == "bul"@)
    ||| two == "hr"@ && name == "Croatian"@ && (three == "hrv"@)
    ||| two == "sr"@ && name == "Serbian"@ && (three == "srp"@)
    ||| two == "sk"@ && name == "Slovak"@ && (three == "slo"@ || three == "slk"@)
    ||| two == "sl"@ && name == "Slovenian"@ && (three == "slv"@)
    ||| two == "th"@ && name == "Thai"@ && (three == "tha"@)
    ||| two == "vi"@ && name == "Vietnamese"@ && (three == "vie"@)
    ||| two == "id"@ && name == "Indonesian"@ && (three == "ind"@)
    ||| two == "ms"@ && name == "Malay"@ && (three == "may"@ || three == "msa"@)
    ||| two == "ta"@ && name == "Tamil"@ && (three == "tam"@)
    ||| two == "te"@ && name == "Telugu"@ && (three == "tel"@)
    ||| two == "et"@ && name == "Estonian"@ && (three == "est"@)
    ||| two == "lv"@ && name == "Latvian"@ && (three == "lav"@)
    ||| two == "lt"@ && name == "Lithuanian"@ && (three == "lit"@)
    ||| two == "ca"@ && name == "Catalan"@ && (three == "cat"@)
    ||| two == "fa"@ && name == "Persian"@ && (three == "per"@ || three == "fas"@)
}

/// A word by which the speakers of a language call it, with its accents or
/// without.
pub open spec fn own_name(two: Seq<char>, word: Seq<char>) -> bool {
    ||| two == "es"@ && (word == "espanol"@ || word == "español"@)
    ||| two == "fr"@ && (word == "francais"@ || word == "français"@)
    ||| two == "de"@ && (word == "deutsch"@)
    ||| two == "it"@ && (word == "italiano"@)
    ||| two == "pt"@ && (word == "portugues"@ || word == "português"@)
    ||| two == "nl"@ && (word == "nederlands"@)
    ||| two == "fa"@ && (word == "farsi"@)
}

#[verifier::spinoff_prover]
proof fn first_threes()
    ensures
        language_named("eng"@) == Some(("en"@, "English"@)),
        language_named("spa"@) == Some(("es"@, "Spanish"@)),
        language_named("fre"@) == Some(("fr"@, "French"@)),
        language_named("fra"@) == Some(("fr"@, "French"@)),
        language_named("ger"@) == Some(("de"@, "German"@)),
        language_named("deu"@) == Some(("de"@, "German"@)),
        language_named("ita"@) == Some(("it"@, "Italian"@)),
        language_named("por"@) == Some(("pt"@, "Portuguese"@)),
        language_named("dut"@) == Some(("nl"@, "Dutch"@)),
        language_named("nld"@) == Some(("nl"@, "Dutch"@)),
        language_named("rus"@) == Some(("ru"@, "Russian"@)),
        language_named("jpn"@) == Some(("ja"@, "Japanese"@)),
        language_named("kor"@) == Some(("ko"@, "Korean"@)),
        language_named("chi"@) == Some(("zh"@, "Chinese"@)),
        language_named("zho"@) == Some(("zh"@, "Chinese"@)),
        language_named("ara"@) == Some(("ar"@, "Arabic"@)),
        language_named("hin"@) == Some(("hi"@, "Hindi"@)),
        language_named("tur"@) == Some(("tr"@, "Turkish"@)),
        language_named("pol"@) == Some(("pl"@, "Polish"@)),
        language_named("swe"@) == Some(("sv"@, "Swedish"@)),
        language_named("dan"@) == Some(("da"@, "Danish"@)),
        language_named("nor"@) == Some(("no"@, "Norwegian"@)),
        language_named("nob"@) == Some(("no"@, "Norwegian"@)),
        language_named("fin"@) == Some(("fi"@, "Finnish"@)),
        language_named("cze"@) == Some(("cs"@, "Czech"@)),
        language_named("ces"@) == Some(("cs"@, "Czech"@)),
{
    first_marks();
    second_marks();
    third_marks();
    fourth_marks();
}

#[verifier::spinoff_prover]
proof fn second_threes()
    ensures
        language_named("gre"@) == Some(("el"@, "Greek"@)),
        language_named("ell"@) == Some(("el"@, "Greek"@)),
        language_named("heb"@) == Some(("he"@, "Hebrew"@)),
        language_named("hun"@) == Some(("hu"@, "Hungarian"@)),
        language_named("rum"@) == Some(("ro"@, "Romanian"@)),
        language_named("ron"@) == Some(("ro"@, "Romanian"@)),
        language_named("ukr"@) == Some(("uk"@, "Ukrainian"@)),
        language_named("bul"@) == Some(("bg"@, "Bulgarian"@)),
        language_named("hrv"@) == Some(("hr"@, "Croatian"@)),
        language_named("srp"@) == Some(("sr"@, "Serbian"@)),
        language_named("slo"@) == Some(("sk"@, "Slovak"@)),
        language_named("slk"@) == Some(("sk"@, "Slovak"@)),
        language_named("slv"@) == Some(("sl"@, "Slovenian"@)),
        language_named("tha"@) == Some(("th"@, "Thai"@)),
        language_named("vie"@) == Some(("vi"@, "Vietnamese"@)),
        language_named("ind"@) == Some(("id"@, "Indonesian"@)),
        language_named("may"@) == Some(("ms"@, "Malay"@)),
        language_named("msa"@) == Some(("ms"@, "Malay"@)),
        language_named("tam"@) == Some(("ta"@, "Tamil"@)),
        language_named("tel"@) == Some(("te"@, "Telugu"@)),
        language_named("est"@) == Some(("et"@, "Estonian"@)),
        language_named("lav"@) == Some(("lv"@, "Latvian"@)),
        language_named("lit"@) == Some(("lt"@, "Lithuanian"@)),
        language_named("cat"@) == Some(("ca"@, "Catalan"@)),
        language_named("per"@) == Some(("fa"@, "Persian"@)),
        language_named("fas"@) == Some(("fa"@, "Persian"@)),
{
    first_marks();
    second_marks();
    third_marks();
    fourth_marks();
}

#[verifier::spinoff_prover]
proof fn own_names()
    ensures
        language_named("espanol"@) == Some(("es"@, "Spanish"@)),
        language_named("español"@) == Some(("es"@, "Spanish"@)),
        language_named("francais"@) == Some(("fr"@, "French"@)),
        language_named("français"@) == Some(("fr"@, "French"@)),
        language_named("deutsch"@) == Some(("de"@, "German"@)),
        language_named("italiano"@) == Some(("it"@, "Italian"@)),
        language_named("portugues"@) == Some(("pt"@, "Portuguese"@)),
        language_named("português"@) == Some(("pt"@, "Portuguese"@)),
        language_named("nederlands"@) == Some(("nl"@, "Dutch"@)),
        language_named("farsi"@) == Some(("fa"@, "Persian"@)),
{
    first_marks();
    second_marks();
    third_marks();
    fourth_marks();
}

/// Every code of three letters leads to its own language, and to the same as
/// the code of two letters and the English name do.
#[verifier::spinoff_prover]
pub proof fn codes_lead_to_their_language(two: Seq<char>, name: Seq<char>, three: Seq<char>)
    requires
        iso_639(two, name, three),
    ensures
        language_named(three) == Some((two, name)),
        language_named(two) == Some((two, name)),
        language_named(ascii_lower(name)) == Some((two, name)),
{
    rows_lead_back();
    first_threes();
    second_threes();
}

/// What the speakers of a language call it leads to that language.
#[verifier::spinoff_prover]
pub proof fn own_names_lead_to_their_language(two: Seq<char>, name: Seq<char>, word: Seq<char>)
    requires
        own_name(two, word),
        language_named(two) == Some((two, name)),
    ensures
        language_named(word) == Some((two, name)),
{
    rows_lead_back();
    own_names();
}

/// No other word is taken for a language.
#[verifier::spinoff_prover]
pub proof fn no_other_word_is_a_language(word: Seq<char>, two: Seq<char>, name: Seq<char>)
    requires
        language_named(word) == Some((two, name)),
    ensures
        word == two || word == ascii_lower(name) || iso_639(two, name, word) || own_name(two, word),
{
    first_names();
    second_names();
    third_names();
    fourth_names();
}

} // verus!
