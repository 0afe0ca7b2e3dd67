//! The translation component's own types: its input, its fingerprint
//! cache entries, and the structuring of a fetched translation.

use vstd::prelude::*;
use crate::error::MafaError;
use vstd::string::StringSliceAdditionalSpecFns;

pub mod opts;

pub use crate::upath::Upath;

verus! {

/// What a translation run was asked to do.
#[derive(Debug, Default)]
pub struct GtransInput {
    pub words: String,
    pub list_lang: bool,
    pub src_lang: String,
    pub tgt_lang: String,
}

/// Query words count as given whenever they are non-empty.
pub fn is_valid_words(v: &str) -> (r: bool)
    ensures
        r == (v@.len() > 0),
{
    !v.is_empty()
}

/// Is `b` one of the supported language codes?
pub open spec fn lang_ok(b: Seq<u8>) -> bool {
    ||| b == "auto".spec_bytes()
        ||| b == "af".spec_bytes()
        ||| b == "sq".spec_bytes()
        ||| b == "am".spec_bytes()
        ||| b == "ar".spec_bytes()
        ||| b == "hy".spec_bytes()
        ||| b == "as".spec_bytes()
        ||| b == "ay".spec_bytes()
        ||| b == "az".spec_bytes()
        ||| b == "bm".spec_bytes()
        ||| b == "eu".spec_bytes()
        ||| b == "be".spec_bytes()
        ||| b == "bn".spec_bytes()
        ||| b == "bho".spec_bytes()
        ||| b == "bs".spec_bytes()
        ||| b == "bg".spec_bytes()
        ||| b == "ca".spec_bytes()
        ||| b == "ceb".spec_bytes()
        ||| b == "ny".spec_bytes()
        ||| b == "zh-CN".spec_bytes()
        ||| b == "zh-TW".spec_bytes()
        ||| b == "co".spec_bytes()
        ||| b == "hr".spec_bytes()
        ||| b == "cs".spec_bytes()
        ||| b == "da".spec_bytes()
        ||| b == "dv".spec_bytes()
        ||| b == "doi".spec_bytes()
        ||| b == "nl".spec_bytes()
        ||| b == "en".spec_bytes()
        ||| b == "eo".spec_bytes()
        ||| b == "et".spec_bytes()
        ||| b == "ee".spec_bytes()
        ||| b == "tl".spec_bytes()
        ||| b == "fi".spec_bytes()
        ||| b == "fr".spec_bytes()
        ||| b == "fy".spec_bytes()
        ||| b == "gl".spec_bytes()
        ||| b == "ka".spec_bytes()
        ||| b == "de".spec_bytes()
        ||| b == "el".spec_bytes()
        ||| b == "gn".spec_bytes()
        ||| b == "gu".spec_bytes()
        ||| b == "ht".spec_bytes()
        ||| b == "ha".spec_bytes()
        ||| b == "haw".spec_bytes()
        ||| b == "iw".spec_bytes()
        ||| b == "hi".spec_bytes()
        ||| b == "hmn".spec_bytes()
        ||| b == "hu".spec_bytes()
        ||| b == "is".spec_bytes()
        ||| b == "ig".spec_bytes()
        ||| b == "ilo".spec_bytes()
        ||| b == "id".spec_bytes()
        ||| b == "ga".spec_bytes()
        ||| b == "it".spec_bytes()
        ||| b == "ja".spec_bytes()
        ||| b == "jw".spec_bytes()
        ||| b == "kn".spec_bytes()
        ||| b == "kk".spec_bytes()
        ||| b == "km".spec_bytes()
        ||| b == "rw".spec_bytes()
        ||| b == "gom".spec_bytes()
        ||| b == "ko".spec_bytes()
        ||| b == "kri".spec_bytes()
        ||| b == "ku".spec_bytes()
        ||| b == "ckb".spec_bytes()
        ||| b == "ky".spec_bytes()
        ||| b == "lo".spec_bytes()
        ||| b == "la".spec_bytes()
        ||| b == "lv".spec_bytes()
        ||| b == "ln".spec_bytes()
        ||| b == "lt".spec_bytes()
        ||| b == "lg".spec_bytes()
        ||| b == "lb".spec_bytes()
        ||| b == "mk".spec_bytes()
        ||| b == "mai".spec_bytes()
        ||| b == "mg".spec_bytes()
        ||| b == "ms".spec_bytes()
        ||| b == "ml".spec_bytes()
        ||| b == "mt".spec_bytes()
        ||| b == "mi".spec_bytes()
        ||| b == "mr".spec_bytes()
        ||| b == "mni-Mtei".spec_bytes()
        ||| b == "lus".spec_bytes()
        ||| b == "mn".spec_bytes()
        ||| b == "my".spec_bytes()
        ||| b == "ne".spec_bytes()
        ||| b == "no".spec_bytes()
        ||| b == "or".spec_bytes()
        ||| b == "om".spec_bytes()
        ||| b == "ps".spec_bytes()
        ||| b == "fa".spec_bytes()
        ||| b == "pl".spec_bytes()
        ||| b == "pt".spec_bytes()
        ||| b == "pa".spec_bytes()
        ||| b == "qu".spec_bytes()
        ||| b == "ro".spec_bytes()
        ||| b == "ru".spec_bytes()
        ||| b == "sm".spec_bytes()
        ||| b == "sa".spec_bytes()
        ||| b == "gd".spec_bytes()
        ||| b == "nso".spec_bytes()
        ||| b == "sr".spec_bytes()
        ||| b == "st".spec_bytes()
        ||| b == "sn".spec_bytes()
        ||| b == "sd".spec_bytes()
        ||| b == "si".spec_bytes()
        ||| b == "sk".spec_bytes()
        ||| b == "sl".spec_bytes()
        ||| b == "so".spec_bytes()
        ||| b == "es".spec_bytes()
        ||| b == "su".spec_bytes()
        ||| b == "sw".spec_bytes()
        ||| b == "sv".spec_bytes()
        ||| b == "tg".spec_bytes()
        ||| b == "ta".spec_bytes()
        ||| b == "tt".spec_bytes()
        ||| b == "te".spec_bytes()
        ||| b == "th".spec_bytes()
        ||| b == "ti".spec_bytes()
        ||| b == "ts".spec_bytes()
        ||| b == "tr".spec_bytes()
        ||| b == "tk".spec_bytes()
        ||| b == "ak".spec_bytes()
        ||| b == "uk".spec_bytes()
        ||| b == "ur".spec_bytes()
        ||| b == "ug".spec_bytes()
        ||| b == "uz".spec_bytes()
        ||| b == "vi".spec_bytes()
        ||| b == "cy".spec_bytes()
        ||| b == "xh".spec_bytes()
        ||| b == "yi".spec_bytes()
        ||| b == "yo".spec_bytes()
        ||| b == "zu".spec_bytes()
}

/// Checks a language code against the supported set.
pub fn is_valid_lang(lang_kind: &str) -> (r: bool)
    ensures
        r == lang_ok(lang_kind.spec_bytes()),
{
    let v = lang_kind.as_bytes();
    crate::strutil::bytes_eq(
        v,
        "auto".as_bytes(),
    ) || crate::strutil::bytes_eq(
        v,
        "af".as_bytes(),
    ) || crate::strutil::bytes_eq(
        v,
        "sq".as_bytes(),
    ) || crate::strutil::bytes_eq(
        v,
        "am".as_bytes(),
    ) || crate::strutil::bytes_eq(
        v,
        "ar".as_bytes(),
    ) || crate::strutil::bytes_eq(
        v,
        "hy".as_bytes(),
    ) || crate::strutil::bytes_eq(
        v,
        "as".as_bytes(),
    ) || crate::strutil::bytes_eq(
        v,
        "ay".as_bytes(),
    ) || crate::strutil::bytes_eq(
        v,
        "az".as_bytes(),
    ) || crate::strutil::bytes_eq(
        v,
        "bm".as_bytes(),
    ) || crate::strutil::bytes_eq(
        v,
        "eu".as_bytes(),
    ) || crate::strutil::bytes_eq(
        v,
        "be".as_bytes(),
    ) || crate::strutil::bytes_eq(
        v,
        "bn".as_bytes(),
    ) || crate::strutil::bytes_eq(
        v,
        "bho".as_bytes(),
    ) || crate::strutil::bytes_eq(
        v,
        "bs".as_bytes(),
    ) || crate::strutil::bytes_eq(
        v,
        "bg".as_bytes(),
    ) || crate::strutil::bytes_eq(
        v,
        "ca".as_bytes(),
    ) || crate::strutil::bytes_eq(
        v,
        "ceb".as_bytes(),
    ) || crate::strutil::bytes_eq(
        v,
        "ny".as_bytes(),
    ) || crate::strutil::bytes_eq(
        v,
        "zh-CN".as_bytes(),
    ) || crate::strutil::bytes_eq(
        v,
        "zh-TW".as_bytes(),
    ) || crate::strutil::bytes_eq(
        v,
        "co".as_bytes(),
    ) || crate::strutil::bytes_eq(
        v,
        "hr".as_bytes(),
    ) || crate::strutil::bytes_eq(
        v,
        "cs".as_bytes(),
    ) || crate::strutil::bytes_eq(
        v,
        "da".as_bytes(),
    ) || crate::strutil::bytes_eq(
        v,
        "dv".as_bytes(),
    ) || crate::strutil::bytes_eq(
        v,
        "doi".as_bytes(),
    ) || crate::strutil::bytes_eq(
        v,
        "nl".as_bytes(),
    ) || crate::strutil::bytes_eq(
        v,
        "en".as_bytes(),
    ) || crate::strutil::bytes_eq(
        v,
        "eo".as_bytes(),
    ) || crate::strutil::bytes_eq(
        v,
        "et".as_bytes(),
    ) || crate::strutil::bytes_eq(
        v,
        "ee".as_bytes(),
    ) || crate::strutil::bytes_eq(
        v,
        "tl".as_bytes(),
    ) || crate::strutil::bytes_eq(
        v,
        "fi".as_bytes(),
    ) || crate::strutil::bytes_eq(
        v,
        "fr".as_bytes(),
    ) || crate::strutil::bytes_eq(
        v,
        "fy".as_bytes(),
    ) || crate::strutil::bytes_eq(
        v,
        "gl".as_bytes(),
    ) || crate::strutil::bytes_eq(
        v,
        "ka".as_bytes(),
    ) || crate::strutil::bytes_eq(
        v,
        "de".as_bytes(),
    ) || crate::strutil::bytes_eq(
        v,
        "el".as_bytes(),
    ) || crate::strutil::bytes_eq(
        v,
        "gn".as_bytes(),
    ) || crate::strutil::bytes_eq(
        v,
        "gu".as_bytes(),
    ) || crate::strutil::bytes_eq(
        v,
        "ht".as_bytes(),
    ) || crate::strutil::bytes_eq(
        v,
        "ha".as_bytes(),
    ) || crate::strutil::bytes_eq(
        v,
        "haw".as_bytes(),
    ) || crate::strutil::bytes_eq(
        v,
        "iw".as_bytes(),
    ) || crate::strutil::bytes_eq(
        v,
        "hi".as_bytes(),
    ) || crate::strutil::bytes_eq(
        v,
        "hmn".as_bytes(),
    ) || crate::strutil::bytes_eq(
        v,
        "hu".as_bytes(),
    ) || crate::strutil::bytes_eq(
        v,
        "is".as_bytes(),
    ) || crate::strutil::bytes_eq(
        v,
        "ig".as_bytes(),
    ) || crate::strutil::bytes_eq(
        v,
        "ilo".as_bytes(),
    ) || crate::strutil::bytes_eq(
        v,
        "id".as_bytes(),
    ) || crate::strutil::bytes_eq(
        v,
        "ga".as_bytes(),
    ) || crate::strutil::bytes_eq(
        v,
        "it".as_bytes(),
    ) || crate::strutil::bytes_eq(
        v,
        "ja".as_bytes(),
    ) || crate::strutil::bytes_eq(
        v,
        "jw".as_bytes(),
    ) || crate::strutil::bytes_eq(
        v,
        "kn".as_bytes(),
    ) || crate::strutil::bytes_eq(
        v,
        "kk".as_bytes(),
    ) || crate::strutil::bytes_eq(
        v,
        "km".as_bytes(),
    ) || crate::strutil::bytes_eq(
        v,
        "rw".as_bytes(),
    ) || crate::strutil::bytes_eq(
        v,
        "gom".as_bytes(),
    ) || crate::strutil::bytes_eq(
        v,
        "ko".as_bytes(),
    ) || crate::strutil::bytes_eq(
        v,
        "kri".as_bytes(),
    ) || crate::strutil::bytes_eq(
        v,
        "ku".as_bytes(),
    ) || crate::strutil::bytes_eq(
        v,
        "ckb".as_bytes(),
    ) || crate::strutil::bytes_eq(
        v,
        "ky".as_bytes(),
    ) || crate::strutil::bytes_eq(
        v,
        "lo".as_bytes(),
    ) || crate::strutil::bytes_eq(
        v,
        "la".as_bytes(),
    ) || crate::strutil::bytes_eq(
        v,
        "lv".as_bytes(),
    ) || crate::strutil::bytes_eq(
        v,
        "ln".as_bytes(),
    ) || crate::strutil::bytes_eq(
        v,
        "lt".as_bytes(),
    ) || crate::strutil::bytes_eq(
        v,
        "lg".as_bytes(),
    ) || crate::strutil::bytes_eq(
        v,
        "lb".as_bytes(),
    ) || crate::strutil::bytes_eq(
        v,
        "mk".as_bytes(),
    ) || crate::strutil::bytes_eq(
        v,
        "mai".as_bytes(),
    ) || crate::strutil::bytes_eq(
        v,
        "mg".as_bytes(),
    ) || crate::strutil::bytes_eq(
        v,
        "ms".as_bytes(),
    ) || crate::strutil::bytes_eq(
        v,
        "ml".as_bytes(),
    ) || crate::strutil::bytes_eq(
        v,
        "mt".as_bytes(),
    ) || crate::strutil::bytes_eq(
        v,
        "mi".as_bytes(),
    ) || crate::strutil::bytes_eq(
        v,
        "mr".as_bytes(),
    ) || crate::strutil::bytes_eq(
        v,
        "mni-Mtei".as_bytes(),
    ) || crate::strutil::bytes_eq(
        v,
        "lus".as_bytes(),
    ) || crate::strutil::bytes_eq(
        v,
        "mn".as_bytes(),
    ) || crate::strutil::bytes_eq(
        v,
        "my".as_bytes(),
    ) || crate::strutil::bytes_eq(
        v,
        "ne".as_bytes(),
    ) || crate::strutil::bytes_eq(
        v,
        "no".as_bytes(),
    ) || crate::strutil::bytes_eq(
        v,
        "or".as_bytes(),
    ) || crate::strutil::bytes_eq(
        v,
        "om".as_bytes(),
    ) || crate::strutil::bytes_eq(
        v,
        "ps".as_bytes(),
    ) || crate::strutil::bytes_eq(
        v,
        "fa".as_bytes(),
    ) || crate::strutil::bytes_eq(
        v,
        "pl".as_bytes(),
    ) || crate::strutil::bytes_eq(
        v,
        "pt".as_bytes(),
    ) || crate::strutil::bytes_eq(
        v,
        "pa".as_bytes(),
    ) || crate::strutil::bytes_eq(
        v,
        "qu".as_bytes(),
    ) || crate::strutil::bytes_eq(
        v,
        "ro".as_bytes(),
    ) || crate::strutil::bytes_eq(
        v,
        "ru".as_bytes(),
    ) || crate::strutil::bytes_eq(
        v,
        "sm".as_bytes(),
    ) || crate::strutil::bytes_eq(
        v,
        "sa".as_bytes(),
    ) || crate::strutil::bytes_eq(
        v,
        "gd".as_bytes(),
    ) || crate::strutil::bytes_eq(
        v,
        "nso".as_bytes(),
    ) || crate::strutil::bytes_eq(
        v,
        "sr".as_bytes(),
    ) || crate::strutil::bytes_eq(
        v,
        "st".as_bytes(),
    ) || crate::strutil::bytes_eq(
        v,
        "sn".as_bytes(),
    ) || crate::strutil::bytes_eq(
        v,
        "sd".as_bytes(),
    ) || crate::strutil::bytes_eq(
        v,
        "si".as_bytes(),
    ) || crate::strutil::bytes_eq(
        v,
        "sk".as_bytes(),
    ) || crate::strutil::bytes_eq(
        v,
        "sl".as_bytes(),
    ) || crate::strutil::bytes_eq(
        v,
        "so".as_bytes(),
    ) || crate::strutil::bytes_eq(
        v,
        "es".as_bytes(),
    ) || crate::strutil::bytes_eq(
        v,
        "su".as_bytes(),
    ) || crate::strutil::bytes_eq(
        v,
        "sw".as_bytes(),
    ) || crate::strutil::bytes_eq(
        v,
        "sv".as_bytes(),
    ) || crate::strutil::bytes_eq(
        v,
        "tg".as_bytes(),
    ) || crate::strutil::bytes_eq(
        v,
        "ta".as_bytes(),
    ) || crate::strutil::bytes_eq(
        v,
        "tt".as_bytes(),
    ) || crate::strutil::bytes_eq(
        v,
        "te".as_bytes(),
    ) || crate::strutil::bytes_eq(
        v,
        "th".as_bytes(),
    ) || crate::strutil::bytes_eq(
        v,
        "ti".as_bytes(),
    ) || crate::strutil::bytes_eq(
        v,
        "ts".as_bytes(),
    ) || crate::strutil::bytes_eq(
        v,
        "tr".as_bytes(),
    ) || crate::strutil::bytes_eq(
        v,
        "tk".as_bytes(),
    ) || crate::strutil::bytes_eq(
        v,
        "ak".as_bytes(),
    ) || crate::strutil::bytes_eq(
        v,
        "uk".as_bytes(),
    ) || crate::strutil::bytes_eq(
        v,
        "ur".as_bytes(),
    ) || crate::strutil::bytes_eq(
        v,
        "ug".as_bytes(),
    ) || crate::strutil::bytes_eq(
        v,
        "uz".as_bytes(),
    ) || crate::strutil::bytes_eq(
        v,
        "vi".as_bytes(),
    ) || crate::strutil::bytes_eq(
        v,
        "cy".as_bytes(),
    ) || crate::strutil::bytes_eq(
        v,
        "xh".as_bytes(),
    ) || crate::strutil::bytes_eq(
        v,
        "yi".as_bytes(),
    ) || crate::strutil::bytes_eq(
        v,
        "yo".as_bytes(),
    ) || crate::strutil::bytes_eq(
        v,
        "zu".as_bytes(),
    )
}

/// Do words of this language separate on ASCII spaces?
pub open spec fn spc_delim(b: Seq<u8>) -> bool {
    b == "de".spec_bytes() || b == "en".spec_bytes() || b == "fr".spec_bytes() || b
        == "ru".spec_bytes()
}

/// Whether a language wraps at spaces.
pub fn is_spc_delim(lk: &str) -> (r: bool)
    ensures
        r == spc_delim(lk.spec_bytes()),
{
    let v = lk.as_bytes();
    crate::strutil::bytes_eq(v, "de".as_bytes()) || crate::strutil::bytes_eq(v, "en".as_bytes())
        || crate::strutil::bytes_eq(v, "fr".as_bytes()) || crate::strutil::bytes_eq(
        v,
        "ru".as_bytes(),
    )
}

/// The translated words, cut out of the raw evaluation result: a fetched
/// result longer than two bytes loses a leading and a trailing quote;
/// anything else yields nothing.
pub open spec fn trans_cut(b: Seq<u8>) -> Seq<u8> {
    if b.len() > 2 {
        let begi: int = if b[0] == 0x22 {
            1
        } else {
            0
        };
        let endi: int = if b[b.len() - 1] == 0x22 {
            b.len() - 1
        } else {
            0
        };
        if endi < begi {
            Seq::<u8>::empty()
        } else {
            b.subrange(begi, endi)
        }
    } else {
        Seq::<u8>::empty()
    }
}

/// One structured translation: the two languages, the original words, the
/// translated words and the (currently never filled) pronunciation.
#[derive(Debug, Default)]
pub struct GtransResult {
    pub sl: String,
    pub tl: String,
    pub orig_words: String,
    pub trans_words: String,
    pub trans_pronun: String,
}

impl GtransResult {
    /// Structures a raw translation result: both languages and the words
    /// pass through, the translated text is the result with its fetched
    /// quotes cut off, and the pronunciation stays empty.
    pub fn from_str(sl: &str, tl: &str, orig_words: &str, trans_result: &str) -> (r: Result<
        GtransResult,
        MafaError,
    >)
        ensures
            r matches Ok(g) && g.sl@ == sl@ && g.tl@ == tl@ && g.orig_words@ == orig_words@
                && g.trans_pronun@.len() == 0 && (vstd::utf8::valid_utf8(
                trans_cut(trans_result.spec_bytes()),
            ) ==> vstd::utf8::encode_utf8(g.trans_words@) == trans_cut(trans_result.spec_bytes())),
    {
        let b = trans_result.as_bytes();
        let mut begi: usize = 0;
        let mut endi: usize = 0;
        if b.len() > 2 {
            if b[0] == 0x22 {
                begi = 1;
            }
            if b[b.len() - 1] == 0x22 {
                endi = b.len() - 1;
            }
        }
        let cut: Vec<u8> = if endi < begi {
            Vec::new()
        } else {
            crate::strutil::bytes_of_range(b, begi, endi)
        };
        proof {
            assert(cut@ =~= trans_cut(trans_result.spec_bytes()));
        }
        let trans_words = match crate::strutil::bytes_to_string(cut) {
            Some(v) => v,
            None => String::new(),
        };
        Ok(
            GtransResult {
                sl: sl.to_owned(),
                tl: tl.to_owned(),
                orig_words: orig_words.to_owned(),
                trans_words,
                trans_pronun: String::new(),
            },
        )
    }
}

/// The full listing of supported languages, one `Name: code` per line.
pub fn list_all_lang() -> &'static str {
    r"All languages supported by Google Translate (<Language>: <code>):

Detect language: auto
Afrikaans: af
Albanian: sq
Amharic: am
Arabic: ar
Armenian: hy
Assamese: as
Aymara: ay
Azerbaijani: az
Bambara: bm
Basque: eu
Belarusian: be
Bengali: bn
Bhojpuri: bho
Bosnian: bs
Bulgarian: bg
Catalan: ca
Cebuano: ceb
Chichewa: ny
Chinese (Simplified): zh-CN
Chinese (Traditional): zh-TW
Corsican: co
Croatian: hr
Czech: cs
Danish: da
Dhivehi: dv
Dogri: doi
Dutch: nl
English: en
Esperanto: eo
Estonian: et
Ewe: ee
Filipino: tl
Finnish: fi
French: fr
Frisian: fy
Galician: gl
Georgian: ka
German: de
Greek: el
Guarani: gn
Gujarati: gu
Haitian Creole: ht
Hausa: ha
Hawaiian: haw
Hebrew: iw
Hindi: hi
Hmong: hmn
Hungarian: hu
Icelandic: is
Igbo: ig
Ilocano: ilo
Indonesian: id
Irish: ga
Italian: it
Japanese: ja
Javanese: jw
Kannada: kn
Kazakh: kk
Khmer: km
Kinyarwanda: rw
Konkani: gom
Korean: ko
Krio: kri
Kurdish (Kurmanji): ku
Kurdish (Sorani): ckb
Kyrgyz: ky
Lao: lo
Latin: la
Latvian: lv
Lingala: ln
Lithuanian: lt
Luganda: lg
Luxembourgish: lb
Macedonian: mk
Maithili: mai
Malagasy: mg
Malay: ms
Malayalam: ml
Maltese: mt
Maori: mi
Marathi: mr
Meiteilon (Manipuri): mni-Mtei
Mizo: lus
Mongolian: mn
Myanmar (Burmese): my
Nepali: ne
Norwegian: no
Odia (Oriya): or
Oromo: om
Pashto: ps
Persian: fa
Polish: pl
Portuguese: pt
Punjabi: pa
Quechua: qu
Romanian: ro
Russian: ru
Samoan: sm
Sanskrit: sa
Scots Gaelic: gd
Sepedi: nso
Serbian: sr
Sesotho: st
Shona: sn
Sindhi: sd
Sinhala: si
Slovak: sk
Slovenian: sl
Somali: so
Spanish: es
Sundanese: su
Swahili: sw
Swedish: sv
Tajik: tg
Tamil: ta
Tatar: tt
Telugu: te
Thai: th
Tigrinya: ti
Tsonga: ts
Turkish: tr
Turkmen: tk
Twi: ak
Ukrainian: uk
Urdu: ur
Uyghur: ug
Uzbek: uz
Vietnamese: vi
Welsh: cy
Xhosa: xh
Yiddish: yi
Yoruba: yo
Zulu: zu"
}

} // verus!
