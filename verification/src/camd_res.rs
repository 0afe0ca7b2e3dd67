//! Structuring one fetched dictionary page's raw text.
//!
//! The page text arrives as blocks fenced by six-underscore sentinels; each
//! block splits on literal `\n` escape pairs into lines. A block whose
//! lines carry the word-list marker is an explanation block — its meanings
//! end in a colon and collect the usage lines under them; a block headed by
//! the examples banner collects usage/source line pairs instead. Blocks
//! that fit neither shape are dropped.

use vstd::prelude::*;
use crate::error::MafaError;
use crate::strutil::{contains_bytes, contains_seq, is_match_at};
use vstd::string::StringSliceAdditionalSpecFns;

verus! {

/// One meaning with its note and usage lines.
#[derive(Debug, Default, PartialEq)]
pub struct Expl {
    pub nv_cate: Option<String>,
    pub meaning: String,
    pub usages: Vec<String>,
}

/// One explanation block: dictionary level flags, pronunciation line, and
/// the meanings.
#[derive(Debug, Default, PartialEq)]
pub struct DefaultExpl {
    pub is_interme: bool,
    pub is_busi: bool,
    pub pronun: String,
    pub expls: Vec<Expl>,
}

/// One usage/source pair from the examples block.
#[derive(Debug, Default, PartialEq)]
pub struct Examp {
    pub usage: String,
    pub from: String,
}

/// The examples block.
#[derive(Debug, Default, PartialEq)]
pub struct RealExamp(pub Vec<Examp>);

/// One recognised block: an explanation block with its raw text, or the
/// examples block.
#[derive(Debug, PartialEq)]
pub enum LevelExpained {
    DefaultKind(DefaultExpl, String),
    RealExampKind(RealExamp),
}

/// The whole structured result: the queried word and its blocks.
#[derive(Debug, Default, PartialEq)]
pub struct CamdResult(pub String, pub Vec<LevelExpained>);

/// A meaning line ends in a colon.
pub open spec fn is_meaning_line(l: Seq<u8>) -> bool {
    l.len() > 0 && l[l.len() - 1] == 0x3a
}

/// End of the run of `/`, space or capital-letter bytes starting at `q`.
pub open spec fn caps_run_end(l: Seq<u8>, q: int) -> int
    decreases l.len() - q + 1,
{
    if 0 <= q < l.len() && (l[q] == 0x2f || l[q] == 0x20 || (0x41 <= l[q] <= 0x5a)) {
        caps_run_end(l, q + 1)
    } else {
        q
    }
}

/// A parenthesised capital run: `(` then at least one `/`, space or
/// capital, then `)`.
pub open spec fn caps_group_at(l: Seq<u8>, q: int) -> bool {
    0 <= q < l.len() && l[q] == 0x28 && caps_run_end(l, q + 1) > q + 1 && caps_run_end(l, q + 1)
        < l.len() && l[caps_run_end(l, q + 1)] == 0x29
}

/// A word-class tag right after the word: ` noun ` or ` verb `, an
/// optional `[X] ` letter tag, then a parenthesised capital run.
pub open spec fn nv_tail_at(l: Seq<u8>, q: int, ) -> bool {
    (is_match_at(l, " noun (".spec_bytes(), q) && caps_group_at(l, q + 6)) || (is_match_at(
        l,
        " verb (".spec_bytes(),
        q,
    ) && caps_group_at(l, q + 6)) || (is_match_at(l, " noun ".spec_bytes(), q) && letter_tag_at(
        l,
        q + 6,
    )) || (is_match_at(l, " verb ".spec_bytes(), q) && letter_tag_at(l, q + 6))
}

/// A `[X] (..)` tag with X one of the countability letters.
pub open spec fn letter_tag_at(l: Seq<u8>, q: int) -> bool {
    0 <= q && q + 4 <= l.len() && l[q] == 0x5b && (l[q + 1] == 0x43 || l[q + 1] == 0x55 || l[q + 1]
        == 0x53 || l[q + 1] == 0x54 || l[q + 1] == 0x49) && l[q + 2] == 0x5d && l[q + 3] == 0x20
        && caps_group_at(l, q + 4)
}

/// The line tags the word with a word class somewhere.
pub open spec fn is_nv_cate_line(l: Seq<u8>, word: Seq<u8>) -> bool {
    exists|p: int| is_match_at(l, word, p) && nv_tail_at(l, p + word.len())
}

/// The line looks like a pronunciation: it opens with `US`, or carries a
/// `K` followed by spaces and a slash-fenced stretch.
pub open spec fn is_pronu_line(l: Seq<u8>) -> bool {
    (l.len() >= 2 && l[0] == 0x55 && l[1] == 0x53) || (exists|p: int|
        k_slashes_at(l, p))
}

/// End of the run of spaces starting at `q`.
pub open spec fn spaces_end(l: Seq<u8>, q: int) -> int
    decreases l.len() - q + 1,
{
    if 0 <= q < l.len() && l[q] == 0x20 {
        spaces_end(l, q + 1)
    } else {
        q
    }
}

/// `K`, spaces, a slash, then a later slash with no newline between.
pub open spec fn k_slashes_at(l: Seq<u8>, p: int) -> bool {
    0 <= p < l.len() && l[p] == 0x4b && ({
        let q = spaces_end(l, p + 1);
        q < l.len() && l[q] == 0x2f && exists|e: int|
            q < e < l.len() && l[e] == 0x2f && forall|j: int| q < j < e ==> #[trigger] l[j] != 0x0a
    })
}

/// A usage line: carries the word, then anything short of a newline up to
/// a closing `.`, `"`, `?` or `!` at the line's end.
pub open spec fn usage_match(l: Seq<u8>, word: Seq<u8>) -> bool {
    l.len() >= 1 && (l[l.len() - 1] == 0x2e || l[l.len() - 1] == 0x22 || l[l.len() - 1] == 0x3f
        || l[l.len() - 1] == 0x21) && exists|p: int|
        #![trigger is_match_at(l, word, p)]
        is_match_at(l, word, p) && p + word.len() <= l.len() - 1 && forall|j: int|
            p + word.len() <= j < l.len() - 1 ==> #[trigger] l[j] != 0x0a
}

// -- executable classifiers --

fn check_meaning(l: &[u8]) -> (r: bool)
    ensures
        r == is_meaning_line(l@),
{
    l.len() > 0 && l[l.len() - 1] == 0x3a
}

fn caps_run_end_exec(l: &[u8], q: usize) -> (r: usize)
    requires
        q <= l@.len(),
    ensures
        r == caps_run_end(l@, q as int),
        q <= r <= l@.len(),
    decreases l@.len() - q,
{
    if q < l.len() && (l[q] == 0x2f || l[q] == 0x20 || (0x41 <= l[q] && l[q] <= 0x5a)) {
        caps_run_end_exec(l, q + 1)
    } else {
        q
    }
}

fn check_caps_group(l: &[u8], q: usize) -> (r: bool)
    ensures
        r == caps_group_at(l@, q as int),
{
    if q < l.len() && l[q] == 0x28 {
        let e = caps_run_end_exec(l, q + 1);
        e > q + 1 && e < l.len() && l[e] == 0x29
    } else {
        false
    }
}

fn check_letter_tag(l: &[u8], q: usize) -> (r: bool)
    requires
        q <= l@.len(),
    ensures
        r == letter_tag_at(l@, q as int),
{
    if l.len() - q >= 4 && l[q] == 0x5b && (l[q + 1] == 0x43 || l[q + 1] == 0x55 || l[q + 1]
        == 0x53 || l[q + 1] == 0x54 || l[q + 1] == 0x49) && l[q + 2] == 0x5d && l[q + 3] == 0x20 {
        check_caps_group(l, q + 4)
    } else {
        false
    }
}

fn check_nv_tail(l: &[u8], q: usize) -> (r: bool)
    requires
        q <= l@.len(),
    ensures
        r == nv_tail_at(l@, q as int),
{
    proof {
        reveal_strlit(" noun (");
        reveal_strlit(" verb (");
        reveal_strlit(" noun ");
        reveal_strlit(" verb ");
        crate::strutil::lemma_ascii_literal(" noun (");
        crate::strutil::lemma_ascii_literal(" verb (");
        crate::strutil::lemma_ascii_literal(" noun ");
        crate::strutil::lemma_ascii_literal(" verb ");
    }
    let n = l.len();
    if n - q >= 7 && crate::strutil::match_at(l, " noun (".as_bytes(), q) && check_caps_group(
        l,
        q + 6,
    ) {
        return true;
    }
    if n - q >= 7 && crate::strutil::match_at(l, " verb (".as_bytes(), q) && check_caps_group(
        l,
        q + 6,
    ) {
        return true;
    }
    if n - q >= 6 && crate::strutil::match_at(l, " noun ".as_bytes(), q) && check_letter_tag(
        l,
        q + 6,
    ) {
        return true;
    }
    if n - q >= 6 && crate::strutil::match_at(l, " verb ".as_bytes(), q) && check_letter_tag(
        l,
        q + 6,
    ) {
        return true;
    }
    false
}

fn check_nv_cate(l: &[u8], word: &[u8]) -> (r: bool)
    ensures
        r == is_nv_cate_line(l@, word@),
{
    let n = l.len();
    let w = word.len();
    if w > n {
        proof {
            assert(forall|p: int| !(is_match_at(l@, word@, p) && nv_tail_at(l@, p + word@.len())));
        }
        return false;
    }
    let last = n - w;
    let mut p: usize = 0;
    while p < last
        invariant
            0 <= p <= last,
            last == l@.len() - word@.len(),
            w == word@.len(),
            n == l@.len(),
            w <= n,
            forall|p2: int|
                0 <= p2 < p ==> !(is_match_at(l@, word@, p2) && nv_tail_at(l@, p2 + word@.len())),
        decreases last - p,
    {
        if crate::strutil::match_at(l, word, p) && check_nv_tail(l, p + w) {
            proof {
                assert(is_match_at(l@, word@, p as int) && nv_tail_at(l@, p + word@.len()));
            }
            return true;
        }
        p = p + 1;
    }
    if crate::strutil::match_at(l, word, last) && check_nv_tail(l, n) {
        proof {
            assert(is_match_at(l@, word@, last as int) && nv_tail_at(l@, last + word@.len()));
        }
        return true;
    }
    proof {
        assert(forall|p2: int| p2 > last ==> !is_match_at(l@, word@, p2));
        assert(forall|p2: int| p2 < 0 ==> !is_match_at(l@, word@, p2));
    }
    false
}

fn spaces_end_exec(l: &[u8], q: usize) -> (r: usize)
    requires
        q <= l@.len(),
    ensures
        r == spaces_end(l@, q as int),
        q <= r <= l@.len(),
    decreases l@.len() - q,
{
    if q < l.len() && l[q] == 0x20 {
        spaces_end_exec(l, q + 1)
    } else {
        q
    }
}

fn check_k_slashes_at(l: &[u8], p: usize) -> (r: bool)
    requires
        p < l@.len(),
    ensures
        r == k_slashes_at(l@, p as int),
{
    if l[p] != 0x4b {
        return false;
    }
    let q = spaces_end_exec(l, p + 1);
    if !(q < l.len() && l[q] == 0x2f) {
        return false;
    }
    let n = l.len();
    let mut j: usize = q + 1;
    while j < n
        invariant
            q + 1 <= j <= n == l@.len(),
            p < l@.len() && l@[p as int] == 0x4b,
            q == spaces_end(l@, p + 1),
            q < l@.len() && l@[q as int] == 0x2f,
            forall|j2: int| q < j2 < j ==> #[trigger] l@[j2] != 0x2f && l@[j2] != 0x0a,
        decreases n - j,
    {
        if l[j] == 0x2f {
            proof {
                assert(q < j < l@.len() && l@[j as int] == 0x2f && forall|j2: int|
                    q < j2 < j ==> #[trigger] l@[j2] != 0x0a);
                assert(k_slashes_at(l@, p as int));
            }
            return true;
        }
        if l[j] == 0x0a {
            proof {
                assert forall|e: int|
                    q < e < l@.len() && l@[e] == 0x2f implies !(forall|j2: int|
                    q < j2 < e ==> #[trigger] l@[j2] != 0x0a) by {
                    assert(l@[j as int] != 0x2f ==> true);
                    if e <= j {
                        assert(l@[e] != 0x2f);
                    }
                    assert(e > j);
                    assert(q < (j as int) < e && l@[j as int] == 0x0a);
                }
                assert(!k_slashes_at(l@, p as int));
            }
            return false;
        }
        j = j + 1;
    }
    proof {
        assert forall|e: int| q < e < l@.len() implies l@[e] != 0x2f by {}
        assert(!k_slashes_at(l@, p as int));
    }
    false
}

fn check_pronu(l: &[u8]) -> (r: bool)
    ensures
        r == is_pronu_line(l@),
{
    if l.len() >= 2 && l[0] == 0x55 && l[1] == 0x53 {
        return true;
    }
    let n = l.len();
    let mut p: usize = 0;
    while p < n
        invariant
            0 <= p <= n == l@.len(),
            forall|p2: int| 0 <= p2 < p ==> !k_slashes_at(l@, p2),
        decreases n - p,
    {
        if check_k_slashes_at(l, p) {
            return true;
        }
        p = p + 1;
    }
    proof {
        assert(forall|p2: int| p2 < 0 || p2 >= l@.len() ==> !k_slashes_at(l@, p2));
    }
    false
}

fn check_usage(l: &[u8], word: &[u8]) -> (r: bool)
    ensures
        r == usage_match(l@, word@),
{
    let n = l.len();
    if n == 0 {
        return false;
    }
    let lastb = l[n - 1];
    if !(lastb == 0x2e || lastb == 0x22 || lastb == 0x3f || lastb == 0x21) {
        return false;
    }
    let w = word.len();
    if w > n {
        proof {
            assert(forall|p: int| !is_match_at(l@, word@, p));
        }
        return false;
    }
    let last = n - w;
    let mut p: usize = 0;
    loop
        invariant
            0 <= p <= last,
            last == l@.len() - word@.len(),
            w == word@.len(),
            n == l@.len(),
            w <= n,
            n >= 1,
            l@[l@.len() - 1] == 0x2e || l@[l@.len() - 1] == 0x22 || l@[l@.len() - 1] == 0x3f
                || l@[l@.len() - 1] == 0x21,
            forall|p2: int|
                0 <= p2 < p ==> !(is_match_at(l@, word@, p2) && p2 + word@.len() <= l@.len() - 1
                    && (forall|j: int|
                    p2 + word@.len() <= j < l@.len() - 1 ==> #[trigger] l@[j] != 0x0a)),
        ensures
            forall|p2: int|
                0 <= p2 <= last ==> !(is_match_at(l@, word@, p2) && p2 + word@.len() <= l@.len()
                    - 1 && (forall|j: int|
                    p2 + word@.len() <= j < l@.len() - 1 ==> #[trigger] l@[j] != 0x0a)),
        decreases last - p,
    {
        if crate::strutil::match_at(l, word, p) && p + w <= n - 1 {
            let mut ok: bool = true;
            let mut j: usize = p + w;
            while j < n - 1
                invariant
                    p + w <= j <= n - 1,
                    n == l@.len(),
                    w == word@.len(),
                    ok == (forall|j2: int| p + w <= j2 < j ==> #[trigger] l@[j2] != 0x0a),
                decreases n - 1 - j,
            {
                if l[j] == 0x0a {
                    ok = false;
                }
                j = j + 1;
            }
            if ok {
                proof {
                    assert(is_match_at(l@, word@, p as int) && p + word@.len() <= l@.len() - 1 && (
                    forall|j2: int|
                        p + word@.len() <= j2 < l@.len() - 1 ==> #[trigger] l@[j2] != 0x0a));
                    assert(usage_match(l@, word@));
                }
                return true;
            }
        }
        if p == last {
            break ;
        }
        p = p + 1;
    }
    proof {
        assert(forall|p2: int| p2 > last ==> !is_match_at(l@, word@, p2));
        assert(forall|p2: int| p2 < 0 ==> !is_match_at(l@, word@, p2));
        assert(!usage_match(l@, word@));
    }
    false
}

/// Does the line hold one of the dictionary's grammar labels?
pub open spec fn label_hit(l: Seq<u8>) -> bool {
    ||| contains_seq(l, "adjective".spec_bytes())
    ||| contains_seq(l, "[after noun]".spec_bytes())
    ||| contains_seq(l, "[after verb]".spec_bytes())
    ||| contains_seq(l, "[before noun]".spec_bytes())
    ||| contains_seq(l, "comparative".spec_bytes())
    ||| contains_seq(l, "superlative".spec_bytes())
    ||| contains_seq(l, "[not gradable]".spec_bytes())
    ||| contains_seq(l, "noun".spec_bytes())
    ||| contains_seq(l, "[C]".spec_bytes())
    ||| contains_seq(l, "[U]".spec_bytes())
    ||| contains_seq(l, "[S]".spec_bytes())
    ||| contains_seq(l, "plural".spec_bytes())
    ||| contains_seq(l, "noun [plural]".spec_bytes())
    ||| contains_seq(l, "[usually plural]".spec_bytes())
    ||| contains_seq(l, "[usually singular]".spec_bytes())
    ||| contains_seq(l, "[+ sing/pl verb]".spec_bytes())
    ||| contains_seq(l, "verb".spec_bytes())
    ||| contains_seq(l, "[T]".spec_bytes())
    ||| contains_seq(l, "[I]".spec_bytes())
    ||| contains_seq(l, "auxiliary verb".spec_bytes())
    ||| contains_seq(l, "modal verb".spec_bytes())
    ||| contains_seq(l, "past simple".spec_bytes())
    ||| contains_seq(l, "past participle".spec_bytes())
    ||| contains_seq(l, "present participle".spec_bytes())
    ||| contains_seq(l, "phrasal verb".spec_bytes())
    ||| contains_seq(l, "[L]".spec_bytes())
    ||| contains_seq(l, "[L only + adjective]".spec_bytes())
    ||| contains_seq(l, "[L only + noun]".spec_bytes())
    ||| contains_seq(l, "[+ adv/prep]".spec_bytes())
    ||| contains_seq(l, "[+ that clause]".spec_bytes())
    ||| contains_seq(l, "[+ question word]".spec_bytes())
    ||| contains_seq(l, "[+ speech]".spec_bytes())
    ||| contains_seq(l, "[+ to infinitive]".spec_bytes())
    ||| contains_seq(l, "[+ infinitive without to]".spec_bytes())
    ||| contains_seq(l, "[+ -ing] verb".spec_bytes())
    ||| contains_seq(l, "[+ not or so]".spec_bytes())
    ||| contains_seq(l, "[+ two objects]".spec_bytes())
    ||| contains_seq(l, "[+ obj + adjective]".spec_bytes())
    ||| contains_seq(l, "[+ obj + noun]".spec_bytes())
    ||| contains_seq(l, "[+ obj + noun or adjective]".spec_bytes())
    ||| contains_seq(l, "[+ obj + as noun or adjective]".spec_bytes())
    ||| contains_seq(l, "[+ obj + to be noun or adjective]".spec_bytes())
    ||| contains_seq(l, "[+ obj + that clause]".spec_bytes())
    ||| contains_seq(l, "[+ obj + to infinitive]".spec_bytes())
    ||| contains_seq(l, "[+ obj + infinitive without to]".spec_bytes())
    ||| contains_seq(l, "[+ obj + past participle]".spec_bytes())
    ||| contains_seq(l, "[+ obj + ing verb]".spec_bytes())
    ||| contains_seq(l, "[+ obj + question word]".spec_bytes())
    ||| contains_seq(l, "[usually passive]".spec_bytes())
    ||| contains_seq(l, "[not continuous]".spec_bytes())
    ||| contains_seq(l, "adverb".spec_bytes())
    ||| contains_seq(l, "conjunction".spec_bytes())
    ||| contains_seq(l, "determiner".spec_bytes())
    ||| contains_seq(l, "number".spec_bytes())
    ||| contains_seq(l, "ordinal number".spec_bytes())
    ||| contains_seq(l, "preposition".spec_bytes())
    ||| contains_seq(l, "predeterminer".spec_bytes())
    ||| contains_seq(l, "pronoun".spec_bytes())
    ||| contains_seq(l, "prefix".spec_bytes())
    ||| contains_seq(l, "suffix".spec_bytes())
    ||| contains_seq(l, "exclamation".spec_bytes())
    ||| contains_seq(l, "[+ ing verb]".spec_bytes())
    ||| contains_seq(l, "[+ that]".spec_bytes())
    ||| contains_seq(l, "[as form of address]".spec_bytes())
}

/// A grammar-note line: it carries the word, no sentence punctuation, and
/// one of the known labels.
pub open spec fn is_label_line(l: Seq<u8>, word: Seq<u8>) -> bool {
    contains_seq(l, word) && !contains_seq(l, ".".spec_bytes()) && !contains_seq(
        l,
        ";".spec_bytes(),
    ) && !contains_seq(l, "?".spec_bytes()) && !contains_seq(l, "\"".spec_bytes()) && !contains_seq(
        l,
        "'".spec_bytes(),
    ) && !contains_seq(l, "!".spec_bytes()) && label_hit(l)
}

fn check_label_hit(l: &[u8]) -> (r: bool)
    ensures
        r == label_hit(l@),
{
    contains_bytes(l, "adjective".as_bytes()) || contains_bytes(l, "[after noun]".as_bytes())
        || contains_bytes(l, "[after verb]".as_bytes()) || contains_bytes(
        l,
        "[before noun]".as_bytes(),
    ) || contains_bytes(l, "comparative".as_bytes()) || contains_bytes(l, "superlative".as_bytes())
        || contains_bytes(l, "[not gradable]".as_bytes()) || contains_bytes(l, "noun".as_bytes())
        || contains_bytes(l, "[C]".as_bytes()) || contains_bytes(l, "[U]".as_bytes())
        || contains_bytes(l, "[S]".as_bytes()) || contains_bytes(l, "plural".as_bytes())
        || contains_bytes(l, "noun [plural]".as_bytes()) || contains_bytes(
        l,
        "[usually plural]".as_bytes(),
    ) || contains_bytes(l, "[usually singular]".as_bytes()) || contains_bytes(
        l,
        "[+ sing/pl verb]".as_bytes(),
    ) || contains_bytes(l, "verb".as_bytes()) || contains_bytes(l, "[T]".as_bytes())
        || contains_bytes(l, "[I]".as_bytes()) || contains_bytes(l, "auxiliary verb".as_bytes())
        || contains_bytes(l, "modal verb".as_bytes()) || contains_bytes(
        l,
        "past simple".as_bytes(),
    ) || contains_bytes(l, "past participle".as_bytes()) || contains_bytes(
        l,
        "present participle".as_bytes(),
    ) || contains_bytes(l, "phrasal verb".as_bytes()) || contains_bytes(l, "[L]".as_bytes())
        || contains_bytes(l, "[L only + adjective]".as_bytes()) || contains_bytes(
        l,
        "[L only + noun]".as_bytes(),
    ) || contains_bytes(l, "[+ adv/prep]".as_bytes()) || contains_bytes(
        l,
        "[+ that clause]".as_bytes(),
    ) || contains_bytes(l, "[+ question word]".as_bytes()) || contains_bytes(
        l,
        "[+ speech]".as_bytes(),
    ) || contains_bytes(l, "[+ to infinitive]".as_bytes()) || contains_bytes(
        l,
        "[+ infinitive without to]".as_bytes(),
    ) || contains_bytes(l, "[+ -ing] verb".as_bytes()) || contains_bytes(
        l,
        "[+ not or so]".as_bytes(),
    ) || contains_bytes(l, "[+ two objects]".as_bytes()) || contains_bytes(
        l,
        "[+ obj + adjective]".as_bytes(),
    ) || contains_bytes(l, "[+ obj + noun]".as_bytes()) || contains_bytes(
        l,
        "[+ obj + noun or adjective]".as_bytes(),
    ) || contains_bytes(l, "[+ obj + as noun or adjective]".as_bytes()) || contains_bytes(
        l,
        "[+ obj + to be noun or adjective]".as_bytes(),
    ) || contains_bytes(l, "[+ obj + that clause]".as_bytes()) || contains_bytes(
        l,
        "[+ obj + to infinitive]".as_bytes(),
    ) || contains_bytes(l, "[+ obj + infinitive without to]".as_bytes()) || contains_bytes(
        l,
        "[+ obj + past participle]".as_bytes(),
    ) || contains_bytes(l, "[+ obj + ing verb]".as_bytes()) || contains_bytes(
        l,
        "[+ obj + question word]".as_bytes(),
    ) || contains_bytes(l, "[usually passive]".as_bytes()) || contains_bytes(
        l,
        "[not continuous]".as_bytes(),
    ) || contains_bytes(l, "adverb".as_bytes()) || contains_bytes(l, "conjunction".as_bytes())
        || contains_bytes(l, "determiner".as_bytes()) || contains_bytes(l, "number".as_bytes())
        || contains_bytes(l, "ordinal number".as_bytes()) || contains_bytes(
        l,
        "preposition".as_bytes(),
    ) || contains_bytes(l, "predeterminer".as_bytes()) || contains_bytes(l, "pronoun".as_bytes())
        || contains_bytes(l, "prefix".as_bytes()) || contains_bytes(l, "suffix".as_bytes())
        || contains_bytes(l, "exclamation".as_bytes()) || contains_bytes(
        l,
        "[+ ing verb]".as_bytes(),
    ) || contains_bytes(l, "[+ that]".as_bytes()) || contains_bytes(
        l,
        "[as form of address]".as_bytes(),
    )
}

fn check_label_line(l: &[u8], word: &[u8]) -> (r: bool)
    ensures
        r == is_label_line(l@, word@),
{
    contains_bytes(l, word) && !contains_bytes(l, ".".as_bytes()) && !contains_bytes(
        l,
        ";".as_bytes(),
    ) && !contains_bytes(l, "?".as_bytes()) && !contains_bytes(l, "\"".as_bytes())
        && !contains_bytes(l, "'".as_bytes()) && !contains_bytes(l, "!".as_bytes())
        && check_label_hit(l)
}

// -- splitting --

/// Line ranges of a block: lines are fenced by literal `\n` escape pairs;
/// what follows the last pair is dropped.
pub open spec fn esc_ranges_from(b: Seq<u8>, i: int, begi: int) -> Seq<(int, int)>
    decreases b.len() - i + 1,
{
    if !(0 <= i) || i >= b.len() {
        Seq::<(int, int)>::empty()
    } else if is_match_at(b, "\\n".spec_bytes(), i) {
        seq![(begi, i)] + esc_ranges_from(b, i + 1, i + 2)
    } else {
        esc_ranges_from(b, i + 1, begi)
    }
}

/// All line ranges of a block.
pub open spec fn esc_ranges(b: Seq<u8>) -> Seq<(int, int)> {
    esc_ranges_from(b, 0, 0)
}

/// The lines of a block.
pub open spec fn lv_lines(b: Seq<u8>) -> Seq<Seq<u8>> {
    esc_ranges(b).map_values(|p: (int, int)| b.subrange(p.0, p.1))
}

/// Block ranges of the page text: blocks are fenced by six-underscore
/// sentinels; a block of more than one byte counts, and what follows the
/// last sentinel is dropped.
pub open spec fn piece_ranges_from(b: Seq<u8>, i: int, begi: int) -> Seq<(int, int)>
    decreases b.len() - i + 1,
{
    if !(0 <= i) || i >= b.len() {
        Seq::<(int, int)>::empty()
    } else if is_match_at(b, "______".spec_bytes(), i) {
        if i > begi + 1 {
            seq![(begi, i)] + piece_ranges_from(b, i + 1, i + 6)
        } else {
            piece_ranges_from(b, i + 1, i + 6)
        }
    } else {
        piece_ranges_from(b, i + 1, begi)
    }
}

/// All block ranges of the page text.
pub open spec fn piece_ranges(b: Seq<u8>) -> Seq<(int, int)> {
    piece_ranges_from(b, 0, 0)
}

fn esc_split(b: &[u8]) -> (r: Vec<(usize, usize)>)
    ensures
        r@.map_values(|p: (usize, usize)| (p.0 as int, p.1 as int)) == esc_ranges(b@),
        forall|k: int| 0 <= k < r@.len() ==> #[trigger] r@[k].0 <= r@[k].1 <= b@.len(),
{
    proof {
        reveal_strlit("\\n");
        crate::strutil::lemma_ascii_literal("\\n");
    }
    let blen = b.len();
    let mut out: Vec<(usize, usize)> = Vec::new();
    let mut begi: usize = 0;
    let mut i: usize = 0;
    proof {
        assert(out@.map_values(|p: (usize, usize)| (p.0 as int, p.1 as int)) + esc_ranges_from(
            b@,
            0,
            0,
        ) =~= esc_ranges(b@));
    }
    while i < blen
        invariant
            0 <= i <= blen == b@.len(),
            begi <= i || begi == i + 1,
            begi <= blen,
            begi == i + 1 ==> i < blen && b@[i as int] == 0x6e,
            out@.map_values(|p: (usize, usize)| (p.0 as int, p.1 as int)) + esc_ranges_from(
                b@,
                i as int,
                begi as int,
            ) == esc_ranges(b@),
            forall|k: int| 0 <= k < out@.len() ==> #[trigger] out@[k].0 <= out@[k].1 <= b@.len(),
        decreases blen - i,
    {
        proof {
            reveal_strlit("\\n");
            crate::strutil::lemma_ascii_literal("\\n");
        }
        if blen - i >= 2 && b[i] == 0x5c && b[i + 1] == 0x6e {
            proof {
                assert(b@.subrange(i as int, i + 2) =~= "\\n".spec_bytes());
                assert(is_match_at(b@, "\\n".spec_bytes(), i as int));
            }
            let ghost out0 = out@.map_values(|p: (usize, usize)| (p.0 as int, p.1 as int));
            proof {
                assert(begi <= i);
            }
            out.push((begi, i));
            proof {
                assert(out@.map_values(|p: (usize, usize)| (p.0 as int, p.1 as int)) =~= out0
                    + seq![(begi as int, i as int)]);
                assert((out0 + seq![(begi as int, i as int)]) + esc_ranges_from(b@, i + 1, i + 2)
                    =~= out0 + (seq![(begi as int, i as int)] + esc_ranges_from(b@, i + 1, i + 2)));
                assert(forall|k: int|
                    0 <= k < out@.len() - 1 ==> #[trigger] out@[k].0 <= out@[k].1 <= b@.len());
                assert(out@[out@.len() - 1].0 <= out@[out@.len() - 1].1 <= b@.len());
            }
            begi = i + 2;
            i = i + 1;
        } else {
            proof {
                if i + 2 <= b@.len() {
                    assert(b@.subrange(i as int, i + 2)[0] == b@[i as int]);
                    assert(b@.subrange(i as int, i + 2)[1] == b@[i + 1]);
                }
                assert(!is_match_at(b@, "\\n".spec_bytes(), i as int));
            }
            i = i + 1;
        }
    }
    proof {
        assert(esc_ranges_from(b@, i as int, begi as int) =~= Seq::<(int, int)>::empty());
        assert(out@.map_values(|p: (usize, usize)| (p.0 as int, p.1 as int)) + Seq::<(
            int,
            int,
        )>::empty() =~= out@.map_values(|p: (usize, usize)| (p.0 as int, p.1 as int)));
    }
    out
}

fn piece_split(b: &[u8]) -> (r: Vec<(usize, usize)>)
    ensures
        r@.map_values(|p: (usize, usize)| (p.0 as int, p.1 as int)) == piece_ranges(b@),
        forall|k: int| 0 <= k < r@.len() ==> #[trigger] r@[k].0 <= r@[k].1 <= b@.len(),
{
    proof {
        reveal_strlit("______");
        crate::strutil::lemma_ascii_literal("______");
    }
    let blen = b.len();
    let mut out: Vec<(usize, usize)> = Vec::new();
    let mut begi: usize = 0;
    let mut i: usize = 0;
    proof {
        assert(out@.map_values(|p: (usize, usize)| (p.0 as int, p.1 as int)) + piece_ranges_from(
            b@,
            0,
            0,
        ) =~= piece_ranges(b@));
    }
    while i < blen
        invariant
            0 <= i <= blen == b@.len(),
            begi <= blen,
            out@.map_values(|p: (usize, usize)| (p.0 as int, p.1 as int)) + piece_ranges_from(
                b@,
                i as int,
                begi as int,
            ) == piece_ranges(b@),
            forall|k: int| 0 <= k < out@.len() ==> #[trigger] out@[k].0 <= out@[k].1 <= b@.len(),
        decreases blen - i,
    {
        proof {
            reveal_strlit("______");
            crate::strutil::lemma_ascii_literal("______");
        }
        let hit = blen - i >= 6 && crate::strutil::match_at(b, "______".as_bytes(), i);
        if hit {
            proof {
                assert(is_match_at(b@, "______".spec_bytes(), i as int));
            }
            if i > begi && i - begi > 1 {
                let ghost out0 = out@.map_values(|p: (usize, usize)| (p.0 as int, p.1 as int));
                out.push((begi, i));
                proof {
                    assert(forall|k: int|
                        0 <= k < out@.len() - 1 ==> #[trigger] out@[k].0 <= out@[k].1
                            <= b@.len());
                    assert(out@[out@.len() - 1].0 <= out@[out@.len() - 1].1 <= b@.len());
                }
                proof {
                    assert(out@.map_values(|p: (usize, usize)| (p.0 as int, p.1 as int)) =~= out0
                        + seq![(begi as int, i as int)]);
                    assert((out0 + seq![(begi as int, i as int)]) + piece_ranges_from(
                        b@,
                        i + 1,
                        i + 6,
                    ) =~= out0 + (seq![(begi as int, i as int)] + piece_ranges_from(
                        b@,
                        i + 1,
                        i + 6,
                    )));
                }
            }
            begi = i + 6;
            i = i + 1;
        } else {
            proof {
                if blen - i >= 6 {
                } else {
                    assert(!is_match_at(b@, "______".spec_bytes(), i as int));
                }
            }
            i = i + 1;
        }
    }
    proof {
        assert(piece_ranges_from(b@, i as int, begi as int) =~= Seq::<(int, int)>::empty());
        assert(out@.map_values(|p: (usize, usize)| (p.0 as int, p.1 as int)) + Seq::<(
            int,
            int,
        )>::empty() =~= out@.map_values(|p: (usize, usize)| (p.0 as int, p.1 as int)));
    }
    out
}

/// First line at or after `i` carrying the word-list marker, else `-1`.
pub open spec fn awl_at(ls: Seq<Seq<u8>>, i: int) -> int
    decreases ls.len() - i + 1,
{
    if !(0 <= i < ls.len()) {
        -1
    } else if contains_seq(ls[i], "Add to word list ".spec_bytes()) {
        i
    } else {
        awl_at(ls, i + 1)
    }
}

/// Last pronunciation-looking line strictly below `hi`, else `-1`.
pub open spec fn last_pronu(ls: Seq<Seq<u8>>, hi: int) -> int
    decreases hi,
{
    if hi <= 0 || hi > ls.len() {
        -1
    } else if is_pronu_line(ls[hi - 1]) {
        hi - 1
    } else {
        last_pronu(ls, hi - 1)
    }
}

/// Some line below `hi` carries the marker.
pub open spec fn any_marker(ls: Seq<Seq<u8>>, hi: int, pat: Seq<u8>) -> bool {
    exists|i: int| 0 <= i < hi && contains_seq(#[trigger] ls[i], pat)
}

/// Why a block is rejected, coded, or accepted (`None`): it needs lines, a
/// non-empty second line, and then either the word-list marker somewhere,
/// or the examples banner naming the block's own headword.
pub open spec fn level_err_code(b: Seq<u8>) -> Option<u8> {
    let ls = lv_lines(b);
    if ls.len() == 0 {
        Option::Some(1u8)
    } else if ls.len() < 2 {
        Option::Some(2u8)
    } else if ls[1].len() == 0 {
        Option::Some(3u8)
    } else if awl_at(ls, 0) >= 0 {
        Option::None
    } else if ls.len() < 3 {
        Option::Some(1u8)
    } else if !contains_seq(ls[0], "EXAMPLES of ".spec_bytes() + ls[1]) {
        Option::Some(2u8)
    } else {
        Option::None
    }
}

/// A source attribution: the line opens with `From `.
pub open spec fn from_wf(x: Seq<u8>) -> bool {
    "From ".spec_bytes().len() <= x.len() && x.subrange(0, "From ".spec_bytes().len() as int)
        == "From ".spec_bytes()
}

fn awl_exec(lines: &Vec<Vec<u8>>, i: usize) -> (r: Option<usize>)
    requires
        i <= lines@.len(),
    ensures
        r matches Some(k) ==> awl_at(lines@.map_values(|l: Vec<u8>| l@), i as int) == k && k
            < lines@.len(),
        r is None ==> awl_at(lines@.map_values(|l: Vec<u8>| l@), i as int) == -1,
    decreases lines@.len() - i,
{
    if i == lines.len() {
        None
    } else if contains_bytes(lines[i].as_slice(), "Add to word list ".as_bytes()) {
        Some(i)
    } else {
        awl_exec(lines, i + 1)
    }
}

fn pronu_exec(lines: &Vec<Vec<u8>>, hi: usize) -> (r: Option<usize>)
    requires
        hi <= lines@.len(),
    ensures
        r matches Some(k) ==> last_pronu(lines@.map_values(|l: Vec<u8>| l@), hi as int) == k && k
            < hi,
        r is None ==> last_pronu(lines@.map_values(|l: Vec<u8>| l@), hi as int) == -1,
    decreases hi,
{
    if hi == 0 {
        None
    } else if check_pronu(lines[hi - 1].as_slice()) {
        Some(hi - 1)
    } else {
        pronu_exec(lines, hi - 1)
    }
}

fn marker_exec(lines: &Vec<Vec<u8>>, hi: usize, pat: &[u8]) -> (r: bool)
    requires
        hi <= lines@.len(),
    ensures
        r == any_marker(lines@.map_values(|l: Vec<u8>| l@), hi as int, pat@),
{
    let ghost lsv = lines@.map_values(|l: Vec<u8>| l@);
    let mut i: usize = 0;
    let mut fl: bool = false;
    while i < hi
        invariant
            0 <= i <= hi <= lines@.len(),
            lsv == lines@.map_values(|l: Vec<u8>| l@),
            fl == any_marker(lsv, i as int, pat@),
        decreases hi - i,
    {
        if contains_bytes(lines[i].as_slice(), pat) {
            proof {
                assert(contains_seq(lsv[i as int], pat@));
            }
            fl = true;
        }
        proof {
            if !fl {
                assert(forall|k: int|
                    0 <= k < i + 1 ==> !contains_seq(#[trigger] lsv[k], pat@));
            }
        }
        i = i + 1;
    }
    fl
}

/// A line's bytes as a string; a line that is not valid UTF-8 (impossible
/// for lines cut from real page text) yields the empty string.
fn line_string_or_empty(l: &[u8]) -> (r: String)
    ensures
        vstd::utf8::valid_utf8(l@) ==> vstd::utf8::encode_utf8(r@) == l@,
        !vstd::utf8::valid_utf8(l@) ==> r@.len() == 0,
{
    let v = crate::strutil::bytes_of_range(l, 0, l.len());
    proof {
        assert(v@ =~= l@);
    }
    match crate::strutil::bytes_to_string(v) {
        Some(out) => out,
        None => String::new(),
    }
}

/// One structured meaning ties back to the block's lines: the meaning is a
/// colon-ended line after the word-list marker, the note some line of the
/// block, and every usage a line after the marker. (The empty string
/// stands in for a line that was not valid UTF-8.)
pub open spec fn expl_wf(e: Expl, ls: Seq<Seq<u8>>, awl: int) -> bool {
    &&& ((exists|j: int|
        awl < j < ls.len() && is_meaning_line(#[trigger] ls[j]) && vstd::utf8::encode_utf8(
            e.meaning@,
        ) == ls[j]) || e.meaning@.len() == 0)
    &&& (match e.nv_cate {
        Option::Some(c) => (exists|j: int|
            0 <= j < ls.len() && vstd::utf8::encode_utf8(c@) == #[trigger] ls[j]) || c@.len()
            == 0,
        Option::None => true,
    })
    &&& (forall|u: int|
        0 <= u < e.usages@.len() ==> ((exists|j: int|
            awl < j < ls.len() && vstd::utf8::encode_utf8(#[trigger] e.usages@[u]@)
                == #[trigger] ls[j]) || e.usages@[u]@.len() == 0))
}

/// The facts an explanation block's structured form carries, over the
/// block's bytes: the level flags are exactly the markers' presence, the
/// pronunciation is the trimmed last pronunciation-looking line before the
/// word-list marker, and every meaning ties back to the lines.
pub open spec fn default_block_wf(d: DefaultExpl, p: Seq<u8>) -> bool {
    let ls = lv_lines(p);
    let awl = awl_at(ls, 0);
    &&& awl >= 0
    &&& d.is_interme == any_marker(ls, awl, "INTERMEDIATE ENGLISH".spec_bytes())
    &&& d.is_busi == any_marker(ls, awl, "BUSINESS ENGLISH".spec_bytes())
    &&& (last_pronu(ls, awl) >= 0 && vstd::utf8::valid_utf8(
        crate::strutil::spec_trim(ls[last_pronu(ls, awl)]),
    ) ==> vstd::utf8::encode_utf8(d.pronun@) == crate::strutil::spec_trim(
        ls[last_pronu(ls, awl)],
    ))
    &&& (last_pronu(ls, awl) < 0 ==> d.pronun@.len() == 0)
    &&& (forall|k: int| 0 <= k < d.expls@.len() ==> expl_wf(#[trigger] d.expls@[k], ls, awl))
}

/// One example pair ties back to the block's lines: the usage is a line of
/// the examples body, the source a `From `-opening line.
pub open spec fn examp_wf(x: Examp, ls: Seq<Seq<u8>>) -> bool {
    &&& ((exists|j: int|
        2 <= j < ls.len() && vstd::utf8::encode_utf8(x.usage@) == #[trigger] ls[j]) || x.usage@.len()
        == 0)
    &&& ((exists|j: int|
        2 <= j < ls.len() && from_wf(#[trigger] ls[j]) && vstd::utf8::encode_utf8(x.from@)
            == ls[j]) || x.from@.len() == 0)
}

/// The facts the examples block's structured form carries, over the
/// block's bytes.
pub open spec fn examples_wf(e: RealExamp, p: Seq<u8>) -> bool {
    let ls = lv_lines(p);
    &&& awl_at(ls, 0) < 0
    &&& ls.len() >= 3
    &&& contains_seq(ls[0], "EXAMPLES of ".spec_bytes() + ls[1])
    &&& (forall|k: int| 0 <= k < e.0@.len() ==> examp_wf(#[trigger] e.0@[k], ls))
}

/// A structured block belongs to block bytes `p`: an explanation block
/// carries `p` verbatim and its structure's facts over `p`'s lines; the
/// examples block carries its facts over `p`'s lines.
pub open spec fn block_matches(lv: LevelExpained, p: Seq<u8>) -> bool {
    match lv {
        LevelExpained::DefaultKind(d, s2) => vstd::utf8::encode_utf8(s2@) == p
            && default_block_wf(d, p),
        LevelExpained::RealExampKind(e) => examples_wf(e, p),
    }
}

fn parse_default(s: &str, lines: &Vec<Vec<u8>>, awl: usize) -> (r: LevelExpained)
    requires
        lines@.map_values(|l: Vec<u8>| l@) == lv_lines(s.spec_bytes()),
        awl < lines@.len(),
        lines@.len() >= 2,
        awl as int == awl_at(lv_lines(s.spec_bytes()), 0),
    ensures
        match r {
            LevelExpained::DefaultKind(d, s2) => s2@ == s@ && default_block_wf(
                d,
                s.spec_bytes(),
            ),
            LevelExpained::RealExampKind(_) => false,
        },
{
    let ghost ls = lv_lines(s.spec_bytes());
    let n = lines.len();
    let word: &Vec<u8> = &lines[1];
    let is_interme = marker_exec(lines, awl, "INTERMEDIATE ENGLISH".as_bytes());
    let is_busi = marker_exec(lines, awl, "BUSINESS ENGLISH".as_bytes());
    let pronun: String = match pronu_exec(lines, awl) {
        Some(lp) => {
            let pl = &lines[lp];
            let (t0, t1) = crate::strutil::trim_range(pl.as_slice());
            let tv = crate::strutil::bytes_of_range(pl.as_slice(), t0, t1);
            proof {
                assert(tv@ =~= crate::strutil::spec_trim(ls[last_pronu(ls, awl as int)]));
            }
            match crate::strutil::bytes_to_string(tv) {
                Some(v) => v,
                None => String::new(),
            }
        },
        None => String::new(),
    };
    let mut expls: Vec<Expl> = Vec::new();
    let mut i: usize = awl + 1;
    while i < n
        invariant
            awl < i <= n == lines@.len(),
            lines@.map_values(|l: Vec<u8>| l@) == ls,
            word@ == lines@[1]@,
            lines@.len() >= 2,
            forall|k: int| 0 <= k < expls@.len() ==> expl_wf(#[trigger] expls@[k], ls, awl as int),
        decreases n - i,
    {
        if check_meaning(lines[i].as_slice()) {
            let ghost ime = i as int;
            let nv_cate: Option<String> = if i > 2 && check_label_line(
                lines[i - 2].as_slice(),
                word.as_slice(),
            ) {
                Some(line_string_or_empty(lines[i - 2].as_slice()))
            } else if i > 3 && check_label_line(lines[i - 3].as_slice(), word.as_slice()) {
                Some(line_string_or_empty(lines[i - 3].as_slice()))
            } else {
                None
            };
            let meaning: String = line_string_or_empty(lines[i].as_slice());
            proof {
                assert((exists|j: int|
                    awl < j < ls.len() && is_meaning_line(#[trigger] ls[j])
                        && vstd::utf8::encode_utf8(meaning@) == ls[j]) || meaning@.len() == 0) by {
                    if vstd::utf8::valid_utf8(lines@[ime]@) {
                        assert((awl as int) < ime);
                        assert(ime < ls.len());
                        assert(is_meaning_line(ls[ime]));
                        assert(vstd::utf8::encode_utf8(meaning@) == ls[ime]);
                    }
                }
                assert(match nv_cate {
                    Option::Some(c) => (exists|j: int|
                        0 <= j < ls.len() && vstd::utf8::encode_utf8(c@) == #[trigger] ls[j])
                        || c@.len() == 0,
                    Option::None => true,
                }) by {
                    if i > 2 && vstd::utf8::valid_utf8(lines@[ime - 2]@) {
                        assert(ls[ime - 2] == lines@[ime - 2]@);
                    }
                    if i > 3 && vstd::utf8::valid_utf8(lines@[ime - 3]@) {
                        assert(ls[ime - 3] == lines@[ime - 3]@);
                    }
                }
            }
            let mut usages: Vec<String> = Vec::new();
            let ghost i0 = i as int;
            let mut j: usize = i + 1;
            while j < n
                invariant
                    i < n,
                    awl < i,
                    i0 <= i,
                    j <= n == lines@.len(),
                    j > i,
                    lines@.map_values(|l: Vec<u8>| l@) == ls,
                    word@ == lines@[1]@,
                    lines@.len() >= 2,
                    forall|u: int|
                        0 <= u < usages@.len() ==> ((exists|jj: int|
                            awl < jj < ls.len() && vstd::utf8::encode_utf8(
                                #[trigger] usages@[u]@,
                            ) == #[trigger] ls[jj]) || usages@[u]@.len() == 0),
                decreases n - j,
            {
                if check_nv_cate(lines[j].as_slice(), word.as_slice()) {
                    j = j + 1;
                    continue ;
                }
                let nex = crate::strutil::to_ascii_lower(lines[j].as_slice());
                if contains_bytes(nex.as_slice(), word.as_slice()) && !check_label_line(
                    nex.as_slice(),
                    word.as_slice(),
                ) && !contains_bytes(lines[j].as_slice(), "\u{a0}".as_bytes()) {
                    let u = line_string_or_empty(lines[j].as_slice());
                    proof {
                        assert((exists|jj: int|
                            awl < jj < ls.len() && vstd::utf8::encode_utf8(u@) == #[trigger] ls[jj])
                            || u@.len() == 0) by {
                            if vstd::utf8::valid_utf8(lines@[j as int]@) {
                                assert((awl as int) < (j as int));
                                assert((j as int) < ls.len());
                                assert(vstd::utf8::encode_utf8(u@) == ls[j as int]);
                            }
                        }
                    }
                    usages.push(u);
                    if i + 1 < n {
                        i = i + 1;
                    }
                    j = j + 1;
                } else {
                    break ;
                }
            }
            let ghost e0 = expls@;
            expls.push(Expl { nv_cate, meaning, usages });
            proof {
                assert(expls@ =~= e0.push(expls@[expls@.len() - 1]));
                assert(expl_wf(expls@[expls@.len() - 1], ls, awl as int));
            }
        }
        i = i + 1;
    }
    let s2 = s.to_owned();
    LevelExpained::DefaultKind(DefaultExpl { is_interme, is_busi, pronun, expls }, s2)
}

fn parse_examples(lines: &Vec<Vec<u8>>, Ghost(pb): Ghost<Seq<u8>>) -> (r: Result<
    LevelExpained,
    MafaError,
>)
    requires
        lines@.map_values(|l: Vec<u8>| l@) == lv_lines(pb),
        lines@.len() >= 2,
        awl_at(lv_lines(pb), 0) < 0,
    ensures
        lines@.len() < 3 ==> r == Result::<LevelExpained, MafaError>::Err(
            MafaError::CamdLevelNotRecoginized(1),
        ),
        lines@.len() >= 3 && !contains_seq(
            lines@[0]@,
            "EXAMPLES of ".spec_bytes() + lines@[1]@,
        ) ==> r == Result::<LevelExpained, MafaError>::Err(MafaError::CamdLevelNotRecoginized(2)),
        lines@.len() >= 3 && contains_seq(
            lines@[0]@,
            "EXAMPLES of ".spec_bytes() + lines@[1]@,
        ) ==> r is Ok,
        r matches Ok(lv) ==> (match lv {
            LevelExpained::RealExampKind(e) => examples_wf(e, pb),
            LevelExpained::DefaultKind(_, _) => false,
        }),
{
    let ghost ls = lv_lines(pb);
    let n = lines.len();
    if n < 3 {
        return Err(MafaError::CamdLevelNotRecoginized(1));
    }
    let mut pat = vstd::slice::slice_to_vec("EXAMPLES of ".as_bytes());
    pat.extend_from_slice(lines[1].as_slice());
    proof {
        assert(pat@ =~= "EXAMPLES of ".spec_bytes() + lines@[1]@);
    }
    if !contains_bytes(lines[0].as_slice(), pat.as_slice()) {
        return Err(MafaError::CamdLevelNotRecoginized(2));
    }
    let word: &Vec<u8> = &lines[1];
    let mut out: Vec<Examp> = Vec::new();
    let mut i: usize = 2;
    while n - i > 1
        invariant
            2 <= i <= n,
            n == lines@.len(),
            lines@.len() >= 3,
            lines@.map_values(|l: Vec<u8>| l@) == ls,
            word@ == lines@[1]@,
            contains_seq(lines@[0]@, "EXAMPLES of ".spec_bytes() + lines@[1]@),
            forall|k: int| 0 <= k < out@.len() ==> examp_wf(#[trigger] out@[k], ls),
        decreases n - i,
    {
        let low = crate::strutil::to_ascii_lower(lines[i].as_slice());
        if check_usage(low.as_slice(), word.as_slice()) && crate::strutil::starts_with_bytes(
            lines[i + 1].as_slice(),
            "From ".as_bytes(),
        ) {
            let usage = line_string_or_empty(lines[i].as_slice());
            let from = line_string_or_empty(lines[i + 1].as_slice());
            let ghost o0 = out@;
            proof {
                assert(from_wf(lines@[i + 1]@));
            }
            out.push(Examp { usage, from });
            proof {
                assert(examp_wf(out@[out@.len() - 1], ls)) by {
                    if vstd::utf8::valid_utf8(lines@[i as int]@) {
                        assert(2 <= i as int);
                        assert((i as int) < ls.len());
                        assert(vstd::utf8::encode_utf8(usage@) == ls[i as int]);
                    }
                    if vstd::utf8::valid_utf8(lines@[i + 1]@) {
                        assert(2 <= (i as int) + 1);
                        assert((i as int) + 1 < ls.len());
                        assert(from_wf(ls[i + 1]));
                        assert(vstd::utf8::encode_utf8(from@) == ls[i + 1]);
                    }
                }
            }
        }
        i = i + 2;
    }
    Ok(LevelExpained::RealExampKind(RealExamp(out)))
}

impl LevelExpained {
    /// Structures one fenced block: refuses blocks that lack the expected
    /// line shape, with the code naming what was missing, and otherwise
    /// parses an explanation block around its word-list marker or the
    /// examples block around its banner. Acceptance is decided by the
    /// block's bytes alone.
    #[allow(unused_variables)]
    pub fn from_str(word: &str, s: &str) -> (r: Result<LevelExpained, MafaError>)
        ensures
            level_err_code(s.spec_bytes()) matches Some(k) ==> r == Result::<
                LevelExpained,
                MafaError,
            >::Err(MafaError::CamdLevelNotRecoginized(k)),
            level_err_code(s.spec_bytes()) is None ==> r is Ok,
            r matches Ok(lv) ==> level_err_code(s.spec_bytes()) is None && block_matches(
                lv,
                s.spec_bytes(),
            ),
    {
        let b = s.as_bytes();
        let ghost bs = s.spec_bytes();
        let ranges = esc_split(b);
        let n = ranges.len();
        let mut lines: Vec<Vec<u8>> = Vec::new();
        let mut i: usize = 0;
        proof {
            assert(lines@.map_values(|l: Vec<u8>| l@) =~= lv_lines(bs).subrange(0, 0));
        }
        while i < n
            invariant
                0 <= i <= n == ranges@.len(),
                ranges@.map_values(|p: (usize, usize)| (p.0 as int, p.1 as int)) == esc_ranges(bs),
                forall|k: int|
                    0 <= k < ranges@.len() ==> #[trigger] ranges@[k].0 <= ranges@[k].1
                        <= bs.len(),
                bs == b@,
                lines@.map_values(|l: Vec<u8>| l@) == lv_lines(bs).subrange(0, i as int),
            decreases n - i,
        {
            let p = ranges[i];
            let line = crate::strutil::bytes_of_range(b, p.0, p.1);
            let ghost lv0 = lines@.map_values(|l: Vec<u8>| l@);
            lines.push(line);
            proof {
                assert(lv_lines(bs)[i as int] == bs.subrange(
                    esc_ranges(bs)[i as int].0,
                    esc_ranges(bs)[i as int].1,
                ));
                assert(esc_ranges(bs)[i as int] == (
                    ranges@[i as int].0 as int,
                    ranges@[i as int].1 as int,
                ));
                assert(line@ =~= lv_lines(bs)[i as int]);
                assert(lines@.map_values(|l: Vec<u8>| l@) =~= lv0.push(line@));
                assert(lv0.push(line@) =~= lv_lines(bs).subrange(0, i + 1));
            }
            i = i + 1;
        }
        proof {
            assert(lv_lines(bs).subrange(0, n as int) =~= lv_lines(bs));
        }
        if n == 0 {
            return Err(MafaError::CamdLevelNotRecoginized(1));
        }
        if n < 2 {
            return Err(MafaError::CamdLevelNotRecoginized(2));
        }
        if lines[1].len() == 0 {
            return Err(MafaError::CamdLevelNotRecoginized(3));
        }
        match awl_exec(&lines, 0) {
            Some(awl) => Ok(parse_default(s, &lines, awl)),
            None => parse_examples(&lines, Ghost(bs)),
        }
    }
}

/// The page's fenced blocks, by their bytes.
pub open spec fn pieces_of(b: Seq<u8>) -> Seq<Seq<u8>> {
    piece_ranges(b).map_values(|p: (int, int)| b.subrange(p.0, p.1))
}

/// Whether a block survives structuring: it must be text, and the block
/// parser must accept it.
pub open spec fn piece_kept(p: Seq<u8>) -> bool {
    vstd::utf8::valid_utf8(p) && level_err_code(p) is None
}

/// The accepted blocks, in page order.
pub open spec fn kept_pieces(ps: Seq<Seq<u8>>) -> Seq<Seq<u8>>
    decreases ps.len(),
{
    if ps.len() == 0 {
        Seq::<Seq<u8>>::empty()
    } else {
        (if piece_kept(ps[0]) {
            seq![ps[0]]
        } else {
            Seq::<Seq<u8>>::empty()
        }) + kept_pieces(ps.drop_first())
    }
}

proof fn lemma_kept_snoc(ps: Seq<Seq<u8>>, i: int)
    requires
        0 <= i < ps.len(),
    ensures
        kept_pieces(ps.subrange(0, i + 1)) == kept_pieces(ps.subrange(0, i)) + (if piece_kept(
            ps[i],
        ) {
            seq![ps[i]]
        } else {
            Seq::<Seq<u8>>::empty()
        }),
    decreases i,
{
    let pre = ps.subrange(0, i + 1);
    let shorter = ps.subrange(0, i);
    if i == 0 {
        assert(pre.drop_first() =~= Seq::<Seq<u8>>::empty());
        assert(shorter =~= Seq::<Seq<u8>>::empty());
        assert(pre[0] == ps[0]);
        assert(kept_pieces(pre) =~= kept_pieces(shorter) + (if piece_kept(ps[0]) {
            seq![ps[0]]
        } else {
            Seq::<Seq<u8>>::empty()
        }));
    } else {
        let w = ps.drop_first();
        assert(pre.drop_first() =~= w.subrange(0, i));
        assert(shorter.drop_first() =~= w.subrange(0, i - 1));
        assert(w[i - 1] == ps[i]);
        lemma_kept_snoc(w, i - 1);
        assert(pre[0] == ps[0] && shorter[0] == ps[0]);
        assert(kept_pieces(pre) =~= kept_pieces(shorter) + (if piece_kept(ps[i]) {
            seq![ps[i]]
        } else {
            Seq::<Seq<u8>>::empty()
        }));
    }
}

impl CamdResult {
    /// Structures a whole fetched page: cuts it into its fenced blocks and
    /// keeps, in page order, exactly the blocks the block parser accepts —
    /// each structured block belonging to its own piece of the page.
    pub fn from_str(word: &str, s: &str) -> (r: Result<CamdResult, MafaError>)
        ensures
            r matches Ok(c) && c.0@ == word@ && ({
                let kp = kept_pieces(pieces_of(s.spec_bytes()));
                c.1@.len() == kp.len() && (forall|k: int|
                    0 <= k < kp.len() ==> block_matches(#[trigger] c.1@[k], kp[k]))
            }),
    {
        let b = s.as_bytes();
        let ghost bs = s.spec_bytes();
        let ghost ps = pieces_of(bs);
        let ranges = piece_split(b);
        let mut out: Vec<LevelExpained> = Vec::new();
        let ghost mut kp_acc: Seq<Seq<u8>> = Seq::<Seq<u8>>::empty();
        let mut i: usize = 0;
        let n = ranges.len();
        proof {
            assert(ps.subrange(0, 0) =~= Seq::<Seq<u8>>::empty());
            assert(kept_pieces(ps.subrange(0, 0)) =~= Seq::<Seq<u8>>::empty());
        }
        while i < n
            invariant
                0 <= i <= n == ranges@.len(),
                bs == b@,
                ps == pieces_of(bs),
                ranges@.map_values(|p: (usize, usize)| (p.0 as int, p.1 as int)) == piece_ranges(
                    bs,
                ),
                forall|k: int|
                    0 <= k < ranges@.len() ==> #[trigger] ranges@[k].0 <= ranges@[k].1
                        <= bs.len(),
                kp_acc == kept_pieces(ps.subrange(0, i as int)),
                out@.len() == kp_acc.len(),
                forall|k: int|
                    0 <= k < kp_acc.len() ==> block_matches(#[trigger] out@[k], kp_acc[k]),
            decreases n - i,
        {
            let p = ranges[i];
            let piece = crate::strutil::bytes_of_range(b, p.0, p.1);
            let ghost pv = piece@;
            proof {
                assert(ps[i as int] == bs.subrange(
                    piece_ranges(bs)[i as int].0,
                    piece_ranges(bs)[i as int].1,
                ));
                assert(piece_ranges(bs)[i as int] == (
                    ranges@[i as int].0 as int,
                    ranges@[i as int].1 as int,
                ));
                assert(pv =~= ps[i as int]);
            }
            let mut kept: bool = false;
            match crate::strutil::bytes_to_string(piece) {
                Some(pstr) => {
                    match LevelExpained::from_str(word, pstr.as_str()) {
                        Ok(lv) => {
                            proof {
                                assert(block_matches(lv, vstd::utf8::encode_utf8(pstr@)));
                                assert(vstd::utf8::encode_utf8(pstr@) == pv);
                                assert(piece_kept(ps[i as int]));
                            }
                            out.push(lv);
                            kept = true;
                        },
                        Err(_) => {
                            proof {
                                assert(level_err_code(vstd::utf8::encode_utf8(pstr@)) is Some);
                                assert(!piece_kept(ps[i as int]));
                            }
                        },
                    }
                },
                None => {
                    proof {
                        assert(!vstd::utf8::valid_utf8(pv));
                        assert(!piece_kept(ps[i as int]));
                    }
                },
            }
            proof {
                lemma_kept_snoc(ps, i as int);
                if kept {
                    kp_acc = kp_acc.push(ps[i as int]);
                    assert(kp_acc =~= kept_pieces(ps.subrange(0, i + 1)));
                } else {
                    assert(kp_acc =~= kept_pieces(ps.subrange(0, i + 1)));
                }
            }
            i = i + 1;
        }
        proof {
            assert(ps.subrange(0, n as int) =~= ps);
        }
        Ok(CamdResult(word.to_owned(), out))
    }
}

} // verus!
