//! News feed items: matching against installed packages, attention keywords,
//! HTML cleanup and date formatting.
use vstd::prelude::*;

use crate::text::{
    alphanumeric, chars_of, contains_chars, has_infix, is_alphanumeric, lines_of, lower_of,
    lowercase, occurs_at, replace_all, replaced, scalar_value, char_with, string_of, text_lines, trim_str,
    trimmed, views, char_from_u32, clone_strings, words, words_of, joined, take_chars,
};

verus! {

/// `word` occurs in `text` at `i` with a word boundary on each side: before it
/// the start or a non-alphanumeric character, after it the end or a character
/// that is neither alphanumeric nor a hyphen.
pub open spec fn bounded_at(text: Seq<char>, word: Seq<char>, i: int) -> bool {
    &&& occurs_at(text, word, i)
    &&& (i == 0 || !alphanumeric(text[i - 1]))
    &&& (i + word.len() >= text.len() || (!alphanumeric(text[i + word.len()]) && text[i
        + word.len()] != '-'))
}

/// `word` occurs in `text` as a whole word.
pub open spec fn word_in(text: Seq<char>, word: Seq<char>) -> bool {
    exists|i: int| bounded_at(text, word, i)
}

/// A package named `name` is mentioned in the lowercased text `text_l`: the
/// name has at least three characters and its lowercase form, or a prefix of it
/// of at least three characters that ends before a hyphen, occurs as a word.
pub open spec fn mentions(text_l: Seq<char>, name: Seq<char>) -> bool {
    let n = lower_of(name);
    &&& name.len() >= 3
    &&& (word_in(text_l, n) || exists|j: int|
        3 <= j < n.len() && n[j] == '-' && word_in(text_l, n.subrange(0, j)))
}

/// The names among `names` that `text_l` mentions, in their order.
pub open spec fn related_among(text_l: Seq<char>, names: Seq<Seq<char>>) -> Seq<Seq<char>>
    decreases names.len(),
{
    if names.len() == 0 {
        Seq::empty()
    } else {
        let prev = related_among(text_l, names.drop_last());
        if mentions(text_l, names.last()) {
            prev.push(names.last())
        } else {
            prev
        }
    }
}

fn bounded_match(text: &Vec<char>, word: &Vec<char>, i: usize) -> (r: bool)
    ensures
        r == bounded_at(text@, word@, i as int),
{
    let m = crate::text::matches_at(text, word, i);
    if !m {
        return false;
    }
    let tl = text.len();
    let wl = word.len();
    assert(i + wl <= tl);
    let before_ok = i == 0 || !is_alphanumeric(text[i - 1]);
    let end = i + wl;
    let after_ok = end >= text.len() || (!is_alphanumeric(text[end]) && text[end] != '-');
    before_ok && after_ok
}

/// Whether `word` occurs in `text` with a word boundary on each side.
pub fn word_in_text(text: &Vec<char>, word: &Vec<char>) -> (r: bool)
    ensures
        r == word_in(text@, word@),
{
    let mut i: usize = 0;
    while i < text.len()
        invariant
            i <= text@.len(),
            forall|j: int| 0 <= j < i ==> !bounded_at(text@, word@, j),
        decreases text@.len() - i,
    {
        if bounded_match(text, word, i) {
            return true;
        }
        i = i + 1;
    }
    if bounded_match(text, word, i) {
        return true;
    }
    assert forall|j: int| !bounded_at(text@, word@, j) by {
        if 0 <= j && j <= i {
        }
    }
    false
}

fn mentioned(text_l: &Vec<char>, name: &String) -> (r: bool)
    ensures
        r == mentions(text_l@, name@),
{
    if crate::text::chars_of(name.as_str()).len() < 3 {
        return false;
    }
    let n = chars_of(lowercase(name.as_str()).as_str());
    if word_in_text(text_l, &n) {
        return true;
    }
    let mut j: usize = 0;
    while j < n.len()
        invariant
            n@ == lower_of(name@),
            name@.len() >= 3,
            !word_in(text_l@, n@),
            j <= n@.len(),
            forall|k: int|
                3 <= k < j ==> !(n@[k] == '-' && word_in(text_l@, n@.subrange(0, k))),
        decreases n@.len() - j,
    {
        if j >= 3 && n[j] == '-' {
            let base = take_chars(&n, j);
            if word_in_text(text_l, &base) {
                return true;
            }
        }
        j = j + 1;
    }
    false
}

/// The installed packages that `text` mentions, in their order: by full name
/// or by a hyphen-bounded prefix of it ("grub" mentions "grub-btrfs"), always
/// as a whole word and ignoring case; names under three characters never match.
pub fn find_related_packages(text: &str, installed_packages: &Vec<String>) -> (r: Vec<String>)
    ensures
        views(r@) == related_among(lower_of(text@), views(installed_packages@)),
{
    let lower = chars_of(lowercase(text).as_str());
    let ghost names = views(installed_packages@);
    let mut r: Vec<String> = Vec::new();
    let mut i: usize = 0;
    while i < installed_packages.len()
        invariant
            lower@ == lower_of(text@),
            names == views(installed_packages@),
            i <= installed_packages@.len(),
            views(r@) == related_among(lower@, names.subrange(0, i as int)),
        decreases installed_packages@.len() - i,
    {
        let ghost before = r@;
        assert(names.subrange(0, i + 1).drop_last() =~= names.subrange(0, i as int));
        if mentioned(&lower, &installed_packages[i]) {
            r.push(installed_packages[i].clone());
            assert(views(r@) =~= views(before).push(installed_packages@[i as int]@));
        }
        i = i + 1;
    }
    assert(names.subrange(0, i as int) =~= names);
    r
}


/// The lowercased text asks for manual intervention: it holds one of the
/// attention phrases.
pub open spec fn attention_phrase_in(l: Seq<char>) -> bool {
    ||| has_infix(l, "manual intervention"@)
    ||| has_infix(l, "action required"@)
    ||| has_infix(l, "immediately"@)
    ||| has_infix(l, "before upgrading"@)
    ||| has_infix(l, "require manual"@)
    ||| has_infix(l, "must be"@)
    ||| has_infix(l, "breaking change"@)
}

/// Whether `text`, ignoring case, holds a phrase that marks a news item as
/// needing manual intervention.
pub fn check_requires_attention(text: &str) -> (r: bool)
    ensures
        r == attention_phrase_in(lower_of(text@)),
{
    let l = chars_of(lowercase(text).as_str());
    contains_chars(&l, &chars_of("manual intervention")) || contains_chars(
        &l,
        &chars_of("action required"),
    ) || contains_chars(&l, &chars_of("immediately")) || contains_chars(
        &l,
        &chars_of("before upgrading"),
    ) || contains_chars(&l, &chars_of("require manual")) || contains_chars(
        &l,
        &chars_of("must be"),
    ) || contains_chars(&l, &chars_of("breaking change"))
}

/// Block-level markup turned into line breaks, list items into "- " lines,
/// code markers dropped.
pub open spec fn block_breaks(h: Seq<char>) -> Seq<char> {
    let h = replaced(h, "<p>"@, "\n"@);
    let h = replaced(h, "</p>"@, "\n"@);
    let h = replaced(h, "<br>"@, "\n"@);
    let h = replaced(h, "<br/>"@, "\n"@);
    let h = replaced(h, "<br />"@, "\n"@);
    let h = replaced(h, "<li>"@, "\n- "@);
    let h = replaced(h, "</li>"@, ""@);
    let h = replaced(h, "<ul>"@, "\n"@);
    let h = replaced(h, "</ul>"@, "\n"@);
    let h = replaced(h, "<ol>"@, "\n"@);
    let h = replaced(h, "</ol>"@, "\n"@);
    let h = replaced(h, "<pre>"@, "\n"@);
    let h = replaced(h, "</pre>"@, "\n"@);
    let h = replaced(h, "<code>"@, ""@);
    replaced(h, "</code>"@, ""@)
}

fn break_blocks(html: &str) -> (r: String)
    ensures
        r@ == block_breaks(html@),
{
    let h = replace_all(html, "<p>", "\n");
    let h = replace_all(h.as_str(), "</p>", "\n");
    let h = replace_all(h.as_str(), "<br>", "\n");
    let h = replace_all(h.as_str(), "<br/>", "\n");
    let h = replace_all(h.as_str(), "<br />", "\n");
    let h = replace_all(h.as_str(), "<li>", "\n- ");
    let h = replace_all(h.as_str(), "</li>", "");
    let h = replace_all(h.as_str(), "<ul>", "\n");
    let h = replace_all(h.as_str(), "</ul>", "\n");
    let h = replace_all(h.as_str(), "<ol>", "\n");
    let h = replace_all(h.as_str(), "</ol>", "\n");
    let h = replace_all(h.as_str(), "<pre>", "\n");
    let h = replace_all(h.as_str(), "</pre>", "\n");
    let h = replace_all(h.as_str(), "<code>", "");
    replace_all(h.as_str(), "</code>", "")
}

/// The characters of `s` outside markup, and whether `s` ends inside a tag: a
/// `<` opens a tag, a `>` closes it, and neither is kept.
pub open spec fn scan_tags(s: Seq<char>) -> (Seq<char>, bool)
    decreases s.len(),
{
    if s.len() == 0 {
        (Seq::empty(), false)
    } else {
        let (out, in_tag) = scan_tags(s.drop_last());
        let c = s.last();
        if c == '<' {
            (out, true)
        } else if c == '>' {
            (out, false)
        } else if !in_tag {
            (out.push(c), in_tag)
        } else {
            (out, in_tag)
        }
    }
}

fn remove_tags(s: &Vec<char>) -> (r: Vec<char>)
    ensures
        r@ == scan_tags(s@).0,
{
    let mut out: Vec<char> = Vec::new();
    let mut in_tag = false;
    let mut i: usize = 0;
    while i < s.len()
        invariant
            i <= s@.len(),
            (out@, in_tag) == scan_tags(s@.subrange(0, i as int)),
        decreases s@.len() - i,
    {
        assert(s@.subrange(0, i + 1).drop_last() =~= s@.subrange(0, i as int));
        let c = s[i];
        if c == '<' {
            in_tag = true;
        } else if c == '>' {
            in_tag = false;
        } else if !in_tag {
            out.push(c);
        }
        i = i + 1;
    }
    assert(s@.subrange(0, i as int) =~= s@);
    out
}

/// Named character references replaced by their characters.
pub open spec fn named_decoded(t: Seq<char>) -> Seq<char> {
    let t = replaced(t, "&amp;"@, "&"@);
    let t = replaced(t, "&lt;"@, "<"@);
    let t = replaced(t, "&gt;"@, ">"@);
    let t = replaced(t, "&quot;"@, "\""@);
    let t = replaced(t, "&apos;"@, "'"@);
    let t = replaced(t, "&nbsp;"@, " "@);
    let t = replaced(t, "&mdash;"@, "\u{2014}"@);
    let t = replaced(t, "&ndash;"@, "\u{2013}"@);
    let t = replaced(t, "&hellip;"@, "\u{2026}"@);
    let t = replaced(t, "&lsquo;"@, "\u{2018}"@);
    let t = replaced(t, "&rsquo;"@, "\u{2019}"@);
    let t = replaced(t, "&ldquo;"@, "\u{201C}"@);
    let t = replaced(t, "&rdquo;"@, "\u{201D}"@);
    let t = replaced(t, "&laquo;"@, "\u{00AB}"@);
    let t = replaced(t, "&raquo;"@, "\u{00BB}"@);
    let t = replaced(t, "&bull;"@, "\u{2022}"@);
    let t = replaced(t, "&copy;"@, "\u{00A9}"@);
    let t = replaced(t, "&reg;"@, "\u{00AE}"@);
    replaced(t, "&trade;"@, "\u{2122}"@)
}

fn decode_named_entities(text: &str) -> (r: String)
    ensures
        r@ == named_decoded(text@),
{
    let t = replace_all(text, "&amp;", "&");
    let t = replace_all(t.as_str(), "&lt;", "<");
    let t = replace_all(t.as_str(), "&gt;", ">");
    let t = replace_all(t.as_str(), "&quot;", "\"");
    let t = replace_all(t.as_str(), "&apos;", "'");
    let t = replace_all(t.as_str(), "&nbsp;", " ");
    let t = replace_all(t.as_str(), "&mdash;", "\u{2014}");
    let t = replace_all(t.as_str(), "&ndash;", "\u{2013}");
    let t = replace_all(t.as_str(), "&hellip;", "\u{2026}");
    let t = replace_all(t.as_str(), "&lsquo;", "\u{2018}");
    let t = replace_all(t.as_str(), "&rsquo;", "\u{2019}");
    let t = replace_all(t.as_str(), "&ldquo;", "\u{201C}");
    let t = replace_all(t.as_str(), "&rdquo;", "\u{201D}");
    let t = replace_all(t.as_str(), "&laquo;", "\u{00AB}");
    let t = replace_all(t.as_str(), "&raquo;", "\u{00BB}");
    let t = replace_all(t.as_str(), "&bull;", "\u{2022}");
    let t = replace_all(t.as_str(), "&copy;", "\u{00A9}");
    let t = replace_all(t.as_str(), "&reg;", "\u{00AE}");
    replace_all(t.as_str(), "&trade;", "\u{2122}")
}

/// `c` is a digit of a decimal (`hex` false) or hexadecimal reference.
pub open spec fn ref_digit(c: char, hex: bool) -> bool {
    ('0' <= c && c <= '9') || (hex && (('a' <= c && c <= 'f') || ('A' <= c && c <= 'F')))
}

/// The value of the digit `c`.
pub open spec fn digit_value(c: char) -> nat {
    if '0' <= c && c <= '9' {
        (c as u32 - '0' as u32) as nat
    } else if 'a' <= c && c <= 'f' {
        (c as u32 - 'a' as u32 + 10) as nat
    } else {
        (c as u32 - 'A' as u32 + 10) as nat
    }
}

/// The number that the digits `ds` write in base `radix`.
pub open spec fn digits_value(ds: Seq<char>, radix: nat) -> nat
    decreases ds.len(),
{
    if ds.len() == 0 {
        0
    } else {
        digits_value(ds.drop_last(), radix) * radix + digit_value(ds.last())
    }
}

/// The end of the run of reference digits that starts at `j`.
pub open spec fn digits_end(s: Seq<char>, j: int, hex: bool) -> int
    decreases s.len() - j,
{
    if 0 <= j < s.len() && ref_digit(s[j], hex) {
        digits_end(s, j + 1, hex)
    } else {
        j
    }
}


/// What a numeric reference with digits `ds` becomes: its character where the
/// digits are there and name a Unicode scalar value, else `&#`, an `x` for a
/// hexadecimal one, and the digits.
pub open spec fn reference_text(ds: Seq<char>, hex: bool) -> Seq<char> {
    let v = digits_value(ds, if hex { 16 } else { 10 });
    if ds.len() > 0 && v <= u32::MAX && scalar_value(v as u32) {
        seq![char_with(v as u32)]
    } else if hex {
        "&#x"@ + ds
    } else {
        "&#"@ + ds
    }
}

/// `s[i..]` with each numeric character reference (`&#` then, for a
/// hexadecimal one, `x` or `X`, then its digits and an optional `;`) decoded.
pub open spec fn numeric_from(s: Seq<char>, i: int) -> Seq<char>
    decreases s.len() - i,
{
    if i < 0 || i >= s.len() {
        Seq::empty()
    } else if s[i] == '&' && i + 1 < s.len() && s[i + 1] == '#' {
        let hex = i + 2 < s.len() && (s[i + 2] == 'x' || s[i + 2] == 'X');
        let start = if hex { i + 3 } else { i + 2 };
        let end = digits_end(s, start, hex);
        let next = if end < s.len() && s[end] == ';' { end + 1 } else { end };
        if next <= i || next > s.len() {
            Seq::empty()
        } else {
            reference_text(s.subrange(start, end), hex) + numeric_from(s, next)
        }
    } else {
        seq![s[i]] + numeric_from(s, i + 1)
    }
}

proof fn lemma_digits_end_bounds(s: Seq<char>, j: int, hex: bool)
    requires
        0 <= j <= s.len(),
    ensures
        j <= digits_end(s, j, hex) <= s.len(),
    decreases s.len() - j,
{
    if j < s.len() && ref_digit(s[j], hex) {
        lemma_digits_end_bounds(s, j + 1, hex);
    }
}

fn push_literal(out: &mut Vec<char>, lit: &str)
    ensures
        final(out)@ == old(out)@ + lit@,
{
    let cs = chars_of(lit);
    let mut k: usize = 0;
    let ghost start = out@;
    while k < cs.len()
        invariant
            k <= cs@.len(),
            cs@ == lit@,
            out@ == start + cs@.subrange(0, k as int),
        decreases cs@.len() - k,
    {
        out.push(cs[k]);
        k = k + 1;
        assert(out@ =~= start + cs@.subrange(0, k as int));
    }
    assert(cs@.subrange(0, k as int) =~= cs@);
}

/// Decodes the numeric character references of `text` (`&#39;`, `&#x27;`);
/// one whose digits are missing or name no character is kept as written, with
/// a lowercase `x`, and loses its `;`.
pub fn decode_numeric_entities(text: &str) -> (r: String)
    ensures
        r@ == numeric_from(text@, 0),
{
    let s = chars_of(text);
    let mut out: Vec<char> = Vec::new();
    let mut i: usize = 0;
    while i < s.len()
        invariant
            s@ == text@,
            i <= s@.len(),
            out@ + numeric_from(s@, i as int) == numeric_from(s@, 0),
        decreases s@.len() - i,
    {
        let ghost before = out@;
        if s[i] == '&' && i + 1 < s.len() && s[i + 1] == '#' {
            let hex = i + 2 < s.len() && (s[i + 2] == 'x' || s[i + 2] == 'X');
            let start = if hex { i + 3 } else { i + 2 };
            let radix: u64 = if hex { 16 } else { 10 };
            let mut j: usize = start;
            let mut acc: u64 = 0;
            let mut over = false;
            proof {
                lemma_digits_end_bounds(s@, start as int, hex);
                assert(s@.subrange(start as int, start as int) =~= Seq::<char>::empty());
            }
            while j < s.len() && (('0' <= s[j] && s[j] <= '9') || (hex && (('a' <= s[j] && s[j]
                <= 'f') || ('A' <= s[j] && s[j] <= 'F'))))
                invariant
                    start <= j <= s@.len(),
                    radix == (if hex { 16nat } else { 10nat }),
                    digits_end(s@, start as int, hex) == digits_end(s@, j as int, hex),
                    forall|k: int| start <= k < j ==> ref_digit(s@[k], hex),
                    !over ==> acc == digits_value(s@.subrange(start as int, j as int), radix as nat)
                        && acc <= u32::MAX,
                    over ==> digits_value(s@.subrange(start as int, j as int), radix as nat)
                        > u32::MAX,
                decreases s@.len() - j,
            {
                let c = s[j];
                let d: u64 = if '0' <= c && c <= '9' {
                    (c as u32 - '0' as u32) as u64
                } else if 'a' <= c && c <= 'f' {
                    (c as u32 - 'a' as u32 + 10) as u64
                } else {
                    (c as u32 - 'A' as u32 + 10) as u64
                };
                let ghost prev = digits_value(s@.subrange(start as int, j as int), radix as nat);
                assert(s@.subrange(start as int, j + 1).drop_last() =~= s@.subrange(
                    start as int,
                    j as int,
                ));
                assert(digits_value(s@.subrange(start as int, j + 1), radix as nat) == prev
                    * radix + d);
                if !over {
                    let v = acc * radix + d;
                    if v > 0xFFFF_FFFF {
                        over = true;
                    } else {
                        acc = v;
                    }
                } else {
                    assert(prev * radix + d >= prev) by (nonlinear_arith)
                        requires
                            radix >= 10,
                    ;
                }
                j = j + 1;
            }
            let end = j;
            let next = if end < s.len() && s[end] == ';' { end + 1 } else { end };
            assert(end == digits_end(s@, start as int, hex));
            if j > start && !over {
                match char_from_u32(acc as u32) {
                    Some(c) => {
                        out.push(c);

                    },
                    None => {
                        if hex {
                            push_literal(&mut out, "&#x");
                        } else {
                            push_literal(&mut out, "&#");
                        }
                        let mut k: usize = start;
                        while k < end
                            invariant
                                start <= k <= end <= s@.len(),
                                out@ == before + (if hex { "&#x"@ } else { "&#"@ })
                                    + s@.subrange(start as int, k as int),
                            decreases end - k,
                        {
                            out.push(s[k]);
                            k = k + 1;
                            assert(out@ =~= before + (if hex { "&#x"@ } else { "&#"@ })
                                + s@.subrange(start as int, k as int));
                        }
                    },
                }
            } else {
                if hex {
                    push_literal(&mut out, "&#x");
                } else {
                    push_literal(&mut out, "&#");
                }
                let mut k: usize = start;
                while k < end
                    invariant
                        start <= k <= end <= s@.len(),
                        out@ == before + (if hex { "&#x"@ } else { "&#"@ }) + s@.subrange(
                            start as int,
                            k as int,
                        ),
                    decreases end - k,
                {
                    out.push(s[k]);
                    k = k + 1;
                    assert(out@ =~= before + (if hex { "&#x"@ } else { "&#"@ }) + s@.subrange(
                        start as int,
                        k as int,
                    ));
                }
            }
            assert(out@ == before + reference_text(s@.subrange(start as int, end as int), hex));
            assert(numeric_from(s@, i as int) == reference_text(
                s@.subrange(start as int, end as int),
                hex,
            ) + numeric_from(s@, next as int));
            assert(out@ + numeric_from(s@, next as int) =~= before + numeric_from(s@, i as int));
            i = next;
        } else {
            out.push(s[i]);
            assert(out@ + numeric_from(s@, i + 1) =~= before + numeric_from(s@, i as int));
            i = i + 1;
        }
    }
    assert(out@ =~= out@ + numeric_from(s@, i as int));
    string_of(&out)
}


/// Named and then numeric character references decoded.
pub open spec fn entities_decoded(t: Seq<char>) -> Seq<char> {
    numeric_from(named_decoded(t), 0)
}

/// Decodes the named (`&amp;`, `&mdash;`, ...) and then the numeric character
/// references of `text`.
pub fn decode_html_entities(text: &str) -> (r: String)
    ensures
        r@ == entities_decoded(text@),
{
    let t = decode_named_entities(text);
    decode_numeric_entities(t.as_str())
}

/// The trimmed lines of `ls` that are not empty.
pub open spec fn kept_lines(ls: Seq<Seq<char>>) -> Seq<Seq<char>>
    decreases ls.len(),
{
    if ls.len() == 0 {
        Seq::empty()
    } else {
        let prev = kept_lines(ls.drop_last());
        let t = trimmed(ls.last());
        if t.len() > 0 {
            prev.push(t)
        } else {
            prev
        }
    }
}

/// The plain text of an HTML fragment: block markup turned into line breaks,
/// the remaining tags removed, character references decoded, each line
/// trimmed, empty lines dropped.
pub open spec fn html_text(h: Seq<char>) -> Seq<char> {
    joined(kept_lines(text_lines(entities_decoded(scan_tags(block_breaks(h)).0))), "\n"@)
}

/// The plain text of the HTML fragment `html`.
pub fn strip_html(html: &str) -> (r: String)
    ensures
        r@ == html_text(html@),
{
    let b = break_blocks(html);
    let untagged = string_of(&remove_tags(&chars_of(b.as_str())));
    let decoded = decode_html_entities(untagged.as_str());
    let lines = lines_of(decoded.as_str());
    let ghost ls = views(lines@);
    let mut out = String::new();
    let mut count: usize = 0;
    let mut i: usize = 0;
    while i < lines.len()
        invariant
            ls == views(lines@),
            ls == text_lines(decoded@),
            i <= lines@.len(),
            count == kept_lines(ls.subrange(0, i as int)).len(),
            count <= i,
            out@ == joined(kept_lines(ls.subrange(0, i as int)), "\n"@),
        decreases lines@.len() - i,
    {
        assert(ls.subrange(0, i + 1).drop_last() =~= ls.subrange(0, i as int));
        let ghost kp = kept_lines(ls.subrange(0, i as int));
        let t = trim_str(lines[i].as_str());
        if t.as_str().unicode_len() > 0 {
            assert(kept_lines(ls.subrange(0, i + 1)) == kp.push(t@));
            assert(kp.push(t@).drop_last() =~= kp);
            if count > 0 {
                out.append("\n");
            } else {
                assert(out@ =~= Seq::<char>::empty());
            }
            out.append(t.as_str());
            count = count + 1;
            assert(out@ =~= joined(kp.push(t@), "\n"@));
        }
        i = i + 1;
    }
    assert(ls.subrange(0, i as int) =~= ls);
    out
}

/// An RFC 2822 date ("Fri, 20 Dec 2024 00:00:00 +0000") as month, day and
/// year ("Dec 20, 2024"); a date of fewer than four words stays as it is.
pub open spec fn pub_date_text(date: Seq<char>) -> Seq<char> {
    let w = words(date);
    if w.len() >= 4 {
        w[2] + " "@ + w[1] + ", "@ + w[3]
    } else {
        date
    }
}

/// Formats a feed's publication date for reading.
pub fn format_pub_date(date: &str) -> (r: String)
    ensures
        r@ == pub_date_text(date@),
{
    let w = words_of(date);
    proof {
        assert(views(w@).len() == w@.len());
    }
    if w.len() >= 4 {
        assert(views(w@)[2] == w@[2]@ && views(w@)[1] == w@[1]@ && views(w@)[3] == w@[3]@);
        let mut r = w[2].clone();
        r.append(" ");
        r.append(w[1].as_str());
        r.append(", ");
        r.append(w[3].as_str());
        r
    } else {
        String::from_str(date)
    }
}

/// The index of the first comma of `s`, or its length.
pub open spec fn comma_index(s: Seq<char>) -> int
    decreases s.len(),
{
    if s.len() == 0 {
        0
    } else if s[0] == ',' {
        0
    } else {
        1 + comma_index(s.drop_first())
    }
}

/// Shortens a formatted date ("Dec 20, 2024") to what precedes its first
/// comma ("Dec 20").
pub fn format_short_date(date: &str) -> (r: String)
    ensures
        r@ == date@.subrange(0, comma_index(date@)),
{
    let s = chars_of(date);
    let mut i: usize = 0;
    assert(s@.subrange(0, s@.len() as int) =~= s@);
    while i < s.len() && s[i] != ','
        invariant
            s@ == date@,
            i <= s@.len(),
            comma_index(s@) == i + comma_index(s@.subrange(i as int, s@.len() as int)),
        decreases s@.len() - i,
    {
        assert(s@.subrange(i as int, s@.len() as int).drop_first() =~= s@.subrange(
            i + 1,
            s@.len() as int,
        ));
        i = i + 1;
    }
    assert(comma_index(s@.subrange(i as int, s@.len() as int)) == 0);
    let mut out: Vec<char> = Vec::new();
    let mut k: usize = 0;
    while k < i
        invariant
            i <= s@.len(),
            k <= i,
            out@ == s@.subrange(0, k as int),
        decreases i - k,
    {
        out.push(s[k]);
        k = k + 1;
        assert(out@ =~= s@.subrange(0, k as int));
    }
    string_of(&out)
}

/// A news item of the distribution's feed.
pub struct NewsItem {
    pub title: String,
    pub link: String,
    pub description: String,
    pub author: String,
    pub pub_date: String,
    pub requires_attention: bool,
    pub related_packages: Vec<String>,
}

/// What the detail pane shows of a news item.
pub struct NewsInfo {
    pub title: String,
    pub author: String,
    pub date: String,
    pub link: String,
    pub content: Vec<String>,
    pub related_packages: Vec<String>,
}

impl NewsItem {
    /// The detail view of this item: its fields, and its description split
    /// into lines.
    pub fn to_info(&self) -> (r: NewsInfo)
        ensures
            r.title == self.title,
            r.author == self.author,
            r.date == self.pub_date,
            r.link == self.link,
            views(r.content@) == text_lines(self.description@),
            r.related_packages@ == self.related_packages@,
    {
        NewsInfo {
            title: self.title.clone(),
            author: self.author.clone(),
            date: self.pub_date.clone(),
            link: self.link.clone(),
            content: lines_of(self.description.as_str()),
            related_packages: clone_strings(&self.related_packages),
        }
    }
}


/// One item of a feed as the feed gives it: title, link, description (HTML),
/// author and publication date, each where present.
pub struct FeedEntry {
    pub title: Option<String>,
    pub link: Option<String>,
    pub description: Option<String>,
    pub author: Option<String>,
    pub pub_date: Option<String>,
}

/// The fields of a feed item, as character sequences.
pub type EntryView = (
    Option<Seq<char>>,
    Option<Seq<char>>,
    Option<Seq<char>>,
    Option<Seq<char>>,
    Option<Seq<char>>,
);

/// The view of an optional string.
pub open spec fn opt_view(o: Option<String>) -> Option<Seq<char>> {
    match o {
        Some(s) => Some(s@),
        None => None,
    }
}

impl View for FeedEntry {
    type V = EntryView;

    open spec fn view(&self) -> EntryView {
        (
            opt_view(self.title),
            opt_view(self.link),
            opt_view(self.description),
            opt_view(self.author),
            opt_view(self.pub_date),
        )
    }
}

/// What the RSS reader finds in a document: its items, or nothing where the
/// text is no RSS channel.
pub uninterp spec fn feed_entries(xml: Seq<char>) -> Option<Seq<EntryView>>;

/// Relies on `rss::Channel`'s `FromStr` (which reads the document as an RSS
/// channel) and on the item accessors `title`, `link`, `description`,
/// `pub_date` and the first Dublin Core creator as author.
#[verifier::external_body]
fn read_feed(xml: &str) -> (r: Result<Vec<FeedEntry>, String>)
    ensures
        r is Ok <==> feed_entries(xml@) is Some,
        r matches Ok(v) ==> feed_entries(xml@) == Some(v@.map_values(|e: FeedEntry| e@)),
{
    let channel = xml.parse::<rss::Channel>().map_err(|e| e.to_string())?;
    Ok(channel.items().iter().map(|item| FeedEntry {
        title: item.title().map(|t| t.to_string()),
        link: item.link().map(|t| t.to_string()),
        description: item.description().map(|t| t.to_string()),
        author: item.dublin_core_ext().and_then(|dc| dc.creators().first().cloned()),
        pub_date: item.pub_date().map(|t| t.to_string()),
    }).collect())
}

/// The text of an optional field, empty where absent.
pub open spec fn or_empty(o: Option<Seq<char>>) -> Seq<char> {
    match o {
        Some(s) => s,
        None => Seq::empty(),
    }
}

/// `item` is the news item that the feed entry `e` gives, with the installed
/// package names `installed`.
pub open spec fn item_of_entry(item: NewsItem, e: EntryView, installed: Seq<Seq<char>>) -> bool {
    let description = html_text(or_empty(e.2));
    let full = or_empty(e.0) + " "@ + description;
    &&& item.title@ == or_empty(e.0)
    &&& item.link@ == or_empty(e.1)
    &&& item.description@ == description
    &&& item.author@ == or_empty(e.3)
    &&& item.pub_date@ == pub_date_text(or_empty(e.4))
    &&& item.requires_attention == attention_phrase_in(lower_of(full))
    &&& views(item.related_packages@) == related_among(lower_of(full), installed)
}

/// The text of an optional field, empty where absent.
pub fn text_or_empty(o: &Option<String>) -> (r: String)
    ensures
        r@ == or_empty(opt_view(*o)),
{
    match o {
        Some(s) => s.clone(),
        None => String::new(),
    }
}

fn news_item_from(e: &FeedEntry, installed_packages: &Vec<String>) -> (r: NewsItem)
    ensures
        item_of_entry(r, e@, views(installed_packages@)),
{
    let title = text_or_empty(&e.title);
    let link = text_or_empty(&e.link);
    let raw = text_or_empty(&e.description);
    let description = strip_html(raw.as_str());
    let author = text_or_empty(&e.author);
    let date = text_or_empty(&e.pub_date);
    let pub_date = format_pub_date(date.as_str());
    let mut full = title.clone();
    full.append(" ");
    full.append(description.as_str());
    let requires_attention = check_requires_attention(full.as_str());
    let related_packages = find_related_packages(full.as_str(), installed_packages);
    NewsItem { title, link, description, author, pub_date, requires_attention, related_packages }
}

/// Reads an RSS document into news items, each matched against the installed
/// package names; fails exactly where the document is no RSS channel.
pub fn parse_rss_feed(xml: &str, installed_packages: &Vec<String>) -> (r: Result<
    Vec<NewsItem>,
    String,
>)
    ensures
        r is Ok <==> feed_entries(xml@) is Some,
        r matches Ok(items) ==> {
            let es = feed_entries(xml@)->Some_0;
            &&& items@.len() == es.len()
            &&& forall|i: int|
                0 <= i < es.len() ==> item_of_entry(
                    #[trigger] items@[i],
                    es[i],
                    views(installed_packages@),
                )
        },
{
    let entries = match read_feed(xml) {
        Ok(v) => v,
        Err(e) => {
            let mut msg = String::from_str("Failed to parse RSS: ");
            msg.append(e.as_str());
            return Err(msg);
        },
    };
    let ghost es = entries@.map_values(|e: FeedEntry| e@);
    let mut items: Vec<NewsItem> = Vec::new();
    let mut i: usize = 0;
    while i < entries.len()
        invariant
            es == entries@.map_values(|e: FeedEntry| e@),
            i <= entries@.len(),
            items@.len() == i,
            forall|k: int|
                0 <= k < i ==> item_of_entry(
                    #[trigger] items@[k],
                    es[k],
                    views(installed_packages@),
                ),
        decreases entries@.len() - i,
    {
        let item = news_item_from(&entries[i], installed_packages);
        items.push(item);
        i = i + 1;
    }
    Ok(items)
}

} // verus!
