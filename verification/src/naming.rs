//! Naming conventions: case conversion of identifiers into configuration tags,
//! query keys and human-readable messages.

use vstd::prelude::*;

use crate::text::{
    chars_are, chars_of, is_ascii_digit, is_ascii_lower, is_ascii_upper, is_digit, push_str, slice_chars,
    string_of,
};

verus! {

/// Whether `c` has the Unicode `Uppercase` property (`char::is_uppercase`).
pub uninterp spec fn uppercase_char(c: char) -> bool;

/// Whether `c` has the Unicode `Lowercase` property (`char::is_lowercase`).
pub uninterp spec fn lowercase_char(c: char) -> bool;

/// The Unicode lowercase mapping of `c` (`char::to_lowercase`).
pub uninterp spec fn lower_of_char(c: char) -> Seq<char>;

/// The Unicode uppercase mapping of `c` (`char::to_uppercase`).
pub uninterp spec fn upper_of_char(c: char) -> Seq<char>;

/// The Unicode uppercase of a whole string (`str::to_uppercase`).
pub uninterp spec fn upper_of_str(s: Seq<char>) -> Seq<char>;

/// The Unicode lowercase of a whole string (`str::to_lowercase`).
pub uninterp spec fn lower_of_str(s: Seq<char>) -> Seq<char>;

pub open spec fn is_ascii(c: char) -> bool {
    (c as u32) < 128
}

pub open spec fn all_ascii(s: Seq<char>) -> bool {
    forall|i: int| 0 <= i < s.len() ==> is_ascii(#[trigger] s[i])
}

/// ASCII lowercase of one character (other characters unchanged).
pub open spec fn ascii_lowered(c: char) -> char {
    if is_ascii_upper(c) {
        ((c as u32) + 32) as char
    } else {
        c
    }
}

/// ASCII uppercase of one character (other characters unchanged).
pub open spec fn ascii_uppered(c: char) -> char {
    if is_ascii_lower(c) {
        ((c as u32) - 32) as char
    } else {
        c
    }
}

pub open spec fn ascii_lower_all(s: Seq<char>) -> Seq<char> {
    Seq::new(s.len(), |i: int| ascii_lowered(s[i]))
}

pub open spec fn ascii_upper_all(s: Seq<char>) -> Seq<char> {
    Seq::new(s.len(), |i: int| ascii_uppered(s[i]))
}

/// `char::is_uppercase` as the contracts use it: `A`..=`Z` on ASCII, the
/// Unicode property elsewhere.
pub open spec fn is_upper_ch(c: char) -> bool {
    if is_ascii(c) {
        is_ascii_upper(c)
    } else {
        uppercase_char(c)
    }
}

/// `char::is_lowercase`: `a`..=`z` on ASCII, the Unicode property elsewhere.
pub open spec fn is_lower_ch(c: char) -> bool {
    if is_ascii(c) {
        is_ascii_lower(c)
    } else {
        lowercase_char(c)
    }
}

/// `char::to_lowercase`: the ASCII lowercase on ASCII, the Unicode mapping
/// elsewhere.
pub open spec fn lower_ch(c: char) -> Seq<char> {
    if is_ascii(c) {
        seq![ascii_lowered(c)]
    } else {
        lower_of_char(c)
    }
}

/// `char::to_uppercase`: the ASCII uppercase on ASCII, the Unicode mapping
/// elsewhere.
pub open spec fn upper_ch(c: char) -> Seq<char> {
    if is_ascii(c) {
        seq![ascii_uppered(c)]
    } else {
        upper_of_char(c)
    }
}

/// `str::to_uppercase`: letter by letter on ASCII text, the Unicode mapping
/// elsewhere.
pub open spec fn upper_text(s: Seq<char>) -> Seq<char> {
    if all_ascii(s) {
        ascii_upper_all(s)
    } else {
        upper_of_str(s)
    }
}

/// `str::to_lowercase`: letter by letter on ASCII text, the Unicode mapping
/// elsewhere.
pub open spec fn lower_text(s: Seq<char>) -> Seq<char> {
    if all_ascii(s) {
        ascii_lower_all(s)
    } else {
        lower_of_str(s)
    }
}

/// `char::is_uppercase`. For an ASCII character the property holds exactly
/// of `A`..=`Z`; of other characters nothing is stated beyond the name.
#[verifier::external_body]
pub(crate) fn is_upper(c: char) -> (r: bool)
    ensures
        r == uppercase_char(c),
        is_ascii(c) ==> (r == is_ascii_upper(c)),
{
    c.is_uppercase()
}

/// `char::is_lowercase`. For an ASCII character the property holds exactly
/// of `a`..=`z`.
#[verifier::external_body]
fn is_lower(c: char) -> (r: bool)
    ensures
        r == lowercase_char(c),
        is_ascii(c) ==> (r == is_ascii_lower(c)),
{
    c.is_lowercase()
}

/// `char::to_lowercase`, collected: one or more characters; an ASCII
/// character maps to its ASCII lowercase.
#[verifier::external_body]
fn lower_char(c: char) -> (r: Vec<char>)
    ensures
        r@ == lower_of_char(c),
        r@.len() >= 1,
        is_ascii(c) ==> r@ == seq![ascii_lowered(c)],
{
    c.to_lowercase().collect()
}

/// `char::to_uppercase`, collected: one or more characters; an ASCII
/// character maps to its ASCII uppercase.
#[verifier::external_body]
fn upper_char(c: char) -> (r: Vec<char>)
    ensures
        r@ == upper_of_char(c),
        r@.len() >= 1,
        is_ascii(c) ==> r@ == seq![ascii_uppered(c)],
{
    c.to_uppercase().collect()
}

/// `str::to_uppercase`; on ASCII text it uppercases each letter in place.
#[verifier::external_body]
fn upper_str(s: &str) -> (r: String)
    ensures
        r@ == upper_of_str(s@),
        all_ascii(s@) ==> r@ == ascii_upper_all(s@),
{
    s.to_uppercase()
}

/// `str::to_lowercase`; on ASCII text it lowercases each letter in place.
#[verifier::external_body]
pub(crate) fn lower_str(s: &str) -> (r: String)
    ensures
        r@ == lower_of_str(s@),
        all_ascii(s@) ==> r@ == ascii_lower_all(s@),
{
    s.to_lowercase()
}

// ── camel_to_delimited ──────────────────────────────────────────────────

/// A word boundary falls before index `i` of a PascalCase identifier: an
/// uppercase letter after a lowercase letter or a digit, or the last capital
/// of an acronym that a lowercase letter follows (`HTTPServer` → `http_server`).
pub open spec fn word_break(s: Seq<char>, i: int) -> bool {
    &&& 0 < i < s.len()
    &&& is_upper_ch(s[i])
    &&& {
        ||| is_lower_ch(s[i - 1])
        ||| is_digit(s[i - 1])
        ||| (is_upper_ch(s[i - 1]) && i + 1 < s.len() && is_lower_ch(s[i + 1]))
    }
}

/// The delimited form of the first `n` characters of `s`.
pub open spec fn delimited_prefix(s: Seq<char>, delim: char, n: int) -> Seq<char>
    decreases n,
{
    if n <= 0 {
        Seq::empty()
    } else {
        delimited_prefix(s, delim, n - 1) + (if word_break(s, n - 1) {
            seq![delim]
        } else {
            Seq::empty()
        }) + lower_ch(s[n - 1])
    }
}

/// PascalCase split into lowercase words joined by `delim`.
pub open spec fn camel_delimited(s: Seq<char>, delim: char) -> Seq<char> {
    delimited_prefix(s, delim, s.len() as int)
}

/// Split a PascalCase identifier into lowercase words joined by `delim`
/// (`PassThrough` → `pass_through`, `S3` → `s3`).
pub fn camel_to_delimited(s: &str, delim: char) -> (r: String)
    ensures
        r@ == camel_delimited(s@, delim),
{
    let chars = chars_of(s);
    let mut out: Vec<char> = Vec::new();
    let mut i: usize = 0;
    while i < chars.len()
        invariant
            0 <= i <= chars@.len(),
            chars@ == s@,
            out@ == delimited_prefix(s@, delim, i as int),
        decreases chars@.len() - i,
    {
        let c = chars[i];
        let mut brk = false;
        if i > 0 && is_upper(c) {
            let p = chars[i - 1];
            let prev_lower = is_lower(p) || is_ascii_digit(p);
            let next_lower = i + 1 < chars.len() && is_lower(chars[i + 1]);
            brk = prev_lower || (is_upper(p) && next_lower);
        }
        assert(brk == word_break(s@, i as int));
        if brk {
            out.push(delim);
        }
        let mut l = lower_char(c);
        let ghost before = out@;
        out.append(&mut l);
        i = i + 1;
        assert(out@ =~= delimited_prefix(s@, delim, i as int));
    }
    string_of(&out)
}

// ── humanize_ident ──────────────────────────────────────────────────────

/// The humanized form of the first `n` characters of `s`.
pub open spec fn humanized_prefix(s: Seq<char>, n: int) -> Seq<char>
    decreases n,
{
    if n <= 0 {
        Seq::empty()
    } else {
        let c = s[n - 1];
        humanized_prefix(s, n - 1) + if n - 1 > 0 && is_upper_ch(c) {
            seq![' ', lower_ch(c)[0]]
        } else {
            seq![c]
        }
    }
}

/// A PascalCase identifier as words: every uppercase letter after the first
/// character becomes a space and the first character of its lowercase form.
pub open spec fn humanized(s: Seq<char>) -> Seq<char> {
    humanized_prefix(s, s.len() as int)
}

/// `UserNotFound` → `User not found`: the default message of an error variant.
pub fn humanize_ident(ident: &str) -> (r: String)
    ensures
        r@ == humanized(ident@),
{
    let chars = chars_of(ident);
    let mut out: Vec<char> = Vec::new();
    let mut i: usize = 0;
    while i < chars.len()
        invariant
            0 <= i <= chars@.len(),
            chars@ == ident@,
            out@ == humanized_prefix(ident@, i as int),
        decreases chars@.len() - i,
    {
        let ch = chars[i];
        if i > 0 && is_upper(ch) {
            out.push(' ');
            let l = lower_char(ch);
            out.push(l[0]);
        } else {
            out.push(ch);
        }
        i = i + 1;
        assert(out@ =~= humanized_prefix(ident@, i as int));
    }
    string_of(&out)
}

// ── capitalize ──────────────────────────────────────────────────────────

/// `w` with its first character replaced by its uppercase mapping.
pub open spec fn capitalized(w: Seq<char>) -> Seq<char> {
    if w.len() == 0 {
        Seq::empty()
    } else {
        upper_ch(w[0]) + w.drop_first()
    }
}

fn capitalize_chars(w: &Vec<char>) -> (r: Vec<char>)
    ensures
        r@ == capitalized(w@),
{
    if w.len() == 0 {
        return Vec::new();
    }
    let mut out = upper_char(w[0]);
    let mut rest = slice_chars(w, 1, w.len());
    assert(rest@ =~= w@.drop_first());
    out.append(&mut rest);
    out
}

/// The word with its first character uppercased.
pub fn capitalize(word: &str) -> (r: String)
    ensures
        r@ == capitalized(word@),
{
    let w = chars_of(word);
    let c = capitalize_chars(&w);
    string_of(&c)
}

// ── serde `rename_all` conventions ─────────────────────────────────────

/// A `#[serde(rename_all = "…")]` case convention.
#[derive(Clone, Copy, PartialEq, Eq, Debug)]
pub enum RenameAll {
    Lower,
    Upper,
    Pascal,
    Camel,
    Snake,
    ScreamingSnake,
    Kebab,
    ScreamingKebab,
}

/// The convention a serde spelling names, if any.
pub open spec fn rename_all_named(s: Seq<char>) -> Option<RenameAll> {
    if s == "lowercase"@ {
        Some(RenameAll::Lower)
    } else if s == "UPPERCASE"@ {
        Some(RenameAll::Upper)
    } else if s == "PascalCase"@ {
        Some(RenameAll::Pascal)
    } else if s == "camelCase"@ {
        Some(RenameAll::Camel)
    } else if s == "snake_case"@ {
        Some(RenameAll::Snake)
    } else if s == "SCREAMING_SNAKE_CASE"@ {
        Some(RenameAll::ScreamingSnake)
    } else if s == "kebab-case"@ {
        Some(RenameAll::Kebab)
    } else if s == "SCREAMING-KEBAB-CASE"@ {
        Some(RenameAll::ScreamingKebab)
    } else {
        None
    }
}

/// The refusal of an unknown `rename_all` spelling.
pub open spec fn rename_all_refusal(other: Seq<char>) -> Seq<char> {
    "unsupported #[serde(rename_all = \""@ + other
        + "\")] for #[derive(Params)] — expected one of lowercase, UPPERCASE, PascalCase, camelCase, snake_case, SCREAMING_SNAKE_CASE, kebab-case, SCREAMING-KEBAB-CASE"@
}

/// The words of a snake_case name: the maximal runs between underscores,
/// empty runs dropped. `cur` is the run read so far, from index `i` on.
pub open spec fn words_from(s: Seq<char>, i: int, cur: Seq<char>) -> Seq<Seq<char>>
    decreases s.len() - i,
{
    let flushed = if cur.len() > 0 {
        seq![cur]
    } else {
        Seq::<Seq<char>>::empty()
    };
    if i < 0 || i >= s.len() {
        flushed
    } else if s[i] == '_' {
        flushed + words_from(s, i + 1, Seq::empty())
    } else {
        words_from(s, i + 1, cur.push(s[i]))
    }
}

/// The non-empty `_`-separated words of `s`.
pub open spec fn words(s: Seq<char>) -> Seq<Seq<char>> {
    words_from(s, 0, Seq::empty())
}

/// Each word capitalized, concatenated.
pub open spec fn pascal_join(ws: Seq<Seq<char>>) -> Seq<char>
    decreases ws.len(),
{
    if ws.len() == 0 {
        Seq::empty()
    } else {
        pascal_join(ws.drop_last()) + capitalized(ws.last())
    }
}

/// The first word as it is, each later word capitalized, concatenated.
pub open spec fn camel_join(ws: Seq<Seq<char>>) -> Seq<char>
    decreases ws.len(),
{
    if ws.len() == 0 {
        Seq::empty()
    } else if ws.len() == 1 {
        ws[0]
    } else {
        camel_join(ws.drop_last()) + capitalized(ws.last())
    }
}

/// `s` with every `_` replaced by `-`.
pub open spec fn dashed(s: Seq<char>) -> Seq<char> {
    Seq::new(s.len(), |i: int| if s[i] == '_' { '-' } else { s[i] })
}

/// A snake_case field name under a convention.
pub open spec fn renamed(style: RenameAll, f: Seq<char>) -> Seq<char> {
    match style {
        RenameAll::Lower => f,
        RenameAll::Upper => upper_text(f),
        RenameAll::Pascal => pascal_join(words(f)),
        RenameAll::Camel => camel_join(words(f)),
        RenameAll::Snake => f,
        RenameAll::ScreamingSnake => upper_text(f),
        RenameAll::Kebab => dashed(f),
        RenameAll::ScreamingKebab => upper_text(dashed(f)),
    }
}

fn dash_underscores(f: &Vec<char>) -> (r: Vec<char>)
    ensures
        r@ == dashed(f@),
{
    let mut out: Vec<char> = Vec::new();
    let mut i: usize = 0;
    while i < f.len()
        invariant
            0 <= i <= f@.len(),
            out@.len() == i,
            forall|k: int| 0 <= k < i ==> out@[k] == dashed(f@)[k],
        decreases f@.len() - i,
    {
        if f[i] == '_' {
            out.push('-');
        } else {
            out.push(f[i]);
        }
        i = i + 1;
    }
    assert(out@ =~= dashed(f@));
    out
}

/// The character views of a list of words.
pub open spec fn word_views(v: Seq<Vec<char>>) -> Seq<Seq<char>> {
    v.map_values(|w: Vec<char>| w@)
}

fn split_words(f: &Vec<char>) -> (r: Vec<Vec<char>>)
    ensures
        word_views(r@) == words(f@),
{
    let mut out: Vec<Vec<char>> = Vec::new();
    let mut cur: Vec<char> = Vec::new();
    let mut i: usize = 0;
    while i < f.len()
        invariant
            0 <= i <= f@.len(),
            words(f@) == word_views(out@) + words_from(f@, i as int, cur@),
        decreases f@.len() - i,
    {
        let ghost before = word_views(out@);
        if f[i] == '_' {
            if cur.len() > 0 {
                let ghost w = cur@;
                out.push(cur);
                assert(word_views(out@) =~= before.push(w));
                assert(words_from(f@, i as int, w) == seq![w] + words_from(f@, i + 1, Seq::empty()));
                cur = Vec::new();
                assert(word_views(out@) + words_from(f@, i + 1, cur@) =~= before + (seq![w]
                    + words_from(f@, i + 1, Seq::empty())));
            } else {
                assert(cur@ =~= Seq::<char>::empty());
                assert(words_from(f@, i as int, cur@) =~= words_from(f@, i + 1, Seq::empty()));
                cur = Vec::new();
            }
        } else {
            cur.push(f[i]);
        }
        i = i + 1;
    }
    let ghost before = word_views(out@);
    if cur.len() > 0 {
        let ghost w = cur@;
        out.push(cur);
        assert(word_views(out@) =~= before.push(w));
        assert(words_from(f@, i as int, w) == seq![w]);
    } else {
        assert(words_from(f@, i as int, cur@) =~= Seq::<Seq<char>>::empty());
    }
    assert(word_views(out@) =~= words(f@));
    out
}

fn join_words(ws: &Vec<Vec<char>>, keep_first: bool) -> (r: Vec<char>)
    ensures
        keep_first ==> r@ == camel_join(word_views(ws@)),
        !keep_first ==> r@ == pascal_join(word_views(ws@)),
{
    let mut out: Vec<char> = Vec::new();
    let mut i: usize = 0;
    while i < ws.len()
        invariant
            0 <= i <= ws@.len(),
            keep_first ==> out@ == camel_join(word_views(ws@.take(i as int))),
            !keep_first ==> out@ == pascal_join(word_views(ws@.take(i as int))),
        decreases ws@.len() - i,
    {
        let ghost prev = word_views(ws@.take(i as int));
        let ghost now = word_views(ws@.take(i + 1));
        assert(now.drop_last() =~= prev);
        assert(now.last() == ws@[i as int]@);
        let mut piece = if keep_first && i == 0 {
            slice_chars(&ws[i], 0, ws[i].len())
        } else {
            capitalize_chars(&ws[i])
        };
        proof {
            if keep_first && i == 0 {
                assert(piece@ =~= ws@[0]@);
                assert(now.len() == 1);
            }
        }
        out.append(&mut piece);
        i = i + 1;
    }
    assert(ws@.take(ws@.len() as int) =~= ws@);
    out
}

impl RenameAll {
    /// The convention a `rename_all` spelling names; an unknown spelling is
    /// refused with the list of the supported ones.
    pub fn parse(s: &str) -> (r: Result<RenameAll, String>)
        ensures
            match r {
                Ok(style) => rename_all_named(s@) == Some(style),
                Err(msg) => rename_all_named(s@) is None && msg@ == rename_all_refusal(s@),
            },
    {
        proof {
            reveal_strlit("lowercase");
            reveal_strlit("UPPERCASE");
            reveal_strlit("PascalCase");
            reveal_strlit("camelCase");
            reveal_strlit("snake_case");
            reveal_strlit("SCREAMING_SNAKE_CASE");
            reveal_strlit("kebab-case");
            reveal_strlit("SCREAMING-KEBAB-CASE");
        }
        let c = chars_of(s);
        if chars_are(&c, "lowercase") {
            Ok(RenameAll::Lower)
        } else if chars_are(&c, "UPPERCASE") {
            Ok(RenameAll::Upper)
        } else if chars_are(&c, "PascalCase") {
            Ok(RenameAll::Pascal)
        } else if chars_are(&c, "camelCase") {
            Ok(RenameAll::Camel)
        } else if chars_are(&c, "snake_case") {
            Ok(RenameAll::Snake)
        } else if chars_are(&c, "SCREAMING_SNAKE_CASE") {
            Ok(RenameAll::ScreamingSnake)
        } else if chars_are(&c, "kebab-case") {
            Ok(RenameAll::Kebab)
        } else if chars_are(&c, "SCREAMING-KEBAB-CASE") {
            Ok(RenameAll::ScreamingKebab)
        } else {
            let mut msg: Vec<char> = Vec::new();
            push_str(&mut msg, "unsupported #[serde(rename_all = \"");
            push_str(&mut msg, s);
            push_str(
                &mut msg,
                "\")] for #[derive(Params)] — expected one of lowercase, UPPERCASE, PascalCase, camelCase, snake_case, SCREAMING_SNAKE_CASE, kebab-case, SCREAMING-KEBAB-CASE",
            );
            Err(string_of(&msg))
        }
    }

    /// Apply the convention to a `snake_case` Rust field name.
    pub fn apply(self, field: &str) -> (r: String)
        ensures
            r@ == renamed(self, field@),
    {
        let f = chars_of(field);
        match self {
            RenameAll::Lower => string_of(&f),
            RenameAll::Upper => upper_str(field),
            RenameAll::Pascal => string_of(&join_words(&split_words(&f), false)),
            RenameAll::Camel => string_of(&join_words(&split_words(&f), true)),
            RenameAll::Snake => string_of(&f),
            RenameAll::ScreamingSnake => upper_str(field),
            RenameAll::Kebab => string_of(&dash_underscores(&f)),
            RenameAll::ScreamingKebab => {
                let s = string_of(&dash_underscores(&f));
                upper_str(s.as_str())
            },
        }
    }
}

// ── configuration enum tags ─────────────────────────────────────────────

/// The tag a `rename_all` style gives a variant identifier, or `None` for a
/// style that tags do not support.
pub open spec fn tag_of(ident: Seq<char>, style: Option<Seq<char>>) -> Option<Seq<char>> {
    match style {
        None => Some(camel_delimited(ident, '_')),
        Some(st) => if st == "snake_case"@ {
            Some(camel_delimited(ident, '_'))
        } else if st == "kebab-case"@ {
            Some(camel_delimited(ident, '-'))
        } else if st == "lowercase"@ {
            Some(lower_text(ident))
        } else {
            None
        },
    }
}

/// The refusal of an unsupported tag style.
pub open spec fn tag_style_refusal(other: Seq<char>) -> Seq<char> {
    "unsupported rename_all style `"@ + other
        + "` — expected `snake_case`, `kebab-case`, or `lowercase`"@
}

/// Apply a `rename_all` style to a variant identifier. Default: snake_case.
pub fn variant_tag_name(ident: &str, rename_all: Option<&String>) -> (r: Result<String, String>)
    ensures
        match r {
            Ok(tag) => tag_of(ident@, opt_str(rename_all)) == Some(tag@),
            Err(msg) => tag_of(ident@, opt_str(rename_all)) is None && msg@ == tag_style_refusal(
                rename_all->0@,
            ),
        },
{
    proof {
        reveal_strlit("snake_case");
        reveal_strlit("kebab-case");
        reveal_strlit("lowercase");
    }
    match rename_all {
        None => Ok(camel_to_delimited(ident, '_')),
        Some(style) => {
            let c = chars_of(style.as_str());
            if chars_are(&c, "snake_case") {
                Ok(camel_to_delimited(ident, '_'))
            } else if chars_are(&c, "kebab-case") {
                Ok(camel_to_delimited(ident, '-'))
            } else if chars_are(&c, "lowercase") {
                Ok(lower_str(ident))
            } else {
                let mut msg: Vec<char> = Vec::new();
                push_str(&mut msg, "unsupported rename_all style `");
                push_str(&mut msg, style.as_str());
                push_str(&mut msg, "` — expected `snake_case`, `kebab-case`, or `lowercase`");
                Err(string_of(&msg))
            }
        },
    }
}

/// The view of an optional string.
pub open spec fn opt_str(o: Option<&String>) -> Option<Seq<char>> {
    match o {
        Some(s) => Some(s@),
        None => None,
    }
}

/// The view of an optional owned string.
pub open spec fn opt_str_of(o: Option<String>) -> Option<Seq<char>> {
    match o {
        Some(s) => Some(s@),
        None => None,
    }
}

// ── laws ────────────────────────────────────────────────────────────────

/// The serde spelling of a convention.
pub open spec fn spelling(style: RenameAll) -> Seq<char> {
    match style {
        RenameAll::Lower => "lowercase"@,
        RenameAll::Upper => "UPPERCASE"@,
        RenameAll::Pascal => "PascalCase"@,
        RenameAll::Camel => "camelCase"@,
        RenameAll::Snake => "snake_case"@,
        RenameAll::ScreamingSnake => "SCREAMING_SNAKE_CASE"@,
        RenameAll::Kebab => "kebab-case"@,
        RenameAll::ScreamingKebab => "SCREAMING-KEBAB-CASE"@,
    }
}

/// Each convention is read back from its own spelling, and from no other.
pub proof fn lemma_spelling_round_trip(style: RenameAll, s: Seq<char>)
    ensures
        rename_all_named(spelling(style)) == Some(style),
        rename_all_named(s) == Some(style) ==> s == spelling(style),
{
    reveal_strlit("lowercase");
    reveal_strlit("UPPERCASE");
    reveal_strlit("PascalCase");
    reveal_strlit("camelCase");
    reveal_strlit("snake_case");
    reveal_strlit("SCREAMING_SNAKE_CASE");
    reveal_strlit("kebab-case");
    reveal_strlit("SCREAMING-KEBAB-CASE");
    assert("lowercase"@[0] == 'l');
    assert("UPPERCASE"@[0] == 'U');
    assert("PascalCase"@[0] == 'P');
    assert("camelCase"@[0] == 'c');
    assert("snake_case"@[0] == 's');
    assert("SCREAMING_SNAKE_CASE"@[0] == 'S');
    assert("kebab-case"@[0] == 'k');
    assert("SCREAMING-KEBAB-CASE"@[9] == '-');
    assert("SCREAMING_SNAKE_CASE"@[9] == '_');
}

/// The words of a snake_case name are non-empty and hold no underscore.
pub proof fn lemma_words_clean(s: Seq<char>, i: int, cur: Seq<char>)
    requires
        !cur.contains('_'),
    ensures
        forall|k: int|
            0 <= k < words_from(s, i, cur).len() ==> (#[trigger] words_from(s, i, cur)[k]).len() > 0
                && !words_from(s, i, cur)[k].contains('_'),
    decreases s.len() - i,
{
    let flushed = if cur.len() > 0 {
        seq![cur]
    } else {
        Seq::<Seq<char>>::empty()
    };
    let w = words_from(s, i, cur);
    if 0 <= i < s.len() {
        if s[i] == '_' {
            lemma_words_clean(s, i + 1, Seq::empty());
            let r = words_from(s, i + 1, Seq::empty());
            assert(w == flushed + r);
            assert forall|k: int| 0 <= k < w.len() implies (#[trigger] w[k]).len() > 0 && !w[k].contains(
                '_',
            ) by {
                if k >= flushed.len() {
                    assert(w[k] == r[k - flushed.len()]);
                } else {
                    assert(w[k] == cur);
                }
            }
        } else {
            let c2 = cur.push(s[i]);
            assert(!c2.contains('_')) by {
                if c2.contains('_') {
                    let k = choose|k: int| 0 <= k < c2.len() && c2[k] == '_';
                    if k < cur.len() {
                        assert(cur[k] == '_');
                    }
                }
            }
            lemma_words_clean(s, i + 1, c2);
            assert(w == words_from(s, i + 1, c2));
        }
    } else {
        assert(w == flushed);
        assert forall|k: int| 0 <= k < w.len() implies (#[trigger] w[k]).len() > 0 && !w[k].contains('_') by {
            assert(w[k] == cur);
        }
    }
}

/// `snake_case` keeps a field name as it is, and `kebab-case` only turns its
/// underscores into dashes.
pub proof fn lemma_snake_and_kebab(f: Seq<char>)
    ensures
        renamed(RenameAll::Snake, f) == f,
        renamed(RenameAll::Kebab, f).len() == f.len(),
        forall|k: int|
            0 <= k < f.len() ==> (#[trigger] renamed(RenameAll::Kebab, f)[k]) == if f[k] == '_' {
                '-'
            } else {
                f[k]
            },
{
}


/// camelCase keeps the first word as written and capitalizes every later
/// word; PascalCase capitalizes every word: with `ws` the words,
/// `camel_join(ws)` is `ws[0]` followed by the capitalized `ws[1]`, ...,
/// `ws[n - 1]`, and `pascal_join(ws)` is the capitalized words concatenated
/// (`sort_by_field` is `sortByField` and `SortByField`).
#[verifier::spinoff_prover]
pub proof fn lemma_camel_and_pascal_joins(ws: Seq<Seq<char>>)
    ensures
        pascal_join(ws) == ws.map_values(|w: Seq<char>| capitalized(w)).flatten(),
        ws.len() > 0 ==> camel_join(ws) == ws[0] + ws.drop_first().map_values(
            |w: Seq<char>| capitalized(w),
        ).flatten(),
    decreases ws.len(),
{
    let caps = ws.map_values(|w: Seq<char>| capitalized(w));
    caps.lemma_flatten_and_flatten_alt_are_equivalent();
    if ws.len() > 0 {
        lemma_camel_and_pascal_joins(ws.drop_last());
        let init = ws.drop_last().map_values(|w: Seq<char>| capitalized(w));
        init.lemma_flatten_and_flatten_alt_are_equivalent();
        assert(caps.drop_last() =~= init);
        assert(caps.last() == capitalized(ws.last()));
        let rest = ws.drop_first().map_values(|w: Seq<char>| capitalized(w));
        rest.lemma_flatten_and_flatten_alt_are_equivalent();
        if ws.len() == 1 {
            assert(rest =~= Seq::<Seq<char>>::empty());
            assert(ws[0] + rest.flatten() =~= ws[0]);
        } else {
            let rest_init = ws.drop_last().drop_first().map_values(|w: Seq<char>| capitalized(w));
            rest_init.lemma_flatten_and_flatten_alt_are_equivalent();
            assert(rest.drop_last() =~= rest_init);
            assert(rest.last() == capitalized(ws.last()));
            assert(ws.drop_last()[0] == ws[0]);
            assert(camel_join(ws) == camel_join(ws.drop_last()) + capitalized(ws.last()));
            assert(ws[0] + rest.flatten_alt() =~= (ws[0] + rest_init.flatten_alt()) + capitalized(ws.last()));
        }
    }
}


/// `s` without the character `c`.
pub open spec fn without_char(s: Seq<char>, c: char) -> Seq<char>
    decreases s.len(),
{
    if s.len() == 0 {
        Seq::empty()
    } else {
        without_char(s.drop_last(), c) + if s.last() == c {
            Seq::empty()
        } else {
            seq![s.last()]
        }
    }
}

proof fn lemma_without_char_concat(a: Seq<char>, b: Seq<char>, c: char)
    ensures
        without_char(a + b, c) == without_char(a, c) + without_char(b, c),
    decreases b.len(),
{
    if b.len() == 0 {
        assert(a + b =~= a);
        assert(without_char(a, c) + without_char(b, c) =~= without_char(a, c));
    } else {
        assert((a + b).drop_last() =~= a + b.drop_last());
        lemma_without_char_concat(a, b.drop_last(), c);
        assert(without_char(a + b, c) =~= without_char(a, c) + without_char(b, c));
    }
}

/// Splitting into words only inserts delimiters: on ASCII text that holds
/// no delimiter, removing the delimiters from `camel_to_delimited`'s result
/// gives the text lowercased (`HTTPServer` → `http_server` → `httpserver`).
#[verifier::spinoff_prover]
pub proof fn lemma_delimited_is_lowered(s: Seq<char>, delim: char, n: int)
    requires
        0 <= n <= s.len(),
        all_ascii(s),
        !is_ascii_upper(delim),
        !is_ascii_lower(delim),
        forall|k: int| 0 <= k < s.len() ==> #[trigger] s[k] != delim,
    ensures
        without_char(delimited_prefix(s, delim, n), delim) == ascii_lower_all(s.take(n)),
    decreases n,
{
    if n > 0 {
        lemma_delimited_is_lowered(s, delim, n - 1);
        let c = s[n - 1];
        let brk = if word_break(s, n - 1) {
            seq![delim]
        } else {
            Seq::empty()
        };
        let prev = delimited_prefix(s, delim, n - 1);
        assert(is_ascii(c));
        assert(lower_ch(c) == seq![ascii_lowered(c)]);
        assert(ascii_lowered(c) != delim) by {
            if is_ascii_upper(c) {
                assert((ascii_lowered(c) as u32) == (c as u32) + 32);
            }
        }
        lemma_without_char_concat(prev + brk, lower_ch(c), delim);
        lemma_without_char_concat(prev, brk, delim);
        assert(without_char(brk, delim) =~= Seq::<char>::empty()) by {
            if word_break(s, n - 1) {
                assert(brk.drop_last() =~= Seq::<char>::empty());
                assert(without_char(Seq::<char>::empty(), delim) == Seq::<char>::empty());
                assert(brk.last() == delim);
            } else {
                assert(without_char(Seq::<char>::empty(), delim) == Seq::<char>::empty());
            }
        }
        assert(without_char(lower_ch(c), delim) =~= seq![ascii_lowered(c)]) by {
            assert(lower_ch(c).drop_last() =~= Seq::<char>::empty());
            assert(without_char(Seq::<char>::empty(), delim) == Seq::<char>::empty());
        }
        assert(ascii_lower_all(s.take(n)) =~= ascii_lower_all(s.take(n - 1)).push(ascii_lowered(c)));
        assert(without_char(delimited_prefix(s, delim, n), delim) =~= ascii_lower_all(s.take(n)));
    } else {
        assert(ascii_lower_all(s.take(0)) =~= Seq::<char>::empty());
    }
}

/// Humanizing only inserts spaces and lowercases: on ASCII text without
/// spaces, removing the spaces of `humanize_ident`'s result gives the first
/// character as written and the rest lowercased (`NotFound` →
/// `Not found` → `Notfound`).
#[verifier::spinoff_prover]
pub proof fn lemma_humanized_is_lowered(s: Seq<char>, n: int)
    requires
        0 < n <= s.len(),
        all_ascii(s),
        forall|k: int| 0 <= k < s.len() ==> #[trigger] s[k] != ' ',
    ensures
        without_char(humanized_prefix(s, n), ' ') == seq![s[0]] + ascii_lower_all(s.take(n).drop_first()),
    decreases n,
{
    let c = s[n - 1];
    assert(is_ascii(c));
    if n == 1 {
        assert(humanized_prefix(s, 0) =~= Seq::<char>::empty());
        assert(humanized_prefix(s, 1) =~= seq![c]);
        assert(without_char(seq![c], ' ') =~= seq![c]) by {
            assert(seq![c].drop_last() =~= Seq::<char>::empty());
            assert(without_char(Seq::<char>::empty(), ' ') == Seq::<char>::empty());
            assert(seq![c].last() == c && c != ' ');
            assert(without_char(seq![c], ' ') == without_char(seq![c].drop_last(), ' ') + seq![c]);
        }
        assert(ascii_lower_all(s.take(1).drop_first()) =~= Seq::<char>::empty());
        assert(seq![s[0]] + Seq::<char>::empty() =~= seq![s[0]]);
    } else {
        lemma_humanized_is_lowered(s, n - 1);
        let prev = humanized_prefix(s, n - 1);
        let piece = if is_upper_ch(c) {
            seq![' ', lower_ch(c)[0]]
        } else {
            seq![c]
        };
        lemma_without_char_concat(prev, piece, ' ');
        assert(without_char(piece, ' ') =~= seq![ascii_lowered(c)]) by {
            assert(without_char(Seq::<char>::empty(), ' ') == Seq::<char>::empty());
            if is_upper_ch(c) {
                assert(lower_ch(c) == seq![ascii_lowered(c)]);
                assert((ascii_lowered(c) as u32) == (c as u32) + 32);
                assert(ascii_lowered(c) != ' ');
                assert(piece.drop_last() =~= seq![' ']);
                assert(seq![' '].drop_last() =~= Seq::<char>::empty());
                assert(without_char(seq![' '], ' ') =~= Seq::<char>::empty());
            } else {
                assert(ascii_lowered(c) == c);
                assert(piece.drop_last() =~= Seq::<char>::empty());
            }
        }
        assert(s.take(n).drop_first() =~= s.take(n - 1).drop_first().push(c));
        assert(ascii_lower_all(s.take(n).drop_first()) =~= ascii_lower_all(s.take(n - 1).drop_first()).push(
            ascii_lowered(c),
        ));
        assert(without_char(humanized_prefix(s, n), ' ') =~= seq![s[0]] + ascii_lower_all(s.take(n).drop_first()));
    }
}


/// How the `rename_all` styles relate: `snake_case` and `lowercase` keep a
/// snake_case field as it is; `kebab-case` turns each `_` into `-` and
/// changes nothing else; the screaming styles and `UPPERCASE` are those
/// uppercased, letter by letter on ASCII (`user_id` is `user-id`,
/// `USER_ID`, `USER-ID`).
pub proof fn lemma_rename_styles(f: Seq<char>)
    ensures
        renamed(RenameAll::Snake, f) == f,
        renamed(RenameAll::Lower, f) == f,
        renamed(RenameAll::Kebab, f).len() == f.len(),
        forall|i: int|
            0 <= i < f.len() ==> #[trigger] renamed(RenameAll::Kebab, f)[i] == if f[i] == '_' {
                '-'
            } else {
                f[i]
            },
        renamed(RenameAll::Upper, f) == upper_text(f),
        renamed(RenameAll::ScreamingSnake, f) == upper_text(f),
        renamed(RenameAll::ScreamingKebab, f) == upper_text(renamed(RenameAll::Kebab, f)),
        all_ascii(f) ==> renamed(RenameAll::ScreamingSnake, f).len() == f.len() && forall|i: int|
            0 <= i < f.len() ==> #[trigger] renamed(RenameAll::ScreamingSnake, f)[i] == ascii_uppered(f[i]),
{
}

} // verus!
