//! Doc comments (`///`, desugared to `#[doc = "..."]`) as summaries and
//! descriptions.

use vstd::prelude::*;

use crate::attrs::{is_named, named, Attr, AttrForm, Lit};
use crate::text::{chars_of, join, join_chars, lemma_views_push, string_of, trim, trim_chars, views};

verus! {

/// The text of a `#[doc = "..."]` attribute.
pub open spec fn doc_text<R>(a: Attr<R>) -> Option<Seq<char>> {
    if named(a, "doc"@) {
        match a.form {
            AttrForm::NameValue(Lit::Str(s)) => Some(s@),
            _ => None,
        }
    } else {
        None
    }
}

/// Each line trimmed.
pub open spec fn trim_all(ls: Seq<Seq<char>>) -> Seq<Seq<char>> {
    ls.map_values(|l: Seq<char>| trim(l))
}

/// The doc lines of `attrs`, in order.
pub open spec fn doc_lines<R>(attrs: Seq<Attr<R>>) -> Seq<Seq<char>>
    decreases attrs.len(),
{
    if attrs.len() == 0 {
        Seq::empty()
    } else {
        let init = doc_lines(attrs.drop_last());
        match doc_text(attrs.last()) {
            Some(t) => init.push(t),
            None => init,
        }
    }
}

/// Index of the first line at or after `from` that is not blank, or the
/// number of lines.
pub open spec fn first_nonblank(ls: Seq<Seq<char>>, from: int) -> int
    decreases ls.len() - from,
{
    if from >= ls.len() {
        ls.len() as int
    } else if trim(ls[from]).len() > 0 {
        from
    } else {
        first_nonblank(ls, from + 1)
    }
}

/// The description made of trimmed lines `rest`: `None` when every line is
/// empty, else the lines joined with newlines and trimmed.
pub open spec fn doc_description(rest: Seq<Seq<char>>) -> Option<Seq<char>> {
    if rest.len() == 0 || forall|k: int| 0 <= k < rest.len() ==> #[trigger] rest[k].len() == 0 {
        None
    } else {
        Some(trim(join(rest, seq!['\n'])))
    }
}

/// The summary and description `extract_doc_comments` gives for doc lines
/// `ls`: the first non-blank line (trimmed), and the trimmed lines after the
/// blank lines that follow it, joined with newlines and trimmed.
pub open spec fn doc_summary(ls: Seq<Seq<char>>) -> (Option<Seq<char>>, Option<Seq<char>>) {
    if ls.len() == 0 {
        (None, None)
    } else {
        let j = first_nonblank(ls, 0);
        let summary = if j < ls.len() {
            Some(trim(ls[j]))
        } else {
            None
        };
        let start = first_nonblank(ls, if j < ls.len() { j + 1 } else { 0 });
        (summary, doc_description(trim_all(ls.skip(start))))
    }
}

fn doc_text_of<R>(a: &Attr<R>) -> (r: Option<Vec<char>>)
    ensures
        match r {
            Some(v) => doc_text(*a) == Some(v@),
            None => doc_text(*a) is None,
        },
{
    if is_named(a, "doc") {
        if let AttrForm::NameValue(Lit::Str(s)) = &a.form {
            return Some(chars_of(s.as_str()));
        }
    }
    None
}

/// The doc lines of `attrs`.
fn collect_doc_lines<R>(attrs: &Vec<Attr<R>>) -> (r: Vec<Vec<char>>)
    ensures
        views(r@) == doc_lines(attrs@),
{
    let mut out: Vec<Vec<char>> = Vec::new();
    let mut i: usize = 0;
    while i < attrs.len()
        invariant
            0 <= i <= attrs@.len(),
            views(out@) == doc_lines(attrs@.take(i as int)),
        decreases attrs@.len() - i,
    {
        assert(attrs@.take(i + 1).drop_last() =~= attrs@.take(i as int));
        assert(attrs@.take(i + 1).last() == attrs@[i as int]);
        match doc_text_of(&attrs[i]) {
            Some(t) => {
                out.push(t);
                assert(views(out@) =~= doc_lines(attrs@.take(i as int)).push(out@.last()@));
            },
            None => {},
        }
        i = i + 1;
    }
    assert(attrs@.take(attrs@.len() as int) =~= attrs@);
    out
}

fn nonblank(l: &Vec<char>) -> (r: bool)
    ensures
        r == (trim(l@).len() > 0),
{
    trim_chars(l).len() > 0
}

/// Extract `///` doc comments from attributes: the first non-empty line is
/// the summary, the remaining lines (after the blank lines that follow it)
/// the description.
pub fn extract_doc_comments<R>(attrs: &Vec<Attr<R>>) -> (r: (Option<String>, Option<String>))
    ensures
        (opt_chars(r.0), opt_chars(r.1)) == doc_summary(doc_lines(attrs@)),
{
    let lines = collect_doc_lines(attrs);
    let ghost ls = doc_lines(attrs@);
    assert(views(lines@) == ls);
    if lines.len() == 0 {
        return (None, None);
    }
    let mut j: usize = 0;
    while j < lines.len() && !nonblank(&lines[j])
        invariant
            views(lines@) == ls,
            0 <= j <= lines@.len(),
            first_nonblank(ls, 0) == first_nonblank(ls, j as int),
        decreases lines@.len() - j,
    {
        assert(ls[j as int] == lines@[j as int]@);
        j = j + 1;
    }
    if j < lines.len() {
        assert(ls[j as int] == lines@[j as int]@);
    }
    let summary = if j < lines.len() {
        Some(string_of(&trim_chars(&lines[j])))
    } else {
        None
    };
    let mut start: usize = if j < lines.len() { j + 1 } else { 0 };
    let ghost s0 = start as int;
    while start < lines.len() && !nonblank(&lines[start])
        invariant
            views(lines@) == ls,
            0 <= start <= lines@.len(),
            first_nonblank(ls, s0) == first_nonblank(ls, start as int),
        decreases lines@.len() - start,
    {
        assert(ls[start as int] == lines@[start as int]@);
        start = start + 1;
    }
    if start < lines.len() {
        assert(ls[start as int] == lines@[start as int]@);
    }
    let ghost rest = trim_all(ls.skip(start as int));
    let mut trimmed: Vec<Vec<char>> = Vec::new();
    let mut any = false;
    let mut k = start;
    while k < lines.len()
        invariant
            views(lines@) == ls,
            start <= k <= lines@.len(),
            rest == trim_all(ls.skip(start as int)),
            views(trimmed@) == rest.take(k - start),
            any == exists|m: int| 0 <= m < k - start && #[trigger] rest[m].len() > 0,
        decreases lines@.len() - k,
    {
        let t = trim_chars(&lines[k]);
        assert(rest[k - start] == trim(ls[k as int]));
        assert(ls[k as int] == lines@[k as int]@);
        if t.len() > 0 {
            any = true;
        }
        let ghost before = trimmed@;
        trimmed.push(t);
        proof {
            lemma_views_push(before, t);
            assert(rest.take(k - start).push(rest[k - start]) =~= rest.take(k + 1 - start));
        }
        k = k + 1;
    }
    assert(rest.take(k - start) =~= rest);
    proof {
        reveal_strlit("\n");
        assert("\n"@ =~= seq!['\n']);
        assert(views(trimmed@) == rest);
        assert(first_nonblank(ls, j as int) == j as int);
        assert(first_nonblank(ls, start as int) == start as int);
        assert(rest.len() == k - start);
        let jj = first_nonblank(ls, 0);
        assert(jj == j as int);
        assert(s0 == (if jj < ls.len() { jj + 1 } else { 0 }));
        assert(first_nonblank(ls, s0) == start as int);
        assert(ls.len() > 0);
        if !any {
            assert forall|q: int| 0 <= q < rest.len() implies #[trigger] rest[q].len() == 0 by {
                if rest[q].len() > 0 {
                    assert(exists|m: int| 0 <= m < k - start && #[trigger] rest[m].len() > 0);
                }
            }
        }
        if any {
            let m = choose|m: int| 0 <= m < k - start && #[trigger] rest[m].len() > 0;
            assert(!(forall|q: int| 0 <= q < rest.len() ==> #[trigger] rest[q].len() == 0));
        }
    }
    let description = if !any {
        None
    } else {
        let joined = join_chars(&trimmed, "\n");
        assert(joined@ == join(rest, seq!['\n']));
        Some(string_of(&trim_chars(&joined)))
    };
    assert(any ==> opt_chars(description) == Some(trim(join(rest, seq!['\n']))));
    assert(!any ==> opt_chars(description) is None);
    assert(rest == trim_all(ls.skip(first_nonblank(ls, if first_nonblank(ls, 0) < ls.len() { first_nonblank(ls, 0) + 1 } else { 0 }))));
    assert(opt_chars(description) == doc_description(rest));
    assert(opt_chars(description) == doc_summary(ls).1);
    assert(opt_chars(summary) == doc_summary(ls).0);
    (summary, description)
}

/// The character view of an optional string.
pub open spec fn opt_chars(o: Option<String>) -> Option<Seq<char>> {
    match o {
        Some(s) => Some(s@),
        None => None,
    }
}

/// The doc text of a config field: each doc line trimmed, joined with single
/// spaces; `None` when there are no doc lines.
pub open spec fn field_doc(ls: Seq<Seq<char>>) -> Option<Seq<char>> {
    if ls.len() == 0 {
        None
    } else {
        Some(join(trim_all(ls), seq![' ']))
    }
}

/// Extract a config field's doc comment as one line.
pub fn extract_doc_comment<R>(attrs: &Vec<Attr<R>>) -> (r: Option<String>)
    ensures
        opt_chars(r) == field_doc(doc_lines(attrs@)),
{
    let lines = collect_doc_lines(attrs);
    let ghost ls = doc_lines(attrs@);
    if lines.len() == 0 {
        return None;
    }
    let mut trimmed: Vec<Vec<char>> = Vec::new();
    let mut k: usize = 0;
    while k < lines.len()
        invariant
            views(lines@) == ls,
            0 <= k <= lines@.len(),
            views(trimmed@) == trim_all(ls).take(k as int),
        decreases lines@.len() - k,
    {
        let t = trim_chars(&lines[k]);
        assert(ls[k as int] == lines@[k as int]@);
        let ghost before = trimmed@;
        trimmed.push(t);
        proof {
            lemma_views_push(before, t);
            let m = trim_all(ls);
            assert(m.take(k as int).push(m[k as int]) =~= m.take(k + 1));
        }
        k = k + 1;
    }
    assert(trim_all(ls).take(k as int) =~= trim_all(ls));
    proof {
        reveal_strlit(" ");
        assert(" "@ =~= seq![' ']);
    }
    let joined = join_chars(&trimmed, " ");
    assert(views(trimmed@) == trim_all(ls));
    assert(joined@ == join(trim_all(ls), seq![' ']));
    Some(string_of(&joined))
}

} // verus!
