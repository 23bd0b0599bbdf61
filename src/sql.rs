//! Normalisation of SQL definition text: a compact single-line form and a
//! pretty multi-line form.
use vstd::prelude::*;
use crate::text::{chars_of, string_of};

verus! {

/// Unicode `White_Space`, the set that `char::is_whitespace` tests.
pub open spec fn is_ws(c: char) -> bool {
    let u = c as u32;
    (0x9 <= u && u <= 0xd) || u == 0x20 || u == 0x85 || u == 0xa0 || u == 0x1680 || (0x2000
        <= u && u <= 0x200a) || u == 0x2028 || u == 0x2029 || u == 0x202f || u == 0x205f || u
        == 0x3000
}

/// Decides `is_ws(c)`.
pub fn is_whitespace_char(c: char) -> (r: bool)
    ensures
        r == is_ws(c),
{
    let u = c as u32;
    (0x9 <= u && u <= 0xd) || u == 0x20 || u == 0x85 || u == 0xa0 || u == 0x1680 || (0x2000
        <= u && u <= 0x200a) || u == 0x2028 || u == 0x2029 || u == 0x202f || u == 0x205f || u
        == 0x3000
}

/// The words of `s` (its maximal runs of non-whitespace) joined by single
/// spaces, built up one character at a time.
pub open spec fn compact(s: Seq<char>) -> Seq<char>
    decreases s.len(),
{
    if s.len() == 0 {
        Seq::empty()
    } else {
        let p = s.drop_last();
        let c = s.last();
        if is_ws(c) {
            compact(p)
        } else if compact(p).len() > 0 && is_ws(p.last()) {
            compact(p).push(' ').push(c)
        } else {
            compact(p).push(c)
        }
    }
}

/// Every whitespace character is a plain space that follows a
/// non-whitespace character.
pub open spec fn well_spaced(t: Seq<char>) -> bool {
    forall|i: int|
        0 <= i < t.len() && is_ws(#[trigger] t[i]) ==> t[i] == ' ' && i > 0 && !is_ws(t[i - 1])
}

/// Text in compact form: words separated by single spaces, with no
/// whitespace at either end.
pub open spec fn is_compact(t: Seq<char>) -> bool {
    well_spaced(t) && !(t.len() > 0 && is_ws(t.last()))
}

/// Collapses every whitespace run into one space and trims both ends.
pub fn sql_fmt(sql: &str) -> (r: String)
    ensures
        r@ == compact(sql@),
{
    let cs = chars_of(sql);
    let mut out: Vec<char> = Vec::new();
    let mut i: usize = 0;
    while i < cs.len()
        invariant
            cs@ == sql@,
            i <= cs@.len(),
            out@ == compact(cs@.take(i as int)),
        decreases cs@.len() - i,
    {
        let ghost p = cs@.take(i as int);
        assert(cs@.take(i + 1).drop_last() =~= p);
        let c = cs[i];
        if !is_whitespace_char(c) {
            if out.len() > 0 && is_whitespace_char(cs[i - 1]) {
                out.push(' ');
            }
            out.push(c);
        }
        i = i + 1;
    }
    assert(cs@.take(i as int) =~= cs@);
    string_of(&out)
}

/// Compact form is well spaced and ends in no whitespace.
pub proof fn lemma_compact_is_compact(s: Seq<char>)
    ensures
        is_compact(compact(s)),
    decreases s.len(),
{
    if s.len() > 0 {
        let p = s.drop_last();
        lemma_compact_is_compact(p);
        let cp = compact(p);
        let r = compact(s);
        assert forall|i: int| 0 <= i < r.len() && is_ws(#[trigger] r[i]) implies r[i] == ' ' && i
            > 0 && !is_ws(r[i - 1]) by {
            if i < cp.len() {
                assert(r[i] == cp[i]);
                if i > 0 {
                    assert(r[i - 1] == cp[i - 1]);
                }
            }
        };
    }
}

proof fn lemma_well_spaced_fixed(t: Seq<char>)
    requires
        well_spaced(t),
    ensures
        compact(t) == (if t.len() > 0 && is_ws(t.last()) {
            t.drop_last()
        } else {
            t
        }),
    decreases t.len(),
{
    if t.len() > 0 {
        let p = t.drop_last();
        assert forall|i: int| 0 <= i < p.len() && is_ws(#[trigger] p[i]) implies p[i] == ' ' && i
            > 0 && !is_ws(p[i - 1]) by {
            assert(t[i] == p[i]);
        };
        lemma_well_spaced_fixed(p);
        let c = t.last();
        if is_ws(c) {
            assert(!is_ws(t[t.len() - 2]));
            assert(p.last() == t[t.len() - 2]);
        } else if p.len() > 0 && is_ws(p.last()) {
            assert(p.len() >= 2);
            assert(p[p.len() - 1] == t[t.len() - 2]);
            assert(p.drop_last().len() > 0);
            assert(p.drop_last().push(' ').push(c) =~= t);
        } else {
            assert(p.push(c) =~= t);
        }
    }
}

/// Text already in compact form is left unchanged.
pub proof fn lemma_compact_keeps_compact(t: Seq<char>)
    requires
        is_compact(t),
    ensures
        compact(t) == t,
{
    lemma_well_spaced_fixed(t);
}

/// Compacting twice gives the same text as compacting once.
pub proof fn lemma_compact_idempotent(s: Seq<char>)
    ensures
        compact(compact(s)) == compact(s),
{
    lemma_compact_is_compact(s);
    lemma_compact_keeps_compact(compact(s));
}

/// What `sqlformat::format` returns for `sql` with no query parameters and
/// otherwise default options, with `indent` spaces per level and keywords
/// upper-cased when `uppercase` holds.
pub uninterp spec fn formatted_sql(sql: Seq<char>, indent: u8, uppercase: bool) -> Seq<char>;

/// Relies on `sqlformat::format`, whose result depends on its arguments alone.
#[verifier::external_body]
fn sqlformat_format(sql: &str, indent: u8, uppercase: bool) -> (r: String)
    ensures
        r@ == formatted_sql(sql@, indent, uppercase),
{
    let mut opt = sqlformat::FormatOptions::default();
    opt.indent = sqlformat::Indent::Spaces(indent);
    opt.uppercase = Some(uppercase);
    sqlformat::format(sql, &sqlformat::QueryParams::None, &opt)
}

/// Spaces per indentation level in pretty output.
pub const PRETTY_INDENT: u8 = 4;

/// Re-indents with four spaces per level and upper-cases keywords.
pub fn sql_fmt_pretty(sql: &str) -> (r: String)
    ensures
        r@ == formatted_sql(sql@, 4, true),
{
    sqlformat_format(sql, PRETTY_INDENT, true)
}

} // verus!
