//! Rendering of a database's schema definitions as an indented, sorted block.
use vstd::prelude::*;
use crate::sql::{compact, formatted_sql, sql_fmt, sql_fmt_pretty};
use crate::text::{
    chars_of, join, join_chars, lemma_map_same_entries, lemma_sorted_unique, lex_sorted, sort_chars,
    string_of, views,
};

verus! {

/// The eight spaces (two levels of four) put before each line of a definition.
pub open spec fn entry_indent() -> Seq<char> {
    seq![' ', ' ', ' ', ' ', ' ', ' ', ' ', ' ']
}

/// `s` cut at every line feed: one piece more than there are line feeds.
pub open spec fn pieces(s: Seq<char>) -> Seq<Seq<char>>
    decreases s.len(),
{
    if s.len() == 0 {
        seq![Seq::empty()]
    } else {
        let ps = pieces(s.drop_last());
        if s.last() == '\n' {
            ps.push(Seq::empty())
        } else {
            ps.update(ps.len() - 1, ps.last().push(s.last()))
        }
    }
}

/// A line ended by a line feed loses one carriage return before it.
pub open spec fn strip_cr(l: Seq<char>) -> Seq<char> {
    if l.len() > 0 && l.last() == '\r' {
        l.drop_last()
    } else {
        l
    }
}

/// The lines of `s` as `str::lines` gives them: split at `\n` or `\r\n`, with
/// no empty line after a final line feed.
pub open spec fn lines_of(s: Seq<char>) -> Seq<Seq<char>> {
    let ps = pieces(s);
    let body = ps.drop_last().map_values(|l: Seq<char>| strip_cr(l));
    if ps.last().len() == 0 {
        body
    } else {
        body.push(ps.last())
    }
}

/// `l` behind the entry indentation.
pub open spec fn indent_line(l: Seq<char>) -> Seq<char> {
    entry_indent() + l
}

/// Every line of `s` indented, joined by line feeds.
pub open spec fn indented(s: Seq<char>) -> Seq<char> {
    join(lines_of(s).map_values(|l: Seq<char>| indent_line(l)), seq!['\n'])
}

/// The text of one definition as it is shown: raw, compact or pretty.
pub open spec fn normalized(raw: Seq<char>, format_sql: bool, pretty: bool) -> Seq<char> {
    if !format_sql {
        raw
    } else if pretty {
        formatted_sql(raw, 4, true)
    } else {
        compact(raw)
    }
}

/// One definition as it appears in the schema block.
pub open spec fn rendered_entry(raw: Seq<char>, format_sql: bool, pretty: bool) -> Seq<char> {
    indented(normalized(raw, format_sql, pretty))
}

/// All definitions rendered, in catalog order.
pub open spec fn rendered_entries(rows: Seq<Seq<char>>, format_sql: bool, pretty: bool) -> Seq<
    Seq<char>,
> {
    rows.map_values(|raw: Seq<char>| rendered_entry(raw, format_sql, pretty))
}

/// A schema block for `rows`: its rendered entries in ascending order,
/// duplicates kept, one after another on their own lines.
pub open spec fn is_schema_block(
    block: Seq<char>,
    rows: Seq<Seq<char>>,
    format_sql: bool,
    pretty: bool,
) -> bool {
    exists|es: Seq<Seq<char>>|
        #![trigger lex_sorted(es)]
        lex_sorted(es) && es.to_multiset() == rendered_entries(rows, format_sql, pretty).to_multiset()
            && block == join(es, seq!['\n'])
}

fn eight_spaces() -> (r: Vec<char>)
    ensures
        r@ == entry_indent(),
{
    let r = vec![' ', ' ', ' ', ' ', ' ', ' ', ' ', ' '];
    assert(r@ =~= entry_indent());
    r
}

pub(crate) fn indented_line(l: &Vec<char>) -> (r: Vec<char>)
    ensures
        r@ == indent_line(l@),
{
    let mut r = eight_spaces();
    let mut k: usize = 0;
    while k < l.len()
        invariant
            k <= l@.len(),
            r@ == entry_indent() + l@.take(k as int),
        decreases l@.len() - k,
    {
        r.push(l[k]);
        k = k + 1;
        assert(r@ =~= entry_indent() + l@.take(k as int));
    }
    assert(l@.take(k as int) =~= l@);
    r
}

/// Indents every line of `s` and joins the lines with line feeds.
pub fn indent_lines(s: &Vec<char>) -> (r: Vec<char>)
    ensures
        r@ == indented(s@),
{
    let mut done: Vec<Vec<char>> = Vec::new();
    let mut cur: Vec<char> = Vec::new();
    let mut i: usize = 0;
    assert(s@.take(0) =~= Seq::<char>::empty());
    assert(views(done@) =~= pieces(s@.take(0)).drop_last().map_values(
        |l: Seq<char>| indent_line(strip_cr(l)),
    ));
    while i < s.len()
        invariant
            i <= s@.len(),
            views(done@) == pieces(s@.take(i as int)).drop_last().map_values(
                |l: Seq<char>| indent_line(strip_cr(l)),
            ),
            pieces(s@.take(i as int)).len() >= 1,
            cur@ == pieces(s@.take(i as int)).last(),
        decreases s@.len() - i,
    {
        let ghost pre = s@.take(i as int);
        assert(s@.take(i + 1).drop_last() =~= pre);
        let ghost ps = pieces(pre);
        let c = s[i];
        if c == '\n' {
            if cur.len() > 0 && cur[cur.len() - 1] == '\r' {
                cur.pop();
            }
            assert(cur@ == strip_cr(ps.last()));
            let line = indented_line(&cur);
            let ghost d0 = views(done@);
            let ghost lv = line@;
            done.push(line);
            assert(views(done@) =~= d0.push(lv));
            cur = Vec::new();
            assert(pieces(s@.take(i + 1)) == ps.push(Seq::empty()));
            assert(pieces(s@.take(i + 1)).drop_last() =~= ps);
            assert(ps =~= ps.drop_last().push(ps.last()));
            assert(views(done@) =~= ps.map_values(|l: Seq<char>| indent_line(strip_cr(l))));
        } else {
            cur.push(c);
            assert(pieces(s@.take(i + 1)).drop_last() =~= ps.drop_last());
        }
        i = i + 1;
    }
    assert(s@.take(i as int) =~= s@);
    let ghost ps = pieces(s@);
    assert(pieces(s@.take(i as int)) == ps);
    let ghost d0 = views(done@);
    assert(d0 =~= lines_of(s@).take(ps.len() - 1).map_values(|l: Seq<char>| indent_line(l)));
    if cur.len() > 0 {
        let line = indented_line(&cur);
        let ghost lv = line@;
        done.push(line);
        assert(views(done@) =~= d0.push(lv));
    }
    assert(views(done@) =~= lines_of(s@).map_values(|l: Seq<char>| indent_line(l)));
    let nl = vec!['\n'];
    assert(nl@ =~= seq!['\n']);
    join_chars(&done, &nl)
}

/// Renders the schema block from the definitions read from the catalog.
pub fn schema_fmt(rows: &Vec<String>, format_sql: bool, pretty: bool) -> (r: String)
    ensures
        is_schema_block(r@, views_of_strings(rows@), format_sql, pretty),
{
    let mut entries: Vec<Vec<char>> = Vec::new();
    let mut i: usize = 0;
    while i < rows.len()
        invariant
            i <= rows@.len(),
            views(entries@) == rendered_entries(
                views_of_strings(rows@).take(i as int),
                format_sql,
                pretty,
            ),
        decreases rows@.len() - i,
    {
        let raw = rows[i].as_str();
        let text = if !format_sql {
            chars_of(raw)
        } else if pretty {
            chars_of(sql_fmt_pretty(raw).as_str())
        } else {
            chars_of(sql_fmt(raw).as_str())
        };
        assert(text@ == normalized(views_of_strings(rows@)[i as int], format_sql, pretty));
        let e = indent_lines(&text);
        let ghost d0 = views(entries@);
        let ghost ev = e@;
        entries.push(e);
        assert(views(entries@) =~= d0.push(ev));
        i = i + 1;
        assert(views(entries@) =~= rendered_entries(
            views_of_strings(rows@).take(i as int),
            format_sql,
            pretty,
        ));
    }
    assert(views_of_strings(rows@).take(i as int) =~= views_of_strings(rows@));
    let sorted = sort_chars(entries);
    let nl = vec!['\n'];
    assert(nl@ =~= seq!['\n']);
    let joined = join_chars(&sorted, &nl);
    let r = string_of(&joined);
    assert(lex_sorted(views(sorted@)));
    r
}

/// The view of each string.
pub open spec fn views_of_strings(v: Seq<String>) -> Seq<Seq<char>> {
    v.map_values(|x: String| x@)
}

/// The schema block depends only on which definitions the catalog holds and
/// how often, not on the order in which it lists them; in particular the same
/// catalog always gives the same block.
pub proof fn lemma_schema_block_order_free(
    x: Seq<char>,
    y: Seq<char>,
    a: Seq<Seq<char>>,
    b: Seq<Seq<char>>,
    format_sql: bool,
    pretty: bool,
)
    requires
        a.to_multiset() == b.to_multiset(),
        is_schema_block(x, a, format_sql, pretty),
        is_schema_block(y, b, format_sql, pretty),
    ensures
        x == y,
{
    let f = |raw: Seq<char>| rendered_entry(raw, format_sql, pretty);
    lemma_map_same_entries(a, b, f);
    assert(rendered_entries(a, format_sql, pretty) == a.map_values(f));
    assert(rendered_entries(b, format_sql, pretty) == b.map_values(f));
    let es = choose|es: Seq<Seq<char>>|
        #![trigger lex_sorted(es)]
        lex_sorted(es) && es.to_multiset() == rendered_entries(a, format_sql, pretty).to_multiset()
            && x == join(es, seq!['\n']);
    let fs = choose|fs: Seq<Seq<char>>|
        #![trigger lex_sorted(fs)]
        lex_sorted(fs) && fs.to_multiset() == rendered_entries(b, format_sql, pretty).to_multiset()
            && y == join(fs, seq!['\n']);
    lemma_sorted_unique(es, fs);
}

} // verus!
