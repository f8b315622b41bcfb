//! DOT label helpers: escaping of text content and assembly of the HTML-like
//! record label for a table (a bold title row, then one row per column).

use vstd::prelude::*;

use crate::infoset::{Column, ColumnV, views_of_columns};

verus! {

/// What one character of text content becomes inside the HTML-like label:
/// the four characters meaningful to the markup grammar are replaced by
/// entities, every other character stands as itself.
pub open spec fn escaped_char(c: char) -> Seq<char> {
    if c == '&' {
        "&amp;"@
    } else if c == '<' {
        "&lt;"@
    } else if c == '>' {
        "&gt;"@
    } else if c == '"' {
        "&quot;"@
    } else {
        seq![c]
    }
}

/// Escaping of a whole piece of text content, character by character.
pub open spec fn escaped(s: Seq<char>) -> Seq<char>
    decreases s.len(),
{
    if s.len() == 0 {
        Seq::empty()
    } else {
        escaped_char(s[0]) + escaped(s.drop_first())
    }
}

proof fn lemma_escaped_push(s: Seq<char>, c: char)
    ensures
        escaped(s.push(c)) == escaped(s) + escaped_char(c),
    decreases s.len(),
{
    if s.len() == 0 {
        assert(s.push(c)[0] == c);
        assert(s.push(c).drop_first() =~= Seq::<char>::empty());
        assert(escaped(s) == Seq::<char>::empty());
        assert(escaped(s.push(c)) == escaped_char(c) + escaped(Seq::<char>::empty()));
        assert(escaped(s.push(c)) =~= escaped(s) + escaped_char(c));
    } else {
        assert(s.push(c)[0] == s[0]);
        assert(s.push(c).drop_first() =~= s.drop_first().push(c));
        lemma_escaped_push(s.drop_first(), c);
        assert(escaped(s.push(c)) =~= escaped(s) + escaped_char(c));
    }
}

/// Escapes a piece of text for insertion into the label markup.
pub fn escape(s: &str) -> (r: String)
    ensures
        r@ == escaped(s@),
{
    let len: usize = s.unicode_len();
    let mut out = String::new();
    let mut i: usize = 0;
    while i < len
        invariant
            len == s@.len(),
            i <= len,
            out@ == escaped(s@.take(i as int)),
        decreases len - i,
    {
        let c = s.get_char(i);
        if c == '&' {
            out.append("&amp;");
        } else if c == '<' {
            out.append("&lt;");
        } else if c == '>' {
            out.append("&gt;");
        } else if c == '"' {
            out.append("&quot;");
        } else {
            let piece = s.substring_char(i, i + 1);
            assert(piece@ =~= seq![c]);
            out.append(piece);
        }
        proof {
            assert(s@.take(i + 1 as int) =~= s@.take(i as int).push(c));
            lemma_escaped_push(s@.take(i as int), c);
        }
        i = i + 1;
    }
    proof {
        assert(s@.take(len as int) =~= s@);
    }
    out
}

/// One of the four entities begins at position `i` of `t`.
pub open spec fn entity_at(t: Seq<char>, i: int) -> bool {
    ||| (i + 5 <= t.len() && t.subrange(i, i + 5) == "&amp;"@)
    ||| (i + 4 <= t.len() && t.subrange(i, i + 4) == "&lt;"@)
    ||| (i + 4 <= t.len() && t.subrange(i, i + 4) == "&gt;"@)
    ||| (i + 6 <= t.len() && t.subrange(i, i + 6) == "&quot;"@)
}

/// Law: escaped text can no longer corrupt the surrounding markup — it
/// contains no `<`, `>` or `"` at all, and every `&` in it begins one of the
/// four entities, so no unescaped occurrence of a markup-significant
/// character survives.
pub proof fn lemma_escaped_no_raw_markup(s: Seq<char>)
    ensures
        forall|i: int|
            0 <= i < escaped(s).len() ==> escaped(s)[i] != '<' && escaped(s)[i] != '>' && escaped(
                s,
            )[i] != '"',
        forall|i: int|
            0 <= i < escaped(s).len() && escaped(s)[i] == '&' ==> entity_at(escaped(s), i),
    decreases s.len(),
{
    reveal_strlit("&amp;");
    reveal_strlit("&lt;");
    reveal_strlit("&gt;");
    reveal_strlit("&quot;");
    if s.len() == 0 {
    } else {
        lemma_escaped_no_raw_markup(s.drop_first());
        let head = escaped_char(s[0]);
        let rest = escaped(s.drop_first());
        assert(escaped(s) == head + rest);
        assert forall|i: int|
            0 <= i < escaped(s).len() implies escaped(s)[i] != '<' && escaped(s)[i] != '>'
            && escaped(s)[i] != '"' by {
            if i < head.len() {
                assert(escaped(s)[i] == head[i]);
            } else {
                assert(escaped(s)[i] == rest[i - head.len()]);
            }
        }
        assert forall|i: int|
            0 <= i < escaped(s).len() && escaped(s)[i] == '&' implies entity_at(escaped(s), i) by {
            if i < head.len() {
                assert(head[i] == '&');
                assert(i == 0);
                if s[0] == '&' {
                    assert(escaped(s).subrange(0, 5) =~= head);
                } else if s[0] == '<' {
                    assert(escaped(s).subrange(0, 4) =~= head);
                } else if s[0] == '>' {
                    assert(escaped(s).subrange(0, 4) =~= head);
                } else if s[0] == '"' {
                    assert(escaped(s).subrange(0, 6) =~= head);
                }
            } else {
                let k = i - head.len();
                assert(rest[k] == escaped(s)[i]);
                assert(entity_at(rest, k));
                if k + 5 <= rest.len() && rest.subrange(k, k + 5) == "&amp;"@ {
                    assert(escaped(s).subrange(i, i + 5) =~= rest.subrange(k, k + 5));
                } else if k + 4 <= rest.len() && rest.subrange(k, k + 4) == "&lt;"@ {
                    assert(escaped(s).subrange(i, i + 4) =~= rest.subrange(k, k + 4));
                } else if k + 4 <= rest.len() && rest.subrange(k, k + 4) == "&gt;"@ {
                    assert(escaped(s).subrange(i, i + 4) =~= rest.subrange(k, k + 4));
                } else {
                    assert(escaped(s).subrange(i, i + 6) =~= rest.subrange(k, k + 6));
                }
            }
        }
    }
}

/// The escaped text wrapped in a bold element.
pub open spec fn spec_bold(v: Seq<char>) -> Seq<char> {
    "<b>"@ + escaped(v) + "</b>"@
}

/// Renders escaped text in bold markup.
pub fn bold(value: &str) -> (r: String)
    ensures
        r@ == spec_bold(value@),
{
    let mut out = String::new();
    out.append("<b>");
    let e = escape(value);
    out.append(e.as_str());
    out.append("</b>");
    out
}

/// The title row of a table's label: a one-row table holding the table name
/// in bold.
pub open spec fn spec_node_title(v: Seq<char>) -> Seq<char> {
    "<table border=\"0\" cellspacing=\"0.4\"><tr><td align=\"left\" height=\"24\" valign=\"bottom\"><b>"@
        + escaped(v) + "</b></td></tr></table>"@
}

/// Renders the title row of a table's label.
pub fn node_title(value: &str) -> (r: String)
    ensures
        r@ == spec_node_title(value@),
{
    let mut out = String::new();
    out.append(
        "<table border=\"0\" cellspacing=\"0.4\"><tr><td align=\"left\" height=\"24\" valign=\"bottom\"><b>",
    );
    let e = escape(value);
    out.append(e.as_str());
    out.append("</b></td></tr></table>");
    out
}

/// One row of a table's label: the column name, a `*` marker when the column
/// is a primary key, a separating space, then the datatype in bold.
pub open spec fn spec_node_field(c: ColumnV) -> Seq<char> {
    "<tr><td align=\"left\">"@ + escaped(c.name) + (if c.primary_key {
        "*"@
    } else {
        Seq::<char>::empty()
    }) + " <b>"@ + escaped(c.datatype) + "</b></td></tr>"@
}

/// Renders one label row for a column.
pub fn node_field(field: &Column) -> (r: String)
    ensures
        r@ == spec_node_field(field@),
{
    let mut out = String::new();
    out.append("<tr><td align=\"left\">");
    let name = escape(field.name.as_str());
    out.append(name.as_str());
    if field.primary_key {
        out.append("*");
    }
    out.append(" <b>");
    let datatype = escape(field.datatype.as_str());
    out.append(datatype.as_str());
    out.append("</b></td></tr>");
    out
}

/// The concatenation of the label rows of a column sequence, in order.
pub open spec fn spec_fields(cs: Seq<ColumnV>) -> Seq<char>
    decreases cs.len(),
{
    if cs.len() == 0 {
        Seq::empty()
    } else {
        spec_fields(cs.drop_last()) + spec_node_field(cs.last())
    }
}

/// The body of a table's label: one row per column, in extraction order.
pub open spec fn spec_node_body(cs: Seq<ColumnV>) -> Seq<char> {
    "<table border=\"0\" cellspacing=\"0.4\" width=\"136\">"@ + spec_fields(cs) + "</table>"@
}

fn node_body(columns: &Vec<Column>) -> (r: String)
    ensures
        r@ == spec_node_body(views_of_columns(columns@)),
{
    let ghost cv = views_of_columns(columns@);
    let mut out = String::new();
    out.append("<table border=\"0\" cellspacing=\"0.4\" width=\"136\">");
    let mut i: usize = 0;
    while i < columns.len()
        invariant
            i <= columns@.len(),
            cv == views_of_columns(columns@),
            cv.len() == columns@.len(),
            out@ == "<table border=\"0\" cellspacing=\"0.4\" width=\"136\">"@ + spec_fields(
                cv.take(i as int),
            ),
        decreases columns@.len() - i,
    {
        let row = node_field(&columns[i]);
        out.append(row.as_str());
        proof {
            assert(cv.take(i + 1 as int).drop_last() =~= cv.take(i as int));
            assert(cv.take(i + 1 as int).last() == columns@[i as int]@);
        }
        i = i + 1;
    }
    proof {
        assert(cv.take(columns@.len() as int) =~= cv);
    }
    out.append("</table>");
    out
}

/// The label rows of a column sequence, one per column, in order.
pub open spec fn field_rows(cs: Seq<ColumnV>) -> Seq<Seq<char>> {
    cs.map_values(|c: ColumnV| spec_node_field(c))
}

/// Law: a table's label body holds exactly one row per column — the rendered
/// rows are the columns' field rows in extraction order, none reordered and
/// none filtered, so with the columns sorted by catalog ordinal the rows are
/// non-decreasing by ordinal as well.
pub proof fn lemma_label_rows_in_order(cs: Seq<ColumnV>)
    ensures
        field_rows(cs).len() == cs.len(),
        forall|i: int| 0 <= i < cs.len() ==> field_rows(cs)[i] == spec_node_field(cs[i]),
        spec_fields(cs) == field_rows(cs).flatten(),
    decreases cs.len(),
{
    if cs.len() == 0 {
        assert(field_rows(cs) =~= Seq::<Seq<char>>::empty());
        assert(spec_fields(cs) =~= field_rows(cs).flatten());
    } else {
        lemma_label_rows_in_order(cs.drop_last());
        assert(field_rows(cs).drop_last() =~= field_rows(cs.drop_last()));
        assert(field_rows(cs).last() == spec_node_field(cs.last()));
        field_rows(cs).lemma_flatten_and_flatten_alt_are_equivalent();
        field_rows(cs.drop_last()).lemma_flatten_and_flatten_alt_are_equivalent();
        assert(field_rows(cs).flatten_alt() == field_rows(cs).drop_last().flatten_alt()
            + field_rows(cs).last());
        assert(spec_fields(cs) == spec_fields(cs.drop_last()) + spec_node_field(cs.last()));
    }
}

/// A table's complete label: title row, a `|` separator, then the body.
pub open spec fn spec_node(name: Seq<char>, cs: Seq<ColumnV>) -> Seq<char> {
    spec_node_title(name) + "|"@ + spec_node_body(cs)
}

/// Renders a table's complete label markup.
pub fn node(name: &str, columns: &Vec<Column>) -> (r: String)
    ensures
        r@ == spec_node(name@, views_of_columns(columns@)),
{
    let mut out = node_title(name);
    out.append("|");
    let body = node_body(columns);
    out.append(body.as_str());
    out
}

} // verus!
