//! Display outputs as `wf-recorder --list-output` reports them.
use crate::text::{
    chars_of, concat, find, lines, lines_of, slice, string_of, views, words,
    words_of,
};
use vstd::prelude::*;

verus! {

/// One display output that the recorder can capture.
#[derive(Debug, Clone, PartialEq, Eq)]
pub struct AvailableOutput {
    pub output_name: String,
    pub description: String,
}

/// The name and description of an output.
pub open spec fn output_view(o: AvailableOutput) -> (Seq<char>, Seq<char>) {
    (o.output_name@, o.description@)
}

/// The names and descriptions of a list of outputs.
pub open spec fn output_views(v: Seq<AvailableOutput>) -> Seq<(Seq<char>, Seq<char>)> {
    v.map_values(|o: AvailableOutput| output_view(o))
}

/// The output that one line of `--list-output` describes: the name stands
/// between the first `"Name: "` and the first `" Description: "` after it,
/// the description runs from the first `"Description: "` to the end.
pub open spec fn parsed_line(line: Seq<char>) -> Option<(Seq<char>, Seq<char>)> {
    match crate::text::first_occurrence(line, "Name: "@) {
        None => None,
        Some(a) => {
            let rest = line.skip((a + "Name: "@.len()) as int);
            match crate::text::first_occurrence(rest, " Description: "@) {
                None => None,
                Some(b) => match crate::text::first_occurrence(line, "Description: "@) {
                    None => None,
                    Some(d) => Some((rest.take(b as int), line.skip((d + "Description: "@.len()) as int))),
                },
            }
        },
    }
}

/// The outputs that the lines of a `--list-output` report describe, in order,
/// lines that describe none left out.
pub open spec fn parsed_report(ls: Seq<Seq<char>>) -> Seq<(Seq<char>, Seq<char>)>
    decreases ls.len(),
{
    if ls.len() == 0 {
        Seq::empty()
    } else {
        parsed_report(ls.drop_last()) + match parsed_line(ls.last()) {
            Some(o) => seq![o],
            None => Seq::empty(),
        }
    }
}

/// Words joined by single spaces.
pub open spec fn joined(ws: Seq<Seq<char>>) -> Seq<char>
    decreases ws.len(),
{
    if ws.len() == 0 {
        Seq::empty()
    } else if ws.len() == 1 {
        ws[0]
    } else {
        joined(ws.drop_last()) + seq![' '] + ws.last()
    }
}

/// `name (first three words of the description)`.
pub open spec fn display_name_of(name: Seq<char>, description: Seq<char>) -> Seq<char> {
    let ws = words_of(description);
    let shown = if ws.len() <= 3 { ws } else { ws.take(3) };
    name + " ("@ + joined(shown) + ")"@
}

proof fn lemma_occurs_char(s: Seq<char>, p: Seq<char>, q: int, k: int)
    requires
        crate::text::occurs_at(s, p, q),
        0 <= k < p.len(),
    ensures
        s[q + k] == p[k],
{
    assert(s.subrange(q, q + p.len())[k] == s[q + k]);
}

/// The word that both description tags are made of.
pub open spec fn description_word() -> Seq<char> {
    "Description"@
}

/// `name` holds no `Description`.
pub open spec fn lacks_description_word(name: Seq<char>) -> bool {
    forall|q: int| !#[trigger] crate::text::occurs_at(name, description_word(), q)
}

proof fn lemma_tag_chars()
    ensures
        description_word().len() == 11,
        description_word()[0] == 'D',
        forall|k: int| 0 <= k < 11 ==> #[trigger] description_word()[k] != ' ',
        " Description: "@ == seq![' '] + description_word() + seq![':', ' '],
        "Description: "@ == description_word() + seq![':', ' '],
        "Name: "@ == seq!['N', 'a', 'm', 'e', ':', ' '],
{
    reveal_strlit("Description");
    reveal_strlit(" Description: ");
    reveal_strlit("Description: ");
    reveal_strlit("Name: ");
    assert(" Description: "@ =~= seq![' '] + description_word() + seq![':', ' ']);
    assert("Description: "@ =~= description_word() + seq![':', ' ']);
    assert("Name: "@ =~= seq!['N', 'a', 'm', 'e', ':', ' ']);
}

/// Where `p` occurs in `s` at `q`, and `p` holds `w` at `k`, `w` occurs in `s` at `q + k`.
proof fn lemma_occurs_inside(s: Seq<char>, p: Seq<char>, q: int, w: Seq<char>, k: int)
    requires
        crate::text::occurs_at(s, p, q),
        0 <= k,
        k + w.len() <= p.len(),
        p.subrange(k, k + w.len()) == w,
    ensures
        crate::text::occurs_at(s, w, q + k),
{
    assert forall|j: int| 0 <= j < w.len() implies s.subrange(q + k, q + k + w.len())[j]
        == w[j] by {
        lemma_occurs_char(s, p, q, k + j);
        assert(p.subrange(k, k + w.len())[j] == p[k + j]);
    }
    assert(s.subrange(q + k, q + k + w.len()) =~= w);
}

/// Where `w` occurs in `a + b` inside `a`, it occurs in `a` at the same place.
proof fn lemma_occurs_in_prefix(a: Seq<char>, b: Seq<char>, w: Seq<char>, q: int)
    requires
        crate::text::occurs_at(a + b, w, q),
        q + w.len() <= a.len(),
    ensures
        crate::text::occurs_at(a, w, q),
{
    assert((a + b).subrange(q, q + w.len()) =~= a.subrange(q, q + w.len()));
}

proof fn lemma_separator_first(name: Seq<char>, description: Seq<char>)
    requires
        lacks_description_word(name),
    ensures
        crate::text::first_occurrence(name + " Description: "@ + description, " Description: "@)
            == Some(name.len()),
{
    lemma_tag_chars();
    let sep = " Description: "@;
    let w = description_word();
    let rest = name + sep + description;
    let n = name.len() as int;
    assert(rest.subrange(n, n + 14) =~= sep);
    assert(sep.subrange(1, 12) =~= w);
    assert forall|q: int| 0 <= q < n implies !#[trigger] crate::text::occurs_at(rest, sep, q) by {
        if crate::text::occurs_at(rest, sep, q) {
            if q + 12 <= n {
                lemma_occurs_inside(rest, sep, q, w, 1);
                assert(rest =~= name + (sep + description));
                lemma_occurs_in_prefix(name, sep + description, w, q + 1);
            } else {
                lemma_occurs_char(rest, sep, q, n - q);
                assert(rest[n] == sep[0]);
                assert(sep[n - q] == w[n - q - 1]);
            }
        }
    }
    crate::text::lemma_first_occurrence_at(rest, sep, n as nat);
}

proof fn lemma_description_first(name: Seq<char>, description: Seq<char>)
    requires
        lacks_description_word(name),
    ensures
        crate::text::first_occurrence(
            "Name: "@ + name + " Description: "@ + description,
            "Description: "@,
        ) == Some(name.len() + 7),
{
    lemma_tag_chars();
    let tag = "Name: "@;
    let sep = " Description: "@;
    let dtag = "Description: "@;
    let w = description_word();
    let line = tag + name + sep + description;
    let n = name.len() as int;
    assert(line.subrange(n + 7, n + 20) =~= dtag);
    assert(dtag.subrange(0, 11) =~= w);
    assert forall|q: int| 0 <= q < n + 7 implies !#[trigger] crate::text::occurs_at(
        line,
        dtag,
        q,
    ) by {
        if crate::text::occurs_at(line, dtag, q) {
            lemma_occurs_char(line, dtag, q, 0);
            if q < 6 {
                assert(line[q] == tag[q]);
            } else if q + 11 <= n + 6 {
                lemma_occurs_inside(line, dtag, q, w, 0);
                assert(line =~= (tag + name) + (sep + description));
                lemma_occurs_in_prefix(tag + name, sep + description, w, q);
                assert((tag + name).subrange(q, q + 11) =~= name.subrange(q - 6, q + 5));
                assert(crate::text::occurs_at(name, w, q - 6));
            } else if q < n + 6 {
                lemma_occurs_char(line, dtag, q, n + 6 - q);
                assert(line[n + 6] == sep[0]);
                assert(dtag[n + 6 - q] == w[n + 6 - q]);
            } else {
                assert(line[q] == sep[0]);
            }
        }
    }
    crate::text::lemma_first_occurrence_at(line, dtag, (n + 7) as nat);
}

/// A line in the shape `--list-output` prints, `Name: <name> Description: <description>`,
/// reads back as that name and description, for any name in which
/// `Description` does not occur.
pub proof fn lemma_parse_line_round_trip(name: Seq<char>, description: Seq<char>)
    requires
        lacks_description_word(name),
    ensures
        parsed_line("Name: "@ + name + " Description: "@ + description) == Some(
            (name, description),
        ),
{
    let tag = "Name: "@;
    let line = tag + name + " Description: "@ + description;
    let n = name.len() as int;
    assert(tag.len() == 6) by {
        reveal_strlit("Name: ");
    }
    assert(" Description: "@.len() == 14) by {
        reveal_strlit(" Description: ");
    }
    assert("Description: "@.len() == 13) by {
        reveal_strlit("Description: ");
    }
    assert(line.subrange(0, 6) =~= tag);
    crate::text::lemma_first_occurrence_at(line, tag, 0);
    let rest = line.skip(6);
    assert(rest =~= name + " Description: "@ + description);
    lemma_separator_first(name, description);
    lemma_description_first(name, description);
    assert(rest.take(n) =~= name);
    assert(line.skip(n + 20) =~= description);
}

impl AvailableOutput {
    /// A field-by-field copy.
    pub fn copied(&self) -> (r: AvailableOutput)
        ensures
            r == *self,
    {
        AvailableOutput { output_name: self.output_name.clone(), description: self.description.clone() }
    }

    /// The output that one line of the report describes, if any.
    pub fn parse_line(line: &str) -> (r: Option<AvailableOutput>)
        ensures
            r matches Some(o) ==> parsed_line(line@) == Some(output_view(o)),
            r is None <==> parsed_line(line@) is None,
    {
        let cs = chars_of(line);
        Self::parse_chars(&cs)
    }

    fn parse_chars(cs: &Vec<char>) -> (r: Option<AvailableOutput>)
        ensures
            r matches Some(o) ==> parsed_line(cs@) == Some(output_view(o)),
            r is None <==> parsed_line(cs@) is None,
    {
        let name_tag = chars_of("Name: ");
        let desc_sep = chars_of(" Description: ");
        let desc_tag = chars_of("Description: ");
        let a = match find(cs, &name_tag) {
            Some(a) => a,
            None => return None,
        };
        assert(crate::text::occurs_at(cs@, name_tag@, a as int));
        let n = cs.len();
        let rest = slice(cs, a + name_tag.len(), n);
        assert(rest@ == cs@.skip(a + name_tag@.len()));
        let b = match find(&rest, &desc_sep) {
            Some(b) => b,
            None => return None,
        };
        let d = match find(cs, &desc_tag) {
            Some(d) => d,
            None => return None,
        };
        let name = slice(&rest, 0, b);
        let description = slice(cs, d + desc_tag.len(), cs.len());
        assert(name@ == rest@.take(b as int));
        assert(description@ == cs@.skip(d + desc_tag@.len()));
        Some(AvailableOutput { output_name: string_of(&name), description: string_of(&description) })
    }

    /// The outputs that a whole `--list-output` report describes.
    pub fn parse_report(report: &str) -> (r: Vec<AvailableOutput>)
        ensures
            output_views(r@) == parsed_report(lines_of(report@)),
    {
        let cs = chars_of(report);
        let ls = lines(&cs);
        let mut out: Vec<AvailableOutput> = Vec::new();
        let mut i: usize = 0;
        while i < ls.len()
            invariant
                i <= ls@.len(),
                views(ls@) == lines_of(report@),
                output_views(out@) == parsed_report(views(ls@).take(i as int)),
            decreases ls@.len() - i,
        {
            let parsed = Self::parse_chars(&ls[i]);
            proof {
                let vs = views(ls@);
                assert(vs.take(i + 1).drop_last() =~= vs.take(i as int));
                assert(vs.take(i + 1).last() == ls@[i as int]@);
            }
            match parsed {
                Some(o) => {
                    out.push(o);
                    assert(output_views(out@) =~= parsed_report(views(ls@).take(i + 1)));
                },
                None => {
                    assert(output_views(out@) =~= parsed_report(views(ls@).take(i + 1)));
                },
            }
            i = i + 1;
        }
        assert(views(ls@).take(ls@.len() as int) =~= views(ls@));
        out
    }

    /// The name, then the first three words of the description in parentheses.
    pub fn display_name(&self) -> (r: String)
        ensures
            r@ == display_name_of(self.output_name@, self.description@),
    {
        let ws = words(&chars_of(self.description.as_str()));
        let ghost all = views(ws@);
        let shown: usize = if ws.len() <= 3 { ws.len() } else { 3 };
        let ghost kept = if all.len() <= 3 { all } else { all.take(3) };
        assert(kept =~= all.take(shown as int));
        let mut body: Vec<char> = Vec::new();
        let mut i: usize = 0;
        let space = chars_of(" ");
        proof {
            reveal_strlit(" ");
        }
        while i < shown
            invariant
                shown <= ws@.len(),
                all == views(ws@),
                space@ == seq![' '],
                i <= shown,
                body@ == joined(all.take(i as int)),
            decreases shown - i,
        {
            assert(all.take(i + 1).drop_last() =~= all.take(i as int));
            if i == 0 {
                body = ws[0].clone();
                assert(body@ == ws@[0]@);
            } else {
                body = concat(&concat(&body, &space), &ws[i]);
            }
            i = i + 1;
        }
        let name = chars_of(self.output_name.as_str());
        let r = concat(&concat(&concat(&name, &chars_of(" (")), &body), &chars_of(")"));
        string_of(&r)
    }
}

} // verus!
