//! The screen resolution as `xrandr --current` reports it.
use crate::text::{chars_of, find, first_occurrence, lines, lines_of, slice, string_of, views, words, words_of};
use vstd::prelude::*;

verus! {

/// A token that may give a resolution: it starts with an ASCII digit and holds an `x`.
pub open spec fn is_resolution_token(w: Seq<char>) -> bool {
    w.len() > 0 && '0' <= w[0] && w[0] <= '9' && first_occurrence(w, seq!['x']) is Some
}

/// The first word that may give a resolution.
pub open spec fn first_resolution_token(ws: Seq<Seq<char>>) -> Option<Seq<char>>
    decreases ws.len(),
{
    if ws.len() == 0 {
        None
    } else if is_resolution_token(ws[0]) {
        Some(ws[0])
    } else {
        first_resolution_token(ws.drop_first())
    }
}

/// The two sides of the only `x` in `w`; `None` unless there is exactly one.
pub open spec fn split_at_x(w: Seq<char>) -> Option<(Seq<char>, Seq<char>)> {
    match first_occurrence(w, seq!['x']) {
        None => None,
        Some(k) => {
            let rest = w.skip(k + 1int);
            if first_occurrence(rest, seq!['x']) is Some {
                None
            } else {
                Some((w.take(k as int), rest))
            }
        },
    }
}

/// A line that describes the primary display or the current mode.
pub open spec fn marks_display(line: Seq<char>) -> bool {
    first_occurrence(line, "primary"@) is Some || first_occurrence(line, seq!['*']) is Some
}

/// The width and height text that one line offers, if any.
pub open spec fn line_resolution(line: Seq<char>) -> Option<(Seq<char>, Seq<char>)> {
    if marks_display(line) {
        match first_resolution_token(words_of(line)) {
            Some(w) => split_at_x(w),
            None => None,
        }
    } else {
        None
    }
}

/// The width and height texts that the lines offer, in order.
pub open spec fn resolutions_in(ls: Seq<Seq<char>>) -> Seq<(Seq<char>, Seq<char>)>
    decreases ls.len(),
{
    if ls.len() == 0 {
        Seq::empty()
    } else {
        resolutions_in(ls.drop_last()) + match line_resolution(ls.last()) {
            Some(p) => seq![p],
            None => Seq::empty(),
        }
    }
}

/// The views of a vector of text pairs.
pub open spec fn pair_views(v: Seq<(String, String)>) -> Seq<(Seq<char>, Seq<char>)> {
    v.map_values(|p: (String, String)| (p.0@, p.1@))
}

fn token_in(ws: &Vec<Vec<char>>) -> (r: Option<usize>)
    ensures
        r matches Some(i) ==> i < ws@.len() && first_resolution_token(views(ws@)) == Some(
            ws@[i as int]@,
        ),
        r is None ==> first_resolution_token(views(ws@)) is None,
{
    let x = chars_of("x");
    proof {
        reveal_strlit("x");
    }
    assert(x@ =~= seq!['x']);
    let mut i: usize = 0;
    assert(views(ws@).skip(0) =~= views(ws@));
    while i < ws.len()
        invariant
            i <= ws@.len(),
            x@ == seq!['x'],
            first_resolution_token(views(ws@)) == first_resolution_token(
                views(ws@).skip(i as int),
            ),
        decreases ws@.len() - i,
    {
        let w = &ws[i];
        proof {
            let rest = views(ws@).skip(i as int);
            assert(rest[0] == w@);
            assert(rest.drop_first() =~= views(ws@).skip(i + 1));
        }
        if w.len() > 0 && '0' <= w[0] && w[0] <= '9' && find(w, &x).is_some() {
            return Some(i);
        }
        i = i + 1;
    }
    None
}

fn split_token(w: &Vec<char>) -> (r: Option<(String, String)>)
    ensures
        r matches Some(p) ==> split_at_x(w@) == Some((p.0@, p.1@)),
        r is None <==> split_at_x(w@) is None,
{
    let x = chars_of("x");
    proof {
        reveal_strlit("x");
    }
    assert(x@ =~= seq!['x']);
    match find(w, &x) {
        None => None,
        Some(k) => {
            let n = w.len();
            let rest = slice(w, k + 1, n);
            assert(rest@ =~= w@.skip(k + 1int));
            if find(&rest, &x).is_some() {
                None
            } else {
                Some((string_of(&slice(w, 0, k)), string_of(&rest)))
            }
        },
    }
}

/// The width and height texts that an `xrandr --current` report offers, in
/// order: one for each line that names the primary display or holds a `*`,
/// taken from its first word that starts with a digit and holds an `x`,
/// when that word splits at a single `x`.
pub fn resolution_candidates(report: &str) -> (r: Vec<(String, String)>)
    ensures
        pair_views(r@) == resolutions_in(lines_of(report@)),
{
    let ls = lines(&chars_of(report));
    let primary = chars_of("primary");
    let star = chars_of("*");
    proof {
        reveal_strlit("*");
    }
    assert(star@ =~= seq!['*']);
    let mut out: Vec<(String, String)> = Vec::new();
    let mut i: usize = 0;
    while i < ls.len()
        invariant
            i <= ls@.len(),
            views(ls@) == lines_of(report@),
            primary@ == "primary"@,
            star@ == seq!['*'],
            pair_views(out@) == resolutions_in(views(ls@).take(i as int)),
        decreases ls@.len() - i,
    {
        let line = &ls[i];
        proof {
            let vs = views(ls@);
            assert(vs.take(i + 1).drop_last() =~= vs.take(i as int));
            assert(vs.take(i + 1).last() == line@);
        }
        let mut found: Option<(String, String)> = None;
        if find(line, &primary).is_some() || find(line, &star).is_some() {
            let ws = words(line);
            match token_in(&ws) {
                Some(t) => {
                    found = split_token(&ws[t]);
                },
                None => {},
            }
        }
        match found {
            Some(p) => {
                out.push(p);
                assert(pair_views(out@) =~= resolutions_in(views(ls@).take(i + 1)));
            },
            None => {
                assert(pair_views(out@) =~= resolutions_in(views(ls@).take(i + 1)));
            },
        }
        i = i + 1;
    }
    assert(views(ls@).take(ls@.len() as int) =~= views(ls@));
    out
}

} // verus!
